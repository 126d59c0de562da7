use vstd::prelude::*;

verus! {

use crate::errors::SchedulerError;

/// Numerator of the stride computation: `stride = LARGE_NUMBER / tickets`,
/// truncating. This is a tunable, not an arbitrary magic value: it must be
/// large relative to the biggest expected ticket count, or integer division
/// collapses distinct ticket counts onto the same stride. With 10000, all
/// ticket counts up to 100 map to pairwise distinct strides, and counts up
/// to 10000 still get a stride of at least 1, so every job's pass advances
/// when it runs.
pub const LARGE_NUMBER: u32 = 10000;

/// One schedulable job of the stride scheduler.
///
/// `pass` is the job's accumulated virtual time: it starts at 0 on admission
/// and grows by `stride` each time the job is selected. `stride` is fixed for
/// the job's lifetime and inversely proportional to its tickets, so jobs with
/// more tickets accumulate virtual time more slowly and are selected more
/// often. `pass` is held in 64 bits while strides fit in 32, so it cannot
/// wrap within any realistic number of selections; an increment that would
/// wrap is refused rather than applied.
#[derive(Clone, Copy, Debug, PartialEq, Eq, Structural)]
pub struct Job {
    pub id: u32,
    pub tickets: u32,
    pub pass: u64,
    pub stride: u32,
}

impl Job {
    /// Build a job with zero accumulated pass and the stride that
    /// `large_number` fixes for its ticket count. A zero ticket count would
    /// divide by zero, so it falls back to the full numerator; the schedulers
    /// never admit such a job.
    pub fn new(id: u32, tickets: u32, large_number: u32) -> (r: Job)
        ensures
            r.id == id,
            r.tickets == tickets,
            r.pass == 0,
            r.stride == (if tickets > 0 {
                large_number / tickets
            } else {
                large_number
            }),
    {
        let stride = if tickets > 0 {
            large_number / tickets
        } else {
            large_number
        };
        Job { id, tickets, pass: 0, stride }
    }
}

/// The strict scheduling preference: `a` runs before `b` when its pass is
/// smaller, with ties broken deterministically by the lower id.
pub open spec fn prefers(a: Job, b: Job) -> bool {
    a.pass < b.pass || (a.pass == b.pass && a.id < b.id)
}

/// `k` is the index selection must pick: every other job is strictly less
/// preferred. With unique ids this index is unique.
pub open spec fn is_min_index(jobs: Seq<Job>, k: int) -> bool {
    &&& 0 <= k < jobs.len()
    &&& forall|j: int| 0 <= j < jobs.len() && j != k ==> prefers(jobs[k], jobs[j])
}

/// The largest stride among the jobs; 0 when there are none.
pub open spec fn max_stride(jobs: Seq<Job>) -> int
    decreases jobs.len(),
{
    if jobs.len() == 0 {
        0
    } else if jobs.last().stride >= max_stride(jobs.drop_last()) {
        jobs.last().stride as int
    } else {
        max_stride(jobs.drop_last())
    }
}

pub proof fn lemma_stride_le_max(jobs: Seq<Job>, i: int)
    requires
        0 <= i < jobs.len(),
    ensures
        jobs[i].stride <= max_stride(jobs),
    decreases jobs.len(),
{
    if i + 1 < jobs.len() {
        lemma_stride_le_max(jobs.drop_last(), i);
    }
}

/// The stride scheduler: the admitted jobs, the numerator their strides were
/// computed from, and the quantum each selected job is assumed to run for
/// (the quantum is bookkeeping for the caller; selection itself never reads
/// it).
pub struct StrideScheduler {
    jobs: Vec<Job>,
    large_number: u32,
    quantum: u32,
}

impl StrideScheduler {
    /// The admitted jobs, in admission order.
    pub closed spec fn jobs_seq(self) -> Seq<Job> {
        self.jobs@
    }

    /// The numerator used for stride computation.
    pub closed spec fn spec_large_number(self) -> u32 {
        self.large_number
    }

    /// The configured quantum.
    pub closed spec fn spec_quantum(self) -> u32 {
        self.quantum
    }

    pub open spec fn contains_id(self, id: u32) -> bool {
        exists|k: int| 0 <= k < self.jobs_seq().len() && self.jobs_seq()[k].id == id
    }

    /// The registry's invariant: ids are unique, every job holds at least one
    /// ticket, and every stride is the one its ticket count derives from the
    /// scheduler's numerator.
    pub open spec fn wf(self) -> bool {
        &&& forall|i: int, j: int|
            0 <= i < self.jobs_seq().len() && 0 <= j < self.jobs_seq().len() && i != j
                ==> self.jobs_seq()[i].id != self.jobs_seq()[j].id
        &&& forall|i: int| 0 <= i < self.jobs_seq().len() ==> self.jobs_seq()[i].tickets >= 1
        &&& forall|i: int|
            0 <= i < self.jobs_seq().len() ==> self.jobs_seq()[i].stride
                == self.spec_large_number() / self.jobs_seq()[i].tickets
    }

    /// The bounded-deviation invariant: no job's pass exceeds any other's by
    /// more than its own stride. Runs that start from a fresh job set keep
    /// this at every step, which is what makes stride scheduling's fairness
    /// exact rather than statistical.
    pub open spec fn bounded_spread(self) -> bool {
        forall|i: int, j: int|
            0 <= i < self.jobs_seq().len() && 0 <= j < self.jobs_seq().len()
                ==> self.jobs_seq()[i].pass <= self.jobs_seq()[j].pass + self.jobs_seq()[i].stride
    }

    /// All admitted jobs still stand at zero accumulated virtual time, as
    /// after admission into a fresh scheduler.
    pub open spec fn all_pass_zero(self) -> bool {
        forall|i: int| 0 <= i < self.jobs_seq().len() ==> self.jobs_seq()[i].pass == 0
    }

    pub fn new(quantum: u32) -> (r: StrideScheduler)
        ensures
            r.wf(),
            r.jobs_seq() == Seq::<Job>::empty(),
            r.spec_large_number() == LARGE_NUMBER,
            r.spec_quantum() == quantum,
    {
        StrideScheduler { jobs: Vec::new(), large_number: LARGE_NUMBER, quantum }
    }

    /// The configured quantum. Pure inspection.
    pub fn quantum(&self) -> (r: u32)
        ensures
            r == self.spec_quantum(),
    {
        self.quantum
    }

    /// The numerator strides are computed from. Pure inspection.
    pub fn large_number(&self) -> (r: u32)
        ensures
            r == self.spec_large_number(),
    {
        self.large_number
    }

    /// The number of admitted jobs. Pure inspection.
    pub fn job_count(&self) -> (r: usize)
        ensures
            r == self.jobs_seq().len(),
    {
        self.jobs.len()
    }

    fn has_id(&self, id: u32) -> (r: bool)
        ensures
            r == self.contains_id(id),
    {
        let mut i: usize = 0;
        while i < self.jobs.len()
            invariant
                0 <= i <= self.jobs_seq().len(),
                forall|k: int| 0 <= k < i ==> self.jobs_seq()[k].id != id,
            decreases self.jobs_seq().len() - i,
        {
            if self.jobs[i].id == id {
                return true;
            }
            i += 1;
        }
        false
    }

    /// Admit a job. The checks mirror the lottery scheduler's: zero tickets
    /// are rejected with `InvalidTickets`, an already-admitted id with
    /// `DuplicateId`, and a failed admission leaves the registry unchanged.
    /// A successful admission appends the job with pass 0 and the stride its
    /// tickets derive from the scheduler's numerator.
    pub fn add_job(&mut self, id: u32, tickets: u32) -> (r: Result<(), SchedulerError>)
        requires
            old(self).wf(),
        ensures
            final(self).wf(),
            final(self).spec_large_number() == old(self).spec_large_number(),
            final(self).spec_quantum() == old(self).spec_quantum(),
            tickets == 0 ==> r == Err::<(), SchedulerError>(SchedulerError::InvalidTickets)
                && *final(self) == *old(self),
            tickets >= 1 && old(self).contains_id(id) ==> r == Err::<(), SchedulerError>(
                SchedulerError::DuplicateId,
            ) && *final(self) == *old(self),
            tickets >= 1 && !old(self).contains_id(id) ==> r == Ok::<(), SchedulerError>(())
                && final(self).jobs_seq() == old(self).jobs_seq().push(
                (Job {
                    id,
                    tickets,
                    pass: 0,
                    stride: old(self).spec_large_number() / tickets,
                }),
            ),
            old(self).all_pass_zero() ==> final(self).all_pass_zero(),
    {
        if tickets == 0 {
            return Err(SchedulerError::InvalidTickets);
        }
        if self.has_id(id) {
            return Err(SchedulerError::DuplicateId);
        }
        let job = Job::new(id, tickets, self.large_number);
        self.jobs.push(job);
        proof {
            let jobs0 = old(self).jobs_seq();
            let jobs1 = self.jobs_seq();
            let n = jobs0.len() as int;
            assert(jobs1 =~= jobs0.push(job));
            assert forall|i: int, j: int|
                0 <= i < jobs1.len() && 0 <= j < jobs1.len() && i != j implies jobs1[i].id
                != jobs1[j].id by {
                if i < n && j < n {
                    assert(jobs1[i] == jobs0[i] && jobs1[j] == jobs0[j]);
                } else if i == n {
                    assert(jobs0[j].id != id);
                } else {
                    assert(jobs0[i].id != id);
                }
            }
        }
        Ok(())
    }

    /// Remove an admitted job from future selection. An absent id fails with
    /// `NotFound` and leaves the registry unchanged. Removal cannot break
    /// the bounded-deviation invariant: the surviving pairs are untouched.
    pub fn remove_job(&mut self, id: u32) -> (r: Result<(), SchedulerError>)
        requires
            old(self).wf(),
        ensures
            final(self).wf(),
            final(self).spec_large_number() == old(self).spec_large_number(),
            final(self).spec_quantum() == old(self).spec_quantum(),
            !old(self).contains_id(id) ==> r == Err::<(), SchedulerError>(SchedulerError::NotFound)
                && *final(self) == *old(self),
            old(self).contains_id(id) ==> r == Ok::<(), SchedulerError>(()) && exists|k: int|
                0 <= k < old(self).jobs_seq().len() && old(self).jobs_seq()[k].id == id
                    && final(self).jobs_seq() == old(self).jobs_seq().remove(k),
            !final(self).contains_id(id),
            old(self).bounded_spread() ==> final(self).bounded_spread(),
            old(self).all_pass_zero() ==> final(self).all_pass_zero(),
    {
        let mut i: usize = 0;
        #[verifier::loop_isolation(false)]
        while i < self.jobs.len()
            invariant
                *self == *old(self),
                0 <= i <= self.jobs_seq().len(),
                forall|k: int| 0 <= k < i ==> self.jobs_seq()[k].id != id,
            decreases self.jobs_seq().len() - i,
        {
            if self.jobs[i].id == id {
                self.jobs.remove(i);
                proof {
                    let k = i as int;
                    assert(0 <= k < old(self).jobs_seq().len() && old(self).jobs_seq()[k].id == id
                        && self.jobs_seq() == old(self).jobs_seq().remove(k));
                    assert(old(self).contains_id(id));
                    assert forall|m: int| 0 <= m < self.jobs_seq().len() implies self.jobs_seq()[m].id
                        != id by {
                        if m >= k {
                            assert(self.jobs_seq()[m] == old(self).jobs_seq()[m + 1]);
                        }
                    }
                }
                return Ok(());
            }
            i += 1;
        }
        Err(SchedulerError::NotFound)
    }

    /// One stride selection. An empty registry yields `Ok(None)`. Otherwise
    /// the job with the minimum pass (ties to the lowest id) is the winner:
    /// its pass advances by its stride and it goes back into contention, so
    /// it cannot run again until its pass is once more the smallest. If the
    /// advance would wrap the 64-bit pass, the selection fails with
    /// `PassOverflow` and changes nothing. The winner is always a currently
    /// admitted id, and a selection never breaks the bounded-deviation
    /// invariant.
    pub fn schedule(&mut self) -> (r: Result<Option<u32>, SchedulerError>)
        requires
            old(self).wf(),
        ensures
            final(self).wf(),
            final(self).spec_large_number() == old(self).spec_large_number(),
            final(self).spec_quantum() == old(self).spec_quantum(),
            r == Ok::<Option<u32>, SchedulerError>(None) <==> old(self).jobs_seq().len() == 0,
            old(self).jobs_seq().len() == 0 ==> *final(self) == *old(self),
            old(self).jobs_seq().len() > 0 ==> exists|k: int|
                {
                    &&& is_min_index(old(self).jobs_seq(), k)
                    &&& if old(self).jobs_seq()[k].pass + old(self).jobs_seq()[k].stride
                        > u64::MAX {
                        r == Err::<Option<u32>, SchedulerError>(SchedulerError::PassOverflow)
                            && *final(self) == *old(self)
                    } else {
                        r == Ok::<Option<u32>, SchedulerError>(Some(old(self).jobs_seq()[k].id))
                            && final(self).jobs_seq() == old(self).jobs_seq().update(
                            k,
                            (Job {
                                pass: (old(self).jobs_seq()[k].pass
                                    + old(self).jobs_seq()[k].stride) as u64,
                                ..old(self).jobs_seq()[k]
                            }),
                        )
                    }
                },
            r matches Ok(Some(id)) ==> old(self).contains_id(id) && final(self).contains_id(id),
            old(self).bounded_spread() ==> final(self).bounded_spread(),
    {
        if self.jobs.len() == 0 {
            return Ok(None);
        }
        let mut best: usize = 0;
        let mut i: usize = 1;
        #[verifier::loop_isolation(false)]
        while i < self.jobs.len()
            invariant
                *self == *old(self),
                0 <= best < i <= self.jobs_seq().len(),
                forall|j: int|
                    0 <= j < i && j != best ==> prefers(
                        self.jobs_seq()[best as int],
                        self.jobs_seq()[j],
                    ),
            decreases self.jobs_seq().len() - i,
        {
            let b = self.jobs[best];
            let c = self.jobs[i];
            if c.pass < b.pass || (c.pass == b.pass && c.id < b.id) {
                best = i;
            }
            i += 1;
        }
        proof {
            assert(is_min_index(self.jobs_seq(), best as int));
        }
        let winner = self.jobs[best];
        if winner.stride as u64 > u64::MAX - winner.pass {
            return Err(SchedulerError::PassOverflow);
        }
        let advanced = Job {
            id: winner.id,
            tickets: winner.tickets,
            pass: winner.pass + winner.stride as u64,
            stride: winner.stride,
        };
        self.jobs[best] = advanced;
        proof {
            let jobs0 = old(self).jobs_seq();
            let k = best as int;
            assert(self.jobs_seq() =~= jobs0.update(k, advanced));
            assert(self.contains_id(winner.id)) by {
                assert(self.jobs_seq()[k].id == winner.id);
            }
            if old(self).bounded_spread() {
                assert forall|x: int, y: int|
                    0 <= x < self.jobs_seq().len() && 0 <= y < self.jobs_seq().len()
                        implies self.jobs_seq()[x].pass <= self.jobs_seq()[y].pass
                        + self.jobs_seq()[x].stride by {
                    if x == k {
                        assert(jobs0[k].pass <= jobs0[y].pass);
                    } else if y == k {
                        assert(jobs0[x].pass <= jobs0[k].pass + jobs0[x].stride);
                    }
                }
            }
        }
        Ok(Some(winner.id))
    }

    /// A snapshot of the admitted jobs, in admission order. Pure inspection:
    /// the caller may sort or print it freely without touching scheduler
    /// state.
    pub fn queue_snapshot(&self) -> (r: Vec<Job>)
        ensures
            r@ == self.jobs_seq(),
    {
        let mut out: Vec<Job> = Vec::new();
        let mut i: usize = 0;
        while i < self.jobs.len()
            invariant
                0 <= i <= self.jobs_seq().len(),
                out@ =~= self.jobs_seq().take(i as int),
            decreases self.jobs_seq().len() - i,
        {
            out.push(self.jobs[i]);
            proof {
                assert(out@ =~= self.jobs_seq().take(i as int + 1));
            }
            i += 1;
        }
        proof {
            assert(self.jobs_seq().take(self.jobs_seq().len() as int) =~= self.jobs_seq());
        }
        out
    }
}

/// Selection is deterministic: at most one index can be the minimum under
/// the strict pass-then-id preference, so a caller reading `schedule`'s
/// contract can pin the winner down exactly, and a fixed job set always
/// yields a reproducible winner sequence.
pub proof fn lemma_min_index_unique(jobs: Seq<Job>, k: int)
    requires
        is_min_index(jobs, k),
    ensures
        forall|m: int| is_min_index(jobs, m) ==> m == k,
{
    assert forall|m: int| is_min_index(jobs, m) implies m == k by {
        if m != k {
            assert(prefers(jobs[k], jobs[m]));
            assert(prefers(jobs[m], jobs[k]));
        }
    }
}

/// Jobs that all stand at zero virtual time satisfy the bounded-deviation
/// invariant outright.
pub proof fn lemma_zero_pass_bounded_spread(s: StrideScheduler)
    requires
        s.all_pass_zero(),
    ensures
        s.bounded_spread(),
{
}

/// The bounded-deviation invariant in its spread form: the gap between any
/// two jobs' pass values never exceeds the largest stride in the set, so no
/// job falls permanently behind.
pub proof fn lemma_spread_le_max_stride(s: StrideScheduler, i: int, j: int)
    requires
        s.bounded_spread(),
        0 <= i < s.jobs_seq().len(),
        0 <= j < s.jobs_seq().len(),
    ensures
        s.jobs_seq()[i].pass - s.jobs_seq()[j].pass <= max_stride(s.jobs_seq()),
{
    lemma_stride_le_max(s.jobs_seq(), i);
}

/// Inspection is idempotent: two snapshots taken with no intervening
/// mutation view the same state, and the contract of `queue_snapshot` pins
/// each result to that state, so they are equal.
pub proof fn lemma_peek_snapshot_idempotent(s: StrideScheduler, r1: Seq<Job>, r2: Seq<Job>)
    requires
        r1 == s.jobs_seq(),
        r2 == s.jobs_seq(),
    ensures
        r1 == r2,
{
}

} // verus!
