use vstd::prelude::*;

verus! {

use crate::errors::SchedulerError;

/// One schedulable job of the lottery scheduler: a stable identifier and the
/// ticket count that fixes its share of the CPU.
#[derive(Clone, Copy, Debug, PartialEq, Eq, Structural)]
pub struct Job {
    pub id: u32,
    pub tickets: u32,
}

impl Job {
    pub fn new(id: u32, tickets: u32) -> (r: Job)
        ensures
            r == (Job { id, tickets }),
    {
        Job { id, tickets }
    }
}

/// Sum of the ticket counts over a sequence of jobs.
pub open spec fn sum_tickets(jobs: Seq<Job>) -> int
    decreases jobs.len(),
{
    if jobs.len() == 0 {
        0
    } else {
        jobs[0].tickets + sum_tickets(jobs.drop_first())
    }
}

pub proof fn lemma_sum_tickets_nonneg(jobs: Seq<Job>)
    ensures
        sum_tickets(jobs) >= 0,
    decreases jobs.len(),
{
    if jobs.len() > 0 {
        lemma_sum_tickets_nonneg(jobs.drop_first());
    }
}

pub proof fn lemma_sum_tickets_push(jobs: Seq<Job>, job: Job)
    ensures
        sum_tickets(jobs.push(job)) == sum_tickets(jobs) + job.tickets,
    decreases jobs.len(),
{
    if jobs.len() == 0 {
        assert(jobs.push(job)[0] == job);
        assert(jobs.push(job).drop_first() =~= Seq::<Job>::empty());
        assert(sum_tickets(jobs.push(job)) == job.tickets + sum_tickets(Seq::<Job>::empty()));
    } else {
        assert(jobs.push(job)[0] == jobs[0]);
        assert(jobs.push(job).drop_first() =~= jobs.drop_first().push(job));
        lemma_sum_tickets_push(jobs.drop_first(), job);
        assert(sum_tickets(jobs.push(job)) == jobs[0].tickets + sum_tickets(
            jobs.drop_first().push(job),
        ));
    }
}

pub proof fn lemma_sum_tickets_remove(jobs: Seq<Job>, k: int)
    requires
        0 <= k < jobs.len(),
    ensures
        sum_tickets(jobs.remove(k)) == sum_tickets(jobs) - jobs[k].tickets,
    decreases jobs.len(),
{
    if k == 0 {
        assert(jobs.remove(0) =~= jobs.drop_first());
    } else {
        assert(jobs.remove(k).drop_first() =~= jobs.drop_first().remove(k - 1));
        lemma_sum_tickets_remove(jobs.drop_first(), k - 1);
    }
}

/// The winning ticket `w` falls in exactly one job's contiguous range of
/// tickets; this gives the id of that job. Walking the sequence in order,
/// job `jobs[i]` owns the tickets `[sum_tickets(jobs.take(i)),
/// sum_tickets(jobs.take(i + 1)))`.
pub open spec fn winner_of(jobs: Seq<Job>, w: int) -> u32
    decreases jobs.len(),
{
    if jobs.len() == 0 {
        arbitrary()
    } else if w < jobs[0].tickets {
        jobs[0].id
    } else {
        winner_of(jobs.drop_first(), w - jobs[0].tickets)
    }
}

/// Every winning ticket below the ticket total names an admitted job.
pub proof fn lemma_winner_admitted(jobs: Seq<Job>, w: int)
    requires
        0 <= w < sum_tickets(jobs),
    ensures
        exists|k: int| 0 <= k < jobs.len() && jobs[k].id == winner_of(jobs, w),
    decreases jobs.len(),
{
    if jobs.len() == 0 {
    } else if w < jobs[0].tickets {
        assert(jobs[0].id == winner_of(jobs, w));
    } else {
        lemma_winner_admitted(jobs.drop_first(), w - jobs[0].tickets);
        let k = choose|k: int|
            0 <= k < jobs.drop_first().len() && jobs.drop_first()[k].id == winner_of(
                jobs.drop_first(),
                w - jobs[0].tickets,
            );
        assert(jobs[k + 1].id == winner_of(jobs, w));
    }
}

/// The lottery scheduler's job registry: the admitted jobs in a fixed walk
/// order, plus the running total of their tickets.
pub struct LotteryScheduler {
    jobs: Vec<Job>,
    total_tickets: u32,
}

impl LotteryScheduler {
    /// The admitted jobs, in the fixed order selection walks them.
    pub closed spec fn jobs_seq(self) -> Seq<Job> {
        self.jobs@
    }

    /// The cached ticket total.
    pub closed spec fn total(self) -> u32 {
        self.total_tickets
    }

    pub open spec fn contains_id(self, id: u32) -> bool {
        exists|k: int| 0 <= k < self.jobs_seq().len() && self.jobs_seq()[k].id == id
    }

    /// The registry's invariant: the cached total is the sum of the admitted
    /// jobs' tickets, ids are unique, and every admitted job holds at least
    /// one ticket.
    pub open spec fn wf(self) -> bool {
        &&& self.total() as int == sum_tickets(self.jobs_seq())
        &&& forall|i: int, j: int|
            0 <= i < self.jobs_seq().len() && 0 <= j < self.jobs_seq().len() && i != j
                ==> self.jobs_seq()[i].id != self.jobs_seq()[j].id
        &&& forall|i: int| 0 <= i < self.jobs_seq().len() ==> self.jobs_seq()[i].tickets >= 1
    }

    pub fn new() -> (r: LotteryScheduler)
        ensures
            r.wf(),
            r.jobs_seq() == Seq::<Job>::empty(),
            r.total() == 0,
    {
        LotteryScheduler { jobs: Vec::new(), total_tickets: 0 }
    }

    /// The number of tickets currently in play. Pure inspection: the result
    /// is a function of the registry state alone.
    pub fn total_tickets(&self) -> (r: u32)
        ensures
            r == self.total(),
    {
        self.total_tickets
    }

    /// The number of admitted jobs. Pure inspection.
    pub fn job_count(&self) -> (r: usize)
        ensures
            r == self.jobs_seq().len(),
    {
        self.jobs.len()
    }

    fn has_id(&self, id: u32) -> (r: bool)
        ensures
            r == self.contains_id(id),
    {
        let mut i: usize = 0;
        while i < self.jobs.len()
            invariant
                0 <= i <= self.jobs_seq().len(),
                forall|k: int| 0 <= k < i ==> self.jobs_seq()[k].id != id,
            decreases self.jobs_seq().len() - i,
        {
            if self.jobs[i].id == id {
                return true;
            }
            i += 1;
        }
        false
    }

    /// Admit a job. Zero tickets are rejected with `InvalidTickets` and an
    /// already-admitted id with `DuplicateId`, in that order of checks; a
    /// failed admission leaves the registry unchanged. A successful one
    /// appends the job and raises the total by its tickets.
    pub fn add_job(&mut self, id: u32, tickets: u32) -> (r: Result<(), SchedulerError>)
        requires
            old(self).wf(),
            sum_tickets(old(self).jobs_seq()) + tickets <= u32::MAX,
        ensures
            final(self).wf(),
            tickets == 0 ==> r == Err::<(), SchedulerError>(SchedulerError::InvalidTickets)
                && *final(self) == *old(self),
            tickets >= 1 && old(self).contains_id(id) ==> r == Err::<(), SchedulerError>(
                SchedulerError::DuplicateId,
            ) && *final(self) == *old(self),
            tickets >= 1 && !old(self).contains_id(id) ==> r == Ok::<(), SchedulerError>(())
                && final(self).jobs_seq() == old(self).jobs_seq().push((Job { id, tickets }))
                && final(self).total() == old(self).total() + tickets,
    {
        if tickets == 0 {
            return Err(SchedulerError::InvalidTickets);
        }
        if self.has_id(id) {
            return Err(SchedulerError::DuplicateId);
        }
        proof {
            lemma_sum_tickets_push(self.jobs@, Job { id, tickets });
        }
        self.jobs.push(Job::new(id, tickets));
        self.total_tickets = self.total_tickets + tickets;
        Ok(())
    }

    /// Remove an admitted job. An absent id fails with `NotFound` and leaves
    /// the registry unchanged; otherwise the job leaves the registry and the
    /// total drops by exactly its ticket count.
    pub fn remove_job(&mut self, id: u32) -> (r: Result<(), SchedulerError>)
        requires
            old(self).wf(),
        ensures
            final(self).wf(),
            !old(self).contains_id(id) ==> r == Err::<(), SchedulerError>(SchedulerError::NotFound)
                && *final(self) == *old(self),
            old(self).contains_id(id) ==> r == Ok::<(), SchedulerError>(()) && exists|k: int|
                0 <= k < old(self).jobs_seq().len() && old(self).jobs_seq()[k].id == id
                    && final(self).jobs_seq() == old(self).jobs_seq().remove(k)
                    && final(self).total() == old(self).total() - old(self).jobs_seq()[k].tickets,
            !final(self).contains_id(id),
    {
        let mut i: usize = 0;
        #[verifier::loop_isolation(false)]
        while i < self.jobs.len()
            invariant
                *self == *old(self),
                0 <= i <= self.jobs_seq().len(),
                forall|k: int| 0 <= k < i ==> self.jobs_seq()[k].id != id,
            decreases self.jobs_seq().len() - i,
        {
            if self.jobs[i].id == id {
                proof {
                    lemma_sum_tickets_remove(self.jobs@, i as int);
                    lemma_sum_tickets_nonneg(self.jobs@.remove(i as int));
                }
                let job = self.jobs.remove(i);
                self.total_tickets = self.total_tickets - job.tickets;
                proof {
                    let k = i as int;
                    assert(0 <= k < old(self).jobs_seq().len() && old(self).jobs_seq()[k].id == id
                        && self.jobs_seq() == old(self).jobs_seq().remove(k) && self.total()
                        == old(self).total() - old(self).jobs_seq()[k].tickets);
                    assert(old(self).contains_id(id));
                    assert forall|m: int| 0 <= m < self.jobs_seq().len() implies self.jobs_seq()[m].id
                        != id by {
                        if m >= k {
                            assert(self.jobs_seq()[m] == old(self).jobs_seq()[m + 1]);
                        }
                    }
                }
                return Ok(());
            }
            i += 1;
        }
        Err(SchedulerError::NotFound)
    }

    /// The selection that the winning ticket `w` decides: walk the jobs in
    /// registry order, accumulating tickets, and return the first job whose
    /// accumulated range passes `w`. Deterministic in `w`; it never touches
    /// job state, which is what makes lottery scheduling memoryless.
    pub fn schedule_with(&self, w: u32) -> (r: Option<u32>)
        requires
            self.wf(),
            w < self.total(),
        ensures
            r == Some(winner_of(self.jobs_seq(), w as int)),
            self.contains_id(winner_of(self.jobs_seq(), w as int)),
    {
        proof {
            lemma_winner_admitted(self.jobs@, w as int);
            assert(self.jobs@.skip(0) =~= self.jobs@);
        }
        let ghost jobs = self.jobs@;
        let mut counter: u32 = 0;
        let mut i: usize = 0;
        while i < self.jobs.len()
            invariant
                self.wf(),
                jobs == self.jobs@,
                w < self.total(),
                0 <= i <= jobs.len(),
                counter as int == sum_tickets(jobs.take(i as int)),
                counter <= w,
                winner_of(jobs, w as int) == winner_of(jobs.skip(i as int), w - counter),
            decreases jobs.len() - i,
        {
            let t = self.jobs[i].tickets;
            proof {
                assert(jobs.skip(i as int)[0] == jobs[i as int]);
                assert(jobs.take(i as int + 1) =~= jobs.take(i as int).push(jobs[i as int]));
                lemma_sum_tickets_push(jobs.take(i as int), jobs[i as int]);
            }
            if (counter as u64) + (t as u64) > (w as u64) {
                return Some(self.jobs[i].id);
            }
            proof {
                assert(jobs.skip(i as int).drop_first() =~= jobs.skip(i as int + 1));
            }
            counter = counter + t;
            i += 1;
        }
        proof {
            assert(jobs.take(jobs.len() as int) =~= jobs);
        }
        unreached()
    }

    /// One lottery selection. An empty registry (ticket total zero) yields
    /// `None`; otherwise a winning ticket is drawn uniformly from
    /// `[0, total)` and decides the selection, so whatever was drawn, the
    /// returned id is admitted.
    pub fn schedule(&self) -> (r: Option<u32>)
        requires
            self.wf(),
        ensures
            r is None <==> self.total() == 0,
            r matches Some(id) ==> self.contains_id(id) && exists|w: int|
                0 <= w < self.total() && id == winner_of(self.jobs_seq(), w),
    {
        if self.total_tickets == 0 {
            return None;
        }
        let w = draw_ticket(self.total_tickets);
        self.schedule_with(w)
    }
}

/// Relies on `rand::random_range` over `0..bound`: it panics only on an
/// empty range, and every value it returns lies in the range, drawn
/// uniformly by the thread-local generator.
#[verifier::external_body]
fn draw_ticket(bound: u32) -> (r: u32)
    requires
        bound > 0,
    ensures
        r < bound,
{
    rand::random_range(0..bound)
}

/// Inspection is idempotent: two reads of the ticket total with no
/// intervening mutation are reads of the same state, and the contract of
/// `total_tickets` pins each result to that state, so they are equal.
pub proof fn lemma_peek_total_idempotent(s: LotteryScheduler, r1: u32, r2: u32)
    requires
        r1 == s.total(),
        r2 == s.total(),
    ensures
        r1 == r2,
{
}

} // verus!
