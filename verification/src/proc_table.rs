use vstd::prelude::*;

verus! {

/// Maximum number of open files per process.
pub const NOFILE: usize = 16;

/// Handle to an open file. The table only stores and hands these back.
pub type FileHandle = usize;

/// Handle to an inode.
pub type InodeHandle = usize;

/// The registers saved and restored to stop and later restart a process.
/// Pure data here: the simulator never executes anything with them.
#[derive(Clone, Copy, Debug, PartialEq, Eq, Structural)]
pub struct Context {
    pub eip: u32,
    pub esp: u32,
    pub ebx: u32,
    pub ecx: u32,
    pub edx: u32,
    pub esi: u32,
    pub edi: u32,
    pub ebp: u32,
}

/// The all-zero register context.
pub open spec fn zero_context() -> Context {
    Context { eip: 0, esp: 0, ebx: 0, ecx: 0, edx: 0, esi: 0, edi: 0, ebp: 0 }
}

impl Default for Context {
    fn default() -> (r: Context)
        ensures
            r == zero_context(),
    {
        Context { eip: 0, esp: 0, ebx: 0, ecx: 0, edx: 0, esi: 0, edi: 0, ebp: 0 }
    }
}

/// The states a process moves through.
#[derive(Clone, Copy, Debug, PartialEq, Eq, Structural)]
pub enum ProcState {
    Unused,
    Embryo,
    Sleeping,
    Runnable,
    Running,
    Zombie,
}

impl Default for ProcState {
    fn default() -> (r: ProcState)
        ensures
            r == ProcState::Unused,
    {
        ProcState::Unused
    }
}

/// The information tracked about each process: its identity, state and the
/// bookkeeping a kernel would keep beside them. Kernel addresses (process
/// memory, kernel stack, sleep channel) are modeled as plain numeric
/// addresses, since the simulator never dereferences them.
#[derive(Debug)]
pub struct Proc {
    /// Start address of process memory, if allocated.
    pub mem: Option<usize>,
    /// Size of process memory.
    pub sz: u32,
    /// Bottom of this process's kernel stack, if allocated.
    pub kstack: Option<usize>,
    /// Process state.
    pub state: ProcState,
    /// Process id.
    pub pid: i32,
    /// Parent process, owned.
    pub parent: Option<Box<Proc>>,
    /// If present, the channel this process sleeps on.
    pub chan: Option<usize>,
    /// Set when the process has been killed.
    pub killed: bool,
    /// Open files; always `NOFILE` slots.
    pub ofile: Vec<Option<FileHandle>>,
    /// Current directory.
    pub cwd: Option<InodeHandle>,
    /// Register context to switch to when running this process.
    pub context: Context,
    /// Trap frame bytes for the current interrupt, if any.
    pub tf: Option<Vec<u8>>,
}

impl Proc {
    /// Every field at its resting value except the open-file table, which
    /// always holds `NOFILE` empty slots.
    pub open spec fn is_default(self) -> bool {
        &&& self.mem is None
        &&& self.sz == 0
        &&& self.kstack is None
        &&& self.state == ProcState::Unused
        &&& self.pid == 0
        &&& self.parent is None
        &&& self.chan is None
        &&& self.killed == false
        &&& self.ofile@ == Seq::new(NOFILE as nat, |i: int| None::<FileHandle>)
        &&& self.cwd is None
        &&& self.context == zero_context()
        &&& self.tf is None
    }

    /// The value `Proc::new` builds: a default process except for its pid
    /// and its `Embryo` state.
    pub open spec fn is_fresh(self, pid: i32) -> bool {
        &&& self.mem is None
        &&& self.sz == 0
        &&& self.kstack is None
        &&& self.state == ProcState::Embryo
        &&& self.pid == pid
        &&& self.parent is None
        &&& self.chan is None
        &&& self.killed == false
        &&& self.ofile@ == Seq::new(NOFILE as nat, |i: int| None::<FileHandle>)
        &&& self.cwd is None
        &&& self.context == zero_context()
        &&& self.tf is None
    }

    /// A process just admitted to the table: it carries its pid and starts
    /// life as an embryo.
    pub fn new(pid: i32) -> (r: Proc)
        ensures
            r.is_fresh(pid),
    {
        let mut p = Proc::default();
        p.pid = pid;
        p.state = ProcState::Embryo;
        p
    }

    pub fn is_running(&self) -> (r: bool)
        ensures
            r == (self.state == ProcState::Running),
    {
        self.state == ProcState::Running
    }

    pub fn is_runnable(&self) -> (r: bool)
        ensures
            r == (self.state == ProcState::Runnable),
    {
        self.state == ProcState::Runnable
    }

    /// Mark the process as killed; everything else stays as it was.
    pub fn kill(&mut self)
        ensures
            *final(self) == (Proc { killed: true, ..*old(self) }),
    {
        self.killed = true;
    }

    /// Move the process to a new state; everything else stays as it was.
    pub fn set_state(&mut self, new_state: ProcState)
        ensures
            *final(self) == (Proc { state: new_state, ..*old(self) }),
    {
        self.state = new_state;
    }
}

impl Default for Proc {
    fn default() -> (r: Proc)
        ensures
            r.is_default(),
    {
        let mut ofile: Vec<Option<FileHandle>> = Vec::new();
        let mut i: usize = 0;
        while i < NOFILE
            invariant
                0 <= i <= NOFILE,
                ofile@ =~= Seq::new(i as nat, |k: int| None::<FileHandle>),
            decreases NOFILE - i,
        {
            ofile.push(None);
            proof {
                assert(ofile@ =~= Seq::new(i as nat + 1, |k: int| None::<FileHandle>));
            }
            i += 1;
        }
        Proc {
            mem: None,
            sz: 0,
            kstack: None,
            state: ProcState::Unused,
            pid: 0,
            parent: None,
            chan: None,
            killed: false,
            ofile,
            cwd: None,
            context: Context::default(),
            tf: None,
        }
    }
}

/// No slot of the table is free for reuse.
pub open spec fn no_unused(procs: Seq<Proc>) -> bool {
    forall|i: int| 0 <= i < procs.len() ==> procs[i].state != ProcState::Unused
}

/// `k` is the first reusable slot: it is unused and nothing before it is.
pub open spec fn is_first_unused(procs: Seq<Proc>, k: int) -> bool {
    &&& 0 <= k < procs.len()
    &&& procs[k].state == ProcState::Unused
    &&& forall|i: int| 0 <= i < k ==> procs[i].state != ProcState::Unused
}

/// A bounded process table that owns its processes. Slots whose process has
/// returned to `Unused` are reused before the table grows, and it never
/// grows past its configured capacity. Every live process got its pid from
/// the monotone `next_pid` counter, which keeps pids unique.
pub struct ProcessTable {
    processes: Vec<Proc>,
    next_pid: i32,
    max_processes: usize,
}

impl ProcessTable {
    /// The table's slots, in slot order.
    pub closed spec fn procs(self) -> Seq<Proc> {
        self.processes@
    }

    /// The pid the next allocated process will receive.
    pub closed spec fn spec_next_pid(self) -> i32 {
        self.next_pid
    }

    /// The capacity the table was created with.
    pub closed spec fn spec_max_processes(self) -> usize {
        self.max_processes
    }

    pub open spec fn contains_pid(self, pid: i32) -> bool {
        exists|k: int| 0 <= k < self.procs().len() && self.procs()[k].pid == pid
    }

    /// The table's invariant: it is within capacity, pids were handed out by
    /// the counter (so they are below it) and are unique across slots.
    pub open spec fn wf(self) -> bool {
        &&& self.procs().len() <= self.spec_max_processes()
        &&& self.spec_next_pid() >= 1
        &&& forall|i: int| 0 <= i < self.procs().len() ==> self.procs()[i].pid < self.spec_next_pid()
        &&& forall|i: int, j: int|
            0 <= i < self.procs().len() && 0 <= j < self.procs().len() && i != j
                ==> self.procs()[i].pid != self.procs()[j].pid
    }

    /// An empty table able to hold up to `max_processes` processes; pids
    /// start at 1.
    pub fn new(max_processes: usize) -> (r: ProcessTable)
        ensures
            r.wf(),
            r.procs() == Seq::<Proc>::empty(),
            r.spec_next_pid() == 1,
            r.spec_max_processes() == max_processes,
    {
        ProcessTable { processes: Vec::new(), next_pid: 1, max_processes }
    }

    /// The pid the next allocated process will receive. Pure inspection;
    /// it lets a caller check for pid-counter exhaustion before allocating.
    pub fn next_pid(&self) -> (r: i32)
        ensures
            r == self.spec_next_pid(),
    {
        self.next_pid
    }

    /// The number of occupied slots. Pure inspection.
    pub fn len(&self) -> (r: usize)
        ensures
            r == self.procs().len(),
    {
        self.processes.len()
    }

    /// Read a slot. Pure inspection.
    pub fn get(&self, i: usize) -> (r: &Proc)
        requires
            i < self.procs().len(),
        ensures
            *r == self.procs()[i as int],
    {
        &self.processes[i]
    }

    /// Borrow a slot mutably; the caller sees exactly which slot the final
    /// value lands in.
    pub fn get_mut(&mut self, i: usize) -> (r: &mut Proc)
        requires
            i < old(self).procs().len(),
        ensures
            *r == old(self).procs()[i as int],
            final(self).procs() == old(self).procs().update(i as int, *final(r)),
            final(self).spec_next_pid() == old(self).spec_next_pid(),
            final(self).spec_max_processes() == old(self).spec_max_processes(),
    {
        &mut self.processes[i]
    }

    /// Allocate a slot for a fresh process and return its index. The first
    /// slot whose process has returned to `Unused` is reused; failing that,
    /// the table grows by one while it is below capacity; a full table with
    /// no reusable slot allocates nothing. The fresh process carries the
    /// next pid, and the counter moves past it.
    pub fn allocate_process(&mut self) -> (r: Option<usize>)
        requires
            old(self).wf(),
            old(self).spec_next_pid() < i32::MAX,
        ensures
            final(self).wf(),
            final(self).spec_max_processes() == old(self).spec_max_processes(),
            (exists|k: int| is_first_unused(old(self).procs(), k)) ==> exists|k: int|
                is_first_unused(old(self).procs(), k) && r == Some(k as usize)
                    && final(self).procs() == old(self).procs().update(k, final(self).procs()[k])
                    && final(self).procs()[k].is_fresh(old(self).spec_next_pid())
                    && final(self).spec_next_pid() == old(self).spec_next_pid() + 1,
            no_unused(old(self).procs()) && old(self).procs().len() < old(
                self,
            ).spec_max_processes() ==> r == Some(old(self).procs().len() as usize)
                && final(self).procs().len() == old(self).procs().len() + 1
                && final(self).procs().last().is_fresh(old(self).spec_next_pid())
                && final(self).procs().take(old(self).procs().len() as int) == old(self).procs()
                && final(self).spec_next_pid() == old(self).spec_next_pid() + 1,
            no_unused(old(self).procs()) && old(self).procs().len() >= old(
                self,
            ).spec_max_processes() ==> r is None && *final(self) == *old(self),
            r matches Some(k) ==> k < final(self).procs().len() && final(self).procs()[
                k as int
            ].is_fresh(old(self).spec_next_pid()),
    {
        let n = self.processes.len();
        let mut i: usize = 0;
        #[verifier::loop_isolation(false)]
        while i < n
            invariant
                *self == *old(self),
                n == self.procs().len(),
                0 <= i <= n,
                forall|k: int| 0 <= k < i ==> self.procs()[k].state != ProcState::Unused,
            decreases n - i,
        {
            let unused = match self.processes[i].state {
                ProcState::Unused => true,
                _ => false,
            };
            if unused {
                proof {
                    assert(is_first_unused(old(self).procs(), i as int));
                }
                let fresh = Proc::new(self.next_pid);
                self.processes[i] = fresh;
                self.next_pid = self.next_pid + 1;
                proof {
                    assert(self.procs() =~= old(self).procs().update(i as int, self.procs()[i as int]));
                }
                return Some(i);
            }
            i += 1;
        }
        if self.processes.len() < self.max_processes {
            let fresh = Proc::new(self.next_pid);
            self.processes.push(fresh);
            self.next_pid = self.next_pid + 1;
            proof {
                assert(self.procs().take(old(self).procs().len() as int) =~= old(self).procs());
            }
            Some(n)
        } else {
            None
        }
    }

    /// Find the slot of the process with the given pid, if any is admitted.
    /// Pids are unique, so the answer is the only such slot.
    pub fn find_process(&self, pid: i32) -> (r: Option<usize>)
        ensures
            r is Some <==> self.contains_pid(pid),
            r matches Some(k) ==> k < self.procs().len() && self.procs()[k as int].pid == pid,
    {
        let mut i: usize = 0;
        while i < self.processes.len()
            invariant
                0 <= i <= self.procs().len(),
                forall|k: int| 0 <= k < i ==> self.procs()[k].pid != pid,
            decreases self.procs().len() - i,
        {
            if self.processes[i].pid == pid {
                return Some(i);
            }
            i += 1;
        }
        None
    }
}

} // verus!
