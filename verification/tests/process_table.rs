use proportional_share::proc_table::{Proc, ProcState, ProcessTable};

#[test]
fn test_process_creation() {
    let mut ptable = ProcessTable::new(10);

    let idx = ptable.allocate_process().unwrap();
    let proc = ptable.get(idx);
    assert_eq!(proc.pid, 1);
    assert_eq!(proc.state, ProcState::Embryo);
    assert!(!proc.killed);
}

#[test]
fn test_process_states() {
    let mut proc = Proc::new(1);

    assert!(!proc.is_running());
    assert!(!proc.is_runnable());

    proc.set_state(ProcState::Runnable);
    assert!(proc.is_runnable());

    proc.set_state(ProcState::Running);
    assert!(proc.is_running());
}

#[test]
fn test_pids_unique_and_increasing() {
    let mut ptable = ProcessTable::new(4);
    let a = ptable.allocate_process().unwrap();
    let b = ptable.allocate_process().unwrap();
    let c = ptable.allocate_process().unwrap();
    assert_eq!(ptable.get(a).pid, 1);
    assert_eq!(ptable.get(b).pid, 2);
    assert_eq!(ptable.get(c).pid, 3);
}

#[test]
fn test_unused_slot_is_reused() {
    let mut ptable = ProcessTable::new(2);
    let a = ptable.allocate_process().unwrap();
    let _b = ptable.allocate_process().unwrap();
    // The table is full; freeing slot `a` makes it the one reusable slot.
    ptable.get_mut(a).set_state(ProcState::Unused);
    let c = ptable.allocate_process().unwrap();
    assert_eq!(c, a);
    assert_eq!(ptable.get(c).pid, 3);
    assert_eq!(ptable.len(), 2);
}

#[test]
fn test_full_table_allocates_nothing() {
    let mut ptable = ProcessTable::new(1);
    assert!(ptable.allocate_process().is_some());
    assert!(ptable.allocate_process().is_none());
    assert_eq!(ptable.len(), 1);
}

#[test]
fn test_find_process() {
    let mut ptable = ProcessTable::new(3);
    let a = ptable.allocate_process().unwrap();
    let pid = ptable.get(a).pid;
    assert_eq!(ptable.find_process(pid), Some(a));
    assert_eq!(ptable.find_process(999), None);
}

#[test]
fn test_kill_marks_process() {
    let mut proc = Proc::new(7);
    assert!(!proc.killed);
    proc.kill();
    assert!(proc.killed);
    assert_eq!(proc.pid, 7);
}
