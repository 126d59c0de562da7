use proportional_share::errors::SchedulerError;
use proportional_share::stride::{Job, StrideScheduler};

#[test]
fn test_stride_calculation() {
    let job1 = Job::new(1, 100, 10000);
    let job2 = Job::new(2, 50, 10000);
    let job3 = Job::new(3, 25, 10000);

    assert_eq!(job1.stride, 100); // 10000 / 100
    assert_eq!(job2.stride, 200); // 10000 / 50
    assert_eq!(job3.stride, 400); // 10000 / 25
}

#[test]
fn test_proportional_scheduling() {
    let mut scheduler = StrideScheduler::new(100);
    scheduler.add_job(1, 100).unwrap(); // Should run twice as often as job 2
    scheduler.add_job(2, 50).unwrap();

    let mut job1_count: u32 = 0;
    let mut job2_count: u32 = 0;

    // run many scheduling decisions
    for _ in 0..200 {
        if let Some(job_id) = scheduler.schedule().unwrap() {
            match job_id {
                1 => job1_count += 1,
                2 => job2_count += 1,
                _ => {}
            }
        }
    }

    // Job 1 should run approximately twice as often as job 2
    let ratio = job1_count as f64 / job2_count as f64;
    assert!(
        (ratio - 2.0).abs() < 0.1,
        "Ratio should be close to 2.0, got {}",
        ratio
    );
}

#[test]
fn test_deterministic_winner_sequence() {
    // Jobs A:100, B:50, C:25 under ids 1, 2, 3: strides 100, 200, 400.
    // With the min-pass rule and ties broken by the lowest id, the first
    // seven winners are fixed.
    let mut scheduler = StrideScheduler::new(100);
    scheduler.add_job(1, 100).unwrap();
    scheduler.add_job(2, 50).unwrap();
    scheduler.add_job(3, 25).unwrap();

    let mut winners: Vec<u32> = Vec::new();
    for _ in 0..7 {
        winners.push(scheduler.schedule().unwrap().unwrap());
    }
    assert_eq!(winners, vec![1, 2, 3, 1, 1, 2, 1]);
}

#[test]
fn test_empty_stride_scheduler_selects_nothing() {
    let mut scheduler = StrideScheduler::new(100);
    assert_eq!(scheduler.schedule().unwrap(), None);
}

#[test]
fn test_stride_selected_job_is_admitted() {
    let mut scheduler = StrideScheduler::new(100);
    scheduler.add_job(4, 10).unwrap();
    scheduler.add_job(9, 20).unwrap();
    for _ in 0..50 {
        let id = scheduler.schedule().unwrap().unwrap();
        assert!(id == 4 || id == 9);
    }
}

#[test]
fn test_stride_zero_tickets_rejected_and_registry_unchanged() {
    let mut scheduler = StrideScheduler::new(100);
    scheduler.add_job(1, 100).unwrap();
    let before = scheduler.queue_snapshot();

    assert_eq!(scheduler.add_job(2, 0), Err(SchedulerError::InvalidTickets));

    let after = scheduler.queue_snapshot();
    assert_eq!(before, after);
    assert_eq!(scheduler.job_count(), 1);
}

#[test]
fn test_stride_duplicate_id_rejected_and_registry_unchanged() {
    let mut scheduler = StrideScheduler::new(100);
    scheduler.add_job(1, 100).unwrap();
    let before = scheduler.queue_snapshot();

    assert_eq!(scheduler.add_job(1, 50), Err(SchedulerError::DuplicateId));

    assert_eq!(before, scheduler.queue_snapshot());
}

#[test]
fn test_stride_remove_missing_id_not_found() {
    let mut scheduler = StrideScheduler::new(100);
    scheduler.add_job(1, 100).unwrap();
    assert_eq!(scheduler.remove_job(2), Err(SchedulerError::NotFound));
    assert_eq!(scheduler.job_count(), 1);
}

#[test]
fn test_removed_job_leaves_future_selections() {
    let mut scheduler = StrideScheduler::new(100);
    scheduler.add_job(1, 100).unwrap();
    scheduler.add_job(2, 50).unwrap();
    scheduler.remove_job(1).unwrap();
    for _ in 0..10 {
        assert_eq!(scheduler.schedule().unwrap(), Some(2));
    }
}

#[test]
fn test_pass_spread_stays_below_max_stride() {
    // The bounded-deviation invariant, observed at every step of a run:
    // max(pass) - min(pass) never exceeds the largest stride (400 here).
    let mut scheduler = StrideScheduler::new(100);
    scheduler.add_job(1, 100).unwrap();
    scheduler.add_job(2, 50).unwrap();
    scheduler.add_job(3, 25).unwrap();

    for _ in 0..200 {
        scheduler.schedule().unwrap().unwrap();
        let snapshot = scheduler.queue_snapshot();
        let max_pass = snapshot.iter().map(|j| j.pass).max().unwrap();
        let min_pass = snapshot.iter().map(|j| j.pass).min().unwrap();
        let max_stride = snapshot.iter().map(|j| j.stride).max().unwrap();
        assert!(max_pass - min_pass <= max_stride as u64);
    }
}

#[test]
fn test_snapshot_idempotent() {
    let mut scheduler = StrideScheduler::new(100);
    scheduler.add_job(1, 100).unwrap();
    scheduler.add_job(2, 50).unwrap();
    scheduler.schedule().unwrap();

    let first = scheduler.queue_snapshot();
    let second = scheduler.queue_snapshot();
    assert_eq!(first, second);
    assert_eq!(scheduler.quantum(), scheduler.quantum());
    assert_eq!(scheduler.large_number(), 10000);
}

#[test]
fn test_new_job_advantage() {
    // A job admitted late starts at pass 0 and dominates scheduling until
    // its pass catches up with the incumbents'. This is inherent to stride
    // scheduling, not a bug.
    let mut scheduler = StrideScheduler::new(100);
    scheduler.add_job(1, 100).unwrap(); // stride 100
    for _ in 0..5 {
        assert_eq!(scheduler.schedule().unwrap(), Some(1)); // pass(1) -> 500
    }
    scheduler.add_job(2, 100).unwrap(); // stride 100, pass 0

    // Job 2 runs five times in a row, to pass 500; the tie then goes to the
    // lower id.
    for _ in 0..5 {
        assert_eq!(scheduler.schedule().unwrap(), Some(2));
    }
    assert_eq!(scheduler.schedule().unwrap(), Some(1));
}
