use proportional_share::errors::SchedulerError;
use proportional_share::lottery::LotteryScheduler;

#[test]
fn test_ticket_ranges_partition_the_draw_space() {
    // Jobs walk in admission order, so with tickets 100, 50, 25 the winning
    // tickets 0..100 belong to job 1, 100..150 to job 2, 150..175 to job 3.
    let mut scheduler = LotteryScheduler::new();
    scheduler.add_job(1, 100).unwrap();
    scheduler.add_job(2, 50).unwrap();
    scheduler.add_job(3, 25).unwrap();
    assert_eq!(scheduler.total_tickets(), 175);

    assert_eq!(scheduler.schedule_with(0), Some(1));
    assert_eq!(scheduler.schedule_with(99), Some(1));
    assert_eq!(scheduler.schedule_with(100), Some(2));
    assert_eq!(scheduler.schedule_with(149), Some(2));
    assert_eq!(scheduler.schedule_with(150), Some(3));
    assert_eq!(scheduler.schedule_with(174), Some(3));
}

#[test]
fn test_empty_lottery_selects_nothing() {
    let scheduler = LotteryScheduler::new();
    assert_eq!(scheduler.schedule(), None);
}

#[test]
fn test_lottery_selected_job_is_admitted() {
    // Whatever ticket the generator draws, the winner is an admitted id.
    let mut scheduler = LotteryScheduler::new();
    scheduler.add_job(11, 3).unwrap();
    scheduler.add_job(22, 5).unwrap();
    for _ in 0..1000 {
        let id = scheduler.schedule().unwrap();
        assert!(id == 11 || id == 22);
    }
}

#[test]
fn test_single_job_always_wins() {
    // With one job of 3 tickets every drawn ticket lies in its range; a
    // draw outside [0, 3) could not name it.
    let mut scheduler = LotteryScheduler::new();
    scheduler.add_job(7, 3).unwrap();
    for _ in 0..100 {
        assert_eq!(scheduler.schedule(), Some(7));
    }
}

#[test]
fn test_lottery_zero_tickets_rejected_and_registry_unchanged() {
    let mut scheduler = LotteryScheduler::new();
    scheduler.add_job(1, 10).unwrap();

    assert_eq!(scheduler.add_job(2, 0), Err(SchedulerError::InvalidTickets));

    assert_eq!(scheduler.total_tickets(), 10);
    assert_eq!(scheduler.job_count(), 1);
}

#[test]
fn test_lottery_duplicate_id_rejected_and_registry_unchanged() {
    let mut scheduler = LotteryScheduler::new();
    scheduler.add_job(1, 10).unwrap();

    assert_eq!(scheduler.add_job(1, 5), Err(SchedulerError::DuplicateId));

    assert_eq!(scheduler.total_tickets(), 10);
    assert_eq!(scheduler.job_count(), 1);
}

#[test]
fn test_lottery_remove_missing_id_not_found() {
    let mut scheduler = LotteryScheduler::new();
    scheduler.add_job(1, 10).unwrap();
    assert_eq!(scheduler.remove_job(2), Err(SchedulerError::NotFound));
    assert_eq!(scheduler.total_tickets(), 10);
}

#[test]
fn test_remove_decrements_total_by_job_tickets() {
    let mut scheduler = LotteryScheduler::new();
    scheduler.add_job(1, 100).unwrap();
    scheduler.add_job(2, 50).unwrap();
    scheduler.add_job(3, 25).unwrap();

    scheduler.remove_job(2).unwrap();

    assert_eq!(scheduler.total_tickets(), 125);
    assert_eq!(scheduler.job_count(), 2);
    // The removed job can no longer win any draw.
    for w in 0..125 {
        let id = scheduler.schedule_with(w).unwrap();
        assert!(id == 1 || id == 3);
    }
}

#[test]
fn test_peek_total_idempotent() {
    let mut scheduler = LotteryScheduler::new();
    scheduler.add_job(1, 100).unwrap();
    scheduler.add_job(2, 50).unwrap();
    let first = scheduler.total_tickets();
    let second = scheduler.total_tickets();
    assert_eq!(first, second);
    assert_eq!(scheduler.job_count(), scheduler.job_count());
}

#[test]
fn test_selection_does_not_mutate_state() {
    // Lottery scheduling is memoryless: drawing many times leaves the
    // registry exactly as it was.
    let mut scheduler = LotteryScheduler::new();
    scheduler.add_job(1, 100).unwrap();
    scheduler.add_job(2, 50).unwrap();
    for _ in 0..100 {
        scheduler.schedule();
    }
    assert_eq!(scheduler.total_tickets(), 150);
    assert_eq!(scheduler.job_count(), 2);
}

#[test]
fn test_observed_frequencies_track_ticket_shares() {
    // Statistical fairness: over many draws each job's observed selection
    // frequency approaches tickets / total_tickets. 100_000 draws with a
    // +/- 2 percentage point band keeps the failure probability negligible.
    let mut scheduler = LotteryScheduler::new();
    scheduler.add_job(1, 100).unwrap();
    scheduler.add_job(2, 50).unwrap();
    scheduler.add_job(3, 25).unwrap();

    let draws: u32 = 100_000;
    let mut counts: [u32; 3] = [0, 0, 0];
    for _ in 0..draws {
        match scheduler.schedule().unwrap() {
            1 => counts[0] += 1,
            2 => counts[1] += 1,
            3 => counts[2] += 1,
            _ => unreachable!(),
        }
    }

    let expected: [f64; 3] = [100.0 / 175.0, 50.0 / 175.0, 25.0 / 175.0];
    for k in 0..3 {
        let observed = counts[k] as f64 / draws as f64;
        assert!(
            (observed - expected[k]).abs() < 0.02,
            "job {} frequency {} too far from {}",
            k + 1,
            observed,
            expected[k]
        );
    }
}
