use proportional_share::timing::{elapsed_nanos, spin, wait_target_nanos};

#[test]
fn test_elapsed_nanos_difference() {
    assert_eq!(elapsed_nanos(5, 12), 7);
    assert_eq!(elapsed_nanos(0, 0), 0);
}

#[test]
fn test_elapsed_nanos_clock_stepped_back() {
    assert_eq!(elapsed_nanos(12, 5), 0);
}

#[test]
fn test_wait_target_scales_and_saturates() {
    assert_eq!(wait_target_nanos(0), 0);
    assert_eq!(wait_target_nanos(2), 2_000_000_000);
    assert_eq!(wait_target_nanos(u64::MAX), u64::MAX);
}

#[test]
fn test_spin_zero_seconds_returns() {
    spin(0);
}
