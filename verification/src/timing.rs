use vstd::prelude::*;

verus! {

/// Relies on `std::time::SystemTime::now` and `duration_since(UNIX_EPOCH)`:
/// the current wall-clock time as nanoseconds since the epoch, 0 if the
/// clock reads earlier than the epoch. The value depends on when the call
/// runs, so nothing can be promised of it.
#[verifier::external_body]
fn unix_time_nanos() -> (r: u64) {
    match std::time::SystemTime::now().duration_since(std::time::UNIX_EPOCH) {
        Ok(d) => d.as_nanos() as u64,
        Err(_) => 0,
    }
}

/// Nanoseconds elapsed from one clock sample to a later one, 0 if the clock
/// stepped backwards between them.
pub fn elapsed_nanos(start: u64, now: u64) -> (r: u64)
    ensures
        r == (if now >= start {
            now - start
        } else {
            0
        }),
{
    if now >= start {
        now - start
    } else {
        0
    }
}

/// The wait target in nanoseconds for a wait of `seconds` seconds,
/// saturating at the top of the representable range.
pub fn wait_target_nanos(seconds: u64) -> (r: u64)
    ensures
        r == (if seconds * 1_000_000_000 <= u64::MAX {
            (seconds * 1_000_000_000) as u64
        } else {
            u64::MAX
        }),
{
    if seconds > u64::MAX / 1_000_000_000 {
        proof {
            assert(seconds * 1_000_000_000 > u64::MAX) by (nonlinear_arith)
                requires
                    seconds > u64::MAX / 1_000_000_000,
            ;
        }
        u64::MAX
    } else {
        proof {
            assert(seconds * 1_000_000_000 <= u64::MAX) by (nonlinear_arith)
                requires
                    seconds <= u64::MAX / 1_000_000_000,
            ;
        }
        seconds * 1_000_000_000
    }
}

/// Busy-wait until `seconds` wall-clock seconds have passed, by polling the
/// clock. The sample budget exists only to give the loop a variant; at one
/// decrement per clock sample it cannot run out within the lifetime of any
/// machine.
pub fn spin(seconds: u64) {
    let target = wait_target_nanos(seconds);
    let start = unix_time_nanos();
    let mut samples: u64 = u64::MAX;
    while samples > 0
        decreases samples,
    {
        samples = samples - 1;
        let now = unix_time_nanos();
        if elapsed_nanos(start, now) >= target {
            return ;
        }
    }
}

} // verus!
