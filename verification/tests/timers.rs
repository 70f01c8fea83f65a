//! Timers.

use smiths_sip::txn::timers::doubling_backoff;
use smiths_sip::txn::{T1, T2, T4, TIMEOUT_64T1};

#[test]
fn backoff_doubles_until_cap() {
    // attempt 0 -> T1 = 500 ms; attempt 1 -> 1 s; attempt 2 -> 2 s;
    // attempt 3 -> 4 s; attempt 4 -> would be 8 s but capped at T2.
    assert_eq!(doubling_backoff(0, T2), T1);
    assert_eq!(doubling_backoff(1, T2), 1_000);
    assert_eq!(doubling_backoff(2, T2), 2_000);
    assert_eq!(doubling_backoff(3, T2), T2);
    assert_eq!(doubling_backoff(4, T2), T2);
    assert_eq!(doubling_backoff(20, T2), T2);
}

#[test]
fn constants_match_rfc() {
    assert_eq!(T1, 500);
    assert_eq!(T2, 4_000);
    assert_eq!(T4, 5_000);
    assert_eq!(TIMEOUT_64T1, 32_000);
}

#[test]
fn backoff_goes_on_doubling_under_a_high_cap() {
    assert_eq!(doubling_backoff(16, 100_000_000), 32_768_000);
    assert_eq!(doubling_backoff(17, 100_000_000), 65_536_000);
    assert_eq!(doubling_backoff(18, 100_000_000), 100_000_000);
    assert_eq!(doubling_backoff(u32::MAX, u64::MAX), u64::MAX);
    assert_eq!(doubling_backoff(0, 7), 7);
}
