//! Timer constants of RFC 3261 section 17.1.1.1.
//!
//! Every interval is a number of milliseconds. `T1` is the estimated
//! round-trip time, `T2` caps the retransmit backoff of non-INVITE methods and
//! `T4` is how long a duplicate may still arrive.

use vstd::arithmetic::power2::{
    lemma2_to64, lemma_pow2_pos, lemma_pow2_strictly_increases, lemma_pow2_unfold, pow2,
};
use vstd::prelude::*;

use super::TimerId;

verus! {

/// An interval in milliseconds.
pub type Millis = u64;

/// Estimated round-trip time.
pub const T1: Millis = 500;

/// Maximum retransmit interval for non-INVITE requests.
pub const T2: Millis = 4_000;

/// Maximum time a duplicate response may take to arrive.
pub const T4: Millis = 5_000;

/// `64 * T1`: the transaction timeout (timers B, F, H).
pub const TIMEOUT_64T1: Millis = 32_000;

/// The backoff after `attempt` retries: `T1 * 2^attempt`, up to `max`.
pub open spec fn backoff(attempt: nat, max: nat) -> nat {
    if T1 * pow2(attempt) <= max {
        (T1 * pow2(attempt)) as nat
    } else {
        max
    }
}

/// `min(T1 * 2^attempt, max)`; see [`backoff`].
#[must_use]
pub fn doubling_backoff(attempt: u32, max: Millis) -> (r: Millis)
    ensures
        r == backoff(attempt as nat, max as nat),
{
    proof {
        lemma2_to64();
        lemma_pow2_grows(0, attempt as nat);
    }
    if T1 > max {
        return max;
    }
    let mut scaled: u64 = T1;
    let mut i: u32 = 0;
    while i < attempt
        invariant
            i <= attempt,
            scaled == T1 * pow2(i as nat),
            scaled <= max,
        decreases attempt - i,
    {
        proof {
            lemma_pow2_unfold((i + 1) as nat);
            lemma_pow2_grows((i + 1) as nat, attempt as nat);
        }
        if scaled > max / 2 {
            return max;
        }
        scaled = scaled * 2;
        i = i + 1;
    }
    scaled
}

proof fn lemma_pow2_grows(a: nat, b: nat)
    requires
        a <= b,
    ensures
        1 <= pow2(a) <= pow2(b),
{
    lemma_pow2_pos(a);
    if a < b {
        lemma_pow2_strictly_increases(a, b);
    }
}

/// Each retry waits at least as long as the one before.
pub proof fn backoff_never_shrinks(a: nat, b: nat, max: nat)
    requires
        a <= b,
    ensures
        backoff(a, max) <= backoff(b, max) <= max,
{
    lemma_pow2_grows(a, b);
}

/// One armed timer: its name and the interval after which it fires.
#[derive(Copy, Clone, Debug, PartialEq, Eq, Structural)]
pub struct Timer {
    /// Which timer.
    pub id: TimerId,
    /// How long until it fires.
    pub after: Millis,
}

} // verus!
