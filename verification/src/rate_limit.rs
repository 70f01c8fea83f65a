//! Token bucket per source address.
//!
//! A source that sends faster than its bucket refills is ignored, silently.
//! Buckets are kept per address, not per port. Tokens are counted in
//! billionths, so that a nanosecond at one token per second is one unit and
//! nothing is rounded.

use vstd::prelude::*;

use crate::clock::Clock;
use crate::table::{key1, Table};

verus! {

/// One token.
pub const TOKEN: u64 = 1_000_000_000;

/// Rate-limit settings.
#[derive(Clone, Copy, Debug, PartialEq, Eq, Structural)]
pub struct SipRateLimit {
    /// Tokens that a bucket gains each second; 0 turns the limiter off.
    pub per_sec: u32,
    /// Tokens that a bucket holds at most; 0 stands for `per_sec`.
    pub burst: u32,
}

impl Default for SipRateLimit {
    fn default() -> (r: Self)
        ensures
            r.per_sec == 0,
            r.burst == 0,
    {
        SipRateLimit { per_sec: 0, burst: 0 }
    }
}

/// The bucket depth that settings call for.
pub open spec fn depth(cfg: SipRateLimit) -> u32 {
    if cfg.burst == 0 {
        cfg.per_sec
    } else {
        cfg.burst
    }
}

/// A bucket: tokens in billionths, and when it was last filled, in nanoseconds.
pub type Bucket = (u64, u64);

/// A bucket's contents at `now`, after it was filled.
pub open spec fn filled(bucket: Bucket, rate: u32, burst: u32, now: u64) -> int {
    let elapsed = if now >= bucket.1 {
        now - bucket.1
    } else {
        0
    };
    let full = burst * TOKEN;
    let sum = bucket.0 + elapsed * rate;
    if sum <= full {
        sum
    } else {
        full
    }
}

/// One request at `now`: the bucket afterwards, and whether the request may
/// pass.
pub open spec fn spend(bucket: Bucket, rate: u32, burst: u32, now: u64) -> (Bucket, bool) {
    let tokens = filled(bucket, rate, burst, now);
    if tokens >= TOKEN {
        (((tokens - TOKEN) as u64, now), true)
    } else {
        ((tokens as u64, now), false)
    }
}

/// The bucket of a source at `now`; a new source begins with a full one.
pub open spec fn bucket_of(
    buckets: Map<Seq<Seq<char>>, Bucket>,
    source: Seq<char>,
    burst: u32,
    now: u64,
) -> Bucket {
    if buckets.contains_key(seq![source]) {
        buckets[seq![source]]
    } else {
        ((burst * TOKEN) as u64, now)
    }
}

/// The rate limiter.
pub struct SipRateLimiter {
    rate_per_sec: u32,
    burst: u32,
    buckets: Table<Bucket>,
    clock: Clock,
}

impl SipRateLimiter {
    /// Tokens that a bucket gains each second.
    pub closed spec fn rate(&self) -> u32 {
        self.rate_per_sec
    }

    /// Tokens that a bucket holds at most.
    pub closed spec fn bucket_depth(&self) -> u32 {
        self.burst
    }

    /// The buckets by source.
    pub closed spec fn buckets(&self) -> Map<Seq<Seq<char>>, Bucket> {
        self.buckets@
    }

    /// The table is finite.
    pub closed spec fn wf(&self) -> bool {
        self.buckets@.dom().finite()
    }

    /// A limiter with the given settings.
    #[must_use]
    pub fn new(cfg: SipRateLimit) -> (r: Self)
        ensures
            r.wf(),
            r.rate() == cfg.per_sec,
            r.bucket_depth() == depth(cfg),
            r.buckets().dom() == Set::<Seq<Seq<char>>>::empty(),
    {
        let burst: u32 = if cfg.burst == 0 {
            cfg.per_sec
        } else {
            cfg.burst
        };
        SipRateLimiter {
            rate_per_sec: cfg.per_sec,
            burst,
            buckets: Table::new(),
            clock: Clock::start(),
        }
    }

    /// A limiter that lets everything pass.
    #[must_use]
    pub fn disabled() -> (r: Self)
        ensures
            r.wf(),
            r.rate() == 0,
            r.bucket_depth() == 0,
            r.buckets().dom() == Set::<Seq<Seq<char>>>::empty(),
    {
        SipRateLimiter::new(SipRateLimit { per_sec: 0, burst: 0 })
    }

    /// Changes the settings. Buckets keep what they hold.
    pub fn reconfigure(&mut self, cfg: SipRateLimit)
        requires
            old(self).wf(),
        ensures
            final(self).wf(),
            final(self).rate() == cfg.per_sec,
            final(self).bucket_depth() == depth(cfg),
            final(self).buckets() == old(self).buckets(),
    {
        self.rate_per_sec = cfg.per_sec;
        self.burst = if cfg.burst == 0 {
            cfg.per_sec
        } else {
            cfg.burst
        };
    }

    /// Whether a message from `source` may pass at `now`, in nanoseconds.
    pub fn allow_at(&mut self, source: &str, now: u64) -> (r: bool)
        requires
            old(self).wf(),
        ensures
            final(self).wf(),
            final(self).rate() == old(self).rate(),
            final(self).bucket_depth() == old(self).bucket_depth(),
            if old(self).rate() == 0 {
                r && final(self).buckets() == old(self).buckets()
            } else {
                let (bucket, passes) = spend(
                    bucket_of(
                        old(self).buckets(),
                        source@,
                        old(self).bucket_depth(),
                        now,
                    ),
                    old(self).rate(),
                    old(self).bucket_depth(),
                    now,
                );
                r == passes && final(self).buckets() == old(self).buckets().insert(
                    seq![source@],
                    bucket,
                )
            },
    {
        if self.rate_per_sec == 0 {
            return true;
        }
        let key = key1(source);
        let full: u64 = (self.burst as u64) * TOKEN;
        let bucket: Bucket = match self.buckets.get(&key) {
            Some(b) => b,
            None => (full, now),
        };
        let elapsed: u64 = now.saturating_sub(bucket.1);
        proof {
            let e = elapsed as int;
            let r = self.rate_per_sec as int;
            assert(0 <= e * r <= 0xffff_ffff_ffff_ffff * 0xffff_ffff) by (nonlinear_arith)
                requires
                    0 <= e <= 0xffff_ffff_ffff_ffff,
                    0 <= r <= 0xffff_ffff,
            ;
        }
        let sum: u128 = (bucket.0 as u128) + (elapsed as u128) * (self.rate_per_sec as u128);
        let tokens: u64 = if sum <= full as u128 {
            sum as u64
        } else {
            full
        };
        if tokens >= TOKEN {
            self.buckets.insert(key, (tokens - TOKEN, now));
            true
        } else {
            self.buckets.insert(key, (tokens, now));
            false
        }
    }

    /// Whether a message from `source` may pass.
    #[must_use]
    pub fn allow(&mut self, source: &str) -> (r: bool)
        requires
            old(self).wf(),
        ensures
            final(self).wf(),
            final(self).rate() == old(self).rate(),
            final(self).bucket_depth() == old(self).bucket_depth(),
            old(self).rate() == 0 ==> r && final(self).buckets() == old(self).buckets(),
            old(self).rate() != 0 ==> exists|now: u64|
                (final(self).buckets(), r) == #[trigger] passage(
                    old(self).buckets(),
                    source@,
                    old(self).rate(),
                    old(self).bucket_depth(),
                    now,
                ),
    {
        let now = self.clock.elapsed_nanos();
        let r = self.allow_at(source, now);
        proof {
            if old(self).rate() != 0 {
                let p = passage(
                    old(self).buckets(),
                    source@,
                    old(self).rate(),
                    old(self).bucket_depth(),
                    now,
                );
                assert(p == (self.buckets(), r));
            }
        }
        r
    }

    /// Tokens that a bucket gains each second; 0 when the limiter is off.
    #[must_use]
    pub fn rate_per_sec(&self) -> (r: u32)
        ensures
            r == self.rate(),
    {
        self.rate_per_sec
    }

    /// Tokens that a bucket holds at most.
    #[must_use]
    pub fn burst(&self) -> (r: u32)
        ensures
            r == self.bucket_depth(),
    {
        self.burst
    }

    /// Number of sources with a bucket.
    #[must_use]
    pub fn tracked_sources(&self) -> (r: usize)
        requires
            self.wf(),
        ensures
            self.buckets().dom().finite(),
            r == self.buckets().dom().len(),
    {
        self.buckets.len()
    }
}

/// The buckets after a message from `source` at `now`, and whether it passes.
pub open spec fn passage(
    buckets: Map<Seq<Seq<char>>, Bucket>,
    source: Seq<char>,
    rate: u32,
    burst: u32,
    now: u64,
) -> (Map<Seq<Seq<char>>, Bucket>, bool) {
    let (bucket, passes) = spend(bucket_of(buckets, source, burst, now), rate, burst, now);
    (buckets.insert(seq![source], bucket), passes)
}

// ---------------------------------------------------------------------
// Laws
// ---------------------------------------------------------------------

/// How many of the messages at `times` pass, and the bucket afterwards.
pub open spec fn passed(bucket: Bucket, rate: u32, burst: u32, times: Seq<u64>) -> (Bucket, nat)
    decreases times.len(),
{
    if times.len() == 0 {
        (bucket, 0)
    } else {
        let (before, n) = passed(bucket, rate, burst, times.drop_last());
        let (after, passes) = spend(before, rate, burst, times.last());
        (after, if passes {
            n + 1
        } else {
            n
        })
    }
}

/// The times do not run backwards.
pub open spec fn in_order(start: u64, times: Seq<u64>) -> bool {
    &&& forall|i: int| 0 <= i < times.len() ==> start <= #[trigger] times[i]
    &&& forall|i: int, j: int|
        0 <= i <= j < times.len() ==> #[trigger] times[i] <= #[trigger] times[j]
}

/// From a full bucket no more messages pass than the bucket holds, plus what
/// it gained in the meantime.
pub proof fn passage_is_bounded(rate: u32, burst: u32, start: u64, times: Seq<u64>)
    requires
        times.len() > 0,
        in_order(start, times),
    ensures
        passed(((burst * TOKEN) as u64, start), rate, burst, times).1 * TOKEN <= burst * TOKEN + (
        times.last() - start) * rate,
{
    lemma_passage(rate, burst, start, times);
}

proof fn lemma_passage(rate: u32, burst: u32, start: u64, times: Seq<u64>)
    requires
        in_order(start, times),
    ensures
        ({
            let (bucket, n) = passed(((burst * TOKEN) as u64, start), rate, burst, times);
            let end = if times.len() > 0 {
                times.last()
            } else {
                start
            };
            &&& bucket.1 == end
            &&& start <= end
            &&& bucket.0 + n * TOKEN <= burst * TOKEN + (end - start) * rate
            &&& bucket.0 <= burst * TOKEN
        }),
    decreases times.len(),
{
    if times.len() > 0 {
        let rest = times.drop_last();
        assert(in_order(start, rest)) by {
            assert forall|i: int| 0 <= i < rest.len() implies start <= #[trigger] rest[i] by {
                assert(rest[i] == times[i]);
            }
            assert forall|i: int, j: int| 0 <= i <= j < rest.len() implies #[trigger] rest[i]
                <= #[trigger] rest[j] by {
                assert(rest[i] == times[i] && rest[j] == times[j]);
            }
        }
        lemma_passage(rate, burst, start, rest);
        let (before, n) = passed(((burst * TOKEN) as u64, start), rate, burst, rest);
        let now = times.last();
        assert(now == times[times.len() - 1]);
        let mid = if rest.len() > 0 {
            rest.last()
        } else {
            start
        };
        if rest.len() > 0 {
            assert(rest.last() == times[times.len() - 2]);
        }
        assert((now - mid) * rate + (mid - start) * rate == (now - start) * rate)
            by (nonlinear_arith);
        assert((now - mid) * rate >= 0) by (nonlinear_arith)
            requires
                now >= mid,
                rate >= 0,
        ;
    }
}

/// Sources do not share a bucket: a message from one leaves every other bucket
/// as it is.
pub proof fn sources_are_independent(
    buckets: Map<Seq<Seq<char>>, Bucket>,
    source: Seq<char>,
    other: Seq<char>,
    rate: u32,
    burst: u32,
    now: u64,
    later: u64,
)
    requires
        source != other,
    ensures
        bucket_of(passage(buckets, source, rate, burst, now).0, other, burst, later) == bucket_of(
            buckets,
            other,
            burst,
            later,
        ),
{
    if seq![source] == seq![other] {
        assert(seq![source][0] == seq![other][0]);
    }
}

/// A message passes exactly when its bucket, with what it gained since, holds a
/// whole token, and then costs one; a refused one costs nothing. A bucket gains
/// `rate` tokens a second and holds `burst` at most.
pub proof fn messages_pass_while_tokens_last(bucket: Bucket, rate: u32, burst: u32, now: u64)
    requires
        bucket.1 <= now,
        bucket.0 <= burst * 1_000_000_000,
    ensures
        ({
            let (after, passes) = spend(bucket, rate, burst, now);
            let gained = (now - bucket.1) * rate;
            &&& passes <==> burst >= 1 && bucket.0 + gained >= 1_000_000_000
            &&& after.1 == now
            &&& bucket.0 + gained <= burst * 1_000_000_000 ==> after.0 == bucket.0 + gained - (
            if passes {
                1_000_000_000int
            } else {
                0
            })
            &&& bucket.0 + gained > burst * 1_000_000_000 ==> after.0 == burst * 1_000_000_000 - (
            if passes {
                1_000_000_000int
            } else {
                0
            })
        }),
{
    let gained = (now - bucket.1) * rate;
    assert(gained >= 0) by (nonlinear_arith)
        requires
            gained == (now - bucket.1) * rate,
            now >= bucket.1,
            rate >= 0,
    ;
    assert(burst * TOKEN == burst * 1_000_000_000);
    assert(burst * 1_000_000_000 <= u64::MAX);
}

/// A source that keeps to the rate is never refused: one that was silent for as
/// long as a token takes passes, whatever its bucket held.
pub proof fn steady_sources_pass(bucket: Bucket, rate: u32, burst: u32, now: u64)
    requires
        bucket.1 <= now,
        bucket.0 <= burst * 1_000_000_000,
        burst >= 1,
        (now - bucket.1) * rate >= 1_000_000_000,
    ensures
        spend(bucket, rate, burst, now).1,
{
    messages_pass_while_tokens_last(bucket, rate, burst, now);
}

/// A new source passes, unless its bucket holds nothing, and its message costs
/// one token of a full bucket. The depth of a bucket is that of the settings, or
/// a second's worth where they name none.
pub proof fn new_sources_begin_full(
    buckets: Map<Seq<Seq<char>>, Bucket>,
    source: Seq<char>,
    cfg: SipRateLimit,
    now: u64,
)
    requires
        !buckets.contains_key(seq![source]),
        cfg.per_sec >= 1,
    ensures
        cfg.burst == 0 ==> depth(cfg) == cfg.per_sec,
        cfg.burst != 0 ==> depth(cfg) == cfg.burst,
        ({
            let (after, passes) = passage(buckets, source, cfg.per_sec, depth(cfg), now);
            &&& passes
            &&& after.contains_key(seq![source])
            &&& after[seq![source]].0 == (depth(cfg) - 1) * 1_000_000_000
            &&& after[seq![source]].1 == now
        }),
{
    let burst = depth(cfg);
    assert(burst * TOKEN == burst * 1_000_000_000);
    assert(burst * 1_000_000_000 <= u64::MAX);
    assert((now - now) * cfg.per_sec == 0) by (nonlinear_arith);
    messages_pass_while_tokens_last(
        ((burst * TOKEN) as u64, now),
        cfg.per_sec,
        burst,
        now,
    );
}

} // verus!
