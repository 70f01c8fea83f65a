//! Session timers (RFC 4028), on the answering side.

use vstd::prelude::*;

use super::compose::HeaderView;
use super::summary::RequestSummary;
use crate::text;
use crate::txn::timers::Millis;

verus! {

/// Session-timer policy.
#[derive(Copy, Clone, Debug, PartialEq, Eq, Structural)]
pub struct SessionTimerConfig {
    /// `false`: no session timers at all.
    pub enabled: bool,
    /// Interval for a peer that supports timers but asks for none.
    pub default_expires: Millis,
    /// Smallest interval that is accepted.
    pub min_se: Millis,
}

impl Default for SessionTimerConfig {
    /// Enabled, half an hour, at least 90 seconds.
    fn default() -> (r: Self)
        ensures
            r == (SessionTimerConfig { enabled: true, default_expires: 1_800_000, min_se: 90_000 }),
    {
        SessionTimerConfig { enabled: true, default_expires: 1_800_000, min_se: 90_000 }
    }
}

/// Whole seconds, saturating.
pub open spec fn whole_seconds(d: Millis) -> u32 {
    if d / 1000 <= u32::MAX {
        (d / 1000) as u32
    } else {
        u32::MAX
    }
}

/// Whole seconds of `d`, saturating.
pub fn secs_u32(d: Millis) -> (r: u32)
    ensures
        r == whole_seconds(d),
{
    let secs: u64 = d / 1000;
    if secs <= u32::MAX as u64 {
        secs as u32
    } else {
        u32::MAX
    }
}

/// A session timer that both sides agreed on.
#[derive(Copy, Clone, Debug, PartialEq, Eq, Structural)]
pub struct SessionTimerAgreement {
    /// Session interval in seconds.
    pub interval_secs: u32,
}

/// The larger of two numbers.
pub open spec fn larger(a: u32, b: u32) -> u32 {
    if a >= b {
        a
    } else {
        b
    }
}

/// What is agreed on. No timer runs when timers are off, when the peer does
/// not support them, or when it wants the engine to refresh. A request for
/// less than the minimum is refused with the minimum. Otherwise the interval
/// is the one asked for, or the default, raised to both sides' minimum.
pub open spec fn agreement(cfg: SessionTimerConfig, req: RequestSummary) -> Result<
    Option<SessionTimerAgreement>,
    u32,
> {
    let min_se = whole_seconds(cfg.min_se);
    let floor = match req.min_se {
        Some(m) => larger(m, min_se),
        None => min_se,
    };
    if !cfg.enabled || !req.supports_timer {
        Ok(None)
    } else {
        match req.session_expires {
            Some(se) => if se < min_se {
                Err(min_se)
            } else if req@.session_refresher == Some("uas"@) {
                Ok(None)
            } else {
                Ok(Some(SessionTimerAgreement { interval_secs: larger(se, floor) }))
            },
            None => Ok(
                Some(
                    SessionTimerAgreement {
                        interval_secs: larger(whole_seconds(cfg.default_expires), floor),
                    },
                ),
            ),
        }
    }
}

fn max_u32(a: u32, b: u32) -> (r: u32)
    ensures
        r == larger(a, b),
{
    if a >= b {
        a
    } else {
        b
    }
}

/// Negotiates the session timer of an INVITE or UPDATE. `Ok(None)`: no timer.
/// `Err`: the interval asked for is too small, and this is the minimum.
pub fn negotiate_session_timer(cfg: &SessionTimerConfig, req: &RequestSummary) -> (r: Result<
    Option<SessionTimerAgreement>,
    u32,
>)
    ensures
        r == agreement(*cfg, *req),
{
    if !cfg.enabled || !req.supports_timer {
        return Ok(None);
    }
    let min_se: u32 = secs_u32(cfg.min_se);
    let asked: u32 = match req.session_expires {
        Some(se) => {
            if se < min_se {
                return Err(min_se);
            }
            match &req.session_refresher {
                Some(who) => {
                    if *who == "uas".to_owned() {
                        return Ok(None);
                    }
                },
                None => {},
            }
            se
        },
        None => secs_u32(cfg.default_expires),
    };
    let peer_min: u32 = match req.min_se {
        Some(m) => m,
        None => 0,
    };
    Ok(Some(SessionTimerAgreement { interval_secs: max_u32(max_u32(asked, peer_min), min_se) }))
}

/// The headers of a 2xx that agrees on a timer.
pub open spec fn timer_headers(timer: Option<SessionTimerAgreement>) -> Seq<HeaderView> {
    match timer {
        Some(t) => seq![
            ("Session-Expires"@, text::decimal(t.interval_secs as nat) + ";refresher=uac"@),
            ("Require"@, "timer"@),
        ],
        None => seq![],
    }
}

/// The headers of a 2xx that agrees on a timer: the peer refreshes.
pub fn session_timer_headers(timer: Option<SessionTimerAgreement>) -> (r: Vec<
    (&'static str, String),
>)
    ensures
        r@.len() == timer_headers(timer).len(),
        forall|i: int| #![trigger r@[i]]
            0 <= i < r@.len() ==> (r@[i].0@, r@[i].1@) == timer_headers(timer)[i],
{
    match timer {
        Some(t) => {
            let mut value = text::decimal_string(t.interval_secs as u64);
            value.append(";refresher=uac");
            let mut out: Vec<(&'static str, String)> = Vec::new();
            out.push(("Session-Expires", value));
            out.push(("Require", "timer".to_owned()));
            out
        },
        None => Vec::new(),
    }
}

/// Nanoseconds in a second.
pub const SECOND: u64 = 1_000_000_000;

/// After how many nanoseconds a session that nobody refreshed ends: a third of
/// the interval early, but no more than 32 seconds.
pub open spec fn expiry(interval_secs: u32) -> u64 {
    let interval = interval_secs * SECOND;
    let headroom = if interval / 3 <= 32 * SECOND {
        interval / 3
    } else {
        32 * SECOND
    };
    (interval - headroom) as u64
}

/// After how many nanoseconds a session that nobody refreshed ends.
pub fn expiry_nanos(interval_secs: u32) -> (r: u64)
    ensures
        r == expiry(interval_secs),
{
    let interval: u64 = (interval_secs as u64) * SECOND;
    let third: u64 = interval / 3;
    let headroom: u64 = if third <= 32 * SECOND {
        third
    } else {
        32 * SECOND
    };
    interval - headroom
}

/// The agreed interval is never below the minimum of either side, nor below
/// what the peer asked for.
pub proof fn agreed_interval_is_long_enough(cfg: SessionTimerConfig, req: RequestSummary)
    ensures
        agreement(cfg, req) matches Ok(Some(t)) ==> {
            &&& t.interval_secs >= whole_seconds(cfg.min_se)
            &&& req.min_se matches Some(m) ==> t.interval_secs >= m
            &&& req.session_expires matches Some(se) ==> t.interval_secs >= se
        },
{
}

/// A refused interval can be repaired: the same request for the minimum that
/// the refusal names is not refused.
pub proof fn refusal_names_an_acceptable_interval(
    cfg: SessionTimerConfig,
    req: RequestSummary,
    again: RequestSummary,
)
    requires
        agreement(cfg, req) is Err,
        again == (RequestSummary { session_expires: Some(agreement(cfg, req)->Err_0), ..req }),
    ensures
        agreement(cfg, again) is Ok,
{
}

/// A session ends before its interval is over, but not before two thirds of it
/// have passed, and at most 32 seconds early.
pub proof fn expiry_leaves_headroom(interval_secs: u32)
    requires
        interval_secs > 0,
    ensures
        expiry(interval_secs) < interval_secs * SECOND,
        3 * expiry(interval_secs) >= 2 * interval_secs * SECOND,
        expiry(interval_secs) + 32 * SECOND >= interval_secs * SECOND,
{
}

/// The agreed interval is the least that both sides can live with. A request
/// for no less than the configured minimum gets what it asks for, unless the
/// peer's own `Min-SE` is larger: then it gets that. A request that names no
/// interval gets the default, unless one of the two minima is larger.
pub proof fn agreed_interval_is_the_least(cfg: SessionTimerConfig, req: RequestSummary)
    requires
        cfg.enabled,
        req.supports_timer,
        cfg.min_se / 1000 <= u32::MAX,
        cfg.default_expires / 1000 <= u32::MAX,
    ensures
        req.session_expires matches Some(se) ==> se >= cfg.min_se / 1000
            && req@.session_refresher != Some("uas"@) ==> {
            &&& agreement(cfg, req) matches Ok(Some(t))
            &&& t.interval_secs >= se
            &&& t.interval_secs != se ==> t.interval_secs > se && req.min_se == Some(
                t.interval_secs,
            )
            &&& req.min_se matches Some(m) ==> t.interval_secs >= m
        },
        req.session_expires is None ==> {
            &&& agreement(cfg, req) matches Ok(Some(t))
            &&& t.interval_secs >= cfg.default_expires / 1000
            &&& t.interval_secs >= cfg.min_se / 1000
            &&& req.min_se matches Some(m) ==> t.interval_secs >= m
            &&& t.interval_secs == cfg.default_expires / 1000 || t.interval_secs == cfg.min_se
                / 1000 || req.min_se == Some(t.interval_secs)
        },
{
}

/// A request is refused exactly when timers are on, its sender supports them
/// and it asks for less than the configured minimum; the refusal names that
/// minimum.
pub proof fn short_intervals_are_refused(cfg: SessionTimerConfig, req: RequestSummary)
    requires
        cfg.min_se / 1000 <= u32::MAX,
    ensures
        agreement(cfg, req) is Err <==> cfg.enabled && req.supports_timer && (
        req.session_expires matches Some(se) && se < cfg.min_se / 1000),
        agreement(cfg, req) matches Err(least) ==> least == cfg.min_se / 1000,
{
}

/// No timer runs exactly when timers are off, when the peer does not support
/// them, or when it asks for an interval that is long enough and wants the
/// engine to refresh.
pub proof fn sessions_without_a_timer(cfg: SessionTimerConfig, req: RequestSummary)
    requires
        cfg.min_se / 1000 <= u32::MAX,
    ensures
        agreement(cfg, req) == Ok::<Option<SessionTimerAgreement>, u32>(None) <==> {
            ||| !cfg.enabled
            ||| !req.supports_timer
            ||| (req.session_expires matches Some(se) && se >= cfg.min_se / 1000
                && req@.session_refresher == Some("uas"@))
        },
{
}

/// Whole seconds are rounded down, and are at most `u32::MAX`.
pub proof fn seconds_are_rounded_down(d: Millis)
    ensures
        whole_seconds(d) * 1000 <= d,
        whole_seconds(d) < u32::MAX ==> d < (whole_seconds(d) + 1) * 1000,
{
}

/// An interval of at least 96 seconds ends 32 seconds early, a shorter one when
/// two thirds of it have passed.
pub proof fn expiry_is_two_thirds_or_half_a_minute(interval_secs: u32)
    ensures
        interval_secs >= 96 ==> expiry(interval_secs) == (interval_secs - 32) * 1_000_000_000,
        interval_secs < 96 ==> 2 * interval_secs * 1_000_000_000 <= 3 * expiry(interval_secs)
            <= 2 * interval_secs * 1_000_000_000 + 2,
{
}

/// A 2xx names the interval that was agreed on, with the peer as the one who
/// refreshes, and requires timers; without a timer it says nothing of them.
pub proof fn agreements_are_announced(interval_secs: u32)
    ensures
        ({
            let headers = timer_headers(Some(SessionTimerAgreement { interval_secs }));
            &&& headers.len() == 2
            &&& headers.contains(
                ("Session-Expires"@, text::decimal(interval_secs as nat) + ";refresher=uac"@),
            )
            &&& headers.contains(("Require"@, "timer"@))
        }),
        timer_headers(None).len() == 0,
{
    let headers = timer_headers(Some(SessionTimerAgreement { interval_secs }));
    assert(headers[0].0 == "Session-Expires"@);
    assert(headers[1] == ("Require"@, "timer"@));
    assert(headers.contains(headers[0]) && headers.contains(headers[1]));
}

/// What [`negotiate_session_timer`] returns to a peer that supports timers, asks
/// for no less than the minimum and refreshes itself: exactly what it asks for,
/// or its own `Min-SE` where that is larger.
pub proof fn peers_get_what_they_ask_for(
    cfg: &SessionTimerConfig,
    req: &RequestSummary,
    r: Result<Option<SessionTimerAgreement>, u32>,
    se: u32,
)
    requires
        call_ensures(negotiate_session_timer, (cfg, req), r),
        cfg.enabled,
        req.supports_timer,
        req.session_expires == Some(se),
        cfg.min_se / 1000 <= se,
        req@.session_refresher != Some("uas"@),
    ensures
        r matches Ok(Some(t)) && (match req.min_se {
            Some(m) => t.interval_secs == if m > se {
                m
            } else {
                se
            },
            None => t.interval_secs == se,
        }),
{
    assert(r == agreement(*cfg, *req));
}

} // verus!
