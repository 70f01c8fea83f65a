//! Per-connection rules of the stream transports.

use vstd::prelude::*;

use super::framing::{
    frame, frames_partition_the_buffer, take_one_message, unframed, FrameOutcome, FrameView,
};
use crate::clock::Clock;
use crate::txn::timers::Millis;

verus! {

/// Depth of a connection's write queue.
pub const WRITE_QUEUE_DEPTH: usize = 32;

/// Default cap on open inbound connections.
pub const DEFAULT_MAX_CONNECTIONS: usize = 1024;

/// Default idle timeout: five minutes.
pub const DEFAULT_IDLE_TIMEOUT: Millis = 300_000;

/// Limits on inbound connections.
#[derive(Clone, Copy, Debug)]
pub struct ConnLimits {
    /// Cap on open connections; 0 means none.
    pub max_connections: usize,
    /// A connection without traffic for this long is closed.
    pub idle_timeout: Option<Millis>,
}

impl Default for ConnLimits {
    fn default() -> (r: Self)
        ensures
            r.max_connections == DEFAULT_MAX_CONNECTIONS,
            r.idle_timeout == Some(DEFAULT_IDLE_TIMEOUT),
    {
        ConnLimits {
            max_connections: DEFAULT_MAX_CONNECTIONS,
            idle_timeout: Some(DEFAULT_IDLE_TIMEOUT),
        }
    }
}

impl ConnLimits {
    /// `true` when another connection may be opened beside `live` ones.
    pub fn admits(&self, live: usize) -> (r: bool)
        ensures
            r == (self.max_connections == 0 || live < self.max_connections),
    {
        self.max_connections == 0 || live < self.max_connections
    }
}

/// The whole milliseconds in a time of nanoseconds.
pub open spec fn whole_millis(nanos: u64) -> u64 {
    nanos / 1_000_000
}

/// The whole milliseconds in a time of nanoseconds.
pub fn millis_of(nanos: u64) -> (r: u64)
    ensures
        r == whole_millis(nanos),
{
    nanos / 1_000_000
}

/// `now` is a reading of the clock, in milliseconds.
pub open spec fn is_reading(now: u64) -> bool {
    exists|nanos: u64| now == #[trigger] whole_millis(nanos)
}

/// When a connection last saw traffic.
#[derive(Debug)]
pub struct Activity {
    clock: Clock,
    last_ms: u64,
}

impl Activity {
    /// The last traffic, in milliseconds since the connection opened.
    pub closed spec fn last(&self) -> u64 {
        self.last_ms
    }

    /// The clock that was started when the connection opened.
    pub closed spec fn clock(&self) -> Clock {
        self.clock
    }

    /// A connection that was just opened.
    pub fn new() -> (r: Self)
        ensures
            r.last() == 0,
    {
        Activity { clock: Clock::start(), last_ms: 0 }
    }

    /// Milliseconds since the connection opened.
    pub fn now(&self) -> (r: u64)
        ensures
            is_reading(r),
    {
        let nanos = self.clock.elapsed_nanos();
        let r = millis_of(nanos);
        assert(r == whole_millis(nanos));
        r
    }

    /// There was traffic at `now`.
    pub fn touch_at(&mut self, now: u64)
        ensures
            final(self).last() == now,
            final(self).clock() == old(self).clock(),
    {
        self.last_ms = now;
    }

    /// How long there was no traffic, at `now`.
    pub fn idle_at(&self, now: u64) -> (r: Millis)
        ensures
            r == if now >= self.last() {
                now - self.last()
            } else {
                0
            },
    {
        now.saturating_sub(self.last_ms)
    }

    /// There is traffic: the current reading becomes the last traffic, and is
    /// returned.
    pub fn touch(&mut self) -> (now: u64)
        ensures
            is_reading(now),
            final(self).last() == now,
            final(self).clock() == old(self).clock(),
    {
        let now = self.now();
        self.touch_at(now);
        now
    }

    /// How long there was no traffic.
    pub fn idle_for(&self) -> (r: Millis)
        ensures
            exists|now: u64|
                is_reading(now) && r == #[trigger] idle_between(self.last(), now),
    {
        let now = self.now();
        let idle = self.idle_at(now);
        assert(idle == idle_between(self.last(), now));
        idle
    }
}

/// The time from `last` to `now`.
pub open spec fn idle_between(last: u64, now: u64) -> int {
    if now >= last {
        now - last
    } else {
        0
    }
}

/// How long the next read may wait; `None` when the connection has been idle
/// for too long.
pub open spec fn read_budget_of(idle_timeout: Option<Millis>, idle: Millis) -> Option<Millis> {
    match idle_timeout {
        None => Some(u64::MAX),
        Some(limit) => if idle < limit {
            Some((limit - idle) as u64)
        } else {
            None
        },
    }
}

/// How long the next read may wait for a connection that was idle for `idle`;
/// `None` when it is to be closed. Without a timeout the wait has no bound.
pub fn read_budget(idle_timeout: Option<Millis>, idle: Millis) -> (r: Option<Millis>)
    ensures
        r == read_budget_of(idle_timeout, idle),
{
    match idle_timeout {
        None => Some(u64::MAX),
        Some(limit) => if idle < limit {
            Some(limit - idle)
        } else {
            None
        },
    }
}

/// The messages in a buffer, one after the other, what remains of it, and
/// whether the connection stays open.
pub open spec fn drained(b: Seq<u8>) -> (Seq<Seq<u8>>, Seq<u8>, bool)
    decreases b.len(),
{
    match frame(b) {
        FrameView::Complete(m) => if unframed(b).len() < b.len() {
            let (rest, left, open) = drained(unframed(b));
            (seq![m] + rest, left, open)
        } else {
            (seq![], b, false)
        },
        FrameView::Partial => (seq![], b, true),
        _ => (seq![], b, false),
    }
}

/// The models of a list of messages.
pub open spec fn messages_view(v: Seq<Vec<u8>>) -> Seq<Seq<u8>> {
    Seq::new(v.len(), |i: int| v[i]@)
}

/// Takes every complete message off the buffer. The flag tells whether the
/// connection stays open: it is closed when a message is too long or its length
/// cannot be read.
pub fn drain_messages(buf: &mut Vec<u8>) -> (r: (Vec<Vec<u8>>, bool))
    ensures
        (messages_view(r.0@), final(buf)@, r.1) == drained(old(buf)@),
{
    let mut out: Vec<Vec<u8>> = Vec::new();
    assert(messages_view(out@) =~= seq![]);
    loop
        invariant
            drained(old(buf)@) == (
                messages_view(out@) + drained(buf@).0,
                drained(buf@).1,
                drained(buf@).2,
            ),
        decreases buf@.len(),
    {
        let ghost before = buf@;
        proof {
            frames_partition_the_buffer(before);
        }
        match take_one_message(buf) {
            FrameOutcome::Complete(m) => {
                let ghost so_far = out@;
                out.push(m);
                proof {
                    assert(messages_view(out@) =~= messages_view(so_far).push(m@));
                    assert(messages_view(out@) + drained(buf@).0 =~= messages_view(so_far) + drained(
                        before,
                    ).0);
                }
            },
            FrameOutcome::Partial => {
                assert(messages_view(out@) + Seq::<Seq<u8>>::empty() =~= messages_view(out@));
                return (out, true);
            },
            FrameOutcome::Overflow => {
                assert(messages_view(out@) + Seq::<Seq<u8>>::empty() =~= messages_view(out@));
                return (out, false);
            },
            FrameOutcome::BadLength => {
                assert(messages_view(out@) + Seq::<Seq<u8>>::empty() =~= messages_view(out@));
                return (out, false);
            },
        }
    }
}

/// The bytes of a list of messages.
pub open spec fn joined(messages: Seq<Seq<u8>>) -> Seq<u8>
    decreases messages.len(),
{
    if messages.len() == 0 {
        seq![]
    } else {
        messages[0] + joined(messages.drop_first())
    }
}

/// Draining loses nothing: the messages and what remains are the buffer.
pub proof fn draining_loses_nothing(b: Seq<u8>)
    ensures
        b == joined(drained(b).0) + drained(b).1,
    decreases b.len(),
{
    frames_partition_the_buffer(b);
    match frame(b) {
        FrameView::Complete(m) => {
            draining_loses_nothing(unframed(b));
            let rest = drained(unframed(b)).0;
            assert((seq![m] + rest).drop_first() =~= rest);
            assert(b =~= joined(drained(b).0) + drained(b).1);
        },
        _ => {
            assert(b =~= joined(drained(b).0) + drained(b).1);
        },
    }
}

} // verus!
