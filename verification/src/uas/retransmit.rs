//! Repeating a 2xx to an INVITE until its ACK arrives (RFC 3261 section
//! 13.3.1.4).

use vstd::prelude::*;

use crate::txn::timers::{Millis, T1, T2};

verus! {

/// What to do when the wait is over.
#[derive(Copy, Clone, Debug, PartialEq, Eq, Structural)]
pub enum WakeStep {
    /// Send the 2xx again and wait anew.
    Resend,
    /// Give up: no ACK came in time.
    GiveUp,
}

/// The schedule of one 2xx.
#[derive(Copy, Clone, Debug, PartialEq, Eq, Structural)]
pub struct Invite2xxSchedule {
    interval: Millis,
    elapsed: Millis,
    budget: Millis,
}

/// Model of an [`Invite2xxSchedule`].
#[verifier::ext_equal]
pub struct ScheduleView {
    /// Length of the current wait.
    pub interval: Millis,
    /// Time spent before it.
    pub elapsed: Millis,
    /// Time that may be spent in all.
    pub budget: Millis,
}

/// How long the next wait is: the interval, cut to what is left of the budget.
pub open spec fn next_wait(s: ScheduleView) -> Millis {
    if s.elapsed >= s.budget {
        0
    } else if s.interval <= s.budget - s.elapsed {
        s.interval
    } else {
        (s.budget - s.elapsed) as u64
    }
}

/// The schedule after a wait, and what to do: give up once the budget is
/// spent.
pub open spec fn wake(s: ScheduleView) -> (ScheduleView, WakeStep) {
    let elapsed = (s.elapsed + next_wait(s)) as u64;
    if elapsed >= s.budget {
        (ScheduleView { elapsed, ..s }, WakeStep::GiveUp)
    } else {
        (
            ScheduleView {
                elapsed,
                interval: if 2 * s.interval <= T2 {
                    (2 * s.interval) as u64
                } else {
                    T2
                },
                ..s
            },
            WakeStep::Resend,
        )
    }
}

/// The schedule of a fresh 2xx.
pub open spec fn fresh_schedule(budget: Millis) -> ScheduleView {
    ScheduleView { interval: T1, elapsed: 0, budget }
}

/// The schedule after `n` waits.
pub open spec fn schedule_after(budget: Millis, n: nat) -> ScheduleView
    decreases n,
{
    if n == 0 {
        fresh_schedule(budget)
    } else {
        wake(schedule_after(budget, (n - 1) as nat)).0
    }
}

impl View for Invite2xxSchedule {
    type V = ScheduleView;

    closed spec fn view(&self) -> ScheduleView {
        ScheduleView { interval: self.interval, elapsed: self.elapsed, budget: self.budget }
    }
}

impl Invite2xxSchedule {
    /// The schedule of a 2xx that was just sent; `budget` is how long its ACK
    /// is waited for.
    pub fn new(budget: Millis) -> (r: Self)
        ensures
            r@ == fresh_schedule(budget),
    {
        Invite2xxSchedule { interval: T1, elapsed: 0, budget }
    }

    /// How long to wait now.
    pub fn wait(&self) -> (r: Millis)
        ensures
            r == next_wait(self@),
    {
        let left: Millis = self.budget.saturating_sub(self.elapsed);
        if self.interval <= left {
            self.interval
        } else {
            left
        }
    }

    /// The wait is over.
    pub fn on_wake(&mut self) -> (r: WakeStep)
        ensures
            (final(self)@, r) == wake(old(self)@),
    {
        self.elapsed = self.elapsed + self.wait();
        if self.elapsed >= self.budget {
            return WakeStep::GiveUp;
        }
        self.interval = if self.interval <= T2 / 2 {
            2 * self.interval
        } else {
            T2
        };
        WakeStep::Resend
    }
}

/// Waits start at T1, never shrink and never exceed T2, and every repetition
/// is sent before the budget is spent.
pub proof fn waits_double_up_to_t2(budget: Millis, n: nat)
    requires
        forall|k: nat| k < n ==> (#[trigger] wake(schedule_after(budget, k))).1 == WakeStep::Resend,
    ensures
        T1 <= schedule_after(budget, n).interval <= T2,
        n > 0 ==> schedule_after(budget, n).elapsed < budget,
        schedule_after(budget, n).budget == budget,
        n > 0 ==> schedule_after(budget, (n - 1) as nat).interval <= schedule_after(
            budget,
            n,
        ).interval,
        n > 0 ==> schedule_after(budget, n).elapsed == schedule_after(
            budget,
            (n - 1) as nat,
        ).elapsed + schedule_after(budget, (n - 1) as nat).interval,
        schedule_after(budget, n).elapsed >= n * T1,
    decreases n,
{
    if n > 0 {
        waits_double_up_to_t2(budget, (n - 1) as nat);
        assert(wake(schedule_after(budget, (n - 1) as nat)).1 == WakeStep::Resend);
    }
}

/// The repetitions end: after more waits than the budget has room for, the
/// schedule has given up.
pub proof fn repetition_ends(budget: Millis, n: nat)
    requires
        n * T1 > budget,
    ensures
        exists|k: nat| k < n && (#[trigger] wake(schedule_after(budget, k))).1 == WakeStep::GiveUp,
{
    if forall|k: nat| k < n ==> (#[trigger] wake(schedule_after(budget, k))).1 == WakeStep::Resend {
        waits_double_up_to_t2(budget, n);
        assert(false);
    } else {
        let k = choose|k: nat|
            k < n && (#[trigger] wake(schedule_after(budget, k))).1 != WakeStep::Resend;
        assert(wake(schedule_after(budget, k)).1 == WakeStep::GiveUp);
    }
}

/// The schedule gives up when the budget is spent, neither sooner nor later.
pub proof fn gives_up_when_the_budget_is_spent(budget: Millis, n: nat)
    requires
        forall|k: nat| k < n ==> (#[trigger] wake(schedule_after(budget, k))).1 == WakeStep::Resend,
        wake(schedule_after(budget, n)).1 == WakeStep::GiveUp,
    ensures
        wake(schedule_after(budget, n)).0.elapsed == budget,
{
    waits_double_up_to_t2(budget, n);
}

/// The first wait is T1, each further one twice as long as the one before, up to
/// T2, and the last is cut to what is left of the budget.
pub proof fn waits_double(budget: Millis, n: nat)
    ensures
        schedule_after(budget, 0).interval == 500,
        ({
            let s = schedule_after(budget, n);
            &&& wake(s).1 == WakeStep::Resend && 2 * s.interval <= 4_000 ==> schedule_after(
                budget,
                n + 1,
            ).interval == 2 * s.interval
            &&& wake(s).1 == WakeStep::Resend && 2 * s.interval > 4_000 ==> schedule_after(
                budget,
                n + 1,
            ).interval == 4_000
            &&& s.elapsed + s.interval <= s.budget ==> next_wait(s) == s.interval
            &&& s.elapsed <= s.budget < s.elapsed + s.interval ==> next_wait(s) == s.budget
                - s.elapsed
            &&& s.elapsed <= s.budget ==> (wake(s).1 == WakeStep::GiveUp <==> s.elapsed
                + s.interval >= s.budget)
        }),
{
}

} // verus!
