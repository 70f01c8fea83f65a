//! What holds of a transaction over all that happens to it.

use vstd::prelude::*;

use super::client_invite::{new_client_invite, TIMER_A_CAP};
use super::client_non_invite::new_client_non_invite;
use super::machine::{delivers, progress, run, step, steps_go_forward, Flavor};
use super::server_invite::new_server_invite;
use super::server_non_invite::new_server_non_invite;
use super::timers::{backoff, T2};
use super::{
    absorbed, is_final, is_provisional, ActionView, EventView, TimerId, TransactionState, TxnView,
};

verus! {

proof fn lemma_run_last(flavor: Flavor, t: TxnView, events: Seq<EventView>)
    requires
        events.len() > 0,
    ensures
        ({
            let (mid, before) = run(flavor, t, events.drop_last());
            let (next, now) = step(flavor, mid, events.last());
            run(flavor, t, events) == (next, before + now)
        }),
{
}

// ---------------------------------------------------------------------
// After the final response
// ---------------------------------------------------------------------

#[verifier::spinoff_prover]
proof fn lemma_settled_step(flavor: Flavor, t: TxnView, event: EventView)
    requires
        progress(t.state) >= 2,
    ensures
        progress(step(flavor, t, event).0.state) >= 2,
        forall|i: int|
            0 <= i < step(flavor, t, event).1.len() ==> !delivers(
                #[trigger] step(flavor, t, event).1[i],
            ),
        event is SendResponseFromTu ==> step(flavor, t, event) == absorbed(t),
        event is StartClient ==> step(flavor, t, event) == absorbed(t),
{
}

/// Once a transaction has its final response, whatever happens to it later: its
/// user is handed nothing more, and what the user still sends is absorbed.
pub proof fn settled_transactions_stay_so(
    flavor: Flavor,
    t: TxnView,
    events: Seq<EventView>,
    status: u16,
    bytes: Seq<u8>,
)
    requires
        progress(t.state) >= 2,
    ensures
        ({
            let (after, actions) = run(flavor, t, events);
            &&& progress(after.state) >= 2
            &&& forall|i: int| 0 <= i < actions.len() ==> !delivers(#[trigger] actions[i])
            &&& step(flavor, after, EventView::SendResponseFromTu { status, bytes }) == absorbed(
                after,
            )
        }),
    decreases events.len(),
{
    if events.len() > 0 {
        settled_transactions_stay_so(flavor, t, events.drop_last(), status, bytes);
        lemma_run_last(flavor, t, events);
        let (mid, before) = run(flavor, t, events.drop_last());
        let (next, now) = step(flavor, mid, events.last());
        lemma_settled_step(flavor, mid, events.last());
        let actions = before + now;
        assert forall|i: int| 0 <= i < actions.len() implies !delivers(#[trigger] actions[i]) by {
            if i < before.len() {
                assert(actions[i] == before[i]);
            } else {
                assert(actions[i] == now[i - before.len()]);
            }
        }
    }
    let after = run(flavor, t, events).0;
    lemma_settled_step(flavor, after, EventView::SendResponseFromTu { status, bytes });
}

// ---------------------------------------------------------------------
// Repeated requests
// ---------------------------------------------------------------------

/// The response that stands after `events`: the last one that the transaction
/// user sent, up to the first final one; and whether that has come.
pub open spec fn standing(events: Seq<EventView>) -> (Option<Seq<u8>>, bool)
    decreases events.len(),
{
    if events.len() == 0 {
        (None, false)
    } else {
        let (last, done) = standing(events.drop_last());
        match events.last() {
            EventView::SendResponseFromTu { status, bytes } => if !done && is_provisional(status) {
                (Some(bytes), false)
            } else if !done && is_final(status) {
                (Some(bytes), true)
            } else {
                (last, done)
            },
            _ => (last, done),
        }
    }
}

/// A fresh server transaction; `reliable` is its timer profile.
pub open spec fn fresh_server(
    flavor: Flavor,
    branch: Seq<char>,
    method: Seq<char>,
    reliable: bool,
) -> TxnView {
    if flavor == Flavor::ServerInvite {
        TxnView { reliable, ..new_server_invite(branch) }
    } else {
        TxnView { reliable, ..new_server_non_invite(branch, method) }
    }
}

/// A live server transaction holds the response `last`; it has come as far as
/// `done` says.
spec fn holds_response(flavor: Flavor, t: TxnView, last: Option<Seq<u8>>, done: bool) -> bool {
    t.state != TransactionState::Terminated ==> {
        &&& t.buffer == last
        &&& done == (progress(t.state) >= 2)
        &&& t.state != TransactionState::Calling
        &&& t.state == TransactionState::Trying ==> last is None
        &&& flavor == Flavor::ServerNonInvite ==> t.state != TransactionState::Confirmed
        &&& flavor == Flavor::ServerInvite ==> t.key.method == "INVITE"@ && t.state
            != TransactionState::Trying
    }
}

#[verifier::spinoff_prover]
proof fn lemma_response_step(
    flavor: Flavor,
    t: TxnView,
    event: EventView,
    last: Option<Seq<u8>>,
    done: bool,
)
    requires
        flavor == Flavor::ServerInvite || flavor == Flavor::ServerNonInvite,
        holds_response(flavor, t, last, done),
    ensures
        ({
            let (later, over) = match event {
                EventView::SendResponseFromTu { status, bytes } => if !done && is_provisional(
                    status,
                ) {
                    (Some(bytes), false)
                } else if !done && is_final(status) {
                    (Some(bytes), true)
                } else {
                    (last, done)
                },
                _ => (last, done),
            };
            holds_response(flavor, step(flavor, t, event).0, later, over)
        }),
{
    reveal_strlit("INVITE");
    reveal_strlit("ACK");
}

proof fn lemma_standing(
    flavor: Flavor,
    branch: Seq<char>,
    method: Seq<char>,
    reliable: bool,
    events: Seq<EventView>,
)
    requires
        flavor == Flavor::ServerInvite || flavor == Flavor::ServerNonInvite,
    ensures
        ({
            let fresh = fresh_server(flavor, branch, method, reliable);
            let t = run(flavor, fresh, events).0;
            &&& holds_response(flavor, t, standing(events).0, standing(events).1)
            &&& t.key == fresh.key
        }),
    decreases events.len(),
{
    let fresh = fresh_server(flavor, branch, method, reliable);
    if events.len() > 0 {
        lemma_standing(flavor, branch, method, reliable, events.drop_last());
        lemma_run_last(flavor, fresh, events);
        let mid = run(flavor, fresh, events.drop_last()).0;
        let (last, done) = standing(events.drop_last());
        lemma_response_step(flavor, mid, events.last(), last, done);
        steps_go_forward(flavor, mid, events.last());
    }
}

/// Whatever has happened to a server transaction that is neither confirmed nor
/// over, its request coming again is answered with the response that stands,
/// byte for byte, and with nothing while there is none; and changes nothing.
pub proof fn repetitions_get_the_standing_response(
    flavor: Flavor,
    branch: Seq<char>,
    method: Seq<char>,
    reliable: bool,
    events: Seq<EventView>,
    again: Seq<u8>,
)
    requires
        flavor == Flavor::ServerInvite || flavor == Flavor::ServerNonInvite,
        progress(run(flavor, fresh_server(flavor, branch, method, reliable), events).0.state) <= 2,
    ensures
        ({
            let t = run(flavor, fresh_server(flavor, branch, method, reliable), events).0;
            step(flavor, t, EventView::RequestReceived { method: t.key.method, bytes: again }) == (
                t,
                match standing(events).0 {
                    Some(response) => seq![ActionView::SendToPeer(response)],
                    None => seq![],
                },
            )
        }),
{
    lemma_standing(flavor, branch, method, reliable, events);
}

// ---------------------------------------------------------------------
// Retransmission schedules
// ---------------------------------------------------------------------

/// How often the timer `id` fired while the transaction was in `state`.
pub open spec fn fired_in(
    flavor: Flavor,
    t: TxnView,
    events: Seq<EventView>,
    state: TransactionState,
    id: TimerId,
) -> nat
    decreases events.len(),
{
    if events.len() == 0 {
        0
    } else {
        let front = events.drop_last();
        let before = fired_in(flavor, t, front, state, id);
        if events.last() == EventView::TimerFired(id) && run(flavor, t, front).0.state == state {
            before + 1
        } else {
            before
        }
    }
}

/// What was sent last goes out again, and the timer is armed anew.
pub open spec fn sends_again(bytes: Seq<u8>, id: TimerId, after: nat) -> Seq<ActionView> {
    seq![ActionView::SendToPeer(bytes), ActionView::ArmTimer { id, after: after as u64 }]
}

#[verifier::spinoff_prover]
proof fn lemma_attempt_step(flavor: Flavor, t: TxnView, event: EventView)
    requires
        !t.reliable,
        t.attempt < u32::MAX,
    ensures
        ({
            let next = step(flavor, t, event).0;
            &&& flavor == Flavor::ClientInvite ==> next.buffer == t.buffer && next.attempt == (if t.state
                == TransactionState::Calling && event == EventView::TimerFired(TimerId::A) {
                t.attempt + 1
            } else {
                t.attempt as int
            })
            &&& flavor == Flavor::ClientNonInvite ==> next.buffer == t.buffer && next.attempt == (if t.state
                == TransactionState::Trying && event == EventView::TimerFired(TimerId::E) {
                t.attempt + 1
            } else {
                t.attempt as int
            })
            &&& flavor == Flavor::ServerInvite ==> next.attempt == (if t.state
                == TransactionState::Completed && event == EventView::TimerFired(TimerId::G) {
                t.attempt + 1
            } else {
                t.attempt as int
            })
        }),
{
}

/// The state and the timer of a flavor's doubling schedule.
pub open spec fn doubling(flavor: Flavor) -> (TransactionState, TimerId) {
    match flavor {
        Flavor::ClientInvite => (TransactionState::Calling, TimerId::A),
        Flavor::ClientNonInvite => (TransactionState::Trying, TimerId::E),
        _ => (TransactionState::Completed, TimerId::G),
    }
}

proof fn lemma_attempts(flavor: Flavor, t: TxnView, events: Seq<EventView>)
    requires
        flavor != Flavor::ServerNonInvite,
        !t.reliable,
        t.attempt == 0,
        events.len() < u32::MAX,
    ensures
        run(flavor, t, events).0.attempt == fired_in(
            flavor,
            t,
            events,
            doubling(flavor).0,
            doubling(flavor).1,
        ),
        fired_in(flavor, t, events, doubling(flavor).0, doubling(flavor).1) <= events.len(),
        !run(flavor, t, events).0.reliable,
        flavor == Flavor::ClientInvite || flavor == Flavor::ClientNonInvite ==> run(
            flavor,
            t,
            events,
        ).0.buffer == t.buffer,
    decreases events.len(),
{
    if events.len() > 0 {
        lemma_attempts(flavor, t, events.drop_last());
        lemma_run_last(flavor, t, events);
        let mid = run(flavor, t, events.drop_last()).0;
        lemma_attempt_step(flavor, mid, events.last());
        steps_go_forward(flavor, mid, events.last());
    }
}

/// Whatever has happened to a client INVITE transaction that still waits for a
/// first response: when timer A fires, the INVITE goes out again, and the timer
/// is armed for `T1 * 2^n`, where `n` is how often it has fired by then.
pub proof fn invites_back_off(branch: Seq<char>, invite: Seq<u8>, events: Seq<EventView>)
    requires
        events.len() < u32::MAX,
        run(Flavor::ClientInvite, new_client_invite(branch, invite), events).0.state
            == TransactionState::Calling,
    ensures
        ({
            let fresh = new_client_invite(branch, invite);
            let t = run(Flavor::ClientInvite, fresh, events).0;
            let n = 1 + fired_in(
                Flavor::ClientInvite,
                fresh,
                events,
                TransactionState::Calling,
                TimerId::A,
            );
            step(Flavor::ClientInvite, t, EventView::TimerFired(TimerId::A)).1 == sends_again(
                invite,
                TimerId::A,
                backoff(n, TIMER_A_CAP as nat),
            )
        }),
{
    lemma_attempts(Flavor::ClientInvite, new_client_invite(branch, invite), events);
}

/// Whatever has happened to another client transaction that still waits for its
/// final response: when timer E fires, the request goes out again. Before any
/// response the timer is armed for `T1 * 2^n`, up to `T2`, where `n` is how
/// often it has fired by then; after a provisional one, for `T2`.
pub proof fn requests_back_off(
    branch: Seq<char>,
    method: Seq<char>,
    request: Seq<u8>,
    events: Seq<EventView>,
)
    requires
        events.len() < u32::MAX,
        run(
            Flavor::ClientNonInvite,
            new_client_non_invite(branch, method, request),
            events,
        ).0.state == TransactionState::Trying || run(
            Flavor::ClientNonInvite,
            new_client_non_invite(branch, method, request),
            events,
        ).0.state == TransactionState::Proceeding,
    ensures
        ({
            let fresh = new_client_non_invite(branch, method, request);
            let t = run(Flavor::ClientNonInvite, fresh, events).0;
            let n = 1 + fired_in(
                Flavor::ClientNonInvite,
                fresh,
                events,
                TransactionState::Trying,
                TimerId::E,
            );
            step(Flavor::ClientNonInvite, t, EventView::TimerFired(TimerId::E)).1 == sends_again(
                request,
                TimerId::E,
                if t.state == TransactionState::Trying {
                    backoff(n, T2 as nat)
                } else {
                    T2 as nat
                },
            )
        }),
{
    lemma_attempts(Flavor::ClientNonInvite, new_client_non_invite(branch, method, request), events);
}

/// Whatever has happened to a server INVITE transaction that waits for the ACK
/// of its rejection: when timer G fires, the rejection goes out again, and the
/// timer is armed for `T1 * 2^n`, up to `T2`, where `n` is how often it has
/// fired by then.
pub proof fn rejections_back_off(branch: Seq<char>, events: Seq<EventView>)
    requires
        events.len() < u32::MAX,
        run(Flavor::ServerInvite, new_server_invite(branch), events).0.state
            == TransactionState::Completed,
    ensures
        standing(events).0 is Some,
        ({
            let fresh = new_server_invite(branch);
            let t = run(Flavor::ServerInvite, fresh, events).0;
            let n = 1 + fired_in(
                Flavor::ServerInvite,
                fresh,
                events,
                TransactionState::Completed,
                TimerId::G,
            );
            step(Flavor::ServerInvite, t, EventView::TimerFired(TimerId::G)).1 == sends_again(
                standing(events).0->0,
                TimerId::G,
                backoff(n, T2 as nat),
            )
        }),
{
    let fresh = new_server_invite(branch);
    lemma_attempts(Flavor::ServerInvite, fresh, events);
    lemma_standing(Flavor::ServerInvite, branch, "INVITE"@, false, events);
    lemma_standing_is_some(events);
}

proof fn lemma_standing_is_some(events: Seq<EventView>)
    ensures
        standing(events).1 ==> standing(events).0 is Some,
    decreases events.len(),
{
    if events.len() > 0 {
        lemma_standing_is_some(events.drop_last());
    }
}

} // verus!
