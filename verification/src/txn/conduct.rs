//! What a transaction does, event by event: what it sends, what it hands to its
//! user, and which timers it starts and stops. T1, T2 and T4 are those of RFC
//! 3261.

use vstd::prelude::*;

use super::ack::non_ok_ack;
use super::client_invite::{new_client_invite, ClientInviteTxn};
use super::client_non_invite::{new_client_non_invite, ClientNonInviteTxn};
use super::machine::{step, Flavor, Machine};
use super::server_invite::{new_server_invite, ServerInviteTxn};
use super::server_non_invite::{new_server_non_invite, ServerNonInviteTxn};
use super::timers::{backoff, Millis, T1, T2, T4};
use super::{
    actions_view, ActionView, EventView, TimerId, Transaction, TransactionAction, TransactionEvent,
    TransactionState, TxnView,
};

verus! {

/// What `actions` sends: `bytes`, or nothing.
pub open spec fn sends(actions: Seq<ActionView>, bytes: Option<Seq<u8>>) -> bool {
    forall|b: Seq<u8>| #[trigger]
        actions.contains(ActionView::SendToPeer(b)) <==> bytes == Some(b)
}

/// What `actions` hands to the transaction user: `response`, or nothing.
pub open spec fn tells(actions: Seq<ActionView>, response: Option<(u16, Seq<u8>)>) -> bool {
    forall|status: u16, bytes: Seq<u8>| #[trigger]
        actions.contains(ActionView::DeliverResponseToTu { status, bytes }) <==> response == Some(
            (status, bytes),
        )
}

/// `actions` arms the timer `id` for `after`, or does not arm it.
pub open spec fn arms(actions: Seq<ActionView>, id: TimerId, after: Option<Millis>) -> bool {
    forall|t: Millis| #[trigger]
        actions.contains(ActionView::ArmTimer { id, after: t }) <==> after == Some(t)
}

/// `actions` arms no timer but `a` and `b`.
pub open spec fn arms_only(actions: Seq<ActionView>, a: TimerId, b: TimerId) -> bool {
    forall|id: TimerId, t: Millis| #[trigger]
        actions.contains(ActionView::ArmTimer { id, after: t }) ==> id == a || id == b
}

/// `actions` stops the timer `id`.
pub open spec fn stops(actions: Seq<ActionView>, id: TimerId) -> bool {
    actions.contains(ActionView::CancelTimer(id))
}

/// `actions` says that the transaction is over.
pub open spec fn is_over(actions: Seq<ActionView>) -> bool {
    actions.contains(ActionView::Terminated)
}

proof fn lemma_parts(actions: Seq<ActionView>)
    ensures
        forall|a: ActionView| #[trigger]
            actions.contains(a) ==> exists|i: int| 0 <= i < actions.len() && actions[i] == a,
        forall|i: int| 0 <= i < actions.len() ==> actions.contains(#[trigger] actions[i]),
{
}

/// `t` on an unreliable transport; on a reliable one, nothing.
pub open spec fn unless_reliable(reliable: bool, t: int) -> Option<Millis> {
    if reliable {
        None
    } else {
        Some(t as Millis)
    }
}

// ---------------------------------------------------------------------
// Client INVITE
// ---------------------------------------------------------------------

/// A client INVITE transaction starts by sending the INVITE. It is given 64 T1
/// in all (timer B). On an unreliable transport it is to be sent again after T1
/// (timer A); on a reliable one never.
pub proof fn invites_start(branch: Seq<char>, invite: Seq<u8>, reliable: bool)
    ensures
        ({
            let fresh = TxnView { reliable, ..new_client_invite(branch, invite) };
            let (t, actions) = step(Flavor::ClientInvite, fresh, EventView::StartClient);
            &&& t == fresh
            &&& sends(actions, Some(invite))
            &&& tells(actions, None)
            &&& arms(actions, TimerId::A, unless_reliable(reliable, T1 as int))
            &&& arms(actions, TimerId::B, Some((64 * T1) as Millis))
            &&& arms_only(actions, TimerId::A, TimerId::B)
            &&& !is_over(actions)
        }),
{
    let fresh = TxnView { reliable, ..new_client_invite(branch, invite) };
    lemma_parts(step(Flavor::ClientInvite, fresh, EventView::StartClient).1);
}

/// A client INVITE transaction that waits hands a provisional response (1xx) to
/// its user and does not send the INVITE again, but goes on waiting: timer B
/// runs on.
pub proof fn invites_are_told_of_progress(t: TxnView, status: u16, bytes: Seq<u8>)
    requires
        t.state == TransactionState::Calling || t.state == TransactionState::Proceeding,
        100 <= status < 200,
    ensures
        ({
            let (next, actions) = step(
                Flavor::ClientInvite,
                t,
                EventView::ResponseReceived { status, bytes },
            );
            &&& next == (TxnView { state: TransactionState::Proceeding, ..t })
            &&& tells(actions, Some((status, bytes)))
            &&& sends(actions, None)
            &&& t.state == TransactionState::Calling ==> stops(actions, TimerId::A)
            &&& !stops(actions, TimerId::B)
            &&& arms_only(actions, TimerId::A, TimerId::A) && arms(actions, TimerId::A, None)
            &&& !is_over(actions)
        }),
{
    let actions = step(Flavor::ClientInvite, t, EventView::ResponseReceived { status, bytes }).1;
    lemma_parts(actions);
    if t.state == TransactionState::Calling {
        assert(actions[0] == ActionView::CancelTimer(TimerId::A));
        assert(actions[1] == (ActionView::DeliverResponseToTu { status, bytes }));
    } else {
        assert(actions[0] == (ActionView::DeliverResponseToTu { status, bytes }));
    }
}

/// A client INVITE transaction that waits hands a 2xx to its user and is over:
/// the user sends the ACK.
pub proof fn invites_end_with_success(t: TxnView, status: u16, bytes: Seq<u8>)
    requires
        t.state == TransactionState::Calling || t.state == TransactionState::Proceeding,
        200 <= status < 300,
    ensures
        ({
            let (next, actions) = step(
                Flavor::ClientInvite,
                t,
                EventView::ResponseReceived { status, bytes },
            );
            &&& next.state == TransactionState::Terminated
            &&& tells(actions, Some((status, bytes)))
            &&& sends(actions, None)
            &&& stops(actions, TimerId::A) && stops(actions, TimerId::B)
            &&& arms_only(actions, TimerId::A, TimerId::A) && arms(actions, TimerId::A, None)
            &&& is_over(actions)
        }),
{
    let actions = step(Flavor::ClientInvite, t, EventView::ResponseReceived { status, bytes }).1;
    lemma_parts(actions);
    assert(actions[0] == (ActionView::DeliverResponseToTu { status, bytes }));
    assert(actions[1] == ActionView::CancelTimer(TimerId::A));
    assert(actions[2] == ActionView::CancelTimer(TimerId::B));
    assert(actions[3] == ActionView::Terminated);
}

/// A client INVITE transaction that waits hands a rejection (3xx to 6xx) to its
/// user and acknowledges it, if the ACK can be made. On an unreliable transport
/// it then stays for 32 seconds, to acknowledge repetitions; on a reliable one
/// it is over.
pub proof fn invites_acknowledge_rejections(t: TxnView, status: u16, bytes: Seq<u8>)
    requires
        t.state == TransactionState::Calling || t.state == TransactionState::Proceeding,
        t.buffer is Some,
        300 <= status < 700,
    ensures
        ({
            let (next, actions) = step(
                Flavor::ClientInvite,
                t,
                EventView::ResponseReceived { status, bytes },
            );
            &&& next.state == if t.reliable {
                TransactionState::Terminated
            } else {
                TransactionState::Completed
            }
            &&& tells(actions, Some((status, bytes)))
            &&& sends(actions, non_ok_ack(t.buffer->0, bytes))
            &&& stops(actions, TimerId::A) && stops(actions, TimerId::B)
            &&& arms(actions, TimerId::D, unless_reliable(t.reliable, 32_000))
            &&& arms_only(actions, TimerId::D, TimerId::D)
            &&& is_over(actions) == t.reliable
        }),
{
    let actions = step(Flavor::ClientInvite, t, EventView::ResponseReceived { status, bytes }).1;
    let ack = non_ok_ack(t.buffer->0, bytes);
    lemma_parts(actions);
    assert(actions[0] == (ActionView::DeliverResponseToTu { status, bytes }));
    assert(actions[1] == ActionView::CancelTimer(TimerId::A));
    assert(actions[2] == ActionView::CancelTimer(TimerId::B));
    if ack is Some {
        assert(actions[3] == ActionView::SendToPeer(ack->0));
    }
    let last = actions.len() - 1;
    if t.reliable {
        assert(actions[last] == ActionView::Terminated);
    } else {
        assert(actions[last] == (ActionView::ArmTimer { id: TimerId::D, after: 32_000 }));
    }
}

/// A client INVITE transaction that has no final response when timer B fires is
/// over, and sends and tells nothing; so is one whose timer D fires.
pub proof fn invites_time_out(t: TxnView)
    ensures
        t.state == TransactionState::Calling || t.state == TransactionState::Proceeding ==> {
            let (next, actions) = step(
                Flavor::ClientInvite,
                t,
                EventView::TimerFired(TimerId::B),
            );
            &&& next.state == TransactionState::Terminated
            &&& sends(actions, None) && tells(actions, None) && is_over(actions)
        },
        t.state == TransactionState::Completed ==> {
            let (next, actions) = step(
                Flavor::ClientInvite,
                t,
                EventView::TimerFired(TimerId::D),
            );
            &&& next.state == TransactionState::Terminated
            &&& sends(actions, None) && tells(actions, None) && is_over(actions)
        },
{
    let b = step(Flavor::ClientInvite, t, EventView::TimerFired(TimerId::B)).1;
    let d = step(Flavor::ClientInvite, t, EventView::TimerFired(TimerId::D)).1;
    lemma_parts(b);
    lemma_parts(d);
    if t.state == TransactionState::Calling || t.state == TransactionState::Proceeding {
        assert(b[1] == ActionView::Terminated);
    }
    if t.state == TransactionState::Completed {
        assert(d[0] == ActionView::Terminated);
    }
}

// ---------------------------------------------------------------------
// Other client transactions
// ---------------------------------------------------------------------

/// Another client transaction starts by sending its request. It is given 64 T1
/// in all (timer F). On an unreliable transport it is to be sent again after T1
/// (timer E); on a reliable one never.
pub proof fn requests_start(branch: Seq<char>, method: Seq<char>, request: Seq<u8>, reliable: bool)
    ensures
        ({
            let fresh = TxnView { reliable, ..new_client_non_invite(branch, method, request) };
            let (t, actions) = step(Flavor::ClientNonInvite, fresh, EventView::StartClient);
            &&& t == fresh
            &&& sends(actions, Some(request))
            &&& tells(actions, None)
            &&& arms(actions, TimerId::E, unless_reliable(reliable, T1 as int))
            &&& arms(actions, TimerId::F, Some((64 * T1) as Millis))
            &&& arms_only(actions, TimerId::E, TimerId::F)
            &&& !is_over(actions)
        }),
{
    let fresh = TxnView { reliable, ..new_client_non_invite(branch, method, request) };
    lemma_parts(step(Flavor::ClientNonInvite, fresh, EventView::StartClient).1);
}

/// Another client transaction that waits hands a provisional response to its
/// user and goes on waiting: timer F runs on, and the request is to be sent
/// again after T2 where it was to be sent again at all.
pub proof fn requests_are_told_of_progress(t: TxnView, status: u16, bytes: Seq<u8>)
    requires
        t.state == TransactionState::Trying || t.state == TransactionState::Proceeding,
        100 <= status < 200,
    ensures
        ({
            let (next, actions) = step(
                Flavor::ClientNonInvite,
                t,
                EventView::ResponseReceived { status, bytes },
            );
            &&& next == (TxnView { state: TransactionState::Proceeding, ..t })
            &&& tells(actions, Some((status, bytes)))
            &&& sends(actions, None)
            &&& !stops(actions, TimerId::E) && !stops(actions, TimerId::F)
            &&& t.state == TransactionState::Trying ==> arms(
                actions,
                TimerId::E,
                unless_reliable(t.reliable, T2 as int),
            )
            &&& arms_only(actions, TimerId::E, TimerId::E)
            &&& !is_over(actions)
        }),
{
    let actions = step(Flavor::ClientNonInvite, t, EventView::ResponseReceived { status, bytes }).1;
    lemma_parts(actions);
    assert(actions[0] == (ActionView::DeliverResponseToTu { status, bytes }));
    if t.state == TransactionState::Trying && !t.reliable {
        assert(actions[1] == (ActionView::ArmTimer { id: TimerId::E, after: T2 }));
    }
}

/// Another client transaction that waits hands a final response (2xx to 6xx) to
/// its user, and stops sending. On an unreliable transport it then stays for
/// T4, to absorb repetitions; on a reliable one it is over.
pub proof fn requests_end_with_a_final_response(t: TxnView, status: u16, bytes: Seq<u8>)
    requires
        t.state == TransactionState::Trying || t.state == TransactionState::Proceeding,
        200 <= status < 700,
    ensures
        ({
            let (next, actions) = step(
                Flavor::ClientNonInvite,
                t,
                EventView::ResponseReceived { status, bytes },
            );
            &&& next.state == if t.reliable {
                TransactionState::Terminated
            } else {
                TransactionState::Completed
            }
            &&& tells(actions, Some((status, bytes)))
            &&& sends(actions, None)
            &&& stops(actions, TimerId::E) && stops(actions, TimerId::F)
            &&& arms(actions, TimerId::K, unless_reliable(t.reliable, T4 as int))
            &&& arms_only(actions, TimerId::K, TimerId::K)
            &&& is_over(actions) == t.reliable
        }),
{
    let actions = step(Flavor::ClientNonInvite, t, EventView::ResponseReceived { status, bytes }).1;
    lemma_parts(actions);
    assert(actions[0] == (ActionView::DeliverResponseToTu { status, bytes }));
    assert(actions[1] == ActionView::CancelTimer(TimerId::E));
    assert(actions[2] == ActionView::CancelTimer(TimerId::F));
    if t.reliable {
        assert(actions[3] == ActionView::Terminated);
    } else {
        assert(actions[3] == (ActionView::ArmTimer { id: TimerId::K, after: T4 }));
    }
}

/// Another client transaction that has no final response when timer F fires is
/// over, and sends and tells nothing; so is one whose timer K fires.
pub proof fn requests_time_out(t: TxnView)
    ensures
        t.state == TransactionState::Trying || t.state == TransactionState::Proceeding ==> {
            let (next, actions) = step(
                Flavor::ClientNonInvite,
                t,
                EventView::TimerFired(TimerId::F),
            );
            &&& next.state == TransactionState::Terminated
            &&& sends(actions, None) && tells(actions, None) && is_over(actions)
        },
        t.state == TransactionState::Completed ==> {
            let (next, actions) = step(
                Flavor::ClientNonInvite,
                t,
                EventView::TimerFired(TimerId::K),
            );
            &&& next.state == TransactionState::Terminated
            &&& sends(actions, None) && tells(actions, None) && is_over(actions)
        },
{
    let f = step(Flavor::ClientNonInvite, t, EventView::TimerFired(TimerId::F)).1;
    let k = step(Flavor::ClientNonInvite, t, EventView::TimerFired(TimerId::K)).1;
    lemma_parts(f);
    lemma_parts(k);
    if t.state == TransactionState::Trying || t.state == TransactionState::Proceeding {
        assert(f[1] == ActionView::Terminated);
    }
    if t.state == TransactionState::Completed {
        assert(k[0] == ActionView::Terminated);
    }
}

/// After its final response another client transaction absorbs every response.
pub proof fn settled_requests_absorb_responses(t: TxnView, status: u16, bytes: Seq<u8>)
    requires
        t.state == TransactionState::Completed,
    ensures
        step(Flavor::ClientNonInvite, t, EventView::ResponseReceived { status, bytes }) == (
            t,
            Seq::<ActionView>::empty(),
        ),
{
}

// ---------------------------------------------------------------------
// Server INVITE
// ---------------------------------------------------------------------

/// A fresh server INVITE transaction waits for its user.
pub proof fn received_invites_wait(branch: Seq<char>)
    ensures
        new_server_invite(branch).state == TransactionState::Proceeding,
        new_server_invite(branch).buffer is None,
{
}

/// A server INVITE transaction sends the provisional response of its user, and
/// starts no timer.
pub proof fn received_invites_report_progress(t: TxnView, status: u16, bytes: Seq<u8>)
    requires
        t.state == TransactionState::Proceeding,
        100 <= status < 200,
    ensures
        ({
            let (next, actions) = step(
                Flavor::ServerInvite,
                t,
                EventView::SendResponseFromTu { status, bytes },
            );
            &&& next == (TxnView { buffer: Some(bytes), ..t })
            &&& sends(actions, Some(bytes))
            &&& tells(actions, None)
            &&& arms_only(actions, TimerId::G, TimerId::G) && arms(actions, TimerId::G, None)
            &&& !is_over(actions)
        }),
{
    let actions = step(Flavor::ServerInvite, t, EventView::SendResponseFromTu { status, bytes }).1;
    lemma_parts(actions);
    assert(actions[0] == ActionView::SendToPeer(bytes));
}

/// A server INVITE transaction sends the 2xx of its user and is over: the user
/// repeats it until the ACK comes.
pub proof fn received_invites_end_with_success(t: TxnView, status: u16, bytes: Seq<u8>)
    requires
        t.state == TransactionState::Proceeding,
        200 <= status < 300,
    ensures
        ({
            let (next, actions) = step(
                Flavor::ServerInvite,
                t,
                EventView::SendResponseFromTu { status, bytes },
            );
            &&& next.state == TransactionState::Terminated
            &&& sends(actions, Some(bytes))
            &&& arms_only(actions, TimerId::G, TimerId::G) && arms(actions, TimerId::G, None)
            &&& is_over(actions)
        }),
{
    let actions = step(Flavor::ServerInvite, t, EventView::SendResponseFromTu { status, bytes }).1;
    lemma_parts(actions);
    assert(actions[0] == ActionView::SendToPeer(bytes));
    assert(actions[1] == ActionView::Terminated);
}

/// A server INVITE transaction sends the rejection (3xx to 6xx) of its user, and
/// waits 64 T1 for its ACK (timer H). On an unreliable transport it is to be
/// sent again after T1 (timer G); on a reliable one never.
pub proof fn received_invites_are_rejected(t: TxnView, status: u16, bytes: Seq<u8>)
    requires
        t.state == TransactionState::Proceeding,
        300 <= status < 700,
    ensures
        ({
            let (next, actions) = step(
                Flavor::ServerInvite,
                t,
                EventView::SendResponseFromTu { status, bytes },
            );
            &&& next == (TxnView {
                state: TransactionState::Completed,
                buffer: Some(bytes),
                ..t
            })
            &&& sends(actions, Some(bytes))
            &&& arms(actions, TimerId::G, unless_reliable(t.reliable, T1 as int))
            &&& arms(actions, TimerId::H, Some((64 * T1) as Millis))
            &&& arms_only(actions, TimerId::G, TimerId::H)
            &&& !is_over(actions)
        }),
{
    let actions = step(Flavor::ServerInvite, t, EventView::SendResponseFromTu { status, bytes }).1;
    lemma_parts(actions);
    assert(actions[0] == ActionView::SendToPeer(bytes));
    if t.reliable {
        assert(actions[1] == (ActionView::ArmTimer { id: TimerId::H, after: 32_000 }));
    } else {
        assert(actions[1] == (ActionView::ArmTimer { id: TimerId::G, after: T1 }));
        assert(actions[2] == (ActionView::ArmTimer { id: TimerId::H, after: 32_000 }));
    }
}

/// The ACK of a rejection stops its repetition and the wait. On an unreliable
/// transport the transaction then stays for T4, to absorb repetitions of the
/// ACK; on a reliable one it is over. Nothing is sent.
pub proof fn acknowledged_rejections_rest(t: TxnView, bytes: Seq<u8>)
    requires
        t.state == TransactionState::Completed,
    ensures
        ({
            let (next, actions) = step(
                Flavor::ServerInvite,
                t,
                EventView::RequestReceived { method: "ACK"@, bytes },
            );
            &&& next.state == if t.reliable {
                TransactionState::Terminated
            } else {
                TransactionState::Confirmed
            }
            &&& sends(actions, None)
            &&& stops(actions, TimerId::G) && stops(actions, TimerId::H)
            &&& arms(actions, TimerId::I, unless_reliable(t.reliable, T4 as int))
            &&& arms_only(actions, TimerId::I, TimerId::I)
            &&& is_over(actions) == t.reliable
        }),
{
    reveal_strlit("ACK");
    reveal_strlit("INVITE");
    assert("ACK"@.len() != "INVITE"@.len());
    let actions = step(
        Flavor::ServerInvite,
        t,
        EventView::RequestReceived { method: "ACK"@, bytes },
    ).1;
    lemma_parts(actions);
    assert(actions[0] == ActionView::CancelTimer(TimerId::G));
    assert(actions[1] == ActionView::CancelTimer(TimerId::H));
    if t.reliable {
        assert(actions[2] == ActionView::Terminated);
    } else {
        assert(actions[2] == (ActionView::ArmTimer { id: TimerId::I, after: T4 }));
    }
}

/// A confirmed INVITE transaction absorbs everything until timer I fires; then,
/// or when timer H fires before an ACK came, it is over.
pub proof fn received_invites_time_out(t: TxnView, event: EventView)
    ensures
        t.state == TransactionState::Confirmed && event != EventView::TimerFired(TimerId::I)
            ==> step(Flavor::ServerInvite, t, event) == (t, Seq::<ActionView>::empty()),
        t.state == TransactionState::Confirmed && event == EventView::TimerFired(TimerId::I)
            || t.state == TransactionState::Completed && event == EventView::TimerFired(TimerId::H)
            ==> {
            let (next, actions) = step(Flavor::ServerInvite, t, event);
            &&& next.state == TransactionState::Terminated
            &&& sends(actions, None) && tells(actions, None) && is_over(actions)
        },
{
    let actions = step(Flavor::ServerInvite, t, event).1;
    lemma_parts(actions);
    if t.state == TransactionState::Confirmed && event == EventView::TimerFired(TimerId::I) {
        assert(actions[0] == ActionView::Terminated);
    }
    if t.state == TransactionState::Completed && event == EventView::TimerFired(TimerId::H) {
        assert(actions[1] == ActionView::Terminated);
    }
}

// ---------------------------------------------------------------------
// Other server transactions
// ---------------------------------------------------------------------

/// Another server transaction sends the provisional response of its user, and
/// starts no timer.
pub proof fn received_requests_report_progress(t: TxnView, status: u16, bytes: Seq<u8>)
    requires
        t.state == TransactionState::Trying || t.state == TransactionState::Proceeding,
        100 <= status < 200,
    ensures
        ({
            let (next, actions) = step(
                Flavor::ServerNonInvite,
                t,
                EventView::SendResponseFromTu { status, bytes },
            );
            &&& next == (TxnView {
                state: TransactionState::Proceeding,
                buffer: Some(bytes),
                ..t
            })
            &&& sends(actions, Some(bytes))
            &&& arms_only(actions, TimerId::J, TimerId::J) && arms(actions, TimerId::J, None)
            &&& !is_over(actions)
        }),
{
    let actions = step(
        Flavor::ServerNonInvite,
        t,
        EventView::SendResponseFromTu { status, bytes },
    ).1;
    lemma_parts(actions);
    assert(actions[0] == ActionView::SendToPeer(bytes));
}

/// Another server transaction sends the final response of its user. On an
/// unreliable transport it then stays for 64 T1, to answer repetitions; on a
/// reliable one it is over.
pub proof fn received_requests_end_with_a_final_response(t: TxnView, status: u16, bytes: Seq<u8>)
    requires
        t.state == TransactionState::Trying || t.state == TransactionState::Proceeding,
        200 <= status < 700,
    ensures
        ({
            let (next, actions) = step(
                Flavor::ServerNonInvite,
                t,
                EventView::SendResponseFromTu { status, bytes },
            );
            &&& next == (TxnView {
                state: if t.reliable {
                    TransactionState::Terminated
                } else {
                    TransactionState::Completed
                },
                buffer: Some(bytes),
                ..t
            })
            &&& sends(actions, Some(bytes))
            &&& arms(actions, TimerId::J, unless_reliable(t.reliable, 64 * T1))
            &&& arms_only(actions, TimerId::J, TimerId::J)
            &&& is_over(actions) == t.reliable
        }),
{
    let actions = step(
        Flavor::ServerNonInvite,
        t,
        EventView::SendResponseFromTu { status, bytes },
    ).1;
    lemma_parts(actions);
    assert(actions[0] == ActionView::SendToPeer(bytes));
    if t.reliable {
        assert(actions[1] == ActionView::Terminated);
    } else {
        assert(actions[1] == (ActionView::ArmTimer { id: TimerId::J, after: 32_000 }));
    }
}

/// Another server transaction starts without a response, absorbs a repeated
/// request until it has one, and is over when timer J fires after its final one.
pub proof fn received_requests_wait(
    branch: Seq<char>,
    method: Seq<char>,
    t: TxnView,
    bytes: Seq<u8>,
)
    ensures
        new_server_non_invite(branch, method).state == TransactionState::Trying,
        new_server_non_invite(branch, method).buffer is None,
        t.state == TransactionState::Trying ==> step(
            Flavor::ServerNonInvite,
            t,
            EventView::RequestReceived { method, bytes },
        ) == (t, Seq::<ActionView>::empty()),
        t.state == TransactionState::Completed ==> {
            let (next, actions) = step(
                Flavor::ServerNonInvite,
                t,
                EventView::TimerFired(TimerId::J),
            );
            &&& next.state == TransactionState::Terminated
            &&& sends(actions, None) && tells(actions, None) && is_over(actions)
        },
{
    let actions = step(Flavor::ServerNonInvite, t, EventView::TimerFired(TimerId::J)).1;
    lemma_parts(actions);
    if t.state == TransactionState::Completed {
        assert(actions[0] == ActionView::Terminated);
    }
}

// ---------------------------------------------------------------------
// Identity
// ---------------------------------------------------------------------

/// A fresh transaction is known by the branch and the method of its request,
/// and by its side; a client keeps the request to send it again.
pub proof fn transactions_carry_their_key(
    branch: Seq<char>,
    method: Seq<char>,
    request: Seq<u8>,
)
    ensures
        ({
            let a = new_client_invite(branch, request);
            let b = new_client_non_invite(branch, method, request);
            let c = new_server_invite(branch);
            let d = new_server_non_invite(branch, method);
            &&& a.key.branch == branch && b.key.branch == branch && c.key.branch == branch
                && d.key.branch == branch
            &&& a.key.method == "INVITE"@ && c.key.method == "INVITE"@
            &&& b.key.method == method && d.key.method == method
            &&& a.key.role == super::Role::Client && b.key.role == super::Role::Client
            &&& c.key.role == super::Role::Server && d.key.role == super::Role::Server
            &&& a.buffer == Some(request) && b.buffer == Some(request)
            &&& a.state == TransactionState::Calling && b.state == TransactionState::Trying
        }),
{
}

/// T1 is half a second, T2 four seconds and T4 five.
pub proof fn timer_values()
    ensures
        T1 == 500,
        T2 == 8 * T1,
        T4 == 10 * T1,
{
}

// ---------------------------------------------------------------------
// The machines themselves
// ---------------------------------------------------------------------

/// Whatever [`ClientInviteTxn`] is told to do when it starts: it sends its
/// INVITE, arms timer B for 64 T1, and on an unreliable transport timer A for
/// T1; and nothing else.
pub proof fn client_invites_start_as_stated()
    ensures
        forall|m: &mut ClientInviteTxn, r: Vec<TransactionAction>|
            m.model().state == TransactionState::Calling && m.model().buffer is Some
                && #[trigger] call_ensures(
                ClientInviteTxn::on_event,
                (m, TransactionEvent::StartClient),
                r,
            ) ==> {
                let actions = actions_view(r@);
                &&& sends(actions, m.model().buffer)
                &&& arms(actions, TimerId::A, unless_reliable(m.model().reliable, T1 as int))
                &&& arms(actions, TimerId::B, Some((64 * T1) as Millis))
                &&& arms_only(actions, TimerId::A, TimerId::B)
            },
{
}

/// Each machine does what is said of its kind here: its next state and its
/// actions are those of [`step`].
pub proof fn machines_follow_their_kind()
    ensures
        forall|m: &mut ClientInviteTxn, e: TransactionEvent, r: Vec<TransactionAction>|
            #[trigger] call_ensures(ClientInviteTxn::on_event, (m, e), r) ==> (
                final(m).model(),
                actions_view(r@),
            ) == step(Flavor::ClientInvite, m.model(), e@),
        forall|m: &mut ClientNonInviteTxn, e: TransactionEvent, r: Vec<TransactionAction>|
            #[trigger] call_ensures(ClientNonInviteTxn::on_event, (m, e), r) ==> (
                final(m).model(),
                actions_view(r@),
            ) == step(Flavor::ClientNonInvite, m.model(), e@),
        forall|m: &mut ServerInviteTxn, e: TransactionEvent, r: Vec<TransactionAction>|
            #[trigger] call_ensures(ServerInviteTxn::on_event, (m, e), r) ==> (
                final(m).model(),
                actions_view(r@),
            ) == step(Flavor::ServerInvite, m.model(), e@),
        forall|m: &mut ServerNonInviteTxn, e: TransactionEvent, r: Vec<TransactionAction>|
            #[trigger] call_ensures(ServerNonInviteTxn::on_event, (m, e), r) ==> (
                final(m).model(),
                actions_view(r@),
            ) == step(Flavor::ServerNonInvite, m.model(), e@),
        forall|m: &mut Machine, e: TransactionEvent, r: Vec<TransactionAction>|
            #[trigger] call_ensures(Machine::on_event, (m, e), r) ==> (
                final(m).model(),
                actions_view(r@),
            ) == step(m.flavor(), m.model(), e@),
{
}

// ---------------------------------------------------------------------
// Repetition
// ---------------------------------------------------------------------

/// What is not answered is sent again, on an unreliable transport, each time the
/// timer for it fires: an INVITE after twice the last wait, another request and
/// a rejection after twice the last wait but T2 at most, and a request that got
/// a provisional response every T2.
pub proof fn unanswered_messages_are_repeated(t: TxnView, last: Seq<u8>)
    requires
        !t.reliable,
        t.attempt < u32::MAX,
        t.buffer == Some(last),
    ensures
        t.state == TransactionState::Calling ==> {
            let (next, actions) = step(
                Flavor::ClientInvite,
                t,
                EventView::TimerFired(TimerId::A),
            );
            &&& next == (TxnView { attempt: (t.attempt + 1) as u32, ..t })
            &&& sends(actions, Some(last)) && tells(actions, None) && !is_over(actions)
            &&& arms(
                actions,
                TimerId::A,
                Some(backoff((t.attempt + 1) as nat, 3_600_000) as Millis),
            )
            &&& arms_only(actions, TimerId::A, TimerId::A)
        },
        t.state == TransactionState::Trying ==> {
            let (next, actions) = step(
                Flavor::ClientNonInvite,
                t,
                EventView::TimerFired(TimerId::E),
            );
            &&& next == (TxnView { attempt: (t.attempt + 1) as u32, ..t })
            &&& sends(actions, Some(last)) && tells(actions, None) && !is_over(actions)
            &&& arms(
                actions,
                TimerId::E,
                Some(backoff((t.attempt + 1) as nat, 4_000) as Millis),
            )
            &&& arms_only(actions, TimerId::E, TimerId::E)
        },
        t.state == TransactionState::Proceeding ==> {
            let (next, actions) = step(
                Flavor::ClientNonInvite,
                t,
                EventView::TimerFired(TimerId::E),
            );
            &&& next == t
            &&& sends(actions, Some(last)) && tells(actions, None) && !is_over(actions)
            &&& arms(actions, TimerId::E, Some(4_000u64))
            &&& arms_only(actions, TimerId::E, TimerId::E)
        },
        t.state == TransactionState::Completed ==> {
            let (next, actions) = step(
                Flavor::ServerInvite,
                t,
                EventView::TimerFired(TimerId::G),
            );
            &&& next == (TxnView { attempt: (t.attempt + 1) as u32, ..t })
            &&& sends(actions, Some(last)) && tells(actions, None) && !is_over(actions)
            &&& arms(
                actions,
                TimerId::G,
                Some(backoff((t.attempt + 1) as nat, 4_000) as Millis),
            )
            &&& arms_only(actions, TimerId::G, TimerId::G)
        },
{
    let a = step(Flavor::ClientInvite, t, EventView::TimerFired(TimerId::A)).1;
    let e = step(Flavor::ClientNonInvite, t, EventView::TimerFired(TimerId::E)).1;
    let g = step(Flavor::ServerInvite, t, EventView::TimerFired(TimerId::G)).1;
    lemma_parts(a);
    lemma_parts(e);
    lemma_parts(g);
    if t.state == TransactionState::Calling {
        assert(a[0] == ActionView::SendToPeer(last));
        assert(a[1] is ArmTimer);
    }
    if t.state == TransactionState::Trying || t.state == TransactionState::Proceeding {
        assert(e[0] == ActionView::SendToPeer(last));
        assert(e[1] is ArmTimer);
    }
    if t.state == TransactionState::Completed {
        assert(g[0] == ActionView::SendToPeer(last));
        assert(g[1] is ArmTimer);
    }
}

/// A repeated request is answered with the last response, where there is one,
/// and is otherwise ignored: an INVITE while its transaction waits or is
/// rejected, another request once it has a response.
pub proof fn repeated_requests_are_answered_again(
    t: TxnView,
    method: Seq<char>,
    bytes: Seq<u8>,
)
    ensures
        t.state == TransactionState::Proceeding || t.state == TransactionState::Completed ==> {
            let (next, actions) = step(
                Flavor::ServerInvite,
                t,
                EventView::RequestReceived { method: "INVITE"@, bytes },
            );
            &&& next == t
            &&& sends(actions, t.buffer) && !is_over(actions)
            &&& actions.len() <= 1
        },
        t.state == TransactionState::Proceeding || t.state == TransactionState::Completed ==> {
            let (next, actions) = step(
                Flavor::ServerNonInvite,
                t,
                EventView::RequestReceived { method, bytes },
            );
            &&& next == t
            &&& sends(actions, t.buffer) && !is_over(actions)
            &&& actions.len() <= 1
        },
{
    let a = step(
        Flavor::ServerInvite,
        t,
        EventView::RequestReceived { method: "INVITE"@, bytes },
    ).1;
    let b = step(Flavor::ServerNonInvite, t, EventView::RequestReceived { method, bytes }).1;
    lemma_parts(a);
    lemma_parts(b);
    if t.state == TransactionState::Proceeding || t.state == TransactionState::Completed {
        if let Some(last) = t.buffer {
            assert(a[0] == ActionView::SendToPeer(last));
            assert(b[0] == ActionView::SendToPeer(last));
        }
    }
}

/// A client knows only its start, responses and its own timers; a server only
/// requests, the responses of its user and its own timers. Whatever else comes
/// changes nothing, and so does a response whose status is no status.
pub proof fn other_events_are_absorbed(t: TxnView, event: EventView)
    ensures
        event is RequestReceived || event is SendResponseFromTu || (event matches
            EventView::TimerFired(id) && id != TimerId::A && id != TimerId::B && id != TimerId::D)
            || (event matches EventView::ResponseReceived { status, .. } && !(100 <= status < 700))
            ==> step(Flavor::ClientInvite, t, event) == (t, Seq::<ActionView>::empty()),
        event is RequestReceived || event is SendResponseFromTu || (event matches
            EventView::TimerFired(id) && id != TimerId::E && id != TimerId::F && id != TimerId::K)
            || (event matches EventView::ResponseReceived { status, .. } && !(100 <= status < 700))
            ==> step(Flavor::ClientNonInvite, t, event) == (t, Seq::<ActionView>::empty()),
        event is StartClient || event is ResponseReceived || (event matches EventView::TimerFired(
            id,
        ) && id != TimerId::G && id != TimerId::H && id != TimerId::I) || (event matches
            EventView::SendResponseFromTu { status, .. } && !(100 <= status < 700)) ==> step(
            Flavor::ServerInvite,
            t,
            event,
        ) == (t, Seq::<ActionView>::empty()),
        event is StartClient || event is ResponseReceived || (event matches EventView::TimerFired(
            id,
        ) && id != TimerId::J) || (event matches EventView::SendResponseFromTu { status, .. } && !(
        100 <= status < 700)) ==> step(Flavor::ServerNonInvite, t, event) == (
            t,
            Seq::<ActionView>::empty(),
        ),
{
}

} // verus!
