//! The four transaction machines under one roof, and what holds of all of
//! them.

use vstd::prelude::*;

use super::client_invite::{client_invite_step, new_client_invite, ClientInviteTxn};
use super::client_non_invite::{client_non_invite_step, ClientNonInviteTxn};
use super::server_invite::{server_invite_step, ServerInviteTxn};
use super::server_non_invite::{server_non_invite_step, ServerNonInviteTxn};
use super::{
    absorbed, is_final, is_provisional, ActionView, EventView, TimerId, Transaction,
    TransactionAction, TransactionEvent, TransactionKey, TransactionState, TxnView,
};

verus! {

/// Which of the four machines a transaction runs.
#[derive(Copy, Clone, Debug, PartialEq, Eq, Structural)]
pub enum Flavor {
    ClientInvite,
    ClientNonInvite,
    ServerInvite,
    ServerNonInvite,
}

/// What the machine of the given flavor does with an event.
pub open spec fn step(flavor: Flavor, t: TxnView, event: EventView) -> (TxnView, Seq<ActionView>) {
    match flavor {
        Flavor::ClientInvite => client_invite_step(t, event),
        Flavor::ClientNonInvite => client_non_invite_step(t, event),
        Flavor::ServerInvite => server_invite_step(t, event),
        Flavor::ServerNonInvite => server_non_invite_step(t, event),
    }
}

/// A transaction of any flavor.
pub enum Machine {
    /// INVITE that the engine sends.
    ClientInvite(ClientInviteTxn),
    /// Other request that the engine sends.
    ClientNonInvite(ClientNonInviteTxn),
    /// INVITE that the engine receives.
    ServerInvite(ServerInviteTxn),
    /// Other request that the engine receives.
    ServerNonInvite(ServerNonInviteTxn),
}

impl Machine {
    /// The flavor of the transaction.
    pub open spec fn flavor(&self) -> Flavor {
        match *self {
            Machine::ClientInvite(_) => Flavor::ClientInvite,
            Machine::ClientNonInvite(_) => Flavor::ClientNonInvite,
            Machine::ServerInvite(_) => Flavor::ServerInvite,
            Machine::ServerNonInvite(_) => Flavor::ServerNonInvite,
        }
    }
}

impl Transaction for Machine {
    open spec fn model(&self) -> TxnView {
        match *self {
            Machine::ClientInvite(t) => t.model(),
            Machine::ClientNonInvite(t) => t.model(),
            Machine::ServerInvite(t) => t.model(),
            Machine::ServerNonInvite(t) => t.model(),
        }
    }

    open spec fn after(&self, event: EventView) -> (TxnView, Seq<ActionView>) {
        step(self.flavor(), self.model(), event)
    }

    fn key(&self) -> &TransactionKey {
        match self {
            Machine::ClientInvite(t) => t.key(),
            Machine::ClientNonInvite(t) => t.key(),
            Machine::ServerInvite(t) => t.key(),
            Machine::ServerNonInvite(t) => t.key(),
        }
    }

    fn state(&self) -> TransactionState {
        match self {
            Machine::ClientInvite(t) => t.state(),
            Machine::ClientNonInvite(t) => t.state(),
            Machine::ServerInvite(t) => t.state(),
            Machine::ServerNonInvite(t) => t.state(),
        }
    }

    fn set_reliable(&mut self, reliable: bool)
        ensures
            final(self).flavor() == old(self).flavor(),
    {
        match self {
            Machine::ClientInvite(t) => t.set_reliable(reliable),
            Machine::ClientNonInvite(t) => t.set_reliable(reliable),
            Machine::ServerInvite(t) => t.set_reliable(reliable),
            Machine::ServerNonInvite(t) => t.set_reliable(reliable),
        }
    }

    fn on_event(&mut self, event: TransactionEvent) -> (r: Vec<TransactionAction>)
        ensures
            final(self).flavor() == old(self).flavor(),
    {
        match self {
            Machine::ClientInvite(t) => t.on_event(event),
            Machine::ClientNonInvite(t) => t.on_event(event),
            Machine::ServerInvite(t) => t.on_event(event),
            Machine::ServerNonInvite(t) => t.on_event(event),
        }
    }
}

// ---------------------------------------------------------------------
// Laws
// ---------------------------------------------------------------------

/// How far a transaction has come.
pub open spec fn progress(state: TransactionState) -> int {
    match state {
        TransactionState::Trying => 0,
        TransactionState::Calling => 0,
        TransactionState::Proceeding => 1,
        TransactionState::Completed => 2,
        TransactionState::Confirmed => 3,
        TransactionState::Terminated => 4,
    }
}

/// A terminated transaction absorbs every event.
pub proof fn terminated_absorbs(flavor: Flavor, t: TxnView, event: EventView)
    requires
        t.state == TransactionState::Terminated,
    ensures
        step(flavor, t, event) == absorbed(t),
{
}

/// No event takes a transaction back, and none changes its key or its timer
/// profile.
#[verifier::spinoff_prover]
pub proof fn steps_go_forward(flavor: Flavor, t: TxnView, event: EventView)
    ensures
        progress(t.state) <= progress(step(flavor, t, event).0.state),
        step(flavor, t, event).0.key == t.key,
        step(flavor, t, event).0.reliable == t.reliable,
{
}

/// `actions` announces an end, as its last action, if and only if `ends`.
pub open spec fn announces(actions: Seq<ActionView>, ends: bool) -> bool {
    &&& ends ==> actions.len() > 0 && actions.last() == ActionView::Terminated
    &&& forall|i: int|
        0 <= i < actions.len() && #[trigger] actions[i] == ActionView::Terminated ==> ends && i
            == actions.len() - 1
}

/// The step from `t` to `next` ends the transaction.
pub open spec fn ends(t: TxnView, next: TxnView) -> bool {
    t.state != TransactionState::Terminated && next.state == TransactionState::Terminated
}

#[verifier::spinoff_prover]
proof fn lemma_end_client_invite(t: TxnView, event: EventView)
    ensures
        announces(
            client_invite_step(t, event).1,
            ends(t, client_invite_step(t, event).0),
        ),
{
}

#[verifier::spinoff_prover]
proof fn lemma_end_client_non_invite(t: TxnView, event: EventView)
    ensures
        announces(
            client_non_invite_step(t, event).1,
            ends(t, client_non_invite_step(t, event).0),
        ),
{
}

#[verifier::spinoff_prover]
proof fn lemma_end_server_invite(t: TxnView, event: EventView)
    ensures
        announces(
            server_invite_step(t, event).1,
            ends(t, server_invite_step(t, event).0),
        ),
{
}

#[verifier::spinoff_prover]
proof fn lemma_end_server_non_invite(t: TxnView, event: EventView)
    ensures
        announces(
            server_non_invite_step(t, event).1,
            ends(t, server_non_invite_step(t, event).0),
        ),
{
}

/// A step announces the end of the transaction exactly when it reaches it,
/// and then as its last action.
pub proof fn end_is_announced_once(flavor: Flavor, t: TxnView, event: EventView)
    ensures
        announces(step(flavor, t, event).1, ends(t, step(flavor, t, event).0)),
{
    match flavor {
        Flavor::ClientInvite => lemma_end_client_invite(t, event),
        Flavor::ClientNonInvite => lemma_end_client_non_invite(t, event),
        Flavor::ServerInvite => lemma_end_server_invite(t, event),
        Flavor::ServerNonInvite => lemma_end_server_non_invite(t, event),
    }
}

/// `a` hands a final response to the transaction user.
pub open spec fn delivers_final(a: ActionView) -> bool {
    a matches ActionView::DeliverResponseToTu { status, .. } && status >= 200
}

/// `a` hands any response to the transaction user.
pub open spec fn delivers(a: ActionView) -> bool {
    a is DeliverResponseToTu
}

/// How many of `actions` hand over a final response.
pub open spec fn finals(actions: Seq<ActionView>) -> nat
    decreases actions.len(),
{
    if actions.len() == 0 {
        0
    } else {
        finals(actions.drop_last()) + (if delivers_final(actions.last()) {
            1nat
        } else {
            0nat
        })
    }
}

/// The state and all the actions after a list of events.
pub open spec fn run(flavor: Flavor, t: TxnView, events: Seq<EventView>) -> (
    TxnView,
    Seq<ActionView>,
)
    decreases events.len(),
{
    if events.len() == 0 {
        (t, seq![])
    } else {
        let (mid, before) = run(flavor, t, events.drop_last());
        let (next, now) = step(flavor, mid, events.last());
        (next, before + now)
    }
}

proof fn lemma_finals_concat(a: Seq<ActionView>, b: Seq<ActionView>)
    ensures
        finals(a + b) == finals(a) + finals(b),
    decreases b.len(),
{
    if b.len() == 0 {
        assert(a + b =~= a);
    } else {
        assert((a + b).drop_last() =~= a + b.drop_last());
        assert((a + b).last() == b.last());
        lemma_finals_concat(a, b.drop_last());
    }
}

proof fn lemma_no_finals(a: Seq<ActionView>)
    requires
        forall|i: int| 0 <= i < a.len() ==> !delivers_final(#[trigger] a[i]),
    ensures
        finals(a) == 0,
    decreases a.len(),
{
    if a.len() > 0 {
        assert(!delivers_final(a[a.len() - 1]));
        assert forall|i: int| 0 <= i < a.drop_last().len() implies !delivers_final(
            #[trigger] a.drop_last()[i],
        ) by {
            assert(!delivers_final(a[i]));
        }
        lemma_no_finals(a.drop_last());
    }
}

/// In one step at most the first action hands over a final response, and only
/// where the step leaves `Completed` or `Terminated` behind it.
#[verifier::spinoff_prover]
proof fn lemma_finals_of_step(flavor: Flavor, t: TxnView, event: EventView)
    ensures
        finals(step(flavor, t, event).1) <= 1,
        finals(step(flavor, t, event).1) == 1 ==> progress(t.state) < 2 && progress(
            step(flavor, t, event).0.state,
        ) >= 2,
{
    let (next, actions) = step(flavor, t, event);
    if actions.len() > 0 {
        let rest = actions.drop_first();
        assert forall|i: int| 0 <= i < rest.len() implies !delivers_final(#[trigger] rest[i]) by {
            assert(rest[i] == actions[i + 1]);
        }
        lemma_no_finals(rest);
        assert(actions =~= seq![actions[0]] + rest);
        lemma_finals_concat(seq![actions[0]], rest);
        assert(seq![actions[0]].drop_last() =~= seq![]);
        assert(seq![actions[0]].last() == actions[0]);
        assert(finals(seq![]) == 0);
    }
}

/// However often a final response is repeated on the wire, the transaction
/// user is handed at most one.
pub proof fn one_final_per_transaction(flavor: Flavor, t: TxnView, events: Seq<EventView>)
    ensures
        finals(run(flavor, t, events).1) <= 1,
        finals(run(flavor, t, events).1) == 1 ==> progress(run(flavor, t, events).0.state) >= 2,
    decreases events.len(),
{
    if events.len() > 0 {
        let (mid, before) = run(flavor, t, events.drop_last());
        let (next, now) = step(flavor, mid, events.last());
        one_final_per_transaction(flavor, t, events.drop_last());
        lemma_finals_of_step(flavor, mid, events.last());
        lemma_finals_concat(before, now);
        steps_go_forward(flavor, mid, events.last());
    }
}

/// Once the final response is in, nothing more is handed to the transaction
/// user, provisional responses included.
#[verifier::spinoff_prover]
pub proof fn nothing_after_the_final(flavor: Flavor, t: TxnView, event: EventView)
    requires
        progress(t.state) >= 2,
    ensures
        forall|i: int|
            0 <= i < step(flavor, t, event).1.len() ==> !delivers(
                #[trigger] step(flavor, t, event).1[i],
            ),
{
}

/// A client INVITE transaction for `invite` under way: what it would send again
/// is the INVITE while nothing was handed to its user, and an ACK later.
spec fn holds(t: TxnView, invite: Seq<u8>) -> bool {
    &&& t.buffer == Some(invite)
    &&& t.ack matches Some(a) ==> a != invite
}

#[verifier::spinoff_prover]
proof fn lemma_invite_step(t: TxnView, event: EventView, invite: Seq<u8>)
    requires
        holds(t, invite),
        invite.len() > 0 && invite[0] != 65,
    ensures
        ({
            let (next, actions) = client_invite_step(t, event);
            &&& holds(next, invite)
            &&& t.state != TransactionState::Calling ==> next.state != TransactionState::Calling
            &&& forall|i: int| #![trigger actions[i]]
                0 <= i < actions.len() ==> {
                    &&& delivers(actions[i]) ==> next.state != TransactionState::Calling
                    &&& actions[i] matches ActionView::DeliverResponseToTu { status, .. } ==> 100
                        <= status < 700
                    &&& actions[i] == ActionView::SendToPeer(invite) ==> t.state
                        == TransactionState::Calling && next.state == TransactionState::Calling
                }
        }),
{
    if let EventView::ResponseReceived { status, bytes } = event {
        super::ack::lemma_ack_begins(invite, bytes);
    }
}

proof fn lemma_invite_run(t: TxnView, events: Seq<EventView>, invite: Seq<u8>)
    requires
        holds(t, invite),
        invite.len() > 0 && invite[0] != 65,
    ensures
        ({
            let (next, actions) = run(Flavor::ClientInvite, t, events);
            &&& holds(next, invite)
            &&& forall|i: int| #![trigger actions[i]]
                0 <= i < actions.len() ==> {
                    &&& delivers(actions[i]) ==> next.state != TransactionState::Calling
                    &&& actions[i] matches ActionView::DeliverResponseToTu { status, .. } ==> 100
                        <= status < 700
                }
            &&& forall|i: int, j: int| #![trigger actions[i], actions[j]]
                0 <= i < j < actions.len() && delivers(actions[i]) ==> actions[j]
                    != ActionView::SendToPeer(invite)
        }),
    decreases events.len(),
{
    if events.len() > 0 {
        let (mid, before) = run(Flavor::ClientInvite, t, events.drop_last());
        let (next, now) = client_invite_step(mid, events.last());
        lemma_invite_run(t, events.drop_last(), invite);
        lemma_invite_step(mid, events.last(), invite);
        let actions = before + now;
        let n = before.len() as int;
        assert forall|i: int| #![trigger actions[i]] 0 <= i < actions.len() implies {
            &&& delivers(actions[i]) ==> next.state != TransactionState::Calling
            &&& actions[i] matches ActionView::DeliverResponseToTu { status, .. } ==> 100 <= status
                < 700
        } by {
            if i < n {
                assert(actions[i] == before[i]);
            } else {
                assert(actions[i] == now[i - n]);
            }
        }
        assert forall|i: int, j: int| #![trigger actions[i], actions[j]]
            0 <= i < j < actions.len() && delivers(actions[i]) implies actions[j]
            != ActionView::SendToPeer(invite) by {
            if j < n {
                assert(actions[i] == before[i] && actions[j] == before[j]);
            } else {
                assert(actions[j] == now[j - n]);
                if i < n {
                    assert(actions[i] == before[i]);
                } else {
                    assert(actions[i] == now[i - n]);
                }
            }
        }
    }
}

/// Once a client INVITE transaction has handed its user any response, a
/// provisional one included, it does not send the INVITE again. Whatever it
/// hands over has a status from 100 to 699, and at most one of them is final.
/// `reliable` is its timer profile; the INVITE begins with another letter than
/// an ACK.
pub proof fn answered_invites_are_not_repeated(
    branch: Seq<char>,
    invite: Seq<u8>,
    reliable: bool,
    events: Seq<EventView>,
    i: int,
    j: int,
)
    requires
        invite.len() > 0 && invite[0] != 65,
    ensures
        ({
            let fresh = TxnView { reliable, ..new_client_invite(branch, invite) };
            let actions = run(Flavor::ClientInvite, fresh, events).1;
            &&& finals(actions) <= 1
            &&& 0 <= i < actions.len() ==> (actions[i] matches ActionView::DeliverResponseToTu {
                status,
                ..
            } ==> 100 <= status < 700)
            &&& 0 <= i < j < actions.len() && delivers(actions[i]) ==> actions[j]
                != ActionView::SendToPeer(invite)
        }),
{
    let fresh = TxnView { reliable, ..new_client_invite(branch, invite) };
    lemma_invite_run(fresh, events, invite);
    one_final_per_transaction(Flavor::ClientInvite, fresh, events);
}

/// A timer that retransmits.
pub open spec fn retransmits(id: TimerId) -> bool {
    id == TimerId::A || id == TimerId::E || id == TimerId::G
}

/// A timer that waits for duplicates.
pub open spec fn lingers(id: TimerId) -> bool {
    id == TimerId::D || id == TimerId::I || id == TimerId::J || id == TimerId::K
}

/// On a reliable transport no timer retransmits or waits for duplicates, and a
/// timer makes no transaction send anything.
#[verifier::spinoff_prover]
pub proof fn reliable_never_retransmits(flavor: Flavor, t: TxnView, event: EventView)
    requires
        t.reliable,
    ensures
        forall|i: int| #![trigger step(flavor, t, event).1[i]]
            0 <= i < step(flavor, t, event).1.len() ==> {
                let a = step(flavor, t, event).1[i];
                &&& a matches ActionView::ArmTimer { id, .. } ==> !retransmits(id) && !lingers(id)
                &&& event is TimerFired ==> !(a is SendToPeer)
            },
{
}

/// A client transaction hands over every provisional response that arrives
/// before the final one, as it came.
#[verifier::spinoff_prover]
pub proof fn provisionals_reach_the_user(
    flavor: Flavor,
    t: TxnView,
    status: u16,
    bytes: Seq<u8>,
)
    requires
        flavor == Flavor::ClientInvite && (t.state == TransactionState::Calling || t.state
            == TransactionState::Proceeding) || flavor == Flavor::ClientNonInvite && (t.state
            == TransactionState::Trying || t.state == TransactionState::Proceeding),
        is_provisional(status),
    ensures
        step(flavor, t, EventView::ResponseReceived { status, bytes }).1.contains(
            ActionView::DeliverResponseToTu { status, bytes },
        ),
        step(flavor, t, EventView::ResponseReceived { status, bytes }).0.state
            == TransactionState::Proceeding,
{
    let actions = step(flavor, t, EventView::ResponseReceived { status, bytes }).1;
    let wanted = ActionView::DeliverResponseToTu { status, bytes };
    if flavor == Flavor::ClientInvite && t.state == TransactionState::Calling {
        assert(actions[1] == wanted);
    } else {
        assert(actions[0] == wanted);
    }
}

/// The first final response reaches the transaction user, as it came, and
/// ends the wait for one.
pub proof fn first_final_reaches_the_user(flavor: Flavor, t: TxnView, status: u16, bytes: Seq<u8>)
    requires
        flavor == Flavor::ClientInvite && (t.state == TransactionState::Calling || t.state
            == TransactionState::Proceeding) || flavor == Flavor::ClientNonInvite && (t.state
            == TransactionState::Trying || t.state == TransactionState::Proceeding),
        is_final(status),
    ensures
        step(flavor, t, EventView::ResponseReceived { status, bytes }).1.len() > 0,
        step(flavor, t, EventView::ResponseReceived { status, bytes }).1[0]
            == (ActionView::DeliverResponseToTu { status, bytes }),
        progress(step(flavor, t, EventView::ResponseReceived { status, bytes }).0.state) >= 2,
{
}

/// A server transaction answers a repeated request with the response that it
/// sent last, byte for byte: after the transaction user hands over a response
/// that does not end the transaction, the request coming again sends that
/// response and changes nothing.
#[verifier::spinoff_prover]
pub proof fn repeated_request_gets_the_last_response(
    flavor: Flavor,
    t: TxnView,
    status: u16,
    bytes: Seq<u8>,
    again: Seq<u8>,
)
    requires
        flavor == Flavor::ServerInvite && t.state == TransactionState::Proceeding || flavor
            == Flavor::ServerNonInvite && (t.state == TransactionState::Trying || t.state
            == TransactionState::Proceeding),
        is_provisional(status) || is_final(status),
        flavor == Flavor::ServerInvite ==> t.key.method == "INVITE"@,
        step(flavor, t, EventView::SendResponseFromTu { status, bytes }).0.state
            != TransactionState::Terminated,
    ensures
        ({
            let sent = step(flavor, t, EventView::SendResponseFromTu { status, bytes });
            let repeat = EventView::RequestReceived { method: t.key.method, bytes: again };
            &&& sent.1.len() > 0 && sent.1[0] == ActionView::SendToPeer(bytes)
            &&& step(flavor, sent.0, repeat) == (sent.0, seq![ActionView::SendToPeer(bytes)])
        }),
{
}

/// A final response to an INVITE that comes again is answered with the same
/// ACK again.
#[verifier::spinoff_prover]
pub proof fn repeated_rejection_gets_the_same_ack(
    t: TxnView,
    status: u16,
    bytes: Seq<u8>,
    status_again: u16,
    again: Seq<u8>,
)
    requires
        t.state == TransactionState::Calling || t.state == TransactionState::Proceeding,
        t.buffer is Some,
        !t.reliable,
        300 <= status < 700,
        300 <= status_again < 700,
        super::ack::non_ok_ack(t.buffer->0, bytes) is Some,
    ensures
        ({
            let ack = super::ack::non_ok_ack(t.buffer->0, bytes)->0;
            let first = client_invite_step(t, EventView::ResponseReceived { status, bytes });
            let second = client_invite_step(
                first.0,
                EventView::ResponseReceived { status: status_again, bytes: again },
            );
            &&& first.1.contains(ActionView::SendToPeer(ack))
            &&& second == (first.0, seq![ActionView::SendToPeer(ack)])
        }),
{
    let first = client_invite_step(t, EventView::ResponseReceived { status, bytes });
    let ack = super::ack::non_ok_ack(t.buffer->0, bytes)->0;
    assert(first.1[3] == ActionView::SendToPeer(ack));
}

} // verus!
