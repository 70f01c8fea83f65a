//! Client INVITE transaction (RFC 3261 section 17.1.1).
//!
//! ```text
//!          INVITE sent
//!               v
//!          +---------+  1xx   +------------+
//!          | Calling |------->| Proceeding |
//!          +---------+        +------------+
//!            |     \            /       |
//!            |      300-699 (ACK)       |
//!        2xx |          v               | 2xx
//!            |    +-----------+         |
//!            |    | Completed |         |
//!            |    +-----------+         |
//!            |          | timer D       |
//!            v          v               v
//!          +----------------------------------+
//!          |            Terminated            |
//!          +----------------------------------+
//! ```
//!
//! Timer A retransmits the INVITE and stops at the first response. Timer B
//! bounds the wait for a final response. A 2xx ends the transaction at once:
//! its ACK belongs to the dialog. Every other final response is acknowledged
//! here, and again each time it is repeated until timer D fires.

use vstd::prelude::*;

use super::ack::{build_non_ok_ack, non_ok_ack};
use super::timers::{backoff, doubling_backoff, Millis, T1, TIMEOUT_64T1};
use super::{
    absorbed, actions_view, bumped, is_provisional, is_rejection, is_success, ActionView,
    EventView, KeyView, Role, TimerId, Transaction, TransactionAction, TransactionEvent,
    TransactionKey, TransactionState, TxnView,
};
use crate::text::copy_bytes;

verus! {

/// Timer D on an unreliable transport.
pub const TIMER_D: Millis = 32_000;

/// Cap on timer A. Timer B fires long before it matters.
pub const TIMER_A_CAP: Millis = 3_600_000;

/// A client INVITE transaction.
pub struct ClientInviteTxn {
    key: TransactionKey,
    state: TransactionState,
    reliable: bool,
    invite: Vec<u8>,
    ack_for_non_ok: Option<Vec<u8>>,
    attempt: u32,
}

/// A fresh client INVITE transaction.
pub open spec fn new_client_invite(branch: Seq<char>, invite: Seq<u8>) -> TxnView {
    TxnView {
        key: KeyView { branch, method: "INVITE"@, role: Role::Client },
        state: TransactionState::Calling,
        reliable: false,
        buffer: Some(invite),
        ack: None,
        attempt: 0,
    }
}

/// A non-2xx final response: acknowledge it, tell the transaction user, and
/// wait for repetitions of it unless the transport is reliable.
pub open spec fn reject_step(t: TxnView, status: u16, bytes: Seq<u8>) -> (TxnView, Seq<ActionView>) {
    let ack = non_ok_ack(t.buffer->0, bytes);
    let head = seq![
        ActionView::DeliverResponseToTu { status, bytes },
        ActionView::CancelTimer(TimerId::A),
        ActionView::CancelTimer(TimerId::B),
    ];
    let sent = match ack {
        Some(a) => seq![ActionView::SendToPeer(a)],
        None => seq![],
    };
    if t.reliable {
        (
            TxnView { state: TransactionState::Terminated, ack, ..t },
            head + sent + seq![ActionView::Terminated],
        )
    } else {
        (
            TxnView { state: TransactionState::Completed, ack, ..t },
            head + sent + seq![ActionView::ArmTimer { id: TimerId::D, after: TIMER_D }],
        )
    }
}

/// The client INVITE state machine.
pub open spec fn client_invite_step(t: TxnView, event: EventView) -> (TxnView, Seq<ActionView>) {
    match (t.state, event) {
        (TransactionState::Calling, EventView::StartClient) => if t.reliable {
            (
                t,
                seq![
                    ActionView::SendToPeer(t.buffer->0),
                    ActionView::ArmTimer { id: TimerId::B, after: TIMEOUT_64T1 },
                ],
            )
        } else {
            (
                t,
                seq![
                    ActionView::SendToPeer(t.buffer->0),
                    ActionView::ArmTimer { id: TimerId::A, after: T1 },
                    ActionView::ArmTimer { id: TimerId::B, after: TIMEOUT_64T1 },
                ],
            )
        },
        (TransactionState::Calling, EventView::TimerFired(TimerId::A)) => if t.reliable {
            absorbed(t)
        } else {
            let next = bumped(t.attempt);
            (
                TxnView { attempt: next, ..t },
                seq![
                    ActionView::SendToPeer(t.buffer->0),
                    ActionView::ArmTimer {
                        id: TimerId::A,
                        after: backoff(next as nat, TIMER_A_CAP as nat) as u64,
                    },
                ],
            )
        },
        (TransactionState::Calling, EventView::ResponseReceived { status, bytes }) =>
        if is_provisional(status) {
            (
                TxnView { state: TransactionState::Proceeding, ..t },
                seq![
                    ActionView::CancelTimer(TimerId::A),
                    ActionView::DeliverResponseToTu { status, bytes },
                ],
            )
        } else {
            final_step(t, status, bytes)
        },
        (TransactionState::Proceeding, EventView::ResponseReceived { status, bytes }) =>
        if is_provisional(status) {
            (t, seq![ActionView::DeliverResponseToTu { status, bytes }])
        } else {
            final_step(t, status, bytes)
        },
        (TransactionState::Calling | TransactionState::Proceeding, EventView::TimerFired(
            TimerId::B,
        )) => (
            TxnView { state: TransactionState::Terminated, ..t },
            seq![ActionView::CancelTimer(TimerId::A), ActionView::Terminated],
        ),
        (TransactionState::Completed, EventView::ResponseReceived { status, bytes }) =>
        if is_rejection(status) && t.ack is Some {
            (t, seq![ActionView::SendToPeer(t.ack->0)])
        } else {
            absorbed(t)
        },
        (TransactionState::Completed, EventView::TimerFired(TimerId::D)) => (
            TxnView { state: TransactionState::Terminated, ..t },
            seq![ActionView::Terminated],
        ),
        _ => absorbed(t),
    }
}

/// A response that is not provisional, in `Calling` or `Proceeding`.
pub open spec fn final_step(t: TxnView, status: u16, bytes: Seq<u8>) -> (TxnView, Seq<ActionView>) {
    if is_success(status) {
        (
            TxnView { state: TransactionState::Terminated, ..t },
            seq![
                ActionView::DeliverResponseToTu { status, bytes },
                ActionView::CancelTimer(TimerId::A),
                ActionView::CancelTimer(TimerId::B),
                ActionView::Terminated,
            ],
        )
    } else if is_rejection(status) {
        reject_step(t, status, bytes)
    } else {
        absorbed(t)
    }
}

impl ClientInviteTxn {
    /// A transaction for the outbound INVITE `request`.
    pub fn new(branch: &str, request: Vec<u8>) -> (r: Self)
        ensures
            r.model() == new_client_invite(branch@, request@),
    {
        ClientInviteTxn {
            key: TransactionKey {
                branch: branch.to_owned(),
                method: "INVITE".to_owned(),
                role: Role::Client,
            },
            state: TransactionState::Calling,
            reliable: false,
            invite: request,
            ack_for_non_ok: None,
            attempt: 0,
        }
    }

    /// Handles a 2xx in `Calling` or `Proceeding`.
    fn enter_terminated_on_2xx(&mut self, status: u16, final_bytes: Vec<u8>) -> (r: Vec<
        TransactionAction,
    >)
        requires
            is_success(status),
        ensures
            final(self).model() == final_step(old(self).model(), status, final_bytes@).0,
            actions_view(r@) == final_step(old(self).model(), status, final_bytes@).1,
    {
        self.state = TransactionState::Terminated;
        let r = vec![
            TransactionAction::DeliverResponseToTu { status, bytes: final_bytes },
            TransactionAction::CancelTimer(TimerId::A),
            TransactionAction::CancelTimer(TimerId::B),
            TransactionAction::Terminated,
        ];
        assert(actions_view(r@) =~= final_step(old(self).model(), status, final_bytes@).1);
        r
    }

    /// Handles a non-2xx final in `Calling` or `Proceeding`.
    fn enter_completed_non_ok(&mut self, status: u16, final_bytes: Vec<u8>) -> (r: Vec<
        TransactionAction,
    >)
        requires
            is_rejection(status),
        ensures
            final(self).model() == reject_step(old(self).model(), status, final_bytes@).0,
            actions_view(r@) == reject_step(old(self).model(), status, final_bytes@).1,
    {
        let ack = build_non_ok_ack(&self.invite, &final_bytes);
        let ghost expected = reject_step(self.model(), status, final_bytes@);
        let mut actions = vec![
            TransactionAction::DeliverResponseToTu { status, bytes: final_bytes },
            TransactionAction::CancelTimer(TimerId::A),
            TransactionAction::CancelTimer(TimerId::B),
        ];
        match &ack {
            Some(a) => {
                actions.push(TransactionAction::SendToPeer(copy_bytes(a)));
            },
            None => {},
        }
        self.ack_for_non_ok = ack;
        if self.reliable {
            self.state = TransactionState::Terminated;
            actions.push(TransactionAction::Terminated);
        } else {
            self.state = TransactionState::Completed;
            actions.push(TransactionAction::ArmTimer { id: TimerId::D, after: TIMER_D });
        }
        assert(actions_view(actions@) =~= expected.1);
        actions
    }
}

impl Transaction for ClientInviteTxn {
    closed spec fn model(&self) -> TxnView {
        TxnView {
            key: self.key@,
            state: self.state,
            reliable: self.reliable,
            buffer: Some(self.invite@),
            ack: match self.ack_for_non_ok {
                Some(a) => Some(a@),
                None => None,
            },
            attempt: self.attempt,
        }
    }

    open spec fn after(&self, event: EventView) -> (TxnView, Seq<ActionView>) {
        client_invite_step(self.model(), event)
    }

    fn key(&self) -> &TransactionKey {
        &self.key
    }

    fn state(&self) -> TransactionState {
        self.state
    }

    fn set_reliable(&mut self, reliable: bool) {
        self.reliable = reliable;
    }

    fn on_event(&mut self, event: TransactionEvent) -> (r: Vec<TransactionAction>) {
        let ghost expected = client_invite_step(self.model(), event@);
        let mut out: Vec<TransactionAction> = Vec::new();
        match (self.state, event) {
            (TransactionState::Calling, TransactionEvent::StartClient) => {
                out.push(TransactionAction::SendToPeer(copy_bytes(&self.invite)));
                if !self.reliable {
                    out.push(TransactionAction::ArmTimer { id: TimerId::A, after: T1 });
                }
                out.push(TransactionAction::ArmTimer { id: TimerId::B, after: TIMEOUT_64T1 });
            },
            (TransactionState::Calling, TransactionEvent::TimerFired(TimerId::A)) => {
                if !self.reliable {
                    self.attempt = self.attempt.saturating_add(1);
                    out.push(TransactionAction::SendToPeer(copy_bytes(&self.invite)));
                    out.push(
                        TransactionAction::ArmTimer {
                            id: TimerId::A,
                            after: doubling_backoff(self.attempt, TIMER_A_CAP),
                        },
                    );
                }
            },
            (TransactionState::Calling, TransactionEvent::ResponseReceived { status, bytes }) => {
                if 100 <= status && status < 200 {
                    self.state = TransactionState::Proceeding;
                    out.push(TransactionAction::CancelTimer(TimerId::A));
                    out.push(TransactionAction::DeliverResponseToTu { status, bytes });
                } else if 200 <= status && status < 300 {
                    return self.enter_terminated_on_2xx(status, bytes);
                } else if 300 <= status && status < 700 {
                    return self.enter_completed_non_ok(status, bytes);
                }
            },
            (TransactionState::Proceeding, TransactionEvent::ResponseReceived { status, bytes }) => {
                if 100 <= status && status < 200 {
                    out.push(TransactionAction::DeliverResponseToTu { status, bytes });
                } else if 200 <= status && status < 300 {
                    return self.enter_terminated_on_2xx(status, bytes);
                } else if 300 <= status && status < 700 {
                    return self.enter_completed_non_ok(status, bytes);
                }
            },
            (
                TransactionState::Calling | TransactionState::Proceeding,
                TransactionEvent::TimerFired(TimerId::B),
            ) => {
                self.state = TransactionState::Terminated;
                out.push(TransactionAction::CancelTimer(TimerId::A));
                out.push(TransactionAction::Terminated);
            },
            (TransactionState::Completed, TransactionEvent::ResponseReceived { status, .. }) => {
                if 300 <= status && status < 700 {
                    match &self.ack_for_non_ok {
                        Some(a) => {
                            out.push(TransactionAction::SendToPeer(copy_bytes(a)));
                        },
                        None => {},
                    }
                }
            },
            (TransactionState::Completed, TransactionEvent::TimerFired(TimerId::D)) => {
                self.state = TransactionState::Terminated;
                out.push(TransactionAction::Terminated);
            },
            _ => {},
        }
        assert(actions_view(out@) =~= expected.1);
        assert(self.model() =~= expected.0);
        out
    }
}

} // verus!
