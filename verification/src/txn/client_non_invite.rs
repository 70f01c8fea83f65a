//! Client non-INVITE transaction (RFC 3261 section 17.1.2), for every method
//! but INVITE that the engine originates.
//!
//! ```text
//!           request sent
//!                v
//!           +--------+  1xx   +------------+
//!           | Trying |------->| Proceeding |
//!           +--------+        +------------+
//!                \              /
//!                 200-699      /
//!                  v          v
//!                 +-----------+  timer K  +------------+
//!                 | Completed |---------->| Terminated |
//!                 +-----------+           +------------+
//! ```
//!
//! Timer E retransmits: from `T1`, doubling up to `T2`, and every `T2` once a
//! provisional response was seen. Timer F bounds the wait for a final
//! response. Timer K keeps absorbing duplicates of it. On a reliable transport
//! there is no timer E, and the final response ends the transaction.

use vstd::prelude::*;

use super::timers::{backoff, doubling_backoff, T1, T2, T4, TIMEOUT_64T1};
use super::{
    absorbed, actions_view, bumped, is_final, is_provisional, ActionView, EventView, KeyView,
    Role, TimerId, Transaction, TransactionAction, TransactionEvent, TransactionKey,
    TransactionState, TxnView,
};
use crate::text::copy_bytes;

verus! {

/// A client non-INVITE transaction.
pub struct ClientNonInviteTxn {
    key: TransactionKey,
    state: TransactionState,
    reliable: bool,
    request: Vec<u8>,
    attempt: u32,
}

/// A fresh client non-INVITE transaction.
pub open spec fn new_client_non_invite(
    branch: Seq<char>,
    method: Seq<char>,
    request: Seq<u8>,
) -> TxnView {
    TxnView {
        key: KeyView { branch, method, role: Role::Client },
        state: TransactionState::Trying,
        reliable: false,
        buffer: Some(request),
        ack: None,
        attempt: 0,
    }
}

/// A final response in `Trying` or `Proceeding`.
pub open spec fn complete_step(t: TxnView, status: u16, bytes: Seq<u8>) -> (
    TxnView,
    Seq<ActionView>,
) {
    let head = seq![
        ActionView::DeliverResponseToTu { status, bytes },
        ActionView::CancelTimer(TimerId::E),
        ActionView::CancelTimer(TimerId::F),
    ];
    if t.reliable {
        (
            TxnView { state: TransactionState::Terminated, ..t },
            head.push(ActionView::Terminated),
        )
    } else {
        (
            TxnView { state: TransactionState::Completed, ..t },
            head.push(ActionView::ArmTimer { id: TimerId::K, after: T4 }),
        )
    }
}

/// The client non-INVITE state machine.
pub open spec fn client_non_invite_step(t: TxnView, event: EventView) -> (
    TxnView,
    Seq<ActionView>,
) {
    match (t.state, event) {
        (TransactionState::Trying, EventView::StartClient) => if t.reliable {
            (
                t,
                seq![
                    ActionView::SendToPeer(t.buffer->0),
                    ActionView::ArmTimer { id: TimerId::F, after: TIMEOUT_64T1 },
                ],
            )
        } else {
            (
                t,
                seq![
                    ActionView::SendToPeer(t.buffer->0),
                    ActionView::ArmTimer { id: TimerId::E, after: T1 },
                    ActionView::ArmTimer { id: TimerId::F, after: TIMEOUT_64T1 },
                ],
            )
        },
        (TransactionState::Trying, EventView::TimerFired(TimerId::E)) => if t.reliable {
            absorbed(t)
        } else {
            let next = bumped(t.attempt);
            (
                TxnView { attempt: next, ..t },
                seq![
                    ActionView::SendToPeer(t.buffer->0),
                    ActionView::ArmTimer {
                        id: TimerId::E,
                        after: backoff(next as nat, T2 as nat) as u64,
                    },
                ],
            )
        },
        (TransactionState::Trying, EventView::ResponseReceived { status, bytes }) =>
        if is_provisional(status) {
            let delivered = seq![ActionView::DeliverResponseToTu { status, bytes }];
            (
                TxnView { state: TransactionState::Proceeding, ..t },
                if t.reliable {
                    delivered
                } else {
                    delivered.push(ActionView::ArmTimer { id: TimerId::E, after: T2 })
                },
            )
        } else if is_final(status) {
            complete_step(t, status, bytes)
        } else {
            absorbed(t)
        },
        (TransactionState::Proceeding, EventView::ResponseReceived { status, bytes }) =>
        if is_provisional(status) {
            (t, seq![ActionView::DeliverResponseToTu { status, bytes }])
        } else if is_final(status) {
            complete_step(t, status, bytes)
        } else {
            absorbed(t)
        },
        (TransactionState::Proceeding, EventView::TimerFired(TimerId::E)) => if t.reliable {
            absorbed(t)
        } else {
            (
                t,
                seq![
                    ActionView::SendToPeer(t.buffer->0),
                    ActionView::ArmTimer { id: TimerId::E, after: T2 },
                ],
            )
        },
        (TransactionState::Trying | TransactionState::Proceeding, EventView::TimerFired(
            TimerId::F,
        )) => (
            TxnView { state: TransactionState::Terminated, ..t },
            seq![ActionView::CancelTimer(TimerId::E), ActionView::Terminated],
        ),
        (TransactionState::Completed, EventView::TimerFired(TimerId::K)) => (
            TxnView { state: TransactionState::Terminated, ..t },
            seq![ActionView::Terminated],
        ),
        _ => absorbed(t),
    }
}

impl ClientNonInviteTxn {
    /// A transaction for the outbound `request`.
    pub fn new(branch: &str, method: &str, request: Vec<u8>) -> (r: Self)
        ensures
            r.model() == new_client_non_invite(branch@, method@, request@),
    {
        ClientNonInviteTxn {
            key: TransactionKey {
                branch: branch.to_owned(),
                method: method.to_owned(),
                role: Role::Client,
            },
            state: TransactionState::Trying,
            reliable: false,
            request,
            attempt: 0,
        }
    }

    /// Handles a final response in `Trying` or `Proceeding`.
    fn enter_completed(&mut self, final_bytes: Vec<u8>, status: u16) -> (r: Vec<TransactionAction>)
        ensures
            final(self).model() == complete_step(old(self).model(), status, final_bytes@).0,
            actions_view(r@) == complete_step(old(self).model(), status, final_bytes@).1,
    {
        let ghost expected = complete_step(self.model(), status, final_bytes@);
        let mut actions = vec![
            TransactionAction::DeliverResponseToTu { status, bytes: final_bytes },
            TransactionAction::CancelTimer(TimerId::E),
            TransactionAction::CancelTimer(TimerId::F),
        ];
        if self.reliable {
            self.state = TransactionState::Terminated;
            actions.push(TransactionAction::Terminated);
        } else {
            self.state = TransactionState::Completed;
            actions.push(TransactionAction::ArmTimer { id: TimerId::K, after: T4 });
        }
        assert(actions_view(actions@) =~= expected.1);
        actions
    }
}

impl Transaction for ClientNonInviteTxn {
    closed spec fn model(&self) -> TxnView {
        TxnView {
            key: self.key@,
            state: self.state,
            reliable: self.reliable,
            buffer: Some(self.request@),
            ack: None,
            attempt: self.attempt,
        }
    }

    open spec fn after(&self, event: EventView) -> (TxnView, Seq<ActionView>) {
        client_non_invite_step(self.model(), event)
    }

    fn key(&self) -> &TransactionKey {
        &self.key
    }

    fn state(&self) -> TransactionState {
        self.state
    }

    fn set_reliable(&mut self, reliable: bool) {
        self.reliable = reliable;
    }

    fn on_event(&mut self, event: TransactionEvent) -> (r: Vec<TransactionAction>) {
        let ghost expected = client_non_invite_step(self.model(), event@);
        let mut out: Vec<TransactionAction> = Vec::new();
        match (self.state, event) {
            (TransactionState::Trying, TransactionEvent::StartClient) => {
                out.push(TransactionAction::SendToPeer(copy_bytes(&self.request)));
                if !self.reliable {
                    out.push(TransactionAction::ArmTimer { id: TimerId::E, after: T1 });
                }
                out.push(TransactionAction::ArmTimer { id: TimerId::F, after: TIMEOUT_64T1 });
            },
            (TransactionState::Trying, TransactionEvent::TimerFired(TimerId::E)) => {
                if !self.reliable {
                    self.attempt = self.attempt.saturating_add(1);
                    out.push(TransactionAction::SendToPeer(copy_bytes(&self.request)));
                    out.push(
                        TransactionAction::ArmTimer {
                            id: TimerId::E,
                            after: doubling_backoff(self.attempt, T2),
                        },
                    );
                }
            },
            (TransactionState::Trying, TransactionEvent::ResponseReceived { status, bytes }) => {
                if 100 <= status && status < 200 {
                    self.state = TransactionState::Proceeding;
                    out.push(TransactionAction::DeliverResponseToTu { status, bytes });
                    if !self.reliable {
                        out.push(TransactionAction::ArmTimer { id: TimerId::E, after: T2 });
                    }
                } else if 200 <= status && status < 700 {
                    return self.enter_completed(bytes, status);
                }
            },
            (TransactionState::Proceeding, TransactionEvent::ResponseReceived { status, bytes }) => {
                if 100 <= status && status < 200 {
                    out.push(TransactionAction::DeliverResponseToTu { status, bytes });
                } else if 200 <= status && status < 700 {
                    return self.enter_completed(bytes, status);
                }
            },
            (TransactionState::Proceeding, TransactionEvent::TimerFired(TimerId::E)) => {
                if !self.reliable {
                    out.push(TransactionAction::SendToPeer(copy_bytes(&self.request)));
                    out.push(TransactionAction::ArmTimer { id: TimerId::E, after: T2 });
                }
            },
            (
                TransactionState::Trying | TransactionState::Proceeding,
                TransactionEvent::TimerFired(TimerId::F),
            ) => {
                self.state = TransactionState::Terminated;
                out.push(TransactionAction::CancelTimer(TimerId::E));
                out.push(TransactionAction::Terminated);
            },
            (TransactionState::Completed, TransactionEvent::TimerFired(TimerId::K)) => {
                self.state = TransactionState::Terminated;
                out.push(TransactionAction::Terminated);
            },
            _ => {},
        }
        assert(actions_view(out@) =~= expected.1);
        assert(self.model() =~= expected.0);
        out
    }
}

} // verus!
