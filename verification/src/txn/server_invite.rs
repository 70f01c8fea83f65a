//! Server INVITE transaction (RFC 3261 section 17.2.1).
//!
//! ```text
//!          INVITE received
//!                v
//!         +------------+  300-699  +-----------+  ACK  +-----------+
//!         | Proceeding |---------->| Completed |------>| Confirmed |
//!         +------------+           +-----------+       +-----------+
//!                |                       | timer H           | timer I
//!            2xx |                       v                   v
//!                |                 +-----------------------------+
//!                +---------------->|         Terminated          |
//!                                  +-----------------------------+
//! ```
//!
//! Timer G repeats a non-2xx final until the ACK arrives, timer H bounds the
//! wait for it, timer I absorbs its repetitions. A 2xx ends the transaction at
//! once: the dialog repeats it until it is acknowledged. On a reliable
//! transport there is no timer G, and the ACK ends the transaction.

use vstd::prelude::*;

use super::timers::{backoff, doubling_backoff, T1, T2, T4, TIMEOUT_64T1};
use super::{
    absorbed, actions_view, bumped, is_provisional, is_rejection, is_success, ActionView,
    EventView, KeyView, Role, TimerId, Transaction, TransactionAction, TransactionEvent,
    TransactionKey, TransactionState, TxnView,
};
use crate::text::copy_bytes;

verus! {

/// A server INVITE transaction.
pub struct ServerInviteTxn {
    key: TransactionKey,
    state: TransactionState,
    reliable: bool,
    last_response: Option<Vec<u8>>,
    g_attempt: u32,
}

/// A fresh server INVITE transaction.
pub open spec fn new_server_invite(branch: Seq<char>) -> TxnView {
    TxnView {
        key: KeyView { branch, method: "INVITE"@, role: Role::Server },
        state: TransactionState::Proceeding,
        reliable: false,
        buffer: None,
        ack: None,
        attempt: 0,
    }
}

/// The last response again, if there is one.
pub open spec fn replay(t: TxnView) -> (TxnView, Seq<ActionView>) {
    match t.buffer {
        Some(b) => (t, seq![ActionView::SendToPeer(b)]),
        None => absorbed(t),
    }
}

/// A response from the transaction user in `Proceeding`.
pub open spec fn respond_step(t: TxnView, status: u16, bytes: Seq<u8>) -> (
    TxnView,
    Seq<ActionView>,
) {
    if is_provisional(status) {
        (TxnView { buffer: Some(bytes), ..t }, seq![ActionView::SendToPeer(bytes)])
    } else if is_success(status) {
        (
            TxnView { state: TransactionState::Terminated, ..t },
            seq![ActionView::SendToPeer(bytes), ActionView::Terminated],
        )
    } else if is_rejection(status) {
        let timer_h = ActionView::ArmTimer { id: TimerId::H, after: TIMEOUT_64T1 };
        (
            TxnView { state: TransactionState::Completed, buffer: Some(bytes), ..t },
            if t.reliable {
                seq![ActionView::SendToPeer(bytes), timer_h]
            } else {
                seq![
                    ActionView::SendToPeer(bytes),
                    ActionView::ArmTimer { id: TimerId::G, after: T1 },
                    timer_h,
                ]
            },
        )
    } else {
        absorbed(t)
    }
}

/// The server INVITE state machine.
pub open spec fn server_invite_step(t: TxnView, event: EventView) -> (TxnView, Seq<ActionView>) {
    match (t.state, event) {
        (
            TransactionState::Proceeding,
            EventView::SendResponseFromTu { status, bytes },
        ) => respond_step(t, status, bytes),
        (TransactionState::Proceeding, EventView::RequestReceived { method, bytes }) => if method
            == "INVITE"@ {
            replay(t)
        } else {
            absorbed(t)
        },
        (TransactionState::Completed, EventView::TimerFired(TimerId::G)) => if t.reliable {
            absorbed(t)
        } else {
            let next = bumped(t.attempt);
            let bumped_txn = TxnView { attempt: next, ..t };
            match t.buffer {
                Some(b) => (
                    bumped_txn,
                    seq![
                        ActionView::SendToPeer(b),
                        ActionView::ArmTimer {
                            id: TimerId::G,
                            after: backoff(next as nat, T2 as nat) as u64,
                        },
                    ],
                ),
                None => (bumped_txn, seq![]),
            }
        },
        (TransactionState::Completed, EventView::RequestReceived { method, bytes }) => if method
            == "INVITE"@ {
            replay(t)
        } else if method == "ACK"@ {
            let stopped = seq![
                ActionView::CancelTimer(TimerId::G),
                ActionView::CancelTimer(TimerId::H),
            ];
            if t.reliable {
                (
                    TxnView { state: TransactionState::Terminated, ..t },
                    stopped.push(ActionView::Terminated),
                )
            } else {
                (
                    TxnView { state: TransactionState::Confirmed, ..t },
                    stopped.push(ActionView::ArmTimer { id: TimerId::I, after: T4 }),
                )
            }
        } else {
            absorbed(t)
        },
        (TransactionState::Completed, EventView::TimerFired(TimerId::H)) => (
            TxnView { state: TransactionState::Terminated, ..t },
            seq![ActionView::CancelTimer(TimerId::G), ActionView::Terminated],
        ),
        (TransactionState::Confirmed, EventView::TimerFired(TimerId::I)) => (
            TxnView { state: TransactionState::Terminated, ..t },
            seq![ActionView::Terminated],
        ),
        _ => absorbed(t),
    }
}

impl ServerInviteTxn {
    /// A transaction for an INVITE that arrived on `branch`.
    pub fn new(branch: &str) -> (r: Self)
        ensures
            r.model() == new_server_invite(branch@),
    {
        ServerInviteTxn {
            key: TransactionKey {
                branch: branch.to_owned(),
                method: "INVITE".to_owned(),
                role: Role::Server,
            },
            state: TransactionState::Proceeding,
            reliable: false,
            last_response: None,
            g_attempt: 0,
        }
    }

    fn push_replay(&self, out: &mut Vec<TransactionAction>)
        requires
            old(out)@.len() == 0,
        ensures
            actions_view(final(out)@) == replay(self.model()).1,
    {
        match &self.last_response {
            Some(b) => {
                out.push(TransactionAction::SendToPeer(copy_bytes(b)));
            },
            None => {},
        }
        assert(actions_view(out@) =~= replay(self.model()).1);
    }
}

impl Transaction for ServerInviteTxn {
    closed spec fn model(&self) -> TxnView {
        TxnView {
            key: self.key@,
            state: self.state,
            reliable: self.reliable,
            buffer: match self.last_response {
                Some(b) => Some(b@),
                None => None,
            },
            ack: None,
            attempt: self.g_attempt,
        }
    }

    open spec fn after(&self, event: EventView) -> (TxnView, Seq<ActionView>) {
        server_invite_step(self.model(), event)
    }

    fn key(&self) -> &TransactionKey {
        &self.key
    }

    fn state(&self) -> TransactionState {
        self.state
    }

    fn set_reliable(&mut self, reliable: bool) {
        self.reliable = reliable;
    }

    fn on_event(&mut self, event: TransactionEvent) -> (r: Vec<TransactionAction>) {
        let ghost expected = server_invite_step(self.model(), event@);
        let mut out: Vec<TransactionAction> = Vec::new();
        match (self.state, event) {
            (TransactionState::Proceeding, TransactionEvent::SendResponseFromTu { status, bytes }) => {
                if 100 <= status && status < 200 {
                    self.last_response = Some(copy_bytes(&bytes));
                    out.push(TransactionAction::SendToPeer(bytes));
                } else if 200 <= status && status < 300 {
                    self.state = TransactionState::Terminated;
                    out.push(TransactionAction::SendToPeer(bytes));
                    out.push(TransactionAction::Terminated);
                } else if 300 <= status && status < 700 {
                    self.state = TransactionState::Completed;
                    self.last_response = Some(copy_bytes(&bytes));
                    out.push(TransactionAction::SendToPeer(bytes));
                    if !self.reliable {
                        out.push(TransactionAction::ArmTimer { id: TimerId::G, after: T1 });
                    }
                    out.push(TransactionAction::ArmTimer { id: TimerId::H, after: TIMEOUT_64T1 });
                }
            },
            (TransactionState::Proceeding, TransactionEvent::RequestReceived { method, .. }) => {
                if method == "INVITE".to_owned() {
                    self.push_replay(&mut out);
                }
            },
            (TransactionState::Completed, TransactionEvent::TimerFired(TimerId::G)) => {
                if !self.reliable {
                    self.g_attempt = self.g_attempt.saturating_add(1);
                    match &self.last_response {
                        Some(b) => {
                            out.push(TransactionAction::SendToPeer(copy_bytes(b)));
                            out.push(
                                TransactionAction::ArmTimer {
                                    id: TimerId::G,
                                    after: doubling_backoff(self.g_attempt, T2),
                                },
                            );
                        },
                        None => {},
                    }
                }
            },
            (TransactionState::Completed, TransactionEvent::RequestReceived { method, .. }) => {
                if method == "INVITE".to_owned() {
                    self.push_replay(&mut out);
                } else if method == "ACK".to_owned() {
                    out.push(TransactionAction::CancelTimer(TimerId::G));
                    out.push(TransactionAction::CancelTimer(TimerId::H));
                    if self.reliable {
                        self.state = TransactionState::Terminated;
                        out.push(TransactionAction::Terminated);
                    } else {
                        self.state = TransactionState::Confirmed;
                        out.push(TransactionAction::ArmTimer { id: TimerId::I, after: T4 });
                    }
                }
            },
            (TransactionState::Completed, TransactionEvent::TimerFired(TimerId::H)) => {
                self.state = TransactionState::Terminated;
                out.push(TransactionAction::CancelTimer(TimerId::G));
                out.push(TransactionAction::Terminated);
            },
            (TransactionState::Confirmed, TransactionEvent::TimerFired(TimerId::I)) => {
                self.state = TransactionState::Terminated;
                out.push(TransactionAction::Terminated);
            },
            _ => {},
        }
        assert(actions_view(out@) =~= expected.1);
        assert(self.model() =~= expected.0);
        out
    }
}

} // verus!
