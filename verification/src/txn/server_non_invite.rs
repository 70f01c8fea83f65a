//! Server non-INVITE transaction (RFC 3261 section 17.2.2).
//!
//! ```text
//!      request received
//!             v
//!        +--------+  1xx  +------------+  200-699  +-----------+
//!        | Trying |------>| Proceeding |---------->| Completed |
//!        +--------+       +------------+           +-----------+
//!             |                                      ^     | timer J
//!             |               200-699                |     v
//!             +--------------------------------------+  Terminated
//! ```
//!
//! A repeated request is answered with the last response until timer J fires.
//! On a reliable transport the final response ends the transaction.

use vstd::prelude::*;

use super::server_invite::replay;
use super::timers::TIMEOUT_64T1;
use super::{
    absorbed, actions_view, is_final, is_provisional, ActionView, EventView, KeyView, Role,
    TimerId, Transaction, TransactionAction, TransactionEvent, TransactionKey, TransactionState,
    TxnView,
};
use crate::text::copy_bytes;

verus! {

/// A server non-INVITE transaction.
pub struct ServerNonInviteTxn {
    key: TransactionKey,
    state: TransactionState,
    reliable: bool,
    last_response: Option<Vec<u8>>,
}

/// A fresh server non-INVITE transaction.
pub open spec fn new_server_non_invite(branch: Seq<char>, method: Seq<char>) -> TxnView {
    TxnView {
        key: KeyView { branch, method, role: Role::Server },
        state: TransactionState::Trying,
        reliable: false,
        buffer: None,
        ack: None,
        attempt: 0,
    }
}

/// The server non-INVITE state machine.
pub open spec fn server_non_invite_step(t: TxnView, event: EventView) -> (
    TxnView,
    Seq<ActionView>,
) {
    match (t.state, event) {
        (
            TransactionState::Trying | TransactionState::Proceeding,
            EventView::SendResponseFromTu { status, bytes },
        ) => if is_provisional(status) {
            (
                TxnView { state: TransactionState::Proceeding, buffer: Some(bytes), ..t },
                seq![ActionView::SendToPeer(bytes)],
            )
        } else if is_final(status) {
            if t.reliable {
                (
                    TxnView { state: TransactionState::Terminated, buffer: Some(bytes), ..t },
                    seq![ActionView::SendToPeer(bytes), ActionView::Terminated],
                )
            } else {
                (
                    TxnView { state: TransactionState::Completed, buffer: Some(bytes), ..t },
                    seq![
                        ActionView::SendToPeer(bytes),
                        ActionView::ArmTimer { id: TimerId::J, after: TIMEOUT_64T1 },
                    ],
                )
            }
        } else {
            absorbed(t)
        },
        (
            TransactionState::Proceeding | TransactionState::Completed,
            EventView::RequestReceived { method, bytes },
        ) => replay(t),
        (TransactionState::Completed, EventView::TimerFired(TimerId::J)) => (
            TxnView { state: TransactionState::Terminated, ..t },
            seq![ActionView::Terminated],
        ),
        _ => absorbed(t),
    }
}

impl ServerNonInviteTxn {
    /// A transaction for a request of `method` that arrived on `branch`.
    pub fn new(branch: &str, method: &str) -> (r: Self)
        ensures
            r.model() == new_server_non_invite(branch@, method@),
    {
        ServerNonInviteTxn {
            key: TransactionKey {
                branch: branch.to_owned(),
                method: method.to_owned(),
                role: Role::Server,
            },
            state: TransactionState::Trying,
            reliable: false,
            last_response: None,
        }
    }
}

impl Transaction for ServerNonInviteTxn {
    closed spec fn model(&self) -> TxnView {
        TxnView {
            key: self.key@,
            state: self.state,
            reliable: self.reliable,
            buffer: match self.last_response {
                Some(b) => Some(b@),
                None => None,
            },
            ack: None,
            attempt: 0,
        }
    }

    open spec fn after(&self, event: EventView) -> (TxnView, Seq<ActionView>) {
        server_non_invite_step(self.model(), event)
    }

    fn key(&self) -> &TransactionKey {
        &self.key
    }

    fn state(&self) -> TransactionState {
        self.state
    }

    fn set_reliable(&mut self, reliable: bool) {
        self.reliable = reliable;
    }

    fn on_event(&mut self, event: TransactionEvent) -> (r: Vec<TransactionAction>) {
        let ghost expected = server_non_invite_step(self.model(), event@);
        let mut out: Vec<TransactionAction> = Vec::new();
        match (self.state, event) {
            (
                TransactionState::Trying | TransactionState::Proceeding,
                TransactionEvent::SendResponseFromTu { status, bytes },
            ) => {
                if 100 <= status && status < 200 {
                    self.state = TransactionState::Proceeding;
                    self.last_response = Some(copy_bytes(&bytes));
                    out.push(TransactionAction::SendToPeer(bytes));
                } else if 200 <= status && status < 700 {
                    self.last_response = Some(copy_bytes(&bytes));
                    out.push(TransactionAction::SendToPeer(bytes));
                    if self.reliable {
                        self.state = TransactionState::Terminated;
                        out.push(TransactionAction::Terminated);
                    } else {
                        self.state = TransactionState::Completed;
                        out.push(
                            TransactionAction::ArmTimer { id: TimerId::J, after: TIMEOUT_64T1 },
                        );
                    }
                }
            },
            (
                TransactionState::Proceeding | TransactionState::Completed,
                TransactionEvent::RequestReceived { .. },
            ) => {
                match &self.last_response {
                    Some(b) => {
                        out.push(TransactionAction::SendToPeer(copy_bytes(b)));
                    },
                    None => {},
                }
            },
            (TransactionState::Completed, TransactionEvent::TimerFired(TimerId::J)) => {
                self.state = TransactionState::Terminated;
                out.push(TransactionAction::Terminated);
            },
            _ => {},
        }
        assert(actions_view(out@) =~= expected.1);
        assert(self.model() =~= expected.0);
        out
    }
}

} // verus!
