//! Transaction layer (RFC 3261 section 17).
//!
//! Every transaction is a pure state machine: an event goes in, a list of
//! actions comes out. Nothing here performs I/O or sleeps; whoever owns the
//! socket and the clock feeds the events and carries the actions out.

pub mod ack;
pub mod acks;
pub mod client_invite;
pub mod client_non_invite;
pub mod conduct;
pub mod delivery;
pub mod dialog;
pub mod driver;
pub mod histories;
pub mod machine;
pub mod matching;
pub mod server_invite;
pub mod server_non_invite;
pub mod timers;

pub use ack::build_non_ok_ack;
pub use client_invite::ClientInviteTxn;
pub use client_non_invite::ClientNonInviteTxn;
pub use dialog::{DialogEvent, DialogFsm, DialogFsmState, DialogTransitionError};
pub use driver::{DriverCommand, TransactionDriver, TuEvent, ACK_2XX_WINDOW};
pub use matching::{cseq_method, parse_status, top_via_sent_by};
pub use machine::{Flavor, Machine};
pub use server_invite::ServerInviteTxn;
pub use server_non_invite::ServerNonInviteTxn;
pub use timers::{Millis, Timer, T1, T2, T4, TIMEOUT_64T1};

use vstd::prelude::*;

verus! {

/// Transaction state, shared by the four kinds of transaction. Each of them
/// uses a subset.
#[derive(Copy, Clone, Debug, PartialEq, Eq, Hash, Structural)]
#[non_exhaustive]
pub enum TransactionState {
    /// Initial state of a non-INVITE transaction.
    Trying,
    /// Initial state of a client INVITE transaction.
    Calling,
    /// A provisional response was seen or sent.
    Proceeding,
    /// A final response was seen or sent; it may still be repeated.
    Completed,
    /// INVITE server: the ACK for a non-2xx final arrived.
    Confirmed,
    /// Done; the entry may be released.
    Terminated,
}

/// Which side of the hop-to-hop exchange a transaction is.
#[derive(Copy, Clone, Debug, PartialEq, Eq, Hash, Structural)]
pub enum Role {
    /// Originator of the request.
    Client,
    /// Receiver of the request.
    Server,
}

/// Lookup key of a transaction.
#[derive(Clone, Debug, PartialEq, Eq, Hash)]
pub struct TransactionKey {
    /// `Via` branch parameter.
    pub branch: String,
    /// Method. A CANCEL has a key of its own, though it shares the branch of
    /// the INVITE it targets.
    pub method: String,
    /// Side of the exchange.
    pub role: Role,
}

/// Model of a [`TransactionKey`].
#[verifier::ext_equal]
pub struct KeyView {
    pub branch: Seq<char>,
    pub method: Seq<char>,
    pub role: Role,
}

impl View for TransactionKey {
    type V = KeyView;

    open spec fn view(&self) -> KeyView {
        KeyView { branch: self.branch@, method: self.method@, role: self.role }
    }
}

impl TransactionKey {
    /// A copy of the key.
    pub fn duplicate(&self) -> (r: TransactionKey)
        ensures
            r@ == self@,
    {
        TransactionKey {
            branch: self.branch.clone(),
            method: self.method.clone(),
            role: self.role,
        }
    }
}

/// Timer names of RFC 3261.
#[derive(Copy, Clone, Debug, PartialEq, Eq, Hash, Structural)]
#[non_exhaustive]
pub enum TimerId {
    /// INVITE client retransmit, doubling.
    A,
    /// INVITE client timeout, `64 * T1`.
    B,
    /// Proxy INVITE timeout; not used by a user agent.
    C,
    /// INVITE client wait for response retransmits.
    D,
    /// Non-INVITE client retransmit, doubling up to `T2`.
    E,
    /// Non-INVITE client timeout, `64 * T1`.
    F,
    /// INVITE server final-response retransmit.
    G,
    /// INVITE server wait for the ACK, `64 * T1`.
    H,
    /// INVITE server wait for ACK retransmits, `T4`.
    I,
    /// Non-INVITE server wait for request retransmits, `64 * T1`.
    J,
    /// Non-INVITE client wait for response retransmits, `T4`.
    K,
}

/// Something the outside world tells a transaction.
#[derive(Clone, Debug)]
#[non_exhaustive]
pub enum TransactionEvent {
    /// Start a client transaction by sending its request.
    StartClient,
    /// A response arrived.
    ResponseReceived {
        /// Status code.
        status: u16,
        /// Raw response.
        bytes: Vec<u8>,
    },
    /// A request arrived (server transactions).
    RequestReceived {
        /// Method of the request.
        method: String,
        /// Raw request.
        bytes: Vec<u8>,
    },
    /// The transaction user hands over a response to send.
    SendResponseFromTu {
        /// Status code.
        status: u16,
        /// Complete response.
        bytes: Vec<u8>,
    },
    /// A timer that was armed has fired.
    TimerFired(TimerId),
}

/// Something a transaction asks to be done.
#[derive(Clone, Debug)]
#[non_exhaustive]
pub enum TransactionAction {
    /// Write these bytes to the peer.
    SendToPeer(Vec<u8>),
    /// Hand a response to the transaction user.
    DeliverResponseToTu {
        /// Status code.
        status: u16,
        /// Raw response.
        bytes: Vec<u8>,
    },
    /// Start a timer, replacing one of the same name.
    ArmTimer {
        /// Which timer.
        id: TimerId,
        /// When it fires.
        after: Millis,
    },
    /// Stop a timer. Does nothing when it is not armed.
    CancelTimer(TimerId),
    /// The transaction is over; release it.
    Terminated,
}

/// Model of a [`TransactionEvent`].
#[verifier::ext_equal]
pub enum EventView {
    StartClient,
    ResponseReceived { status: u16, bytes: Seq<u8> },
    RequestReceived { method: Seq<char>, bytes: Seq<u8> },
    SendResponseFromTu { status: u16, bytes: Seq<u8> },
    TimerFired(TimerId),
}

/// Model of a [`TransactionAction`].
#[verifier::ext_equal]
pub enum ActionView {
    SendToPeer(Seq<u8>),
    DeliverResponseToTu { status: u16, bytes: Seq<u8> },
    ArmTimer { id: TimerId, after: Millis },
    CancelTimer(TimerId),
    Terminated,
}

impl View for TransactionEvent {
    type V = EventView;

    open spec fn view(&self) -> EventView {
        match *self {
            TransactionEvent::StartClient => EventView::StartClient,
            TransactionEvent::ResponseReceived { status, bytes } => EventView::ResponseReceived {
                status,
                bytes: bytes@,
            },
            TransactionEvent::RequestReceived { method, bytes } => EventView::RequestReceived {
                method: method@,
                bytes: bytes@,
            },
            TransactionEvent::SendResponseFromTu { status, bytes } => EventView::SendResponseFromTu {
                status,
                bytes: bytes@,
            },
            TransactionEvent::TimerFired(id) => EventView::TimerFired(id),
        }
    }
}

impl View for TransactionAction {
    type V = ActionView;

    open spec fn view(&self) -> ActionView {
        match *self {
            TransactionAction::SendToPeer(bytes) => ActionView::SendToPeer(bytes@),
            TransactionAction::DeliverResponseToTu {
                status,
                bytes,
            } => ActionView::DeliverResponseToTu { status, bytes: bytes@ },
            TransactionAction::ArmTimer { id, after } => ActionView::ArmTimer { id, after },
            TransactionAction::CancelTimer(id) => ActionView::CancelTimer(id),
            TransactionAction::Terminated => ActionView::Terminated,
        }
    }
}

/// The models of a list of actions.
pub open spec fn actions_view(v: Seq<TransactionAction>) -> Seq<ActionView> {
    Seq::new(v.len(), |i: int| v[i]@)
}

/// A 1xx status.
pub open spec fn is_provisional(status: u16) -> bool {
    100 <= status < 200
}

/// A 2xx status.
pub open spec fn is_success(status: u16) -> bool {
    200 <= status < 300
}

/// A status from 300 to 699.
pub open spec fn is_rejection(status: u16) -> bool {
    300 <= status < 700
}

/// A status from 200 to 699.
pub open spec fn is_final(status: u16) -> bool {
    200 <= status < 700
}

/// What every transaction state machine offers.
pub trait Transaction {
    /// What the machine does with an event: its next state and its actions.
    spec fn after(&self, event: EventView) -> (TxnView, Seq<ActionView>);

    /// The machine's state.
    spec fn model(&self) -> TxnView;

    /// The key that identifies the transaction.
    fn key(&self) -> (r: &TransactionKey)
        ensures
            r@ == self.model().key,
    ;

    /// Current state.
    fn state(&self) -> (r: TransactionState)
        ensures
            r == self.model().state,
    ;

    /// Selects the timer profile. A reliable transport needs no
    /// retransmissions and no wait for duplicates.
    fn set_reliable(&mut self, reliable: bool)
        ensures
            final(self).model() == (TxnView { reliable, ..old(self).model() }),
    ;

    /// Takes one event and returns the actions it calls for, in order. An
    /// event that does not apply in the current state is absorbed: no action,
    /// no change.
    fn on_event(&mut self, event: TransactionEvent) -> (r: Vec<TransactionAction>)
        ensures
            final(self).model() == old(self).after(event@).0,
            actions_view(r@) == old(self).after(event@).1,
    ;
}

/// Model of a transaction state machine.
#[verifier::ext_equal]
pub struct TxnView {
    /// Identifying key.
    pub key: KeyView,
    /// Current state.
    pub state: TransactionState,
    /// `true` on a transport that delivers every message.
    pub reliable: bool,
    /// What may have to be sent again: the request of a client transaction,
    /// the last response of a server transaction.
    pub buffer: Option<Seq<u8>>,
    /// The ACK of a client INVITE transaction that failed.
    pub ack: Option<Seq<u8>>,
    /// Retransmissions so far.
    pub attempt: u32,
}

/// An absorbed event.
pub open spec fn absorbed(t: TxnView) -> (TxnView, Seq<ActionView>) {
    (t, seq![])
}

/// `attempt` plus one, saturating.
pub open spec fn bumped(attempt: u32) -> u32 {
    if attempt < u32::MAX {
        (attempt + 1) as u32
    } else {
        u32::MAX
    }
}

} // verus!
