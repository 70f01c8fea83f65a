//! Dialog state machine (RFC 3261 section 12).
//!
//! ```text
//!      2xx sent or received
//!               v
//!           +-------+   ACK   +-----------+
//!           | Early |-------->| Confirmed |
//!           +-------+         +-----------+
//!               | BYE,              | BYE,
//!               | CANCEL, error     | error
//!               v                   v
//!           +-----------------------------+
//!           |          Terminated         |
//!           +-----------------------------+
//! ```
//!
//! Unlike the transaction machines, which absorb what they do not expect, this
//! one refuses it: an event that is not legal in the current state is an error,
//! and the state stays as it was.

use vstd::prelude::*;

use crate::record::DialogState;

verus! {

/// Dialog state.
#[derive(Copy, Clone, Debug, PartialEq, Eq, Structural)]
pub enum DialogFsmState {
    /// The ACK was not seen yet.
    Early,
    /// The ACK was seen: the call is up.
    Confirmed,
    /// The dialog is over.
    Terminated,
}

/// What happens to a dialog.
#[derive(Copy, Clone, Debug, PartialEq, Eq, Structural)]
pub enum DialogEvent {
    /// The ACK for the dialog's 2xx arrived.
    AckReceived,
    /// A BYE was exchanged.
    ByeCompleted,
    /// The INVITE was cancelled, or failed, before it was acknowledged.
    Cancelled,
    /// The dialog broke.
    Error,
}

/// Why an event was refused.
#[derive(Copy, Clone, Debug, PartialEq, Eq, Structural)]
pub enum DialogTransitionError {
    /// The event is not legal in the state.
    IllegalTransition {
        /// State when the event came.
        state: DialogFsmState,
        /// The refused event.
        event: DialogEvent,
    },
}

/// The name of a state.
pub open spec fn state_name(state: DialogFsmState) -> Seq<char> {
    match state {
        DialogFsmState::Early => "Early"@,
        DialogFsmState::Confirmed => "Confirmed"@,
        DialogFsmState::Terminated => "Terminated"@,
    }
}

/// The name of an event.
pub open spec fn event_name(event: DialogEvent) -> Seq<char> {
    match event {
        DialogEvent::AckReceived => "AckReceived"@,
        DialogEvent::ByeCompleted => "ByeCompleted"@,
        DialogEvent::Cancelled => "Cancelled"@,
        DialogEvent::Error => "Error"@,
    }
}

impl DialogTransitionError {
    /// The message of the error.
    pub fn message(&self) -> (r: String)
        ensures
            r@ == match *self {
                DialogTransitionError::IllegalTransition { state, event } => "dialog event "@
                    + event_name(event) + " not legal in state "@ + state_name(state),
            },
    {
        match self {
            DialogTransitionError::IllegalTransition { state, event } => {
                let mut s: String = "dialog event ".to_owned();
                s.append(
                    match event {
                        DialogEvent::AckReceived => "AckReceived",
                        DialogEvent::ByeCompleted => "ByeCompleted",
                        DialogEvent::Cancelled => "Cancelled",
                        DialogEvent::Error => "Error",
                    },
                );
                s.append(" not legal in state ");
                s.append(
                    match state {
                        DialogFsmState::Early => "Early",
                        DialogFsmState::Confirmed => "Confirmed",
                        DialogFsmState::Terminated => "Terminated",
                    },
                );
                s
            },
        }
    }
}

/// The dialog state machine.
#[derive(Copy, Clone, Debug, PartialEq, Eq, Structural)]
pub struct DialogFsm {
    state: DialogFsmState,
}

/// The state after `event`, `None` when it is not legal.
pub open spec fn dialog_next(state: DialogFsmState, event: DialogEvent) -> Option<DialogFsmState> {
    match (state, event) {
        (DialogFsmState::Early, DialogEvent::AckReceived) => Some(DialogFsmState::Confirmed),
        (DialogFsmState::Early, _) => Some(DialogFsmState::Terminated),
        (DialogFsmState::Confirmed, DialogEvent::ByeCompleted | DialogEvent::Error) => Some(
            DialogFsmState::Terminated,
        ),
        _ => None,
    }
}

/// The stored form of a live state.
pub open spec fn stored_state(state: DialogFsmState) -> Option<DialogState> {
    match state {
        DialogFsmState::Early => Some(DialogState::Early),
        DialogFsmState::Confirmed => Some(DialogState::Confirmed),
        DialogFsmState::Terminated => None,
    }
}

/// The state that a stored form stands for.
pub open spec fn live_state(state: DialogState) -> DialogFsmState {
    match state {
        DialogState::Early => DialogFsmState::Early,
        DialogState::Confirmed => DialogFsmState::Confirmed,
    }
}

impl View for DialogFsm {
    type V = DialogFsmState;

    closed spec fn view(&self) -> DialogFsmState {
        self.state
    }
}

impl DialogFsm {
    /// A dialog whose 2xx just went out or came in.
    #[must_use]
    pub fn new() -> (r: Self)
        ensures
            r@ == DialogFsmState::Early,
    {
        DialogFsm { state: DialogFsmState::Early }
    }

    /// The machine for a stored dialog.
    #[must_use]
    pub fn from_core_state(state: DialogState) -> (r: Self)
        ensures
            r@ == live_state(state),
    {
        match state {
            DialogState::Early => DialogFsm { state: DialogFsmState::Early },
            DialogState::Confirmed => DialogFsm { state: DialogFsmState::Confirmed },
        }
    }

    /// Current state.
    #[must_use]
    pub fn state(&self) -> (r: DialogFsmState)
        ensures
            r == self@,
    {
        self.state
    }

    /// `true` when the dialog is over.
    #[must_use]
    pub fn is_terminated(&self) -> (r: bool)
        ensures
            r == (self@ == DialogFsmState::Terminated),
    {
        matches!(self.state, DialogFsmState::Terminated)
    }

    /// The stored form of the state, `None` once the dialog is over.
    #[must_use]
    pub fn to_core_state(&self) -> (r: Option<DialogState>)
        ensures
            r == stored_state(self@),
    {
        match self.state {
            DialogFsmState::Early => Some(DialogState::Early),
            DialogFsmState::Confirmed => Some(DialogState::Confirmed),
            DialogFsmState::Terminated => None,
        }
    }

    /// Takes one event: returns the new state, or refuses the event and stays.
    pub fn on_event(&mut self, event: DialogEvent) -> (r: Result<
        DialogFsmState,
        DialogTransitionError,
    >)
        ensures
            match dialog_next(old(self)@, event) {
                Some(next) => r == Ok::<DialogFsmState, DialogTransitionError>(next)
                    && final(self)@ == next,
                None => r == Err::<DialogFsmState, DialogTransitionError>(
                    DialogTransitionError::IllegalTransition { state: old(self)@, event },
                ) && final(self)@ == old(self)@,
            },
    {
        let next = match (self.state, event) {
            (DialogFsmState::Early, DialogEvent::AckReceived) => DialogFsmState::Confirmed,
            (
                DialogFsmState::Early,
                DialogEvent::ByeCompleted | DialogEvent::Error | DialogEvent::Cancelled,
            ) => DialogFsmState::Terminated,
            (DialogFsmState::Confirmed, DialogEvent::ByeCompleted | DialogEvent::Error) => {
                DialogFsmState::Terminated
            },
            _ => {
                return Err(
                    DialogTransitionError::IllegalTransition { state: self.state, event },
                );
            },
        };
        self.state = next;
        Ok(next)
    }
}

impl Default for DialogFsm {
    fn default() -> (r: Self)
        ensures
            r@ == DialogFsmState::Early,
    {
        DialogFsm::new()
    }
}

/// The states that `events` lead to, illegal events being refused.
pub open spec fn dialog_run(state: DialogFsmState, events: Seq<DialogEvent>) -> DialogFsmState
    decreases events.len(),
{
    if events.len() == 0 {
        state
    } else {
        match dialog_next(state, events[0]) {
            Some(next) => dialog_run(next, events.drop_first()),
            None => dialog_run(state, events.drop_first()),
        }
    }
}

/// A dialog that is over stays over, and a confirmed one never becomes early
/// again.
pub proof fn dialog_never_goes_back(state: DialogFsmState, events: Seq<DialogEvent>)
    ensures
        state == DialogFsmState::Terminated ==> dialog_run(state, events)
            == DialogFsmState::Terminated,
        state == DialogFsmState::Confirmed ==> dialog_run(state, events) != DialogFsmState::Early,
    decreases events.len(),
{
    if events.len() > 0 {
        let next = match dialog_next(state, events[0]) {
            Some(n) => n,
            None => state,
        };
        dialog_never_goes_back(next, events.drop_first());
    }
}

/// A BYE or an error ends every dialog that is not over yet.
pub proof fn bye_and_error_always_end(state: DialogFsmState)
    requires
        state != DialogFsmState::Terminated,
    ensures
        dialog_next(state, DialogEvent::ByeCompleted) == Some(DialogFsmState::Terminated),
        dialog_next(state, DialogEvent::Error) == Some(DialogFsmState::Terminated),
{
}

/// Storing a live state and reading it back gives the same state.
pub proof fn stored_state_round_trips(state: DialogFsmState, stored: DialogState)
    ensures
        stored_state(live_state(stored)) == Some(stored),
        state != DialogFsmState::Terminated ==> stored_state(state) is Some && live_state(
            stored_state(state)->0,
        ) == state,
{
}

} // verus!
