//! The dialog machine.

use smiths_sip::record::DialogState;
use smiths_sip::txn::{DialogEvent, DialogFsm, DialogFsmState, DialogTransitionError};

#[test]
fn default_starts_in_early() {
    let fsm = DialogFsm::new();
    assert_eq!(fsm.state(), DialogFsmState::Early);
    assert!(!fsm.is_terminated());
}

#[test]
fn ack_moves_early_to_confirmed() {
    let mut fsm = DialogFsm::new();
    let next = fsm.on_event(DialogEvent::AckReceived).unwrap();
    assert_eq!(next, DialogFsmState::Confirmed);
}

#[test]
fn bye_from_early_terminates() {
    let mut fsm = DialogFsm::new();
    fsm.on_event(DialogEvent::ByeCompleted).unwrap();
    assert!(fsm.is_terminated());
}

#[test]
fn bye_from_confirmed_terminates() {
    let mut fsm = DialogFsm::new();
    fsm.on_event(DialogEvent::AckReceived).unwrap();
    fsm.on_event(DialogEvent::ByeCompleted).unwrap();
    assert!(fsm.is_terminated());
}

#[test]
fn cancel_from_early_terminates() {
    let mut fsm = DialogFsm::new();
    fsm.on_event(DialogEvent::Cancelled).unwrap();
    assert!(fsm.is_terminated());
}

#[test]
fn error_from_any_non_terminal_terminates() {
    let mut fsm = DialogFsm::new();
    fsm.on_event(DialogEvent::Error).unwrap();
    assert!(fsm.is_terminated());

    let mut fsm = DialogFsm::new();
    fsm.on_event(DialogEvent::AckReceived).unwrap();
    fsm.on_event(DialogEvent::Error).unwrap();
    assert!(fsm.is_terminated());
}

#[test]
fn cancel_in_confirmed_is_illegal() {
    let mut fsm = DialogFsm::new();
    fsm.on_event(DialogEvent::AckReceived).unwrap();
    let err = fsm.on_event(DialogEvent::Cancelled).unwrap_err();
    assert!(matches!(
        err,
        DialogTransitionError::IllegalTransition {
            state: DialogFsmState::Confirmed,
            event: DialogEvent::Cancelled,
        }
    ));
}

#[test]
fn ack_twice_is_illegal() {
    // Real UAs occasionally retransmit ACK. Our transaction
    // FSM absorbs ACK retransmits; by the time an event reaches
    // the dialog FSM it should be the first ACK. A second call
    // here is an application bug.
    let mut fsm = DialogFsm::new();
    fsm.on_event(DialogEvent::AckReceived).unwrap();
    let err = fsm.on_event(DialogEvent::AckReceived).unwrap_err();
    assert!(matches!(
        err,
        DialogTransitionError::IllegalTransition { .. }
    ));
}

#[test]
fn events_in_terminated_are_illegal() {
    let mut fsm = DialogFsm::new();
    fsm.on_event(DialogEvent::ByeCompleted).unwrap();
    for ev in [
        DialogEvent::AckReceived,
        DialogEvent::ByeCompleted,
        DialogEvent::Cancelled,
        DialogEvent::Error,
    ] {
        assert!(
            fsm.on_event(ev).is_err(),
            "{ev:?} must be refused in Terminated"
        );
    }
}

#[test]
fn core_state_projection() {
    let mut fsm = DialogFsm::new();
    assert_eq!(fsm.to_core_state(), Some(DialogState::Early));
    fsm.on_event(DialogEvent::AckReceived).unwrap();
    assert_eq!(fsm.to_core_state(), Some(DialogState::Confirmed));
    fsm.on_event(DialogEvent::ByeCompleted).unwrap();
    assert_eq!(fsm.to_core_state(), None);
}

#[test]
fn refusals_name_the_event_and_the_state() {
    let mut fsm = DialogFsm::new();
    fsm.on_event(DialogEvent::AckReceived).unwrap();
    assert_eq!(
        fsm.on_event(DialogEvent::Cancelled).unwrap_err().message(),
        "dialog event Cancelled not legal in state Confirmed"
    );
}
