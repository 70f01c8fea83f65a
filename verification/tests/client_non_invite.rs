//! The client non-INVITE machine.

use smiths_sip::txn::{
    ClientNonInviteTxn, Role, TimerId, Transaction, TransactionAction, TransactionEvent,
    TransactionState, T1, T2,
};

fn req_bytes() -> Vec<u8> {
    b"BYE sip:alice@a.invalid SIP/2.0\r\n\r\n".to_vec()
}

fn new_txn() -> ClientNonInviteTxn {
    ClientNonInviteTxn::new("z9hG4bK-test", "BYE", req_bytes())
}

/// Strip out just the action variants we care about for assertions
/// without building a whole-vec `matches!` tree.
fn has_send(actions: &[TransactionAction]) -> bool {
    actions
        .iter()
        .any(|a| matches!(a, TransactionAction::SendToPeer(_)))
}
fn has_timer(actions: &[TransactionAction], id: TimerId) -> bool {
    actions
        .iter()
        .any(|a| matches!(a, TransactionAction::ArmTimer { id: i, .. } if *i == id))
}
fn has_cancel(actions: &[TransactionAction], id: TimerId) -> bool {
    actions
        .iter()
        .any(|a| matches!(a, TransactionAction::CancelTimer(i) if *i == id))
}
fn has_terminated(actions: &[TransactionAction]) -> bool {
    actions
        .iter()
        .any(|a| matches!(a, TransactionAction::Terminated))
}
fn delivered_status(actions: &[TransactionAction]) -> Option<u16> {
    actions.iter().find_map(|a| {
        if let TransactionAction::DeliverResponseToTu { status, .. } = a {
            Some(*status)
        } else {
            None
        }
    })
}

#[test]
fn start_client_sends_request_and_arms_e_and_f() {
    let mut t = new_txn();
    assert_eq!(t.state(), TransactionState::Trying);
    let actions = t.on_event(TransactionEvent::StartClient);
    assert!(has_send(&actions));
    assert!(has_timer(&actions, TimerId::E));
    assert!(has_timer(&actions, TimerId::F));
    // Assert the E interval is T1 on the first arm.
    let e_after = actions.iter().find_map(|a| {
        if let TransactionAction::ArmTimer {
            id: TimerId::E,
            after,
        } = a
        {
            Some(*after)
        } else {
            None
        }
    });
    assert_eq!(e_after, Some(T1));
}

#[test]
fn timer_e_in_trying_retransmits_and_doubles() {
    let mut t = new_txn();
    t.on_event(TransactionEvent::StartClient);
    let a1 = t.on_event(TransactionEvent::TimerFired(TimerId::E));
    assert!(has_send(&a1));
    let first_retry = a1
        .iter()
        .find_map(|a| {
            if let TransactionAction::ArmTimer {
                id: TimerId::E,
                after,
            } = a
            {
                Some(*after)
            } else {
                None
            }
        })
        .unwrap();
    assert_eq!(
        first_retry,
        1_000,
        "attempt 1 = 2*T1 = 1 s"
    );

    // Second retry doubles again to 2 s.
    let a2 = t.on_event(TransactionEvent::TimerFired(TimerId::E));
    let second_retry = a2
        .iter()
        .find_map(|a| {
            if let TransactionAction::ArmTimer {
                id: TimerId::E,
                after,
            } = a
            {
                Some(*after)
            } else {
                None
            }
        })
        .unwrap();
    assert_eq!(second_retry, 2_000);
}

#[test]
fn provisional_in_trying_transitions_to_proceeding() {
    let mut t = new_txn();
    t.on_event(TransactionEvent::StartClient);
    let actions = t.on_event(TransactionEvent::ResponseReceived {
        status: 100,
        bytes: b"SIP/2.0 100 Trying\r\n\r\n".to_vec(),
    });
    assert_eq!(t.state(), TransactionState::Proceeding);
    assert_eq!(delivered_status(&actions), Some(100));
    // Re-arm E at T2 per section 17.1.2.2.
    let after = actions.iter().find_map(|a| {
        if let TransactionAction::ArmTimer {
            id: TimerId::E,
            after,
        } = a
        {
            Some(*after)
        } else {
            None
        }
    });
    assert_eq!(after, Some(T2));
}

#[test]
fn provisional_in_proceeding_delivers_only() {
    let mut t = new_txn();
    t.on_event(TransactionEvent::StartClient);
    // Move to Proceeding.
    t.on_event(TransactionEvent::ResponseReceived {
        status: 100,
        bytes: Vec::new(),
    });
    let actions = t.on_event(TransactionEvent::ResponseReceived {
        status: 183,
        bytes: Vec::new(),
    });
    assert_eq!(delivered_status(&actions), Some(183));
    // No timer re-arm on repeat 1xx.
    assert!(!has_timer(&actions, TimerId::E));
}

#[test]
fn final_response_from_trying_enters_completed() {
    let mut t = new_txn();
    t.on_event(TransactionEvent::StartClient);
    let actions = t.on_event(TransactionEvent::ResponseReceived {
        status: 200,
        bytes: b"SIP/2.0 200 OK\r\n\r\n".to_vec(),
    });
    assert_eq!(t.state(), TransactionState::Completed);
    assert_eq!(delivered_status(&actions), Some(200));
    assert!(has_cancel(&actions, TimerId::E));
    assert!(has_cancel(&actions, TimerId::F));
    assert!(has_timer(&actions, TimerId::K));
}

#[test]
fn final_response_from_proceeding_enters_completed() {
    let mut t = new_txn();
    t.on_event(TransactionEvent::StartClient);
    t.on_event(TransactionEvent::ResponseReceived {
        status: 100,
        bytes: Vec::new(),
    });
    let actions = t.on_event(TransactionEvent::ResponseReceived {
        status: 404,
        bytes: Vec::new(),
    });
    assert_eq!(t.state(), TransactionState::Completed);
    assert_eq!(delivered_status(&actions), Some(404));
    assert!(has_timer(&actions, TimerId::K));
}

#[test]
fn duplicate_final_in_completed_is_silently_dropped() {
    let mut t = new_txn();
    t.on_event(TransactionEvent::StartClient);
    t.on_event(TransactionEvent::ResponseReceived {
        status: 200,
        bytes: Vec::new(),
    });
    assert_eq!(t.state(), TransactionState::Completed);
    let dup = t.on_event(TransactionEvent::ResponseReceived {
        status: 200,
        bytes: Vec::new(),
    });
    assert!(
        dup.is_empty(),
        "duplicate final must not re-deliver or re-arm"
    );
}

#[test]
fn timer_k_terminates_after_completed() {
    let mut t = new_txn();
    t.on_event(TransactionEvent::StartClient);
    t.on_event(TransactionEvent::ResponseReceived {
        status: 200,
        bytes: Vec::new(),
    });
    let actions = t.on_event(TransactionEvent::TimerFired(TimerId::K));
    assert_eq!(t.state(), TransactionState::Terminated);
    assert!(has_terminated(&actions));
}

#[test]
fn timer_f_times_out_trying() {
    let mut t = new_txn();
    t.on_event(TransactionEvent::StartClient);
    let actions = t.on_event(TransactionEvent::TimerFired(TimerId::F));
    assert_eq!(t.state(), TransactionState::Terminated);
    assert!(has_cancel(&actions, TimerId::E));
    assert!(has_terminated(&actions));
}

#[test]
fn timer_f_times_out_proceeding() {
    let mut t = new_txn();
    t.on_event(TransactionEvent::StartClient);
    t.on_event(TransactionEvent::ResponseReceived {
        status: 100,
        bytes: Vec::new(),
    });
    let actions = t.on_event(TransactionEvent::TimerFired(TimerId::F));
    assert_eq!(t.state(), TransactionState::Terminated);
    assert!(has_terminated(&actions));
}

#[test]
fn events_in_terminated_are_ignored() {
    let mut t = new_txn();
    t.on_event(TransactionEvent::StartClient);
    t.on_event(TransactionEvent::TimerFired(TimerId::F));
    assert_eq!(t.state(), TransactionState::Terminated);
    // Stray late response / stale timer fire must be no-op.
    let a1 = t.on_event(TransactionEvent::ResponseReceived {
        status: 200,
        bytes: Vec::new(),
    });
    let a2 = t.on_event(TransactionEvent::TimerFired(TimerId::E));
    assert!(a1.is_empty() && a2.is_empty());
}

#[test]
fn key_roundtrips() {
    let t = new_txn();
    assert_eq!(t.key().branch, "z9hG4bK-test");
    assert_eq!(t.key().method, "BYE");
    assert_eq!(t.key().role, Role::Client);
}
