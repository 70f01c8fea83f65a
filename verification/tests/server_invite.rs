//! The server INVITE machine.

use smiths_sip::txn::{
    Role, ServerInviteTxn, TimerId, Transaction, TransactionAction, TransactionEvent,
    TransactionState,
};

fn new_txn() -> ServerInviteTxn {
    ServerInviteTxn::new("z9hG4bK-siv")
}

fn has_send(actions: &[TransactionAction]) -> bool {
    actions
        .iter()
        .any(|a| matches!(a, TransactionAction::SendToPeer(_)))
}
fn has_timer(actions: &[TransactionAction], id: TimerId) -> bool {
    actions
        .iter()
        .any(|a| matches!(a, TransactionAction::ArmTimer { id: i, .. } if *i == id))
}
fn has_cancel(actions: &[TransactionAction], id: TimerId) -> bool {
    actions
        .iter()
        .any(|a| matches!(a, TransactionAction::CancelTimer(i) if *i == id))
}
fn has_terminated(actions: &[TransactionAction]) -> bool {
    actions
        .iter()
        .any(|a| matches!(a, TransactionAction::Terminated))
}
fn count_sends(actions: &[TransactionAction]) -> usize {
    actions
        .iter()
        .filter(|a| matches!(a, TransactionAction::SendToPeer(_)))
        .count()
}

#[test]
fn starts_in_proceeding() {
    let t = new_txn();
    assert_eq!(t.state(), TransactionState::Proceeding);
    assert_eq!(t.key().method, "INVITE");
    assert_eq!(t.key().role, Role::Server);
}

#[test]
fn tu_provisional_sends_and_stays_in_proceeding() {
    let mut t = new_txn();
    let a = t.on_event(TransactionEvent::SendResponseFromTu {
        status: 100,
        bytes: b"SIP/2.0 100 Trying\r\n\r\n".to_vec(),
    });
    assert!(has_send(&a));
    assert_eq!(t.state(), TransactionState::Proceeding);
}

#[test]
fn tu_2xx_bypasses_to_terminated() {
    let mut t = new_txn();
    let a = t.on_event(TransactionEvent::SendResponseFromTu {
        status: 200,
        bytes: b"SIP/2.0 200 OK\r\n\r\n".to_vec(),
    });
    assert!(has_send(&a));
    assert!(has_terminated(&a));
    assert_eq!(t.state(), TransactionState::Terminated);
    // No G/H - TU does its own 2xx retransmit.
    assert!(!has_timer(&a, TimerId::G));
    assert!(!has_timer(&a, TimerId::H));
}

#[test]
fn tu_non_2xx_enters_completed_and_arms_g_and_h() {
    let mut t = new_txn();
    let a = t.on_event(TransactionEvent::SendResponseFromTu {
        status: 486,
        bytes: b"SIP/2.0 486 Busy Here\r\n\r\n".to_vec(),
    });
    assert_eq!(t.state(), TransactionState::Completed);
    assert!(has_send(&a));
    assert!(has_timer(&a, TimerId::G));
    assert!(has_timer(&a, TimerId::H));
}

#[test]
fn invite_retransmit_replays_last_provisional() {
    let mut t = new_txn();
    t.on_event(TransactionEvent::SendResponseFromTu {
        status: 180,
        bytes: b"SIP/2.0 180 Ringing\r\n\r\n".to_vec(),
    });
    let a = t.on_event(TransactionEvent::RequestReceived {
        method: "INVITE".into(),
        bytes: Vec::new(),
    });
    assert_eq!(count_sends(&a), 1);
    assert_eq!(t.state(), TransactionState::Proceeding);
}

#[test]
fn invite_retransmit_before_any_response_is_dropped() {
    let mut t = new_txn();
    let a = t.on_event(TransactionEvent::RequestReceived {
        method: "INVITE".into(),
        bytes: Vec::new(),
    });
    assert!(a.is_empty(), "no last response to replay = no action");
}

#[test]
fn timer_g_retransmits_with_doubling() {
    let mut t = new_txn();
    t.on_event(TransactionEvent::SendResponseFromTu {
        status: 500,
        bytes: b"SIP/2.0 500 Server Error\r\n\r\n".to_vec(),
    });
    let first = t.on_event(TransactionEvent::TimerFired(TimerId::G));
    assert!(has_send(&first));
    let first_after = first
        .iter()
        .find_map(|a| {
            if let TransactionAction::ArmTimer {
                id: TimerId::G,
                after,
            } = a
            {
                Some(*after)
            } else {
                None
            }
        })
        .unwrap();
    assert_eq!(first_after, 1_000); // 2*T1
    let second = t.on_event(TransactionEvent::TimerFired(TimerId::G));
    let second_after = second
        .iter()
        .find_map(|a| {
            if let TransactionAction::ArmTimer {
                id: TimerId::G,
                after,
            } = a
            {
                Some(*after)
            } else {
                None
            }
        })
        .unwrap();
    assert_eq!(second_after, 2_000); // 4*T1
}

#[test]
fn invite_retransmit_in_completed_resends_final() {
    let mut t = new_txn();
    t.on_event(TransactionEvent::SendResponseFromTu {
        status: 404,
        bytes: b"SIP/2.0 404 Not Found\r\n\r\n".to_vec(),
    });
    let a = t.on_event(TransactionEvent::RequestReceived {
        method: "INVITE".into(),
        bytes: Vec::new(),
    });
    assert_eq!(count_sends(&a), 1, "must replay cached final");
    assert_eq!(t.state(), TransactionState::Completed);
}

#[test]
fn ack_moves_completed_to_confirmed_and_cancels_g_h() {
    let mut t = new_txn();
    t.on_event(TransactionEvent::SendResponseFromTu {
        status: 486,
        bytes: b"SIP/2.0 486 Busy\r\n\r\n".to_vec(),
    });
    let a = t.on_event(TransactionEvent::RequestReceived {
        method: "ACK".into(),
        bytes: Vec::new(),
    });
    assert_eq!(t.state(), TransactionState::Confirmed);
    assert!(has_cancel(&a, TimerId::G));
    assert!(has_cancel(&a, TimerId::H));
    assert!(has_timer(&a, TimerId::I));
}

#[test]
fn ack_retransmit_in_confirmed_is_silently_dropped() {
    let mut t = new_txn();
    t.on_event(TransactionEvent::SendResponseFromTu {
        status: 500,
        bytes: b"SIP/2.0 500 Server Error\r\n\r\n".to_vec(),
    });
    t.on_event(TransactionEvent::RequestReceived {
        method: "ACK".into(),
        bytes: Vec::new(),
    });
    let dup = t.on_event(TransactionEvent::RequestReceived {
        method: "ACK".into(),
        bytes: Vec::new(),
    });
    assert!(dup.is_empty());
    assert_eq!(t.state(), TransactionState::Confirmed);
}

#[test]
fn timer_h_times_out_completed() {
    let mut t = new_txn();
    t.on_event(TransactionEvent::SendResponseFromTu {
        status: 500,
        bytes: Vec::new(),
    });
    let a = t.on_event(TransactionEvent::TimerFired(TimerId::H));
    assert_eq!(t.state(), TransactionState::Terminated);
    assert!(has_cancel(&a, TimerId::G));
    assert!(has_terminated(&a));
}

#[test]
fn timer_i_terminates_confirmed() {
    let mut t = new_txn();
    t.on_event(TransactionEvent::SendResponseFromTu {
        status: 500,
        bytes: Vec::new(),
    });
    t.on_event(TransactionEvent::RequestReceived {
        method: "ACK".into(),
        bytes: Vec::new(),
    });
    let a = t.on_event(TransactionEvent::TimerFired(TimerId::I));
    assert_eq!(t.state(), TransactionState::Terminated);
    assert!(has_terminated(&a));
}

#[test]
fn server_invite_stray_events_in_terminated_are_no_ops() {
    let mut t = new_txn();
    t.on_event(TransactionEvent::SendResponseFromTu {
        status: 200,
        bytes: Vec::new(),
    });
    assert_eq!(t.state(), TransactionState::Terminated);
    let a1 = t.on_event(TransactionEvent::TimerFired(TimerId::G));
    let a2 = t.on_event(TransactionEvent::RequestReceived {
        method: "ACK".into(),
        bytes: Vec::new(),
    });
    assert!(a1.is_empty() && a2.is_empty());
}
