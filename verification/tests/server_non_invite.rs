//! The server non-INVITE machine.

use smiths_sip::txn::{
    Role, ServerNonInviteTxn, TimerId, Transaction, TransactionAction, TransactionEvent,
    TransactionState,
};

fn new_txn() -> ServerNonInviteTxn {
    ServerNonInviteTxn::new("z9hG4bK-sni", "OPTIONS")
}

fn has_send(actions: &[TransactionAction]) -> bool {
    actions
        .iter()
        .any(|a| matches!(a, TransactionAction::SendToPeer(_)))
}
fn has_timer(actions: &[TransactionAction], id: TimerId) -> bool {
    actions
        .iter()
        .any(|a| matches!(a, TransactionAction::ArmTimer { id: i, .. } if *i == id))
}
fn has_terminated(actions: &[TransactionAction]) -> bool {
    actions
        .iter()
        .any(|a| matches!(a, TransactionAction::Terminated))
}
fn count_sends(actions: &[TransactionAction]) -> usize {
    actions
        .iter()
        .filter(|a| matches!(a, TransactionAction::SendToPeer(_)))
        .count()
}

#[test]
fn starts_in_trying_with_server_role() {
    let t = new_txn();
    assert_eq!(t.state(), TransactionState::Trying);
    assert_eq!(t.key().method, "OPTIONS");
    assert_eq!(t.key().role, Role::Server);
}

#[test]
fn tu_1xx_moves_trying_to_proceeding() {
    let mut t = new_txn();
    let a = t.on_event(TransactionEvent::SendResponseFromTu {
        status: 100,
        bytes: b"SIP/2.0 100 Trying\r\n\r\n".to_vec(),
    });
    assert!(has_send(&a));
    assert_eq!(t.state(), TransactionState::Proceeding);
}

#[test]
fn tu_final_from_trying_enters_completed_and_arms_j() {
    let mut t = new_txn();
    let a = t.on_event(TransactionEvent::SendResponseFromTu {
        status: 200,
        bytes: b"SIP/2.0 200 OK\r\n\r\n".to_vec(),
    });
    assert_eq!(t.state(), TransactionState::Completed);
    assert!(has_send(&a));
    assert!(has_timer(&a, TimerId::J));
}

#[test]
fn tu_final_from_proceeding_enters_completed() {
    let mut t = new_txn();
    t.on_event(TransactionEvent::SendResponseFromTu {
        status: 100,
        bytes: b"SIP/2.0 100 Trying\r\n\r\n".to_vec(),
    });
    let a = t.on_event(TransactionEvent::SendResponseFromTu {
        status: 404,
        bytes: b"SIP/2.0 404 Not Found\r\n\r\n".to_vec(),
    });
    assert_eq!(t.state(), TransactionState::Completed);
    assert!(has_send(&a));
    assert!(has_timer(&a, TimerId::J));
}

#[test]
fn request_retransmit_in_trying_is_dropped() {
    let mut t = new_txn();
    let a = t.on_event(TransactionEvent::RequestReceived {
        method: "OPTIONS".into(),
        bytes: Vec::new(),
    });
    assert!(a.is_empty());
}

#[test]
fn request_retransmit_in_proceeding_replays_last_provisional() {
    let mut t = new_txn();
    t.on_event(TransactionEvent::SendResponseFromTu {
        status: 180,
        bytes: b"SIP/2.0 180 Ringing\r\n\r\n".to_vec(),
    });
    let a = t.on_event(TransactionEvent::RequestReceived {
        method: "OPTIONS".into(),
        bytes: Vec::new(),
    });
    assert_eq!(count_sends(&a), 1);
}

#[test]
fn request_retransmit_in_completed_replays_final() {
    let mut t = new_txn();
    t.on_event(TransactionEvent::SendResponseFromTu {
        status: 200,
        bytes: b"SIP/2.0 200 OK\r\n\r\n".to_vec(),
    });
    let a = t.on_event(TransactionEvent::RequestReceived {
        method: "OPTIONS".into(),
        bytes: Vec::new(),
    });
    assert_eq!(count_sends(&a), 1, "final must be re-sent on retransmit");
}

#[test]
fn timer_j_terminates_completed() {
    let mut t = new_txn();
    t.on_event(TransactionEvent::SendResponseFromTu {
        status: 200,
        bytes: Vec::new(),
    });
    let a = t.on_event(TransactionEvent::TimerFired(TimerId::J));
    assert_eq!(t.state(), TransactionState::Terminated);
    assert!(has_terminated(&a));
}

#[test]
fn server_non_invite_stray_events_in_terminated_are_no_ops() {
    let mut t = new_txn();
    t.on_event(TransactionEvent::SendResponseFromTu {
        status: 200,
        bytes: Vec::new(),
    });
    t.on_event(TransactionEvent::TimerFired(TimerId::J));
    let a = t.on_event(TransactionEvent::RequestReceived {
        method: "OPTIONS".into(),
        bytes: Vec::new(),
    });
    assert!(a.is_empty());
}

#[test]
fn second_tu_final_in_completed_is_absorbed() {
    // TU buggily sending a second final - must not leak a second
    // SendToPeer or re-arm J.
    let mut t = new_txn();
    t.on_event(TransactionEvent::SendResponseFromTu {
        status: 200,
        bytes: Vec::new(),
    });
    let a = t.on_event(TransactionEvent::SendResponseFromTu {
        status: 200,
        bytes: Vec::new(),
    });
    assert!(a.is_empty());
}

#[test]
fn repetitions_get_whatever_response_stands() {
    let mut t = new_txn();
    let again = || TransactionEvent::RequestReceived {
        method: "OPTIONS".into(),
        bytes: b"again".to_vec(),
    };
    let from_user = |status: u16, text: &str| TransactionEvent::SendResponseFromTu {
        status,
        bytes: text.as_bytes().to_vec(),
    };
    let sends = |actions: Vec<TransactionAction>, text: &str| {
        actions.len() == 1
            && matches!(&actions[0], TransactionAction::SendToPeer(b) if b == text.as_bytes())
    };
    assert!(t.on_event(again()).is_empty());
    t.on_event(from_user(100, "trying"));
    assert!(sends(t.on_event(again()), "trying"));
    t.on_event(from_user(200, "ok"));
    assert!(sends(t.on_event(again()), "ok"));
    assert!(t.on_event(from_user(500, "late")).is_empty());
    assert!(sends(t.on_event(again()), "ok"));
}
