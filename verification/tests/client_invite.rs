//! The client INVITE machine.

use smiths_sip::txn::{
    ClientInviteTxn, Role, TimerId, Transaction, TransactionAction, TransactionEvent,
    TransactionState,
};

const INVITE: &[u8] = "INVITE sip:alice@127.0.0.1 SIP/2.0\r\n\
      Via: SIP/2.0/UDP 10.0.0.1:5060;branch=z9hG4bK-inv\r\n\
      From: <sip:bob@10.0.0.1>;tag=bob\r\n\
      To: <sip:alice@127.0.0.1>\r\n\
      Call-ID: cid-civ\r\n\
      CSeq: 1 INVITE\r\n\
      Max-Forwards: 70\r\n\
      Content-Length: 0\r\n\r\n".as_bytes();

fn rsp(code: u16, with_to_tag: &str) -> Vec<u8> {
    Vec::from(format!(
        "SIP/2.0 {} Reason\r\n\
      Via: SIP/2.0/UDP 10.0.0.1:5060;branch=z9hG4bK-inv;received=10.0.0.1\r\n\
      From: <sip:bob@10.0.0.1>;tag=bob\r\n\
      To: <sip:alice@127.0.0.1>;tag={}\r\n\
      Call-ID: cid-civ\r\n\
      CSeq: 1 INVITE\r\n\
      Content-Length: 0\r\n\r\n",
        code, with_to_tag,
    ))
}

fn new_txn() -> ClientInviteTxn {
    ClientInviteTxn::new("z9hG4bK-inv", INVITE.to_vec())
}

fn has_send(actions: &[TransactionAction]) -> bool {
    actions
        .iter()
        .any(|a| matches!(a, TransactionAction::SendToPeer(_)))
}
fn has_timer(actions: &[TransactionAction], id: TimerId) -> bool {
    actions
        .iter()
        .any(|a| matches!(a, TransactionAction::ArmTimer { id: i, .. } if *i == id))
}
fn has_cancel(actions: &[TransactionAction], id: TimerId) -> bool {
    actions
        .iter()
        .any(|a| matches!(a, TransactionAction::CancelTimer(i) if *i == id))
}
fn has_terminated(actions: &[TransactionAction]) -> bool {
    actions
        .iter()
        .any(|a| matches!(a, TransactionAction::Terminated))
}
fn delivered_status(actions: &[TransactionAction]) -> Option<u16> {
    actions.iter().find_map(|a| {
        if let TransactionAction::DeliverResponseToTu { status, .. } = a {
            Some(*status)
        } else {
            None
        }
    })
}
/// Count `SendToPeer` actions whose bytes start with the given prefix.
fn count_sends_with_prefix(actions: &[TransactionAction], prefix: &[u8]) -> usize {
    actions
        .iter()
        .filter(|a| matches!(a, TransactionAction::SendToPeer(b) if b.starts_with(prefix)))
        .count()
}

#[test]
fn start_sends_invite_and_arms_a_b() {
    let mut t = new_txn();
    let actions = t.on_event(TransactionEvent::StartClient);
    assert!(has_send(&actions));
    assert!(has_timer(&actions, TimerId::A));
    assert!(has_timer(&actions, TimerId::B));
    assert_eq!(t.state(), TransactionState::Calling);
}

#[test]
fn timer_a_retransmits_with_doubling() {
    let mut t = new_txn();
    t.on_event(TransactionEvent::StartClient);
    let a1 = t.on_event(TransactionEvent::TimerFired(TimerId::A));
    assert!(has_send(&a1));
    let a1_after = a1
        .iter()
        .find_map(|a| {
            if let TransactionAction::ArmTimer {
                id: TimerId::A,
                after,
            } = a
            {
                Some(*after)
            } else {
                None
            }
        })
        .unwrap();
    assert_eq!(a1_after, 1_000); // 2*T1
    let a2 = t.on_event(TransactionEvent::TimerFired(TimerId::A));
    let a2_after = a2
        .iter()
        .find_map(|a| {
            if let TransactionAction::ArmTimer {
                id: TimerId::A,
                after,
            } = a
            {
                Some(*after)
            } else {
                None
            }
        })
        .unwrap();
    assert_eq!(a2_after, 2_000); // 4*T1
}

#[test]
fn provisional_moves_to_proceeding_and_cancels_a() {
    let mut t = new_txn();
    t.on_event(TransactionEvent::StartClient);
    let a = t.on_event(TransactionEvent::ResponseReceived {
        status: 100,
        bytes: rsp(100, ""),
    });
    assert_eq!(t.state(), TransactionState::Proceeding);
    assert_eq!(delivered_status(&a), Some(100));
    assert!(
        has_cancel(&a, TimerId::A),
        "timer A must die on 1xx (section 17.1.1.2)"
    );
    // Timer B still alive - do NOT cancel it here.
    assert!(!has_cancel(&a, TimerId::B));
}

#[test]
fn provisional_in_proceeding_is_delivered_only() {
    let mut t = new_txn();
    t.on_event(TransactionEvent::StartClient);
    t.on_event(TransactionEvent::ResponseReceived {
        status: 100,
        bytes: rsp(100, ""),
    });
    let a = t.on_event(TransactionEvent::ResponseReceived {
        status: 180,
        bytes: rsp(180, ""),
    });
    assert_eq!(delivered_status(&a), Some(180));
    assert!(!has_timer(&a, TimerId::A));
    assert!(!has_cancel(&a, TimerId::A));
}

#[test]
fn two_hundred_ok_terminates_directly() {
    let mut t = new_txn();
    t.on_event(TransactionEvent::StartClient);
    let a = t.on_event(TransactionEvent::ResponseReceived {
        status: 200,
        bytes: rsp(200, "srv"),
    });
    assert_eq!(t.state(), TransactionState::Terminated);
    assert_eq!(delivered_status(&a), Some(200));
    assert!(has_cancel(&a, TimerId::A));
    assert!(has_cancel(&a, TimerId::B));
    assert!(has_terminated(&a));
    // No D armed - 2xx path skips Completed.
    assert!(!has_timer(&a, TimerId::D));
    // No ACK sent - TU does end-to-end ACK for 2xx.
    assert_eq!(count_sends_with_prefix(&a, b"ACK "), 0);
}

#[test]
fn non_2xx_final_sends_ack_and_enters_completed() {
    let mut t = new_txn();
    t.on_event(TransactionEvent::StartClient);
    let a = t.on_event(TransactionEvent::ResponseReceived {
        status: 404,
        bytes: rsp(404, "srv404"),
    });
    assert_eq!(t.state(), TransactionState::Completed);
    assert_eq!(delivered_status(&a), Some(404));
    assert!(has_cancel(&a, TimerId::A));
    assert!(has_cancel(&a, TimerId::B));
    assert!(has_timer(&a, TimerId::D));
    assert_eq!(
        count_sends_with_prefix(&a, b"ACK "),
        1,
        "exactly one ACK sent per section 17.1.1.3"
    );
}

#[test]
fn duplicate_non_2xx_in_completed_resends_ack_only() {
    let mut t = new_txn();
    t.on_event(TransactionEvent::StartClient);
    t.on_event(TransactionEvent::ResponseReceived {
        status: 486,
        bytes: rsp(486, "srv486"),
    });
    assert_eq!(t.state(), TransactionState::Completed);
    let dup = t.on_event(TransactionEvent::ResponseReceived {
        status: 486,
        bytes: rsp(486, "srv486"),
    });
    // No re-delivery, no new timer.
    assert!(delivered_status(&dup).is_none());
    assert!(!has_timer(&dup, TimerId::D));
    // ACK is re-sent.
    assert_eq!(count_sends_with_prefix(&dup, b"ACK "), 1);
}

#[test]
fn timer_d_terminates_completed() {
    let mut t = new_txn();
    t.on_event(TransactionEvent::StartClient);
    t.on_event(TransactionEvent::ResponseReceived {
        status: 500,
        bytes: rsp(500, "srv500"),
    });
    let a = t.on_event(TransactionEvent::TimerFired(TimerId::D));
    assert_eq!(t.state(), TransactionState::Terminated);
    assert!(has_terminated(&a));
}

#[test]
fn timer_b_times_out_from_calling() {
    let mut t = new_txn();
    t.on_event(TransactionEvent::StartClient);
    let a = t.on_event(TransactionEvent::TimerFired(TimerId::B));
    assert_eq!(t.state(), TransactionState::Terminated);
    assert!(has_cancel(&a, TimerId::A));
    assert!(has_terminated(&a));
}

#[test]
fn timer_b_times_out_from_proceeding() {
    let mut t = new_txn();
    t.on_event(TransactionEvent::StartClient);
    t.on_event(TransactionEvent::ResponseReceived {
        status: 180,
        bytes: rsp(180, ""),
    });
    let a = t.on_event(TransactionEvent::TimerFired(TimerId::B));
    assert_eq!(t.state(), TransactionState::Terminated);
    assert!(has_terminated(&a));
}

#[test]
fn client_invite_stray_events_in_terminated_are_no_ops() {
    let mut t = new_txn();
    t.on_event(TransactionEvent::StartClient);
    t.on_event(TransactionEvent::ResponseReceived {
        status: 200,
        bytes: rsp(200, "srv"),
    });
    assert_eq!(t.state(), TransactionState::Terminated);
    let a1 = t.on_event(TransactionEvent::TimerFired(TimerId::A));
    let a2 = t.on_event(TransactionEvent::ResponseReceived {
        status: 180,
        bytes: rsp(180, ""),
    });
    assert!(a1.is_empty() && a2.is_empty());
}

#[test]
fn key_is_invite_client() {
    let t = new_txn();
    assert_eq!(t.key().method, "INVITE");
    assert_eq!(t.key().role, Role::Client);
}

#[test]
fn an_answered_invite_is_not_sent_again() {
    let mut t = new_txn();
    t.on_event(TransactionEvent::StartClient);
    t.on_event(TransactionEvent::ResponseReceived { status: 180, bytes: rsp(180, "t") });
    assert!(t.on_event(TransactionEvent::TimerFired(TimerId::A)).is_empty());
    assert!(t.on_event(TransactionEvent::StartClient).is_empty());
    assert_eq!(t.state(), TransactionState::Proceeding);
}
