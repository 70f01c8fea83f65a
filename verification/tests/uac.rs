//! Placing calls.

use smiths_sip::txn::{Transaction, TransactionState, TuEvent};
use smiths_sip::uac::ids::IdSource;
use smiths_sip::uac::message::{
    extract_body, extract_to_tag, parse_reason, parse_target,
};
use smiths_sip::uac::{on_tu_event, AwaitStep, CallError, CallOutcome, UacClient, UacError};

#[test]
fn parse_target_strips_angle_and_defaults_port() {
    let (uri, hp) = parse_target("<sip:alice@127.0.0.1>").unwrap();
    assert_eq!(uri, "sip:alice@127.0.0.1");
    assert_eq!(hp, "127.0.0.1:5060");
    let (uri, hp) = parse_target("sip:bob@10.0.0.1:5061").unwrap();
    assert_eq!(uri, "sip:bob@10.0.0.1:5061");
    assert_eq!(hp, "10.0.0.1:5061");
}

#[test]
fn parse_target_rejects_non_sip() {
    let err = parse_target("tel:+1234").unwrap_err();
    assert!(matches!(err, UacError::InvalidTarget(_)));
    assert_eq!(
        err.message(),
        "invalid target uri: expected sip: scheme, got `tel:+1234`"
    );
}

#[test]
fn extract_to_tag_from_200() {
    let bytes = b"SIP/2.0 200 OK\r\nTo: <sip:a@b>;tag=ttt\r\n\r\n";
    assert_eq!(extract_to_tag(bytes).as_deref(), Some("ttt"));
}

#[test]
fn extract_body_after_double_crlf() {
    let bytes = b"SIP/2.0 200 OK\r\nContent-Length: 5\r\n\r\nhello";
    assert_eq!(extract_body(bytes), "hello");
}

#[test]
fn targets_without_user_or_with_odd_brackets() {
    assert_eq!(parse_target(" sip:host ").unwrap().1, "host:5060");
    assert_eq!(parse_target("sip:a@b@c:1").unwrap().1, "c:1");
    assert_eq!(
        parse_target("sip:alice@[::1]").unwrap(),
        ("sip:alice@[::1]".to_owned(), "[::1]:5060".to_owned())
    );
    assert_eq!(parse_target("sip:alice@[::1]:5070").unwrap().1, "[::1]:5070");
    assert!(parse_target("<sip:a@b").is_err());
    assert!(parse_target("").is_err());
}

#[test]
fn responses_are_read() {
    assert_eq!(parse_reason(b"SIP/2.0 486 Busy Here\r\n\r\n"), "Busy Here");
    assert_eq!(parse_reason(b"SIP/2.0 486\r\n\r\n"), "");
    assert_eq!(parse_reason(&[0xff, 0xfe]), "");
    assert_eq!(
        extract_to_tag(b"SIP/2.0 200 OK\r\nt: <sip:a>;TAG=q;x=1\r\n\r\n").as_deref(),
        Some("q")
    );
    assert_eq!(extract_to_tag(b"SIP/2.0 200 OK\r\nTo: <sip:a>\r\n\r\n"), None);
    assert_eq!(extract_body(b"no body"), "");
}

fn client() -> UacClient {
    UacClient::new("127.0.0.1", "127.0.0.1:5070")
}

const OK: &[u8] =
    b"SIP/2.0 200 OK\r\nTo: <sip:bob@10.0.0.2>;tag=peer-1\r\nContent-Length: 3\r\n\r\nsdp";

#[test]
fn a_call_is_placed_answered_and_hung_up() {
    let mut uac = client();
    let mut ids = IdSource::new();
    let attempt = uac
        .place_call(&mut ids, "sip:bob@10.0.0.2", "10.0.0.2:5060", 9, "v=0\r\n", 0x12, 0x34)
        .unwrap();
    assert_eq!(attempt.call_id, "000000120000@127.0.0.1");
    assert_eq!(attempt.local_tag, "uac-000000120000");
    assert_eq!(attempt.branch, "z9hG4bK-00000000000000340000");
    let expected = "INVITE sip:bob@10.0.0.2 SIP/2.0\r\n\
        Via: SIP/2.0/UDP 127.0.0.1:5070;branch=z9hG4bK-00000000000000340000;rport\r\n\
        From: <sip:smiths@127.0.0.1:5070>;tag=uac-000000120000\r\n\
        To: sip:bob@10.0.0.2\r\n\
        Call-ID: 000000120000@127.0.0.1\r\n\
        CSeq: 1 INVITE\r\n\
        Max-Forwards: 70\r\n\
        Contact: <sip:smiths@127.0.0.1:5070>\r\n\
        Content-Type: application/sdp\r\n\
        Content-Length: 5\r\n\r\nv=0\r\n";
    assert_eq!(String::from_utf8(attempt.invite.clone()).unwrap(), expected);
    assert_eq!(attempt.transaction().state(), TransactionState::Calling);

    let outcome = uac.call_answered(&mut ids, attempt, Ok((200, OK.to_vec())), 0x35);
    let call_id = match outcome {
        CallOutcome::Connected {
            call_id,
            ack,
            answer,
        } => {
            assert_eq!(answer, "sdp");
            let expected = "ACK sip:bob@10.0.0.2 SIP/2.0\r\n\
                Via: SIP/2.0/UDP 127.0.0.1:5070;branch=z9hG4bK-00000000000000350001;rport\r\n\
                From: <sip:smiths@127.0.0.1:5070>;tag=uac-000000120000\r\n\
                To: sip:bob@10.0.0.2;tag=peer-1\r\n\
                Call-ID: 000000120000@127.0.0.1\r\n\
                CSeq: 1 ACK\r\n\
                Max-Forwards: 70\r\nContent-Length: 0\r\n\r\n";
            assert_eq!(String::from_utf8(ack).unwrap(), expected);
            call_id
        }
        other => panic!("{other:?}"),
    };
    assert_eq!(uac.active(), 1);

    let bye = uac.hangup(&mut ids, &call_id, 0x36).unwrap();
    let text = String::from_utf8(bye.bye.clone()).unwrap();
    assert!(text.starts_with("BYE sip:bob@10.0.0.2 SIP/2.0\r\n"));
    assert!(text.contains("CSeq: 2 BYE\r\n"));
    assert!(text.contains("To: sip:bob@10.0.0.2;tag=peer-1\r\n"));
    assert_eq!(bye.peer, "10.0.0.2:5060");
    // Refused: the call stays, and the next attempt uses the next number.
    let refused = uac.hangup_answered(bye, Ok((503, b"SIP/2.0 503 Busy\r\n".to_vec())));
    assert!(matches!(refused, Err(UacError::Rejected { status: 503, .. })));
    let bye = uac.hangup(&mut ids, &call_id, 0x37).unwrap();
    assert!(String::from_utf8(bye.bye.clone()).unwrap().contains("CSeq: 3 BYE\r\n"));
    assert_eq!(bye.transaction().key().method, "BYE");
    assert_eq!(uac.hangup_answered(bye, Ok((200, Vec::new()))).unwrap(), 9);
    assert_eq!(uac.active(), 0);
    assert!(matches!(
        uac.hangup(&mut ids, &call_id, 0),
        Err(UacError::NotFound(c)) if c == call_id
    ));
}

#[test]
fn failed_calls_leave_nothing_behind() {
    let mut uac = client().with_deadline(7);
    let mut ids = IdSource::new();
    let place = |uac: &UacClient, ids: &mut IdSource| {
        uac.place_call(ids, "sip:bob@h", "h:5060", 4, "", 0, 0).unwrap()
    };
    let attempt = place(&uac, &mut ids);
    match uac.call_answered(&mut ids, attempt, Ok((486, b"SIP/2.0 486 Busy Here\r\n".to_vec())), 0) {
        CallOutcome::Failed {
            error: UacError::Rejected { status, reason },
            release,
        } => {
            assert_eq!((status, reason.as_str()), (486, "Busy Here"));
            assert_eq!(release, Some(4));
        }
        other => panic!("{other:?}"),
    }
    let attempt = place(&uac, &mut ids);
    let late = uac.timed_out();
    assert_eq!(late.message(), "response timeout after 7 ms");
    match uac.call_answered(&mut ids, attempt, Err(late), 0) {
        CallOutcome::Failed {
            error: UacError::Timeout { millis: 7 },
            release: Some(4),
        } => {}
        other => panic!("{other:?}"),
    }
    let attempt = place(&uac, &mut ids);
    match uac.call_answered(&mut ids, attempt, Ok((200, b"SIP/2.0 200 OK\r\n\r\n".to_vec())), 0) {
        CallOutcome::Failed {
            error: UacError::Internal(m),
            release: None,
        } => assert_eq!(m, "200 OK missing To-tag"),
        other => panic!("{other:?}"),
    }
    assert_eq!(uac.active(), 0);
    assert_eq!(uac.deadline(), 7);
    assert!(uac.place_call(&mut ids, "tel:1", "h:1", 4, "", 0, 0).is_err());
}

#[test]
fn provisional_responses_are_waited_out() {
    let event = |status| TuEvent::Response {
        status,
        bytes: vec![1],
    };
    assert!(matches!(on_tu_event(event(100)), AwaitStep::Wait));
    assert!(matches!(on_tu_event(event(199)), AwaitStep::Wait));
    assert!(matches!(
        on_tu_event(event(200)),
        AwaitStep::Final { status: 200, .. }
    ));
    assert!(matches!(
        on_tu_event(TuEvent::Terminated),
        AwaitStep::Failed(UacError::Timeout { millis: u64::MAX })
    ));
}

#[test]
fn identifiers_never_repeat() {
    let mut ids = IdSource::new();
    let a = ids.fresh_branch(5);
    let b = ids.fresh_branch(5);
    assert_ne!(a, b);
    assert_ne!(ids.fresh_call_id("h", 1), ids.fresh_call_id("h", 1));
    assert_ne!(ids.fresh_tag("t", 1), ids.fresh_tag("t", 1));
    assert_eq!(ids.fresh_tag("t", 255), "t-000000ff0002");
}

#[test]
fn errors_reach_the_callers_of_the_engine() {
    assert!(matches!(
        CallError::from(UacError::Io("down".into())),
        CallError::Internal(m) if m == "down"
    ));
    assert!(matches!(
        CallError::from(UacError::Rejected { status: 404, reason: "x".into() }),
        CallError::Rejected { status: 404, .. }
    ));
    assert!(matches!(
        CallError::from(UacError::NotFound("c".into())),
        CallError::NotFound(_)
    ));
    assert!(matches!(
        CallError::from(UacError::Timeout { millis: 3 }),
        CallError::Timeout { millis: 3 }
    ));
    assert_eq!(UacError::Io("x".into()).message(), "transport: x");
    assert_eq!(
        UacError::Rejected { status: 404, reason: "Gone".into() }.message(),
        "peer rejected: 404 Gone"
    );
    assert_eq!(UacError::NotFound("c".into()).message(), "no dialog for call id c");
}
