//! Reading and writing the messages of a call.

use smiths_sip::record::{DialogRecord, DialogState};
use smiths_sip::txn::DialogEvent;
use smiths_sip::uas::compose::{
    build_in_dialog_request, build_response, dialog_route_target, format_warning,
    InDialogRequest, TagSource,
};
use smiths_sip::uas::parse::{
    extract_tag_param, extract_via_branch, first_contact_uri, parse_session_expires,
    response_status, ruri_user_from, split_header_list, via_branch_param,
};
use smiths_sip::uas::server::teardown::{drive_dialog_fsm, FsmOutcome};
use smiths_sip::uas::session_timer::{session_timer_headers, SessionTimerAgreement};
use smiths_sip::uas::summary::{in_dialog_key, summarize_request};

const SAMPLE_OPTIONS: &str = "OPTIONS sip:alice@smiths.local SIP/2.0\r\n\
    Via: SIP/2.0/UDP 10.0.0.1:5060;branch=z9hG4bK-abc123;rport\r\n\
    From: Bob <sip:bob@smiths.local>;tag=314\r\n\
    To: Alice <sip:alice@smiths.local>\r\n\
    Call-ID: cid-xyz-42@10.0.0.1\r\n\
    CSeq: 1 OPTIONS\r\n\
    Max-Forwards: 70\r\n\
    User-Agent: Smiths-Testkit/0.1\r\n\
    Content-Length: 0\r\n\r\n";

const SAMPLE_BYE: &str = "BYE sip:alice@smiths.local SIP/2.0\r\n\
    Via: SIP/2.0/UDP 10.0.0.1:5060;branch=z9hG4bK-bye-1\r\n\
    From: Bob <sip:bob@smiths.local>;tag=bob-1\r\n\
    To: Alice <sip:alice@smiths.local>;tag=smiths-xyz\r\n\
    Call-ID: cid-xyz-42@10.0.0.1\r\n\
    CSeq: 2 BYE\r\n\
    Content-Length: 0\r\n\r\n";

const SAMPLE_INVITE_TIMER: &str = "INVITE sip:alice@smiths.local SIP/2.0\r\n\
    Via: SIP/2.0/TCP 10.0.0.1:5060;branch=z9hG4bK-inv-1\r\n\
    Record-Route: <sip:p1.example;lr>, <sip:p2.example;lr>\r\n\
    Record-Route: <sip:p3.example;lr>\r\n\
    From: Bob <sip:bob@smiths.local>;tag=bob-1\r\n\
    To: Alice <sip:alice@smiths.local>\r\n\
    Call-ID: cid-timer@10.0.0.1\r\n\
    CSeq: 7 INVITE\r\n\
    Contact: <sip:bob@10.0.0.1:5060;transport=tcp>\r\n\
    Supported: replaces, timer\r\n\
    Session-Expires: 120;refresher=UAC\r\n\
    Min-SE: 100\r\n\
    Content-Length: 0\r\n\r\n";

fn record_with_routes(routes: &[&str], target: Option<&str>) -> DialogRecord {
    DialogRecord {
        call_id: "c@x".into(),
        local_tag: "lt".into(),
        remote_tag: "rt".into(),
        state: DialogState::Confirmed,
        peer_signal: "10.0.0.2:5060".into(),
        rendezvous: None,
        media: None,
        remote_media: None,
        pending_2xx: None,
        audio_codec: None,
        video_codec: None,
        ice: None,
        remote_target: target.map(str::to_owned),
        route_set: routes.iter().map(|r| (*r).to_owned()).collect(),
        local_uri: Some("sip:alice@smiths.local".into()),
        remote_uri: Some("sip:bob@smiths.local".into()),
        local_cseq: 3,
        remote_cseq: Some(9),
        transport: Some("TCP".into()),
        last_invite_branch: None,
        local_media: None,
        session_expires_secs: None,
    }
}

#[test]
fn angle_bracketed_form() {
    assert_eq!(
        first_contact_uri("\"Alice\" <sip:alice@pc.example>;expires=3600"),
        Some("sip:alice@pc.example".into())
    );
}

#[test]
fn bare_uri_with_params() {
    assert_eq!(
        first_contact_uri("sip:bob@pc.example;expires=60"),
        Some("sip:bob@pc.example".into())
    );
}

#[test]
fn multiple_contacts_take_first() {
    assert_eq!(
        first_contact_uri("<sip:a@x>, <sip:b@y>"),
        Some("sip:a@x".into())
    );
}

#[test]
fn wildcard_is_none() {
    assert_eq!(first_contact_uri("*"), None);
}

#[test]
fn empty_is_none() {
    assert_eq!(first_contact_uri("   "), None);
}

#[test]
fn summary_extracts_branch_call_id_and_tags() {
    let s = summarize_request(SAMPLE_BYE.as_bytes());
    assert_eq!(s.method, "BYE");
    assert_eq!(s.branch.as_deref(), Some("z9hG4bK-bye-1"));
    assert_eq!(s.call_id.as_deref(), Some("cid-xyz-42@10.0.0.1"));
    assert_eq!(s.from_tag.as_deref(), Some("bob-1"));
    assert_eq!(s.to_tag.as_deref(), Some("smiths-xyz"));
    assert_eq!(s.cseq, Some(2));
    assert!(!s.supports_timer);
    assert!(s.record_route.is_empty());
}

#[test]
fn summary_extracts_routing_and_session_timer_headers() {
    let s = summarize_request(SAMPLE_INVITE_TIMER.as_bytes());
    assert_eq!(s.cseq, Some(7));
    assert_eq!(
        s.record_route,
        vec![
            "<sip:p1.example;lr>".to_owned(),
            "<sip:p2.example;lr>".to_owned(),
            "<sip:p3.example;lr>".to_owned(),
        ]
    );
    assert_eq!(
        s.contact.as_deref(),
        Some("<sip:bob@10.0.0.1:5060;transport=tcp>")
    );
    assert!(s.supports_timer);
    assert_eq!(s.session_expires, Some(120));
    assert_eq!(s.session_refresher.as_deref(), Some("uac"));
    assert_eq!(s.min_se, Some(100));
}

#[test]
fn session_expires_parses_without_refresher() {
    assert_eq!(parse_session_expires("1800"), (Some(1800), None));
    assert_eq!(
        parse_session_expires(" 90 ; refresher=uas"),
        (Some(90), Some("uas".into()))
    );
    assert_eq!(parse_session_expires("abc"), (None, None));
}

#[test]
fn header_list_split_respects_angle_brackets() {
    assert_eq!(
        split_header_list("<sip:a;lr>, <sip:b?h=1,2>,c"),
        vec![
            "<sip:a;lr>".to_owned(),
            "<sip:b?h=1,2>".to_owned(),
            "c".to_owned()
        ]
    );
}

#[test]
fn response_copies_required_headers_and_adds_to_tag() {
    let resp = build_response(SAMPLE_OPTIONS.as_bytes(), 200, "OK", Some("abc-tag"), &[], b"");
    let s = std::str::from_utf8(&resp).unwrap();
    assert!(s.starts_with("SIP/2.0 200 OK\r\n"));
    assert!(s.contains("Via: SIP/2.0/UDP 10.0.0.1:5060;branch=z9hG4bK-abc123;rport\r\n"));
    assert!(s.contains("From: Bob <sip:bob@smiths.local>;tag=314\r\n"));
    assert!(s.contains("Call-ID: cid-xyz-42@10.0.0.1\r\n"));
    assert!(s.contains("CSeq: 1 OPTIONS\r\n"));
    assert!(s.contains(";tag=abc-tag\r\n"));
    assert!(s.ends_with("Content-Length: 0\r\n\r\n"));
    assert!(!s.contains("User-Agent:"));
    assert!(!s.contains("Max-Forwards:"));
}

#[test]
fn response_preserves_existing_to_tag() {
    let resp = build_response(SAMPLE_BYE.as_bytes(), 200, "OK", Some("replacement"), &[], b"");
    let s = std::str::from_utf8(&resp).unwrap();
    assert!(s.contains("To: Alice <sip:alice@smiths.local>;tag=smiths-xyz\r\n"));
    assert!(!s.contains("replacement"));
}

#[test]
fn response_appends_extra_headers() {
    let resp = build_response(
        SAMPLE_OPTIONS.as_bytes(),
        200,
        "OK",
        Some("t"),
        &[("Contact", "<sip:engine@10.0.0.9:5060>")],
        b"",
    );
    let s = std::str::from_utf8(&resp).unwrap();
    assert!(s.contains("Contact: <sip:engine@10.0.0.9:5060>\r\n"));
}

#[test]
fn response_body_and_content_length() {
    let body = b"v=0\r\n";
    let resp = build_response(
        SAMPLE_OPTIONS.as_bytes(),
        200,
        "OK",
        Some("t"),
        &[("Content-Type", "application/sdp")],
        body,
    );
    let s = std::str::from_utf8(&resp).unwrap();
    assert!(s.contains("Content-Type: application/sdp\r\n"));
    assert!(s.contains("Content-Length: 5\r\n\r\n"));
    assert!(s.ends_with("v=0\r\n"));
}

#[test]
fn tags_are_unique_across_calls() {
    let mut tags = TagSource::new();
    let a = tags.next_tag(1_000, 77);
    let b = tags.next_tag(1_000, 77);
    assert_ne!(a, b);
    assert_eq!(TagSource::new().next_tag(0x10, 0x01), "smiths-0000000000000000-0000000000000011");
    let mut tags = TagSource::new();
    assert_ne!(tags.next_tag(2, 1), tags.next_tag(3, 1));
}

#[test]
fn extract_tag_param_handles_edge_cases() {
    assert_eq!(extract_tag_param("<sip:x>;tag=abc"), Some("abc".to_owned()));
    assert_eq!(
        extract_tag_param("<sip:x>;TAG=abc;foo=bar"),
        Some("abc".to_owned())
    );
    assert_eq!(extract_tag_param("<sip:x>"), None);
    assert_eq!(extract_tag_param("<sip:x>;tag="), None);
}

#[test]
fn via_branch_extracted_from_responses_and_requests() {
    let resp =
        b"SIP/2.0 200 OK\r\nVia: SIP/2.0/UDP 10.0.0.1:5060;rport;branch=z9hG4bK-r1\r\n\r\n";
    assert_eq!(extract_via_branch(resp).as_deref(), Some("z9hG4bK-r1"));
    let none = b"SIP/2.0 200 OK\r\nVia: SIP/2.0/UDP 10.0.0.1\r\n\r\n";
    assert_eq!(extract_via_branch(none), None);
    assert_eq!(response_status(resp), Some(200));
}

#[test]
fn route_target_without_route_set_uses_remote_target() {
    let rec = record_with_routes(&[], Some("sip:bob@10.0.0.2:5060"));
    let (ruri, routes) = dialog_route_target(&rec);
    assert_eq!(ruri, "sip:bob@10.0.0.2:5060");
    assert!(routes.is_empty());
}

#[test]
fn route_target_falls_back_to_peer_signal() {
    let rec = record_with_routes(&[], None);
    let (ruri, _) = dialog_route_target(&rec);
    assert_eq!(ruri, "sip:10.0.0.2:5060");
}

#[test]
fn route_target_loose_routing_keeps_target_and_copies_routes() {
    let rec = record_with_routes(
        &["<sip:p1.example;lr>", "<sip:p2.example;lr>"],
        Some("sip:bob@pc"),
    );
    let (ruri, routes) = dialog_route_target(&rec);
    assert_eq!(ruri, "sip:bob@pc");
    assert_eq!(
        routes,
        vec![
            "<sip:p1.example;lr>".to_owned(),
            "<sip:p2.example;lr>".to_owned()
        ]
    );
}

#[test]
fn route_target_strict_router_becomes_request_uri() {
    let rec = record_with_routes(&["<sip:strict.example>", "<sip:p2;lr>"], Some("sip:bob@pc"));
    let (ruri, routes) = dialog_route_target(&rec);
    assert_eq!(ruri, "sip:strict.example");
    assert_eq!(
        routes,
        vec!["<sip:p2;lr>".to_owned(), "<sip:bob@pc>".to_owned()]
    );
}

#[test]
fn in_dialog_request_mirrors_dialog_identity() {
    let rec = record_with_routes(&["<sip:p1.example;lr>"], Some("sip:bob@10.0.0.2:5060"));
    let bytes = build_in_dialog_request(&InDialogRequest {
        method: "BYE",
        record: &rec,
        via_sent_by: "10.0.0.9:5060",
        via_transport: "TCP",
        branch: "z9hG4bK-b1",
    });
    let s = std::str::from_utf8(&bytes).unwrap();
    assert!(s.starts_with("BYE sip:bob@10.0.0.2:5060 SIP/2.0\r\n"), "{s}");
    assert!(s.contains("Via: SIP/2.0/TCP 10.0.0.9:5060;branch=z9hG4bK-b1;rport\r\n"));
    assert!(s.contains("Route: <sip:p1.example;lr>\r\n"));
    assert!(s.contains("From: <sip:alice@smiths.local>;tag=lt\r\n"));
    assert!(s.contains("To: <sip:bob@smiths.local>;tag=rt\r\n"));
    assert!(s.contains("Call-ID: c@x\r\n"));
    assert!(s.contains("CSeq: 3 BYE\r\n"));
    assert!(s.ends_with("Content-Length: 0\r\n\r\n"));
}

#[test]
fn dialog_fsm_projection_updates_record() {
    let mut rec = record_with_routes(&[], None);
    rec.state = DialogState::Early;
    assert_eq!(
        drive_dialog_fsm(&mut rec, DialogEvent::AckReceived),
        FsmOutcome::Continue
    );
    assert_eq!(rec.state, DialogState::Confirmed);
    assert_eq!(
        drive_dialog_fsm(&mut rec, DialogEvent::Cancelled),
        FsmOutcome::Illegal
    );
    assert_eq!(rec.state, DialogState::Confirmed);
    assert_eq!(
        drive_dialog_fsm(&mut rec, DialogEvent::ByeCompleted),
        FsmOutcome::Terminated
    );
}

#[test]
fn session_timer_headers_shape() {
    let hdrs = session_timer_headers(Some(SessionTimerAgreement { interval_secs: 90 }));
    assert_eq!(
        hdrs,
        vec![
            ("Session-Expires", "90;refresher=uac".to_owned()),
            ("Require", "timer".to_owned())
        ]
    );
    assert!(session_timer_headers(None).is_empty());
}

#[test]
fn warning_header_is_quoted_and_sanitized() {
    assert_eq!(
        format_warning(399, "no \"transcoder\""),
        "399 smiths-net \"no transcoder\""
    );
}

#[test]
fn request_uris_name_their_user() {
    assert_eq!(ruri_user_from("sip:room-1@engine").as_deref(), Some("room-1"));
    assert_eq!(ruri_user_from("sips:a@b:5061").as_deref(), Some("a"));
    assert_eq!(ruri_user_from("sip:host:5060"), None);
}

#[test]
fn branches_end_at_the_next_parameter() {
    assert_eq!(
        via_branch_param(" SIP/2.0/UDP h;BRANCH=b1;rport").as_deref(),
        Some("b1")
    );
    assert_eq!(via_branch_param(" SIP/2.0/UDP h;branch=;rport"), None);
}

#[test]
fn bytes_that_are_no_text_are_still_summarised() {
    let mut raw = b"OPTIONS sip:x SIP/2.0\r\nCall-ID: c\r\nX: ".to_vec();
    raw.push(0xff);
    raw.extend_from_slice(b"\r\n\r\n");
    let s = summarize_request(&raw);
    assert_eq!(s.method, "OPTIONS");
    assert_eq!(s.call_id.as_deref(), Some("c"));
    assert_eq!(s.raw, raw);
    let resp = build_response(&raw, 200, "OK", None, &[], b"");
    assert!(resp.starts_with(b"SIP/2.0 200 OK\r\nCall-ID: c\r\n"));
}

#[test]
fn in_dialog_requests_name_their_dialog() {
    let s = summarize_request(SAMPLE_BYE.as_bytes());
    assert_eq!(
        in_dialog_key(&s),
        Some((
            "cid-xyz-42@10.0.0.1".to_owned(),
            "smiths-xyz".to_owned(),
            "bob-1".to_owned()
        ))
    );
    assert_eq!(in_dialog_key(&summarize_request(SAMPLE_OPTIONS.as_bytes())), None);
}

#[test]
fn header_names_may_be_spelled_in_any_way() {
    let long = summarize_request(
        b"INVITE sip:room@h SIP/2.0\r\nVia: SIP/2.0/UDP h;branch=z\r\nFrom: <sip:b@x>;tag=1\r\nTo: <sip:a@y>\r\nCall-ID: c\r\nCSeq: 7 INVITE\r\nContact: <sip:b@x>\r\nSession-Expires: 90;refresher=uac\r\nSupported: timer\r\nContent-Type: application/sdp\r\n\r\nv=0",
    );
    let short = summarize_request(
        b"INVITE sip:room@h SIP/2.0\r\nV: SIP/2.0/UDP h;branch=z\r\nf: <sip:b@x>;tag=1\r\nT: <sip:a@y>\r\ni: c\r\ncseq: 7 INVITE\r\nm: <sip:b@x>\r\nx: 90;refresher=uac\r\nK: timer\r\nc: application/sdp\r\n\r\nv=0",
    );
    assert_eq!(long.branch, short.branch);
    assert_eq!(long.from_tag, short.from_tag);
    assert_eq!(long.to_uri, short.to_uri);
    assert_eq!(long.call_id, short.call_id);
    assert_eq!(long.cseq, Some(7));
    assert_eq!(short.cseq, Some(7));
    assert_eq!(long.contact, short.contact);
    assert_eq!(long.session_expires, short.session_expires);
    assert_eq!(short.session_expires, Some(90));
    assert!(long.supports_timer && short.supports_timer);
    assert!(long.has_sdp() && short.has_sdp());
    assert_eq!(long.body, short.body);
}
