//! The ACK for a failed INVITE.

use smiths_sip::txn::build_non_ok_ack;

const INVITE: &[u8] = "INVITE sip:alice@127.0.0.1:5060 SIP/2.0\r\n\
      Via: SIP/2.0/UDP 10.0.0.1:5060;branch=z9hG4bK-inv-1\r\n\
      From: <sip:bob@10.0.0.1>;tag=bob-tag\r\n\
      To: <sip:alice@127.0.0.1>\r\n\
      Call-ID: cid-ack-1@10.0.0.1\r\n\
      CSeq: 1 INVITE\r\n\
      Max-Forwards: 70\r\n\
      Contact: <sip:bob@10.0.0.1>\r\n\
      Content-Type: application/sdp\r\n\
      Content-Length: 0\r\n\r\n".as_bytes();

const RESPONSE_404: &[u8] = "SIP/2.0 404 Not Found\r\n\
      Via: SIP/2.0/UDP 10.0.0.1:5060;branch=z9hG4bK-inv-1;received=10.0.0.1\r\n\
      From: <sip:bob@10.0.0.1>;tag=bob-tag\r\n\
      To: <sip:alice@127.0.0.1>;tag=srv-tag-404\r\n\
      Call-ID: cid-ack-1@10.0.0.1\r\n\
      CSeq: 1 INVITE\r\n\
      Content-Length: 0\r\n\r\n".as_bytes();

#[test]
fn builds_ack_with_correct_topline_and_headers() {
    let ack = build_non_ok_ack(INVITE, RESPONSE_404).expect("build_non_ok_ack");
    let text = std::str::from_utf8(&ack).unwrap();
    // Request line
    assert!(text.starts_with("ACK sip:alice@127.0.0.1:5060 SIP/2.0\r\n"));
    // Same Via branch as INVITE (section 17.1.1.3)
    assert!(text.contains("Via: SIP/2.0/UDP 10.0.0.1:5060;branch=z9hG4bK-inv-1\r\n"));
    // From preserved
    assert!(text.contains("From: <sip:bob@10.0.0.1>;tag=bob-tag\r\n"));
    // To taken from response (with server tag)
    assert!(text.contains("To: <sip:alice@127.0.0.1>;tag=srv-tag-404\r\n"));
    // Call-ID preserved
    assert!(text.contains("Call-ID: cid-ack-1@10.0.0.1\r\n"));
    // CSeq number preserved, method flipped to ACK
    assert!(text.contains("CSeq: 1 ACK\r\n"));
    // Content-Length: 0 + empty body
    assert!(text.contains("Content-Length: 0\r\n\r\n"));
    // Should NOT have Contact (ACK for non-2xx has no Contact)
    assert!(!text.contains("Contact:"));
}

#[test]
fn returns_none_on_unparseable_invite() {
    assert!(build_non_ok_ack(b"garbage", RESPONSE_404).is_none());
}

#[test]
fn returns_none_when_response_has_no_to_header() {
    let bad = b"SIP/2.0 404 Not Found\r\n\r\n";
    assert!(build_non_ok_ack(INVITE, bad).is_none());
}

#[test]
fn preserves_route_headers() {
    let invite_with_route = "INVITE sip:alice@127.0.0.1 SIP/2.0\r\n\
      Via: SIP/2.0/UDP 10.0.0.1;branch=z9hG4bK-r\r\n\
      Route: <sip:proxy1.example.com;lr>\r\n\
      Route: <sip:proxy2.example.com;lr>\r\n\
      From: <sip:b@10.0.0.1>;tag=t\r\n\
      To: <sip:a@127.0.0.1>\r\n\
      Call-ID: cid-r\r\n\
      CSeq: 2 INVITE\r\n\
      Max-Forwards: 70\r\n\
      Content-Length: 0\r\n\r\n".as_bytes();
    let ack = build_non_ok_ack(invite_with_route, RESPONSE_404).unwrap();
    let text = std::str::from_utf8(&ack).unwrap();
    assert!(text.contains("Route: <sip:proxy1.example.com;lr>"));
    assert!(text.contains("Route: <sip:proxy2.example.com;lr>"));
}
