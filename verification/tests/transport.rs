//! Framing, connection limits, proxies.

use smiths_sip::transport::framing::{content_length, take_one_message, FrameOutcome};
use smiths_sip::transport::proxy::{
    connector_from_config, http_connect_request, socks5_rep_label, Connector, HandshakeStep,
    HttpConnectReply, PeerAddr, ProxyMode, SipProxyConfig, Socks5Handshake,
};
use smiths_sip::transport::stream::{
    drain_messages, millis_of, read_budget, Activity, ConnLimits,
};
use smiths_sip::transport::{local_ip_plan, LocalIpPlan, TransportKind};

fn mk_buf(data: &[u8]) -> Vec<u8> {
    data.to_vec()
}

// -- framing -----------------------------------------------------------

#[test]
fn frames_single_options_request() {
    let raw = b"OPTIONS sip:a@b SIP/2.0\r\nContent-Length: 0\r\n\r\n";
    let mut buf = mk_buf(raw);
    match take_one_message(&mut buf) {
        FrameOutcome::Complete(bytes) => assert_eq!(&bytes[..], raw),
        _ => panic!("expected Complete"),
    }
    assert!(buf.is_empty());
}

#[test]
fn frames_request_with_sdp_body() {
    let body = "v=0\r\no=x 1 1 IN IP4 127.0.0.1\r\ns=-\r\n";
    let raw = format!(
        "INVITE sip:a@b SIP/2.0\r\nContent-Length: {}\r\n\r\n{body}",
        body.len()
    );
    let mut buf = mk_buf(raw.as_bytes());
    match take_one_message(&mut buf) {
        FrameOutcome::Complete(bytes) => assert_eq!(&bytes[..], raw.as_bytes()),
        _ => panic!("expected Complete"),
    }
}

#[test]
fn partial_headers_returns_partial() {
    let raw = b"OPTIONS sip:a@b SIP/2.0\r\nContent-Length: 0\r\n";
    let mut buf = mk_buf(raw);
    assert!(matches!(take_one_message(&mut buf), FrameOutcome::Partial));
}

#[test]
fn partial_body_returns_partial() {
    let raw = b"INVITE sip:a@b SIP/2.0\r\nContent-Length: 20\r\n\r\nshort";
    let mut buf = mk_buf(raw);
    assert!(matches!(take_one_message(&mut buf), FrameOutcome::Partial));
}

#[test]
fn missing_content_length_treated_as_zero() {
    let raw = b"OPTIONS sip:a@b SIP/2.0\r\nVia: SIP/2.0/TCP a;branch=z\r\n\r\n";
    let mut buf = mk_buf(raw);
    match take_one_message(&mut buf) {
        FrameOutcome::Complete(bytes) => assert_eq!(&bytes[..], raw),
        _ => panic!("expected Complete"),
    }
}

#[test]
fn bad_content_length_rejected() {
    let raw = b"OPTIONS sip:a@b SIP/2.0\r\nContent-Length: NaN\r\n\r\n";
    let mut buf = mk_buf(raw);
    assert!(matches!(take_one_message(&mut buf), FrameOutcome::BadLength));
}

#[test]
fn back_to_back_messages_all_extracted() {
    let raw1 = b"OPTIONS sip:a@b SIP/2.0\r\nContent-Length: 0\r\n\r\n";
    let raw2 = b"OPTIONS sip:c@d SIP/2.0\r\nContent-Length: 0\r\n\r\n";
    let mut buf = mk_buf(raw1);
    buf.extend_from_slice(raw2);
    let FrameOutcome::Complete(m1) = take_one_message(&mut buf) else {
        panic!()
    };
    let FrameOutcome::Complete(m2) = take_one_message(&mut buf) else {
        panic!()
    };
    assert_eq!(&m1[..], raw1);
    assert_eq!(&m2[..], raw2);
    assert!(buf.is_empty());
}

#[test]
fn compact_content_length_header_name_respected() {
    let raw = b"INVITE sip:a@b SIP/2.0\r\nl: 3\r\n\r\nabc";
    let mut buf = mk_buf(raw);
    match take_one_message(&mut buf) {
        FrameOutcome::Complete(bytes) => assert_eq!(&bytes[..], raw),
        _ => panic!("expected Complete"),
    }
}

#[test]
fn messages_above_the_cap_overflow() {
    let mut buf = vec![b'x'; 65_536];
    assert!(matches!(take_one_message(&mut buf), FrameOutcome::Overflow));
    let raw = b"INVITE sip:a@b SIP/2.0\r\nContent-Length: 70000\r\n\r\n";
    let mut buf = mk_buf(raw);
    assert!(matches!(take_one_message(&mut buf), FrameOutcome::Overflow));
    let raw = format!(
        "INVITE sip:a@b SIP/2.0\r\nContent-Length: {}\r\n\r\n",
        usize::MAX
    );
    let mut buf = mk_buf(raw.as_bytes());
    assert!(matches!(take_one_message(&mut buf), FrameOutcome::Overflow));
}

#[test]
fn complete_messages_come_off_a_buffer_above_the_cap() {
    let first = b"OPTIONS sip:a@b SIP/2.0\r\nContent-Length: 3\r\n\r\nabc";
    let mut buf = first.to_vec();
    buf.extend_from_slice(&vec![b'x'; 65_536]);
    match take_one_message(&mut buf) {
        FrameOutcome::Complete(bytes) => assert_eq!(&bytes[..], first),
        other => panic!("{other:?}"),
    }
    assert_eq!(buf.len(), 65_536);
    assert!(matches!(take_one_message(&mut buf), FrameOutcome::Overflow));

    let body = "y".repeat(40_000);
    let big = format!("INVITE sip:a@b SIP/2.0\r\nl: 40000\r\n\r\n{body}");
    let mut buf = format!("{big}{big}").into_bytes();
    let (messages, open) = drain_messages(&mut buf);
    assert_eq!(messages.len(), 2);
    assert!(open && buf.is_empty());
}

#[test]
fn content_length_is_read_from_its_header() {
    assert_eq!(content_length(b"A: b\r\nContent-Length:  12 \r\n"), Some(12));
    assert_eq!(content_length(b"A: b\r\n"), Some(0));
    assert_eq!(content_length(b"Content-Length: -1\r\n"), None);
}

#[test]
fn draining_yields_every_message_and_keeps_the_rest() {
    let mut buf = b"A sip:a SIP/2.0\r\n\r\nB sip:b SIP/2.0\r\nl: 2\r\n\r\nhiC sip".to_vec();
    let (messages, go_on) = drain_messages(&mut buf);
    assert!(go_on);
    assert_eq!(messages.len(), 2);
    assert_eq!(messages[0], b"A sip:a SIP/2.0\r\n\r\n".to_vec());
    assert_eq!(messages[1], b"B sip:b SIP/2.0\r\nl: 2\r\n\r\nhi".to_vec());
    assert_eq!(buf, b"C sip".to_vec());
    let mut bad = b"A sip:a SIP/2.0\r\nl: x\r\n\r\n".to_vec();
    let (messages, go_on) = drain_messages(&mut bad);
    assert!(messages.is_empty());
    assert!(!go_on);
}

// -- connections -------------------------------------------------------

#[test]
fn kind_reliability_and_via_tokens() {
    assert!(!TransportKind::Udp.is_reliable());
    assert!(TransportKind::Tcp.is_reliable());
    assert!(TransportKind::Tls.is_reliable());
    assert_eq!(TransportKind::Udp.via_token(), "UDP");
    assert_eq!(TransportKind::Tcp.via_token(), "TCP");
    assert_eq!(TransportKind::Tls.via_token(), "TLS");
}

#[test]
fn concrete_bind_ip_is_returned_verbatim() {
    match local_ip_plan("192.0.2.10", false, false) {
        LocalIpPlan::Bound(ip) => assert_eq!(ip, "192.0.2.10"),
        other => panic!("{other:?}"),
    }
}

#[test]
fn wildcard_binds_ask_the_routing_table() {
    match local_ip_plan("0.0.0.0", true, false) {
        LocalIpPlan::AskRoute { unspecified, loopback } => {
            assert_eq!(unspecified, "0.0.0.0");
            assert_eq!(loopback, "127.0.0.1");
        }
        other => panic!("{other:?}"),
    }
    match local_ip_plan("0.0.0.0", true, true) {
        LocalIpPlan::AskRoute { unspecified, loopback } => {
            assert_eq!(unspecified, "::");
            assert_eq!(loopback, "::1");
        }
        other => panic!("{other:?}"),
    }
}

#[test]
fn limits_admit_below_cap_and_unlimited_at_zero() {
    let l = ConnLimits {
        max_connections: 2,
        idle_timeout: None,
    };
    assert!(l.admits(0));
    assert!(l.admits(1));
    assert!(!l.admits(2));
    let unlimited = ConnLimits {
        max_connections: 0,
        idle_timeout: None,
    };
    assert!(unlimited.admits(usize::MAX));
}

#[test]
fn defaults_are_sane() {
    let d = ConnLimits::default();
    assert_eq!(d.max_connections, 1024);
    assert_eq!(d.idle_timeout, Some(5 * 60 * 1000));
}

#[test]
fn activity_clock_resets_on_touch() {
    let mut a = Activity::new();
    assert!(a.idle_at(5) >= 5);
    a.touch_at(5);
    assert!(a.idle_at(5) < 5);
    let now = a.touch();
    assert_eq!(a.idle_at(now), 0);
    assert_eq!(a.idle_at(now + 7), 7);
    assert!(a.idle_for() < 1000);
}

#[test]
fn reads_wait_for_what_is_left_of_the_idle_timeout() {
    assert_eq!(read_budget(Some(100), 30), Some(70));
    assert_eq!(read_budget(Some(100), 100), None);
    assert_eq!(read_budget(None, 100), Some(u64::MAX));
}

// -- proxies -----------------------------------------------------------

fn peer(octets: [u8; 4]) -> PeerAddr {
    PeerAddr::V4 { octets, port: 5060 }
}

fn sent(step: HandshakeStep) -> (Vec<u8>, usize) {
    match step {
        HandshakeStep::Send { bytes, want } => (bytes, want),
        other => panic!("{other:?}"),
    }
}

fn wanted(step: HandshakeStep) -> usize {
    match step {
        HandshakeStep::Read { want } => want,
        other => panic!("{other:?}"),
    }
}

fn failed(step: HandshakeStep) -> String {
    match step {
        HandshakeStep::Failed(m) => m,
        other => panic!("{other:?}"),
    }
}

#[test]
fn socks5_no_auth_completes_and_streams_appdata() {
    let (mut h, first) = Socks5Handshake::start(None, peer([10, 0, 0, 1]));
    let (greeting, want) = sent(first);
    assert_eq!(greeting, [0x05, 1, 0x00]);
    assert_eq!(want, 2);
    let (connect, want) = sent(h.on_bytes(&[0x05, 0x00]));
    assert_eq!(connect, [0x05, 0x01, 0x00, 0x01, 10, 0, 0, 1, 0x13, 0xc4]);
    assert_eq!(want, 4);
    let rest = wanted(h.on_bytes(&[0x05, 0x00, 0x00, 0x01]));
    assert_eq!(rest, 6);
    // The reply ends here: the next byte is the peer's.
    assert!(matches!(h.on_bytes(&[0, 0, 0, 0, 0, 0]), HandshakeStep::Open));
}

#[test]
fn socks5_user_pass_auth_round_trips() {
    let creds = Some(("alice".to_owned(), "s3cret".to_owned()));
    let (mut h, first) = Socks5Handshake::start(creds, peer([127, 0, 0, 1]));
    let (greeting, _) = sent(first);
    assert!(greeting[2..].contains(&0x02));
    let (auth, want) = sent(h.on_bytes(&[0x05, 0x02]));
    let mut expected = vec![0x01, 5];
    expected.extend_from_slice(b"alice");
    expected.push(6);
    expected.extend_from_slice(b"s3cret");
    assert_eq!(auth, expected);
    assert_eq!(want, 2);
    let (connect, _) = sent(h.on_bytes(&[0x01, 0x00]));
    assert_eq!(&connect[..4], &[0x05, 0x01, 0x00, 0x01]);
    let rest = wanted(h.on_bytes(&[0x05, 0x00, 0x00, 0x01]));
    assert!(matches!(h.on_bytes(&vec![0; rest]), HandshakeStep::Open));
}

#[test]
fn socks5_refused_surfaces_clean_error() {
    let (mut h, _) = Socks5Handshake::start(None, peer([127, 0, 0, 1]));
    let err = failed(h.on_bytes(&[0x05, 0xff]));
    assert!(err.contains("refused every offered method"), "{err}");
}

#[test]
fn socks5_replies_with_names_and_v6_addresses_are_read_to_their_end() {
    let v6 = PeerAddr::V6 { octets: [1; 16], port: 80 };
    let (mut h, _) = Socks5Handshake::start(None, v6);
    let (connect, _) = sent(h.on_bytes(&[5, 0]));
    assert_eq!(connect.len(), 4 + 16 + 2);
    assert_eq!(connect[3], 4);
    assert_eq!(wanted(h.on_bytes(&[5, 0, 0, 3])), 1);
    assert_eq!(wanted(h.on_bytes(&[9])), 11);
    assert!(matches!(h.on_bytes(&[0; 11]), HandshakeStep::Open));

    let (mut h, _) = Socks5Handshake::start(None, peer([1, 2, 3, 4]));
    let _ = h.on_bytes(&[5, 0]);
    assert_eq!(wanted(h.on_bytes(&[5, 0, 0, 4])), 18);

    let (mut h, _) = Socks5Handshake::start(None, peer([1, 2, 3, 4]));
    let _ = h.on_bytes(&[5, 0]);
    let err = failed(h.on_bytes(&[5, 5, 0, 1]));
    assert!(err.contains("connection refused"), "{err}");
}

#[test]
fn socks5_codes_have_names() {
    assert_eq!(socks5_rep_label(1), "general failure");
    assert_eq!(socks5_rep_label(8), "address type not supported");
    assert_eq!(socks5_rep_label(42), "unknown");
}

#[test]
fn http_connect_200_establishes_tunnel() {
    let req = String::from_utf8(http_connect_request("127.0.0.1:5060", &None)).unwrap();
    assert!(req.starts_with("CONNECT 127.0.0.1:5060 HTTP/1.1"));
    assert!(req.contains("Host: 127.0.0.1:5060"));
    assert!(req.ends_with("\r\n\r\n"));
    let mut reply = HttpConnectReply::new();
    let answer = b"HTTP/1.1 200 Connection established\r\n\r\n";
    for b in &answer[..answer.len() - 1] {
        assert_eq!(wanted(reply.on_byte(*b)), 1);
    }
    assert!(matches!(reply.on_byte(b'\n'), HandshakeStep::Open));
}

#[test]
fn http_connect_basic_auth_header_present() {
    let creds = Some(("alice".to_owned(), "s3cret".to_owned()));
    let req = String::from_utf8(http_connect_request("127.0.0.1:5060", &creds)).unwrap();
    assert!(req.contains("Proxy-Authorization: Basic YWxpY2U6czNjcmV0\r\n"));
}

#[test]
fn http_connect_non_2xx_surfaces_error() {
    let mut reply = HttpConnectReply::new();
    let answer = b"HTTP/1.1 407 Proxy Authentication Required\r\n\r\n";
    for b in &answer[..answer.len() - 1] {
        assert_eq!(wanted(reply.on_byte(*b)), 1);
    }
    let err = failed(reply.on_byte(b'\n'));
    assert!(err.contains("407"), "{err}");
}

#[test]
fn http_connect_answers_are_bounded_and_must_end() {
    let mut reply = HttpConnectReply::new();
    for _ in 0..8192 {
        assert_eq!(wanted(reply.on_byte(b'x')), 1);
    }
    let err = failed(reply.on_byte(b'x'));
    assert!(err.contains("8 KiB"), "{err}");
    let err = failed(HttpConnectReply::new().on_close());
    assert!(err.contains("closed"), "{err}");
}

#[test]
fn connector_from_config_handles_every_mode() {
    let none_cfg = SipProxyConfig {
        mode: ProxyMode::Direct,
        ..SipProxyConfig::default()
    };
    assert_eq!(connector_from_config(&none_cfg).unwrap().label(), "direct");

    let socks_no_addr = SipProxyConfig {
        mode: ProxyMode::Socks5,
        ..SipProxyConfig::default()
    };
    assert!(connector_from_config(&socks_no_addr).is_err());

    let socks_ok = SipProxyConfig {
        mode: ProxyMode::Socks5,
        address: Some("127.0.0.1:9050".to_owned()),
        ..SipProxyConfig::default()
    };
    assert_eq!(connector_from_config(&socks_ok).unwrap().label(), "socks5");

    let http_ok = SipProxyConfig {
        mode: ProxyMode::HttpConnect,
        address: Some("127.0.0.1:3128".to_owned()),
        ..SipProxyConfig::default()
    };
    assert_eq!(
        connector_from_config(&http_ok).unwrap().label(),
        "http-connect"
    );
}

#[test]
fn half_of_a_credential_is_none() {
    let cfg = SipProxyConfig {
        mode: ProxyMode::Socks5,
        address: Some("127.0.0.1:9050".to_owned()),
        username: Some("alice".to_owned()),
        ..SipProxyConfig::default()
    };
    match connector_from_config(&cfg).unwrap() {
        Connector::Socks5(c) => assert!(c.credentials.is_none()),
        other => panic!("{other:?}"),
    }
}

#[test]
fn only_a_whole_2xx_opens_the_tunnel() {
    for (code, opens) in [("204", true), ("2", false), ("20", false), ("2abc", false), ("2000", false)] {
        let mut reply = HttpConnectReply::new();
        let answer = format!("HTTP/1.1 {code} x\r\n\r\n").into_bytes();
        for b in &answer[..answer.len() - 1] {
            assert_eq!(wanted(reply.on_byte(*b)), 1);
        }
        assert_eq!(matches!(reply.on_byte(b'\n'), HandshakeStep::Open), opens, "{code}");
    }
}

#[test]
fn clock_readings_are_whole_milliseconds() {
    assert_eq!(millis_of(999_999), 0);
    assert_eq!(millis_of(1_999_999), 1);
    assert_eq!(millis_of(5_000_000_000), 5_000);
}
