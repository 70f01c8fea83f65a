//! Signalling frames of browsers.

use smiths_sip::webrtc::{
    error_frame, frame_step, FrameStep, WebRtcHandlerError, WebRtcListenError, WebRtcSession,
    WebRtcSessionHandler, WebSocketSignalingListener,
};
use smiths_sip::webtransport::{
    NullWebTransportListener, SessionIdAllocator, WebTransportSessionId, WtListenError, WtSignal,
    WtSignalError, WtSignalKind,
};

struct EchoHandler;

impl WebRtcSessionHandler for EchoHandler {
    fn handle_offer(
        &self,
        _session: WebTransportSessionId,
        _sdp_offer: &str,
    ) -> Result<String, WebRtcHandlerError> {
        Ok("v=0\r\no=- 1 1 IN IP4 127.0.0.1\r\ns=-\r\nt=0 0\r\n".into())
    }
}

struct RefusingHandler;

impl WebRtcSessionHandler for RefusingHandler {
    fn handle_offer(
        &self,
        _session: WebTransportSessionId,
        _sdp_offer: &str,
    ) -> Result<String, WebRtcHandlerError> {
        Err(WebRtcHandlerError::OfferRejected("no codec".into()))
    }

    fn handle_ice_candidate(
        &self,
        _session: WebTransportSessionId,
        _candidate: &str,
        _sdp_m_line_index: u16,
    ) -> Result<(), WebRtcHandlerError> {
        Err(WebRtcHandlerError::Resource("full".into()))
    }
}

#[test]
fn session_init_returns_ack_with_monotonic_id() {
    let mut l = WebSocketSignalingListener::new(EchoHandler);
    let mut sess: Option<WebRtcSession> = None;
    let init = WtSignal::SessionInit {
        tag: Some("demo".into()),
    };
    let reply = l.handle_frame(&mut sess, Ok(init)).unwrap();
    match reply {
        WtSignal::SessionAck {
            session_id,
            protocol_version,
        } => {
            assert_eq!(session_id.0, 0);
            assert_eq!(protocol_version, 1);
            assert_eq!(sess.as_ref().unwrap().id, session_id);
        }
        other => panic!("expected session-ack, got {:?}", other.kind()),
    }
}

#[test]
fn offer_routes_through_handler_and_returns_answer() {
    let mut l = WebSocketSignalingListener::new(EchoHandler);
    let mut sess: Option<WebRtcSession> = None;
    l.handle_frame(&mut sess, Ok(WtSignal::SessionInit { tag: None }));
    let id = sess.as_ref().unwrap().id;
    let offer = WtSignal::Offer {
        session_id: id,
        sdp: "v=0\r\n".into(),
    };
    let reply = l.handle_frame(&mut sess, Ok(offer)).unwrap();
    match reply {
        WtSignal::Answer { session_id, sdp } => {
            assert_eq!(session_id, id);
            assert!(sdp.starts_with("v=0"));
        }
        other => panic!("expected answer, got {:?}", other.kind()),
    }
}

#[test]
fn offer_with_wrong_session_id_yields_error() {
    let mut l = WebSocketSignalingListener::new(EchoHandler);
    let mut sess: Option<WebRtcSession> = None;
    l.handle_frame(&mut sess, Ok(WtSignal::SessionInit { tag: None }));
    let offer = WtSignal::Offer {
        session_id: WebTransportSessionId(42),
        sdp: "v=0\r\n".into(),
    };
    let reply = l.handle_frame(&mut sess, Ok(offer)).unwrap();
    assert_eq!(reply.kind(), WtSignalKind::Error);
}

#[test]
fn echo_frame_is_mirrored_back() {
    let mut l = WebSocketSignalingListener::new(EchoHandler);
    let mut sess: Option<WebRtcSession> = None;
    l.handle_frame(&mut sess, Ok(WtSignal::SessionInit { tag: None }));
    let id = sess.as_ref().unwrap().id;
    let echo = WtSignal::Echo {
        session_id: id,
        payload_b64: "aGVsbG8=".into(),
    };
    let reply = l.handle_frame(&mut sess, Ok(echo.clone())).unwrap();
    assert_eq!(reply, echo);
}

#[test]
fn malformed_frame_yields_error_frame() {
    let mut l = WebSocketSignalingListener::new(EchoHandler);
    let mut sess: Option<WebRtcSession> = None;
    let bad = WtSignalError::Decode("key must be a string".into());
    let reply = l.handle_frame(&mut sess, Err(bad)).unwrap();
    match reply {
        WtSignal::Error {
            session_id,
            code,
            reason,
        } => {
            assert_eq!(session_id, None);
            assert_eq!(code, "malformed-frame");
            assert_eq!(reason, "webtransport signal decode: key must be a string");
        }
        other => panic!("expected error frame, got {:?}", other.kind()),
    }
}

#[test]
fn refusals_of_the_handler_are_reported() {
    let mut l = WebSocketSignalingListener::new(RefusingHandler);
    let mut sess: Option<WebRtcSession> = None;
    l.handle_frame(&mut sess, Ok(WtSignal::SessionInit { tag: None }));
    let id = sess.as_ref().unwrap().id;
    let reply = l.handle_frame(
        &mut sess,
        Ok(WtSignal::Offer {
            session_id: id,
            sdp: "v=0".into(),
        }),
    );
    assert_eq!(
        reply,
        Some(error_frame(
            Some(id),
            "offer-rejected",
            "offer rejected: no codec".into()
        ))
    );
    let candidate = WtSignal::IceCandidate {
        session_id: id,
        candidate: "c".into(),
        sdp_m_line_index: 0,
    };
    let reply = l.handle_frame(&mut sess, Ok(candidate.clone()));
    assert_eq!(
        reply,
        Some(error_frame(
            Some(id),
            "ice-rejected",
            "resource exhausted: full".into()
        ))
    );
    let mut kind = WebSocketSignalingListener::new(EchoHandler);
    assert_eq!(kind.handle_frame(&mut sess, Ok(candidate)), None);
    let bye = WtSignal::Bye {
        session_id: id,
        reason: None,
    };
    assert_eq!(kind.handle_frame(&mut sess, Ok(bye)), None);
    assert!(kind.bind("127.0.0.1:0").is_err());
}

#[test]
fn frames_of_the_engine_are_ignored() {
    let mut sess: Option<WebRtcSession> = None;
    let mut ids = SessionIdAllocator::default();
    let id = WebTransportSessionId(0);
    for frame in [
        WtSignal::SessionAck {
            session_id: id,
            protocol_version: 1,
        },
        WtSignal::Answer {
            session_id: id,
            sdp: String::new(),
        },
        WtSignal::IceEnd { session_id: id },
        error_frame(None, "x", "y".into()),
    ] {
        assert!(matches!(
            frame_step(&mut sess, &mut ids, frame),
            FrameStep::Silent
        ));
    }
    assert!(sess.is_none());
}

#[test]
fn frames_name_their_kind_and_session() {
    let id = WebTransportSessionId(42);
    let offer = WtSignal::Offer {
        session_id: id,
        sdp: "v=0\r\no=- 1 1 IN IP4 127.0.0.1\r\n".into(),
    };
    let answer = WtSignal::Answer {
        session_id: id,
        sdp: "v=0\r\no=- 2 2 IN IP4 127.0.0.1\r\n".into(),
    };
    assert_eq!(offer.session_id(), Some(id));
    assert_eq!(answer.session_id(), Some(id));
    assert_eq!(offer.kind(), WtSignalKind::Offer);
    assert_eq!(answer.kind(), WtSignalKind::Answer);
    assert_eq!(WtSignalKind::IceCandidate.as_str(), "ice-candidate");
    assert_eq!(WtSignalKind::SessionInit.as_str(), "session-init");
    assert_eq!(id.to_text(), "wt-42");
    let early = error_frame(None, "auth-failed", "token rejected".into());
    assert_eq!(early.session_id(), None);
}

#[test]
fn session_id_allocator_issues_monotonic_ids() {
    let mut alloc = SessionIdAllocator::default();
    let a = alloc.fresh();
    let b = alloc.fresh();
    let c = alloc.fresh();
    assert_eq!(a.0, 0);
    assert_eq!(b.0, 1);
    assert_eq!(c.0, 2);
}

#[test]
fn null_listener_refuses_bind_with_scaffold_error() {
    let l = NullWebTransportListener::new();
    let err = l.bind("127.0.0.1:0").unwrap_err();
    assert!(matches!(err, WtListenError::ScaffoldOnly));
    assert_eq!(
        err.message(),
        "webtransport runtime not yet wired (scaffold only)"
    );
}

#[test]
fn listener_errors_name_their_kind() {
    assert_eq!(WtListenError::Io("x".into()).message(), "webtransport bind I/O: x");
    assert_eq!(WtListenError::Tls("x".into()).message(), "webtransport TLS config: x");
    assert_eq!(WebRtcListenError::Io("x".into()).message(), "webrtc bind I/O: x");
    assert_eq!(WebRtcListenError::Tls("x".into()).message(), "webrtc TLS config: x");
    assert_eq!(
        WtSignalError::Encode("x".into()).message(),
        "webtransport signal encode: x"
    );
    assert_eq!(WebRtcHandlerError::Other("x".into()).message(), "x");
}

struct RepeatingHandler;

impl WebRtcSessionHandler for RepeatingHandler {
    fn handle_offer(
        &self,
        session: WebTransportSessionId,
        sdp_offer: &str,
    ) -> Result<String, WebRtcHandlerError> {
        Ok(format!("{} {sdp_offer}", session.0))
    }

    fn handle_ice_candidate(
        &self,
        session: WebTransportSessionId,
        candidate: &str,
        sdp_m_line_index: u16,
    ) -> Result<(), WebRtcHandlerError> {
        Err(WebRtcHandlerError::Other(format!(
            "{} {candidate} {sdp_m_line_index}",
            session.0
        )))
    }
}

#[test]
fn handlers_are_asked_about_the_frame_that_came() {
    let mut l = WebSocketSignalingListener::new(RepeatingHandler);
    let mut sess: Option<WebRtcSession> = None;
    l.handle_frame(&mut sess, Ok(WtSignal::SessionInit { tag: None }));
    l.handle_frame(&mut sess, Ok(WtSignal::SessionInit { tag: None }));
    let session_id = WebTransportSessionId(1);
    let offer = WtSignal::Offer { session_id, sdp: "v=0".into() };
    assert_eq!(
        l.handle_frame(&mut sess, Ok(offer)),
        Some(WtSignal::Answer { session_id, sdp: "1 v=0".into() })
    );
    let ice = WtSignal::IceCandidate { session_id, candidate: "c".into(), sdp_m_line_index: 3 };
    assert_eq!(
        l.handle_frame(&mut sess, Ok(ice)),
        Some(error_frame(Some(session_id), "ice-rejected", "1 c 3".into()))
    );
}
