//! Signalling sessions of browsers: what each frame leads to.

use vstd::prelude::*;

use crate::text;
use crate::webtransport::{
    signal_error_text, SessionIdAllocator, SignalView, WebTransportSessionId, WtSignal,
    WtSignalError,
};

verus! {

/// What decides about offers and candidates.
pub trait WebRtcSessionHandler {
    /// Answers an SDP offer.
    fn handle_offer(&self, session: WebTransportSessionId, sdp_offer: &str) -> (r: Result<
        String,
        WebRtcHandlerError,
    >);

    /// Takes an ICE candidate; ignored by default.
    fn handle_ice_candidate(
        &self,
        session: WebTransportSessionId,
        candidate: &str,
        sdp_m_line_index: u16,
    ) -> (r: Result<(), WebRtcHandlerError>)
        default_ensures
            r == Ok::<(), WebRtcHandlerError>(()),
    {
        let _unused = (session, candidate, sdp_m_line_index);
        Ok(())
    }

    /// The client left; ignored by default.
    fn handle_bye(&self, session: WebTransportSessionId) {
        let _unused = session;
    }
}

/// Why a handler refused.
#[derive(Debug)]
pub enum WebRtcHandlerError {
    /// The offer cannot be met.
    OfferRejected(String),
    /// There is no capacity.
    Resource(String),
    /// Anything else.
    Other(String),
}

/// The message of an error.
pub open spec fn handler_error_text(e: WebRtcHandlerError) -> Seq<char> {
    match e {
        WebRtcHandlerError::OfferRejected(m) => "offer rejected: "@ + m@,
        WebRtcHandlerError::Resource(m) => "resource exhausted: "@ + m@,
        WebRtcHandlerError::Other(m) => m@,
    }
}

impl WebRtcHandlerError {
    /// The message of the error.
    pub fn message(&self) -> (r: String)
        ensures
            r@ == handler_error_text(*self),
    {
        match self {
            WebRtcHandlerError::OfferRejected(m) => {
                let mut s: String = "offer rejected: ".to_owned();
                s.append(m);
                s
            },
            WebRtcHandlerError::Resource(m) => {
                let mut s: String = "resource exhausted: ".to_owned();
                s.append(m);
                s
            },
            WebRtcHandlerError::Other(m) => m.clone(),
        }
    }
}

/// Why a listener could not start.
#[derive(Debug)]
pub enum WebRtcListenError {
    /// I/O failed.
    Io(String),
    /// The TLS settings were refused.
    Tls(String),
}

impl WebRtcListenError {
    /// The message of the error.
    pub fn message(&self) -> (r: String)
        ensures
            r@ == match *self {
                WebRtcListenError::Io(m) => "webrtc bind I/O: "@ + m@,
                WebRtcListenError::Tls(m) => "webrtc TLS config: "@ + m@,
            },
    {
        match self {
            WebRtcListenError::Io(m) => {
                let mut s: String = "webrtc bind I/O: ".to_owned();
                s.append(m);
                s
            },
            WebRtcListenError::Tls(m) => {
                let mut s: String = "webrtc TLS config: ".to_owned();
                s.append(m);
                s
            },
        }
    }
}

/// A session of one connection.
#[derive(Debug)]
pub struct WebRtcSession {
    /// Its identifier.
    pub id: WebTransportSessionId,
    /// The tag that the client gave it.
    pub tag: Option<String>,
}

/// Model of a connection's session.
pub open spec fn session_view(s: Option<WebRtcSession>) -> Option<
    (WebTransportSessionId, Option<Seq<char>>),
> {
    match s {
        Some(s) => Some((s.id, text::text_opt(s.tag))),
        None => None,
    }
}

/// What a frame calls for.
#[derive(Debug)]
pub enum FrameStep {
    /// Send this frame.
    Reply(WtSignal),
    /// Ask the handler to answer an offer.
    AskOffer {
        /// Session.
        session_id: WebTransportSessionId,
        /// SDP offer.
        sdp: String,
    },
    /// Hand a candidate to the handler.
    AskIce {
        /// Session.
        session_id: WebTransportSessionId,
        /// Candidate.
        candidate: String,
        /// Media line.
        sdp_m_line_index: u16,
    },
    /// Tell the handler that the client left.
    TellBye {
        /// Session.
        session_id: WebTransportSessionId,
    },
    /// Nothing.
    Silent,
}

/// Model of a [`FrameStep`].
#[verifier::ext_equal]
pub enum FrameStepView {
    Reply(SignalView),
    AskOffer { session_id: WebTransportSessionId, sdp: Seq<char> },
    AskIce { session_id: WebTransportSessionId, candidate: Seq<char>, sdp_m_line_index: u16 },
    TellBye { session_id: WebTransportSessionId },
    Silent,
}

impl View for FrameStep {
    type V = FrameStepView;

    open spec fn view(&self) -> FrameStepView {
        match *self {
            FrameStep::Reply(s) => FrameStepView::Reply(s@),
            FrameStep::AskOffer { session_id, sdp } => FrameStepView::AskOffer {
                session_id,
                sdp: sdp@,
            },
            FrameStep::AskIce { session_id, candidate, sdp_m_line_index } => FrameStepView::AskIce {
                session_id,
                candidate: candidate@,
                sdp_m_line_index,
            },
            FrameStep::TellBye { session_id } => FrameStepView::TellBye { session_id },
            FrameStep::Silent => FrameStepView::Silent,
        }
    }
}

/// An error frame.
pub open spec fn error_view(
    session_id: Option<WebTransportSessionId>,
    code: Seq<char>,
    reason: Seq<char>,
) -> SignalView {
    SignalView::Error { session_id, code, reason }
}

/// What a frame calls for, on a connection with the given session. Only an
/// offer must name the session; frames that the engine alone sends are ignored.
pub open spec fn plan(
    session: Option<(WebTransportSessionId, Option<Seq<char>>)>,
    fresh: u64,
    frame: SignalView,
) -> FrameStepView {
    match frame {
        SignalView::SessionInit { tag } => FrameStepView::Reply(
            SignalView::SessionAck { session_id: WebTransportSessionId(fresh), protocol_version: 1 },
        ),
        SignalView::Offer { session_id, sdp } => if session is Some && (session->0).0
            == session_id {
            FrameStepView::AskOffer { session_id, sdp }
        } else {
            FrameStepView::Reply(
                error_view(
                    Some(session_id),
                    "unknown-session"@,
                    "offer frame's session_id doesn't match session-init"@,
                ),
            )
        },
        SignalView::IceCandidate { session_id, candidate, sdp_m_line_index } =>
        FrameStepView::AskIce { session_id, candidate, sdp_m_line_index },
        SignalView::Echo { session_id, payload_b64 } => FrameStepView::Reply(frame),
        SignalView::Bye { session_id, reason } => FrameStepView::TellBye { session_id },
        _ => FrameStepView::Silent,
    }
}

/// The connection's session after a frame.
pub open spec fn session_after(
    session: Option<(WebTransportSessionId, Option<Seq<char>>)>,
    fresh: u64,
    frame: SignalView,
) -> Option<(WebTransportSessionId, Option<Seq<char>>)> {
    match frame {
        SignalView::SessionInit { tag } => Some((WebTransportSessionId(fresh), tag)),
        _ => session,
    }
}

/// The frame that reports an error.
pub fn error_frame(session_id: Option<WebTransportSessionId>, code: &str, reason: String) -> (r:
    WtSignal)
    ensures
        r@ == error_view(session_id, code@, reason@),
{
    WtSignal::Error { session_id, code: code.to_owned(), reason }
}

/// Decides what a frame calls for, and opens the session if it asks for that.
pub fn frame_step(
    session: &mut Option<WebRtcSession>,
    ids: &mut SessionIdAllocator,
    frame: WtSignal,
) -> (r: FrameStep)
    ensures
        r@ == plan(session_view(*old(session)), old(ids)@, frame@),
        session_view(*final(session)) == session_after(
            session_view(*old(session)),
            old(ids)@,
            frame@,
        ),
        final(ids)@ == if frame@ is SessionInit {
            old(ids)@.wrapping_add(1)
        } else {
            old(ids)@
        },
{
    match frame {
        WtSignal::SessionInit { tag } => {
            let id = ids.fresh();
            *session = Some(WebRtcSession { id, tag });
            FrameStep::Reply(WtSignal::SessionAck { session_id: id, protocol_version: 1 })
        },
        WtSignal::Offer { session_id, sdp } => {
            let known = match &*session {
                Some(s) => s.id == session_id,
                None => false,
            };
            if known {
                FrameStep::AskOffer { session_id, sdp }
            } else {
                FrameStep::Reply(
                    error_frame(
                        Some(session_id),
                        "unknown-session",
                        "offer frame's session_id doesn't match session-init".to_owned(),
                    ),
                )
            }
        },
        WtSignal::IceCandidate { session_id, candidate, sdp_m_line_index } => {
            FrameStep::AskIce { session_id, candidate, sdp_m_line_index }
        },
        WtSignal::Echo { session_id, payload_b64 } => {
            FrameStep::Reply(WtSignal::Echo { session_id, payload_b64 })
        },
        WtSignal::Bye { session_id, .. } => FrameStep::TellBye { session_id },
        WtSignal::IceEnd { .. } => FrameStep::Silent,
        WtSignal::SessionAck { .. } => FrameStep::Silent,
        WtSignal::Answer { .. } => FrameStep::Silent,
        WtSignal::Error { .. } => FrameStep::Silent,
    }
}

/// The frame that answers an offer, once the handler decided.
pub open spec fn offer_answer(
    session_id: WebTransportSessionId,
    outcome: Result<String, WebRtcHandlerError>,
) -> SignalView {
    match outcome {
        Ok(sdp) => SignalView::Answer { session_id, sdp: sdp@ },
        Err(e) => error_view(Some(session_id), "offer-rejected"@, handler_error_text(e)),
    }
}

/// The frame that answers an offer, once the handler decided.
pub fn offer_reply(
    session_id: WebTransportSessionId,
    outcome: Result<String, WebRtcHandlerError>,
) -> (r: WtSignal)
    ensures
        r@ == offer_answer(session_id, outcome),
{
    match outcome {
        Ok(sdp) => WtSignal::Answer { session_id, sdp },
        Err(e) => error_frame(Some(session_id), "offer-rejected", e.message()),
    }
}

/// The frame that answers a candidate, if any, once the handler decided.
pub open spec fn ice_answer(
    session_id: WebTransportSessionId,
    outcome: Result<(), WebRtcHandlerError>,
) -> Option<SignalView> {
    match outcome {
        Ok(()) => None,
        Err(e) => Some(error_view(Some(session_id), "ice-rejected"@, handler_error_text(e))),
    }
}

/// The model of an optional frame.
pub open spec fn signal_opt(o: Option<WtSignal>) -> Option<SignalView> {
    match o {
        Some(s) => Some(s@),
        None => None,
    }
}

/// The frame that answers a candidate, if any, once the handler decided.
pub fn ice_reply(session_id: WebTransportSessionId, outcome: Result<(), WebRtcHandlerError>) -> (r:
    Option<WtSignal>)
    ensures
        signal_opt(r) == ice_answer(session_id, outcome),
{
    match outcome {
        Ok(()) => None,
        Err(e) => Some(error_frame(Some(session_id), "ice-rejected", e.message())),
    }
}

/// The frame that answers bytes that are no frame.
pub fn malformed_reply(error: &WtSignalError) -> (r: WtSignal)
    ensures
        r@ == error_view(None, "malformed-frame"@, signal_error_text(*error)),
{
    error_frame(None, "malformed-frame", error.message())
}

/// Runs the signalling sessions of one listener.
pub struct WebSocketSignalingListener<H> {
    handler: H,
    ids: SessionIdAllocator,
}

/// `answer` is what a decoded frame is answered. An offer or a candidate is
/// answered as `handler` decides when it is asked about it; a goodbye is passed
/// on to it. How often it is asked is left unsaid.
pub open spec fn answers<H: WebRtcSessionHandler>(
    handler: H,
    session: Option<(WebTransportSessionId, Option<Seq<char>>)>,
    fresh: u64,
    decoded: Result<WtSignal, WtSignalError>,
    answer: Option<SignalView>,
) -> bool {
    match decoded {
        Err(e) => answer == Some(error_view(None, "malformed-frame"@, signal_error_text(e))),
        Ok(frame) => match plan(session, fresh, frame@) {
            FrameStepView::Reply(s) => answer == Some(s),
            FrameStepView::AskOffer { session_id, sdp } => exists|
                offer: &str,
                o: Result<String, WebRtcHandlerError>,
            |
                offer@ == sdp && #[trigger] call_ensures(
                    H::handle_offer,
                    (&handler, session_id, offer),
                    o,
                ) && answer == Some(offer_answer(session_id, o)),
            FrameStepView::AskIce { session_id, candidate, sdp_m_line_index } => exists|
                line: &str,
                o: Result<(), WebRtcHandlerError>,
            |
                line@ == candidate && #[trigger] call_ensures(
                    H::handle_ice_candidate,
                    (&handler, session_id, line, sdp_m_line_index),
                    o,
                ) && answer == ice_answer(session_id, o),
            FrameStepView::TellBye { session_id } => answer is None && call_ensures(
                H::handle_bye,
                (&handler, session_id),
                (),
            ),
            FrameStepView::Silent => answer is None,
        },
    }
}

impl<H> WebSocketSignalingListener<H> {
    /// The next session identifier.
    pub closed spec fn next_id(&self) -> u64 {
        self.ids@
    }

    /// What decides about offers and candidates.
    pub closed spec fn consulted(&self) -> H {
        self.handler
    }

    /// A listener that consults `handler`.
    #[must_use]
    pub fn new(handler: H) -> (r: Self)
        ensures
            r.next_id() == 0,
            r.consulted() == handler,
    {
        WebSocketSignalingListener { handler, ids: SessionIdAllocator::default() }
    }

    /// Refuses to bind: frames reach the listener through `handle_frame`.
    pub fn bind(&self, addr: &str) -> (r: Result<(), WebRtcListenError>)
        ensures
            r matches Err(WebRtcListenError::Io(m)) && m@ == "WebSocketSignalingListener is bind-agnostic; wire it through an axum route and call `handle_frame` per message. The CLI's `serve_webrtc` does this."@,
    {
        let _unused = addr;
        Err(
            WebRtcListenError::Io(
                "WebSocketSignalingListener is bind-agnostic; wire it through an axum route and call `handle_frame` per message. The CLI's `serve_webrtc` does this.".to_owned(),
            ),
        )
    }
}

impl<H: WebRtcSessionHandler> WebSocketSignalingListener<H> {
    /// Handles one frame of a connection, or the failure to decode one, and
    /// returns the frame to send back, if any.
    pub fn handle_frame(
        &mut self,
        session: &mut Option<WebRtcSession>,
        decoded: Result<WtSignal, WtSignalError>,
    ) -> (r: Option<WtSignal>)
        ensures
            answers(
                old(self).consulted(),
                session_view(*old(session)),
                old(self).next_id(),
                decoded,
                signal_opt(r),
            ),
            final(self).consulted() == old(self).consulted(),
            decoded matches Ok(frame) ==> session_view(*final(session)) == session_after(
                session_view(*old(session)),
                old(self).next_id(),
                frame@,
            ),
            decoded is Err ==> session_view(*final(session)) == session_view(*old(session)),
            final(self).next_id() == if decoded is Ok && decoded->Ok_0@ is SessionInit {
                old(self).next_id().wrapping_add(1)
            } else {
                old(self).next_id()
            },
    {
        match decoded {
            Err(e) => Some(malformed_reply(&e)),
            Ok(frame) => match frame_step(session, &mut self.ids, frame) {
                FrameStep::Reply(s) => Some(s),
                FrameStep::AskOffer { session_id, sdp } => {
                    let outcome = self.handler.handle_offer(session_id, &sdp);
                    let r = offer_reply(session_id, outcome);
                    assert(r@ == offer_answer(session_id, outcome));
                    Some(r)
                },
                FrameStep::AskIce { session_id, candidate, sdp_m_line_index } => {
                    let outcome = self.handler.handle_ice_candidate(
                        session_id,
                        &candidate,
                        sdp_m_line_index,
                    );
                    let r = ice_reply(session_id, outcome);
                    assert(signal_opt(r) == ice_answer(session_id, outcome));
                    r
                },
                FrameStep::TellBye { session_id } => {
                    self.handler.handle_bye(session_id);
                    None
                },
                FrameStep::Silent => None,
            },
        }
    }
}

/// An offer reaches the handler only on the connection that opened the session
/// it names.
pub proof fn offers_stay_in_their_session(
    session: Option<(WebTransportSessionId, Option<Seq<char>>)>,
    fresh: u64,
    frame: SignalView,
)
    ensures
        plan(session, fresh, frame) matches FrameStepView::AskOffer { session_id, .. } ==> session
            is Some && (session->0).0 == session_id,
{
}

/// What each frame is answered: a session that is opened gets the fresh number
/// and keeps the client's tag; an offer of another session is an error that
/// names it; an echo comes back as it was; candidates and goodbyes go to the
/// handler as they came; the frames that the engine alone sends are ignored.
pub proof fn frames_are_answered(
    session: Option<(WebTransportSessionId, Option<Seq<char>>)>,
    fresh: u64,
    frame: SignalView,
)
    ensures
        ({
            let step = plan(session, fresh, frame);
            let after = session_after(session, fresh, frame);
            &&& frame matches SignalView::SessionInit { tag } ==> {
                &&& step == FrameStepView::Reply(
                    SignalView::SessionAck {
                        session_id: WebTransportSessionId(fresh),
                        protocol_version: 1,
                    },
                )
                &&& after == Some((WebTransportSessionId(fresh), tag))
            }
            &&& frame !is SessionInit ==> after == session
            &&& frame matches SignalView::Offer { session_id, sdp } ==> {
                &&& session is Some && (session->0).0 == session_id ==> step == (
                FrameStepView::AskOffer { session_id, sdp })
                &&& session is None || (session->0).0 != session_id ==> {
                    &&& step matches FrameStepView::Reply(r)
                    &&& r matches SignalView::Error { session_id: about, code, .. }
                    &&& about == Some(session_id)
                    &&& code == "unknown-session"@
                }
            }
            &&& frame matches SignalView::IceCandidate { session_id, candidate, sdp_m_line_index }
                ==> step == (FrameStepView::AskIce { session_id, candidate, sdp_m_line_index })
            &&& frame is Echo ==> step == FrameStepView::Reply(frame)
            &&& frame matches SignalView::Bye { session_id, .. } ==> step == (
            FrameStepView::TellBye { session_id })
            &&& frame is SessionAck || frame is Answer || frame is IceEnd || frame is Error ==> step
                is Silent
        }),
{
}

/// An accepted offer is answered with the handler's SDP, a refused one with an
/// error; an accepted candidate is not answered, a refused one is with an error.
/// Each names the session.
pub proof fn decisions_are_passed_on(
    session_id: WebTransportSessionId,
    offer: Result<String, WebRtcHandlerError>,
    candidate: Result<(), WebRtcHandlerError>,
)
    ensures
        offer matches Ok(sdp) ==> offer_answer(session_id, offer) == (SignalView::Answer {
            session_id,
            sdp: sdp@,
        }),
        offer matches Err(e) ==> offer_answer(session_id, offer) == (SignalView::Error {
            session_id: Some(session_id),
            code: "offer-rejected"@,
            reason: handler_error_text(e),
        }),
        candidate is Ok ==> ice_answer(session_id, candidate) is None,
        candidate matches Err(e) ==> ice_answer(session_id, candidate) == Some(
            SignalView::Error {
                session_id: Some(session_id),
                code: "ice-rejected"@,
                reason: handler_error_text(e),
            },
        ),
{
}

/// A frame that cannot be read is answered with an error of no session.
pub proof fn malformed_frames_are_answered<H: WebRtcSessionHandler>(
    handler: H,
    session: Option<(WebTransportSessionId, Option<Seq<char>>)>,
    fresh: u64,
    e: WtSignalError,
    answer: Option<SignalView>,
)
    requires
        answers(handler, session, fresh, Err(e), answer),
    ensures
        answer == Some(
            SignalView::Error {
                session_id: None,
                code: "malformed-frame"@,
                reason: signal_error_text(e),
            },
        ),
{
}

} // verus!
