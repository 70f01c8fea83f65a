//! Signalling frames that browsers and the engine exchange.

use vstd::prelude::*;

use crate::text;

verus! {

/// Identifier of a signalling session.
#[derive(Copy, Clone, Debug, Default, Eq, PartialEq, Ord, PartialOrd, Hash, Structural)]
pub struct WebTransportSessionId(pub u64);

impl WebTransportSessionId {
    /// The identifier in text form.
    pub fn to_text(&self) -> (r: String)
        ensures
            r@ == "wt-"@ + text::decimal(self.0 as nat),
    {
        let mut s: String = "wt-".to_owned();
        s.append(&text::decimal_string(self.0));
        s
    }
}

/// Hands out session identifiers, counting up from 0.
#[derive(Debug)]
pub struct SessionIdAllocator {
    next: u64,
}

impl View for SessionIdAllocator {
    type V = u64;

    closed spec fn view(&self) -> u64 {
        self.next
    }
}

impl Default for SessionIdAllocator {
    fn default() -> (r: Self)
        ensures
            r@ == 0,
    {
        SessionIdAllocator { next: 0 }
    }
}

impl SessionIdAllocator {
    /// The next identifier. After the largest one the count begins anew.
    #[must_use]
    pub fn fresh(&mut self) -> (r: WebTransportSessionId)
        ensures
            r.0 == old(self)@,
            final(self)@ == old(self)@.wrapping_add(1),
    {
        let id: u64 = self.next;
        self.next = id.wrapping_add(1);
        WebTransportSessionId(id)
    }
}

/// The identifier that an allocator hands out after `n` others, when it began
/// at `first`.
pub open spec fn nth_id(first: u64, n: nat) -> u64
    decreases n,
{
    if n == 0 {
        first
    } else {
        nth_id(first, (n - 1) as nat).wrapping_add(1)
    }
}

proof fn lemma_nth_id(first: u64, n: nat)
    ensures
        nth_id(first, n) == (first + n) % 0x1_0000_0000_0000_0000,
    decreases n,
{
    if n > 0 {
        lemma_nth_id(first, (n - 1) as nat);
    }
}

/// Two identifiers of one allocator differ, unless it ran through all of them
/// in between.
pub proof fn identifiers_differ(first: u64, i: nat, j: nat)
    requires
        i < j < i + 0x1_0000_0000_0000_0000,
    ensures
        nth_id(first, i) != nth_id(first, j),
{
    lemma_nth_id(first, i);
    lemma_nth_id(first, j);
}

/// What a frame is.
#[derive(Copy, Clone, Debug, Eq, PartialEq, Structural)]
pub enum WtSignalKind {
    /// The client opens a session.
    SessionInit,
    /// The engine opened it.
    SessionAck,
    /// The client offers media.
    Offer,
    /// The engine answers.
    Answer,
    /// An ICE candidate.
    IceCandidate,
    /// No more candidates.
    IceEnd,
    /// One side leaves.
    Bye,
    /// The engine reports an error.
    Error,
    /// The client asks for its payload back.
    Echo,
}

/// The token of a kind on the wire.
pub open spec fn kind_token(kind: WtSignalKind) -> Seq<char> {
    match kind {
        WtSignalKind::SessionInit => "session-init"@,
        WtSignalKind::SessionAck => "session-ack"@,
        WtSignalKind::Offer => "offer"@,
        WtSignalKind::Answer => "answer"@,
        WtSignalKind::IceCandidate => "ice-candidate"@,
        WtSignalKind::IceEnd => "ice-end"@,
        WtSignalKind::Bye => "bye"@,
        WtSignalKind::Error => "error"@,
        WtSignalKind::Echo => "echo"@,
    }
}

impl WtSignalKind {
    /// The token of the kind on the wire.
    #[must_use]
    pub fn as_str(self) -> (r: &'static str)
        ensures
            r@ == kind_token(self),
    {
        match self {
            WtSignalKind::SessionInit => "session-init",
            WtSignalKind::SessionAck => "session-ack",
            WtSignalKind::Offer => "offer",
            WtSignalKind::Answer => "answer",
            WtSignalKind::IceCandidate => "ice-candidate",
            WtSignalKind::IceEnd => "ice-end",
            WtSignalKind::Bye => "bye",
            WtSignalKind::Error => "error",
            WtSignalKind::Echo => "echo",
        }
    }
}

/// One frame.
#[derive(Clone, Debug, Eq, PartialEq)]
pub enum WtSignal {
    /// Client to engine: open a session.
    SessionInit {
        /// Tag for correlation.
        tag: Option<String>,
    },
    /// Engine to client: the session is open.
    SessionAck {
        /// Its identifier.
        session_id: WebTransportSessionId,
        /// Protocol version.
        protocol_version: u8,
    },
    /// Client to engine: SDP offer.
    Offer {
        /// Session.
        session_id: WebTransportSessionId,
        /// SDP.
        sdp: String,
    },
    /// Engine to client: SDP answer.
    Answer {
        /// Session.
        session_id: WebTransportSessionId,
        /// SDP.
        sdp: String,
    },
    /// An ICE candidate.
    IceCandidate {
        /// Session.
        session_id: WebTransportSessionId,
        /// Candidate.
        candidate: String,
        /// Media line that it belongs to.
        sdp_m_line_index: u16,
    },
    /// No more candidates.
    IceEnd {
        /// Session.
        session_id: WebTransportSessionId,
    },
    /// One side leaves.
    Bye {
        /// Session.
        session_id: WebTransportSessionId,
        /// Why.
        reason: Option<String>,
    },
    /// Engine to client: an error.
    Error {
        /// Session, if there is one.
        session_id: Option<WebTransportSessionId>,
        /// Error code.
        code: String,
        /// What went wrong.
        reason: String,
    },
    /// Payload that is sent back as it is.
    Echo {
        /// Session.
        session_id: WebTransportSessionId,
        /// Payload in base64.
        payload_b64: String,
    },
}

/// Model of a [`WtSignal`].
#[verifier::ext_equal]
pub enum SignalView {
    SessionInit { tag: Option<Seq<char>> },
    SessionAck { session_id: WebTransportSessionId, protocol_version: u8 },
    Offer { session_id: WebTransportSessionId, sdp: Seq<char> },
    Answer { session_id: WebTransportSessionId, sdp: Seq<char> },
    IceCandidate {
        session_id: WebTransportSessionId,
        candidate: Seq<char>,
        sdp_m_line_index: u16,
    },
    IceEnd { session_id: WebTransportSessionId },
    Bye { session_id: WebTransportSessionId, reason: Option<Seq<char>> },
    Error { session_id: Option<WebTransportSessionId>, code: Seq<char>, reason: Seq<char> },
    Echo { session_id: WebTransportSessionId, payload_b64: Seq<char> },
}

impl View for WtSignal {
    type V = SignalView;

    open spec fn view(&self) -> SignalView {
        match *self {
            WtSignal::SessionInit { tag } => SignalView::SessionInit { tag: text::text_opt(tag) },
            WtSignal::SessionAck { session_id, protocol_version } => SignalView::SessionAck {
                session_id,
                protocol_version,
            },
            WtSignal::Offer { session_id, sdp } => SignalView::Offer { session_id, sdp: sdp@ },
            WtSignal::Answer { session_id, sdp } => SignalView::Answer { session_id, sdp: sdp@ },
            WtSignal::IceCandidate {
                session_id,
                candidate,
                sdp_m_line_index,
            } => SignalView::IceCandidate { session_id, candidate: candidate@, sdp_m_line_index },
            WtSignal::IceEnd { session_id } => SignalView::IceEnd { session_id },
            WtSignal::Bye { session_id, reason } => SignalView::Bye {
                session_id,
                reason: text::text_opt(reason),
            },
            WtSignal::Error { session_id, code, reason } => SignalView::Error {
                session_id,
                code: code@,
                reason: reason@,
            },
            WtSignal::Echo { session_id, payload_b64 } => SignalView::Echo {
                session_id,
                payload_b64: payload_b64@,
            },
        }
    }
}

/// The kind of a frame.
pub open spec fn kind_of(s: SignalView) -> WtSignalKind {
    match s {
        SignalView::SessionInit { .. } => WtSignalKind::SessionInit,
        SignalView::SessionAck { .. } => WtSignalKind::SessionAck,
        SignalView::Offer { .. } => WtSignalKind::Offer,
        SignalView::Answer { .. } => WtSignalKind::Answer,
        SignalView::IceCandidate { .. } => WtSignalKind::IceCandidate,
        SignalView::IceEnd { .. } => WtSignalKind::IceEnd,
        SignalView::Bye { .. } => WtSignalKind::Bye,
        SignalView::Error { .. } => WtSignalKind::Error,
        SignalView::Echo { .. } => WtSignalKind::Echo,
    }
}

/// The session of a frame.
pub open spec fn session_of(s: SignalView) -> Option<WebTransportSessionId> {
    match s {
        SignalView::SessionInit { .. } => None,
        SignalView::SessionAck { session_id, .. } => Some(session_id),
        SignalView::Offer { session_id, .. } => Some(session_id),
        SignalView::Answer { session_id, .. } => Some(session_id),
        SignalView::IceCandidate { session_id, .. } => Some(session_id),
        SignalView::IceEnd { session_id } => Some(session_id),
        SignalView::Bye { session_id, .. } => Some(session_id),
        SignalView::Error { session_id, .. } => session_id,
        SignalView::Echo { session_id, .. } => Some(session_id),
    }
}

impl WtSignal {
    /// The kind of the frame.
    #[must_use]
    pub fn kind(&self) -> (r: WtSignalKind)
        ensures
            r == kind_of(self@),
    {
        match self {
            WtSignal::SessionInit { .. } => WtSignalKind::SessionInit,
            WtSignal::SessionAck { .. } => WtSignalKind::SessionAck,
            WtSignal::Offer { .. } => WtSignalKind::Offer,
            WtSignal::Answer { .. } => WtSignalKind::Answer,
            WtSignal::IceCandidate { .. } => WtSignalKind::IceCandidate,
            WtSignal::IceEnd { .. } => WtSignalKind::IceEnd,
            WtSignal::Bye { .. } => WtSignalKind::Bye,
            WtSignal::Error { .. } => WtSignalKind::Error,
            WtSignal::Echo { .. } => WtSignalKind::Echo,
        }
    }

    /// The session of the frame, if it names one.
    #[must_use]
    pub fn session_id(&self) -> (r: Option<WebTransportSessionId>)
        ensures
            r == session_of(self@),
    {
        match self {
            WtSignal::SessionInit { .. } => None,
            WtSignal::SessionAck { session_id, .. } => Some(*session_id),
            WtSignal::Offer { session_id, .. } => Some(*session_id),
            WtSignal::Answer { session_id, .. } => Some(*session_id),
            WtSignal::IceCandidate { session_id, .. } => Some(*session_id),
            WtSignal::IceEnd { session_id } => Some(*session_id),
            WtSignal::Bye { session_id, .. } => Some(*session_id),
            WtSignal::Error { session_id, .. } => *session_id,
            WtSignal::Echo { session_id, .. } => Some(*session_id),
        }
    }
}

/// Why a frame could not be encoded or decoded.
#[derive(Debug)]
pub enum WtSignalError {
    /// Encoding failed.
    Encode(String),
    /// The bytes are no frame.
    Decode(String),
}

/// The message of an error.
pub open spec fn signal_error_text(e: WtSignalError) -> Seq<char> {
    match e {
        WtSignalError::Encode(m) => "webtransport signal encode: "@ + m@,
        WtSignalError::Decode(m) => "webtransport signal decode: "@ + m@,
    }
}

impl WtSignalError {
    /// The message of the error.
    pub fn message(&self) -> (r: String)
        ensures
            r@ == signal_error_text(*self),
    {
        match self {
            WtSignalError::Encode(m) => {
                let mut s: String = "webtransport signal encode: ".to_owned();
                s.append(m);
                s
            },
            WtSignalError::Decode(m) => {
                let mut s: String = "webtransport signal decode: ".to_owned();
                s.append(m);
                s
            },
        }
    }
}

/// Why a listener could not start.
#[derive(Debug)]
pub enum WtListenError {
    /// There is no listener behind the interface yet.
    ScaffoldOnly,
    /// I/O failed.
    Io(String),
    /// The TLS settings were refused.
    Tls(String),
}

impl WtListenError {
    /// The message of the error.
    pub fn message(&self) -> (r: String)
        ensures
            r@ == match *self {
                WtListenError::ScaffoldOnly => "webtransport runtime not yet wired (scaffold only)"@,
                WtListenError::Io(m) => "webtransport bind I/O: "@ + m@,
                WtListenError::Tls(m) => "webtransport TLS config: "@ + m@,
            },
    {
        match self {
            WtListenError::ScaffoldOnly => {
                "webtransport runtime not yet wired (scaffold only)".to_owned()
            },
            WtListenError::Io(m) => {
                let mut s: String = "webtransport bind I/O: ".to_owned();
                s.append(m);
                s
            },
            WtListenError::Tls(m) => {
                let mut s: String = "webtransport TLS config: ".to_owned();
                s.append(m);
                s
            },
        }
    }
}

/// A listener that refuses to start.
#[derive(Debug)]
pub struct NullWebTransportListener;

impl NullWebTransportListener {
    /// The listener.
    #[must_use]
    pub fn new() -> (r: Self)
        ensures
            r == NullWebTransportListener,
    {
        NullWebTransportListener
    }

    /// Refuses to listen on `addr`.
    pub fn bind(&self, addr: &str) -> (r: Result<(), WtListenError>)
        ensures
            r == Err::<(), WtListenError>(WtListenError::ScaffoldOnly),
    {
        let _unused = addr;
        Err(WtListenError::ScaffoldOnly)
    }
}

impl Default for NullWebTransportListener {
    fn default() -> (r: Self)
        ensures
            r == NullWebTransportListener,
    {
        NullWebTransportListener
    }
}

} // verus!
