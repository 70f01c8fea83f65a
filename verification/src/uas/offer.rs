//! Offers and answers: what a media negotiation led to, and how a refusal is
//! answered.

use vstd::prelude::*;

use super::compose::{format_warning, warning_value, HeaderView};
use crate::record::{
    addr_opt, bytes_opt, copy_addr, copy_blob, MediaAddr,
};
use crate::text;

verus! {

/// What the negotiator made of an SDP offer.
#[derive(Debug)]
pub enum NegotiationOutcome {
    /// The offer can be met.
    Accepted {
        /// SDP answer.
        answer_body: String,
        /// Where the peer receives RTP.
        remote_media: Option<MediaAddr>,
        /// Port at which the peer receives RTCP.
        remote_rtcp_port: Option<u16>,
        /// SRTP keys.
        srtp: Option<Vec<u8>>,
        /// Audio codec.
        audio_codec: Option<String>,
        /// Clock rate of the audio codec in Hz.
        audio_clock_rate: Option<u32>,
        /// Video codec.
        video_codec: Option<String>,
        /// ICE parameters.
        ice: Option<String>,
    },
    /// No common codec.
    Mismatch,
    /// A transport profile that the engine cannot terminate.
    UnsupportedTransport {
        /// Which.
        reason: String,
    },
    /// The body is no SDP.
    Malformed(String),
}

/// An offer that was met.
#[derive(Debug)]
pub struct AcceptedOffer {
    /// SDP answer.
    pub answer_body: String,
    /// Where the peer receives RTP.
    pub remote_media: Option<MediaAddr>,
    /// Where the peer receives RTCP.
    pub remote_rtcp: Option<MediaAddr>,
    /// SRTP keys.
    pub srtp: Option<Vec<u8>>,
    /// Audio codec.
    pub audio_codec: Option<String>,
    /// RTP clock rate of the audio codec in Hz.
    pub clock_rate: u32,
    /// Video codec.
    pub video_codec: Option<String>,
    /// ICE parameters.
    pub ice: Option<String>,
}

/// Model of an [`AcceptedOffer`].
#[verifier::ext_equal]
pub struct OfferView {
    pub answer_body: Seq<char>,
    pub remote_media: Option<(Seq<char>, u16)>,
    pub remote_rtcp: Option<(Seq<char>, u16)>,
    pub srtp: Option<Seq<u8>>,
    pub audio_codec: Option<Seq<char>>,
    pub clock_rate: u32,
    pub video_codec: Option<Seq<char>>,
    pub ice: Option<Seq<char>>,
}

impl View for AcceptedOffer {
    type V = OfferView;

    open spec fn view(&self) -> OfferView {
        OfferView {
            answer_body: self.answer_body@,
            remote_media: addr_opt(self.remote_media),
            remote_rtcp: addr_opt(self.remote_rtcp),
            srtp: bytes_opt(self.srtp),
            audio_codec: text::text_opt(self.audio_codec),
            clock_rate: self.clock_rate,
            video_codec: text::text_opt(self.video_codec),
            ice: text::text_opt(self.ice),
        }
    }
}

/// Why an offer was refused.
#[derive(Debug)]
pub enum OfferError {
    /// No common codec.
    Mismatch,
    /// A transport profile that the engine cannot terminate.
    Unsupported(String),
    /// The body is no SDP.
    Malformed(String),
}

/// What the outcome of a negotiation says. RTCP goes to the host that receives
/// RTP.
pub open spec fn offer_result(outcome: NegotiationOutcome, default_clock_rate: u32) -> Result<
    OfferView,
    OfferError,
> {
    match outcome {
        NegotiationOutcome::Accepted {
            answer_body,
            remote_media,
            remote_rtcp_port,
            srtp,
            audio_codec,
            audio_clock_rate,
            video_codec,
            ice,
        } => Ok(
            OfferView {
                answer_body: answer_body@,
                remote_media: addr_opt(remote_media),
                remote_rtcp: match (remote_media, remote_rtcp_port) {
                    (Some(a), Some(p)) => Some((a.host@, p)),
                    _ => None,
                },
                srtp: bytes_opt(srtp),
                audio_codec: text::text_opt(audio_codec),
                clock_rate: match audio_clock_rate {
                    Some(c) => c,
                    None => default_clock_rate,
                },
                video_codec: text::text_opt(video_codec),
                ice: text::text_opt(ice),
            },
        ),
        NegotiationOutcome::Mismatch => Err(OfferError::Mismatch),
        NegotiationOutcome::UnsupportedTransport { reason } => Err(OfferError::Unsupported(reason)),
        NegotiationOutcome::Malformed(m) => Err(OfferError::Malformed(m)),
    }
}

/// Reads the outcome of a negotiation. `default_clock_rate` is for an audio
/// codec that states none.
pub fn negotiate_body(outcome: NegotiationOutcome, default_clock_rate: u32) -> (r: Result<
    AcceptedOffer,
    OfferError,
>)
    ensures
        match r {
            Ok(o) => offer_result(outcome, default_clock_rate) == Ok::<OfferView, OfferError>(o@),
            Err(e) => offer_result(outcome, default_clock_rate) == Err::<OfferView, OfferError>(e),
        },
{
    match outcome {
        NegotiationOutcome::Accepted {
            answer_body,
            remote_media,
            remote_rtcp_port,
            srtp,
            audio_codec,
            audio_clock_rate,
            video_codec,
            ice,
        } => {
            let remote_rtcp = match (&remote_media, remote_rtcp_port) {
                (Some(a), Some(port)) => Some(MediaAddr { host: a.host.clone(), port }),
                _ => None,
            };
            let clock_rate: u32 = match audio_clock_rate {
                Some(c) => c,
                None => default_clock_rate,
            };
            Ok(
                AcceptedOffer {
                    answer_body,
                    remote_media,
                    remote_rtcp,
                    srtp,
                    audio_codec,
                    clock_rate,
                    video_codec,
                    ice,
                },
            )
        },
        NegotiationOutcome::Mismatch => Err(OfferError::Mismatch),
        NegotiationOutcome::UnsupportedTransport { reason } => Err(OfferError::Unsupported(reason)),
        NegotiationOutcome::Malformed(m) => Err(OfferError::Malformed(m)),
    }
}

/// A final failure response.
#[derive(Debug)]
pub struct Rejection {
    /// Status code.
    pub status: u16,
    /// Reason phrase.
    pub reason: &'static str,
    /// `Warning` value.
    pub warning: Option<String>,
}

/// Model of a [`Rejection`].
#[verifier::ext_equal]
pub struct RejectionView {
    pub status: u16,
    pub reason: Seq<char>,
    pub warning: Option<Seq<char>>,
}

impl View for Rejection {
    type V = RejectionView;

    open spec fn view(&self) -> RejectionView {
        RejectionView {
            status: self.status,
            reason: self.reason@,
            warning: text::text_opt(self.warning),
        }
    }
}

/// How a refused offer is answered.
pub open spec fn offer_refusal(e: OfferError) -> RejectionView {
    match e {
        OfferError::Mismatch => RejectionView {
            status: 488,
            reason: "Not Acceptable Here"@,
            warning: None,
        },
        OfferError::Unsupported(reason) => RejectionView {
            status: 488,
            reason: "Not Acceptable Here"@,
            warning: Some(warning_value(399, reason@)),
        },
        OfferError::Malformed(_) => RejectionView {
            status: 400,
            reason: "Bad Request"@,
            warning: None,
        },
    }
}

/// How a refused offer is answered: 488 without a common codec, 488 with a
/// warning for an unsupported transport, 400 for what is no SDP.
pub fn reject_offer(e: &OfferError) -> (r: Rejection)
    ensures
        r@ == offer_refusal(*e),
{
    match e {
        OfferError::Mismatch => Rejection {
            status: 488,
            reason: "Not Acceptable Here",
            warning: None,
        },
        OfferError::Unsupported(reason) => Rejection {
            status: 488,
            reason: "Not Acceptable Here",
            warning: Some(format_warning(399, reason)),
        },
        OfferError::Malformed(_) => Rejection {
            status: 400,
            reason: "Bad Request",
            warning: None,
        },
    }
}

/// The headers of a refusal: its warning, and when to come back where the
/// engine is out of capacity.
pub open spec fn refusal_headers(r: RejectionView) -> Seq<HeaderView> {
    (match r.warning {
        Some(w) => seq![("Warning"@, w)],
        None => seq![],
    }) + (if r.status == 503 {
        seq![("Retry-After"@, "5"@)]
    } else {
        seq![]
    })
}

// ---------------------------------------------------------------------
// Legs
// ---------------------------------------------------------------------

/// A leg as it enters a media bridge.
#[derive(Debug)]
pub struct BridgeLeg {
    /// Media endpoint.
    pub endpoint: u64,
    /// Where the peer receives RTP.
    pub peer: MediaAddr,
    /// SRTP keys.
    pub srtp: Option<Vec<u8>>,
    /// RTP clock rate in Hz.
    pub clock_rate: u32,
    /// Where the peer receives RTCP.
    pub rtcp_peer: Option<MediaAddr>,
}

/// Model of a [`BridgeLeg`].
#[verifier::ext_equal]
pub struct BridgeLegView {
    pub endpoint: u64,
    pub peer: (Seq<char>, u16),
    pub srtp: Option<Seq<u8>>,
    pub clock_rate: u32,
    pub rtcp_peer: Option<(Seq<char>, u16)>,
}

impl View for BridgeLeg {
    type V = BridgeLegView;

    open spec fn view(&self) -> BridgeLegView {
        BridgeLegView {
            endpoint: self.endpoint,
            peer: self.peer@,
            srtp: bytes_opt(self.srtp),
            clock_rate: self.clock_rate,
            rtcp_peer: addr_opt(self.rtcp_peer),
        }
    }
}

impl BridgeLeg {
    /// A copy.
    pub fn duplicate(&self) -> (r: Self)
        ensures
            r@ == self@,
    {
        BridgeLeg {
            endpoint: self.endpoint,
            peer: self.peer.duplicate(),
            srtp: copy_blob(&self.srtp),
            clock_rate: self.clock_rate,
            rtcp_peer: copy_addr(&self.rtcp_peer),
        }
    }
}

/// The media of one dialog.
#[derive(Debug)]
pub struct LegMedia {
    /// Media endpoint.
    pub endpoint: u64,
    /// Where the peer receives RTP.
    pub remote: Option<MediaAddr>,
    /// Where the peer receives RTCP.
    pub rtcp_peer: Option<MediaAddr>,
    /// SRTP keys.
    pub srtp: Option<Vec<u8>>,
    /// RTP clock rate in Hz.
    pub clock_rate: u32,
}

/// Model of a [`LegMedia`].
#[verifier::ext_equal]
pub struct LegView {
    pub endpoint: u64,
    pub remote: Option<(Seq<char>, u16)>,
    pub rtcp_peer: Option<(Seq<char>, u16)>,
    pub srtp: Option<Seq<u8>>,
    pub clock_rate: u32,
}

impl View for LegMedia {
    type V = LegView;

    open spec fn view(&self) -> LegView {
        LegView {
            endpoint: self.endpoint,
            remote: addr_opt(self.remote),
            rtcp_peer: addr_opt(self.rtcp_peer),
            srtp: bytes_opt(self.srtp),
            clock_rate: self.clock_rate,
        }
    }
}

/// The media that an accepted offer describes.
pub open spec fn leg_of(endpoint: u64, offer: OfferView) -> LegView {
    LegView {
        endpoint,
        remote: offer.remote_media,
        rtcp_peer: offer.remote_rtcp,
        srtp: offer.srtp,
        clock_rate: offer.clock_rate,
    }
}

/// The leg as it enters a bridge; `None` while the peer has not said where it
/// receives RTP.
pub open spec fn bridge_leg_of(leg: LegView) -> Option<BridgeLegView> {
    match leg.remote {
        Some(peer) => Some(
            BridgeLegView {
                endpoint: leg.endpoint,
                peer,
                srtp: leg.srtp,
                clock_rate: leg.clock_rate,
                rtcp_peer: leg.rtcp_peer,
            },
        ),
        None => None,
    }
}

fn same_addr(a: &Option<MediaAddr>, b: &Option<MediaAddr>) -> (r: bool)
    ensures
        r == (addr_opt(*a) == addr_opt(*b)),
{
    match (a, b) {
        (Some(x), Some(y)) => x.host == y.host && x.port == y.port,
        (None, None) => true,
        _ => false,
    }
}

fn same_bytes(a: &[u8], b: &[u8]) -> (r: bool)
    ensures
        r == (a@ == b@),
{
    if a.len() != b.len() {
        return false;
    }
    let mut i: usize = 0;
    while i < a.len()
        invariant
            i <= a@.len(),
            a@.len() == b@.len(),
            forall|j: int| 0 <= j < i ==> a@[j] == b@[j],
        decreases a.len() - i,
    {
        if a[i] != b[i] {
            return false;
        }
        i = i + 1;
    }
    assert(a@ =~= b@);
    true
}

fn same_blob(a: &Option<Vec<u8>>, b: &Option<Vec<u8>>) -> (r: bool)
    ensures
        r == (bytes_opt(*a) == bytes_opt(*b)),
{
    match (a, b) {
        (Some(x), Some(y)) => same_bytes(x, y),
        (None, None) => true,
        _ => false,
    }
}

impl LegMedia {
    /// The media that an accepted offer describes.
    pub fn from_offer(endpoint: u64, offer: &AcceptedOffer) -> (r: Self)
        ensures
            r@ == leg_of(endpoint, offer@),
    {
        LegMedia {
            endpoint,
            remote: copy_addr(&offer.remote_media),
            rtcp_peer: copy_addr(&offer.remote_rtcp),
            srtp: copy_blob(&offer.srtp),
            clock_rate: offer.clock_rate,
        }
    }

    /// The leg as it enters a bridge; `None` while the peer has not said where
    /// it receives RTP.
    pub fn bridge_leg(&self) -> (r: Option<BridgeLeg>)
        ensures
            match r {
                Some(l) => bridge_leg_of(self@) == Some(l@),
                None => bridge_leg_of(self@) is None,
            },
    {
        match &self.remote {
            Some(peer) => Some(
                BridgeLeg {
                    endpoint: self.endpoint,
                    peer: peer.duplicate(),
                    srtp: copy_blob(&self.srtp),
                    clock_rate: self.clock_rate,
                    rtcp_peer: copy_addr(&self.rtcp_peer),
                },
            ),
            None => None,
        }
    }

    /// `true` when both describe the same media.
    pub fn same(&self, other: &LegMedia) -> (r: bool)
        ensures
            r == (self@ == other@),
    {
        let r = self.endpoint == other.endpoint && same_addr(&self.remote, &other.remote)
            && same_addr(&self.rtcp_peer, &other.rtcp_peer) && same_blob(&self.srtp, &other.srtp)
            && self.clock_rate == other.clock_rate;
        assert(r ==> self@ =~= other@);
        r
    }
}

} // verus!
