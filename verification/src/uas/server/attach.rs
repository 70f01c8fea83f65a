//! Connecting the media of a new dialog to the rest of the call.
//!
//! `attach_plan` says what to try next: a browser leg with the same tag, a
//! conference room, or the rendezvous of two callers who dialled one name.

use vstd::prelude::*;

use super::super::compose::{format_warning, warning_value};
use super::super::offer::{BridgeLeg, BridgeLegView, Rejection, RejectionView};
use super::super::summary::RequestSummary;
use super::teardown::is_partner;
use super::{PendingLeg, PendingView, SettingsView, UasServer, UasView};
use crate::record::{copy_dialog_key, dialog_path, place_of, DialogKey};
use crate::table::key1;
use crate::text;

verus! {

/// How the media of a dialog is connected.
#[derive(Copy, Clone, Debug, PartialEq, Eq, Structural)]
pub enum MediaAttachment {
    /// Not at all: there is none, or it waits for a second caller.
    Alone,
    /// To a browser leg, or it waits for one.
    WebRtc,
    /// To a conference room.
    Conference,
    /// To the caller who waited.
    Bridged,
}

/// What to try next.
#[derive(Debug)]
pub enum AttachPlan {
    /// Nothing.
    Nothing,
    /// Pair with the browser leg of this tag.
    WebRtc {
        /// The tag.
        tag: String,
    },
    /// Join this conference room.
    Room {
        /// Its name.
        room: String,
    },
    /// Meet another caller under this name.
    Rendezvous {
        /// The name.
        room: String,
    },
}

/// Model of an [`AttachPlan`].
#[verifier::ext_equal]
pub enum PlanView {
    Nothing,
    WebRtc { tag: Seq<char> },
    Room { room: Seq<char> },
    Rendezvous { room: Seq<char> },
}

impl View for AttachPlan {
    type V = PlanView;

    open spec fn view(&self) -> PlanView {
        match *self {
            AttachPlan::Nothing => PlanView::Nothing,
            AttachPlan::WebRtc { tag } => PlanView::WebRtc { tag: tag@ },
            AttachPlan::Room { room } => PlanView::Room { room: room@ },
            AttachPlan::Rendezvous { room } => PlanView::Rendezvous { room: room@ },
        }
    }
}

/// What was tried already, and failed or was declined.
#[derive(Copy, Clone, Debug, PartialEq, Eq, Structural)]
pub enum Tried {
    /// Nothing yet.
    Nothing,
    /// The browser leg.
    WebRtc,
    /// The conference room.
    Room,
}

/// `room` is the name of a conference room.
pub open spec fn is_room(settings: SettingsView, room: Seq<char>) -> bool {
    settings.has_mixer && settings.room_prefix is Some && text::begins_with(
        room,
        settings.room_prefix->0,
    )
}

/// What to try next for an INVITE whose peer told where it receives RTP, or
/// did not.
pub open spec fn plan_of(settings: SettingsView, req: RequestSummary, has_leg: bool, tried: Tried) ->
    PlanView {
    if !has_leg {
        PlanView::Nothing
    } else if tried == Tried::Nothing && req@.webrtc_tag is Some && settings.has_webrtc {
        PlanView::WebRtc { tag: req@.webrtc_tag->0 }
    } else {
        match req@.ruri_user {
            None => PlanView::Nothing,
            Some(room) => if tried != Tried::Room && is_room(settings, room) {
                PlanView::Room { room }
            } else {
                PlanView::Rendezvous { room }
            },
        }
    }
}

/// A caller's part in a rendezvous.
#[derive(Debug)]
pub enum PairStep {
    /// It is the first, and waits.
    Parked,
    /// Bridge it with the one who waited.
    Bridge {
        /// Who waited.
        pending: PendingLeg,
        /// The second leg.
        leg: BridgeLeg,
    },
    /// Transcode between it and the one who waited.
    Transcode {
        /// Who waited.
        pending: PendingLeg,
        /// The second leg.
        leg: BridgeLeg,
        /// Codec of the one who waited.
        codec_a: String,
        /// Codec of the second leg.
        codec_b: String,
    },
    /// The two do not fit. The first goes on waiting.
    Rejected(Rejection),
}

/// Model of a [`PairStep`].
#[verifier::ext_equal]
pub enum PairView {
    Parked,
    Bridge { pending: PendingView, leg: BridgeLegView },
    Transcode {
        pending: PendingView,
        leg: BridgeLegView,
        codec_a: Seq<char>,
        codec_b: Seq<char>,
    },
    Rejected(RejectionView),
}

impl View for PairStep {
    type V = PairView;

    open spec fn view(&self) -> PairView {
        match *self {
            PairStep::Parked => PairView::Parked,
            PairStep::Bridge { pending, leg } => PairView::Bridge { pending: pending@, leg: leg@ },
            PairStep::Transcode { pending, leg, codec_a, codec_b } => PairView::Transcode {
                pending: pending@,
                leg: leg@,
                codec_a: codec_a@,
                codec_b: codec_b@,
            },
            PairStep::Rejected(r) => PairView::Rejected(r@),
        }
    }
}

/// What the warning of two codecs that do not fit says.
pub open spec fn mismatch_text(a: Seq<char>, b: Seq<char>) -> Seq<char> {
    "codec mismatch ("@ + a + " vs "@ + b + ") and no transcoder configured"@
}

/// The refusal of two codecs that do not fit.
pub open spec fn mismatch_refusal(a: Seq<char>, b: Seq<char>) -> RejectionView {
    RejectionView {
        status: 488,
        reason: "Not Acceptable Here"@,
        warning: Some(warning_value(399, mismatch_text(a, b))),
    }
}

/// The refusal of a pair that could not be connected.
pub open spec fn internal_refusal() -> RejectionView {
    RejectionView { status: 500, reason: "Server Internal Error"@, warning: None }
}

/// The refusal of a pair that there is no capacity for.
pub open spec fn capacity_refusal() -> RejectionView {
    RejectionView {
        status: 503,
        reason: "Service Unavailable"@,
        warning: Some(warning_value(370, "transcoding capacity exhausted"@)),
    }
}

/// A leg comes to a rendezvous: the first waits, the second takes the first
/// away with it, unless the two speak different codecs and nothing can
/// translate.
pub open spec fn pair_step(
    s: UasView,
    room: Seq<char>,
    dialog: Seq<Seq<char>>,
    leg: BridgeLegView,
    codec: Option<Seq<char>>,
) -> (UasView, PairView) {
    let place = seq![room];
    if !s.pending.contains_key(place) {
        (
            UasView {
                pending: s.pending.insert(
                    place,
                    PendingView { dialog, leg, audio_codec: codec },
                ),
                ..s
            },
            PairView::Parked,
        )
    } else {
        let first = s.pending[place];
        let taken = UasView { pending: s.pending.remove(place), ..s };
        match (first.audio_codec, codec) {
            (Some(a), Some(b)) => if a == b {
                (taken, PairView::Bridge { pending: first, leg })
            } else if s.settings.has_transcoder {
                (taken, PairView::Transcode { pending: first, leg, codec_a: a, codec_b: b })
            } else {
                (s, PairView::Rejected(mismatch_refusal(a, b)))
            },
            _ => (taken, PairView::Bridge { pending: first, leg }),
        }
    }
}

/// The model of a decision on the media.
pub open spec fn attachment_view(r: Result<MediaAttachment, Rejection>) -> Result<
    MediaAttachment,
    RejectionView,
> {
    match r {
        Ok(a) => Ok(a),
        Err(e) => Err(e@),
    }
}

/// A bridge between two callers was asked for: `bridge` is the bridge, `None`
/// when it failed. Then the first goes on waiting.
pub open spec fn bridged_step(
    s: UasView,
    room: Seq<char>,
    first: PendingView,
    dialog: Seq<Seq<char>>,
    bridge: Option<u64>,
) -> (UasView, Result<MediaAttachment, RejectionView>) {
    match bridge {
        Some(b) => (
            UasView { bridges: s.bridges.insert(first.dialog, b).insert(dialog, b), ..s },
            Ok(MediaAttachment::Bridged),
        ),
        None => (
            UasView { pending: s.pending.insert(seq![room], first), ..s },
            Err(internal_refusal()),
        ),
    }
}

/// What a transcoder says.
#[derive(Copy, Clone, Debug, PartialEq, Eq, Structural)]
pub enum TranscodeReply {
    /// It runs this session.
    Session(u64),
    /// It has no capacity.
    Refused,
    /// It failed.
    Failed,
}

/// Transcoding between two callers was asked for. Where it is not to be had,
/// the first goes on waiting.
pub open spec fn transcoded_step(
    s: UasView,
    room: Seq<char>,
    first: PendingView,
    dialog: Seq<Seq<char>>,
    reply: TranscodeReply,
) -> (UasView, Result<MediaAttachment, RejectionView>) {
    let waiting = UasView { pending: s.pending.insert(seq![room], first), ..s };
    match reply {
        TranscodeReply::Session(x) => (
            UasView { sessions: s.sessions.insert(first.dialog, x).insert(dialog, x), ..s },
            Ok(MediaAttachment::Bridged),
        ),
        TranscodeReply::Refused => (waiting, Err(capacity_refusal())),
        TranscodeReply::Failed => (waiting, Err(internal_refusal())),
    }
}

fn mismatch(a: &str, b: &str) -> (r: Rejection)
    ensures
        r@ == mismatch_refusal(a@, b@),
{
    let mut m: String = "codec mismatch (".to_owned();
    m.append(a);
    m.append(" vs ");
    m.append(b);
    m.append(") and no transcoder configured");
    Rejection {
        status: 488,
        reason: "Not Acceptable Here",
        warning: Some(format_warning(399, &m)),
    }
}

impl UasServer {
    /// What to try next for the media of an INVITE. `has_leg` tells whether
    /// its peer told where it receives RTP.
    pub fn attach_plan(&self, req: &RequestSummary, has_leg: bool, tried: Tried) -> (r: AttachPlan)
        ensures
            r@ == plan_of(self@.settings, *req, has_leg, tried),
    {
        if !has_leg {
            return AttachPlan::Nothing;
        }
        match (&req.webrtc_tag, tried) {
            (Some(tag), Tried::Nothing) => {
                if self.settings.has_webrtc {
                    return AttachPlan::WebRtc { tag: tag.clone() };
                }
            },
            _ => {},
        }
        let room = match &req.ruri_user {
            Some(r) => r,
            None => {
                return AttachPlan::Nothing;
            },
        };
        let is_conference = match &self.settings.room_prefix {
            Some(prefix) => self.settings.has_mixer && text::has_prefix(
                &text::to_chars(room),
                &text::to_chars(prefix),
            ),
            None => false,
        };
        let declined = matches!(tried, Tried::Room);
        if is_conference && !declined {
            AttachPlan::Room { room: room.clone() }
        } else {
            AttachPlan::Rendezvous { room: room.clone() }
        }
    }

    /// The browser side took the leg: `bridge` is the bridge with its partner,
    /// `None` while that is still to come.
    pub fn webrtc_paired(&mut self, dialog: &DialogKey, bridge: Option<u64>) -> (r: MediaAttachment)
        requires
            old(self).wf(),
        ensures
            final(self).wf(),
            r == MediaAttachment::WebRtc,
            final(self)@ == (UasView {
                bridges: match bridge {
                    Some(b) => old(self)@.bridges.insert(dialog_path(*dialog), b),
                    None => old(self)@.bridges,
                },
                ..old(self)@
            }),
    {
        match bridge {
            Some(b) => {
                self.bridges.put(place_of(dialog), b);
            },
            None => {},
        }
        MediaAttachment::WebRtc
    }

    /// The conference room took the leg, in the given session.
    pub fn room_joined(&mut self, dialog: &DialogKey, session: u64) -> (r: MediaAttachment)
        requires
            old(self).wf(),
        ensures
            final(self).wf(),
            r == MediaAttachment::Conference,
            final(self)@ == (UasView {
                sessions: old(self)@.sessions.insert(dialog_path(*dialog), session),
                ..old(self)@
            }),
    {
        self.sessions.put(place_of(dialog), session);
        MediaAttachment::Conference
    }

    /// A leg comes to the rendezvous `room`.
    pub fn rendezvous_pair(
        &mut self,
        room: &str,
        dialog: &DialogKey,
        leg: BridgeLeg,
        audio_codec: Option<String>,
    ) -> (r: PairStep)
        requires
            old(self).wf(),
        ensures
            final(self).wf(),
            (final(self)@, r@) == pair_step(
                old(self)@,
                room@,
                dialog_path(*dialog),
                leg@,
                text::text_opt(audio_codec),
            ),
    {
        let first = match self.pending.take(&key1(room)) {
            Some(p) => p,
            None => {
                let waiting = PendingLeg { dialog: copy_dialog_key(dialog), leg, audio_codec };
                self.pending.put(key1(room), waiting);
                return PairStep::Parked;
            },
        };
        let codecs = match (&first.audio_codec, &audio_codec) {
            (Some(a), Some(b)) => if *a == *b {
                None
            } else {
                Some((a.clone(), b.clone()))
            },
            _ => None,
        };
        match codecs {
            Some((codec_a, codec_b)) => {
                if self.settings.has_transcoder {
                    PairStep::Transcode { pending: first, leg, codec_a, codec_b }
                } else {
                    self.pending.put(key1(room), first);
                    PairStep::Rejected(mismatch(&codec_a, &codec_b))
                }
            },
            None => PairStep::Bridge { pending: first, leg },
        }
    }

    /// A bridge between two callers was asked for.
    pub fn pair_bridged(
        &mut self,
        room: &str,
        first: PendingLeg,
        dialog: &DialogKey,
        bridge: Option<u64>,
    ) -> (r: Result<MediaAttachment, Rejection>)
        requires
            old(self).wf(),
        ensures
            final(self).wf(),
            (final(self)@, attachment_view(r)) == bridged_step(
                old(self)@,
                room@,
                first@,
                dialog_path(*dialog),
                bridge,
            ),
    {
        match bridge {
            Some(b) => {
                self.bridges.put(place_of(&first.dialog), b);
                self.bridges.put(place_of(dialog), b);
                Ok(MediaAttachment::Bridged)
            },
            None => {
                self.pending.put(key1(room), first);
                Err(Rejection { status: 500, reason: "Server Internal Error", warning: None })
            },
        }
    }

    /// Transcoding between two callers was asked for.
    pub fn try_orchestrate_transcoded(
        &mut self,
        room: &str,
        first: PendingLeg,
        dialog: &DialogKey,
        reply: TranscodeReply,
    ) -> (r: Result<MediaAttachment, Rejection>)
        requires
            old(self).wf(),
        ensures
            final(self).wf(),
            (final(self)@, attachment_view(r)) == transcoded_step(
                old(self)@,
                room@,
                first@,
                dialog_path(*dialog),
                reply,
            ),
    {
        match reply {
            TranscodeReply::Session(x) => {
                self.sessions.put(place_of(&first.dialog), x);
                self.sessions.put(place_of(dialog), x);
                Ok(MediaAttachment::Bridged)
            },
            TranscodeReply::Refused => {
                self.pending.put(key1(room), first);
                Err(
                    Rejection {
                        status: 503,
                        reason: "Service Unavailable",
                        warning: Some(format_warning(370, "transcoding capacity exhausted")),
                    },
                )
            },
            TranscodeReply::Failed => {
                self.pending.put(key1(room), first);
                Err(Rejection { status: 500, reason: "Server Internal Error", warning: None })
            },
        }
    }
}

// ---------------------------------------------------------------------
// Laws
// ---------------------------------------------------------------------

/// Two callers who dial one name, and whose codecs do not differ, are bridged
/// with each other, and each is then on the other side of the other's bridge.
pub proof fn two_callers_meet(
    s: UasView,
    room: Seq<char>,
    d1: Seq<Seq<char>>,
    leg1: BridgeLegView,
    codec1: Option<Seq<char>>,
    d2: Seq<Seq<char>>,
    leg2: BridgeLegView,
    codec2: Option<Seq<char>>,
    bridge: u64,
)
    requires
        !s.pending.contains_key(seq![room]),
        codec1 is None || codec2 is None || codec1 == codec2,
        d1 != d2,
        d1.len() == 3,
        d2.len() == 3,
    ensures
        ({
            let (s1, first) = pair_step(s, room, d1, leg1, codec1);
            let (s2, second) = pair_step(s1, room, d2, leg2, codec2);
            let waited = PendingView { dialog: d1, leg: leg1, audio_codec: codec1 };
            let (s3, attachment) = bridged_step(s2, room, waited, d2, Some(bridge));
            &&& first == PairView::Parked
            &&& second == (PairView::Bridge { pending: waited, leg: leg2 })
            &&& s2.pending == s.pending
            &&& attachment == Ok::<MediaAttachment, RejectionView>(MediaAttachment::Bridged)
            &&& is_partner(s3, d1, d2)
            &&& is_partner(s3, d2, d1)
        }),
{
    let s1 = pair_step(s, room, d1, leg1, codec1).0;
    let s2 = pair_step(s1, room, d2, leg2, codec2).0;
    assert(s2.pending =~= s.pending);
}

/// A caller who waits goes on waiting when the second one could not be
/// connected: whatever was refused, the next caller finds them.
pub proof fn refused_pairs_keep_the_first(
    s: UasView,
    room: Seq<char>,
    d: Seq<Seq<char>>,
    leg: BridgeLegView,
    codec: Option<Seq<char>>,
    reply: TranscodeReply,
)
    requires
        s.pending.contains_key(seq![room]),
    ensures
        ({
            let first = s.pending[seq![room]];
            let (s1, step) = pair_step(s, room, d, leg, codec);
            &&& step is Rejected ==> s1 == s
            &&& step is Bridge ==> bridged_step(s1, room, first, d, None).0 == s
            &&& step is Transcode && transcoded_step(s1, room, first, d, reply).1 is Err
                ==> transcoded_step(s1, room, first, d, reply).0 == s
        }),
{
    let first = s.pending[seq![room]];
    assert(s.pending.remove(seq![room]).insert(seq![room], first) =~= s.pending);
    let (s1, step) = pair_step(s, room, d, leg, codec);
    assert(bridged_step(s1, room, first, d, None).0 =~= s || !(step is Bridge));
    assert(transcoded_step(s1, room, first, d, reply).0 =~= s || !(step is Transcode)
        || transcoded_step(s1, room, first, d, reply).1 is Ok);
}

} // verus!
