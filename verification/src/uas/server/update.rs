//! Requests that change a dialog: re-INVITE and UPDATE.
//!
//! `open_update` checks the request and says what its media needs. Once that
//! is there, `apply_leg_media` re-points the media, and `conclude_update`
//! commits the change and answers.

use vstd::prelude::*;

use super::super::offer::{
    bridge_leg_of, leg_of, offer_refusal, reject_offer, AcceptedOffer, BridgeLeg, BridgeLegView,
    LegMedia, LegView, OfferError, OfferView,
};
use super::super::session_timer::{
    agreement, negotiate_session_timer, session_timer_headers, SessionTimerAgreement,
};
use super::super::summary::{carries_sdp, in_dialog_key, named_dialog, RequestSummary};
use super::dispatch::answer_step;
use super::invite::{ok_extras, ok_headers, rearm_step, refuse_step, rejection_reply, released};
use super::respond::{plain, respond_step, Reply, ReplyView};
use super::teardown::{dialog_opt, is_partner, partner_found};
use super::{emit, outputs, Moment, UasCommand, UasCommandView, UasServer, UasView};
use crate::record::{
    copy_addr, copy_text, dialog_path, place_of, DialogKey, DialogRecord, MediaAddr, RecordView,
};
use crate::table::key_view;
use crate::text;

verus! {

// ---------------------------------------------------------------------
// Checks
// ---------------------------------------------------------------------

/// What the sequence number of a request inside a dialog says.
#[derive(Copy, Clone, Debug, PartialEq, Eq, Structural)]
pub enum CseqVerdict {
    /// It is there and larger than the last one.
    Fresh,
    /// There is none.
    Absent,
    /// It is no larger than the last one.
    OutOfOrder,
}

/// What a sequence number says, after the last one.
pub open spec fn cseq_verdict(cseq: Option<u32>, last: Option<u32>) -> CseqVerdict {
    match cseq {
        None => CseqVerdict::Absent,
        Some(n) => match last {
            Some(prev) => if n <= prev {
                CseqVerdict::OutOfOrder
            } else {
                CseqVerdict::Fresh
            },
            None => CseqVerdict::Fresh,
        },
    }
}

/// What a sequence number says, after the last one.
pub fn check_cseq(cseq: Option<u32>, last: Option<u32>) -> (r: CseqVerdict)
    ensures
        r == cseq_verdict(cseq, last),
{
    match cseq {
        None => CseqVerdict::Absent,
        Some(n) => match last {
            Some(prev) => if n <= prev {
                CseqVerdict::OutOfOrder
            } else {
                CseqVerdict::Fresh
            },
            None => CseqVerdict::Fresh,
        },
    }
}

/// What the media of a change needs.
#[derive(Debug)]
pub enum MediaPlan {
    /// Nothing: the answer has no body.
    Nothing,
    /// The engine's own offer, for media received at this port.
    OwnOffer {
        /// The port.
        port: u16,
    },
    /// An answer to the peer's offer, for the endpoint that the dialog has.
    Existing {
        /// The endpoint.
        endpoint: u64,
        /// Its port.
        port: u16,
    },
    /// A new endpoint, and an answer to the peer's offer for it.
    Allocate,
}

/// What the media of a change needs. An UPDATE without an offer refreshes the
/// session and nothing else.
pub open spec fn media_plan(record: RecordView, req: RequestSummary) -> MediaPlan {
    if !carries_sdp(req@) {
        match record.local_media {
            Some(local) => if req@.method == "UPDATE"@ {
                MediaPlan::Nothing
            } else {
                MediaPlan::OwnOffer { port: local.1 }
            },
            None => MediaPlan::Nothing,
        }
    } else {
        match (record.media, record.local_media) {
            (Some(endpoint), Some(local)) => MediaPlan::Existing { endpoint, port: local.1 },
            _ => MediaPlan::Allocate,
        }
    }
}

/// A change that passed the checks.
#[derive(Debug)]
pub struct OpenUpdate {
    /// The dialog.
    pub dialog: DialogKey,
    /// The engine's tag.
    pub local_tag: String,
    /// The session timer that was agreed on.
    pub timer: Option<SessionTimerAgreement>,
    /// What its media needs.
    pub plan: MediaPlan,
}

/// Model of an [`OpenUpdate`].
#[verifier::ext_equal]
pub struct OpenUpdateView {
    pub dialog: Seq<Seq<char>>,
    pub local_tag: Seq<char>,
    pub timer: Option<SessionTimerAgreement>,
    pub plan: MediaPlan,
}

impl View for OpenUpdate {
    type V = OpenUpdateView;

    open spec fn view(&self) -> OpenUpdateView {
        OpenUpdateView {
            dialog: dialog_path(self.dialog),
            local_tag: self.local_tag@,
            timer: self.timer,
            plan: self.plan,
        }
    }
}

/// The model of an optional change.
pub open spec fn open_update_opt(o: Option<OpenUpdate>) -> Option<OpenUpdateView> {
    match o {
        Some(u) => Some(u@),
        None => None,
    }
}

/// Checks a request that changes a dialog: 400 for a re-INVITE that names no
/// dialog and 481 for an UPDATE; 481 for an unknown dialog; 400 without a
/// sequence number and 500 for one out of order; 422 for a session interval
/// that is too small.
pub open spec fn open_update_step(
    s: UasView,
    req: RequestSummary,
    peer: Seq<char>,
    now: Moment,
) -> (UasView, Seq<UasCommandView>, Option<OpenUpdateView>) {
    match named_dialog(req@) {
        None => {
            let (s1, c) = if req@.method == "UPDATE"@ {
                answer_step(s, req, 481, "Call/Transaction Does Not Exist"@, peer, now)
            } else {
                answer_step(s, req, 400, "Bad Request"@, peer, now)
            };
            (s1, c, None)
        },
        Some(d) => if !s.dialogs.contains_key(d) {
            let (s1, c) = answer_step(
                s,
                req,
                481,
                "Call/Transaction Does Not Exist"@,
                peer,
                now,
            );
            (s1, c, None)
        } else {
            let record = s.dialogs[d];
            match cseq_verdict(req.cseq, record.remote_cseq) {
                CseqVerdict::Absent => {
                    let (s1, c) = respond_step(
                        s,
                        req,
                        plain(400, "Bad Request"@, record.local_tag),
                        peer,
                    );
                    (s1, c, None)
                },
                CseqVerdict::OutOfOrder => {
                    let (s1, c) = respond_step(
                        s,
                        req,
                        plain(500, "Server Internal Error"@, record.local_tag),
                        peer,
                    );
                    (s1, c, None)
                },
                CseqVerdict::Fresh => match agreement(s.settings.session_timer, req) {
                    Err(min_se) => {
                        let (s1, c) = refuse_step(
                            s,
                            req,
                            422,
                            "Session Interval Too Small"@,
                            seq![("Min-SE"@, text::decimal(min_se as nat))],
                            peer,
                            now,
                        );
                        (s1, c, None)
                    },
                    Ok(timer) => (
                        s,
                        seq![],
                        Some(
                            OpenUpdateView {
                                dialog: d,
                                local_tag: record.local_tag,
                                timer,
                                plan: media_plan(record, req),
                            },
                        ),
                    ),
                },
            }
        },
    }
}

fn plan_media(record: &DialogRecord, req: &RequestSummary) -> (r: MediaPlan)
    ensures
        r == media_plan(record@, *req),
{
    if !req.has_sdp() {
        match &record.local_media {
            Some(local) => if req.method == "UPDATE".to_owned() {
                MediaPlan::Nothing
            } else {
                MediaPlan::OwnOffer { port: local.port }
            },
            None => MediaPlan::Nothing,
        }
    } else {
        match (record.media, &record.local_media) {
            (Some(endpoint), Some(local)) => MediaPlan::Existing { endpoint, port: local.port },
            _ => MediaPlan::Allocate,
        }
    }
}

impl UasServer {
    /// Checks a request that changes a dialog, a re-INVITE or an UPDATE, and
    /// says what its media needs. `None`: it was refused.
    pub fn open_update(
        &mut self,
        out: &mut Vec<UasCommand>,
        req: &RequestSummary,
        peer: &str,
        now: &Moment,
    ) -> (r: Option<OpenUpdate>)
        requires
            old(self).wf(),
        ensures
            final(self).wf(),
            ({
                let (s, c, opened) = open_update_step(old(self)@, *req, peer@, *now);
                &&& final(self)@ == s
                &&& outputs(final(out)@) == outputs(old(out)@) + c
                &&& open_update_opt(r) == opened
            }),
    {
        let dialog = match in_dialog_key(req) {
            Some(k) => k,
            None => {
                if req.method == "UPDATE".to_owned() {
                    self.answer(out, req, 481, "Call/Transaction Does Not Exist", peer, now);
                } else {
                    self.answer(out, req, 400, "Bad Request", peer, now);
                }
                return None;
            },
        };
        let record = match self.dialog(&dialog) {
            Some(rec) => rec,
            None => {
                self.answer(out, req, 481, "Call/Transaction Does Not Exist", peer, now);
                return None;
            },
        };
        match check_cseq(req.cseq, record.remote_cseq) {
            CseqVerdict::Absent => {
                self.respond_plain(out, req, 400, "Bad Request", &record.local_tag, peer);
                return None;
            },
            CseqVerdict::OutOfOrder => {
                self.respond_plain(out, req, 500, "Server Internal Error", &record.local_tag, peer);
                return None;
            },
            CseqVerdict::Fresh => {},
        }
        match negotiate_session_timer(&self.settings.session_timer, req) {
            Err(min_se) => {
                self.respond_interval_too_small(out, req, min_se, peer, now);
                None
            },
            Ok(timer) => {
                assert(outputs(out@) + seq![] =~= outputs(out@));
                let plan = plan_media(&record, req);
                Some(OpenUpdate { dialog, local_tag: record.local_tag, timer, plan })
            },
        }
    }

    /// Refuses a change because there was no endpoint to be had.
    pub fn refuse_update(
        &mut self,
        out: &mut Vec<UasCommand>,
        req: &RequestSummary,
        local_tag: &str,
        peer: &str,
    )
        requires
            old(self).wf(),
        ensures
            final(self).wf(),
            ({
                let (s, c) = respond_step(
                    old(self)@,
                    *req,
                    plain(500, "Server Internal Error"@, local_tag@),
                    peer@,
                );
                final(self)@ == s && outputs(final(out)@) == outputs(old(out)@) + c
            }),
    {
        self.respond_plain(out, req, 500, "Server Internal Error", local_tag, peer);
    }

    /// Refuses a change because its offer was refused. An endpoint that was
    /// allocated for it is released.
    pub fn refuse_update_offer(
        &mut self,
        out: &mut Vec<UasCommand>,
        req: &RequestSummary,
        new_endpoint: Option<u64>,
        local_tag: &str,
        e: &OfferError,
        peer: &str,
    )
        requires
            old(self).wf(),
        ensures
            final(self).wf(),
            ({
                let (s, c) = respond_step(
                    old(self)@,
                    *req,
                    rejection_reply(offer_refusal(*e), local_tag@),
                    peer@,
                );
                &&& final(self)@ == s
                &&& outputs(final(out)@) == outputs(old(out)@) + released(new_endpoint) + c
            }),
    {
        self.release(out, new_endpoint);
        let rejection = reject_offer(e);
        self.reject_invite(out, req, local_tag, &rejection, peer);
    }
}

// ---------------------------------------------------------------------
// Re-pointing the media
// ---------------------------------------------------------------------

/// What re-pointing the media needs.
#[derive(Debug)]
pub enum LegStep {
    /// Nothing.
    Settled,
    /// A new bridge between these legs. The old one is released.
    Rebuild {
        /// The dialog's own leg.
        leg: BridgeLeg,
        /// The leg on the other side.
        other_leg: BridgeLeg,
        /// The dialog on the other side.
        other: DialogKey,
    },
}

/// The dialog's media is other than it was.
pub open spec fn media_moved(s: UasView, dialog: Seq<Seq<char>>, new: LegView) -> bool {
    !s.legs.contains_key(dialog) || s.legs[dialog] != new
}

/// The legs of the bridge that is to be rebuilt, with `partner` on the other
/// side; `None` when none is.
pub open spec fn rebuild_plan(
    s: UasView,
    dialog: Seq<Seq<char>>,
    new: LegView,
    partner: Option<Seq<Seq<char>>>,
) -> Option<(BridgeLegView, BridgeLegView)> {
    match partner {
        Some(p) => if media_moved(s, dialog, new) && s.legs.contains_key(p) && bridge_leg_of(new)
            is Some && bridge_leg_of(s.legs[p]) is Some {
            Some((bridge_leg_of(new)->0, bridge_leg_of(s.legs[p])->0))
        } else {
            None
        },
        None => None,
    }
}

/// The server once the dialog's media is re-pointed. A session of the dialog
/// stays with it: it runs on against the old address until the dialog ends.
pub open spec fn repointed(s: UasView, dialog: Seq<Seq<char>>, new: LegView) -> UasView {
    UasView { legs: s.legs.insert(dialog, new), ..s }
}

/// `r` is what re-pointing needs, and `c` what it does outside, with `partner`
/// on the other side of the bridge.
pub open spec fn leg_settled(
    s: UasView,
    dialog: Seq<Seq<char>>,
    new: LegView,
    partner: Option<Seq<Seq<char>>>,
    r: LegStep,
    c: Seq<UasCommandView>,
) -> bool {
    match rebuild_plan(s, dialog, new, partner) {
        Some((a, b)) => {
            &&& r matches LegStep::Rebuild { leg, other_leg, other }
            &&& leg@ == a
            &&& other_leg@ == b
            &&& Some(dialog_path(other)) == partner
            &&& c == seq![UasCommandView::ReleaseBridge(s.bridges[dialog])]
        },
        None => r is Settled && c == Seq::<UasCommandView>::empty(),
    }
}

impl UasServer {
    /// A dialog on the other side of the dialog's bridge.
    fn partner_of(&self, dialog: &DialogKey) -> (r: Option<DialogKey>)
        ensures
            partner_found(self@, dialog_path(*dialog), dialog_opt(r)),
    {
        let ghost d = dialog_path(*dialog);
        let bridge = match self.bridges.get(&place_of(dialog)) {
            Some(b) => b,
            None => {
                return None;
            },
        };
        let entries = self.bridges.entries();
        let mut i: usize = 0;
        while i < entries.len()
            invariant
                i <= entries@.len(),
                d == dialog_path(*dialog),
                self@.bridges.contains_key(d),
                self@.bridges[d] == bridge,
                forall|j: int| #![trigger entries@[j]]
                    0 <= j < entries@.len() ==> self@.bridges.contains_key(
                        key_view(entries@[j].0),
                    ) && self@.bridges[key_view(entries@[j].0)] == entries@[j].1,
                forall|j: int| #![trigger entries@[j]]
                    0 <= j < i ==> !is_partner(self@, d, key_view(entries@[j].0)),
            decreases entries.len() - i,
        {
            let k = &entries[i].0;
            if entries[i].1 == bridge && k.len() == 3 {
                let own = k[0] == dialog.0 && k[1] == dialog.1 && k[2] == dialog.2;
                let ghost p = key_view(*k);
                proof {
                    assert(own ==> p =~= d);
                    assert(p == d ==> p[0] == d[0] && p[1] == d[1] && p[2] == d[2]);
                }
                if !own {
                    let r: DialogKey = (k[0].clone(), k[1].clone(), k[2].clone());
                    assert(dialog_path(r) =~= p);
                    return Some(r);
                }
            }
            i = i + 1;
        }
        proof {
            assert forall|p: Seq<Seq<char>>| !#[trigger] is_partner(self@, d, p) by {
                if self@.bridges.contains_key(p) {
                    assert(self.bridges@.contains_key(p));
                    let j = choose|j: int|
                        0 <= j < entries@.len() && key_view((#[trigger] entries@[j]).0) == p;
                    assert(key_view(entries@[j].0) == p);
                }
            }
        }
        None
    }

    /// The leg of a dialog as it enters a bridge.
    fn leg_for_bridge(&mut self, dialog: &DialogKey) -> (r: Option<BridgeLeg>)
        requires
            old(self).wf(),
        ensures
            final(self).wf(),
            final(self)@ == old(self)@,
            match r {
                Some(l) => old(self)@.legs.contains_key(dialog_path(*dialog)) && bridge_leg_of(
                    old(self)@.legs[dialog_path(*dialog)],
                ) == Some(l@),
                None => old(self)@.legs.contains_key(dialog_path(*dialog)) ==> bridge_leg_of(
                    old(self)@.legs[dialog_path(*dialog)],
                ) is None,
            },
    {
        match self.legs.take(&place_of(dialog)) {
            Some(leg) => {
                let r = leg.bridge_leg();
                self.legs.put(place_of(dialog), leg);
                r
            },
            None => None,
        }
    }

    /// Stores the media of a dialog. Returns whether it is other than it was.
    fn store_leg(&mut self, dialog: &DialogKey, new: LegMedia) -> (r: bool)
        requires
            old(self).wf(),
        ensures
            final(self).wf(),
            r == media_moved(old(self)@, dialog_path(*dialog), new@),
            final(self)@ == (UasView {
                legs: old(self)@.legs.insert(dialog_path(*dialog), new@),
                ..old(self)@
            }),
    {
        let moved = match self.legs.take(&place_of(dialog)) {
            Some(leg) => !leg.same(&new),
            None => true,
        };
        self.legs.put(place_of(dialog), new);
        assert(self@.legs =~= old(self)@.legs.insert(dialog_path(*dialog), new@));
        moved
    }

    /// Re-points the media of a dialog to what an accepted offer says. Where
    /// it moved and the dialog is bridged, the bridge is released, and a new
    /// one is needed.
    pub fn apply_leg_media(
        &mut self,
        out: &mut Vec<UasCommand>,
        dialog: &DialogKey,
        endpoint: u64,
        offer: &AcceptedOffer,
    ) -> (r: LegStep)
        requires
            old(self).wf(),
        ensures
            final(self).wf(),
            final(self)@ == repointed(
                old(self)@,
                dialog_path(*dialog),
                leg_of(endpoint, offer@),
            ),
            exists|partner: Option<Seq<Seq<char>>>, c: Seq<UasCommandView>| #[trigger]
                leg_settled(
                    old(self)@,
                    dialog_path(*dialog),
                    leg_of(endpoint, offer@),
                    partner,
                    r,
                    c,
                ) && partner_found(old(self)@, dialog_path(*dialog), partner) && outputs(
                    final(out)@,
                ) == outputs(old(out)@) + c,
    {
        let ghost before = outputs(out@);
        let ghost d = dialog_path(*dialog);
        let ghost s = self@;
        let ghost new_view = leg_of(endpoint, offer@);
        let ghost nothing = Seq::<UasCommandView>::empty();
        assert(before + nothing =~= before);
        let new = LegMedia::from_offer(endpoint, offer);
        let own_leg = new.bridge_leg();
        let moved = self.store_leg(dialog, new);
        let partner = self.partner_of(dialog);
        proof {
            assert(partner_found(s, d, dialog_opt(partner))) by {
                if partner is None {
                    assert forall|p: Seq<Seq<char>>| !#[trigger] is_partner(s, d, p) by {
                        assert(is_partner(self@, d, p) == is_partner(s, d, p));
                    }
                }
            }
        }
        if !moved {
            assert(leg_settled(s, d, new_view, dialog_opt(partner), LegStep::Settled, nothing));
            return LegStep::Settled;
        }
        let bridge = match self.bridges.get(&place_of(dialog)) {
            Some(b) => b,
            None => {
                proof {
                    if partner is Some {
                        assert(is_partner(s, d, dialog_path(partner->0)));
                    }
                    assert(leg_settled(
                        s,
                        d,
                        new_view,
                        dialog_opt(partner),
                        LegStep::Settled,
                        nothing,
                    ));
                }
                return LegStep::Settled;
            },
        };
        match partner {
            None => {
                assert(leg_settled(s, d, new_view, None, LegStep::Settled, nothing));
                LegStep::Settled
            },
            Some(other) => {
                let ghost p = dialog_path(other);
                assert(is_partner(s, d, p));
                let other_leg = self.leg_for_bridge(&other);
                match (own_leg, other_leg) {
                    (Some(leg), Some(other_leg)) => {
                        emit(out, UasCommand::ReleaseBridge(bridge));
                        let r = LegStep::Rebuild { leg, other_leg, other };
                        assert(leg_settled(
                            s,
                            d,
                            new_view,
                            Some(p),
                            r,
                            seq![UasCommandView::ReleaseBridge(s.bridges[d])],
                        ));
                        r
                    },
                    _ => {
                        assert(leg_settled(
                            s,
                            d,
                            new_view,
                            Some(p),
                            LegStep::Settled,
                            nothing,
                        ));
                        LegStep::Settled
                    },
                }
            },
        }
    }

    /// A new bridge between two dialogs was asked for: `bridge` is the bridge,
    /// `None` when it failed. Then neither is bridged any more.
    pub fn bridge_rebuilt(&mut self, dialog: &DialogKey, other: &DialogKey, bridge: Option<u64>)
        requires
            old(self).wf(),
        ensures
            final(self).wf(),
            final(self)@ == (UasView {
                bridges: match bridge {
                    Some(b) => old(self)@.bridges.insert(dialog_path(*dialog), b).insert(
                        dialog_path(*other),
                        b,
                    ),
                    None => old(self)@.bridges.remove(dialog_path(*dialog)).remove(
                        dialog_path(*other),
                    ),
                },
                ..old(self)@
            }),
    {
        match bridge {
            Some(b) => {
                self.bridges.put(place_of(dialog), b);
                self.bridges.put(place_of(other), b);
            },
            None => {
                self.bridges.take(&place_of(dialog));
                self.bridges.take(&place_of(other));
            },
        }
    }
}

// ---------------------------------------------------------------------
// Committing
// ---------------------------------------------------------------------

/// What a change came to.
#[derive(Debug)]
pub struct Renegotiation {
    /// Body of the answer; may be empty.
    pub body: String,
    /// The accepted offer, if the request had one.
    pub offer: Option<AcceptedOffer>,
    /// Endpoint that was allocated for it, and where it receives media.
    pub new_endpoint: Option<(u64, MediaAddr)>,
}

/// Model of a [`Renegotiation`].
#[verifier::ext_equal]
pub struct RenegotiationView {
    pub body: Seq<char>,
    pub offer: Option<OfferView>,
    pub new_endpoint: Option<(u64, (Seq<char>, u16))>,
}

impl View for Renegotiation {
    type V = RenegotiationView;

    open spec fn view(&self) -> RenegotiationView {
        RenegotiationView {
            body: self.body@,
            offer: match self.offer {
                Some(o) => Some(o@),
                None => None,
            },
            new_endpoint: match self.new_endpoint {
                Some(e) => Some((e.0, e.1@)),
                None => None,
            },
        }
    }
}

/// A dialog's record after a change.
pub open spec fn changed_record(
    record: RecordView,
    req: RequestSummary,
    reneg: RenegotiationView,
    timer: Option<SessionTimerAgreement>,
) -> RecordView {
    let numbered = RecordView {
        remote_cseq: req.cseq,
        last_invite_branch: if req@.method == "INVITE"@ {
            req@.branch
        } else {
            record.last_invite_branch
        },
        session_expires_secs: match timer {
            Some(t) => Some(t.interval_secs),
            None => None,
        },
        ..record
    };
    let placed = match reneg.new_endpoint {
        Some(e) => RecordView { media: Some(e.0), local_media: Some(e.1), ..numbered },
        None => numbered,
    };
    match reneg.offer {
        Some(o) => RecordView {
            remote_media: o.remote_media,
            ice: o.ice,
            audio_codec: o.audio_codec,
            video_codec: o.video_codec,
            ..placed
        },
        None => placed,
    }
}

/// Commits a change to the dialog's record.
pub open spec fn commit_step(
    s: UasView,
    req: RequestSummary,
    dialog: Seq<Seq<char>>,
    reneg: RenegotiationView,
    timer: Option<SessionTimerAgreement>,
) -> (UasView, Seq<UasCommandView>) {
    if s.dialogs.contains_key(dialog) {
        let record = changed_record(s.dialogs[dialog], req, reneg, timer);
        (
            UasView { dialogs: s.dialogs.insert(dialog, record), ..s },
            seq![UasCommandView::Upsert(record)],
        )
    } else {
        (s, seq![])
    }
}

/// The answer to a change.
pub open spec fn changed_reply(
    s: UasView,
    tag: Seq<char>,
    body: Seq<char>,
    timer: Option<SessionTimerAgreement>,
) -> ReplyView {
    ReplyView {
        status: 200,
        reason: "OK"@,
        tag: Some(tag),
        extras: ok_headers(s.settings.contact, timer, body.len() > 0),
        body: vstd::utf8::encode_utf8(body),
    }
}

/// Commits a change, answers it, and arms the session timer anew.
pub open spec fn conclude_step(
    s: UasView,
    req: RequestSummary,
    dialog: Seq<Seq<char>>,
    tag: Seq<char>,
    reneg: RenegotiationView,
    timer: Option<SessionTimerAgreement>,
    peer: Seq<char>,
) -> (UasView, Seq<UasCommandView>) {
    let (s1, c1) = commit_step(s, req, dialog, reneg, timer);
    let (s2, c2) = respond_step(s1, req, changed_reply(s1, tag, reneg.body, timer), peer);
    let (s3, c3) = rearm_step(s2, dialog, timer);
    (s3, c1 + c2 + c3)
}

fn change_record(
    record: &mut DialogRecord,
    req: &RequestSummary,
    reneg: &Renegotiation,
    timer: Option<SessionTimerAgreement>,
)
    ensures
        final(record)@ == changed_record(old(record)@, *req, reneg@, timer),
{
    record.remote_cseq = req.cseq;
    if req.method == "INVITE".to_owned() {
        record.last_invite_branch = copy_text(&req.branch);
    }
    record.session_expires_secs = match timer {
        Some(t) => Some(t.interval_secs),
        None => None,
    };
    match &reneg.new_endpoint {
        Some(e) => {
            record.media = Some(e.0);
            record.local_media = Some(e.1.duplicate());
        },
        None => {},
    }
    match &reneg.offer {
        Some(o) => {
            record.remote_media = copy_addr(&o.remote_media);
            record.ice = copy_text(&o.ice);
            record.audio_codec = copy_text(&o.audio_codec);
            record.video_codec = copy_text(&o.video_codec);
        },
        None => {},
    }
    assert(record@ =~= changed_record(old(record)@, *req, reneg@, timer));
}

impl UasServer {
    fn commit_in_dialog_update(
        &mut self,
        out: &mut Vec<UasCommand>,
        req: &RequestSummary,
        dialog: &DialogKey,
        reneg: &Renegotiation,
        timer: Option<SessionTimerAgreement>,
    )
        requires
            old(self).wf(),
        ensures
            final(self).wf(),
            ({
                let (s, c) = commit_step(old(self)@, *req, dialog_path(*dialog), reneg@, timer);
                final(self)@ == s && outputs(final(out)@) == outputs(old(out)@) + c
            }),
    {
        assert(outputs(out@) + seq![] =~= outputs(out@));
        match self.dialogs.take(&place_of(dialog)) {
            Some(rec) => {
                let mut rec = rec;
                change_record(&mut rec, req, reneg, timer);
                emit(out, UasCommand::Upsert(rec.duplicate()));
                self.dialogs.put(place_of(dialog), rec);
                assert(self@.dialogs =~= old(self)@.dialogs.insert(dialog_path(*dialog), rec@));
            },
            None => {},
        }
    }

    fn respond_changed(
        &mut self,
        out: &mut Vec<UasCommand>,
        req: &RequestSummary,
        tag: &str,
        body: &str,
        timer: Option<SessionTimerAgreement>,
        peer: &str,
    )
        requires
            old(self).wf(),
        ensures
            final(self).wf(),
            ({
                let (s, c) = respond_step(
                    old(self)@,
                    *req,
                    changed_reply(old(self)@, tag@, body@, timer),
                    peer@,
                );
                final(self)@ == s && outputs(final(out)@) == outputs(old(out)@) + c
            }),
    {
        let contact = self.settings.contact.clone();
        let timer_lines = session_timer_headers(timer);
        let extras = ok_extras(&contact, timer, &timer_lines, !body.is_empty());
        let bytes = text::to_bytes(body);
        let reply = Reply {
            status: 200,
            reason: "OK",
            tag: Some(tag),
            extras: extras.as_slice(),
            body: bytes.as_slice(),
        };
        assert(reply@ =~= changed_reply(old(self)@, tag@, body@, timer));
        self.respond(out, req, reply, peer);
    }

    /// Concludes a change: commits it to the record, answers 200, and arms the
    /// session timer anew or stops it.
    pub fn conclude_update(
        &mut self,
        out: &mut Vec<UasCommand>,
        req: &RequestSummary,
        update: &OpenUpdate,
        reneg: &Renegotiation,
        peer: &str,
    )
        requires
            old(self).wf(),
        ensures
            final(self).wf(),
            ({
                let (s, c) = conclude_step(
                    old(self)@,
                    *req,
                    dialog_path(update.dialog),
                    update.local_tag@,
                    reneg@,
                    update.timer,
                    peer@,
                );
                final(self)@ == s && outputs(final(out)@) == outputs(old(out)@) + c
            }),
    {
        let ghost before = outputs(out@);
        let ghost goal = conclude_step(
            old(self)@,
            *req,
            dialog_path(update.dialog),
            update.local_tag@,
            reneg@,
            update.timer,
            peer@,
        );
        self.commit_in_dialog_update(out, req, &update.dialog, reneg, update.timer);
        self.respond_changed(out, req, &update.local_tag, &reneg.body, update.timer, peer);
        self.rearm_session_timer(out, &update.dialog, update.timer);
        assert(outputs(out@) =~= before + goal.1);
    }
}

} // verus!
