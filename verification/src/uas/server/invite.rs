//! INVITEs that begin a dialog.
//!
//! An INVITE passes `open_invite` and, once its sender is authenticated,
//! `admit_invite`. Then its media is negotiated (`negotiate_initial_offer`),
//! the tag of the dialog is settled (`settle_invite`), the media is attached
//! to the rest of the call, and `establish_dialog` answers. Each step may
//! answer with a refusal instead, and then there is no next one.

use vstd::prelude::*;

use super::super::compose::{headers_view, HeaderView};
use super::super::offer::{
    leg_of, negotiate_body, offer_refusal, offer_result, refusal_headers, reject_offer,
    AcceptedOffer, LegMedia, NegotiationOutcome, OfferError, OfferView, Rejection, RejectionView,
};
use super::super::parse::{contact_uri, first_contact_uri};
use super::super::session_timer::{
    agreement, expiry, expiry_nanos, negotiate_session_timer, session_timer_headers, timer_headers,
    SessionTimerAgreement,
};
use super::super::summary::RequestSummary;
use super::register::{challenge_reply, AuthOutcome};
use super::respond::{provisional_step, respond_step, Reply, ReplyView};
use super::{
    emit, outputs, tag_at, tagged, CdrInProgress, CdrStartView, Moment, UasCommand, UasCommandView,
    UasServer, UasView,
};
use crate::record::{
    copy_addr, copy_dialog_key, copy_list, copy_text, dialog_path, place_of, DialogKey,
    DialogRecord, DialogState, MediaAddr, RecordView,
};
use crate::table::key1;
use crate::text;

verus! {

// ---------------------------------------------------------------------
// The tag of the final response
// ---------------------------------------------------------------------

/// A CANCEL for this INVITE was accepted, and its final response is due.
pub open spec fn was_cancelled(s: UasView, req: RequestSummary) -> bool {
    req@.branch is Some && s.cancelled.contains_key(seq![req@.branch->0])
}

/// The tag of the INVITE's final response: that of the answer to its CANCEL if
/// there was one, else a fresh one.
pub open spec fn invite_tag(s: UasView, req: RequestSummary, now: Moment) -> (UasView, Seq<char>) {
    if was_cancelled(s, req) {
        let place = seq![req@.branch->0];
        (UasView { cancelled: s.cancelled.remove(place), ..s }, s.cancelled[place])
    } else {
        (tagged(s), tag_at(s, now))
    }
}

/// Refuses an INVITE.
pub open spec fn refuse_step(
    s: UasView,
    req: RequestSummary,
    status: u16,
    reason: Seq<char>,
    extras: Seq<HeaderView>,
    peer: Seq<char>,
    now: Moment,
) -> (UasView, Seq<UasCommandView>) {
    let (s1, tag) = invite_tag(s, req, now);
    respond_step(s1, req, ReplyView { status, reason, tag: Some(tag), extras, body: seq![] }, peer)
}

impl UasServer {
    /// `true` when a CANCEL for this INVITE was accepted, and its final
    /// response is due.
    pub fn invite_was_cancelled(&self, req: &RequestSummary) -> (r: bool)
        ensures
            r == was_cancelled(self@, *req),
    {
        match &req.branch {
            Some(b) => self.cancelled.has(&key1(b)),
            None => false,
        }
    }

    /// The tag of the INVITE's final response. The mark of its CANCEL is used
    /// up.
    pub fn take_invite_tag(&mut self, req: &RequestSummary, now: &Moment) -> (r: String)
        requires
            old(self).wf(),
        ensures
            final(self).wf(),
            (final(self)@, r@) == invite_tag(old(self)@, *req, *now),
    {
        match &req.branch {
            Some(b) => match self.cancelled.take(&key1(b)) {
                Some(tag) => tag,
                None => self.next_tag(now),
            },
            None => self.next_tag(now),
        }
    }

    /// Refuses an INVITE.
    fn refuse(
        &mut self,
        out: &mut Vec<UasCommand>,
        req: &RequestSummary,
        status: u16,
        reason: &str,
        extras: &[(&str, &str)],
        peer: &str,
        now: &Moment,
    )
        requires
            old(self).wf(),
        ensures
            final(self).wf(),
            ({
                let (s, c) = refuse_step(
                    old(self)@,
                    *req,
                    status,
                    reason@,
                    headers_view(extras@),
                    peer@,
                    *now,
                );
                final(self)@ == s && outputs(final(out)@) == outputs(old(out)@) + c
            }),
    {
        let tag = self.take_invite_tag(req, now);
        let no_body: [u8; 0] = [];
        assert(no_body@ =~= seq![]);
        self.respond(
            out,
            req,
            Reply { status, reason, tag: Some(&tag), extras, body: &no_body },
            peer,
        );
    }

    fn refuse_plain(
        &mut self,
        out: &mut Vec<UasCommand>,
        req: &RequestSummary,
        status: u16,
        reason: &str,
        peer: &str,
        now: &Moment,
    )
        requires
            old(self).wf(),
        ensures
            final(self).wf(),
            ({
                let (s, c) = refuse_step(old(self)@, *req, status, reason@, seq![], peer@, *now);
                final(self)@ == s && outputs(final(out)@) == outputs(old(out)@) + c
            }),
    {
        let no_headers: [(&str, &str); 0] = [];
        assert(headers_view(no_headers@) =~= seq![]);
        self.refuse(out, req, status, reason, &no_headers, peer, now);
    }

    /// Answers a refusal that the media led to.
    pub fn reject_invite(
        &mut self,
        out: &mut Vec<UasCommand>,
        req: &RequestSummary,
        tag: &str,
        rejection: &Rejection,
        peer: &str,
    )
        requires
            old(self).wf(),
        ensures
            final(self).wf(),
            ({
                let (s, c) = respond_step(
                    old(self)@,
                    *req,
                    rejection_reply(rejection@, tag@),
                    peer@,
                );
                final(self)@ == s && outputs(final(out)@) == outputs(old(out)@) + c
            }),
    {
        let mut extras: Vec<(&str, &str)> = Vec::new();
        match &rejection.warning {
            Some(w) => {
                extras.push(("Warning", w.as_str()));
            },
            None => {},
        }
        if rejection.status == 503 {
            extras.push(("Retry-After", "5"));
        }
        assert(headers_view(extras@) =~= refusal_headers(rejection@));
        let no_body: [u8; 0] = [];
        assert(no_body@ =~= seq![]);
        self.respond(
            out,
            req,
            Reply {
                status: rejection.status,
                reason: rejection.reason,
                tag: Some(tag),
                extras: extras.as_slice(),
                body: &no_body,
            },
            peer,
        );
    }
}

/// The response of a refusal.
pub open spec fn rejection_reply(r: RejectionView, tag: Seq<char>) -> ReplyView {
    ReplyView {
        status: r.status,
        reason: r.reason,
        tag: Some(tag),
        extras: refusal_headers(r),
        body: seq![],
    }
}

// ---------------------------------------------------------------------
// Admission
// ---------------------------------------------------------------------

/// Takes an INVITE before its sender is authenticated. One that was cancelled
/// is answered 487, and one that comes while the engine drains 503. The last
/// component tells whether it goes on.
pub open spec fn open_invite_step(
    s: UasView,
    req: RequestSummary,
    peer: Seq<char>,
    now: Moment,
) -> (UasView, Seq<UasCommandView>, bool) {
    if was_cancelled(s, req) {
        let (s1, c) = refuse_step(s, req, 487, "Request Terminated"@, seq![], peer, now);
        (s1, c, false)
    } else if s.settings.draining {
        let (s1, c) = refuse_step(
            s,
            req,
            503,
            "Service Unavailable"@,
            seq![("Retry-After"@, "0"@)],
            peer,
            now,
        );
        (s1, c, false)
    } else {
        (s, seq![], true)
    }
}

/// What an admitted INVITE goes on with.
#[derive(Debug)]
pub struct AdmittedInvite {
    /// Call-ID.
    pub call_id: String,
    /// The peer's tag.
    pub remote_tag: String,
    /// The session timer that was agreed on.
    pub timer: Option<SessionTimerAgreement>,
}

/// Model of an [`AdmittedInvite`].
#[verifier::ext_equal]
pub struct AdmittedView {
    pub call_id: Seq<char>,
    pub remote_tag: Seq<char>,
    pub timer: Option<SessionTimerAgreement>,
}

impl View for AdmittedInvite {
    type V = AdmittedView;

    open spec fn view(&self) -> AdmittedView {
        AdmittedView { call_id: self.call_id@, remote_tag: self.remote_tag@, timer: self.timer }
    }
}

/// A text that is there and not empty.
pub open spec fn present(o: Option<Seq<char>>) -> bool {
    o is Some && o->0.len() > 0
}

/// Takes an INVITE whose sender may place it: 100, then 400 without a Call-ID
/// or a `From` tag, or 422 for a session interval that is too small.
pub open spec fn proceed_step(s: UasView, req: RequestSummary, peer: Seq<char>, now: Moment) -> (
    UasView,
    Seq<UasCommandView>,
    Option<AdmittedView>,
) {
    let (s1, c1) = provisional_step(s, req, 100, "Trying"@, peer);
    if !present(req@.call_id) || !present(req@.from_tag) {
        let (s2, c2) = refuse_step(s1, req, 400, "Bad Request"@, seq![], peer, now);
        (s2, c1 + c2, None)
    } else {
        match agreement(s.settings.session_timer, req) {
            Err(min_se) => {
                let (s2, c2) = refuse_step(
                    s1,
                    req,
                    422,
                    "Session Interval Too Small"@,
                    seq![("Min-SE"@, text::decimal(min_se as nat))],
                    peer,
                    now,
                );
                (s2, c1 + c2, None)
            },
            Ok(timer) => (
                s1,
                c1,
                Some(
                    AdmittedView {
                        call_id: req@.call_id->0,
                        remote_tag: req@.from_tag->0,
                        timer,
                    },
                ),
            ),
        }
    }
}

/// Takes an INVITE once its authentication is settled: `auth` is what it led
/// to, `None` when nobody has to authenticate.
pub open spec fn admit_invite_step(
    s: UasView,
    req: RequestSummary,
    auth: Option<AuthOutcome>,
    peer: Seq<char>,
    now: Moment,
) -> (UasView, Seq<UasCommandView>, Option<AdmittedView>) {
    match auth {
        Some(AuthOutcome::Challenge(challenge)) => {
            let (s1, tag) = invite_tag(s, req, now);
            let (s2, c) = respond_step(s1, req, challenge_reply(challenge@, tag), peer);
            (s2, c, None)
        },
        Some(AuthOutcome::Failed) => {
            let (s1, c) = refuse_step(
                s,
                req,
                500,
                "Server Internal Error"@,
                seq![],
                peer,
                now,
            );
            (s1, c, None)
        },
        _ => proceed_step(s, req, peer, now),
    }
}

/// The model of an optional admission.
pub open spec fn admitted_opt(o: Option<AdmittedInvite>) -> Option<AdmittedView> {
    match o {
        Some(a) => Some(a@),
        None => None,
    }
}

impl UasServer {
    /// Takes an INVITE before its sender is authenticated. Returns whether it
    /// goes on.
    pub fn open_invite(
        &mut self,
        out: &mut Vec<UasCommand>,
        req: &RequestSummary,
        peer: &str,
        now: &Moment,
    ) -> (r: bool)
        requires
            old(self).wf(),
        ensures
            final(self).wf(),
            ({
                let (s, c, goes_on) = open_invite_step(old(self)@, *req, peer@, *now);
                &&& final(self)@ == s
                &&& outputs(final(out)@) == outputs(old(out)@) + c
                &&& r == goes_on
            }),
    {
        if self.invite_was_cancelled(req) {
            self.refuse_plain(out, req, 487, "Request Terminated", peer, now);
            return false;
        }
        if self.settings.draining {
            let extras: [(&str, &str); 1] = [("Retry-After", "0")];
            proof {
                let wanted = seq![("Retry-After"@, "0"@)];
                assert(headers_view(extras@) =~= wanted);
            }
            self.refuse(out, req, 503, "Service Unavailable", &extras, peer, now);
            return false;
        }
        assert(outputs(out@) + seq![] =~= outputs(out@));
        true
    }

    /// Answers a request for too small a session interval.
    pub fn respond_interval_too_small(
        &mut self,
        out: &mut Vec<UasCommand>,
        req: &RequestSummary,
        min_se: u32,
        peer: &str,
        now: &Moment,
    )
        requires
            old(self).wf(),
        ensures
            final(self).wf(),
            ({
                let (s, c) = refuse_step(
                    old(self)@,
                    *req,
                    422,
                    "Session Interval Too Small"@,
                    seq![("Min-SE"@, text::decimal(min_se as nat))],
                    peer@,
                    *now,
                );
                final(self)@ == s && outputs(final(out)@) == outputs(old(out)@) + c
            }),
    {
        let value = text::decimal_string(min_se as u64);
        let extras: [(&str, &str); 1] = [("Min-SE", value.as_str())];
        proof {
            let wanted = seq![("Min-SE"@, text::decimal(min_se as nat))];
            assert(headers_view(extras@) =~= wanted);
        }
        self.refuse(out, req, 422, "Session Interval Too Small", &extras, peer, now);
    }

    fn proceed(
        &mut self,
        out: &mut Vec<UasCommand>,
        req: &RequestSummary,
        peer: &str,
        now: &Moment,
    ) -> (r: Option<AdmittedInvite>)
        requires
            old(self).wf(),
        ensures
            final(self).wf(),
            ({
                let (s, c, admitted) = proceed_step(old(self)@, *req, peer@, *now);
                &&& final(self)@ == s
                &&& outputs(final(out)@) == outputs(old(out)@) + c
                &&& admitted_opt(r) == admitted
            }),
    {
        let ghost before = outputs(out@);
        let ghost goal = proceed_step(old(self)@, *req, peer@, *now);
        self.send_provisional(out, req, 100, "Trying", peer);
        let (call_id, remote_tag) = match (&req.call_id, &req.from_tag) {
            (Some(c), Some(f)) => {
                if c.as_str().is_empty() || f.as_str().is_empty() {
                    self.refuse_plain(out, req, 400, "Bad Request", peer, now);
                    assert(outputs(out@) =~= before + goal.1);
                    return None;
                }
                (c.clone(), f.clone())
            },
            _ => {
                self.refuse_plain(out, req, 400, "Bad Request", peer, now);
                assert(outputs(out@) =~= before + goal.1);
                return None;
            },
        };
        match negotiate_session_timer(&self.settings.session_timer, req) {
            Ok(timer) => Some(AdmittedInvite { call_id, remote_tag, timer }),
            Err(min_se) => {
                self.respond_interval_too_small(out, req, min_se, peer, now);
                assert(outputs(out@) =~= before + goal.1);
                None
            },
        }
    }

    /// Takes an INVITE once its authentication is settled: `auth` is what it
    /// led to, `None` when nobody has to authenticate.
    pub fn admit_invite(
        &mut self,
        out: &mut Vec<UasCommand>,
        req: &RequestSummary,
        auth: Option<AuthOutcome>,
        peer: &str,
        now: &Moment,
    ) -> (r: Option<AdmittedInvite>)
        requires
            old(self).wf(),
        ensures
            final(self).wf(),
            ({
                let (s, c, admitted) = admit_invite_step(old(self)@, *req, auth, peer@, *now);
                &&& final(self)@ == s
                &&& outputs(final(out)@) == outputs(old(out)@) + c
                &&& admitted_opt(r) == admitted
            }),
    {
        match auth {
            Some(AuthOutcome::Challenge(challenge)) => {
                let tag = self.take_invite_tag(req, now);
                self.respond_challenge(out, req, &challenge, &tag, peer);
                None
            },
            Some(AuthOutcome::Failed) => {
                self.refuse_plain(out, req, 500, "Server Internal Error", peer, now);
                None
            },
            Some(AuthOutcome::Authenticated(_)) => self.proceed(out, req, peer, now),
            None => self.proceed(out, req, peer, now),
        }
    }
}

// ---------------------------------------------------------------------
// Media
// ---------------------------------------------------------------------

/// What came of the media that an INVITE asks for.
#[derive(Debug)]
pub enum MediaReply {
    /// It asks for none.
    NotAsked,
    /// There was no endpoint to be had.
    NoEndpoint,
    /// An endpoint was allocated, and the offer was held against it.
    Negotiated {
        /// The endpoint.
        endpoint: u64,
        /// Where the engine receives media.
        local: MediaAddr,
        /// What the negotiator made of the offer.
        outcome: NegotiationOutcome,
    },
}

/// The media of a new dialog.
#[derive(Debug)]
pub struct NegotiatedMedia {
    /// The endpoint.
    pub endpoint: u64,
    /// Where the engine receives media.
    pub local: MediaAddr,
    /// The accepted offer.
    pub offer: AcceptedOffer,
}

/// Model of a [`NegotiatedMedia`].
#[verifier::ext_equal]
pub struct MediaView {
    pub endpoint: u64,
    pub local: (Seq<char>, u16),
    pub offer: OfferView,
}

impl View for NegotiatedMedia {
    type V = MediaView;

    open spec fn view(&self) -> MediaView {
        MediaView { endpoint: self.endpoint, local: self.local@, offer: self.offer@ }
    }
}

/// The model of optional media.
pub open spec fn media_opt(o: Option<NegotiatedMedia>) -> Option<MediaView> {
    match o {
        Some(m) => Some(m@),
        None => None,
    }
}

/// Refuses an INVITE whose offer was refused: the endpoint is released first.
pub open spec fn bad_offer_step(
    s: UasView,
    req: RequestSummary,
    endpoint: u64,
    e: OfferError,
    peer: Seq<char>,
    now: Moment,
) -> (UasView, Seq<UasCommandView>) {
    let (s1, tag) = invite_tag(s, req, now);
    let (s2, c) = respond_step(s1, req, rejection_reply(offer_refusal(e), tag), peer);
    (s2, seq![UasCommandView::ReleaseEndpoint(endpoint)] + c)
}

impl UasServer {
    fn refuse_offer(
        &mut self,
        out: &mut Vec<UasCommand>,
        req: &RequestSummary,
        endpoint: u64,
        e: &OfferError,
        peer: &str,
        now: &Moment,
    )
        requires
            old(self).wf(),
        ensures
            final(self).wf(),
            ({
                let (s, c) = bad_offer_step(old(self)@, *req, endpoint, *e, peer@, *now);
                final(self)@ == s && outputs(final(out)@) == outputs(old(out)@) + c
            }),
    {
        let ghost before = outputs(out@);
        emit(out, UasCommand::ReleaseEndpoint(endpoint));
        let tag = self.take_invite_tag(req, now);
        let rejection = reject_offer(e);
        self.reject_invite(out, req, &tag, &rejection, peer);
        assert(outputs(out@) =~= before + bad_offer_step(
            old(self)@,
            *req,
            endpoint,
            *e,
            peer@,
            *now,
        ).1);
    }

    /// Takes what came of the media that an INVITE asks for. `Err`: the INVITE
    /// was refused. An INVITE without an offer begins a dialog without media.
    pub fn negotiate_initial_offer(
        &mut self,
        out: &mut Vec<UasCommand>,
        req: &RequestSummary,
        reply: MediaReply,
        default_clock_rate: u32,
        peer: &str,
        now: &Moment,
    ) -> (r: Result<Option<NegotiatedMedia>, ()>)
        requires
            old(self).wf(),
        ensures
            final(self).wf(),
            match reply {
                MediaReply::NotAsked => {
                    &&& r == Ok::<Option<NegotiatedMedia>, ()>(None)
                    &&& final(self)@ == old(self)@
                    &&& outputs(final(out)@) == outputs(old(out)@)
                },
                MediaReply::NoEndpoint => {
                    let (s, c) = refuse_step(
                        old(self)@,
                        *req,
                        500,
                        "Server Internal Error"@,
                        seq![],
                        peer@,
                        *now,
                    );
                    &&& r is Err
                    &&& final(self)@ == s
                    &&& outputs(final(out)@) == outputs(old(out)@) + c
                },
                MediaReply::Negotiated { endpoint, local, outcome } => match offer_result(
                    outcome,
                    default_clock_rate,
                ) {
                    Ok(offer) => {
                        &&& r matches Ok(Some(m))
                        &&& m@ == (MediaView { endpoint, local: local@, offer })
                        &&& final(self)@ == old(self)@
                        &&& outputs(final(out)@) == outputs(old(out)@)
                    },
                    Err(e) => {
                        let (s, c) = bad_offer_step(old(self)@, *req, endpoint, e, peer@, *now);
                        &&& r is Err
                        &&& final(self)@ == s
                        &&& outputs(final(out)@) == outputs(old(out)@) + c
                    },
                },
            },
    {
        match reply {
            MediaReply::NotAsked => Ok(None),
            MediaReply::NoEndpoint => {
                self.refuse_plain(out, req, 500, "Server Internal Error", peer, now);
                Err(())
            },
            MediaReply::Negotiated { endpoint, local, outcome } => {
                match negotiate_body(outcome, default_clock_rate) {
                    Ok(offer) => Ok(Some(NegotiatedMedia { endpoint, local, offer })),
                    Err(e) => {
                        self.refuse_offer(out, req, endpoint, &e, peer, now);
                        Err(())
                    },
                }
            },
        }
    }
}

impl UasServer {
    /// Settles the tag of the dialog that an INVITE begins. `None`: a CANCEL
    /// came in the meantime, and the INVITE was answered 487; its endpoint, if
    /// it has one, is released.
    pub fn settle_invite(
        &mut self,
        out: &mut Vec<UasCommand>,
        req: &RequestSummary,
        endpoint: Option<u64>,
        peer: &str,
        now: &Moment,
    ) -> (r: Option<String>)
        requires
            old(self).wf(),
        ensures
            final(self).wf(),
            if was_cancelled(old(self)@, *req) {
                let (s, c) = refuse_step(
                    old(self)@,
                    *req,
                    487,
                    "Request Terminated"@,
                    seq![],
                    peer@,
                    *now,
                );
                &&& r is None
                &&& final(self)@ == s
                &&& outputs(final(out)@) == outputs(old(out)@) + released(endpoint) + c
            } else {
                &&& r matches Some(tag) && tag@ == tag_at(old(self)@, *now)
                &&& final(self)@ == tagged(old(self)@)
                &&& outputs(final(out)@) == outputs(old(out)@)
            },
    {
        if self.invite_was_cancelled(req) {
            self.release(out, endpoint);
            self.refuse_plain(out, req, 487, "Request Terminated", peer, now);
            return None;
        }
        Some(self.take_invite_tag(req, now))
    }

    /// Releases an endpoint, if there is one.
    pub(super) fn release(&self, out: &mut Vec<UasCommand>, endpoint: Option<u64>)
        ensures
            outputs(final(out)@) == outputs(old(out)@) + released(endpoint),
    {
        assert(outputs(out@) + seq![] =~= outputs(out@));
        match endpoint {
            Some(e) => {
                emit(out, UasCommand::ReleaseEndpoint(e));
            },
            None => {},
        }
    }

    /// Refuses an INVITE whose media could not be attached to the rest of the
    /// call; its endpoint, if it has one, is released.
    pub fn refuse_attachment(
        &mut self,
        out: &mut Vec<UasCommand>,
        req: &RequestSummary,
        endpoint: Option<u64>,
        tag: &str,
        rejection: &Rejection,
        peer: &str,
    )
        requires
            old(self).wf(),
        ensures
            final(self).wf(),
            ({
                let (s, c) = respond_step(
                    old(self)@,
                    *req,
                    rejection_reply(rejection@, tag@),
                    peer@,
                );
                &&& final(self)@ == s
                &&& outputs(final(out)@) == outputs(old(out)@) + released(endpoint) + c
            }),
    {
        self.release(out, endpoint);
        self.reject_invite(out, req, tag, rejection, peer);
    }
}

/// What releases an endpoint, if there is one.
pub open spec fn released(endpoint: Option<u64>) -> Seq<UasCommandView> {
    match endpoint {
        Some(e) => seq![UasCommandView::ReleaseEndpoint(e)],
        None => seq![],
    }
}

// ---------------------------------------------------------------------
// The new dialog
// ---------------------------------------------------------------------

/// Arms the session timer of a dialog anew.
pub open spec fn arm_step(s: UasView, dialog: Seq<Seq<char>>, interval_secs: u32) -> (
    UasView,
    Seq<UasCommandView>,
) {
    let last: u64 = if s.timers.contains_key(dialog) {
        s.timers[dialog]
    } else {
        0
    };
    let generation = last.wrapping_add(1);
    (
        UasView { timers: s.timers.insert(dialog, generation), ..s },
        seq![UasCommandView::ArmSession { dialog, generation, after: expiry(interval_secs) }],
    )
}

/// Arms, or stops, the session timer of a dialog.
pub open spec fn rearm_step(
    s: UasView,
    dialog: Seq<Seq<char>>,
    timer: Option<SessionTimerAgreement>,
) -> (UasView, Seq<UasCommandView>) {
    match timer {
        Some(t) => arm_step(s, dialog, t.interval_secs),
        None => (
            UasView { timers: s.timers.remove(dialog), ..s },
            seq![UasCommandView::CancelSession(dialog)],
        ),
    }
}

/// What guards the duration of a call, if that is limited.
pub open spec fn guarded(s: UasView, dialog: Seq<Seq<char>>) -> Seq<UasCommandView> {
    match s.settings.max_call_duration {
        Some(after) => seq![UasCommandView::ArmGuard { dialog, after }],
        None => seq![],
    }
}

impl UasServer {
    /// Arms the session timer of a dialog anew.
    pub fn arm_session_timer(
        &mut self,
        out: &mut Vec<UasCommand>,
        dialog: &DialogKey,
        interval_secs: u32,
    )
        requires
            old(self).wf(),
        ensures
            final(self).wf(),
            ({
                let (s, c) = arm_step(old(self)@, dialog_path(*dialog), interval_secs);
                final(self)@ == s && outputs(final(out)@) == outputs(old(out)@) + c
            }),
    {
        let place = place_of(dialog);
        let last: u64 = match self.timers.get(&place) {
            Some(g) => g,
            None => 0,
        };
        let generation: u64 = last.wrapping_add(1);
        self.timers.put(place, generation);
        let after: u64 = expiry_nanos(interval_secs);
        emit(out, UasCommand::ArmSession { dialog: copy_dialog_key(dialog), generation, after });
    }

    /// Arms, or stops, the session timer of a dialog.
    pub fn rearm_session_timer(
        &mut self,
        out: &mut Vec<UasCommand>,
        dialog: &DialogKey,
        timer: Option<SessionTimerAgreement>,
    )
        requires
            old(self).wf(),
        ensures
            final(self).wf(),
            ({
                let (s, c) = rearm_step(old(self)@, dialog_path(*dialog), timer);
                final(self)@ == s && outputs(final(out)@) == outputs(old(out)@) + c
            }),
    {
        match timer {
            Some(t) => self.arm_session_timer(out, dialog, t.interval_secs),
            None => {
                self.timers.take(&place_of(dialog));
                emit(out, UasCommand::CancelSession(copy_dialog_key(dialog)));
            },
        }
    }

    fn arm_duration_guard(&self, out: &mut Vec<UasCommand>, dialog: &DialogKey)
        ensures
            outputs(final(out)@) == outputs(old(out)@) + guarded(self@, dialog_path(*dialog)),
    {
        assert(outputs(out@) + seq![] =~= outputs(out@));
        match self.settings.max_call_duration {
            Some(after) => {
                emit(out, UasCommand::ArmGuard { dialog: copy_dialog_key(dialog), after });
            },
            None => {},
        }
    }
}

/// The record of a dialog that an INVITE begins.
pub open spec fn new_record(
    s: UasView,
    req: RequestSummary,
    dialog: DialogKey,
    media: Option<MediaView>,
    timer: Option<SessionTimerAgreement>,
    peer: Seq<char>,
) -> RecordView {
    RecordView {
        call_id: dialog.0@,
        local_tag: dialog.1@,
        remote_tag: dialog.2@,
        state: DialogState::Early,
        peer_signal: peer,
        rendezvous: req@.ruri_user,
        media: match media {
            Some(m) => Some(m.endpoint),
            None => None,
        },
        remote_media: match media {
            Some(m) => m.offer.remote_media,
            None => None,
        },
        pending_2xx: None,
        audio_codec: match media {
            Some(m) => m.offer.audio_codec,
            None => None,
        },
        video_codec: match media {
            Some(m) => m.offer.video_codec,
            None => None,
        },
        ice: match media {
            Some(m) => m.offer.ice,
            None => None,
        },
        remote_target: match req@.contact {
            Some(c) => contact_uri(c),
            None => None,
        },
        route_set: req@.record_route,
        local_uri: req@.to_uri,
        remote_uri: req@.from_uri,
        local_cseq: 0,
        remote_cseq: req.cseq,
        transport: Some(s.settings.transport),
        last_invite_branch: req@.branch,
        local_media: match media {
            Some(m) => Some(m.local),
            None => None,
        },
        session_expires_secs: match timer {
            Some(t) => Some(t.interval_secs),
            None => None,
        },
    }
}

/// The call's record for billing, as it begins.
pub open spec fn cdr_start(req: RequestSummary, call_id: Seq<char>, now: Moment) -> CdrStartView {
    CdrStartView {
        call_id,
        from_uri: match req@.from_uri {
            Some(u) => u,
            None => seq![],
        },
        to_uri: match req@.to_uri {
            Some(u) => u,
            None => seq![],
        },
        started_at_unix: now.unix,
    }
}

/// The headers of a 200 inside a dialog.
pub open spec fn ok_headers(
    contact: Seq<char>,
    timer: Option<SessionTimerAgreement>,
    sdp: bool,
) -> Seq<HeaderView> {
    seq![("Contact"@, contact)] + timer_headers(timer) + (if sdp {
        seq![("Content-Type"@, "application/sdp"@)]
    } else {
        seq![]
    })
}

/// The 200 that establishes a dialog.
pub open spec fn ok_reply(
    s: UasView,
    tag: Seq<char>,
    media: Option<MediaView>,
    timer: Option<SessionTimerAgreement>,
) -> ReplyView {
    ReplyView {
        status: 200,
        reason: "OK"@,
        tag: Some(tag),
        extras: ok_headers(s.settings.contact, timer, media is Some),
        body: match media {
            Some(m) => vstd::utf8::encode_utf8(m.offer.answer_body),
            None => seq![],
        },
    }
}

/// The server once the new dialog is on record.
pub open spec fn recorded(
    s: UasView,
    req: RequestSummary,
    dialog: DialogKey,
    media: Option<MediaView>,
    timer: Option<SessionTimerAgreement>,
    peer: Seq<char>,
    now: Moment,
) -> UasView {
    let d = dialog_path(dialog);
    UasView {
        dialogs: s.dialogs.insert(d, new_record(s, req, dialog, media, timer, peer)),
        legs: match media {
            Some(m) => s.legs.insert(d, leg_of(m.endpoint, m.offer)),
            None => s.legs,
        },
        cdrs: if s.settings.records_calls {
            s.cdrs.insert(d, cdr_start(req, dialog.0@, now))
        } else {
            s.cdrs
        },
        ..s
    }
}

/// Puts a new dialog on record, answers its INVITE, and arms its timers.
pub open spec fn establish_step(
    s: UasView,
    req: RequestSummary,
    dialog: DialogKey,
    media: Option<MediaView>,
    timer: Option<SessionTimerAgreement>,
    peer: Seq<char>,
    now: Moment,
) -> (UasView, Seq<UasCommandView>) {
    let d = dialog_path(dialog);
    let s1 = recorded(s, req, dialog, media, timer, peer, now);
    let c1 = seq![UasCommandView::Upsert(new_record(s, req, dialog, media, timer, peer))];
    let (s2, c2) = respond_step(s1, req, ok_reply(s, dialog.1@, media, timer), peer);
    let (s3, c3) = match timer {
        Some(t) => arm_step(s2, d, t.interval_secs),
        None => (s2, seq![]),
    };
    let created = UasCommandView::Created {
        call_id: dialog.0@,
        endpoint: match media {
            Some(m) => Some(m.endpoint),
            None => None,
        },
        remote_rtp: match media {
            Some(m) => m.offer.remote_media,
            None => None,
        },
    };
    (s3, c1 + c2 + c3 + guarded(s3, d) + seq![created])
}

/// The headers of a 200 inside a dialog.
pub(super) fn ok_extras<'a>(
    contact: &'a str,
    timer: Option<SessionTimerAgreement>,
    timer_lines: &'a Vec<(&'static str, String)>,
    sdp: bool,
) -> (r: Vec<(&'a str, &'a str)>)
    requires
        timer_lines@.len() == timer_headers(timer).len(),
        forall|i: int| #![trigger timer_lines@[i]]
            0 <= i < timer_lines@.len() ==> (timer_lines@[i].0@, timer_lines@[i].1@)
                == timer_headers(timer)[i],
    ensures
        headers_view(r@) == ok_headers(contact@, timer, sdp),
{
    let mut out: Vec<(&'a str, &'a str)> = Vec::new();
    out.push(("Contact", contact));
    let mut i: usize = 0;
    while i < timer_lines.len()
        invariant
            i <= timer_lines@.len(),
            timer_lines@.len() == timer_headers(timer).len(),
            forall|j: int| #![trigger timer_lines@[j]]
                0 <= j < timer_lines@.len() ==> (timer_lines@[j].0@, timer_lines@[j].1@)
                    == timer_headers(timer)[j],
            headers_view(out@) =~= seq![("Contact"@, contact@)] + timer_headers(timer).take(
                i as int,
            ),
        decreases timer_lines.len() - i,
    {
        let ghost before = out@;
        out.push((timer_lines[i].0, timer_lines[i].1.as_str()));
        proof {
            assert(headers_view(out@) =~= headers_view(before).push(timer_headers(timer)[i as int]));
        }
        i = i + 1;
    }
    assert(timer_headers(timer).take(i as int) =~= timer_headers(timer));
    let ghost before = out@;
    if sdp {
        out.push(("Content-Type", "application/sdp"));
        assert(headers_view(out@) =~= headers_view(before).push(
            ("Content-Type"@, "application/sdp"@),
        ));
    }
    assert(headers_view(out@) =~= ok_headers(contact@, timer, sdp));
    out
}

fn build_record(
    transport: &str,
    req: &RequestSummary,
    dialog: &DialogKey,
    media: &Option<NegotiatedMedia>,
    timer: Option<SessionTimerAgreement>,
    peer: &str,
) -> (r: DialogRecord)
    ensures
        forall|s: UasView|
            s.settings.transport == transport@ ==> r@ == #[trigger] new_record(
                s,
                *req,
                *dialog,
                media_opt(*media),
                timer,
                peer@,
            ),
{
    let (endpoint, remote_media, audio, video, ice, local_media) = match media {
        Some(m) => (
            Some(m.endpoint),
            copy_addr(&m.offer.remote_media),
            copy_text(&m.offer.audio_codec),
            copy_text(&m.offer.video_codec),
            copy_text(&m.offer.ice),
            Some(m.local.duplicate()),
        ),
        None => (None, None, None, None, None, None),
    };
    let remote_target = match &req.contact {
        Some(c) => first_contact_uri(c),
        None => None,
    };
    let session_expires_secs = match timer {
        Some(t) => Some(t.interval_secs),
        None => None,
    };
    DialogRecord {
        call_id: dialog.0.clone(),
        local_tag: dialog.1.clone(),
        remote_tag: dialog.2.clone(),
        state: DialogState::Early,
        peer_signal: peer.to_owned(),
        rendezvous: copy_text(&req.ruri_user),
        media: endpoint,
        remote_media,
        pending_2xx: None,
        audio_codec: audio,
        video_codec: video,
        ice,
        remote_target,
        route_set: copy_list(&req.record_route),
        local_uri: copy_text(&req.to_uri),
        remote_uri: copy_text(&req.from_uri),
        local_cseq: 0,
        remote_cseq: req.cseq,
        transport: Some(transport.to_owned()),
        last_invite_branch: copy_text(&req.branch),
        local_media,
        session_expires_secs,
    }
}

impl UasServer {
    /// Puts a new dialog on record.
    fn record_dialog(
        &mut self,
        out: &mut Vec<UasCommand>,
        req: &RequestSummary,
        dialog: &DialogKey,
        media: &Option<NegotiatedMedia>,
        timer: Option<SessionTimerAgreement>,
        peer: &str,
        now: &Moment,
    )
        requires
            old(self).wf(),
        ensures
            final(self).wf(),
            final(self)@ == recorded(
                old(self)@,
                *req,
                *dialog,
                media_opt(*media),
                timer,
                peer@,
                *now,
            ),
            outputs(final(out)@) == outputs(old(out)@) + seq![
                UasCommandView::Upsert(
                    new_record(old(self)@, *req, *dialog, media_opt(*media), timer, peer@),
                ),
            ],
    {
        let record = build_record(&self.settings.transport, req, dialog, media, timer, peer);
        assert(record@ == new_record(old(self)@, *req, *dialog, media_opt(*media), timer, peer@));
        emit(out, UasCommand::Upsert(record.duplicate()));
        self.dialogs.put(place_of(dialog), record);
        match media {
            Some(m) => {
                self.legs.put(place_of(dialog), LegMedia::from_offer(m.endpoint, &m.offer));
            },
            None => {},
        }
        if self.settings.records_calls {
            let from_uri = match &req.from_uri {
                Some(u) => u.clone(),
                None => String::new(),
            };
            let to_uri = match &req.to_uri {
                Some(u) => u.clone(),
                None => String::new(),
            };
            let start = CdrInProgress {
                call_id: dialog.0.clone(),
                from_uri,
                to_uri,
                started_at_unix: now.unix,
            };
            assert(start@ =~= cdr_start(*req, dialog.0@, *now));
            self.cdrs.put(place_of(dialog), start);
        }
    }

    /// Answers the INVITE of a new dialog.
    fn respond_ok(
        &mut self,
        out: &mut Vec<UasCommand>,
        req: &RequestSummary,
        tag: &str,
        media: &Option<NegotiatedMedia>,
        timer: Option<SessionTimerAgreement>,
        peer: &str,
    )
        requires
            old(self).wf(),
        ensures
            final(self).wf(),
            ({
                let (s, c) = respond_step(
                    old(self)@,
                    *req,
                    ok_reply(old(self)@, tag@, media_opt(*media), timer),
                    peer@,
                );
                final(self)@ == s && outputs(final(out)@) == outputs(old(out)@) + c
            }),
    {
        let contact = self.settings.contact.clone();
        let timer_lines = session_timer_headers(timer);
        let extras = ok_extras(&contact, timer, &timer_lines, media.is_some());
        let body: Vec<u8> = match media {
            Some(m) => text::to_bytes(&m.offer.answer_body),
            None => Vec::new(),
        };
        let reply = Reply {
            status: 200,
            reason: "OK",
            tag: Some(tag),
            extras: extras.as_slice(),
            body: body.as_slice(),
        };
        assert(reply@ =~= ok_reply(old(self)@, tag@, media_opt(*media), timer));
        self.respond(out, req, reply, peer);
    }

    /// Establishes a dialog: puts it on record, answers its INVITE with 200,
    /// and arms its timers.
    pub fn establish_dialog(
        &mut self,
        out: &mut Vec<UasCommand>,
        req: &RequestSummary,
        dialog: &DialogKey,
        media: &Option<NegotiatedMedia>,
        timer: Option<SessionTimerAgreement>,
        peer: &str,
        now: &Moment,
    )
        requires
            old(self).wf(),
        ensures
            final(self).wf(),
            ({
                let (s, c) = establish_step(
                    old(self)@,
                    *req,
                    *dialog,
                    media_opt(*media),
                    timer,
                    peer@,
                    *now,
                );
                final(self)@ == s && outputs(final(out)@) == outputs(old(out)@) + c
            }),
    {
        let ghost before = outputs(out@);
        let ghost goal = establish_step(
            old(self)@,
            *req,
            *dialog,
            media_opt(*media),
            timer,
            peer@,
            *now,
        );
        self.record_dialog(out, req, dialog, media, timer, peer, now);
        self.respond_ok(out, req, &dialog.1, media, timer, peer);
        match timer {
            Some(t) => {
                self.arm_session_timer(out, dialog, t.interval_secs);
            },
            None => {},
        }
        self.arm_duration_guard(out, dialog);
        let (endpoint, remote_rtp) = match media {
            Some(m) => (Some(m.endpoint), copy_addr(&m.offer.remote_media)),
            None => (None, None),
        };
        emit(out, UasCommand::Created { call_id: dialog.0.clone(), endpoint, remote_rtp });
        assert(outputs(out@) =~= before + goal.1);
    }
}

} // verus!
