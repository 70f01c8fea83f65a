//! What a request is answered: which status, with which headers.

use vstd::prelude::*;

use super::super::compose::{response_bytes, warning_value, HeaderView};
use super::super::offer::{
    bridge_leg_of, leg_of, offer_refusal, offer_result, refusal_headers, NegotiationOutcome,
    OfferError, OfferView, RejectionView,
};
use super::super::session_timer::{agreement, SessionTimerAgreement};
use super::super::summary::{named_dialog, RequestSummary};
use super::attach::{
    bridged_step, pair_step, plan_of, transcoded_step, MediaAttachment, PairView, PlanView,
    TranscodeReply, Tried,
};
use super::dispatch::{
    ack_step, ack_transaction, bye_handled, cancel_handled, event_dialog, handle_bye_step,
    not_allowed_step, request_handled, route_of, verdict_on, InternalEvent, Route,
};
use super::ingress::{any_invited, cancel_step, invited};
use super::invite::{
    admit_invite_step, bad_offer_step, invite_tag, ok_headers, open_invite_step, proceed_step,
    refuse_step, rejection_reply, was_cancelled,
};
use super::register::{challenged, concluded, register_step, AuthOutcome};
use super::respond::{answered_dialog, plain, provisional_step, respond_step, ReplyView};
use super::update::{cseq_verdict, media_plan, open_update_step, CseqVerdict, MediaPlan};
use super::{server_key, tag_at, tagged, Moment, SettingsView, UasCommandView, UasView};
use crate::auth::digest::Algorithm;
use crate::auth::registrar::{challenge_text, is_issued, AuthError, Registrar, Stock};
use crate::record::{DialogState, RecordView};
use crate::text;
use crate::txn::dialog::DialogEvent;
use crate::txn::driver::{from_elsewhere, path, table_after};
use crate::txn::machine::Flavor;
use crate::txn::{EventView, TransactionState};

verus! {

/// A response with this status, reason, tag and headers, and without a body.
pub open spec fn bare(status: u16, reason: Seq<char>, tag: Seq<char>, extras: Seq<HeaderView>) ->
    ReplyView {
    ReplyView { status, reason, tag: Some(tag), extras, body: seq![] }
}

/// `c` sends the response `reply` to `req`: through the request's transaction
/// while that lives in `s`, else straight to `peer`.
pub open spec fn answers(
    s: UasView,
    req: RequestSummary,
    reply: ReplyView,
    peer: Seq<char>,
    c: Seq<UasCommandView>,
) -> bool {
    let bytes = response_bytes(
        text::message_text(req.raw@),
        reply.status,
        reply.reason,
        reply.tag,
        reply.extras,
        reply.body,
    );
    let key = server_key(req@.branch->0, req@.method);
    if req@.branch is Some && s.slots.contains_key(path(key)) {
        c.contains(
            UasCommandView::Txn {
                key,
                commands: table_after(
                    s.slots,
                    path(key),
                    EventView::SendResponseFromTu { status: reply.status, bytes },
                ).1,
            },
        )
    } else {
        c.contains(UasCommandView::Send { bytes, peer })
    }
}

/// Every response that is given goes out.
pub proof fn responses_go_out(s: UasView, req: RequestSummary, reply: ReplyView, peer: Seq<char>)
    ensures
        answers(s, req, reply, peer, respond_step(s, req, reply, peer).1),
{
    let c = respond_step(s, req, reply, peer).1;
    assert(c.contains(c[c.len() - 1]));
}

pub(super) proof fn lemma_answers_within(
    s: UasView,
    req: RequestSummary,
    reply: ReplyView,
    peer: Seq<char>,
    c: Seq<UasCommandView>,
    before: Seq<UasCommandView>,
    after: Seq<UasCommandView>,
)
    requires
        answers(s, req, reply, peer, c),
    ensures
        answers(s, req, reply, peer, before + c + after),
{
    assert forall|x: UasCommandView| #[trigger] c.contains(x) implies (before + c
        + after).contains(x) by {
        let i = choose|i: int| 0 <= i < c.len() && c[i] == x;
        assert((before + c + after)[before.len() + i] == x);
    }
}

proof fn lemma_refusal(
    s: UasView,
    req: RequestSummary,
    status: u16,
    reason: Seq<char>,
    extras: Seq<HeaderView>,
    peer: Seq<char>,
    now: Moment,
)
    ensures
        ({
            let tag = if was_cancelled(s, req) {
                s.cancelled[seq![req@.branch->0]]
            } else {
                tag_at(s, now)
            };
            answers(
                s,
                req,
                bare(status, reason, tag, extras),
                peer,
                refuse_step(s, req, status, reason, extras, peer, now).1,
            )
        }),
{
    let (s1, tag) = invite_tag(s, req, now);
    let reply = ReplyView { status, reason, tag: Some(tag), extras, body: seq![] };
    responses_go_out(s1, req, reply, peer);
}

// ---------------------------------------------------------------------
// Which handler
// ---------------------------------------------------------------------

/// Each method has its own handler; an INVITE inside a dialog another than one
/// outside; any other method is refused.
pub proof fn methods_have_their_handlers(req: RequestSummary)
    ensures
        req@.method == "OPTIONS"@ ==> route_of(req) == Route::Options,
        req@.method == "ACK"@ ==> route_of(req) == Route::Ack,
        req@.method == "BYE"@ ==> route_of(req) == Route::Bye,
        req@.method == "CANCEL"@ ==> route_of(req) == Route::Cancel,
        req@.method == "UPDATE"@ ==> route_of(req) == Route::Update,
        req@.method == "REGISTER"@ ==> route_of(req) == Route::Register,
        req@.method == "INVITE"@ && req@.to_tag is None ==> route_of(req) == Route::Invite,
        req@.method == "INVITE"@ && req@.to_tag is Some ==> route_of(req) == Route::Reinvite,
        route_of(req) == Route::Unknown <==> {
            &&& req@.method != "OPTIONS"@
            &&& req@.method != "ACK"@
            &&& req@.method != "BYE"@
            &&& req@.method != "CANCEL"@
            &&& req@.method != "UPDATE"@
            &&& req@.method != "REGISTER"@
            &&& req@.method != "INVITE"@
        },
{
    reveal_strlit("OPTIONS");
    reveal_strlit("ACK");
    reveal_strlit("BYE");
    reveal_strlit("CANCEL");
    reveal_strlit("UPDATE");
    reveal_strlit("REGISTER");
    reveal_strlit("INVITE");
    assert("OPTIONS"@.len() == 7 && "ACK"@.len() == 3 && "BYE"@.len() == 3 && "CANCEL"@.len() == 6);
    assert("UPDATE"@.len() == 6 && "REGISTER"@.len() == 8 && "INVITE"@.len() == 6);
    assert("ACK"@[0] == 'A' && "BYE"@[0] == 'B');
    assert("CANCEL"@[0] == 'C' && "UPDATE"@[0] == 'U' && "INVITE"@[0] == 'I');
}

/// A method that is not taken is answered 405, with the list of those that are.
pub proof fn other_methods_are_refused(
    s: UasView,
    req: RequestSummary,
    peer: Seq<char>,
    now: Moment,
)
    ensures
        answers(
            s,
            req,
            bare(
                405,
                "Method Not Allowed"@,
                tag_at(s, now),
                seq![("Allow"@, "INVITE, ACK, CANCEL, BYE, OPTIONS, REGISTER, UPDATE"@)],
            ),
            peer,
            not_allowed_step(s, req, peer, now).1,
        ),
{
    responses_go_out(
        tagged(s),
        req,
        bare(
            405,
            "Method Not Allowed"@,
            tag_at(s, now),
            seq![("Allow"@, "INVITE, ACK, CANCEL, BYE, OPTIONS, REGISTER, UPDATE"@)],
        ),
        peer,
    );
}

// ---------------------------------------------------------------------
// REGISTER
// ---------------------------------------------------------------------

/// A REGISTER is answered 200 where nobody has to authenticate or the user did,
/// 401 with the challenge where they have to, and 500 where the accounts cannot
/// be reached.
pub proof fn registers_are_answered(
    s: UasView,
    req: RequestSummary,
    auth: Option<AuthOutcome>,
    peer: Seq<char>,
    now: Moment,
)
    ensures
        ({
            let c = register_step(s, req, auth, peer, now).1;
            let tag = tag_at(s, now);
            &&& auth is None || (auth matches Some(AuthOutcome::Authenticated(_))) ==> answers(
                s,
                req,
                bare(200, "OK"@, tag, seq![]),
                peer,
                c,
            )
            &&& auth matches Some(AuthOutcome::Challenge(w)) ==> answers(
                s,
                req,
                bare(401, "Unauthorized"@, tag, seq![("WWW-Authenticate"@, w@)]),
                peer,
                c,
            )
            &&& auth == Some(AuthOutcome::Failed) ==> answers(
                s,
                req,
                bare(500, "Server Internal Error"@, tag, seq![]),
                peer,
                c,
            )
        }),
{
    let tag = tag_at(s, now);
    responses_go_out(tagged(s), req, bare(200, "OK"@, tag, seq![]), peer);
    responses_go_out(tagged(s), req, bare(500, "Server Internal Error"@, tag, seq![]), peer);
    if let Some(AuthOutcome::Challenge(w)) = auth {
        responses_go_out(
            tagged(s),
            req,
            bare(401, "Unauthorized"@, tag, seq![("WWW-Authenticate"@, w@)]),
            peer,
        );
    }
}

// ---------------------------------------------------------------------
// INVITE
// ---------------------------------------------------------------------

/// An INVITE goes on exactly when it was not cancelled and the engine does not
/// drain. One that was cancelled is answered 487 with the tag of the CANCEL's
/// answer; one that comes while the engine drains 503 with `Retry-After: 0`.
pub proof fn invites_are_opened(s: UasView, req: RequestSummary, peer: Seq<char>, now: Moment)
    ensures
        ({
            let (after, c, goes_on) = open_invite_step(s, req, peer, now);
            let cancelled = req@.branch is Some && s.cancelled.contains_key(
                seq![req@.branch->0],
            );
            &&& goes_on <==> !cancelled && !s.settings.draining
            &&& goes_on ==> after == s && c.len() == 0
            &&& cancelled ==> answers(
                s,
                req,
                bare(487, "Request Terminated"@, s.cancelled[seq![req@.branch->0]], seq![]),
                peer,
                c,
            )
            &&& !cancelled && s.settings.draining ==> answers(
                s,
                req,
                bare(
                    503,
                    "Service Unavailable"@,
                    tag_at(s, now),
                    seq![("Retry-After"@, "0"@)],
                ),
                peer,
                c,
            )
        }),
{
    lemma_refusal(s, req, 487, "Request Terminated"@, seq![], peer, now);
    lemma_refusal(
        s,
        req,
        503,
        "Service Unavailable"@,
        seq![("Retry-After"@, "0"@)],
        peer,
        now,
    );
}

/// An INVITE whose sender has to authenticate is answered 401 with the
/// challenge, one whose accounts cannot be reached 500; neither is admitted.
pub proof fn invites_are_authenticated(
    s: UasView,
    req: RequestSummary,
    auth: Option<AuthOutcome>,
    peer: Seq<char>,
    now: Moment,
)
    requires
        !was_cancelled(s, req),
    ensures
        ({
            let (_, c, admitted) = admit_invite_step(s, req, auth, peer, now);
            &&& auth matches Some(AuthOutcome::Challenge(w)) ==> admitted is None && answers(
                s,
                req,
                bare(401, "Unauthorized"@, tag_at(s, now), seq![("WWW-Authenticate"@, w@)]),
                peer,
                c,
            )
            &&& auth == Some(AuthOutcome::Failed) ==> admitted is None && answers(
                s,
                req,
                bare(500, "Server Internal Error"@, tag_at(s, now), seq![]),
                peer,
                c,
            )
        }),
{
    lemma_refusal(s, req, 500, "Server Internal Error"@, seq![], peer, now);
    if let Some(AuthOutcome::Challenge(w)) = auth {
        responses_go_out(
            tagged(s),
            req,
            bare(401, "Unauthorized"@, tag_at(s, now), seq![("WWW-Authenticate"@, w@)]),
            peer,
        );
    }
}

/// An INVITE whose sender may place it is admitted, with its Call-ID and the
/// caller's tag, exactly when it has both and does not ask for a session
/// interval below the minimum.
pub proof fn invites_are_admitted(s: UasView, req: RequestSummary, peer: Seq<char>, now: Moment)
    requires
        s.settings.session_timer.min_se / 1000 <= u32::MAX,
    ensures
        ({
            let (_, _, admitted) = proceed_step(s, req, peer, now);
            let cfg = s.settings.session_timer;
            let short = cfg.enabled && req.supports_timer && (req.session_expires matches Some(se)
                && se < cfg.min_se / 1000);
            let complete = req@.call_id is Some && req@.call_id->0.len() > 0 && req@.from_tag
                is Some && req@.from_tag->0.len() > 0;
            &&& admitted is Some <==> complete && !short
            &&& admitted matches Some(a) ==> Some(a.call_id) == req@.call_id && Some(a.remote_tag)
                == req@.from_tag && agreement(cfg, req) == Ok::<
                Option<SessionTimerAgreement>,
                u32,
            >(a.timer)
            &&& admitted matches Some(a) ==> (a.timer is None <==> !cfg.enabled
                || !req.supports_timer || (req.session_expires is Some && req@.session_refresher
                == Some("uas"@)))
        }),
{
}

/// The 100 goes out before anything else, without a tag.
pub proof fn invites_are_tried_first(s: UasView, req: RequestSummary, peer: Seq<char>, now: Moment)
    ensures
        ({
            let c = proceed_step(s, req, peer, now).1;
            let trying = ReplyView {
                status: 100,
                reason: "Trying"@,
                tag: None,
                extras: seq![],
                body: seq![],
            };
            c.len() > 0 && answers(s, req, trying, peer, c.take(1))
        }),
{
    let c = proceed_step(s, req, peer, now).1;
    let c1 = provisional_step(s, req, 100, "Trying"@, peer).1;
    assert(c[0] == c1[0]);
    assert(c.take(1)[0] == c1[0]);
    assert(c.take(1).contains(c.take(1)[0]));
}

/// An INVITE without a Call-ID or a tag is answered 400, and one that asks for
/// a session interval below the minimum 422 with that minimum.
pub proof fn incomplete_invites_are_refused(
    s: UasView,
    req: RequestSummary,
    peer: Seq<char>,
    now: Moment,
)
    requires
        !was_cancelled(s, req),
        s.settings.session_timer.min_se / 1000 <= u32::MAX,
    ensures
        ({
            let c = proceed_step(s, req, peer, now).1;
            let (s1, c1) = provisional_step(s, req, 100, "Trying"@, peer);
            let rest = c.subrange(c1.len() as int, c.len() as int);
            let cfg = s.settings.session_timer;
            let complete = req@.call_id is Some && req@.call_id->0.len() > 0 && req@.from_tag
                is Some && req@.from_tag->0.len() > 0;
            &&& !complete ==> answers(
                s1,
                req,
                bare(400, "Bad Request"@, tag_at(s, now), seq![]),
                peer,
                rest,
            )
            &&& complete && cfg.enabled && req.supports_timer && (req.session_expires matches Some(
                se,
            ) && se < cfg.min_se / 1000) ==> answers(
                s1,
                req,
                bare(
                    422,
                    "Session Interval Too Small"@,
                    tag_at(s, now),
                    seq![("Min-SE"@, text::decimal((cfg.min_se / 1000) as nat))],
                ),
                peer,
                rest,
            )
        }),
{
    let c = proceed_step(s, req, peer, now).1;
    let (s1, c1) = provisional_step(s, req, 100, "Trying"@, peer);
    let cfg = s.settings.session_timer;
    let least = seq![("Min-SE"@, text::decimal((cfg.min_se / 1000) as nat))];
    lemma_refusal(s1, req, 400, "Bad Request"@, seq![], peer, now);
    lemma_refusal(s1, req, 422, "Session Interval Too Small"@, least, peer, now);
    let c2 = refuse_step(s1, req, 400, "Bad Request"@, seq![], peer, now).1;
    let c3 = refuse_step(s1, req, 422, "Session Interval Too Small"@, least, peer, now).1;
    assert((c1 + c2).subrange(c1.len() as int, (c1 + c2).len() as int) =~= c2);
    assert((c1 + c3).subrange(c1.len() as int, (c1 + c3).len() as int) =~= c3);
}

/// A refused offer releases its endpoint. It is answered 488 where there is no
/// common codec or no way to carry the media, in the latter case with the
/// reason as a warning, and 400 where it is no SDP.
pub proof fn bad_offers_are_refused(
    s: UasView,
    req: RequestSummary,
    endpoint: u64,
    e: OfferError,
    peer: Seq<char>,
    now: Moment,
)
    requires
        !was_cancelled(s, req),
    ensures
        ({
            let c = bad_offer_step(s, req, endpoint, e, peer, now).1;
            let tag = tag_at(s, now);
            &&& c.contains(UasCommandView::ReleaseEndpoint(endpoint))
            &&& e is Mismatch ==> answers(
                s,
                req,
                bare(488, "Not Acceptable Here"@, tag, seq![]),
                peer,
                c,
            )
            &&& e matches OfferError::Unsupported(why) ==> answers(
                s,
                req,
                bare(
                    488,
                    "Not Acceptable Here"@,
                    tag,
                    seq![("Warning"@, warning_value(399, why@))],
                ),
                peer,
                c,
            )
            &&& e is Malformed ==> answers(s, req, bare(400, "Bad Request"@, tag, seq![]), peer, c)
        }),
{
    let c = bad_offer_step(s, req, endpoint, e, peer, now).1;
    let tag = tag_at(s, now);
    let reply = rejection_reply(offer_refusal(e), tag);
    let c1 = respond_step(tagged(s), req, reply, peer).1;
    responses_go_out(tagged(s), req, reply, peer);
    let front = seq![UasCommandView::ReleaseEndpoint(endpoint)];
    lemma_answers_within(tagged(s), req, reply, peer, c1, front, seq![]);
    assert(front + c1 + seq![] =~= c);
    assert(c[0] == UasCommandView::ReleaseEndpoint(endpoint));
    match e {
        OfferError::Unsupported(why) => {
            assert(reply.extras =~= seq![("Warning"@, warning_value(399, why@))]);
        },
        _ => {
            assert(reply.extras =~= seq![]);
        },
    }
}

/// What the negotiator accepted is taken as it is: RTCP goes to the host that
/// receives RTP, on the port that was named; a codec without a clock rate gets
/// the default. What it refused is refused.
pub proof fn accepted_offers_are_kept(outcome: NegotiationOutcome, default_clock_rate: u32)
    ensures
        offer_result(outcome, default_clock_rate) is Ok <==> outcome is Accepted,
        outcome matches NegotiationOutcome::Accepted {
            answer_body,
            remote_media,
            remote_rtcp_port,
            srtp,
            audio_codec,
            audio_clock_rate,
            video_codec,
            ice,
        } ==> {
            &&& offer_result(outcome, default_clock_rate) matches Ok(o)
            &&& o.answer_body == answer_body@
            &&& o.remote_media is Some <==> remote_media is Some
            &&& remote_media matches Some(a) ==> o.remote_media == Some((a.host@, a.port))
            &&& o.remote_rtcp is Some <==> remote_media is Some && remote_rtcp_port is Some
            &&& o.remote_rtcp matches Some(r) ==> r.0 == remote_media->0.host@ && Some(r.1)
                == remote_rtcp_port
            &&& o.srtp is Some <==> srtp is Some
            &&& srtp matches Some(k) ==> o.srtp == Some(k@)
            &&& audio_clock_rate matches Some(r) ==> o.clock_rate == r
            &&& audio_clock_rate is None ==> o.clock_rate == default_clock_rate
            &&& o.audio_codec is Some <==> audio_codec is Some
            &&& audio_codec matches Some(x) ==> o.audio_codec == Some(x@)
            &&& o.video_codec is Some <==> video_codec is Some
            &&& video_codec matches Some(x) ==> o.video_codec == Some(x@)
            &&& o.ice is Some <==> ice is Some
            &&& ice matches Some(x) ==> o.ice == Some(x@)
        },
        outcome is Mismatch ==> offer_result(outcome, default_clock_rate) == Err::<
            OfferView,
            OfferError,
        >(OfferError::Mismatch),
        outcome matches NegotiationOutcome::UnsupportedTransport { reason } ==> offer_result(
            outcome,
            default_clock_rate,
        ) == Err::<OfferView, OfferError>(OfferError::Unsupported(reason)),
        outcome matches NegotiationOutcome::Malformed(m) ==> offer_result(
            outcome,
            default_clock_rate,
        ) == Err::<OfferView, OfferError>(OfferError::Malformed(m)),
{
}

/// A leg enters a bridge exactly when its peer said where it receives RTP, and
/// with all that is known of it.
pub proof fn legs_enter_bridges_whole(endpoint: u64, offer: OfferView)
    ensures
        bridge_leg_of(leg_of(endpoint, offer)) is Some <==> offer.remote_media is Some,
        bridge_leg_of(leg_of(endpoint, offer)) matches Some(b) ==> {
            &&& b.endpoint == endpoint
            &&& offer.remote_media == Some(b.peer)
            &&& b.rtcp_peer == offer.remote_rtcp
            &&& b.srtp == offer.srtp
            &&& b.clock_rate == offer.clock_rate
        },
{
}

/// A refusal with a warning says it; one for want of capacity also says when to
/// come back.
pub proof fn refusals_say_why(r: RejectionView)
    ensures
        r.warning matches Some(w) ==> refusal_headers(r).contains(("Warning"@, w)),
        r.status == 503 ==> refusal_headers(r).contains(("Retry-After"@, "5"@)),
        refusal_headers(r).len() == (if r.warning is Some {
            1int
        } else {
            0
        }) + (if r.status == 503 {
            1int
        } else {
            0
        }),
{
    let h = refusal_headers(r);
    if let Some(w) = r.warning {
        assert(h[0] == ("Warning"@, w));
        assert(h.contains(h[0]));
    }
    if r.status == 503 {
        assert(h[h.len() - 1] == ("Retry-After"@, "5"@));
        assert(h.contains(h[h.len() - 1]));
    }
}

/// A 200 inside a dialog names the engine's contact, the session timer if there
/// is one, and the type of its body if it has one, and nothing else.
pub proof fn oks_name_the_contact(
    contact: Seq<char>,
    timer: Option<SessionTimerAgreement>,
    sdp: bool,
)
    ensures
        ({
            let h = ok_headers(contact, timer, sdp);
            &&& h.contains(("Contact"@, contact))
            &&& sdp ==> h.contains(("Content-Type"@, "application/sdp"@))
            &&& timer matches Some(t) ==> h.contains(
                ("Session-Expires"@, text::decimal(t.interval_secs as nat) + ";refresher=uac"@),
            ) && h.contains(("Require"@, "timer"@))
            &&& h.len() == 1 + (if timer is Some {
                2int
            } else {
                0
            }) + (if sdp {
                1int
            } else {
                0
            })
        }),
{
    let h = ok_headers(contact, timer, sdp);
    assert(h[0] == ("Contact"@, contact));
    assert(h.contains(h[0]));
    if let Some(t) = timer {
        assert(h[1].0 == "Session-Expires"@);
        assert(h.contains(h[1]));
        assert(h[2] == ("Require"@, "timer"@));
        assert(h.contains(h[2]));
    }
    if sdp {
        let n = h.len() - 1;
        assert(h[n] == ("Content-Type"@, "application/sdp"@));
        assert(h.contains(h[n]));
    }
}

// ---------------------------------------------------------------------
// Inside dialogs
// ---------------------------------------------------------------------

/// A sequence number is taken exactly when it is there and larger than the last
/// one, if there was one.
pub proof fn sequence_numbers_must_grow(cseq: Option<u32>, last: Option<u32>)
    ensures
        cseq_verdict(cseq, last) == CseqVerdict::Absent <==> cseq is None,
        cseq_verdict(cseq, last) == CseqVerdict::Fresh <==> (cseq matches Some(n) && (last is None
            || n > last->0)),
        cseq_verdict(cseq, last) == CseqVerdict::OutOfOrder <==> (cseq matches Some(n)
            && last matches Some(p) && n <= p),
{
}

/// A request that changes a dialog goes on exactly when it names a live dialog,
/// has a larger sequence number than the last one there, and does not ask for a
/// session interval below the minimum; and then nothing has changed yet.
pub proof fn changes_are_opened(s: UasView, req: RequestSummary, peer: Seq<char>, now: Moment)
    requires
        s.settings.session_timer.min_se / 1000 <= u32::MAX,
    ensures
        ({
            let (after, c, open) = open_update_step(s, req, peer, now);
            let cfg = s.settings.session_timer;
            let d = named_dialog(req@)->0;
            let short = cfg.enabled && req.supports_timer && (req.session_expires matches Some(se)
                && se < cfg.min_se / 1000);
            &&& open is Some <==> {
                &&& named_dialog(req@) is Some
                &&& s.dialogs.contains_key(d)
                &&& req.cseq is Some
                &&& s.dialogs[d].remote_cseq is None || req.cseq->0 > s.dialogs[d].remote_cseq->0
                &&& !short
            }
            &&& open matches Some(u) ==> {
                &&& after == s && c.len() == 0
                &&& u.dialog == d
                &&& u.local_tag == s.dialogs[d].local_tag
                &&& u.plan == media_plan(s.dialogs[d], req)
                &&& agreement(cfg, req) == Ok::<Option<SessionTimerAgreement>, u32>(u.timer)
            }
        }),
{
}

/// A request that changes a dialog is refused with 481 where that is unknown,
/// with 400 where a re-INVITE names none or it has no sequence number, with 500
/// where that is not larger than the last one, and with 422 and the minimum
/// where it asks for too short a session.
pub proof fn changes_are_refused(s: UasView, req: RequestSummary, peer: Seq<char>, now: Moment)
    requires
        !was_cancelled(s, req),
        s.settings.session_timer.min_se / 1000 <= u32::MAX,
    ensures
        ({
            let c = open_update_step(s, req, peer, now).1;
            let cfg = s.settings.session_timer;
            let d = named_dialog(req@)->0;
            let tag = tag_at(s, now);
            let gone = bare(481, "Call/Transaction Does Not Exist"@, tag, seq![]);
            &&& named_dialog(req@) is None && req@.method == "UPDATE"@ ==> answers(
                s,
                req,
                gone,
                peer,
                c,
            )
            &&& named_dialog(req@) is None && req@.method != "UPDATE"@ ==> answers(
                s,
                req,
                bare(400, "Bad Request"@, tag, seq![]),
                peer,
                c,
            )
            &&& named_dialog(req@) is Some && !s.dialogs.contains_key(d) ==> answers(
                s,
                req,
                gone,
                peer,
                c,
            )
            &&& named_dialog(req@) is Some && s.dialogs.contains_key(d) ==> {
                let own = s.dialogs[d].local_tag;
                &&& req.cseq is None ==> answers(
                    s,
                    req,
                    bare(400, "Bad Request"@, own, seq![]),
                    peer,
                    c,
                )
                &&& req.cseq is Some && s.dialogs[d].remote_cseq is Some && req.cseq->0
                    <= s.dialogs[d].remote_cseq->0 ==> answers(
                    s,
                    req,
                    bare(500, "Server Internal Error"@, own, seq![]),
                    peer,
                    c,
                )
                &&& req.cseq is Some && (s.dialogs[d].remote_cseq is None || req.cseq->0
                    > s.dialogs[d].remote_cseq->0) && cfg.enabled && req.supports_timer && (
                req.session_expires matches Some(se) && se < cfg.min_se / 1000) ==> answers(
                    s,
                    req,
                    bare(
                        422,
                        "Session Interval Too Small"@,
                        tag,
                        seq![("Min-SE"@, text::decimal((cfg.min_se / 1000) as nat))],
                    ),
                    peer,
                    c,
                )
            }
        }),
{
    let cfg = s.settings.session_timer;
    let tag = tag_at(s, now);
    let least = seq![("Min-SE"@, text::decimal((cfg.min_se / 1000) as nat))];
    responses_go_out(
        tagged(s),
        req,
        bare(481, "Call/Transaction Does Not Exist"@, tag, seq![]),
        peer,
    );
    responses_go_out(tagged(s), req, bare(400, "Bad Request"@, tag, seq![]), peer);
    if named_dialog(req@) is Some && s.dialogs.contains_key(named_dialog(req@)->0) {
        let own = s.dialogs[named_dialog(req@)->0].local_tag;
        responses_go_out(s, req, bare(400, "Bad Request"@, own, seq![]), peer);
        responses_go_out(s, req, bare(500, "Server Internal Error"@, own, seq![]), peer);
    }
    lemma_refusal(s, req, 422, "Session Interval Too Small"@, least, peer, now);
}

/// A request with an offer is answered at the endpoint that the dialog has, or
/// at a new one; one without an offer gets the engine's own offer, unless it is
/// an UPDATE or the dialog has no media.
pub proof fn changes_plan_their_media(record: RecordView, req: RequestSummary)
    ensures
        ({
            let plan = media_plan(record, req);
            let offers = req@.content_type == Some("application/sdp"@) && req@.body is Some;
            &&& offers && record.media is Some && record.local_media is Some ==> plan == (
            MediaPlan::Existing { endpoint: record.media->0, port: (record.local_media->0).1 })
            &&& offers && (record.media is None || record.local_media is None) ==> plan
                == MediaPlan::Allocate
            &&& !offers && (req@.method == "UPDATE"@ || record.local_media is None) ==> plan
                == MediaPlan::Nothing
            &&& !offers && req@.method != "UPDATE"@ && record.local_media is Some ==> plan == (
            MediaPlan::OwnOffer { port: (record.local_media->0).1 })
        }),
{
}

/// A BYE that names no dialog is answered 400, one for an unknown dialog 481,
/// and one for a live dialog 200 with the engine's tag in it.
pub proof fn byes_are_answered(
    s: UasView,
    req: RequestSummary,
    partner: Option<Seq<Seq<char>>>,
    peer: Seq<char>,
    now: Moment,
)
    ensures
        ({
            let (after, c) = handle_bye_step(s, req, partner, peer, now);
            let d = named_dialog(req@)->0;
            &&& named_dialog(req@) is None ==> answers(
                s,
                req,
                bare(400, "Bad Request"@, tag_at(s, now), seq![]),
                peer,
                c,
            )
            &&& named_dialog(req@) is Some && !s.dialogs.contains_key(d) ==> answers(
                s,
                req,
                bare(481, "Call/Transaction Does Not Exist"@, tag_at(s, now), seq![]),
                peer,
                c,
            ) && after.dialogs == s.dialogs
            &&& named_dialog(req@) is Some && s.dialogs.contains_key(d) ==> answers(
                s,
                req,
                bare(200, "OK"@, s.dialogs[d].local_tag, seq![]),
                peer,
                c,
            )
        }),
{
    responses_go_out(tagged(s), req, bare(400, "Bad Request"@, tag_at(s, now), seq![]), peer);
    responses_go_out(
        tagged(s),
        req,
        bare(481, "Call/Transaction Does Not Exist"@, tag_at(s, now), seq![]),
        peer,
    );
    let d = named_dialog(req@)->0;
    if named_dialog(req@) is Some && s.dialogs.contains_key(d) {
        let (s1, c1, record) = super::teardown::call_step(
            s,
            d,
            false,
            DialogEvent::ByeCompleted,
            partner,
            now,
        );
        let reply = bare(200, "OK"@, record.local_tag, seq![]);
        let (s2, c2) = respond_step(s1, req, reply, peer);
        let c3 = super::teardown::finish_step(s2, d, record.call_id, "answered"@, now).1;
        responses_go_out(s1, req, reply, peer);
        lemma_answers_within(s1, req, reply, peer, c2, c1, c3);
        assert(record.local_tag == s.dialogs[d].local_tag);
        assert(s1.slots == s.slots);
    }
}

/// A CANCEL whose INVITE has no transaction any more is answered 400 where it
/// names no call, and 481 where no live dialog answered that INVITE.
pub proof fn late_cancels_are_answered(
    s: UasView,
    req: RequestSummary,
    peer: Seq<char>,
    now: Moment,
    after: UasView,
    c: Seq<UasCommandView>,
)
    requires
        cancel_handled(s, req, peer, now, after, c),
    ensures
        req@.branch is None || req@.call_id is None ==> answers(
            s,
            req,
            bare(400, "Bad Request"@, tag_at(s, now), seq![]),
            peer,
            c,
        ),
        req@.branch is Some && req@.call_id is Some && !any_invited(
            s,
            req@.call_id->0,
            None,
            req@.branch->0,
        ) ==> answers(
            s,
            req,
            bare(481, "Call/Transaction Does Not Exist"@, tag_at(s, now), seq![]),
            peer,
            c,
        ),
        after.dialogs.dom() == s.dialogs.dom() && after.cancelled == s.cancelled,
{
    responses_go_out(tagged(s), req, bare(400, "Bad Request"@, tag_at(s, now), seq![]), peer);
    responses_go_out(
        tagged(s),
        req,
        bare(481, "Call/Transaction Does Not Exist"@, tag_at(s, now), seq![]),
        peer,
    );
    assert(after.dialogs.dom() =~= s.dialogs.dom());
}

// ---------------------------------------------------------------------
// Timers
// ---------------------------------------------------------------------

/// An ACK timeout ends a dialog that was not acknowledged, a session timer the
/// one that it was last armed for, and the guard every live one; in each case
/// the call's record says which it was.
pub proof fn timers_end_calls(s: UasView, e: InternalEvent)
    ensures
        ({
            let d = event_dialog(e);
            let v = verdict_on(s, e);
            &&& e is AckTimeout ==> {
                &&& v is Some <==> s.dialogs.contains_key(d) && s.dialogs[d].state
                    == DialogState::Early
                &&& v is Some ==> v == Some((DialogEvent::Error, "ack_timeout"@))
            }
            &&& e matches InternalEvent::SessionExpired { generation, .. } ==> {
                &&& v is Some <==> s.timers.contains_key(d) && s.timers[d] == generation
                &&& v is Some ==> v == Some((DialogEvent::ByeCompleted, "session_expired"@))
            }
            &&& e is MaxDurationReached ==> {
                &&& v is Some <==> s.dialogs.contains_key(d)
                &&& v is Some ==> v == Some((DialogEvent::ByeCompleted, "max_duration"@))
            }
        }),
{
}

// ---------------------------------------------------------------------
// Meeting
// ---------------------------------------------------------------------

/// What an INVITE with media is tried with, in this order: the browser leg that
/// it names, where there is such a rendezvous; the conference room that it
/// calls, where there is a mixer and the name has the prefix of rooms; the
/// other caller of that name.
pub proof fn attachments_are_tried_in_order(
    settings: SettingsView,
    req: RequestSummary,
    room: Seq<char>,
    prefix: Seq<char>,
)
    requires
        req@.ruri_user == Some(room),
        settings.room_prefix == Some(prefix),
    ensures
        ({
            let browser = req@.webrtc_tag is Some && settings.has_webrtc;
            let conference = settings.has_mixer && text::begins_with(room, prefix);
            let first = plan_of(settings, req, true, Tried::Nothing);
            let second = plan_of(settings, req, true, Tried::WebRtc);
            &&& browser ==> first == (PlanView::WebRtc { tag: req@.webrtc_tag->0 })
            &&& !browser ==> first == second
            &&& conference ==> second == (PlanView::Room { room })
            &&& !conference ==> second == (PlanView::Rendezvous { room })
            &&& plan_of(settings, req, true, Tried::Room) == (PlanView::Rendezvous { room })
        }),
        forall|tried: Tried| #[trigger] plan_of(settings, req, false, tried) is Nothing,
{
}

/// Without a mixer or a prefix there are no rooms, and without a user in the
/// Request-URI no meeting.
pub proof fn rooms_need_a_mixer(settings: SettingsView, req: RequestSummary, tried: Tried)
    ensures
        !settings.has_mixer || settings.room_prefix is None ==> plan_of(
            settings,
            req,
            true,
            tried,
        ) !is Room,
        req@.ruri_user is None && (req@.webrtc_tag is None || !settings.has_webrtc || tried
            != Tried::Nothing) ==> plan_of(settings, req, true, tried) is Nothing,
{
}

/// Two callers of one name whose codecs differ are connected through a
/// transcoder, from the first's codec to the second's, where there is one. Where
/// there is none the second is refused with 488 and a warning, and the first
/// goes on waiting.
pub proof fn differing_codecs_need_a_transcoder(
    s: UasView,
    room: Seq<char>,
    d: Seq<Seq<char>>,
    leg: super::super::offer::BridgeLegView,
    a: Seq<char>,
    b: Seq<char>,
)
    requires
        s.pending.contains_key(seq![room]),
        s.pending[seq![room]].audio_codec == Some(a),
        a != b,
    ensures
        ({
            let (after, met) = pair_step(s, room, d, leg, Some(b));
            &&& s.settings.has_transcoder ==> !after.pending.contains_key(seq![room]) && met == (
            PairView::Transcode {
                pending: s.pending[seq![room]],
                leg,
                codec_a: a,
                codec_b: b,
            })
            &&& !s.settings.has_transcoder ==> {
                &&& after == s
                &&& met matches PairView::Rejected(r)
                &&& r.status == 488
                &&& r.reason == "Not Acceptable Here"@
                &&& r.warning == Some(
                    warning_value(
                        399,
                        "codec mismatch ("@ + a + " vs "@ + b
                            + ") and no transcoder configured"@,
                    ),
                )
            }
        }),
{
}

/// Connected callers share their bridge or session. A pair that could not be
/// connected is refused: with 503 and a warning where the transcoder is full,
/// else with 500.
pub proof fn pairs_share_what_connects_them(
    s: UasView,
    room: Seq<char>,
    first: super::PendingView,
    d: Seq<Seq<char>>,
    x: u64,
)
    ensures
        ({
            let (after, r) = bridged_step(s, room, first, d, Some(x));
            &&& r == Ok::<MediaAttachment, RejectionView>(MediaAttachment::Bridged)
            &&& after.bridges.contains_key(d) && after.bridges[d] == x
            &&& after.bridges.contains_key(first.dialog) && after.bridges[first.dialog] == x
            &&& after.pending == s.pending && after.sessions == s.sessions
        }),
        ({
            let (after, r) = transcoded_step(s, room, first, d, TranscodeReply::Session(x));
            &&& r == Ok::<MediaAttachment, RejectionView>(MediaAttachment::Bridged)
            &&& after.sessions.contains_key(d) && after.sessions[d] == x
            &&& after.sessions.contains_key(first.dialog) && after.sessions[first.dialog] == x
            &&& after.pending == s.pending && after.bridges == s.bridges
        }),
        ({
            let (after, r) = bridged_step(s, room, first, d, None);
            &&& r matches Err(e)
            &&& e.status == 500 && e.reason == "Server Internal Error"@ && e.warning is None
            &&& after.pending.contains_key(seq![room]) && after.pending[seq![room]] == first
        }),
        ({
            let (after, r) = transcoded_step(s, room, first, d, TranscodeReply::Failed);
            &&& r matches Err(e)
            &&& e.status == 500 && e.reason == "Server Internal Error"@ && e.warning is None
            &&& after.pending.contains_key(seq![room]) && after.pending[seq![room]] == first
        }),
        ({
            let (after, r) = transcoded_step(s, room, first, d, TranscodeReply::Refused);
            &&& r matches Err(e)
            &&& e.status == 503 && e.reason == "Service Unavailable"@
            &&& e.warning == Some(warning_value(370, "transcoding capacity exhausted"@))
            &&& after.pending.contains_key(seq![room]) && after.pending[seq![room]] == first
        }),
{
}

// ---------------------------------------------------------------------
// Requests that need nothing from outside
// ---------------------------------------------------------------------

/// OPTIONS is answered 200 with a fresh tag; what needs more than the server
/// itself, it leaves alone.
pub proof fn options_are_answered(
    s: UasView,
    req: RequestSummary,
    peer: Seq<char>,
    now: Moment,
    after: UasView,
    c: Seq<UasCommandView>,
)
    requires
        request_handled(s, req, peer, now, after, c),
    ensures
        req@.method == "OPTIONS"@ ==> answers(
            s,
            req,
            bare(200, "OK"@, tag_at(s, now), seq![]),
            peer,
            c,
        ) && after.dialogs == s.dialogs,
        req@.method == "INVITE"@ || req@.method == "UPDATE"@ || req@.method == "REGISTER"@
            ==> after == s && c.len() == 0,
        req@.method == "ACK"@ ==> (after, c) == ack_step(s, req),
        req@.method == "BYE"@ ==> bye_handled(s, req, peer, now, after, c),
        req@.method == "CANCEL"@ ==> cancel_handled(s, req, peer, now, after, c),
        route_of(req) == Route::Unknown ==> (after, c) == not_allowed_step(s, req, peer, now),
{
    methods_have_their_handlers(req);
    responses_go_out(tagged(s), req, bare(200, "OK"@, tag_at(s, now), seq![]), peer);
    reveal_strlit("OPTIONS");
    assert("OPTIONS"@.len() == 7);
    if req@.method == "OPTIONS"@ {
        reveal_strlit("INVITE");
        assert("INVITE"@.len() == 6);
        assert(after.dialogs == s.dialogs);
    }
}

/// A CANCEL whose INVITE was answered by a live dialog gets a 200 with that
/// dialog's tag, and has no effect.
pub proof fn answered_invites_cannot_be_cancelled(
    s: UasView,
    req: RequestSummary,
    peer: Seq<char>,
    now: Moment,
    after: UasView,
    c: Seq<UasCommandView>,
    p: Seq<Seq<char>>,
)
    requires
        cancel_handled(s, req, peer, now, after, c),
        req@.method == "CANCEL"@,
        req@.branch is Some,
        req@.call_id is Some,
        s.dialogs.contains_key(p),
        p.len() == 3,
        p[0] == req@.call_id->0,
        s.dialogs[p].last_invite_branch == req@.branch,
    ensures
        after == (UasView { slots: after.slots, ..s }),
        exists|q: Seq<Seq<char>>|
            #[trigger] s.dialogs.contains_key(q) && s.dialogs[q].last_invite_branch == req@.branch
                && answers(
                s,
                req,
                bare(200, "OK"@, s.dialogs[q].local_tag, seq![]),
                peer,
                c,
            ),
{
    let call_id = req@.call_id->0;
    let branch = req@.branch->0;
    reveal_strlit("CANCEL");
    reveal_strlit("INVITE");
    assert("CANCEL"@[0] == 'C' && "INVITE"@[0] == 'I');
    assert(invited(s, p, call_id, None, branch));
    assert(any_invited(s, call_id, None, branch));
    let q = choose|q: Seq<Seq<char>>| #[trigger]
        invited(s, q, call_id, None, branch) && (after, c) == respond_step(
            s,
            req,
            plain(200, "OK"@, s.dialogs[q].local_tag),
            peer,
        );
    responses_go_out(s, req, bare(200, "OK"@, s.dialogs[q].local_tag, seq![]), peer);
    assert(s.dialogs.contains_key(q));
    assert(after =~= (UasView { slots: after.slots, ..s }));
}

/// A CANCEL in time is answered 200 with a fresh tag, and marks its INVITE with
/// it exactly while that waits for its final response.
pub proof fn cancels_in_time_are_answered(
    s: UasView,
    req: RequestSummary,
    branch: Seq<char>,
    peer: Seq<char>,
    now: Moment,
)
    requires
        req@.method == "CANCEL"@,
        s.slots.contains_key(path(server_key(branch, "INVITE"@))),
    ensures
        ({
            let waits = s.slots[path(server_key(branch, "INVITE"@))].txn.state
                == TransactionState::Proceeding;
            &&& cancel_step(s, req, branch, peer, now) matches Some((after, c))
            &&& answers(s, req, bare(200, "OK"@, tag_at(s, now), seq![]), peer, c)
            &&& waits ==> after.cancelled == s.cancelled.insert(seq![branch], tag_at(s, now))
            &&& !waits ==> after.cancelled == s.cancelled
            &&& after.dialogs == s.dialogs
        }),
{
    let tag = tag_at(s, now);
    let marked = if s.slots[path(server_key(branch, "INVITE"@))].txn.state
        == TransactionState::Proceeding {
        UasView { cancelled: s.cancelled.insert(seq![branch], tag), ..tagged(s) }
    } else {
        tagged(s)
    };
    responses_go_out(marked, req, bare(200, "OK"@, tag, seq![]), peer);
    reveal_strlit("CANCEL");
    reveal_strlit("INVITE");
    assert("CANCEL"@[0] == 'C' && "INVITE"@[0] == 'I');
}

/// The final response of an INVITE uses up the mark of its CANCEL, and takes its
/// tag; without one it takes a fresh tag.
pub proof fn marks_are_used_once(s: UasView, req: RequestSummary, now: Moment)
    ensures
        ({
            let (after, tag) = invite_tag(s, req, now);
            let key = seq![req@.branch->0];
            let marked = req@.branch is Some && s.cancelled.contains_key(key);
            &&& was_cancelled(s, req) <==> marked
            &&& marked ==> tag == s.cancelled[key] && !was_cancelled(after, req) && after.issued
                == s.issued
            &&& !marked ==> tag == tag_at(s, now) && after.cancelled == s.cancelled
            &&& !marked && s.issued < u64::MAX ==> after.issued == s.issued + 1
        }),
{
}

/// The dialog whose 2xx is kept: that of a 2xx to an INVITE, under its Call-ID,
/// the engine's tag and the caller's; of no other response.
pub proof fn successes_are_kept_for_their_dialog(req: RequestSummary, reply: ReplyView)
    ensures
        req@.method == "INVITE"@ && 200 <= reply.status < 300 && req@.call_id is Some
            && req@.from_tag is Some && reply.tag is Some ==> answered_dialog(req, reply) == Some(
            seq![req@.call_id->0, reply.tag->0, req@.from_tag->0],
        ),
        req@.method != "INVITE"@ || !(200 <= reply.status < 300) ==> answered_dialog(
            req,
            reply,
        ) is None,
{
}

/// An ACK reaches the transaction of the INVITE on its branch, where that lives
/// and the ACK comes from the same sender, and no other transaction.
pub proof fn acks_reach_their_invite(s: UasView, req: RequestSummary, branch: Seq<char>)
    requires
        req@.branch == Some(branch),
        s.slots.contains_key(path(server_key(branch, "INVITE"@))),
        !from_elsewhere(s.slots, path(server_key(branch, "INVITE"@)), req.raw@),
    ensures
        ({
            let p = path(server_key(branch, "INVITE"@));
            let (after, c) = ack_transaction(s, req);
            let (slots, commands) = table_after(
                s.slots,
                p,
                EventView::RequestReceived { method: "ACK"@, bytes: req.raw@ },
            );
            &&& after == (UasView { slots, ..s })
            &&& c == seq![
                UasCommandView::Txn { key: server_key(branch, "INVITE"@), commands },
            ]
            &&& s.slots[p].flavor == Flavor::ServerInvite && s.slots[p].txn.state
                == TransactionState::Completed && !s.slots[p].txn.reliable
                ==> after.slots.contains_key(p) && after.slots[p].txn.state
                == TransactionState::Confirmed
        }),
{
    let p = path(server_key(branch, "INVITE"@));
    let slot = s.slots[p];
    if slot.flavor == Flavor::ServerInvite && slot.txn.state == TransactionState::Completed
        && !slot.txn.reliable {
        crate::txn::conduct::acknowledged_rejections_rest(slot.txn, req.raw@);
        let actions = crate::txn::machine::step(
            slot.flavor,
            slot.txn,
            EventView::RequestReceived { method: "ACK"@, bytes: req.raw@ },
        ).1;
        assert(!crate::txn::driver::ends_in(actions)) by {
            if crate::txn::driver::ends_in(actions) {
                let i = choose|i: int|
                    0 <= i < actions.len() && #[trigger] actions[i]
                        == crate::txn::ActionView::Terminated;
                assert(actions.contains(actions[i]));
            }
        }
    }
}

// ---------------------------------------------------------------------
// Authentication
// ---------------------------------------------------------------------

/// Where a verdict leads: a user is let in under their name; accounts that
/// cannot be reached are a failure; every other refusal is a fresh challenge,
/// which says `stale` exactly when the digest was right and only the nonce was
/// unknown, too old or used.
pub proof fn verdicts_lead_on<S>(
    reg: Registrar<S>,
    before: Stock,
    after: Stock,
    verdict: Result<Seq<char>, AuthError>,
    r: AuthOutcome,
)
    requires
        concluded(reg, before, after, Some(verdict), r),
    ensures
        verdict matches Ok(user) ==> (r matches AuthOutcome::Authenticated(u) && u@ == user),
        verdict matches Err(AuthError::Backend(_)) ==> r is Failed,
        verdict matches Err(e) ==> e !is Backend ==> challenged(
            reg,
            before,
            after,
            e is StaleNonce || e is NonceReplayed,
            r,
        ),
        verdict is Err ==> r !is Authenticated,
{
}

/// A challenge of the registrar names its realm, offers MD5, and its nonce is
/// new in the table of nonces.
pub proof fn challenges_are_fresh<S>(
    reg: Registrar<S>,
    before: Stock,
    after: Stock,
    stale: bool,
    r: AuthOutcome,
)
    requires
        challenged(reg, before, after, stale, r),
    ensures
        r matches AuthOutcome::Challenge(c) && exists|nonce: Seq<char>| #[trigger]
            after.0.contains_key(seq![nonce]) && nonce.len() == 32 && c@ == challenge_text(
                reg.realm_text(),
                nonce,
                Algorithm::Md5,
                stale,
            ),
{
    let c = r->Challenge_0@;
    let (random, now) = choose|random: Seq<u8>, now: u64|
        random.len() == 16 && c == challenge_text(
            reg.realm_text(),
            crate::auth::digest::hex_text(random),
            Algorithm::Md5,
            stale,
        ) && #[trigger] is_issued(
            before,
            after,
            crate::auth::digest::hex_text(random),
            now,
            reg.lifetime(),
            reg.cap(),
        );
    let nonce = crate::auth::digest::hex_text(random);
    assert(after.0.contains_key(seq![nonce]));
    assert(nonce.len() == 32);
}

} // verus!
