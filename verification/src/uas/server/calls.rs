//! What a call amounts to, from its INVITE on: what is recorded of it, and what
//! its peer is told.

use vstd::prelude::*;

use super::super::compose::in_dialog_text;
use super::super::parse::contact_uri;
use super::super::reading::{
    bracketed_uris_are_read, is_param, lines_of, parameters_need_their_marker,
    sides_come_from_their_headers, stands_alone, tags_are_read, value_behind,
};
use super::super::session_timer::{expiry, SessionTimerAgreement};
use super::super::summary::{named_dialog, summary_of, RequestSummary};
use super::super::writing::{requests_carry_their_dialog, requests_follow_their_route, says};
use super::answers::{answers, lemma_answers_within, responses_go_out};
use super::dispatch::{
    ack_step, event_dialog, handle_bye_step, timer_step, verdict_on, InternalEvent,
};
use super::invite::{
    arm_step, establish_step, new_record, ok_headers, ok_reply, rearm_step, recorded, MediaView,
};
use super::respond::{respond_step, ReplyView};
use super::teardown::{
    bye_record, bye_step, call_step, driven, end_step, finish_step, is_partner, teardown_step,
    FsmOutcome,
};
use super::update::{
    changed_record, changed_reply, commit_step, conclude_step, leg_settled, rebuild_plan, repointed,
    LegStep, RenegotiationView,
};
use super::{tag_at, Moment, UasCommandView, UasView};
use crate::record::{dialog_path, DialogKey, DialogState, RecordView};
use crate::text;
use crate::text::laws::clear_of;
use crate::txn::client_non_invite::new_client_non_invite;
use crate::txn::dialog::DialogEvent;
use crate::txn::driver::{commands_from, ends_in, fresh_slot, path, table_after, CommandView};
use crate::txn::machine::{step, Flavor};
use crate::txn::timers::{Millis, T1};
use crate::txn::{ActionView, EventView, KeyView, Role, TimerId, TransactionState};

verus! {

// ---------------------------------------------------------------------
// The new dialog
// ---------------------------------------------------------------------

/// What is recorded of a dialog that an INVITE established: the callee of the
/// INVITE is the engine's side and its caller the peer's; requests to the peer
/// go to its `Contact` by way of its `Record-Route`; the engine has used no
/// sequence number, and the peer that of the INVITE.
pub proof fn records_hold_their_invite(
    s: UasView,
    req: RequestSummary,
    dialog: DialogKey,
    media: Option<MediaView>,
    timer: Option<SessionTimerAgreement>,
    peer: Seq<char>,
    now: Moment,
)
    ensures
        ({
            let after = establish_step(s, req, dialog, media, timer, peer, now).0;
            let record = after.dialogs[dialog_path(dialog)];
            &&& after.dialogs.contains_key(dialog_path(dialog))
            &&& record.call_id == dialog.0@
            &&& record.local_tag == dialog.1@
            &&& record.remote_tag == dialog.2@
            &&& record.local_uri == req@.to_uri
            &&& record.remote_uri == req@.from_uri
            &&& req@.contact is None ==> record.remote_target is None
            &&& req@.contact matches Some(c) ==> record.remote_target == contact_uri(c)
            &&& record.route_set == req@.record_route
            &&& record.local_cseq == 0
            &&& record.remote_cseq == req.cseq
            &&& record.last_invite_branch == req@.branch
            &&& record.rendezvous == req@.ruri_user
            &&& record.peer_signal == peer
            &&& record.state == DialogState::Early
            &&& record.transport == Some(s.settings.transport)
            &&& record.session_expires_secs is Some <==> timer is Some
            &&& timer matches Some(t) ==> record.session_expires_secs == Some(t.interval_secs)
            &&& media is None ==> record.media is None && record.local_media is None
                && record.remote_media is None && record.audio_codec is None
                && record.video_codec is None && record.ice is None
            &&& media matches Some(m) ==> {
                &&& record.media == Some(m.endpoint)
                &&& record.local_media == Some(m.local)
                &&& record.remote_media == m.offer.remote_media
                &&& record.audio_codec == m.offer.audio_codec
                &&& record.video_codec == m.offer.video_codec
                &&& record.ice == m.offer.ice
            }
        }),
{
    let s1 = recorded(s, req, dialog, media, timer, peer, now);
    let reply = ok_reply(s, dialog.1@, media, timer);
    let d = dialog_path(dialog);
    let s2 = respond_step(s1, req, reply, peer).0;
    assert(s2.dialogs.contains_key(d));
    assert(s2.dialogs[d] == (RecordView {
        pending_2xx: s2.dialogs[d].pending_2xx,
        ..new_record(s, req, dialog, media, timer, peer)
    }));
}

/// A request that the engine sends in a dialog turns the sides of the INVITE
/// round: its `From` is the URI of the INVITE's `To` with the tag of the 200,
/// its `To` the URI and tag of the INVITE's `From`.
pub proof fn requests_turn_the_sides_round(
    s: UasView,
    req: RequestSummary,
    dialog: DialogKey,
    media: Option<MediaView>,
    timer: Option<SessionTimerAgreement>,
    peer: Seq<char>,
    now: Moment,
    method: Seq<char>,
    sent_by: Seq<char>,
    transport: Seq<char>,
    branch: Seq<char>,
)
    requires
        req@.to_uri is Some,
        req@.from_uri is Some,
    ensures
        ({
            let record = establish_step(
                s,
                req,
                dialog,
                media,
                timer,
                peer,
                now,
            ).0.dialogs[dialog_path(dialog)];
            let t = in_dialog_text(method, record, sent_by, transport, branch);
            &&& says(t, "From: <"@ + req@.to_uri->0 + ">;tag="@ + dialog.1@)
            &&& says(t, "To: <"@ + req@.from_uri->0 + ">;tag="@ + dialog.2@)
            &&& says(t, "Call-ID: "@ + dialog.0@)
            &&& req@.record_route.len() == 0 && (req@.contact matches Some(c) && contact_uri(
                c,
            ) is Some) ==> text::begins_with(
                t,
                method + " "@ + contact_uri(req@.contact->0)->0 + " SIP/2.0\r\n"@,
            )
        }),
{
    let record = establish_step(s, req, dialog, media, timer, peer, now).0.dialogs[dialog_path(
        dialog,
    )];
    records_hold_their_invite(s, req, dialog, media, timer, peer, now);
    requests_carry_their_dialog(method, record, sent_by, transport, branch);
    requests_follow_their_route(method, record, sent_by, transport, branch, 0);
}

/// The same, from the header lines of the INVITE on: `From: <caller>;tag=t` and
/// `To: <callee>` make `From: <callee>;tag=` with the engine's tag, and
/// `To: <caller>;tag=t`.
pub proof fn invites_name_both_sides(
    message: Seq<char>,
    s: UasView,
    req: RequestSummary,
    dialog: DialogKey,
    media: Option<MediaView>,
    timer: Option<SessionTimerAgreement>,
    peer: Seq<char>,
    now: Moment,
    method: Seq<char>,
    sent_by: Seq<char>,
    transport: Seq<char>,
    branch: Seq<char>,
    caller: Seq<char>,
    callee: Seq<char>,
    from: (int, int),
    to: (int, int),
)
    requires
        req@ == summary_of(message),
        caller.len() > 0 && !caller.contains('>'),
        callee.len() > 0 && !callee.contains('>'),
        clear_of(text::lowered("<"@ + caller + ">"@), ";tag="@),
        forall|i: int|
            0 <= i ==> !#[trigger] text::occurs_at(
                text::lowered("<"@ + callee + ">"@),
                ";tag="@,
                i,
            ),
        is_param(dialog.2@, seq![';', ',', '>']),
        stands_alone(message, from.0, from.1, "from"@, "f"@),
        value_behind(lines_of(message)[from.0], from.1) == "<"@ + caller + ">"@ + ";tag="@
            + dialog.2@,
        stands_alone(message, to.0, to.1, "to"@, "t"@),
        value_behind(lines_of(message)[to.0], to.1) == "<"@ + callee + ">"@,
    ensures
        req@.from_tag == Some(dialog.2@),
        req@.to_tag is None,
        ({
            let record = establish_step(
                s,
                req,
                dialog,
                media,
                timer,
                peer,
                now,
            ).0.dialogs[dialog_path(dialog)];
            let t = in_dialog_text(method, record, sent_by, transport, branch);
            &&& says(t, "From: <"@ + callee + ">;tag="@ + dialog.1@)
            &&& says(t, "To: <"@ + caller + ">;tag="@ + dialog.2@)
        }),
{
    sides_come_from_their_headers(message, from.0, from.1);
    sides_come_from_their_headers(message, to.0, to.1);
    reveal_strlit("<");
    reveal_strlit(">");
    reveal_strlit(";tag=");
    assert("<"@ =~= seq!['<'] && ">"@ =~= seq!['>']);
    let tag = dialog.2@;
    let bracketed = "<"@ + caller + ">"@;
    let none = Seq::<char>::empty();
    assert(text::lowered(";tag="@) =~= ";tag="@);
    tags_are_read(bracketed, ";tag="@, tag, none);
    assert(bracketed + ";tag="@ + tag + none =~= bracketed + ";tag="@ + tag);
    let f = none + seq!['<'] + caller + seq!['>'] + (";tag="@ + tag);
    assert(f =~= bracketed + ";tag="@ + tag);
    assert(f.last() == tag.last());
    bracketed_uris_are_read(none, caller, ";tag="@ + tag);
    let c = none + seq!['<'] + callee + seq!['>'] + none;
    assert(c =~= "<"@ + callee + ">"@);
    assert(c.last() == '>');
    bracketed_uris_are_read(none, callee, none);
    parameters_need_their_marker("<"@ + callee + ">"@);
    requests_turn_the_sides_round(
        s,
        req,
        dialog,
        media,
        timer,
        peer,
        now,
        method,
        sent_by,
        transport,
        branch,
    );
}

proof fn lemma_within(c: Seq<UasCommandView>, x: UasCommandView, i: int)
    requires
        0 <= i < c.len(),
        c[i] == x,
    ensures
        c.contains(x),
{
}

/// A new dialog is answered 200 with the engine's tag and contact and, where
/// media was negotiated, the SDP answer. It is replicated and announced. Its
/// session timer runs exactly when one was agreed on, its guard when the
/// duration of calls is limited.
pub proof fn invites_are_answered(
    s: UasView,
    req: RequestSummary,
    dialog: DialogKey,
    media: Option<MediaView>,
    timer: Option<SessionTimerAgreement>,
    peer: Seq<char>,
    now: Moment,
)
    ensures
        ({
            let (after, c) = establish_step(s, req, dialog, media, timer, peer, now);
            let d = dialog_path(dialog);
            let ok = ReplyView {
                status: 200,
                reason: "OK"@,
                tag: Some(dialog.1@),
                extras: ok_headers(s.settings.contact, timer, media is Some),
                body: match media {
                    Some(m) => vstd::utf8::encode_utf8(m.offer.answer_body),
                    None => seq![],
                },
            };
            &&& answers(s, req, ok, peer, c)
            &&& c.len() > 0 && (c[0] matches UasCommandView::Upsert(r) && r == (RecordView {
                pending_2xx: r.pending_2xx,
                ..after.dialogs[d]
            }))
            &&& c.last() matches UasCommandView::Created { call_id, endpoint, remote_rtp }
            &&& call_id == dialog.0@
            &&& media is None ==> endpoint is None && remote_rtp is None
            &&& media matches Some(m) ==> endpoint == Some(m.endpoint) && remote_rtp
                == m.offer.remote_media
            &&& s.settings.max_call_duration matches Some(limit) ==> c.contains(
                UasCommandView::ArmGuard { dialog: d, after: limit },
            )
            &&& timer matches Some(t) ==> after.timers.contains_key(d) && c.contains(
                UasCommandView::ArmSession {
                    dialog: d,
                    generation: after.timers[d],
                    after: expiry(t.interval_secs),
                },
            )
            &&& timer is None ==> after.timers == s.timers
        }),
{
    let (after, c) = establish_step(s, req, dialog, media, timer, peer, now);
    let d = dialog_path(dialog);
    let s1 = recorded(s, req, dialog, media, timer, peer, now);
    let c1 = seq![UasCommandView::Upsert(new_record(s, req, dialog, media, timer, peer))];
    let ok = ok_reply(s, dialog.1@, media, timer);
    let (s2, c2) = respond_step(s1, req, ok, peer);
    responses_go_out(s1, req, ok, peer);
    let (s3, c3) = match timer {
        Some(t) => arm_step(s2, d, t.interval_secs),
        None => (s2, seq![]),
    };
    let rest = c.subrange((c1.len() + c2.len()) as int, c.len() as int);
    assert(c =~= c1 + c2 + rest);
    lemma_answers_within(s1, req, ok, peer, c2, c1, rest);
    records_hold_their_invite(s, req, dialog, media, timer, peer, now);
    let base = (c1.len() + c2.len()) as int;
    if timer is Some {
        assert(c[base] == c3[0]);
        lemma_within(c, c3[0], base);
    }
    if let Some(limit) = s.settings.max_call_duration {
        let guard = UasCommandView::ArmGuard { dialog: d, after: limit };
        assert(s3.settings == s.settings);
        assert(c[base + c3.len()] == guard);
        lemma_within(c, guard, base + c3.len());
    }
    let r = new_record(s, req, dialog, media, timer, peer);
    assert(r =~= (RecordView { pending_2xx: r.pending_2xx, ..after.dialogs[d] }));
}

/// What a new dialog brings with it: the media of its leg as negotiated, and,
/// where calls are recorded, who called whom and when.
pub proof fn new_calls_are_noted(
    s: UasView,
    req: RequestSummary,
    dialog: DialogKey,
    media: Option<MediaView>,
    timer: Option<SessionTimerAgreement>,
    peer: Seq<char>,
    now: Moment,
)
    ensures
        ({
            let after = establish_step(s, req, dialog, media, timer, peer, now).0;
            let d = dialog_path(dialog);
            &&& media matches Some(m) ==> {
                &&& after.legs.contains_key(d)
                &&& after.legs[d].endpoint == m.endpoint
                &&& after.legs[d].remote == m.offer.remote_media
                &&& after.legs[d].rtcp_peer == m.offer.remote_rtcp
                &&& after.legs[d].srtp == m.offer.srtp
                &&& after.legs[d].clock_rate == m.offer.clock_rate
            }
            &&& media is None ==> after.legs == s.legs
            &&& s.settings.records_calls ==> {
                &&& after.cdrs.contains_key(d)
                &&& after.cdrs[d].call_id == dialog.0@
                &&& after.cdrs[d].started_at_unix == now.unix
                &&& req@.from_uri matches Some(u) ==> after.cdrs[d].from_uri == u
                &&& req@.to_uri matches Some(u) ==> after.cdrs[d].to_uri == u
                &&& req@.from_uri is None ==> after.cdrs[d].from_uri.len() == 0
                &&& req@.to_uri is None ==> after.cdrs[d].to_uri.len() == 0
            }
            &&& !s.settings.records_calls ==> after.cdrs == s.cdrs
        }),
{
}

// ---------------------------------------------------------------------
// Changes
// ---------------------------------------------------------------------

/// A change touches what the request speaks of and nothing else: the peer's
/// sequence number, the session interval, the branch where it is an INVITE, the
/// endpoint where a new one was allocated, and what the offer negotiated.
pub proof fn changes_touch_what_they_speak_of(
    record: RecordView,
    req: RequestSummary,
    reneg: RenegotiationView,
    timer: Option<SessionTimerAgreement>,
)
    ensures
        ({
            let new = changed_record(record, req, reneg, timer);
            &&& new.remote_cseq == req.cseq
            &&& new.session_expires_secs is Some <==> timer is Some
            &&& timer matches Some(t) ==> new.session_expires_secs == Some(t.interval_secs)
            &&& req@.method == "INVITE"@ ==> new.last_invite_branch == req@.branch
            &&& req@.method != "INVITE"@ ==> new.last_invite_branch == record.last_invite_branch
            &&& reneg.new_endpoint matches Some(e) ==> new.media == Some(e.0) && new.local_media
                == Some(e.1)
            &&& reneg.new_endpoint is None ==> new.media == record.media && new.local_media
                == record.local_media
            &&& reneg.offer matches Some(o) ==> new.remote_media == o.remote_media && new.ice
                == o.ice && new.audio_codec == o.audio_codec && new.video_codec == o.video_codec
            &&& reneg.offer is None ==> new.remote_media == record.remote_media && new.ice
                == record.ice && new.audio_codec == record.audio_codec && new.video_codec
                == record.video_codec
            &&& new.path() == record.path()
            &&& new.state == record.state
            &&& new.local_uri == record.local_uri && new.remote_uri == record.remote_uri
            &&& new.local_cseq == record.local_cseq
            &&& new.route_set == record.route_set && new.remote_target == record.remote_target
            &&& new.peer_signal == record.peer_signal && new.transport == record.transport
            &&& new.rendezvous == record.rendezvous && new.pending_2xx == record.pending_2xx
        }),
{
}

/// A change is recorded, answered 200 with the engine's tag and contact and the
/// body that was negotiated, and its session timer is armed for the interval
/// that was agreed on, or stopped where there is none.
pub proof fn changes_are_concluded(
    s: UasView,
    req: RequestSummary,
    d: Seq<Seq<char>>,
    tag: Seq<char>,
    reneg: RenegotiationView,
    timer: Option<SessionTimerAgreement>,
    peer: Seq<char>,
)
    requires
        s.dialogs.contains_key(d),
    ensures
        ({
            let (after, c) = conclude_step(s, req, d, tag, reneg, timer, peer);
            let ok = ReplyView {
                status: 200,
                reason: "OK"@,
                tag: Some(tag),
                extras: ok_headers(s.settings.contact, timer, reneg.body.len() > 0),
                body: vstd::utf8::encode_utf8(reneg.body),
            };
            let new = changed_record(s.dialogs[d], req, reneg, timer);
            &&& answers(s, req, ok, peer, c)
            &&& c.contains(UasCommandView::Upsert(new))
            &&& after.dialogs.contains_key(d)
            &&& after.dialogs[d] == (RecordView { pending_2xx: after.dialogs[d].pending_2xx, ..new })
            &&& timer matches Some(t) ==> after.timers.contains_key(d) && c.contains(
                UasCommandView::ArmSession {
                    dialog: d,
                    generation: after.timers[d],
                    after: expiry(t.interval_secs),
                },
            )
            &&& timer is None ==> !after.timers.contains_key(d) && c.contains(
                UasCommandView::CancelSession(d),
            )
        }),
{
    let (after, c) = conclude_step(s, req, d, tag, reneg, timer, peer);
    let (s1, c1) = commit_step(s, req, d, reneg, timer);
    let ok = changed_reply(s1, tag, reneg.body, timer);
    let (s2, c2) = respond_step(s1, req, ok, peer);
    let (s3, c3) = rearm_step(s2, d, timer);
    responses_go_out(s1, req, ok, peer);
    assert(c1 + c2 + c3 =~= c);
    lemma_answers_within(s1, req, ok, peer, c2, c1, c3);
    lemma_within(c, c1[0], 0);
    let base = (c1.len() + c2.len()) as int;
    assert(c[base] == c3[0]);
    lemma_within(c, c3[0], base);
    assert(after.dialogs[d] =~= (RecordView {
        pending_2xx: after.dialogs[d].pending_2xx,
        ..changed_record(s.dialogs[d], req, reneg, timer)
    }));
}

/// Every arming of a session timer has a number of its own, until all are used.
pub proof fn timers_are_armed_anew(s: UasView, d: Seq<Seq<char>>, interval_secs: u32)
    requires
        s.timers.contains_key(d),
    ensures
        ({
            let after = arm_step(s, d, interval_secs).0;
            after.timers.contains_key(d) && after.timers[d] != s.timers[d] && (s.timers[d]
                < u64::MAX ==> after.timers[d] == s.timers[d] + 1)
        }),
{
}

/// Re-pointed media rebuilds the bridge exactly when the media moved and both
/// sides said where they receive RTP; the new bridge joins the dialog's new leg
/// with the other's.
pub proof fn moved_media_rebuilds_the_bridge(
    s: UasView,
    d: Seq<Seq<char>>,
    new: super::super::offer::LegView,
    p: Seq<Seq<char>>,
)
    ensures
        ({
            let plan = rebuild_plan(s, d, new, Some(p));
            let moved = !(s.legs.contains_key(d) && s.legs[d] == new);
            &&& plan is Some <==> moved && new.remote is Some && s.legs.contains_key(p)
                && s.legs[p].remote is Some
            &&& plan matches Some((a, b)) ==> {
                &&& a.endpoint == new.endpoint && Some(a.peer) == new.remote
                &&& a.srtp == new.srtp && a.clock_rate == new.clock_rate && a.rtcp_peer
                    == new.rtcp_peer
                &&& b.endpoint == s.legs[p].endpoint && Some(b.peer) == s.legs[p].remote
                &&& b.srtp == s.legs[p].srtp && b.clock_rate == s.legs[p].clock_rate
                    && b.rtcp_peer == s.legs[p].rtcp_peer
            }
            &&& rebuild_plan(s, d, new, None) is None
        }),
{
}

// ---------------------------------------------------------------------
// Acknowledgement
// ---------------------------------------------------------------------

/// An ACK confirms its dialog and takes the kept 2xx off it, and changes
/// nothing else of it; no other dialog is touched.
pub proof fn acks_confirm_their_dialog(
    s: UasView,
    req: RequestSummary,
    d: Seq<Seq<char>>,
    other: Seq<Seq<char>>,
)
    requires
        named_dialog(req@) == Some(d),
        s.dialogs.contains_key(d),
        other != d,
    ensures
        ({
            let (after, c) = ack_step(s, req);
            &&& after.dialogs.contains_key(d)
            &&& after.dialogs[d] == (RecordView {
                state: DialogState::Confirmed,
                pending_2xx: None,
                ..s.dialogs[d]
            })
            &&& c.contains(UasCommandView::Upsert(after.dialogs[d]))
            &&& c.contains(UasCommandView::StopRetransmit(d))
            &&& after.dialogs.contains_key(other) == s.dialogs.contains_key(other)
            &&& s.dialogs.contains_key(other) ==> after.dialogs[other] == s.dialogs[other]
            &&& after == (UasView { dialogs: after.dialogs, slots: after.slots, ..s })
        }),
{
    let (after, c) = ack_step(s, req);
    let n = c.len();
    assert(c[n - 1] == UasCommandView::StopRetransmit(d));
    lemma_within(c, c[n - 1], n - 1);
    lemma_within(c, c[n - 2], n - 2);
    assert(after.dialogs[d] =~= (RecordView {
        state: DialogState::Confirmed,
        pending_2xx: None,
        ..s.dialogs[d]
    }));
    assert(after =~= (UasView { dialogs: after.dialogs, slots: after.slots, ..s }));
}

// ---------------------------------------------------------------------
// The end
// ---------------------------------------------------------------------

/// A dialog that the engine ends gets a BYE, numbered one above the last
/// request, to the same peer and by the same route, on a branch of its own; a
/// dialog that its peer ends gets none.
pub proof fn ended_dialogs_get_a_bye(
    s: UasView,
    d: Seq<Seq<char>>,
    send_bye: bool,
    event: DialogEvent,
    now: Moment,
)
    requires
        s.dialogs.contains_key(d),
        s.dialogs[d].local_cseq < u32::MAX,
    ensures
        ({
            let (_, c, record) = teardown_step(s, d, send_bye, event, now);
            &&& send_bye ==> {
                &&& c.last() matches UasCommandView::Bye { record: used, branch }
                &&& branch == "z9hG4bK-"@ + tag_at(s, now)
                &&& used.local_cseq == s.dialogs[d].local_cseq + 1
                &&& used == (RecordView {
                    local_cseq: used.local_cseq,
                    state: used.state,
                    ..s.dialogs[d]
                })
            }
            &&& !send_bye ==> forall|i: int| 0 <= i < c.len() ==> #[trigger] c[i] !is Bye
            &&& record.call_id == s.dialogs[d].call_id
            &&& record.local_tag == s.dialogs[d].local_tag
            &&& c.contains(UasCommandView::Forget(d))
        }),
{
    let (_, c, record) = teardown_step(s, d, send_bye, event, now);
    lemma_within(c, UasCommandView::Forget(d), 0);
    let found = s.dialogs[d];
    let used = bye_record(RecordView { state: driven(found.state, event).0, ..found });
    assert(used =~= (RecordView { local_cseq: used.local_cseq, state: used.state, ..found }));
}

/// The record of a call says who called whom, when it began and when it ended,
/// how many seconds lie between, and how it ended; there is one exactly when
/// calls are recorded and this one was.
pub proof fn calls_are_recorded_as_they_were(
    s: UasView,
    d: Seq<Seq<char>>,
    call_id: Seq<char>,
    result: Seq<char>,
    now: Moment,
)
    ensures
        ({
            let (after, c) = finish_step(s, d, call_id, result, now);
            let start = s.cdrs[d];
            &&& c.last() == (UasCommandView::Ended { call_id })
            &&& !after.cdrs.contains_key(d)
            &&& !(s.settings.records_calls && s.cdrs.contains_key(d)) ==> c.len() == 1
            &&& s.settings.records_calls && s.cdrs.contains_key(d) ==> {
                &&& c.len() == 2
                &&& c[0] matches UasCommandView::Cdr(cdr)
                &&& cdr.call_id == start.call_id
                &&& cdr.from_uri == start.from_uri
                &&& cdr.to_uri == start.to_uri
                &&& cdr.started_at_unix == start.started_at_unix
                &&& cdr.ended_at_unix == now.unix
                &&& cdr.result == result
                &&& now.unix < start.started_at_unix ==> cdr.duration_secs == 0
                &&& 0 <= now.unix - start.started_at_unix <= i64::MAX ==> cdr.duration_secs
                    == now.unix - start.started_at_unix
                &&& now.unix - start.started_at_unix > i64::MAX ==> cdr.duration_secs == i64::MAX
            }
        }),
{
}

/// A BYE of the engine is sent, in a transaction of its own, to the address that
/// the peer sent from; it is the request of the dialog, over the transport that
/// the dialog arrived on.
pub proof fn byes_go_to_the_peer(
    s: UasView,
    record: RecordView,
    branch: Seq<char>,
    sent_by: Seq<char>,
)
    ensures
        ({
            let (after, c) = bye_step(s, record, branch, sent_by);
            let transport = match record.transport {
                Some(t) => t,
                None => s.settings.transport,
            };
            let bye = vstd::utf8::encode_utf8(
                in_dialog_text("BYE"@, record, sent_by, transport, branch),
            );
            let key = KeyView { branch, method: "BYE"@, role: Role::Client };
            &&& after.slots.contains_key(path(key))
            &&& after.slots[path(key)].txn.buffer == Some(bye)
            &&& after.slots[path(key)].txn.state == TransactionState::Trying
            &&& after.slots[path(key)].txn.reliable == s.reliable
            &&& c.len() == 2
            &&& c[0] == (UasCommandView::Open { key, peer: record.peer_signal })
            &&& c[1] matches UasCommandView::Txn { key: k, commands }
            &&& k == key
            &&& commands.contains(CommandView::Send(bye))
            &&& commands.contains(CommandView::Arm { id: TimerId::F, after: (64 * T1) as Millis })
            &&& !s.reliable ==> commands.contains(CommandView::Arm { id: TimerId::E, after: T1 })
        }),
{
    let transport = match record.transport {
        Some(t) => t,
        None => s.settings.transport,
    };
    let bye = vstd::utf8::encode_utf8(in_dialog_text("BYE"@, record, sent_by, transport, branch));
    let key = KeyView { branch, method: "BYE"@, role: Role::Client };
    let slot = fresh_slot(
        Flavor::ClientNonInvite,
        new_client_non_invite(branch, "BYE"@, bye),
        s.reliable,
        None,
    );
    let table = s.slots.insert(path(key), slot);
    let actions = step(slot.flavor, slot.txn, EventView::StartClient).1;
    let commands = commands_from(slot.txn.key, actions, false, 0);
    reveal_with_fuel(commands_from, 4);
    assert(actions[0] == ActionView::SendToPeer(bye));
    assert(commands[0] == CommandView::Send(bye));
    assert(commands.contains(commands[0]));
    if s.reliable {
        assert(actions.len() == 2);
        assert(actions[1] == (ActionView::ArmTimer { id: TimerId::F, after: 32_000 }));
        assert(commands[1] == (CommandView::Arm { id: TimerId::F, after: 32_000 }));
        assert(commands.contains(commands[1]));
    } else {
        assert(actions.len() == 3);
        assert(actions[1] == (ActionView::ArmTimer { id: TimerId::E, after: T1 }));
        assert(actions[2] == (ActionView::ArmTimer { id: TimerId::F, after: 32_000 }));
        assert(commands[1] == (CommandView::Arm { id: TimerId::E, after: T1 }));
        assert(commands[2] == (CommandView::Arm { id: TimerId::F, after: 32_000 }));
        assert(commands.contains(commands[1]) && commands.contains(commands[2]));
    }
    assert(!ends_in(actions));
    assert(table_after(table, path(key), EventView::StartClient).1 == commands);
}

/// A call that a timer or the engine itself ends: its dialog is gone, its peer
/// gets a BYE, its record says how it ended, and its end is announced.
pub proof fn ended_calls_are_reported(
    s: UasView,
    d: Seq<Seq<char>>,
    event: DialogEvent,
    result: Seq<char>,
    now: Moment,
)
    requires
        s.dialogs.contains_key(d),
    ensures
        ({
            let (after, c) = end_step(s, d, event, result, None, now);
            &&& !after.dialogs.contains_key(d)
            &&& exists|i: int|
                0 <= i < c.len() && (#[trigger] c[i] matches UasCommandView::Bye { record, .. }
                    && record.path() == s.dialogs[d].path())
            &&& c.last() == (UasCommandView::Ended { call_id: s.dialogs[d].call_id })
            &&& s.settings.records_calls && s.cdrs.contains_key(d) ==> {
                &&& c[c.len() - 2] matches UasCommandView::Cdr(cdr)
                &&& cdr.result == result
                &&& cdr.ended_at_unix == now.unix
                &&& cdr.call_id == s.cdrs[d].call_id
            }
        }),
        !s.dialogs.contains_key(d) ==> end_step(s, d, event, result, None, now) == (
            s,
            Seq::<UasCommandView>::empty(),
        ),
{
    let (after, c) = end_step(s, d, event, result, None, now);
    let (s1, c1, record) = teardown_step(s, d, true, event, now);
    let n = c1.len() - 1;
    assert(c[n] == c1[n]);
    assert(c1[n] is Bye);
}

/// A BYE of the peer ends its call: the dialog is gone, the peer gets no BYE in
/// return, the end is announced, and the call's record says `answered`.
pub proof fn byes_end_their_call(
    s: UasView,
    req: RequestSummary,
    d: Seq<Seq<char>>,
    peer: Seq<char>,
    now: Moment,
)
    requires
        req@.method == "BYE"@,
        named_dialog(req@) == Some(d),
        s.dialogs.contains_key(d),
    ensures
        ({
            let (after, c) = handle_bye_step(s, req, None, peer, now);
            &&& !after.dialogs.contains_key(d)
            &&& forall|i: int| 0 <= i < c.len() ==> #[trigger] c[i] !is Bye
            &&& c.last() == (UasCommandView::Ended { call_id: s.dialogs[d].call_id })
            &&& s.settings.records_calls && s.cdrs.contains_key(d) ==> {
                &&& c[c.len() - 2] matches UasCommandView::Cdr(cdr)
                &&& cdr.result == "answered"@
                &&& cdr.ended_at_unix == now.unix
                &&& cdr.call_id == s.cdrs[d].call_id
                &&& cdr.started_at_unix == s.cdrs[d].started_at_unix
            }
            &&& s.dialogs[d].media matches Some(e) ==> c.contains(
                UasCommandView::ReleaseEndpoint(e),
            )
        }),
{
    let (after, c) = handle_bye_step(s, req, None, peer, now);
    let (s1, c1, record) = teardown_step(s, d, false, DialogEvent::ByeCompleted, now);
    let reply = super::respond::plain(200, "OK"@, record.local_tag);
    let (s2, c2) = respond_step(s1, req, reply, peer);
    let (s3, c3) = finish_step(s2, d, record.call_id, "answered"@, now);
    reveal_strlit("BYE");
    reveal_strlit("INVITE");
    assert("BYE"@.len() == 3 && "INVITE"@.len() == 6);
    assert(c == c1 + c2 + c3);
    assert(s2.settings == s.settings && s2.cdrs == s.cdrs);
    super::laws::ended_dialogs_release_everything(s, d, false, DialogEvent::ByeCompleted, now);
    if let Some(e) = s.dialogs[d].media {
        let x = UasCommandView::ReleaseEndpoint(e);
        let i = choose|i: int| 0 <= i < c1.len() && c1[i] == x;
        lemma_within(c, x, i);
    }
    assert forall|i: int| 0 <= i < c.len() implies #[trigger] c[i] !is Bye by {
        if i < c1.len() {
            assert(c[i] == c1[i]);
        } else if i < c1.len() + c2.len() {
            assert(c[i] == c2[i - c1.len()]);
        } else {
            assert(c[i] == c3[i - c1.len() - c2.len()]);
        }
    }
}

/// A timer that ends a call ends it as such: the dialog is gone, its peer gets a
/// BYE, and the call's record names the timer. A timer that does not, does
/// nothing.
pub proof fn timers_end_their_call(s: UasView, e: InternalEvent, now: Moment)
    ensures
        ({
            let d = event_dialog(e);
            let (after, c) = timer_step(s, e, None, now);
            &&& verdict_on(s, e) is None ==> after == s && c.len() == 0
            &&& verdict_on(s, e) is Some && s.dialogs.contains_key(d) ==> {
                &&& !after.dialogs.contains_key(d)
                &&& exists|i: int|
                    0 <= i < c.len() && (#[trigger] c[i] matches UasCommandView::Bye { record, .. }
                        && record.path() == s.dialogs[d].path())
                &&& c.last() == (UasCommandView::Ended { call_id: s.dialogs[d].call_id })
                &&& s.settings.records_calls && s.cdrs.contains_key(d) ==> (
                c[c.len() - 2] matches UasCommandView::Cdr(cdr) && {
                    &&& e is AckTimeout ==> cdr.result == "ack_timeout"@
                    &&& e is SessionExpired ==> cdr.result == "session_expired"@
                    &&& e is MaxDurationReached ==> cdr.result == "max_duration"@
                })
            }
        }),
{
    if let Some((event, result)) = verdict_on(s, e) {
        if s.dialogs.contains_key(event_dialog(e)) {
            ended_calls_are_reported(s, event_dialog(e), event, result, now);
        }
    }
}

/// The other side of a bridged call is ended with a BYE, and its record says
/// `answered`.
pub proof fn partners_are_recorded_as_answered(
    s: UasView,
    d: Seq<Seq<char>>,
    send_bye: bool,
    event: DialogEvent,
    p: Seq<Seq<char>>,
    now: Moment,
)
    requires
        s.dialogs.contains_key(d),
        s.dialogs.contains_key(p),
        p != d,
        s.settings.records_calls,
        s.cdrs.contains_key(p),
    ensures
        ({
            let (after, c, _) = call_step(s, d, send_bye, event, Some(p), now);
            &&& c.last() == (UasCommandView::Ended { call_id: s.dialogs[p].call_id })
            &&& c[c.len() - 2] matches UasCommandView::Cdr(cdr)
            &&& cdr.result == "answered"@
            &&& cdr.call_id == s.cdrs[p].call_id
            &&& !after.cdrs.contains_key(p)
        }),
{
    let (s1, c1, record) = teardown_step(s, d, send_bye, event, now);
    assert(s1.dialogs.contains_key(p) && s1.dialogs[p] == s.dialogs[p]);
    let (s2, c2, other) = teardown_step(s1, p, true, DialogEvent::ByeCompleted, now);
    assert(s2.cdrs == s.cdrs && s2.settings == s.settings);
}

/// Two dialogs are partners exactly when they are different and on one bridge.
pub proof fn partners_share_a_bridge(s: UasView, d: Seq<Seq<char>>, p: Seq<Seq<char>>)
    requires
        p.len() == 3,
    ensures
        is_partner(s, d, p) <==> p != d && s.bridges.contains_key(d) && s.bridges.contains_key(p)
            && s.bridges[d] == s.bridges[p],
        is_partner(s, d, p) && d.len() == 3 ==> is_partner(s, p, d),
{
}

/// A bridge that is rebuilt is released first; the media of the dialog is the
/// new one in any case.
pub proof fn rebuilt_bridges_are_released(
    s: UasView,
    d: Seq<Seq<char>>,
    new: super::super::offer::LegView,
    partner: Option<Seq<Seq<char>>>,
    r: LegStep,
    c: Seq<UasCommandView>,
)
    requires
        leg_settled(s, d, new, partner, r, c),
    ensures
        r is Rebuild ==> c == seq![UasCommandView::ReleaseBridge(s.bridges[d])],
        r is Settled ==> c.len() == 0,
        r is Rebuild <==> rebuild_plan(s, d, new, partner) is Some,
        r matches LegStep::Rebuild { leg, other_leg, other } ==> Some(dialog_path(other))
            == partner && leg@.endpoint == new.endpoint && Some(leg@.peer) == new.remote
            && other_leg@.endpoint == s.legs[partner->0].endpoint,
        repointed(s, d, new).legs.contains_key(d) && repointed(s, d, new).legs[d] == new,
        repointed(s, d, new).sessions == s.sessions && repointed(s, d, new).dialogs == s.dialogs
            && repointed(s, d, new).bridges == s.bridges,
{
}

// ---------------------------------------------------------------------
// Nothing else
// ---------------------------------------------------------------------

/// Of every dialog but `d` the two states hold the same.
pub open spec fn same_elsewhere(a: UasView, b: UasView, d: Seq<Seq<char>>) -> bool {
    &&& a.settings == b.settings
    &&& a.reliable == b.reliable
    &&& a.pending == b.pending
    &&& a.cancelled == b.cancelled
    &&& forall|p: Seq<Seq<char>>| #![trigger b.dialogs.contains_key(p)]
        p != d ==> a.dialogs.contains_key(p) == b.dialogs.contains_key(p) && (
        a.dialogs.contains_key(p) ==> a.dialogs[p] == b.dialogs[p])
    &&& forall|p: Seq<Seq<char>>| #![trigger b.legs.contains_key(p)]
        p != d ==> a.legs.contains_key(p) == b.legs.contains_key(p) && (a.legs.contains_key(p)
            ==> a.legs[p] == b.legs[p])
    &&& forall|p: Seq<Seq<char>>| #![trigger b.cdrs.contains_key(p)]
        p != d ==> a.cdrs.contains_key(p) == b.cdrs.contains_key(p) && (a.cdrs.contains_key(p)
            ==> a.cdrs[p] == b.cdrs[p])
    &&& forall|p: Seq<Seq<char>>| #![trigger b.timers.contains_key(p)]
        p != d ==> a.timers.contains_key(p) == b.timers.contains_key(p) && (a.timers.contains_key(p)
            ==> a.timers[p] == b.timers[p])
    &&& forall|p: Seq<Seq<char>>| #![trigger b.bridges.contains_key(p)]
        p != d ==> a.bridges.contains_key(p) == b.bridges.contains_key(p) && (
        a.bridges.contains_key(p) ==> a.bridges[p] == b.bridges[p])
    &&& forall|p: Seq<Seq<char>>| #![trigger b.sessions.contains_key(p)]
        p != d ==> a.sessions.contains_key(p) == b.sessions.contains_key(p) && (
        a.sessions.contains_key(p) ==> a.sessions[p] == b.sessions[p])
}

/// `c` ends, releases or forgets something.
pub open spec fn takes_away(c: UasCommandView) -> bool {
    ||| c is StopRetransmit
    ||| c is CancelGuard
    ||| c is ReleaseEndpoint
    ||| c is ReleaseBridge
    ||| c is StopSession
    ||| c is Forget
    ||| c is Bye
    ||| c is Ended
    ||| c is Cdr
}

/// Establishing a dialog touches no other, takes nothing away, and uses no tag.
pub proof fn establishing_touches_nothing_else(
    s: UasView,
    req: RequestSummary,
    dialog: DialogKey,
    media: Option<MediaView>,
    timer: Option<SessionTimerAgreement>,
    peer: Seq<char>,
    now: Moment,
)
    requires
        req@.call_id == Some(dialog.0@),
        req@.from_tag == Some(dialog.2@),
    ensures
        ({
            let (after, c) = establish_step(s, req, dialog, media, timer, peer, now);
            &&& same_elsewhere(s, after, dialog_path(dialog))
            &&& after.issued == s.issued
            &&& after.bridges == s.bridges && after.sessions == s.sessions
            &&& forall|i: int| 0 <= i < c.len() ==> !takes_away(#[trigger] c[i])
        }),
{
    let (after, c) = establish_step(s, req, dialog, media, timer, peer, now);
    let d = dialog_path(dialog);
    let s1 = recorded(s, req, dialog, media, timer, peer, now);
    let c1 = seq![UasCommandView::Upsert(new_record(s, req, dialog, media, timer, peer))];
    let (s2, c2) = respond_step(s1, req, ok_reply(s, dialog.1@, media, timer), peer);
    assert forall|i: int| 0 <= i < c2.len() implies !takes_away(#[trigger] c2[i]) by {}
    assert forall|i: int| 0 <= i < c.len() implies !takes_away(#[trigger] c[i]) by {
        if c1.len() <= i < c1.len() + c2.len() {
            assert(c[i] == c2[i - c1.len()]);
        }
    }
}

/// Changing a dialog touches no other, and takes nothing away.
pub proof fn changing_touches_nothing_else(
    s: UasView,
    req: RequestSummary,
    d: Seq<Seq<char>>,
    tag: Seq<char>,
    reneg: RenegotiationView,
    timer: Option<SessionTimerAgreement>,
    peer: Seq<char>,
)
    requires
        named_dialog(req@) == Some(d),
        d[1] == tag,
    ensures
        ({
            let (after, c) = conclude_step(s, req, d, tag, reneg, timer, peer);
            &&& same_elsewhere(s, after, d)
            &&& after.issued == s.issued
            &&& after.legs == s.legs && after.bridges == s.bridges && after.sessions == s.sessions
                && after.cdrs == s.cdrs
            &&& forall|i: int| 0 <= i < c.len() ==> !takes_away(#[trigger] c[i])
        }),
{
    let (after, c) = conclude_step(s, req, d, tag, reneg, timer, peer);
    let (s1, c1) = commit_step(s, req, d, reneg, timer);
    let reply = changed_reply(s1, tag, reneg.body, timer);
    let (s2, c2) = respond_step(s1, req, reply, peer);
    let (s3, c3) = rearm_step(s2, d, timer);
    assert(d =~= seq![req@.call_id->0, tag, req@.from_tag->0]);
    assert forall|i: int| 0 <= i < c2.len() implies !takes_away(#[trigger] c2[i]) by {}
    assert forall|i: int| 0 <= i < c.len() implies !takes_away(#[trigger] c[i]) by {
        if c1.len() <= i < c1.len() + c2.len() {
            assert(c[i] == c2[i - c1.len()]);
        } else if i >= c1.len() + c2.len() {
            assert(c[i] == c3[i - c1.len() - c2.len()]);
        }
    }
}

/// An answer to anything but an INVITE touches nothing but the request's
/// transaction and the count of tags.
pub proof fn answers_touch_nothing_else(
    s: UasView,
    req: RequestSummary,
    auth: Option<super::register::AuthOutcome>,
    peer: Seq<char>,
    now: Moment,
)
    requires
        req@.method != "INVITE"@,
    ensures
        ({
            let (after, c) = super::register::register_step(s, req, auth, peer, now);
            &&& after == (UasView { slots: after.slots, issued: after.issued, ..s })
            &&& c.len() == 1
        }),
{
    let after = super::register::register_step(s, req, auth, peer, now).0;
    assert(after =~= (UasView { slots: after.slots, issued: after.issued, ..s }));
}

/// What an event does to a stored dialog: an ACK confirms an early one and is
/// refused by a confirmed one; a BYE and an error end either; a cancellation
/// ends an early one alone. A state that is left or kept is the stored one.
pub proof fn stored_dialogs_take_their_course(state: DialogState)
    ensures
        driven(DialogState::Early, DialogEvent::AckReceived) == (
            DialogState::Confirmed,
            FsmOutcome::Continue,
        ),
        driven(DialogState::Confirmed, DialogEvent::AckReceived) == (
            DialogState::Confirmed,
            FsmOutcome::Illegal,
        ),
        driven(state, DialogEvent::ByeCompleted) == (state, FsmOutcome::Terminated),
        driven(state, DialogEvent::Error) == (state, FsmOutcome::Terminated),
        driven(DialogState::Early, DialogEvent::Cancelled) == (
            DialogState::Early,
            FsmOutcome::Terminated,
        ),
        driven(DialogState::Confirmed, DialogEvent::Cancelled) == (
            DialogState::Confirmed,
            FsmOutcome::Illegal,
        ),
{
}

} // verus!
