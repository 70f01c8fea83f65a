//! What holds of the server as a whole.

use vstd::prelude::*;

use super::super::session_timer::SessionTimerAgreement;
use super::super::summary::{named_dialog, RequestSummary};
use super::dispatch::{
    ack_step, ack_transaction, acknowledged, event_dialog, verdict_on, InternalEvent,
};
use super::ingress::{any_invited, cancel_step, invited, is_retransmit, open_step};
use super::invite::{
    arm_step, establish_step, invite_tag, new_record, open_invite_step, recorded, was_cancelled,
    MediaView,
};
use super::respond::{deliver_step, respond_step, ReplyView};
use super::teardown::{bye_record, call_step, finish_step, is_partner, teardown_step};
use super::update::{
    changed_record, commit_step, conclude_step, cseq_verdict, open_update_step, CseqVerdict,
    RenegotiationView,
};
use super::{keyed, server_key, tag_at, Moment, UasCommandView, UasView};
use crate::record::{dialog_path, DialogKey, DialogState, RecordView};
use crate::txn::dialog::DialogEvent;
use crate::txn::driver::{commands_from, path, table_after, CommandView};
use crate::txn::machine::step;
use crate::txn::{is_final, ActionView, EventView, TransactionState};

verus! {

// ---------------------------------------------------------------------
// Responses
// ---------------------------------------------------------------------

/// A refusal changes nothing but the request's transaction: it establishes no
/// dialog, and touches none.
pub proof fn refusals_establish_nothing(
    s: UasView,
    req: RequestSummary,
    reply: ReplyView,
    peer: Seq<char>,
)
    requires
        !(200 <= reply.status < 300),
    ensures
        ({
            let after = respond_step(s, req, reply, peer).0;
            after == (UasView { slots: after.slots, ..s })
        }),
{
    let after = respond_step(s, req, reply, peer).0;
    assert(after =~= (UasView { slots: after.slots, ..s }));
}

/// The final response to a request that just arrived goes out, byte for byte.
pub proof fn fresh_requests_get_their_answer(
    s: UasView,
    req: RequestSummary,
    branch: Seq<char>,
    status: u16,
    bytes: Seq<u8>,
    peer: Seq<char>,
)
    requires
        req@.branch == Some(branch),
        is_final(status),
    ensures
        ({
            let opened = open_step(s, req, branch, peer).0;
            let c = deliver_step(opened, req, status, bytes, peer).1;
            &&& c.len() == 1
            &&& c[0] matches UasCommandView::Txn { key, commands }
            &&& key == server_key(branch, req@.method)
            &&& commands.contains(CommandView::Send(bytes))
        }),
{
    let opened = open_step(s, req, branch, peer).0;
    let key = server_key(branch, req@.method);
    let slot = opened.slots[path(key)];
    let event = EventView::SendResponseFromTu { status, bytes };
    let actions = step(slot.flavor, slot.txn, event).1;
    let commands = commands_from(slot.txn.key, actions, slot.got_2xx, 0);
    assert(actions.len() > 0 && actions[0] == ActionView::SendToPeer(bytes));
    assert(commands[0] == CommandView::Send(bytes));
    assert(table_after(opened.slots, path(key), event).1 == commands);
}

// ---------------------------------------------------------------------
// Dialogs
// ---------------------------------------------------------------------

/// A dialog that was ended is gone from every table, and so is whatever shared
/// its bridge from the table of bridges. All other dialogs stay as they were.
pub proof fn ended_dialogs_leave_nothing(
    s: UasView,
    d: Seq<Seq<char>>,
    send_bye: bool,
    event: DialogEvent,
    now: Moment,
    other: Seq<Seq<char>>,
)
    requires
        s.dialogs.contains_key(d),
        other != d,
    ensures
        ({
            let after = teardown_step(s, d, send_bye, event, now).0;
            &&& !after.dialogs.contains_key(d)
            &&& !after.legs.contains_key(d)
            &&& !after.bridges.contains_key(d)
            &&& !after.sessions.contains_key(d)
            &&& !after.timers.contains_key(d)
            &&& s.bridges.contains_key(d) ==> forall|p: Seq<Seq<char>>| #[trigger]
                after.bridges.contains_key(p) ==> after.bridges[p] != s.bridges[d]
            &&& after.dialogs.contains_key(other) == s.dialogs.contains_key(other)
            &&& s.dialogs.contains_key(other) ==> after.dialogs[other] == s.dialogs[other]
            &&& after.legs.contains_key(other) == s.legs.contains_key(other)
            &&& s.legs.contains_key(other) ==> after.legs[other] == s.legs[other]
            &&& after.sessions.contains_key(other) == s.sessions.contains_key(other)
            &&& after.timers.contains_key(other) == s.timers.contains_key(other)
        }),
{
}

/// A dialog that was ended no longer waits for a second caller.
pub proof fn ended_dialogs_do_not_wait(
    s: UasView,
    d: Seq<Seq<char>>,
    send_bye: bool,
    event: DialogEvent,
    now: Moment,
    room: Seq<char>,
)
    requires
        s.dialogs.contains_key(d),
        s.dialogs[d].rendezvous == Some(room),
    ensures
        ({
            let after = teardown_step(s, d, send_bye, event, now).0;
            after.pending.contains_key(seq![room]) ==> after.pending[seq![room]].dialog != d
        }),
{
}

/// What a dialog held outside is released when it ends: its endpoint, its
/// bridge and its session; and its timers are stopped.
pub proof fn ended_dialogs_release_everything(
    s: UasView,
    d: Seq<Seq<char>>,
    send_bye: bool,
    event: DialogEvent,
    now: Moment,
)
    requires
        s.dialogs.contains_key(d),
    ensures
        ({
            let c = teardown_step(s, d, send_bye, event, now).1;
            &&& s.dialogs[d].media matches Some(e) ==> c.contains(
                UasCommandView::ReleaseEndpoint(e),
            )
            &&& s.bridges.contains_key(d) ==> c.contains(
                UasCommandView::ReleaseBridge(s.bridges[d]),
            )
            &&& s.sessions.contains_key(d) ==> c.contains(
                UasCommandView::StopSession(s.sessions[d]),
            )
            &&& c.contains(UasCommandView::StopRetransmit(d))
            &&& c.contains(UasCommandView::CancelSession(d))
            &&& c.contains(UasCommandView::CancelGuard(d))
        }),
{
    let c = teardown_step(s, d, send_bye, event, now).1;
    let timers = super::teardown::timer_release(d);
    let bridge = super::teardown::bridge_release(s, d);
    let media = super::teardown::media_release(s, d, s.dialogs[d].media);
    let all = timers + bridge + media;
    assert(forall|i: int| 0 <= i < all.len() ==> c[i] == #[trigger] all[i]);
    assert(c[1] == UasCommandView::StopRetransmit(d));
    assert(c[2] == UasCommandView::CancelSession(d));
    assert(c[3] == UasCommandView::CancelGuard(d));
    if s.bridges.contains_key(d) {
        assert(c[4] == UasCommandView::ReleaseBridge(s.bridges[d]));
    }
    let m = (timers.len() + bridge.len()) as int;
    if s.sessions.contains_key(d) {
        assert(all[m] == media[0]);
        assert(c[m] == UasCommandView::StopSession(s.sessions[d]));
    }
    if s.dialogs[d].media is Some {
        let k = all.len() - 1;
        assert(all[k] == media[media.len() - 1]);
        assert(c[k] == UasCommandView::ReleaseEndpoint(s.dialogs[d].media->0));
    }
}

/// A call that is bridged ends on both sides: neither dialog is left, and the
/// one on the other side gets a BYE.
pub proof fn bridged_calls_end_together(
    s: UasView,
    d: Seq<Seq<char>>,
    send_bye: bool,
    event: DialogEvent,
    p: Seq<Seq<char>>,
    now: Moment,
)
    requires
        s.dialogs.contains_key(d),
        s.dialogs.contains_key(p),
        is_partner(s, d, p),
    ensures
        ({
            let (after, c, _) = call_step(s, d, send_bye, event, Some(p), now);
            &&& !after.dialogs.contains_key(d)
            &&& !after.dialogs.contains_key(p)
            &&& exists|i: int|
                0 <= i < c.len() && (#[trigger] c[i] matches UasCommandView::Bye { record, .. }
                    && record.path() == s.dialogs[p].path())
        }),
{
    let (s1, c1, _) = teardown_step(s, d, send_bye, event, now);
    let (s2, c2, other) = teardown_step(s1, p, true, DialogEvent::ByeCompleted, now);
    let (s3, c3) = finish_step(s2, p, other.call_id, "answered"@, now);
    let c = call_step(s, d, send_bye, event, Some(p), now).1;
    assert(c == c1 + c2 + c3);
    let i = c1.len() + c2.len() - 1;
    assert(c[i] == c2[c2.len() - 1]);
    assert(c2[c2.len() - 1] is Bye);
    assert(other.path() =~= s.dialogs[p].path());
}

/// A BYE to the peer uses a sequence number that the engine did not use
/// before, as long as there is one.
pub proof fn byes_use_the_next_number(record: RecordView)
    requires
        record.local_cseq < u32::MAX,
    ensures
        bye_record(record).local_cseq == record.local_cseq + 1,
        bye_record(record).path() == record.path(),
{
}

/// A call is recorded at most once, and never with a negative duration.
pub proof fn calls_are_recorded_once(
    s: UasView,
    d: Seq<Seq<char>>,
    call_id: Seq<char>,
    result: Seq<char>,
    again: Seq<char>,
    now: Moment,
    later: Moment,
)
    ensures
        ({
            let (s1, c1) = finish_step(s, d, call_id, result, now);
            let (_, c2) = finish_step(s1, d, call_id, again, later);
            &&& c2 == seq![UasCommandView::Ended { call_id }]
            &&& forall|i: int|
                0 <= i < c1.len() ==> (#[trigger] c1[i] matches UasCommandView::Cdr(cdr)
                    ==> cdr.duration_secs >= 0)
        }),
{
    let (s1, c1) = finish_step(s, d, call_id, result, now);
    let c2 = finish_step(s1, d, call_id, again, later).1;
    assert(c2 =~= seq![UasCommandView::Ended { call_id }]);
}

// ---------------------------------------------------------------------
// Acknowledgement and timers
// ---------------------------------------------------------------------

/// Once its 2xx is acknowledged a dialog is confirmed, holds no 2xx any more,
/// and is not ended for want of an ACK.
pub proof fn acknowledged_dialogs_stay(
    s: UasView,
    req: RequestSummary,
    d: Seq<Seq<char>>,
    timeout: InternalEvent,
)
    requires
        named_dialog(req@) == Some(d),
        s.dialogs.contains_key(d),
        timeout is AckTimeout,
        event_dialog(timeout) == d,
    ensures
        ({
            let (after, c) = ack_step(s, req);
            &&& after.dialogs.contains_key(d)
            &&& after.dialogs[d].state == DialogState::Confirmed
            &&& after.dialogs[d].pending_2xx is None
            &&& c.contains(UasCommandView::StopRetransmit(d))
            &&& verdict_on(after, timeout) is None
        }),
{
    let (after, c) = ack_step(s, req);
    assert(c[c.len() - 1] == UasCommandView::StopRetransmit(d));
}

/// A session that was refreshed is not ended by the timer of before.
pub proof fn refreshed_sessions_go_on(
    s: UasView,
    d: Seq<Seq<char>>,
    interval_secs: u32,
    stale: InternalEvent,
)
    requires
        s.timers.contains_key(d),
        stale matches InternalEvent::SessionExpired { generation, .. } && generation == s.timers[d],
        event_dialog(stale) == d,
    ensures
        verdict_on(s, stale) is Some,
        verdict_on(arm_step(s, d, interval_secs).0, stale) is None,
{
}

/// A timer of a dialog that is gone does nothing.
pub proof fn timers_of_ended_dialogs_do_nothing(
    s: UasView,
    d: Seq<Seq<char>>,
    send_bye: bool,
    event: DialogEvent,
    now: Moment,
    late: InternalEvent,
)
    requires
        s.dialogs.contains_key(d),
        event_dialog(late) == d,
    ensures
        verdict_on(teardown_step(s, d, send_bye, event, now).0, late) is None,
{
}

// ---------------------------------------------------------------------
// Establishing and changing
// ---------------------------------------------------------------------

/// A new dialog is found under the Call-ID and tags that its requests will
/// carry, and the same INVITE, should it come again, is recognised.
pub proof fn established_dialogs_are_found(
    s: UasView,
    req: RequestSummary,
    dialog: DialogKey,
    media: Option<MediaView>,
    timer: Option<SessionTimerAgreement>,
    peer: Seq<char>,
    now: Moment,
    branch: Seq<char>,
)
    requires
        req@.call_id == Some(dialog.0@),
        req@.from_tag == Some(dialog.2@),
        req@.to_tag is None,
        req@.branch == Some(branch),
    ensures
        ({
            let after = establish_step(s, req, dialog, media, timer, peer, now).0;
            &&& after.dialogs.contains_key(dialog_path(dialog))
            &&& after.dialogs[dialog_path(dialog)].path() == dialog_path(dialog)
            &&& is_retransmit(after, req)
        }),
{
    let after = establish_step(s, req, dialog, media, timer, peer, now).0;
    let d = dialog_path(dialog);
    let s1 = recorded(s, req, dialog, media, timer, peer, now);
    let reply = super::invite::ok_reply(s, dialog.1@, media, timer);
    lemma_respond_keeps_records(s1, req, reply, peer);
    assert(after.dialogs.contains_key(d));
    assert(after.dialogs[d].last_invite_branch == Some(branch));
    assert(invited(after, d, dialog.0@, Some(dialog.2@), branch));
    assert(any_invited(after, dialog.0@, Some(dialog.2@), branch));
}

/// A response leaves every record as it is but for the 2xx that it keeps.
proof fn lemma_respond_keeps_records(
    s: UasView,
    req: RequestSummary,
    reply: ReplyView,
    peer: Seq<char>,
)
    ensures
        ({
            let after = respond_step(s, req, reply, peer).0;
            &&& after.dialogs.dom() == s.dialogs.dom()
            &&& forall|p: Seq<Seq<char>>| #[trigger]
                s.dialogs.contains_key(p) ==> after.dialogs[p] == (RecordView {
                    pending_2xx: after.dialogs[p].pending_2xx,
                    ..s.dialogs[p]
                })
        }),
{
    let after = respond_step(s, req, reply, peer).0;
    assert(after.dialogs.dom() =~= s.dialogs.dom());
    assert forall|p: Seq<Seq<char>>| #[trigger]
        s.dialogs.contains_key(p) implies after.dialogs[p] == (RecordView {
        pending_2xx: after.dialogs[p].pending_2xx,
        ..s.dialogs[p]
    }) by {
        assert(after.dialogs[p] =~= (RecordView {
            pending_2xx: after.dialogs[p].pending_2xx,
            ..s.dialogs[p]
        }));
    }
}

/// A change that was made is not made again: once a request with some sequence
/// number changed a dialog, none with that number or a smaller one does.
pub proof fn changes_are_not_replayed(
    s: UasView,
    req: RequestSummary,
    d: Seq<Seq<char>>,
    tag: Seq<char>,
    reneg: RenegotiationView,
    timer: Option<SessionTimerAgreement>,
    peer: Seq<char>,
    n: u32,
    again: RequestSummary,
    m: u32,
    now: Moment,
)
    requires
        s.dialogs.contains_key(d),
        req.cseq == Some(n),
        cseq_verdict(req.cseq, s.dialogs[d].remote_cseq) == CseqVerdict::Fresh,
        named_dialog(again@) == Some(d),
        again.cseq == Some(m),
        m <= n,
    ensures
        ({
            let after = conclude_step(s, req, d, tag, reneg, timer, peer).0;
            &&& after.dialogs[d].remote_cseq == Some(n)
            &&& s.dialogs[d].remote_cseq matches Some(prev) ==> prev < n
            &&& open_update_step(after, again, peer, now).2 is None
        }),
{
    let (s1, _) = commit_step(s, req, d, reneg, timer);
    let reply = super::update::changed_reply(s1, tag, reneg.body, timer);
    lemma_respond_keeps_records(s1, req, reply, peer);
    let after = conclude_step(s, req, d, tag, reneg, timer, peer).0;
    assert(s1.dialogs.contains_key(d));
    assert(after.dialogs.contains_key(d));
    assert(after.dialogs[d].remote_cseq == Some(n));
}

/// An INVITE that was cancelled in time is refused, with the tag that the
/// CANCEL was answered with.
pub proof fn cancelled_invites_are_refused(
    s: UasView,
    cancel: RequestSummary,
    branch: Seq<char>,
    peer: Seq<char>,
    now: Moment,
    invite: RequestSummary,
    later: Moment,
)
    requires
        s.slots.contains_key(path(server_key(branch, "INVITE"@))),
        s.slots[path(server_key(branch, "INVITE"@))].txn.state == TransactionState::Proceeding,
        cancel@.method == "CANCEL"@,
        invite@.branch == Some(branch),
    ensures
        ({
            let after = (cancel_step(s, cancel, branch, peer, now)->0).0;
            &&& was_cancelled(after, invite)
            &&& !open_invite_step(after, invite, peer, later).2
            &&& invite_tag(after, invite, later).1 == tag_at(s, now)
        }),
{
    super::ingress::cancelled_invite_keeps_the_tag(s, cancel, branch, peer, now);
}

/// While the engine drains, no INVITE gets further, and the dialogs that are
/// there stay.
pub proof fn draining_admits_nothing(
    s: UasView,
    req: RequestSummary,
    peer: Seq<char>,
    now: Moment,
)
    requires
        s.settings.draining,
    ensures
        !open_invite_step(s, req, peer, now).2,
        open_invite_step(s, req, peer, now).0.dialogs == s.dialogs,
{
}

// ---------------------------------------------------------------------
// Every dialog stands under its own identity
// ---------------------------------------------------------------------

/// Answering keeps every dialog under its own identity.
pub proof fn responses_keep_identities(
    s: UasView,
    req: RequestSummary,
    reply: ReplyView,
    peer: Seq<char>,
)
    requires
        keyed(s),
    ensures
        keyed(respond_step(s, req, reply, peer).0),
{
    lemma_respond_keeps_records(s, req, reply, peer);
    let after = respond_step(s, req, reply, peer).0;
    assert forall|p: Seq<Seq<char>>| #[trigger]
        after.dialogs.contains_key(p) implies after.dialogs[p].path() == p by {
        assert(s.dialogs.contains_key(p));
    }
}

/// Establishing a dialog keeps every dialog under its own identity.
pub proof fn new_dialogs_keep_identities(
    s: UasView,
    req: RequestSummary,
    dialog: DialogKey,
    media: Option<MediaView>,
    timer: Option<SessionTimerAgreement>,
    peer: Seq<char>,
    now: Moment,
)
    requires
        keyed(s),
    ensures
        keyed(establish_step(s, req, dialog, media, timer, peer, now).0),
{
    let s1 = recorded(s, req, dialog, media, timer, peer, now);
    assert(new_record(s, req, dialog, media, timer, peer).path() =~= dialog_path(dialog));
    assert(keyed(s1));
    responses_keep_identities(
        s1,
        req,
        super::invite::ok_reply(s, dialog.1@, media, timer),
        peer,
    );
}

/// Changing a dialog keeps every dialog under its own identity.
pub proof fn changes_keep_identities(
    s: UasView,
    req: RequestSummary,
    d: Seq<Seq<char>>,
    tag: Seq<char>,
    reneg: RenegotiationView,
    timer: Option<SessionTimerAgreement>,
    peer: Seq<char>,
)
    requires
        keyed(s),
    ensures
        keyed(conclude_step(s, req, d, tag, reneg, timer, peer).0),
{
    let (s1, _) = commit_step(s, req, d, reneg, timer);
    assert(keyed(s1)) by {
        if s.dialogs.contains_key(d) {
            assert(changed_record(s.dialogs[d], req, reneg, timer).path() =~= d);
        }
    }
    responses_keep_identities(
        s1,
        req,
        super::update::changed_reply(s1, tag, reneg.body, timer),
        peer,
    );
}

/// An ACK keeps every dialog under its own identity.
pub proof fn acks_keep_identities(s: UasView, req: RequestSummary)
    requires
        keyed(s),
    ensures
        keyed(ack_step(s, req).0),
{
    let s1 = ack_transaction(s, req).0;
    assert(s1.dialogs == s.dialogs);
    match named_dialog(req@) {
        Some(d) => {
            if s1.dialogs.contains_key(d) {
                assert(acknowledged(s1.dialogs[d]).path() =~= d);
            }
        },
        None => {},
    }
}

/// Ending a call keeps every other dialog under its own identity.
pub proof fn ends_keep_identities(
    s: UasView,
    d: Seq<Seq<char>>,
    send_bye: bool,
    event: DialogEvent,
    partner: Option<Seq<Seq<char>>>,
    now: Moment,
)
    requires
        keyed(s),
        s.dialogs.contains_key(d),
    ensures
        keyed(call_step(s, d, send_bye, event, partner, now).0),
{
    let s1 = teardown_step(s, d, send_bye, event, now).0;
    assert(keyed(s1));
}

} // verus!
