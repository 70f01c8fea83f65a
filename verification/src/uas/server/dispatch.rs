//! Requests and timers that need nothing from outside.

use vstd::prelude::*;

use super::super::summary::{in_dialog_key, named_dialog, RequestSummary};
use super::ingress::{any_invited, invited};
use super::respond::{plain, respond_step, Reply, ReplyView};
use super::teardown::{
    call_step, dialog_opt, drive_dialog_fsm, driven, end_step, finish_step, partner_found,
};
use super::{
    emit, outputs, server_key, server_txn_key, tag_at, tagged, Moment, UasCommand, UasCommandView,
    UasServer, UasView,
};
use crate::record::{dialog_path, place_of, DialogKey, DialogState, RecordView};
use crate::text;
use crate::txn::dialog::DialogEvent;
use crate::txn::driver::{from_elsewhere, path, table_after};
use crate::txn::EventView;

verus! {

// ---------------------------------------------------------------------
// Which handler
// ---------------------------------------------------------------------

/// Which handler takes a request.
#[derive(Copy, Clone, Debug, PartialEq, Eq, Structural)]
pub enum Route {
    /// OPTIONS.
    Options,
    /// INVITE inside a dialog.
    Reinvite,
    /// INVITE.
    Invite,
    /// ACK.
    Ack,
    /// BYE.
    Bye,
    /// CANCEL.
    Cancel,
    /// UPDATE.
    Update,
    /// REGISTER.
    Register,
    /// A method that is not allowed.
    Unknown,
}

/// Which handler takes a request.
pub open spec fn route_of(req: RequestSummary) -> Route {
    if req@.method == "OPTIONS"@ {
        Route::Options
    } else if req@.method == "INVITE"@ {
        if req@.to_tag is Some {
            Route::Reinvite
        } else {
            Route::Invite
        }
    } else if req@.method == "ACK"@ {
        Route::Ack
    } else if req@.method == "BYE"@ {
        Route::Bye
    } else if req@.method == "CANCEL"@ {
        Route::Cancel
    } else if req@.method == "UPDATE"@ {
        Route::Update
    } else if req@.method == "REGISTER"@ {
        Route::Register
    } else {
        Route::Unknown
    }
}

/// Which handler takes a request: an INVITE with a `To` tag belongs to a
/// dialog.
pub fn route(req: &RequestSummary) -> (r: Route)
    ensures
        r == route_of(*req),
{
    if req.method == "OPTIONS".to_owned() {
        Route::Options
    } else if req.method == "INVITE".to_owned() {
        if req.to_tag.is_some() {
            Route::Reinvite
        } else {
            Route::Invite
        }
    } else if req.method == "ACK".to_owned() {
        Route::Ack
    } else if req.method == "BYE".to_owned() {
        Route::Bye
    } else if req.method == "CANCEL".to_owned() {
        Route::Cancel
    } else if req.method == "UPDATE".to_owned() {
        Route::Update
    } else if req.method == "REGISTER".to_owned() {
        Route::Register
    } else {
        Route::Unknown
    }
}

// ---------------------------------------------------------------------
// Plain answers
// ---------------------------------------------------------------------

/// Answers with a fresh tag, without additional headers and body.
pub open spec fn answer_step(
    s: UasView,
    req: RequestSummary,
    status: u16,
    reason: Seq<char>,
    peer: Seq<char>,
    now: Moment,
) -> (UasView, Seq<UasCommandView>) {
    respond_step(tagged(s), req, plain(status, reason, tag_at(s, now)), peer)
}

/// The methods that the server takes.
pub open spec fn allowed_methods() -> Seq<char> {
    "INVITE, ACK, CANCEL, BYE, OPTIONS, REGISTER, UPDATE"@
}

/// Refuses a method, and says which ones are taken.
pub open spec fn not_allowed_step(
    s: UasView,
    req: RequestSummary,
    peer: Seq<char>,
    now: Moment,
) -> (UasView, Seq<UasCommandView>) {
    respond_step(
        tagged(s),
        req,
        ReplyView {
            status: 405,
            reason: "Method Not Allowed"@,
            tag: Some(tag_at(s, now)),
            extras: seq![("Allow"@, allowed_methods())],
            body: seq![],
        },
        peer,
    )
}

impl UasServer {
    /// Answers with a fresh tag, without additional headers and body.
    pub fn answer(
        &mut self,
        out: &mut Vec<UasCommand>,
        req: &RequestSummary,
        status: u16,
        reason: &str,
        peer: &str,
        now: &Moment,
    )
        requires
            old(self).wf(),
        ensures
            final(self).wf(),
            ({
                let (s, c) = answer_step(old(self)@, *req, status, reason@, peer@, *now);
                final(self)@ == s && outputs(final(out)@) == outputs(old(out)@) + c
            }),
    {
        let tag = self.next_tag(now);
        self.respond_plain(out, req, status, reason, &tag, peer);
    }

    /// Refuses a method, and says which ones are taken.
    pub fn refuse_method(
        &mut self,
        out: &mut Vec<UasCommand>,
        req: &RequestSummary,
        peer: &str,
        now: &Moment,
    )
        requires
            old(self).wf(),
        ensures
            final(self).wf(),
            ({
                let (s, c) = not_allowed_step(old(self)@, *req, peer@, *now);
                final(self)@ == s && outputs(final(out)@) == outputs(old(out)@) + c
            }),
    {
        let tag = self.next_tag(now);
        let extras: [(&str, &str); 1] = [
            ("Allow", "INVITE, ACK, CANCEL, BYE, OPTIONS, REGISTER, UPDATE"),
        ];
        let no_body: [u8; 0] = [];
        let reply = Reply {
            status: 405,
            reason: "Method Not Allowed",
            tag: Some(&tag),
            extras: &extras,
            body: &no_body,
        };
        proof {
            let extras_wanted = seq![("Allow"@, allowed_methods())];
            assert(reply@.extras =~= extras_wanted);
            assert(reply@.body =~= seq![]);
        }
        self.respond(out, req, reply, peer);
    }

    /// Answers OPTIONS.
    pub fn handle_options(
        &mut self,
        out: &mut Vec<UasCommand>,
        req: &RequestSummary,
        peer: &str,
        now: &Moment,
    )
        requires
            old(self).wf(),
        ensures
            final(self).wf(),
            ({
                let (s, c) = answer_step(old(self)@, *req, 200, "OK"@, peer@, *now);
                final(self)@ == s && outputs(final(out)@) == outputs(old(out)@) + c
            }),
    {
        self.answer(out, req, 200, "OK", peer, now);
    }
}

// ---------------------------------------------------------------------
// ACK
// ---------------------------------------------------------------------

/// Takes an ACK to the transaction of its INVITE, if that lives.
pub open spec fn ack_transaction(s: UasView, req: RequestSummary) -> (
    UasView,
    Seq<UasCommandView>,
) {
    match req@.branch {
        Some(branch) => {
            let key = server_key(branch, "INVITE"@);
            if s.slots.contains_key(path(key)) {
                let (slots, commands) = if from_elsewhere(s.slots, path(key), req.raw@) {
                    (s.slots, seq![])
                } else {
                    table_after(
                        s.slots,
                        path(key),
                        EventView::RequestReceived { method: "ACK"@, bytes: req.raw@ },
                    )
                };
                (UasView { slots, ..s }, seq![UasCommandView::Txn { key, commands }])
            } else {
                (s, seq![])
            }
        },
        None => (s, seq![]),
    }
}

/// A dialog's record once its 2xx was acknowledged.
pub open spec fn acknowledged(record: RecordView) -> RecordView {
    RecordView {
        pending_2xx: None,
        state: if record.state == DialogState::Early {
            driven(record.state, DialogEvent::AckReceived).0
        } else {
            record.state
        },
        ..record
    }
}

/// Takes an ACK: to the transaction of its INVITE, and to the dialog that it
/// names, whose 2xx is no longer repeated.
pub open spec fn ack_step(s: UasView, req: RequestSummary) -> (UasView, Seq<UasCommandView>) {
    let (s1, c1) = ack_transaction(s, req);
    match named_dialog(req@) {
        Some(d) => {
            let stop = seq![UasCommandView::StopRetransmit(d)];
            if s1.dialogs.contains_key(d) {
                let record = acknowledged(s1.dialogs[d]);
                (
                    UasView { dialogs: s1.dialogs.insert(d, record), ..s1 },
                    c1 + seq![UasCommandView::Upsert(record)] + stop,
                )
            } else {
                (s1, c1 + stop)
            }
        },
        None => (s1, c1),
    }
}

impl UasServer {
    fn ack_to_transaction(&mut self, out: &mut Vec<UasCommand>, req: &RequestSummary)
        requires
            old(self).wf(),
        ensures
            final(self).wf(),
            ({
                let (s, c) = ack_transaction(old(self)@, *req);
                final(self)@ == s && outputs(final(out)@) == outputs(old(out)@) + c
            }),
    {
        let ghost before = outputs(out@);
        assert(before + seq![] =~= before);
        match &req.branch {
            Some(branch) => {
                let key = server_txn_key(branch, "INVITE");
                if self.driver.is_alive(&key) {
                    let commands = self.driver.deliver_request(
                        &key,
                        "ACK".to_owned(),
                        text::copy_bytes(&req.raw),
                    );
                    emit(out, UasCommand::Txn { key, commands });
                }
            },
            None => {},
        }
    }

    /// Takes an ACK.
    pub fn handle_ack(&mut self, out: &mut Vec<UasCommand>, req: &RequestSummary)
        requires
            old(self).wf(),
        ensures
            final(self).wf(),
            ({
                let (s, c) = ack_step(old(self)@, *req);
                final(self)@ == s && outputs(final(out)@) == outputs(old(out)@) + c
            }),
    {
        let ghost before = outputs(out@);
        self.ack_to_transaction(out, req);
        let dialog = match in_dialog_key(req) {
            Some(k) => k,
            None => {
                return;
            },
        };
        let ghost mid = self@;
        match self.dialogs.take(&place_of(&dialog)) {
            Some(rec) => {
                let mut rec = rec;
                let ghost given = rec@;
                rec.pending_2xx = None;
                match rec.state {
                    DialogState::Early => {
                        drive_dialog_fsm(&mut rec, DialogEvent::AckReceived);
                    },
                    DialogState::Confirmed => {},
                }
                assert(rec@ =~= acknowledged(given));
                emit(out, UasCommand::Upsert(rec.duplicate()));
                self.dialogs.put(place_of(&dialog), rec);
                assert(self@.dialogs =~= mid.dialogs.insert(dialog_path(dialog), rec@));
            },
            None => {},
        }
        emit(out, UasCommand::StopRetransmit(dialog));
        assert(outputs(out@) =~= before + ack_step(old(self)@, *req).1);
    }
}

// ---------------------------------------------------------------------
// BYE
// ---------------------------------------------------------------------

/// Takes a BYE: 400 without a dialog, 481 for an unknown one. Otherwise the
/// call ends and the BYE is answered; `partner` is the dialog on the other
/// side of the bridge.
pub open spec fn handle_bye_step(
    s: UasView,
    req: RequestSummary,
    partner: Option<Seq<Seq<char>>>,
    peer: Seq<char>,
    now: Moment,
) -> (UasView, Seq<UasCommandView>) {
    match named_dialog(req@) {
        None => answer_step(s, req, 400, "Bad Request"@, peer, now),
        Some(d) => if s.dialogs.contains_key(d) {
            let (s1, c1, record) = call_step(s, d, false, DialogEvent::ByeCompleted, partner, now);
            let (s2, c2) = respond_step(s1, req, plain(200, "OK"@, record.local_tag), peer);
            let (s3, c3) = finish_step(s2, d, record.call_id, "answered"@, now);
            (s3, c1 + c2 + c3)
        } else {
            answer_step(s, req, 481, "Call/Transaction Does Not Exist"@, peer, now)
        },
    }
}

/// `(after, c)` is what a BYE leads to.
pub open spec fn bye_handled(
    s: UasView,
    req: RequestSummary,
    peer: Seq<char>,
    now: Moment,
    after: UasView,
    c: Seq<UasCommandView>,
) -> bool {
    exists|partner: Option<Seq<Seq<char>>>|
        (after, c) == #[trigger] handle_bye_step(s, req, partner, peer, now) && (named_dialog(
            req@,
        ) matches Some(d) ==> s.dialogs.contains_key(d) ==> partner_found(s, d, partner))
}

impl UasServer {
    /// Takes a BYE. Returns the dialog that ended with it because it was on
    /// the other side of the bridge, if there was one.
    pub fn handle_bye(
        &mut self,
        out: &mut Vec<UasCommand>,
        req: &RequestSummary,
        peer: &str,
        now: &Moment,
    ) -> (r: Option<DialogKey>)
        requires
            old(self).wf(),
        ensures
            final(self).wf(),
            ({
                let (s, c) = handle_bye_step(old(self)@, *req, dialog_opt(r), peer@, *now);
                final(self)@ == s && outputs(final(out)@) == outputs(old(out)@) + c
            }),
            named_dialog(req@) matches Some(d) ==> old(self)@.dialogs.contains_key(d)
                ==> partner_found(old(self)@, d, dialog_opt(r)),
    {
        let ghost before = outputs(out@);
        let dialog = match in_dialog_key(req) {
            Some(k) => k,
            None => {
                self.answer(out, req, 400, "Bad Request", peer, now);
                return None;
            },
        };
        match self.teardown_call(out, &dialog, false, DialogEvent::ByeCompleted, now) {
            Some(t) => {
                self.respond_plain(out, req, 200, "OK", &t.record.local_tag, peer);
                self.finish_teardown(out, &dialog, &t.record.call_id, "answered", now);
                proof {
                    let goal = handle_bye_step(
                        old(self)@,
                        *req,
                        dialog_opt(t.bridged_peer),
                        peer@,
                        *now,
                    );
                    assert(outputs(out@) =~= before + goal.1);
                }
                t.bridged_peer
            },
            None => {
                self.answer(out, req, 481, "Call/Transaction Does Not Exist", peer, now);
                None
            },
        }
    }
}

// ---------------------------------------------------------------------
// CANCEL
// ---------------------------------------------------------------------

/// `(after, c)` is what a CANCEL leads to whose INVITE has no transaction any
/// more: 200, without effect, where a live dialog answered that INVITE; 481
/// where none did; 400 where the CANCEL names no call.
pub open spec fn cancel_handled(
    s: UasView,
    req: RequestSummary,
    peer: Seq<char>,
    now: Moment,
    after: UasView,
    c: Seq<UasCommandView>,
) -> bool {
    match (req@.branch, req@.call_id) {
        (Some(branch), Some(call_id)) => if any_invited(s, call_id, None, branch) {
            exists|p: Seq<Seq<char>>| #[trigger]
                invited(s, p, call_id, None, branch) && (after, c) == respond_step(
                    s,
                    req,
                    plain(200, "OK"@, s.dialogs[p].local_tag),
                    peer,
                )
        } else {
            (after, c) == answer_step(s, req, 481, "Call/Transaction Does Not Exist"@, peer, now)
        },
        _ => (after, c) == answer_step(s, req, 400, "Bad Request"@, peer, now),
    }
}

impl UasServer {
    /// Takes a CANCEL whose INVITE has no transaction any more.
    pub fn handle_cancel(
        &mut self,
        out: &mut Vec<UasCommand>,
        req: &RequestSummary,
        peer: &str,
        now: &Moment,
    )
        requires
            old(self).wf(),
        ensures
            final(self).wf(),
            exists|c: Seq<UasCommandView>| #[trigger]
                cancel_handled(old(self)@, *req, peer@, *now, final(self)@, c) && outputs(
                    final(out)@,
                ) == outputs(old(out)@) + c,
    {
        match (&req.branch, &req.call_id) {
            (Some(branch), Some(call_id)) => match self.invited_by(call_id, None, branch) {
                Some(tag) => {
                    self.respond_plain(out, req, 200, "OK", &tag, peer);
                    proof {
                        let p = choose|p: Seq<Seq<char>>| #[trigger]
                            invited(old(self)@, p, call_id@, None, branch@)
                                && old(self)@.dialogs[p].local_tag == tag@;
                        let c = respond_step(
                            old(self)@,
                            *req,
                            plain(200, "OK"@, old(self)@.dialogs[p].local_tag),
                            peer@,
                        ).1;
                        assert(invited(old(self)@, p, call_id@, None, branch@));
                        assert(cancel_handled(old(self)@, *req, peer@, *now, self@, c));
                    }
                },
                None => {
                    self.answer(out, req, 481, "Call/Transaction Does Not Exist", peer, now);
                    proof {
                        let c = answer_step(
                            old(self)@,
                            *req,
                            481,
                            "Call/Transaction Does Not Exist"@,
                            peer@,
                            *now,
                        ).1;
                        assert(cancel_handled(old(self)@, *req, peer@, *now, self@, c));
                    }
                },
            },
            _ => {
                self.answer(out, req, 400, "Bad Request", peer, now);
                proof {
                    let c = answer_step(old(self)@, *req, 400, "Bad Request"@, peer@, *now).1;
                    assert(cancel_handled(old(self)@, *req, peer@, *now, self@, c));
                }
            },
        }
    }
}

// ---------------------------------------------------------------------
// All of them
// ---------------------------------------------------------------------

/// `(after, c)` is what a request leads to that needs nothing from outside.
pub open spec fn request_handled(
    s: UasView,
    req: RequestSummary,
    peer: Seq<char>,
    now: Moment,
    after: UasView,
    c: Seq<UasCommandView>,
) -> bool {
    match route_of(req) {
        Route::Options => (after, c) == answer_step(s, req, 200, "OK"@, peer, now),
        Route::Ack => (after, c) == ack_step(s, req),
        Route::Bye => bye_handled(s, req, peer, now, after, c),
        Route::Cancel => cancel_handled(s, req, peer, now, after, c),
        Route::Unknown => (after, c) == not_allowed_step(s, req, peer, now),
        _ => after == s && c == Seq::<UasCommandView>::empty(),
    }
}

impl UasServer {
    /// Takes a request that passed the transaction layer. INVITE, UPDATE and
    /// REGISTER need something from outside: nothing happens yet, and the
    /// result says whose turn it is.
    pub fn handle_request(
        &mut self,
        out: &mut Vec<UasCommand>,
        req: &RequestSummary,
        peer: &str,
        now: &Moment,
    ) -> (r: Route)
        requires
            old(self).wf(),
        ensures
            final(self).wf(),
            r == route_of(*req),
            exists|c: Seq<UasCommandView>| #[trigger]
                request_handled(old(self)@, *req, peer@, *now, final(self)@, c) && outputs(
                    final(out)@,
                ) == outputs(old(out)@) + c,
    {
        let ghost before = outputs(out@);
        let r = route(req);
        match r {
            Route::Options => {
                self.handle_options(out, req, peer, now);
                proof {
                    let c = answer_step(old(self)@, *req, 200, "OK"@, peer@, *now).1;
                    assert(request_handled(old(self)@, *req, peer@, *now, self@, c));
                }
            },
            Route::Ack => {
                self.handle_ack(out, req);
                proof {
                    let c = ack_step(old(self)@, *req).1;
                    assert(request_handled(old(self)@, *req, peer@, *now, self@, c));
                }
            },
            Route::Bye => {
                let partner = self.handle_bye(out, req, peer, now);
                proof {
                    let c = handle_bye_step(old(self)@, *req, dialog_opt(partner), peer@, *now).1;
                    assert(bye_handled(old(self)@, *req, peer@, *now, self@, c));
                    assert(request_handled(old(self)@, *req, peer@, *now, self@, c));
                }
            },
            Route::Cancel => {
                self.handle_cancel(out, req, peer, now);
                proof {
                    let c = choose|c: Seq<UasCommandView>| #[trigger]
                        cancel_handled(old(self)@, *req, peer@, *now, self@, c) && outputs(out@)
                            == before + c;
                    assert(request_handled(old(self)@, *req, peer@, *now, self@, c));
                }
            },
            Route::Unknown => {
                self.refuse_method(out, req, peer, now);
                proof {
                    let c = not_allowed_step(old(self)@, *req, peer@, *now).1;
                    assert(request_handled(old(self)@, *req, peer@, *now, self@, c));
                }
            },
            _ => {
                proof {
                    let c = Seq::<UasCommandView>::empty();
                    assert(before + c =~= before);
                    assert(request_handled(old(self)@, *req, peer@, *now, self@, c));
                }
            },
        }
        r
    }
}

// ---------------------------------------------------------------------
// Timers
// ---------------------------------------------------------------------

/// A timer of a dialog fired.
#[derive(Debug)]
pub enum InternalEvent {
    /// The ACK for the dialog's 2xx did not come in time.
    AckTimeout(DialogKey),
    /// The session interval is over.
    SessionExpired {
        /// Whose.
        dialog: DialogKey,
        /// Which arming of the timer it was.
        generation: u64,
    },
    /// The call has lasted as long as it may.
    MaxDurationReached(DialogKey),
}

/// The dialog of a timer.
pub open spec fn event_dialog(e: InternalEvent) -> Seq<Seq<char>> {
    match e {
        InternalEvent::AckTimeout(d) => dialog_path(d),
        InternalEvent::SessionExpired { dialog, .. } => dialog_path(dialog),
        InternalEvent::MaxDurationReached(d) => dialog_path(d),
    }
}

impl InternalEvent {
    /// The dialog of the timer.
    pub fn key(&self) -> (r: &DialogKey)
        ensures
            dialog_path(*r) == event_dialog(*self),
    {
        match self {
            InternalEvent::AckTimeout(d) => d,
            InternalEvent::SessionExpired { dialog, .. } => dialog,
            InternalEvent::MaxDurationReached(d) => d,
        }
    }
}

/// Whether a timer ends its call, and how. An ACK timeout does so only while
/// the dialog was not acknowledged, a session timer only if it was not armed
/// anew, and the guard on the duration whenever the call is still there.
pub open spec fn verdict_on(s: UasView, e: InternalEvent) -> Option<(DialogEvent, Seq<char>)> {
    let d = event_dialog(e);
    match e {
        InternalEvent::AckTimeout(_) => if s.dialogs.contains_key(d) && s.dialogs[d].state
            == DialogState::Early {
            Some((DialogEvent::Error, "ack_timeout"@))
        } else {
            None
        },
        InternalEvent::SessionExpired { generation, .. } => if s.timers.contains_key(d)
            && s.timers[d] == generation {
            Some((DialogEvent::ByeCompleted, "session_expired"@))
        } else {
            None
        },
        InternalEvent::MaxDurationReached(_) => if s.dialogs.contains_key(d) {
            Some((DialogEvent::ByeCompleted, "max_duration"@))
        } else {
            None
        },
    }
}

/// Takes a timer; `partner` is the dialog on the other side of the bridge.
pub open spec fn timer_step(
    s: UasView,
    e: InternalEvent,
    partner: Option<Seq<Seq<char>>>,
    now: Moment,
) -> (UasView, Seq<UasCommandView>) {
    match verdict_on(s, e) {
        Some((event, result)) => end_step(s, event_dialog(e), event, result, partner, now),
        None => (s, seq![]),
    }
}

impl UasServer {
    /// Takes a timer of a dialog. Returns the dialog that ended too because it
    /// was on the other side of the bridge, if there was one.
    pub fn handle_internal(
        &mut self,
        out: &mut Vec<UasCommand>,
        event: &InternalEvent,
        now: &Moment,
    ) -> (r: Option<DialogKey>)
        requires
            old(self).wf(),
        ensures
            final(self).wf(),
            ({
                let (s, c) = timer_step(old(self)@, *event, dialog_opt(r), *now);
                final(self)@ == s && outputs(final(out)@) == outputs(old(out)@) + c
            }),
            verdict_on(old(self)@, *event) is Some && old(self)@.dialogs.contains_key(
                event_dialog(*event),
            ) ==> partner_found(old(self)@, event_dialog(*event), dialog_opt(r)),
    {
        let ghost before = outputs(out@);
        assert(before + seq![] =~= before);
        match event {
            InternalEvent::AckTimeout(d) => {
                let early = match self.dialog(d) {
                    Some(rec) => matches!(rec.state, DialogState::Early),
                    None => false,
                };
                if early {
                    self.end_call(out, d, DialogEvent::Error, "ack_timeout", now)
                } else {
                    None
                }
            },
            InternalEvent::SessionExpired { dialog, generation } => {
                let current = match self.timers.get(&place_of(dialog)) {
                    Some(g) => g == *generation,
                    None => false,
                };
                if current {
                    self.end_call(out, dialog, DialogEvent::ByeCompleted, "session_expired", now)
                } else {
                    None
                }
            },
            InternalEvent::MaxDurationReached(d) => {
                if self.has_dialog(d) {
                    self.end_call(out, d, DialogEvent::ByeCompleted, "max_duration", now)
                } else {
                    None
                }
            },
        }
    }
}

} // verus!
