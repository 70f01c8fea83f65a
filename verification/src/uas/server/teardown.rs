//! Ending dialogs.

use vstd::prelude::*;

use super::super::compose::{build_in_dialog_request, in_dialog_text, InDialogRequest};
use super::{
    emit, outputs, tag_at, tagged, CallDetailRecord, CdrStartView, CdrView, Moment, UasCommand,
    UasCommandView, UasServer, UasView,
};
use crate::record::{
    copy_dialog_key, dialog_path, place_of, DialogKey, DialogRecord, DialogState, RecordView,
};
use crate::table::{key1, key_view};
use crate::txn::client_non_invite::new_client_non_invite;
use crate::txn::dialog::{dialog_next, live_state, stored_state, DialogEvent, DialogFsm};
use crate::txn::driver::{fresh_slot, path, table_after};
use crate::txn::machine::{Flavor, Machine};
use crate::txn::{ClientNonInviteTxn, EventView, KeyView, Role, TransactionKey};

verus! {

// ---------------------------------------------------------------------
// The dialog's own state
// ---------------------------------------------------------------------

/// What an event did to a dialog.
#[derive(Copy, Clone, Debug, PartialEq, Eq, Structural)]
pub enum FsmOutcome {
    /// The dialog goes on.
    Continue,
    /// The dialog is over.
    Terminated,
    /// The event is not legal in the dialog's state.
    Illegal,
}

/// The dialog's state after `event`, and what the event did.
pub open spec fn driven(state: DialogState, event: DialogEvent) -> (DialogState, FsmOutcome) {
    match dialog_next(live_state(state), event) {
        Some(next) => match stored_state(next) {
            Some(kept) => (kept, FsmOutcome::Continue),
            None => (state, FsmOutcome::Terminated),
        },
        None => (state, FsmOutcome::Illegal),
    }
}

/// Runs `event` through the dialog's state machine. Where the dialog does not
/// go on, the record keeps its state.
pub fn drive_dialog_fsm(record: &mut DialogRecord, event: DialogEvent) -> (r: FsmOutcome)
    ensures
        final(record)@ == (RecordView {
            state: driven(old(record).state, event).0,
            ..old(record)@
        }),
        r == driven(old(record).state, event).1,
{
    let mut fsm = DialogFsm::from_core_state(record.state);
    match fsm.on_event(event) {
        Ok(_) => match fsm.to_core_state() {
            Some(state) => {
                record.state = state;
                FsmOutcome::Continue
            },
            None => FsmOutcome::Terminated,
        },
        Err(_) => FsmOutcome::Illegal,
    }
}

// ---------------------------------------------------------------------
// One dialog
// ---------------------------------------------------------------------

/// What a dialog left behind.
#[derive(Debug)]
pub struct TornDown {
    /// Its record.
    pub record: DialogRecord,
    /// A dialog on the other side of its bridge, if there was one.
    pub bridged_peer: Option<DialogKey>,
}

/// `p` is a dialog on the other side of the bridge of `dialog`.
pub open spec fn is_partner(s: UasView, dialog: Seq<Seq<char>>, p: Seq<Seq<char>>) -> bool {
    &&& p.len() == 3
    &&& p != dialog
    &&& s.bridges.contains_key(dialog)
    &&& s.bridges.contains_key(p)
    &&& s.bridges[p] == s.bridges[dialog]
}

/// The bridged dialogs without those on `bridge`.
pub open spec fn without_bridge(bridges: Map<Seq<Seq<char>>, u64>, bridge: u64) -> Map<
    Seq<Seq<char>>,
    u64,
> {
    bridges.remove_keys(bridges.dom().filter(|p: Seq<Seq<char>>| bridges[p] == bridge))
}

/// The first legs that wait, without that of `dialog`.
pub open spec fn unparked(s: UasView, dialog: Seq<Seq<char>>, record: RecordView) -> Map<
    Seq<Seq<char>>,
    super::PendingView,
> {
    match record.rendezvous {
        Some(room) => if s.pending.contains_key(seq![room]) && s.pending[seq![room]].dialog
            == dialog {
            s.pending.remove(seq![room])
        } else {
            s.pending
        },
        None => s.pending,
    }
}

/// The branch of a BYE with the given tag.
pub open spec fn bye_branch(tag: Seq<char>) -> Seq<char> {
    "z9hG4bK-"@ + tag
}

/// The record of a dialog whose BYE goes out: the next sequence number is
/// used up.
pub open spec fn bye_record(record: RecordView) -> RecordView {
    RecordView {
        local_cseq: if record.local_cseq < u32::MAX {
            (record.local_cseq + 1) as u32
        } else {
            u32::MAX
        },
        ..record
    }
}

/// The bridged dialogs once `dialog` left its bridge.
pub open spec fn unbridged(s: UasView, dialog: Seq<Seq<char>>) -> Map<Seq<Seq<char>>, u64> {
    if s.bridges.contains_key(dialog) {
        without_bridge(s.bridges, s.bridges[dialog])
    } else {
        s.bridges
    }
}

/// What releases the bridge of `dialog`.
pub open spec fn bridge_release(s: UasView, dialog: Seq<Seq<char>>) -> Seq<UasCommandView> {
    if s.bridges.contains_key(dialog) {
        seq![UasCommandView::ReleaseBridge(s.bridges[dialog])]
    } else {
        seq![]
    }
}

/// What releases the session and the endpoint of `dialog`.
pub open spec fn media_release(s: UasView, dialog: Seq<Seq<char>>, media: Option<u64>) -> Seq<
    UasCommandView,
> {
    (if s.sessions.contains_key(dialog) {
        seq![UasCommandView::StopSession(s.sessions[dialog])]
    } else {
        seq![]
    }) + (match media {
        Some(endpoint) => seq![UasCommandView::ReleaseEndpoint(endpoint)],
        None => seq![],
    })
}

/// What stops the timers of `dialog`, and its replication.
pub open spec fn timer_release(dialog: Seq<Seq<char>>) -> Seq<UasCommandView> {
    seq![
        UasCommandView::Forget(dialog),
        UasCommandView::StopRetransmit(dialog),
        UasCommandView::CancelSession(dialog),
        UasCommandView::CancelGuard(dialog),
    ]
}

/// Removes a dialog and releases everything that it held. The last component
/// is its record.
pub open spec fn teardown_step(
    s: UasView,
    dialog: Seq<Seq<char>>,
    send_bye: bool,
    event: DialogEvent,
    now: Moment,
) -> (UasView, Seq<UasCommandView>, RecordView) {
    let found = s.dialogs[dialog];
    let record = RecordView { state: driven(found.state, event).0, ..found };
    let bare = UasView {
        dialogs: s.dialogs.remove(dialog),
        legs: s.legs.remove(dialog),
        pending: unparked(s, dialog, record),
        bridges: unbridged(s, dialog),
        sessions: s.sessions.remove(dialog),
        timers: s.timers.remove(dialog),
        ..s
    };
    let commands = timer_release(dialog) + bridge_release(s, dialog) + media_release(
        s,
        dialog,
        record.media,
    );
    if send_bye {
        let used = bye_record(record);
        (
            tagged(bare),
            commands + seq![
                UasCommandView::Bye { record: used, branch: bye_branch(tag_at(bare, now)) },
            ],
            used,
        )
    } else {
        (bare, commands, record)
    }
}

/// Stores the call's record, if one is kept, and announces the end.
pub open spec fn finish_step(
    s: UasView,
    dialog: Seq<Seq<char>>,
    call_id: Seq<char>,
    result: Seq<char>,
    now: Moment,
) -> (UasView, Seq<UasCommandView>) {
    (
        UasView { cdrs: s.cdrs.remove(dialog), ..s },
        (if s.settings.records_calls && s.cdrs.contains_key(dialog) {
            seq![UasCommandView::Cdr(cdr_of(s.cdrs[dialog], result, now))]
        } else {
            seq![]
        }) + seq![UasCommandView::Ended { call_id }],
    )
}

/// How long a call lasted: never less than nothing, saturating.
pub open spec fn lasted(start: i64, end: i64) -> i64 {
    if end <= start {
        0
    } else if end - start <= i64::MAX {
        (end - start) as i64
    } else {
        i64::MAX
    }
}

/// The record of a call that ends now.
pub open spec fn cdr_of(start: CdrStartView, result: Seq<char>, now: Moment) -> CdrView {
    CdrView {
        call_id: start.call_id,
        from_uri: start.from_uri,
        to_uri: start.to_uri,
        started_at_unix: start.started_at_unix,
        ended_at_unix: now.unix,
        duration_secs: lasted(start.started_at_unix, now.unix),
        result,
    }
}

/// Ends a call: the dialog and, if it was bridged, the one on the other side,
/// which gets a BYE.
pub open spec fn call_step(
    s: UasView,
    dialog: Seq<Seq<char>>,
    send_bye: bool,
    event: DialogEvent,
    partner: Option<Seq<Seq<char>>>,
    now: Moment,
) -> (UasView, Seq<UasCommandView>, RecordView) {
    let (s1, c1, record) = teardown_step(s, dialog, send_bye, event, now);
    match partner {
        Some(p) => if s1.dialogs.contains_key(p) {
            let (s2, c2, other) = teardown_step(s1, p, true, DialogEvent::ByeCompleted, now);
            let (s3, c3) = finish_step(s2, p, other.call_id, "answered"@, now);
            (s3, c1 + c2 + c3, record)
        } else {
            (s1, c1, record)
        },
        None => (s1, c1, record),
    }
}

/// `partner` is a dialog on the other side of the bridge of `dialog`, or
/// there is none.
pub open spec fn partner_found(
    s: UasView,
    dialog: Seq<Seq<char>>,
    partner: Option<Seq<Seq<char>>>,
) -> bool {
    match partner {
        Some(p) => is_partner(s, dialog, p),
        None => forall|p: Seq<Seq<char>>| !#[trigger] is_partner(s, dialog, p),
    }
}

/// The model of an optional dialog.
pub open spec fn dialog_opt(o: Option<DialogKey>) -> Option<Seq<Seq<char>>> {
    match o {
        Some(k) => Some(dialog_path(k)),
        None => None,
    }
}

/// Ends a call on the engine's own account, with a BYE.
pub open spec fn end_step(
    s: UasView,
    dialog: Seq<Seq<char>>,
    event: DialogEvent,
    result: Seq<char>,
    partner: Option<Seq<Seq<char>>>,
    now: Moment,
) -> (UasView, Seq<UasCommandView>) {
    if s.dialogs.contains_key(dialog) {
        let (s1, c1, record) = call_step(s, dialog, true, event, partner, now);
        let (s2, c2) = finish_step(s1, dialog, record.call_id, result, now);
        (s2, c1 + c2)
    } else {
        (s, seq![])
    }
}

impl UasServer {
    /// Takes the dialogs on `bridge` out of the table of bridged dialogs, and
    /// returns one of them.
    fn drop_bridge(&mut self, bridge: u64) -> (r: Option<DialogKey>)
        requires
            old(self).wf(),
        ensures
            final(self).wf(),
            final(self)@ == (UasView {
                bridges: without_bridge(old(self)@.bridges, bridge),
                ..old(self)@
            }),
            match r {
                Some(k) => old(self)@.bridges.contains_key(dialog_path(k))
                    && old(self)@.bridges[dialog_path(k)] == bridge,
                None => forall|p: Seq<Seq<char>>|
                    p.len() == 3 && #[trigger] old(self)@.bridges.contains_key(p)
                        ==> old(self)@.bridges[p] != bridge,
            },
    {
        let entries = self.bridges.entries();
        let ghost all = self.bridges.models();
        let ghost table = self.bridges@;
        let mut found: Option<DialogKey> = None;
        let mut i: usize = 0;
        while i < entries.len()
            invariant
                i <= entries@.len(),
                self.wf(),
                all == old(self)@.bridges,
                table == old(self).bridges@,
                all == table.map_values(|v: u64| v@),
                self@ == (UasView { bridges: self@.bridges, ..old(self)@ }),
                forall|j: int| #![trigger entries@[j]]
                    0 <= j < entries@.len() ==> all.contains_key(key_view(entries@[j].0))
                        && all[key_view(entries@[j].0)] == entries@[j].1,
                forall|p: Seq<Seq<char>>| #[trigger]
                    self@.bridges.contains_key(p) <==> all.contains_key(p) && !(all[p] == bridge
                        && exists|j: int|
                        0 <= j < i && key_view((#[trigger] entries@[j]).0) == p),
                forall|p: Seq<Seq<char>>| #[trigger]
                    self@.bridges.contains_key(p) ==> self@.bridges[p] == all[p],
                match found {
                    Some(k) => all.contains_key(dialog_path(k)) && all[dialog_path(k)] == bridge,
                    None => forall|j: int| #![trigger entries@[j]]
                        0 <= j < i && key_view(entries@[j].0).len() == 3 ==> entries@[j].1
                            != bridge,
                },
            decreases entries.len() - i,
        {
            let k = &entries[i].0;
            if entries[i].1 == bridge {
                if k.len() == 3 {
                    let d: DialogKey = (k[0].clone(), k[1].clone(), k[2].clone());
                    assert(dialog_path(d) =~= key_view(*k));
                    found = Some(d);
                }
                let ghost before = self@.bridges;
                self.bridges.take(k);
                assert(self@.bridges == before.remove(key_view(*k)));
            }
            i = i + 1;
        }
        proof {
            assert forall|p: Seq<Seq<char>>| all.contains_key(p) implies exists|j: int|
                0 <= j < entries@.len() && key_view((#[trigger] entries@[j]).0) == p by {
                assert(table.contains_key(p));
            }
            assert(self@.bridges =~= without_bridge(all, bridge));
            if found is None {
                assert forall|p: Seq<Seq<char>>|
                    p.len() == 3 && #[trigger] all.contains_key(p) implies all[p] != bridge by {
                    let j = choose|j: int|
                        0 <= j < entries@.len() && key_view((#[trigger] entries@[j]).0) == p;
                    assert(key_view(entries@[j].0) == p);
                }
            }
        }
        found
    }

    fn unpark(&mut self, dialog: &DialogKey, record: &DialogRecord)
        requires
            old(self).wf(),
        ensures
            final(self).wf(),
            final(self)@ == (UasView {
                pending: unparked(old(self)@, dialog_path(*dialog), record@),
                ..old(self)@
            }),
    {
        match &record.rendezvous {
            Some(room) => match self.pending.take(&key1(room)) {
                Some(leg) => {
                    let own = leg.dialog.0 == dialog.0 && leg.dialog.1 == dialog.1
                        && leg.dialog.2 == dialog.2;
                    proof {
                        let a = leg@.dialog;
                        let b = dialog_path(*dialog);
                        assert(own ==> a =~= b);
                        assert(a == b ==> a[0] == b[0] && a[1] == b[1] && a[2] == b[2]);
                    }
                    if !own {
                        self.pending.put(key1(room), leg);
                    }
                },
                None => {},
            },
            None => {},
        }
    }

    fn leave_bridge(&mut self, out: &mut Vec<UasCommand>, dialog: &DialogKey) -> (r: Option<
        DialogKey,
    >)
        requires
            old(self).wf(),
        ensures
            final(self).wf(),
            final(self)@ == (UasView {
                bridges: unbridged(old(self)@, dialog_path(*dialog)),
                ..old(self)@
            }),
            outputs(final(out)@) == outputs(old(out)@) + bridge_release(
                old(self)@,
                dialog_path(*dialog),
            ),
            partner_found(old(self)@, dialog_path(*dialog), dialog_opt(r)),
    {
        let ghost before = outputs(out@);
        let ghost d = dialog_path(*dialog);
        match self.bridges.take(&place_of(dialog)) {
            Some(bridge) => {
                let ghost rest = self@.bridges;
                let r = self.drop_bridge(bridge);
                emit(out, UasCommand::ReleaseBridge(bridge));
                proof {
                    let all = old(self)@.bridges;
                    assert(without_bridge(rest, bridge) =~= without_bridge(all, bridge));
                    if r is None {
                        assert forall|p: Seq<Seq<char>>| !#[trigger]
                            is_partner(old(self)@, d, p) by {
                            if is_partner(old(self)@, d, p) {
                                assert(rest.contains_key(p));
                            }
                        }
                    } else {
                        let p = dialog_path(r->0);
                        assert(rest.contains_key(p));
                        assert(is_partner(old(self)@, d, p));
                    }
                }
                r
            },
            None => {
                assert(before + seq![] =~= before);
                None
            },
        }
    }

    fn stop_media(&mut self, out: &mut Vec<UasCommand>, dialog: &DialogKey, media: Option<u64>)
        requires
            old(self).wf(),
        ensures
            final(self).wf(),
            final(self)@ == (UasView {
                sessions: old(self)@.sessions.remove(dialog_path(*dialog)),
                ..old(self)@
            }),
            outputs(final(out)@) == outputs(old(out)@) + media_release(
                old(self)@,
                dialog_path(*dialog),
                media,
            ),
    {
        let ghost before = outputs(out@);
        match self.sessions.take(&place_of(dialog)) {
            Some(session) => {
                emit(out, UasCommand::StopSession(session));
            },
            None => {},
        }
        match media {
            Some(endpoint) => {
                emit(out, UasCommand::ReleaseEndpoint(endpoint));
            },
            None => {},
        }
        assert(outputs(out@) =~= before + media_release(
            old(self)@,
            dialog_path(*dialog),
            media,
        ));
    }

    fn stop_timers(&mut self, out: &mut Vec<UasCommand>, dialog: &DialogKey)
        requires
            old(self).wf(),
        ensures
            final(self).wf(),
            final(self)@ == (UasView {
                timers: old(self)@.timers.remove(dialog_path(*dialog)),
                ..old(self)@
            }),
            outputs(final(out)@) == outputs(old(out)@) + timer_release(dialog_path(*dialog)),
    {
        let ghost before = outputs(out@);
        self.timers.take(&place_of(dialog));
        emit(out, UasCommand::Forget(copy_dialog_key(dialog)));
        emit(out, UasCommand::StopRetransmit(copy_dialog_key(dialog)));
        emit(out, UasCommand::CancelSession(copy_dialog_key(dialog)));
        emit(out, UasCommand::CancelGuard(copy_dialog_key(dialog)));
        assert(outputs(out@) =~= before + timer_release(dialog_path(*dialog)));
    }

    /// Removes a dialog and releases everything that it held. With `send_bye`
    /// the peer gets a BYE. `None` when there is no such dialog.
    pub fn teardown_dialog(
        &mut self,
        out: &mut Vec<UasCommand>,
        dialog: &DialogKey,
        send_bye: bool,
        event: DialogEvent,
        now: &Moment,
    ) -> (r: Option<TornDown>)
        requires
            old(self).wf(),
        ensures
            final(self).wf(),
            match r {
                Some(t) => {
                    let (s, c, record) = teardown_step(
                        old(self)@,
                        dialog_path(*dialog),
                        send_bye,
                        event,
                        *now,
                    );
                    &&& old(self)@.dialogs.contains_key(dialog_path(*dialog))
                    &&& final(self)@ == s
                    &&& outputs(final(out)@) == outputs(old(out)@) + c
                    &&& t.record@ == record
                    &&& partner_found(
                        old(self)@,
                        dialog_path(*dialog),
                        dialog_opt(t.bridged_peer),
                    )
                },
                None => {
                    &&& !old(self)@.dialogs.contains_key(dialog_path(*dialog))
                    &&& final(self)@ == old(self)@
                    &&& outputs(final(out)@) == outputs(old(out)@)
                },
            },
    {
        let ghost before = outputs(out@);
        let ghost d = dialog_path(*dialog);
        let ghost goal = teardown_step(old(self)@, d, send_bye, event, *now);
        let place = place_of(dialog);
        let mut record = match self.dialogs.take(&place) {
            Some(rec) => rec,
            None => {
                return None;
            },
        };
        drive_dialog_fsm(&mut record, event);
        self.stop_timers(out, dialog);
        self.legs.take(&place);
        self.unpark(dialog, &record);
        let ghost bridged = self@;
        let bridged_peer = self.leave_bridge(out, dialog);
        self.stop_media(out, dialog, record.media);
        proof {
            assert(partner_found(old(self)@, d, dialog_opt(bridged_peer))) by {
                if bridged_peer is None {
                    assert forall|p: Seq<Seq<char>>| !#[trigger] is_partner(old(self)@, d, p) by {
                        assert(is_partner(bridged, d, p) == is_partner(old(self)@, d, p));
                    }
                }
            }
        }
        if send_bye {
            record.local_cseq = record.local_cseq.saturating_add(1);
            let tag = self.next_tag(now);
            let mut branch: String = "z9hG4bK-".to_owned();
            branch.append(&tag);
            emit(out, UasCommand::Bye { record: record.duplicate(), branch });
        }
        proof {
            assert(self@ =~= goal.0);
            assert(outputs(out@) =~= before + goal.1);
            assert(record@ =~= goal.2);
        }
        Some(TornDown { record, bridged_peer })
    }

    /// Stores the call's record, if one is kept, and announces the end of a
    /// dialog that was removed.
    pub fn finish_teardown(
        &mut self,
        out: &mut Vec<UasCommand>,
        dialog: &DialogKey,
        call_id: &str,
        result: &str,
        now: &Moment,
    )
        requires
            old(self).wf(),
        ensures
            final(self).wf(),
            ({
                let (s, c) = finish_step(
                    old(self)@,
                    dialog_path(*dialog),
                    call_id@,
                    result@,
                    *now,
                );
                final(self)@ == s && outputs(final(out)@) == outputs(old(out)@) + c
            }),
    {
        let ghost before = outputs(out@);
        match self.cdrs.take(&place_of(dialog)) {
            Some(start) => {
                if self.settings.records_calls {
                    emit(out, UasCommand::Cdr(close_cdr(start, result, now)));
                }
            },
            None => {},
        }
        emit(out, UasCommand::Ended { call_id: call_id.to_owned() });
        assert(outputs(out@) =~= before + finish_step(
            old(self)@,
            dialog_path(*dialog),
            call_id@,
            result@,
            *now,
        ).1);
    }

    /// Ends a call: the dialog and, if it was bridged, the one on the other
    /// side, which gets a BYE. Returns what the dialog left behind.
    #[verifier::rlimit(40)]
    pub fn teardown_call(
        &mut self,
        out: &mut Vec<UasCommand>,
        dialog: &DialogKey,
        send_bye: bool,
        event: DialogEvent,
        now: &Moment,
    ) -> (r: Option<TornDown>)
        requires
            old(self).wf(),
        ensures
            final(self).wf(),
            match r {
                Some(t) => {
                    let (s, c, record) = call_step(
                        old(self)@,
                        dialog_path(*dialog),
                        send_bye,
                        event,
                        dialog_opt(t.bridged_peer),
                        *now,
                    );
                    &&& old(self)@.dialogs.contains_key(dialog_path(*dialog))
                    &&& final(self)@ == s
                    &&& outputs(final(out)@) == outputs(old(out)@) + c
                    &&& t.record@ == record
                    &&& partner_found(
                        old(self)@,
                        dialog_path(*dialog),
                        dialog_opt(t.bridged_peer),
                    )
                },
                None => {
                    &&& !old(self)@.dialogs.contains_key(dialog_path(*dialog))
                    &&& final(self)@ == old(self)@
                    &&& outputs(final(out)@) == outputs(old(out)@)
                },
            },
    {
        let ghost before = outputs(out@);
        let torn = match self.teardown_dialog(out, dialog, send_bye, event, now) {
            Some(t) => t,
            None => {
                return None;
            },
        };
        match &torn.bridged_peer {
            Some(peer) => {
                match self.teardown_dialog(out, peer, true, DialogEvent::ByeCompleted, now) {
                    Some(other) => {
                        self.finish_teardown(out, peer, &other.record.call_id, "answered", now);
                    },
                    None => {},
                }
            },
            None => {},
        }
        proof {
            let goal = call_step(
                old(self)@,
                dialog_path(*dialog),
                send_bye,
                event,
                dialog_opt(torn.bridged_peer),
                *now,
            );
            assert(outputs(out@) =~= before + goal.1);
        }
        Some(torn)
    }

    /// Ends a call on the engine's own account, with a BYE. Returns the dialog
    /// on the other side of its bridge, if there was one.
    pub fn end_call(
        &mut self,
        out: &mut Vec<UasCommand>,
        dialog: &DialogKey,
        event: DialogEvent,
        result: &str,
        now: &Moment,
    ) -> (r: Option<DialogKey>)
        requires
            old(self).wf(),
        ensures
            final(self).wf(),
            ({
                let (s, c) = end_step(
                    old(self)@,
                    dialog_path(*dialog),
                    event,
                    result@,
                    dialog_opt(r),
                    *now,
                );
                final(self)@ == s && outputs(final(out)@) == outputs(old(out)@) + c
            }),
            old(self)@.dialogs.contains_key(dialog_path(*dialog)) ==> partner_found(
                old(self)@,
                dialog_path(*dialog),
                dialog_opt(r),
            ),
    {
        let ghost before = outputs(out@);
        match self.teardown_call(out, dialog, true, event, now) {
            Some(t) => {
                self.finish_teardown(out, dialog, &t.record.call_id, result, now);
                proof {
                    let goal = end_step(
                        old(self)@,
                        dialog_path(*dialog),
                        event,
                        result@,
                        dialog_opt(t.bridged_peer),
                        *now,
                    );
                    assert(outputs(out@) =~= before + goal.1);
                }
                t.bridged_peer
            },
            None => {
                assert(before + seq![] =~= before);
                None
            },
        }
    }

    /// Sends the BYE of an ended dialog through a transaction of its own.
    /// `sent_by` is the `host:port` that the engine sends from.
    pub fn send_in_dialog_bye(
        &mut self,
        out: &mut Vec<UasCommand>,
        record: &DialogRecord,
        branch: &str,
        sent_by: &str,
    )
        requires
            old(self).wf(),
        ensures
            final(self).wf(),
            ({
                let (s, c) = bye_step(old(self)@, record@, branch@, sent_by@);
                final(self)@ == s && outputs(final(out)@) == outputs(old(out)@) + c
            }),
    {
        let ghost before = outputs(out@);
        let transport = match &record.transport {
            Some(t) => t.clone(),
            None => self.settings.transport.clone(),
        };
        let bye = build_in_dialog_request(
            &InDialogRequest {
                method: "BYE",
                record,
                via_sent_by: sent_by,
                via_transport: &transport,
                branch,
            },
        );
        let key = TransactionKey {
            branch: branch.to_owned(),
            method: "BYE".to_owned(),
            role: Role::Client,
        };
        let again = key.duplicate();
        let commands = self.driver.start_client(
            Machine::ClientNonInvite(ClientNonInviteTxn::new(branch, "BYE", bye)),
        );
        emit(out, UasCommand::Open { key, peer: record.peer_signal.clone() });
        emit(out, UasCommand::Txn { key: again, commands });
        assert(outputs(out@) =~= before + bye_step(old(self)@, record@, branch@, sent_by@).1);
    }
}

/// Sends the BYE of an ended dialog: addressed by its route set and remote
/// target, over the transport that the dialog arrived on.
pub open spec fn bye_step(
    s: UasView,
    record: RecordView,
    branch: Seq<char>,
    sent_by: Seq<char>,
) -> (UasView, Seq<UasCommandView>) {
    let transport = match record.transport {
        Some(t) => t,
        None => s.settings.transport,
    };
    let bye = vstd::utf8::encode_utf8(
        in_dialog_text("BYE"@, record, sent_by, transport, branch),
    );
    let key = KeyView { branch, method: "BYE"@, role: Role::Client };
    let slot = fresh_slot(
        Flavor::ClientNonInvite,
        new_client_non_invite(branch, "BYE"@, bye),
        s.reliable,
        None,
    );
    let (slots, commands) = table_after(
        s.slots.insert(path(key), slot),
        path(key),
        EventView::StartClient,
    );
    (
        UasView { slots, ..s },
        seq![
            UasCommandView::Open { key, peer: record.peer_signal },
            UasCommandView::Txn { key, commands },
        ],
    )
}

fn close_cdr(start: super::CdrInProgress, result: &str, now: &Moment) -> (r: CallDetailRecord)
    ensures
        r@ == cdr_of(start@, result@, *now),
{
    let duration_secs: i64 = if now.unix <= start.started_at_unix {
        0
    } else {
        let d: i128 = (now.unix as i128) - (start.started_at_unix as i128);
        if d <= i64::MAX as i128 {
            d as i64
        } else {
            i64::MAX
        }
    };
    CallDetailRecord {
        call_id: start.call_id,
        from_uri: start.from_uri,
        to_uri: start.to_uri,
        started_at_unix: start.started_at_unix,
        ended_at_unix: now.unix,
        duration_secs,
        result: result.to_owned(),
    }
}

} // verus!
