//! What the library's operations amount to, call by call.

use vstd::prelude::*;

use crate::auth::http_store::{http_error_text, HttpAuthConfig, HttpAuthError};
use crate::auth::registrar::Registrar;
use crate::auth::sqlite_store::{sqlite_error_text, MigrationRunner, SqliteStoreError};
use crate::auth::{
    bindings_view, lookups_are_exact, Binding, BindingView, Credentials, InMemoryCredentialStore,
    InMemoryRegistrationStore, RegistrationError, RegistrationStore,
};
use crate::pair_map::PairKey;
use crate::rate_limit::{
    bucket_of, messages_pass_while_tokens_last, passage, SipRateLimit, SipRateLimiter,
};
use crate::record::{dialog_path, DialogKey, DialogRecord};
use crate::response_router::ResponseRouter;
use crate::snapshot::{
    magic_text, snapshot_error_text, SnapshotError, SnapshotFile, SNAPSHOT_VERSION,
};
use crate::text;
use crate::transport::framing::MAX_MESSAGE_BYTES;
use crate::transport::proxy::{connector_from_config, Connector, SipProxyConfig, MAX_HTTP_HEAD};
use crate::transport::stream::{
    Activity, ConnLimits, DEFAULT_IDLE_TIMEOUT, DEFAULT_MAX_CONNECTIONS, WRITE_QUEUE_DEPTH,
};
use crate::transport::{local_ip_plan, LocalIpPlan, TransportKind};
use crate::txn::driver::{
    path, status_or_zero, table_after, TransactionDriver, TuEvent, TuView, ACK_2XX_WINDOW,
};
use crate::txn::EventView;
use crate::uac::ids::{branches_differ, call_ids_differ, tags_differ, IdSource};
use crate::uac::message::{bare_target, refusal, to_tag_of};
use crate::uac::{
    on_tu_event, uac_error_text, AwaitStep, CallAttempt, CallError, CallOutcome, HangupAttempt,
    UacClient, UacError, DEFAULT_DEADLINE,
};
use crate::uas::compose::{in_dialog_text, TagSource};
use crate::uas::parse::message_branch;
use crate::uas::server::calls::requests_turn_the_sides_round;
use crate::uas::server::ingress::{ingress_at, response_target, Ingress, ResponseRoute};
use crate::uas::server::invite::{media_opt, MediaReply, NegotiatedMedia};
use crate::uas::server::register::DEFAULT_EXPIRES;
use crate::uas::server::{
    outputs, record_views, restored_dialogs_are_there, tag_at, tagged, Moment, UasCommand,
    UasCommandView, UasServer, UasView,
};
use crate::uas::session_timer::{SessionTimerAgreement, SessionTimerConfig};
use crate::uas::summary::RequestSummary;
use crate::uas::writing::{says, tags_hold_counter_and_clock};
use crate::webrtc::{handler_error_text, WebRtcHandlerError};
use crate::webtransport::{
    kind_of, kind_token, session_of, signal_error_text, SessionIdAllocator, SignalView,
    WebTransportSessionId, WtSignalError, WtSignalKind,
};

verus! {

// ---------------------------------------------------------------------
// Answering
// ---------------------------------------------------------------------

/// After [`UasServer::establish_dialog`] the dialog is on record, and a request
/// that the engine sends in it comes from the URI of the INVITE's `To` with the
/// engine's tag, and goes to the URI and tag of the INVITE's `From`.
pub proof fn established_dialogs_have_both_sides(
    method: Seq<char>,
    sent_by: Seq<char>,
    transport: Seq<char>,
    branch: Seq<char>,
)
    ensures
        forall|
            m: &mut UasServer,
            out: &mut Vec<UasCommand>,
            req: &RequestSummary,
            dialog: &DialogKey,
            media: &Option<NegotiatedMedia>,
            timer: Option<SessionTimerAgreement>,
            peer: &str,
            now: &Moment,
        |
            #[trigger] call_ensures(
                UasServer::establish_dialog,
                (m, out, req, dialog, media, timer, peer, now),
                (),
            ) && req@.to_uri is Some && req@.from_uri is Some ==> {
                let d = dialog_path(*dialog);
                let t = in_dialog_text(
                    method,
                    final(m)@.dialogs[d],
                    sent_by,
                    transport,
                    branch,
                );
                &&& final(m)@.dialogs.contains_key(d)
                &&& says(t, "From: <"@ + req@.to_uri->0 + ">;tag="@ + dialog.1@)
                &&& says(t, "To: <"@ + req@.from_uri->0 + ">;tag="@ + dialog.2@)
                &&& says(t, "Call-ID: "@ + dialog.0@)
            },
{
    assert forall|
        m: &mut UasServer,
        out: &mut Vec<UasCommand>,
        req: &RequestSummary,
        dialog: &DialogKey,
        media: &Option<NegotiatedMedia>,
        timer: Option<SessionTimerAgreement>,
        peer: &str,
        now: &Moment,
    |
        #[trigger] call_ensures(
            UasServer::establish_dialog,
            (m, out, req, dialog, media, timer, peer, now),
            (),
        ) && req@.to_uri is Some && req@.from_uri is Some implies {
        let d = dialog_path(*dialog);
        let t = in_dialog_text(method, final(m)@.dialogs[d], sent_by, transport, branch);
        &&& final(m)@.dialogs.contains_key(d)
        &&& says(t, "From: <"@ + req@.to_uri->0 + ">;tag="@ + dialog.1@)
        &&& says(t, "To: <"@ + req@.from_uri->0 + ">;tag="@ + dialog.2@)
        &&& says(t, "Call-ID: "@ + dialog.0@)
    } by {
        crate::uas::server::calls::records_hold_their_invite(
            m@,
            *req,
            *dialog,
            media_opt(*media),
            timer,
            peer@,
            *now,
        );
        requests_turn_the_sides_round(
            m@,
            *req,
            *dialog,
            media_opt(*media),
            timer,
            peer@,
            *now,
            method,
            sent_by,
            transport,
            branch,
        );
    }
}

/// Each setting is what it was last set to, and setting one leaves the others.
pub proof fn settings_are_what_they_were_set_to()
    ensures
        forall|s: UasServer, cfg: SessionTimerConfig, r: UasServer|
            #[trigger] call_ensures(UasServer::with_session_timer, (s, cfg), r) ==> {
                &&& r@.settings.session_timer == cfg
                &&& r@.settings.max_call_duration == s@.settings.max_call_duration
                &&& r@.settings.invite_2xx_timeout == s@.settings.invite_2xx_timeout
                &&& r@.settings.draining == s@.settings.draining
                &&& r@.dialogs == s@.dialogs
            },
        forall|s: UasServer, max: Option<u64>, r: UasServer|
            #[trigger] call_ensures(UasServer::with_max_call_duration, (s, max), r) ==> {
                &&& r@.settings.max_call_duration == max
                &&& r@.settings.session_timer == s@.settings.session_timer
                &&& r@.settings.invite_2xx_timeout == s@.settings.invite_2xx_timeout
                &&& r@.dialogs == s@.dialogs
            },
        forall|s: UasServer, budget: u64, r: UasServer|
            #[trigger] call_ensures(UasServer::with_invite_2xx_timeout, (s, budget), r) ==> {
                &&& r@.settings.invite_2xx_timeout == budget
                &&& r@.settings.session_timer == s@.settings.session_timer
                &&& r@.settings.max_call_duration == s@.settings.max_call_duration
                &&& r@.dialogs == s@.dialogs
            },
        forall|s: UasServer, r: UasServer|
            #[trigger] call_ensures(UasServer::with_cdr_store, (s,), r)
                ==> r@.settings.records_calls && r@.dialogs == s@.dialogs,
        forall|s: UasServer, r: UasServer|
            #[trigger] call_ensures(UasServer::with_transcode_orchestrator, (s,), r)
                ==> r@.settings.has_transcoder && r@.settings.has_mixer == s@.settings.has_mixer
                && r@.dialogs == s@.dialogs,
        forall|s: UasServer, r: UasServer|
            #[trigger] call_ensures(UasServer::with_conference_orchestrator, (s,), r)
                ==> r@.settings.has_mixer && r@.settings.has_transcoder
                == s@.settings.has_transcoder && r@.dialogs == s@.dialogs,
        forall|s: UasServer, prefix: String, r: UasServer|
            #[trigger] call_ensures(UasServer::with_conference_rooms, (s, prefix), r)
                ==> r@.settings.room_prefix == Some(prefix@) && r@.dialogs == s@.dialogs,
        forall|s: UasServer, r: UasServer|
            #[trigger] call_ensures(UasServer::with_webrtc_rendezvous, (s,), r)
                ==> r@.settings.has_webrtc && r@.dialogs == s@.dialogs,
        forall|s: UasServer, ip: String, r: UasServer|
            #[trigger] call_ensures(UasServer::with_sdp_advertise_ip, (s, ip), r)
                ==> r@.settings.sdp_advertise_ip == Some(ip@) && r@.dialogs == s@.dialogs,
        forall|m: &mut UasServer, draining: bool|
            #[trigger] call_ensures(UasServer::set_draining, (m, draining), ())
                ==> final(m)@.settings.draining == draining && final(m)@.dialogs == m@.dialogs,
{
}

/// A fresh server has timers on, half an hour long and at least 90 seconds,
/// waits 32 seconds for an ACK, limits and records no call, and is reached at
/// its address.
pub proof fn fresh_servers_have_the_defaults(
    addr: &str,
    transport: &str,
    reliable: bool,
    pid: u32,
    s: UasServer,
)
    requires
        call_ensures(UasServer::new, (addr, transport, reliable, pid), s),
    ensures
        s@.settings.session_timer.enabled,
        s@.settings.session_timer.default_expires == 1_800_000,
        s@.settings.session_timer.min_se == 90_000,
        s@.settings.invite_2xx_timeout == 32_000,
        s@.settings.max_call_duration is None,
        !s@.settings.draining && !s@.settings.records_calls,
        !s@.settings.has_mixer && !s@.settings.has_transcoder && !s@.settings.has_webrtc,
        s@.settings.room_prefix is None && s@.settings.sdp_advertise_ip is None,
        s@.settings.contact == "<sip:smiths@"@ + addr@ + ">"@,
        s@.settings.transport == transport@,
        s@.settings.pid == pid,
        s@.reliable == reliable,
        s@.issued == 0,
        s@.dialogs.dom() == Set::<Seq<Seq<char>>>::empty(),
{
    assert(s@.dialogs.dom() =~= Set::<Seq<Seq<char>>>::empty());
}

// ---------------------------------------------------------------------
// Calling
// ---------------------------------------------------------------------

/// A call is placed exactly to a `sip:` target: its INVITE goes where it is told
/// to, and each attempt uses an identifier of each kind.
pub proof fn calls_are_placed_to_sip_targets()
    ensures
        forall|
            c: &UacClient,
            ids: &mut IdSource,
            target: &str,
            peer: &str,
            endpoint_id: u64,
            sdp: &str,
            subsec: u32,
            nanos: u64,
            r: Result<CallAttempt, UacError>,
        |
            #[trigger] call_ensures(
                UacClient::place_call,
                (c, ids, target, peer, endpoint_id, sdp, subsec, nanos),
                r,
            ) ==> {
                &&& r is Ok <==> text::begins_with(bare_target(target@), "sip:"@)
                &&& r matches Ok(a) ==> {
                    &&& a.target_uri@ == bare_target(target@)
                    &&& a.peer@ == peer@
                    &&& a.endpoint_id == endpoint_id
                    &&& final(ids).call_ids() == ids.call_ids().wrapping_add(1)
                    &&& final(ids).tags() == ids.tags().wrapping_add(1)
                    &&& final(ids).branches() == ids.branches().wrapping_add(1)
                }
                &&& r is Err ==> *final(ids) == *ids
            },
{
}

/// A call is connected exactly by a 200 with a `To` tag. Then it is known by its
/// Call-ID, with that tag, the peer and the endpoint of the attempt, and its
/// next request has number 2; any other answer leaves the calls as they are,
/// and one with another status releases the endpoint.
pub proof fn calls_are_connected_by_a_200()
    ensures
        forall|
            c: &mut UacClient,
            ids: &mut IdSource,
            a: CallAttempt,
            status: u16,
            bytes: Vec<u8>,
            nanos: u64,
            r: CallOutcome,
        |
            #[trigger] call_ensures(
                UacClient::call_answered,
                (c, ids, a, Ok((status, bytes)), nanos),
                r,
            ) ==> {
                &&& r is Connected <==> status == 200 && to_tag_of(bytes@) is Some
                &&& r is Connected ==> {
                    let d = final(c).dialogs()[seq![a.call_id@]];
                    &&& final(c).dialogs().contains_key(seq![a.call_id@])
                    &&& d.remote_tag@ == to_tag_of(bytes@)->0
                    &&& d.local_tag@ == a.local_tag@
                    &&& d.call_id@ == a.call_id@
                    &&& d.target_uri@ == a.target_uri@
                    &&& d.peer@ == a.peer@
                    &&& d.endpoint_id == a.endpoint_id
                    &&& d.next_cseq == 2
                    &&& forall|k: Seq<Seq<char>>|
                        k != seq![a.call_id@] && #[trigger] c.dialogs().contains_key(k)
                            ==> final(c).dialogs().contains_key(k) && final(c).dialogs()[k]
                            == c.dialogs()[k]
                }
                &&& r !is Connected ==> final(c).dialogs() == c.dialogs()
                &&& status != 200 ==> (r matches CallOutcome::Failed { error, release }
                    && release == Some(a.endpoint_id) && (error matches UacError::Rejected {
                    status: s,
                    ..
                } && s == status))
            },
{
}

/// An attempt without an answer fails as it was told, releases its endpoint, and
/// leaves the calls as they are.
pub proof fn unanswered_calls_fail()
    ensures
        forall|
            c: &mut UacClient,
            ids: &mut IdSource,
            a: CallAttempt,
            e: UacError,
            nanos: u64,
            r: CallOutcome,
        |
            #[trigger] call_ensures(UacClient::call_answered, (c, ids, a, Err(e), nanos), r) ==> {
                &&& r == (CallOutcome::Failed { error: e, release: Some(a.endpoint_id) })
                &&& final(c).dialogs() == c.dialogs()
            },
{
}

/// A call that is known can be hung up: the BYE goes to its peer, and its next
/// number is used. A call that is not known cannot.
pub proof fn known_calls_can_be_hung_up()
    ensures
        forall|
            c: &mut UacClient,
            ids: &mut IdSource,
            call_id: &str,
            nanos: u64,
            r: Result<HangupAttempt, UacError>,
        |
            #[trigger] call_ensures(UacClient::hangup, (c, ids, call_id, nanos), r) ==> {
                let k = seq![call_id@];
                &&& r is Ok <==> c.dialogs().contains_key(k)
                &&& r matches Ok(a) ==> {
                    let d = c.dialogs()[k];
                    &&& a.call_id@ == call_id@
                    &&& a.peer@ == d.peer@
                    &&& a.endpoint_id == d.endpoint_id
                    &&& d.next_cseq < u32::MAX ==> final(c).dialogs()[k].next_cseq == d.next_cseq
                        + 1
                    &&& final(c).dialogs().contains_key(k)
                    &&& final(c).dialogs()[k].remote_tag == d.remote_tag
                    &&& final(c).dialogs()[k].local_tag == d.local_tag
                }
                &&& r is Err ==> final(c).dialogs() == c.dialogs() && (r matches Err(
                    UacError::NotFound(m),
                ) && m@ == call_id@)
            },
{
}

/// A call is over exactly when its BYE is answered 200; then it is no longer
/// known, its endpoint is handed back, and no other call is touched.
pub proof fn hung_up_calls_are_forgotten()
    ensures
        forall|
            c: &mut UacClient,
            a: HangupAttempt,
            status: u16,
            bytes: Vec<u8>,
            r: Result<u64, UacError>,
        |
            #[trigger] call_ensures(UacClient::hangup_answered, (c, a, Ok((status, bytes))), r)
                ==> {
                &&& r is Ok <==> status == 200
                &&& r matches Ok(e) ==> e == a.endpoint_id && !final(c).dialogs().contains_key(
                    seq![a.call_id@],
                )
                &&& r is Ok ==> forall|k: Seq<Seq<char>>|
                    k != seq![a.call_id@] && #[trigger] c.dialogs().contains_key(k)
                        ==> final(c).dialogs().contains_key(k) && final(c).dialogs()[k]
                        == c.dialogs()[k]
                &&& r is Err ==> final(c).dialogs() == c.dialogs()
            },
{
}

/// While a call is awaited, a provisional response changes nothing, any other is
/// the final one, and the end of the transaction is a failure.
pub proof fn final_responses_end_the_wait(event: TuEvent, r: AwaitStep)
    requires
        call_ensures(on_tu_event, (event,), r),
    ensures
        event@ matches TuView::Response { status, bytes } ==> {
            &&& 100 <= status < 200 ==> r is Wait
            &&& !(100 <= status < 200) ==> (r matches AwaitStep::Final { status: s, bytes: b } && s
                == status && b@ == bytes)
        },
        event@ is Terminated ==> r is Failed,
{
}

// ---------------------------------------------------------------------
// Transactions
// ---------------------------------------------------------------------

/// The ACK that was registered for a branch, and no other, answers every 2xx on
/// it and no other response.
pub proof fn registered_acks_answer_successes()
    ensures
        forall|m: &mut TransactionDriver, branch: &str, peer: &str, ack: Vec<u8>|
            #[trigger] call_ensures(
                TransactionDriver::register_ack_for_2xx,
                (m, branch, peer, ack),
                (),
            ) ==> {
                &&& final(m).acks().contains_key(seq![branch@])
                &&& final(m).acks()[seq![branch@]] == (peer@, ack@)
                &&& final(m).slots() == m.slots()
                &&& forall|k: Seq<Seq<char>>|
                    k != seq![branch@] ==> #[trigger] final(m).acks().contains_key(k)
                        == m.acks().contains_key(k)
            },
        forall|m: &mut TransactionDriver, branch: &str, bytes: &[u8], r: Option<(String, Vec<u8>)>|
            #[trigger] call_ensures(TransactionDriver::answer_2xx, (m, branch, bytes), r) ==> {
                &&& r is Some <==> 200 <= status_or_zero(bytes@) < 300 && m.acks().contains_key(
                    seq![branch@],
                )
                &&& r matches Some(a) ==> a.0@ == m.acks()[seq![branch@]].0 && a.1@
                    == m.acks()[seq![branch@]].1
                &&& final(m).acks() == m.acks()
            },
        forall|m: &mut TransactionDriver, branch: &str|
            #[trigger] call_ensures(TransactionDriver::forget_ack, (m, branch), ())
                ==> !final(m).acks().contains_key(seq![branch@]),
{
}

/// A branch has the subscriber that subscribed last, until they cancel or do not
/// take what they are handed; other branches are not touched.
pub proof fn responses_reach_their_subscriber()
    ensures
        forall|m: &mut ResponseRouter, branch: &str, r: (u64, Option<u64>)|
            #[trigger] call_ensures(ResponseRouter::subscribe, (m, branch), r) ==> {
                &&& final(m).subscribers().contains_key(seq![branch@])
                &&& final(m).subscribers()[seq![branch@]] == r.0
                &&& m.next() < u64::MAX ==> final(m).next() == r.0 + 1
                &&& r.1 is Some ==> m.subscribers().contains_key(seq![branch@]) && r.1 == Some(
                    m.subscribers()[seq![branch@]],
                )
                &&& r.1 is None ==> !m.subscribers().contains_key(seq![branch@])
                &&& forall|k: Seq<Seq<char>>|
                    k != seq![branch@] && #[trigger] m.subscribers().contains_key(k) ==> final(m).subscribers().contains_key(k) && final(m).subscribers()[k]
                        == m.subscribers()[k]
            },
        forall|m: &ResponseRouter, branch: &str, r: Option<u64>|
            #[trigger] call_ensures(ResponseRouter::route, (m, branch), r) ==> {
                &&& m.subscribers().contains_key(seq![branch@]) ==> r == Some(
                    m.subscribers()[seq![branch@]],
                )
                &&& !m.subscribers().contains_key(seq![branch@]) ==> r is None
            },
        forall|m: &mut ResponseRouter, branch: &str, taken: bool, r: bool|
            #[trigger] call_ensures(ResponseRouter::deliver, (m, branch, taken), r) ==> {
                &&& r ==> taken && m.subscribers().contains_key(seq![branch@]) && final(m).subscribers() == m.subscribers()
                &&& taken && m.subscribers().contains_key(seq![branch@]) ==> r
                &&& !r ==> !final(m).subscribers().contains_key(seq![branch@])
            },
        forall|m: &mut ResponseRouter, branch: &str|
            #[trigger] call_ensures(ResponseRouter::cancel, (m, branch), ())
                ==> !final(m).subscribers().contains_key(seq![branch@]),
{
}

// ---------------------------------------------------------------------
// Storing
// ---------------------------------------------------------------------

/// A snapshot gives back the records that it was made of. A file with another
/// tag, or of a newer version, is refused.
pub proof fn snapshots_give_back_their_records(
    records: Vec<DialogRecord>,
    file: SnapshotFile,
    r: Result<Vec<DialogRecord>, SnapshotError>,
    other: SnapshotFile,
    s: Result<Vec<DialogRecord>, SnapshotError>,
)
    requires
        call_ensures(SnapshotFile::of, (records,), file),
        call_ensures(SnapshotFile::accept, (file,), r),
        call_ensures(SnapshotFile::accept, (other,), s),
    ensures
        r == Ok::<Vec<DialogRecord>, SnapshotError>(records),
        other.magic@ != file.magic@ ==> (s matches Err(SnapshotError::MagicMismatch {
            expected,
            got,
        }) && expected@ == file.magic@ && got@ == other.magic@),
        other.magic@ == file.magic@ && other.version > file.version ==> s == Err::<
            Vec<DialogRecord>,
            SnapshotError,
        >(SnapshotError::UnsupportedVersion(other.version)),
        other.magic@ == file.magic@ && other.version <= file.version ==> s == Ok::<
            Vec<DialogRecord>,
            SnapshotError,
        >(other.records),
{
}

/// An account is found under its realm and name once it was stored, and no more
/// once it was removed.
pub proof fn accounts_are_found_where_they_were_stored()
    ensures
        forall|m: &mut InMemoryCredentialStore, c: Credentials|
            #[trigger] call_ensures(InMemoryCredentialStore::insert, (m, c), ()) ==> {
                &&& final(m).accounts().contains_key((c.realm@, c.username@))
                &&& final(m).accounts()[(c.realm@, c.username@)] == c@
            },
        forall|m: &InMemoryCredentialStore, realm: &str, user: &str, r: Option<Credentials>|
            #[trigger] call_ensures(InMemoryCredentialStore::find, (m, realm, user), r) ==> {
                &&& r is Some <==> m.accounts().contains_key((realm@, user@))
                &&& r matches Some(c) ==> c@ == m.accounts()[(realm@, user@)]
            },
        forall|m: &mut InMemoryCredentialStore, realm: &str, user: &str, r: Option<Credentials>|
            #[trigger] call_ensures(InMemoryCredentialStore::remove, (m, realm, user), r)
                ==> !final(m).accounts().contains_key((realm@, user@)),
{
}

/// A contact is bound, and looked up, under its address of record until it is
/// unbound; only what was bound can be unbound.
pub proof fn bindings_are_held_until_unbound()
    ensures
        forall|m: &mut InMemoryRegistrationStore, b: &Binding, r: Result<Binding, RegistrationError>|
            #[trigger] call_ensures(InMemoryRegistrationStore::bind, (m, b), r) ==> {
                &&& r is Ok
                &&& final(m).bindings().contains_key((b.aor@, b.contact@))
                &&& final(m).bindings()[(b.aor@, b.contact@)] == b@
                &&& forall|k: PairKey|
                    k != (b.aor@, b.contact@) && #[trigger] m.bindings().contains_key(k) ==> final(
                        m).bindings().contains_key(k) && final(m).bindings()[k] == m.bindings()[k]
            },
        forall|
            m: &mut InMemoryRegistrationStore,
            aor: &str,
            contact: &str,
            r: Result<(), RegistrationError>,
        |
            #[trigger] call_ensures(InMemoryRegistrationStore::unbind, (m, aor, contact), r) ==> {
                &&& r is Ok <==> m.bindings().contains_key((aor@, contact@))
                &&& !final(m).bindings().contains_key((aor@, contact@))
                &&& forall|k: PairKey|
                    k != (aor@, contact@) && #[trigger] m.bindings().contains_key(k) ==> final(
                        m).bindings().contains_key(k) && final(m).bindings()[k] == m.bindings()[k]
            },
{
}

/// What is live at a time: the bindings that end later, of the address that is
/// asked for.
pub proof fn live_bindings_end_later(
    store: &InMemoryRegistrationStore,
    aor: &str,
    now: i64,
    r: Vec<Binding>,
    b: BindingView,
)
    requires
        call_ensures(InMemoryRegistrationStore::live_at, (store, Some(aor), now), r),
    ensures
        bindings_view(r@).contains(b) <==> store.list().contains(b) && b.expires_at_unix > now
            && b.aor == aor@,
{
    let n = store.list().len() as int;
    lookups_are_exact(store.list(), Some(aor@), now, n, b);
    assert(store.list().take(n) =~= store.list());
}

// ---------------------------------------------------------------------
// Limits
// ---------------------------------------------------------------------

/// A connection is admitted while there are fewer than the limit, and always
/// where there is none.
pub proof fn connections_are_limited(limits: &ConnLimits, live: usize, r: bool)
    requires
        call_ensures(ConnLimits::admits, (limits, live), r),
    ensures
        limits.max_connections == 0 ==> r,
        limits.max_connections > 0 ==> (r <==> live < limits.max_connections),
{
}

/// A connection is idle since its last traffic.
pub proof fn idleness_counts_from_the_last_traffic()
    ensures
        forall|m: &mut Activity, now: u64|
            #[trigger] call_ensures(Activity::touch_at, (m, now), ()) ==> final(m).last() == now,
        forall|m: &Activity, now: u64, r: u64|
            #[trigger] call_ensures(Activity::idle_at, (m, now), r) ==> {
                &&& now >= m.last() ==> r == now - m.last()
                &&& now < m.last() ==> r == 0
            },
{
}

/// Only UDP loses messages, and each transport has its token.
pub proof fn transports_have_their_token(kind: TransportKind, reliable: bool, token: &'static str)
    requires
        call_ensures(TransportKind::is_reliable, (kind,), reliable),
        call_ensures(TransportKind::via_token, (kind,), token),
    ensures
        reliable <==> kind is Tcp || kind is Tls,
        kind is Udp ==> token@ == "UDP"@,
        kind is Tcp ==> token@ == "TCP"@,
        kind is Tls ==> token@ == "TLS"@,
{
}

/// The address to publish is the bound one, unless that is a wildcard; then the
/// route to the peer is asked for, in the peer's own family.
pub proof fn published_addresses_are_concrete(
    bind_ip: &str,
    wildcard: bool,
    v6: bool,
    plan: LocalIpPlan,
)
    requires
        call_ensures(local_ip_plan, (bind_ip, wildcard, v6), plan),
    ensures
        !wildcard ==> (plan matches LocalIpPlan::Bound(ip) && ip@ == bind_ip@),
        wildcard && !v6 ==> (plan matches LocalIpPlan::AskRoute { unspecified, loopback }
            && unspecified@ == "0.0.0.0"@ && loopback@ == "127.0.0.1"@),
        wildcard && v6 ==> (plan matches LocalIpPlan::AskRoute { unspecified, loopback }
            && unspecified@ == "::"@ && loopback@ == "::1"@),
{
}

// ---------------------------------------------------------------------
// Migrations
// ---------------------------------------------------------------------

/// A database of a newer version is refused; any other is brought to the current
/// version, step by step.
pub proof fn newer_databases_are_refused(current: i32, r: Result<Vec<i32>, SqliteStoreError>)
    requires
        call_ensures(MigrationRunner::pending, (current,), r),
    ensures
        current > 1 ==> r == Err::<Vec<i32>, SqliteStoreError>(
            SqliteStoreError::SchemaTooNew { found: current, max_supported: 1 },
        ),
        current == 1 ==> (r matches Ok(v) && v@.len() == 0),
        current < 1 ==> (r matches Ok(v) && v@ == seq![1i32]),
{
}

// ---------------------------------------------------------------------
// Frames
// ---------------------------------------------------------------------

/// Frames of different kinds have different tokens.
pub proof fn kinds_have_their_own_token(a: WtSignalKind, b: WtSignalKind)
    requires
        kind_token(a) == kind_token(b),
    ensures
        a == b,
{
    reveal_strlit("session-init");
    reveal_strlit("session-ack");
    reveal_strlit("offer");
    reveal_strlit("answer");
    reveal_strlit("ice-candidate");
    reveal_strlit("ice-end");
    reveal_strlit("bye");
    reveal_strlit("error");
    reveal_strlit("echo");
    assert("session-init"@.len() == 12 && "session-ack"@.len() == 11 && "offer"@.len() == 5);
    assert("answer"@.len() == 6 && "ice-candidate"@.len() == 13 && "ice-end"@.len() == 7);
    assert("bye"@.len() == 3 && "error"@.len() == 5 && "echo"@.len() == 4);
    assert("offer"@[0] == 'o' && "error"@[0] == 'e');
}

/// Every frame names its session but the one that opens it; an error may name
/// none.
pub proof fn frames_name_their_session(s: SignalView)
    ensures
        s is SessionInit <==> kind_of(s) == WtSignalKind::SessionInit,
        s is SessionInit ==> session_of(s) is None,
        s !is SessionInit && s !is Error ==> session_of(s) is Some,
        s matches SignalView::Error { session_id, .. } ==> session_of(s) == session_id,
        s matches SignalView::Offer { session_id, .. } ==> session_of(s) == Some(session_id),
        s matches SignalView::Answer { session_id, .. } ==> session_of(s) == Some(session_id),
        s matches SignalView::IceCandidate { session_id, .. } ==> session_of(s) == Some(session_id),
        s matches SignalView::Bye { session_id, .. } ==> session_of(s) == Some(session_id),
        s matches SignalView::Echo { session_id, .. } ==> session_of(s) == Some(session_id),
        s is Offer ==> kind_of(s) == WtSignalKind::Offer,
        s is Answer ==> kind_of(s) == WtSignalKind::Answer,
        s is Bye ==> kind_of(s) == WtSignalKind::Bye,
        s is Echo ==> kind_of(s) == WtSignalKind::Echo,
        s is Error ==> kind_of(s) == WtSignalKind::Error,
        s is SessionAck ==> kind_of(s) == WtSignalKind::SessionAck,
        s is IceCandidate ==> kind_of(s) == WtSignalKind::IceCandidate,
        s is IceEnd ==> kind_of(s) == WtSignalKind::IceEnd,
{
}

/// The error of a call keeps what it says when it is handed on; a failed
/// transport is an internal matter.
pub proof fn call_errors_are_handed_on(e: UacError, c: CallError)
    requires
        c == <CallError as vstd::std_specs::convert::FromSpec<UacError>>::from_spec(e),
    ensures
        e matches UacError::InvalidTarget(m) ==> c == CallError::InvalidTarget(m),
        e matches UacError::Rejected { status, reason } ==> c == (CallError::Rejected {
            status,
            reason,
        }),
        e matches UacError::NotFound(m) ==> c == CallError::NotFound(m),
        e matches UacError::Timeout { millis } ==> c == (CallError::Timeout { millis }),
        e matches UacError::Io(m) ==> c == CallError::Internal(m),
        e matches UacError::Internal(m) ==> c == CallError::Internal(m),
{
}

// ---------------------------------------------------------------------
// Identifiers
// ---------------------------------------------------------------------

/// Two identifiers in a row differ, whatever the clock reads, and each kind is
/// counted on its own.
pub proof fn identifiers_in_a_row_differ()
    ensures
        forall|
            m: &mut IdSource,
            n: &mut IdSource,
            local: &str,
            nanos: u32,
            later: u32,
            a: String,
            b: String,
        |
            #[trigger] call_ensures(IdSource::fresh_call_id, (m, local, nanos), a)
                && #[trigger] call_ensures(IdSource::fresh_call_id, (n, local, later), b) && *n
                == *final(m) ==> a@ != b@,
        forall|
            m: &mut IdSource,
            n: &mut IdSource,
            prefix: &str,
            nanos: u32,
            later: u32,
            a: String,
            b: String,
        |
            #[trigger] call_ensures(IdSource::fresh_tag, (m, prefix, nanos), a)
                && #[trigger] call_ensures(IdSource::fresh_tag, (n, prefix, later), b) && *n
                == *final(m) ==> a@ != b@,
        forall|m: &mut IdSource, n: &mut IdSource, nanos: u64, later: u64, a: String, b: String|
            #[trigger] call_ensures(IdSource::fresh_branch, (m, nanos), a)
                && #[trigger] call_ensures(IdSource::fresh_branch, (n, later), b) && *n == *final(m)
                ==> a@ != b@,
        forall|m: &mut SessionIdAllocator, r: WebTransportSessionId|
            #[trigger] call_ensures(SessionIdAllocator::fresh, (m,), r) ==> r.0 == m@ && final(m)@
                != m@ && (m@ < u64::MAX ==> final(m)@ == m@ + 1),
        forall|m: &mut TagSource, nanos: u64, pid: u32, r: String|
            #[trigger] call_ensures(TagSource::next_tag, (m, nanos, pid), r) ==> final(m)@ != m@
                && (m@ < u64::MAX ==> final(m)@ == m@ + 1),
{
    assert forall|
        m: &mut IdSource,
        n: &mut IdSource,
        local: &str,
        nanos: u32,
        later: u32,
        a: String,
        b: String,
    |
        #[trigger] call_ensures(IdSource::fresh_call_id, (m, local, nanos), a)
            && #[trigger] call_ensures(IdSource::fresh_call_id, (n, local, later), b) && *n
            == *final(m) implies a@ != b@ by {
        call_ids_differ(m.call_ids(), nanos, n.call_ids(), later, local@);
    }
    assert forall|
        m: &mut IdSource,
        n: &mut IdSource,
        prefix: &str,
        nanos: u32,
        later: u32,
        a: String,
        b: String,
    |
        #[trigger] call_ensures(IdSource::fresh_tag, (m, prefix, nanos), a)
            && #[trigger] call_ensures(IdSource::fresh_tag, (n, prefix, later), b) && *n == *final(
            m) implies a@ != b@ by {
        tags_differ(m.tags(), nanos, n.tags(), later, prefix@);
    }
    assert forall|m: &mut IdSource, n: &mut IdSource, nanos: u64, later: u64, a: String, b: String|
        #[trigger] call_ensures(IdSource::fresh_branch, (m, nanos), a)
            && #[trigger] call_ensures(IdSource::fresh_branch, (n, later), b) && *n == *final(m)
        implies a@ != b@ by {
        branches_differ(m.branches(), nanos, n.branches(), later);
    }
}

// ---------------------------------------------------------------------
// Proxies and rates
// ---------------------------------------------------------------------

/// Without a proxy nothing is needed; a proxy needs an address, and is reached
/// there with the configured credentials.
pub proof fn proxies_need_an_address(cfg: &SipProxyConfig, r: Result<Connector, String>)
    requires
        call_ensures(connector_from_config, (cfg,), r),
    ensures
        cfg.mode is Direct ==> (r matches Ok(Connector::Direct(_))),
        cfg.mode !is Direct ==> (r is Ok <==> cfg.address is Some),
        cfg.mode is Socks5 && cfg.address is Some ==> (r matches Ok(Connector::Socks5(c))
            && c.proxy@ == (cfg.address->0)@ && (c.credentials is Some <==> cfg.username is Some
            && cfg.password is Some)),
        cfg.mode is HttpConnect && cfg.address is Some ==> (r matches Ok(
            Connector::HttpConnect(c),
        ) && c.proxy@ == (cfg.address->0)@ && (c.credentials is Some <==> cfg.username is Some
            && cfg.password is Some)),
{
}

/// A limiter with rate 0 lets everything pass; any other lets a message pass
/// exactly when its source has a token, and takes one.
pub proof fn limiters_let_pass_what_has_a_token()
    ensures
        forall|m: &mut SipRateLimiter, source: &str, now: u64, r: bool|
            #[trigger] call_ensures(SipRateLimiter::allow_at, (m, source, now), r) ==> {
                let k = seq![source@];
                let full = m.bucket_depth() * 1_000_000_000;
                &&& m.rate() == 0 ==> r
                &&& m.rate() > 0 && !m.buckets().contains_key(k) ==> (r <==> m.bucket_depth() >= 1)
                &&& m.rate() > 0 && m.buckets().contains_key(k) && m.buckets()[k].1 <= now
                    && m.buckets()[k].0 <= full ==> (r <==> m.bucket_depth() >= 1
                    && m.buckets()[k].0 + (now - m.buckets()[k].1) * m.rate() >= 1_000_000_000)
                &&& final(m).rate() == m.rate() && final(m).bucket_depth() == m.bucket_depth()
            },
        forall|cfg: SipRateLimit, r: SipRateLimiter|
            #[trigger] call_ensures(SipRateLimiter::new, (cfg,), r) ==> {
                &&& r.rate() == cfg.per_sec
                &&& cfg.burst > 0 ==> r.bucket_depth() == cfg.burst
                &&& cfg.burst == 0 ==> r.bucket_depth() == cfg.per_sec
            },
        forall|m: &mut SipRateLimiter, cfg: SipRateLimit|
            #[trigger] call_ensures(SipRateLimiter::reconfigure, (m, cfg), ()) ==> {
                &&& final(m).rate() == cfg.per_sec
                &&& cfg.burst > 0 ==> final(m).bucket_depth() == cfg.burst
                &&& cfg.burst == 0 ==> final(m).bucket_depth() == cfg.per_sec
                &&& final(m).buckets() == m.buckets()
            },
{
    assert forall|m: &mut SipRateLimiter, source: &str, now: u64, r: bool|
        #[trigger] call_ensures(SipRateLimiter::allow_at, (m, source, now), r) implies {
        let k = seq![source@];
        let full = m.bucket_depth() * 1_000_000_000;
        &&& m.rate() == 0 ==> r
        &&& m.rate() > 0 && !m.buckets().contains_key(k) ==> (r <==> m.bucket_depth() >= 1)
        &&& m.rate() > 0 && m.buckets().contains_key(k) && m.buckets()[k].1 <= now
            && m.buckets()[k].0 <= full ==> (r <==> m.bucket_depth() >= 1 && m.buckets()[k].0 + (now
            - m.buckets()[k].1) * m.rate() >= 1_000_000_000)
        &&& final(m).rate() == m.rate() && final(m).bucket_depth() == m.bucket_depth()
    } by {
        let burst = m.bucket_depth();
        let bucket = bucket_of(m.buckets(), source@, burst, now);
        assert(burst * 1_000_000_000 <= u64::MAX);
        assert((now - now) * m.rate() == 0) by (nonlinear_arith);
        if m.rate() > 0 && bucket.1 <= now && bucket.0 <= burst * 1_000_000_000 {
            messages_pass_while_tokens_last(bucket, m.rate(), burst, now);
        }
    }
}

/// The lifetime and the cap of a registrar's nonces are what they were set to;
/// the cap is never less than one.
pub proof fn registrars_keep_their_limits<S>()
    ensures
        forall|g: Registrar<S>, ttl: u64, r: Registrar<S>|
            #[trigger] call_ensures(Registrar::<S>::with_ttl, (g, ttl), r) ==> r.lifetime() == ttl
                && r.cap() == g.cap() && r.realm_text() == g.realm_text(),
        forall|g: Registrar<S>, max: usize, r: Registrar<S>|
            #[trigger] call_ensures(Registrar::<S>::with_max_nonces, (g, max), r) ==> {
                &&& max >= 1 ==> r.cap() == max
                &&& max == 0 ==> r.cap() == 1
                &&& r.lifetime() == g.lifetime() && r.realm_text() == g.realm_text()
            },
        forall|realm: &str, store: S, r: Registrar<S>|
            #[trigger] call_ensures(Registrar::<S>::new, (realm, store), r) ==> r.realm_text()
                == realm@ && r.lifetime() == 300_000 && r.cap() == 100_000 && r.accounts() == store,
{
}

// ---------------------------------------------------------------------
// Defaults and messages
// ---------------------------------------------------------------------

/// How long and how much, unless something else is configured.
pub proof fn defaults_are()
    ensures
        DEFAULT_DEADLINE == 30_000,
        ACK_2XX_WINDOW == 32_000,
        DEFAULT_MAX_CONNECTIONS == 1024,
        DEFAULT_IDLE_TIMEOUT == 5 * 60 * 1000,
        WRITE_QUEUE_DEPTH == 32,
        MAX_HTTP_HEAD == 8 * 1024,
        MAX_MESSAGE_BYTES == 64 * 1024 - 1,
        DEFAULT_EXPIRES == 60 * 60,
{
}

/// The tag that the server hands out next holds its count, and the clock reading
/// mixed with the process.
pub proof fn next_tags_hold_the_count(s: UasView, now: Moment)
    ensures
        ({
            let t = tag_at(s, now);
            &&& t.len() == 40
            &&& text::uint_value(t.subrange(7, 23), 16, u64::MAX as nat) == Some(s.issued as nat)
            &&& text::uint_value(t.subrange(24, 40), 16, u64::MAX as nat) == Some(
                (now.nanos ^ (s.settings.pid as u64)) as nat,
            )
            &&& tagged(s).issued == s.issued.wrapping_add(1)
            &&& tagged(s) == (UasView { issued: tagged(s).issued, ..s })
        }),
{
    tags_hold_counter_and_clock(s.issued, now.nanos, s.settings.pid);
}

/// `s` ends with `end`.
pub open spec fn ends_with(s: Seq<char>, end: Seq<char>) -> bool {
    text::occurs_at(s, end, s.len() - end.len())
}

proof fn lemma_ends(a: Seq<char>, b: Seq<char>)
    ensures
        ends_with(a + b, b),
{
    let s = a + b;
    let k = s.len() - b.len();
    assert(s.subrange(k, k + b.len()) =~= b);
}

/// The message of an error ends with its cause.
pub proof fn messages_end_with_their_cause(
    a: UacError,
    b: HttpAuthError,
    c: SnapshotError,
    d: WtSignalError,
    e: WebRtcHandlerError,
    f: SqliteStoreError,
)
    ensures
        a matches UacError::InvalidTarget(m) ==> ends_with(uac_error_text(a), m@),
        a matches UacError::Io(m) ==> ends_with(uac_error_text(a), m@),
        a matches UacError::NotFound(m) ==> ends_with(uac_error_text(a), m@),
        a matches UacError::Internal(m) ==> uac_error_text(a) == m@,
        a matches UacError::Rejected { status, reason } ==> ends_with(
            uac_error_text(a),
            text::decimal(status as nat) + " "@ + reason@,
        ),
        a matches UacError::Timeout { millis } ==> ends_with(
            uac_error_text(a),
            text::decimal(millis as nat) + " ms"@,
        ),
        b matches HttpAuthError::Transport(m) ==> ends_with(http_error_text(b), m@),
        b matches HttpAuthError::Malformed(m) ==> ends_with(http_error_text(b), m@),
        b matches HttpAuthError::HttpStatus { code } ==> ends_with(
            http_error_text(b),
            text::decimal(code as nat),
        ),
        b matches HttpAuthError::BreakerOpen { cooldown_secs } ==> ends_with(
            http_error_text(b),
            text::decimal(cooldown_secs as nat) + "s)"@,
        ),
        c matches SnapshotError::Io(m) ==> ends_with(snapshot_error_text(c), m@),
        c matches SnapshotError::Serde(m) ==> ends_with(snapshot_error_text(c), m@),
        d matches WtSignalError::Encode(m) ==> ends_with(signal_error_text(d), m@),
        d matches WtSignalError::Decode(m) ==> ends_with(signal_error_text(d), m@),
        e matches WebRtcHandlerError::OfferRejected(m) ==> ends_with(handler_error_text(e), m@),
        e matches WebRtcHandlerError::Resource(m) ==> ends_with(handler_error_text(e), m@),
        e matches WebRtcHandlerError::Other(m) ==> handler_error_text(e) == m@,
        f matches SqliteStoreError::Sqlite(m) ==> ends_with(sqlite_error_text(f), m@),
{
    match a {
        UacError::InvalidTarget(m) => lemma_ends("invalid target uri: "@, m@),
        UacError::Io(m) => lemma_ends("transport: "@, m@),
        UacError::NotFound(m) => lemma_ends("no dialog for call id "@, m@),
        UacError::Rejected { status, reason } => {
            let tail = text::decimal(status as nat) + " "@ + reason@;
            lemma_ends("peer rejected: "@, tail);
            assert(uac_error_text(a) =~= "peer rejected: "@ + tail);
        },
        UacError::Timeout { millis } => {
            let tail = text::decimal(millis as nat) + " ms"@;
            lemma_ends("response timeout after "@, tail);
            assert(uac_error_text(a) =~= "response timeout after "@ + tail);
        },
        UacError::Internal(_) => {},
    }
    match b {
        HttpAuthError::Transport(m) => lemma_ends("transport: "@, m@),
        HttpAuthError::Malformed(m) => lemma_ends("malformed response: "@, m@),
        HttpAuthError::HttpStatus { code } => lemma_ends(
            "unexpected HTTP "@,
            text::decimal(code as nat),
        ),
        HttpAuthError::BreakerOpen { cooldown_secs } => {
            let tail = text::decimal(cooldown_secs as nat) + "s)"@;
            lemma_ends("circuit breaker open (cooldown "@, tail);
            assert(http_error_text(b) =~= "circuit breaker open (cooldown "@ + tail);
        },
    }
    match c {
        SnapshotError::Io(m) => lemma_ends("snapshot I/O: "@, m@),
        SnapshotError::Serde(m) => lemma_ends("snapshot serde: "@, m@),
        _ => {},
    }
    match d {
        WtSignalError::Encode(m) => lemma_ends("webtransport signal encode: "@, m@),
        WtSignalError::Decode(m) => lemma_ends("webtransport signal decode: "@, m@),
    }
    match e {
        WebRtcHandlerError::OfferRejected(m) => lemma_ends("offer rejected: "@, m@),
        WebRtcHandlerError::Resource(m) => lemma_ends("resource exhausted: "@, m@),
        WebRtcHandlerError::Other(_) => {},
    }
    match f {
        SqliteStoreError::Sqlite(m) => lemma_ends("sqlite: "@, m@),
        _ => {},
    }
}

// ---------------------------------------------------------------------
// Settling
// ---------------------------------------------------------------------

/// An INVITE that was cancelled while its media was negotiated is settled with a
/// refusal, and its endpoint is released; any other gets a fresh tag.
pub proof fn invites_are_settled()
    ensures
        forall|
            m: &mut UasServer,
            out: &mut Vec<UasCommand>,
            req: &RequestSummary,
            endpoint: Option<u64>,
            peer: &str,
            now: &Moment,
            r: Option<String>,
        |
            #[trigger] call_ensures(UasServer::settle_invite, (m, out, req, endpoint, peer, now), r)
                ==> {
                let cancelled = req@.branch is Some && m@.cancelled.contains_key(
                    seq![req@.branch->0],
                );
                &&& r is Some <==> !cancelled
                &&& r matches Some(tag) ==> tag@ == tag_at(m@, *now) && outputs(final(out)@)
                    == outputs(out@) && final(m)@ == tagged(m@)
                &&& r is None && endpoint is Some ==> outputs(final(out)@).len() > outputs(
                    out@,
                ).len() && outputs(final(out)@)[outputs(out@).len() as int]
                    == UasCommandView::ReleaseEndpoint(endpoint->0)
                &&& r is None ==> !final(m)@.cancelled.contains_key(seq![req@.branch->0])
            },
{
}

/// Media that was not asked for leads nowhere; without an endpoint the INVITE is
/// refused; a refused offer releases its endpoint; an accepted one is kept with
/// its endpoint and address.
pub proof fn offers_are_negotiated()
    ensures
        forall|
            m: &mut UasServer,
            out: &mut Vec<UasCommand>,
            req: &RequestSummary,
            reply: MediaReply,
            clock: u32,
            peer: &str,
            now: &Moment,
            r: Result<Option<NegotiatedMedia>, ()>,
        |
            #[trigger] call_ensures(
                UasServer::negotiate_initial_offer,
                (m, out, req, reply, clock, peer, now),
                r,
            ) ==> {
                &&& reply is NotAsked ==> r == Ok::<Option<NegotiatedMedia>, ()>(None) && final(m)@
                    == m@
                &&& reply is NoEndpoint ==> r is Err
                &&& reply matches MediaReply::Negotiated { endpoint, local, outcome } ==> {
                    &&& r is Ok <==> outcome is Accepted
                    &&& r is Ok ==> (r matches Ok(Some(n)) && n.endpoint == endpoint && n.local@
                        == local@ && final(m)@ == m@)
                    &&& r is Err ==> outputs(final(out)@).len() > outputs(out@).len() && outputs(
                        final(out)@,
                    )[outputs(out@).len() as int] == UasCommandView::ReleaseEndpoint(endpoint)
                }
            },
{
}

/// Rebuilt bridges join both dialogs; where that failed neither is bridged.
pub proof fn rebuilt_bridges_join_both()
    ensures
        forall|m: &mut UasServer, d: &DialogKey, p: &DialogKey, bridge: Option<u64>|
            #[trigger] call_ensures(UasServer::bridge_rebuilt, (m, d, p, bridge), ()) ==> {
                let (a, b) = (dialog_path(*d), dialog_path(*p));
                &&& bridge matches Some(x) ==> final(m)@.bridges.contains_key(a) && final(
                    m)@.bridges[a] == x && final(m)@.bridges.contains_key(b) && final(m)@.bridges[b]
                    == x
                &&& bridge is None ==> !final(m)@.bridges.contains_key(a) && !final(
                    m)@.bridges.contains_key(b)
                &&& final(m)@.dialogs == m@.dialogs
            },
{
}

/// A response goes to its transaction, to the subscriber of its branch, or, where
/// it has no branch, nowhere.
pub proof fn responses_are_routed()
    ensures
        forall|m: &mut UasServer, out: &mut Vec<UasCommand>, bytes: Vec<u8>, r: ResponseRoute|
            #[trigger] call_ensures(UasServer::route_response, (m, out, bytes), r) ==> {
                let target = response_target(m@, bytes@);
                &&& r is Transaction <==> target is Some
                &&& r is Dropped <==> message_branch(bytes@) is None
                &&& r matches ResponseRoute::Subscriber(b) ==> message_branch(bytes@) == Some(b@)
                &&& target is None ==> final(m)@ == m@ && outputs(final(out)@) == outputs(out@)
                &&& target matches Some(key) ==> final(m)@.slots == table_after(
                    m@.slots,
                    path(key),
                    EventView::ResponseReceived { status: status_or_zero(bytes@), bytes: bytes@ },
                ).0
            },
{
}

/// A source beyond its rate is not even read; without a limit every message is.
pub proof fn limited_sources_are_not_read()
    ensures
        forall|m: &mut SipRateLimiter, source: &str, now: u64, bytes: &[u8], r: Ingress|
            #[trigger] call_ensures(ingress_at, (m, source, now, bytes), r) ==> {
                &&& m.rate() == 0 ==> r !is Limited
                &&& m.rate() != 0 ==> (r is Limited <==> !passage(
                    m.buckets(),
                    source@,
                    m.rate(),
                    m.bucket_depth(),
                    now,
                ).1)
                &&& r matches Ingress::Request(req) ==> req.raw@ == bytes@
            },
{
}

/// What is configured where nothing is said.
pub proof fn configurations_have_defaults(
    h: HttpAuthConfig,
    c: ConnLimits,
    l: SipRateLimit,
    t: SessionTimerConfig,
    p: SipProxyConfig,
)
    requires
        call_ensures(<HttpAuthConfig as Default>::default, (), h),
        call_ensures(<ConnLimits as Default>::default, (), c),
        call_ensures(<SipRateLimit as Default>::default, (), l),
        call_ensures(<SessionTimerConfig as Default>::default, (), t),
        call_ensures(<SipProxyConfig as Default>::default, (), p),
    ensures
        h.timeout == 2_000 && h.retries == 1 && h.breaker_threshold == 5 && h.breaker_cooldown
            == 30_000 && h.failure_mode is FailClosed && h.bearer_token is None,
        c.max_connections == 1024 && c.idle_timeout == Some(300_000u64),
        l.per_sec == 0 && l.burst == 0,
        t.enabled && t.default_expires == 1_800_000 && t.min_se == 90_000,
        p.mode is Direct && p.address is None && p.username is None && p.password is None,
{
}

/// The tokens on the wire.
pub proof fn tokens_are(kind: WtSignalKind)
    ensures
        kind is SessionInit ==> kind_token(kind) == "session-init"@,
        kind is SessionAck ==> kind_token(kind) == "session-ack"@,
        kind is Offer ==> kind_token(kind) == "offer"@,
        kind is Answer ==> kind_token(kind) == "answer"@,
        kind is IceCandidate ==> kind_token(kind) == "ice-candidate"@,
        kind is IceEnd ==> kind_token(kind) == "ice-end"@,
        kind is Bye ==> kind_token(kind) == "bye"@,
        kind is Error ==> kind_token(kind) == "error"@,
        kind is Echo ==> kind_token(kind) == "echo"@,
        magic_text() == "smiths-net/dialog-snapshot"@,
        SNAPSHOT_VERSION == 1,
{
}

/// A target that cannot be called is named in its refusal.
pub proof fn refusals_name_the_target(target: Seq<char>)
    ensures
        ends_with(refusal(target), bare_target(target) + "`"@),
{
    let tail = bare_target(target) + "`"@;
    lemma_ends("expected sip: scheme, got `"@, tail);
    assert(refusal(target) =~= "expected sip: scheme, got `"@ + tail);
}

/// Records that are taken over are there afterwards, each under its identity,
/// and can be asked for; of several with one identity the last one counts.
pub proof fn taken_over_dialogs_are_found()
    ensures
        forall|m: &mut UasServer, records: Vec<DialogRecord>, n: usize, i: int|
            #![trigger call_ensures(UasServer::restore_dialogs, (m, records), n), records@[i]]
            call_ensures(UasServer::restore_dialogs, (m, records), n) && 0 <= i < records@.len() && (
            forall|j: int|
                i < j < records@.len() ==> (#[trigger] records@[j])@.path() != records@[i]@.path())
                ==> {
                let p = records@[i]@.path();
                &&& n == records@.len()
                &&& final(m)@.dialogs.contains_key(p)
                &&& final(m)@.dialogs[p] == records@[i]@
            },
        forall|m: &mut UasServer, d: &DialogKey, r: Option<DialogRecord>|
            #[trigger] call_ensures(UasServer::dialog, (m, d), r) ==> {
                &&& r is Some <==> m@.dialogs.contains_key(dialog_path(*d))
                &&& r matches Some(x) ==> x@ == m@.dialogs[dialog_path(*d)]
                &&& final(m)@ == m@
            },
{
    assert forall|m: &mut UasServer, records: Vec<DialogRecord>, n: usize, i: int|
        #![trigger call_ensures(UasServer::restore_dialogs, (m, records), n), records@[i]]
        call_ensures(UasServer::restore_dialogs, (m, records), n) && 0 <= i < records@.len() && (
        forall|j: int|
            i < j < records@.len() ==> (#[trigger] records@[j])@.path() != records@[i]@.path())
        implies {
        let p = records@[i]@.path();
        &&& n == records@.len()
        &&& final(m)@.dialogs.contains_key(p)
        &&& final(m)@.dialogs[p] == records@[i]@
    } by {
        let all = record_views(records@);
        assert forall|j: int| i < j < all.len() implies (#[trigger] all[j]).path()
            != all[i].path() by {
            assert(all[j] == records@[j]@ && all[i] == records@[i]@);
        }
        restored_dialogs_are_there(m@.dialogs, all, i, all[i].path());
    }
}

/// The address to publish is the configured one where there is one, else that of
/// the socket.
pub proof fn configured_addresses_are_published(
    s: &UasServer,
    bind_ip: &str,
    wildcard: bool,
    v6: bool,
    plan: LocalIpPlan,
)
    requires
        call_ensures(UasServer::effective_local_ip, (s, bind_ip, wildcard, v6), plan),
    ensures
        s@.settings.sdp_advertise_ip matches Some(ip) ==> (plan matches LocalIpPlan::Bound(b) && b@
            == ip),
        s@.settings.sdp_advertise_ip is None && !wildcard ==> (plan matches LocalIpPlan::Bound(b)
            && b@ == bind_ip@),
        s@.settings.sdp_advertise_ip is None && wildcard ==> plan is AskRoute,
{
}

} // verus!
