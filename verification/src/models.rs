//! Which model each function computes. What holds of the models holds of the
//! functions.

use vstd::prelude::*;
use vstd::utf8::encode_utf8;

use crate::auth::digest::{
    algorithm_named, algorithm_token, authorization_of, ha1, ha1_text, ha2, ha2_text, hex_text,
    parse_authorization, plain_response_text, qop_response_text, response_no_qop, response_qop_auth,
    Algorithm, AuthParams, AuthView,
};
use crate::auth::http_store::{
    begin, interpret, lookup_view, meaning, proceed, HttpAuthError, HttpAuthStore, LookupStep,
    WebhookReply,
};
use crate::auth::registrar::{
    accepted, challenge_text, challenge_value, count_of, expected_response, is_issued, nonce_count,
    prechecked, response_for, result_view, AuthError, Registrar,
};
use crate::auth::Credentials;
use crate::record::{dialog_path, DialogKey, DialogRecord};
use crate::text;
use crate::transport::framing::{frame, take_one_message, unframed, FrameOutcome};
use crate::transport::proxy::{
    credential_bytes, credential_texts, greeting, http_connect_request, http_connect_text,
    http_step, socks5_step, HandshakeStep, HandshakeView, HttpConnectReply, PeerAddr,
    ProxyCredentials, Socks5Handshake, Socks5Stage,
};
use crate::transport::stream::{drain_messages, drained, messages_view, read_budget, read_budget_of};
use crate::txn::ack::{build_non_ok_ack, non_ok_ack};
use crate::txn::client_invite::{new_client_invite, ClientInviteTxn};
use crate::txn::client_non_invite::{new_client_non_invite, ClientNonInviteTxn};
use crate::txn::dialog::DialogEvent;
use crate::txn::driver::{
    commands_view, fresh_slot, from_elsewhere, path, status_or_zero, table_after, CommandView,
    DriverCommand, TransactionDriver,
};
use crate::txn::machine::Machine;
use crate::txn::matching::{cseq_method, cseq_method_of, parse_status, sent_by_of, top_via_sent_by};
use crate::txn::server_invite::{new_server_invite, ServerInviteTxn};
use crate::txn::server_non_invite::{new_server_non_invite, ServerNonInviteTxn};
use crate::txn::timers::{backoff, doubling_backoff};
use crate::txn::{EventView, TimerId, Transaction, TransactionKey, TxnView};
use crate::uac::message::{
    ack_bytes, body_of, build_ack_2xx, build_bye, build_invite, bye_bytes, extract_body,
    extract_to_tag, invite_bytes, parse_reason, parse_target, reason_of, target_of, to_tag_of,
    AckFields, ByeFields, InviteFields,
};
use crate::uac::UacError;
use crate::uas::compose::{
    build_in_dialog_request, build_response, dialog_route_target, format_warning, headers_view,
    in_dialog_text, response_bytes, route_target, str_opt, warning_value, InDialogRequest,
};
use crate::uas::offer::{
    negotiate_body, offer_refusal, offer_result, reject_offer, AcceptedOffer, BridgeLeg,
    NegotiationOutcome, OfferError, OfferView, Rejection,
};
use crate::uas::parse::{
    contact_uri, extract_tag_param, extract_via_branch, first_contact_uri, header_list,
    message_branch, number_opt, parse_session_expires, response_status, ruri_user_from,
    session_expires_of, split_header_list, status_of, tag_param, uri_user, via_branch,
    via_branch_param,
};
use crate::uas::retransmit::{fresh_schedule, next_wait, wake, Invite2xxSchedule, WakeStep};
use crate::uas::server::attach::{
    attachment_view, bridged_step, pair_step, plan_of, transcoded_step, AttachPlan, MediaAttachment,
    PairStep, TranscodeReply, Tried,
};
use crate::uas::server::dispatch::{
    ack_step, handle_bye_step, not_allowed_step, request_handled, route_of, timer_step,
    InternalEvent, Route,
};
use crate::uas::server::ingress::admit_step;
use crate::uas::server::invite::{
    admit_invite_step, admitted_opt, establish_step, media_opt, open_invite_step, AdmittedInvite,
    NegotiatedMedia,
};
use crate::uas::server::register::{register_step, AuthOutcome};
use crate::uas::server::teardown::{bye_step, dialog_opt, end_step, finish_step};
use crate::uas::server::update::{
    conclude_step, open_update_opt, open_update_step, OpenUpdate, Renegotiation,
};
use crate::uas::server::{outputs, Moment, PendingLeg, UasCommand, UasServer, UasView};
use crate::uas::session_timer::{
    expiry, expiry_nanos, secs_u32, whole_seconds, SessionTimerAgreement,
};
use crate::uas::summary::{
    in_dialog_key, named_dialog, summarize_request, summary_of, RequestSummary,
};
use crate::webrtc::{frame_step, plan, session_after, session_view, FrameStep, WebRtcSession};
use crate::webtransport::{SessionIdAllocator, WtSignal};

verus! {

// ---------------------------------------------------------------------
// Reading
// ---------------------------------------------------------------------

/// What is read in a message and its headers.
pub proof fn readers_compute()
    ensures
        forall|raw: &[u8], r: RequestSummary|
            #[trigger] call_ensures(summarize_request, (raw,), r) ==> r@ == summary_of(
                text::message_text(raw@),
            ) && r.raw@ == raw@,
        forall|v: &str, r: Option<String>|
            #[trigger] call_ensures(via_branch_param, (v,), r) ==> text::text_opt(r) == via_branch(
                v@,
            ),
        forall|v: &str, r: Option<String>|
            #[trigger] call_ensures(extract_tag_param, (v,), r) ==> text::text_opt(r) == tag_param(
                v@,
            ),
        forall|v: &str, r: Option<String>|
            #[trigger] call_ensures(first_contact_uri, (v,), r) ==> text::text_opt(r)
                == contact_uri(v@),
        forall|v: &str, r: Option<String>|
            #[trigger] call_ensures(ruri_user_from, (v,), r) ==> text::text_opt(r) == uri_user(v@),
        forall|v: &str, r: Vec<String>|
            #[trigger] call_ensures(split_header_list, (v,), r) ==> text::texts(r@) == header_list(
                v@,
            ),
        forall|v: &str, r: (Option<u32>, Option<String>)|
            #[trigger] call_ensures(parse_session_expires, (v,), r) ==> (
                number_opt(r.0),
                text::text_opt(r.1),
            ) == session_expires_of(v@),
        forall|b: &[u8], r: Option<String>|
            #[trigger] call_ensures(extract_via_branch, (b,), r) ==> text::text_opt(r)
                == message_branch(b@),
        forall|b: &[u8], r: Option<String>|
            #[trigger] call_ensures(cseq_method, (b,), r) ==> text::text_opt(r) == cseq_method_of(
                b@,
            ),
        forall|b: &[u8], r: Option<String>|
            #[trigger] call_ensures(top_via_sent_by, (b,), r) ==> text::text_opt(r) == sent_by_of(
                b@,
            ),
        forall|b: &[u8], r: Option<u16>|
            #[trigger] call_ensures(response_status, (b,), r) ==> (match r {
                Some(s) => status_of(b@) == Some(s as nat),
                None => status_of(b@) is None,
            }),
        forall|b: &[u8], r: Option<u16>|
            #[trigger] call_ensures(parse_status, (b,), r) ==> (match r {
                Some(s) => status_of(b@) == Some(s as nat),
                None => status_of(b@) is None,
            }),
        forall|b: &[u8], r: String|
            #[trigger] call_ensures(parse_reason, (b,), r) ==> r@ == reason_of(b@),
        forall|b: &[u8], r: Option<String>|
            #[trigger] call_ensures(extract_to_tag, (b,), r) ==> text::text_opt(r) == to_tag_of(b@),
        forall|b: &[u8], r: String|
            #[trigger] call_ensures(extract_body, (b,), r) ==> r@ == body_of(b@),
        forall|t: &str, r: Result<(String, String), UacError>|
            #[trigger] call_ensures(parse_target, (t,), r) ==> (match r {
                Ok(p) => target_of(t@) == Some((p.0@, p.1@)),
                Err(_) => target_of(t@) is None,
            }),
        forall|req: &RequestSummary, r: Option<DialogKey>|
            #[trigger] call_ensures(in_dialog_key, (req,), r) ==> dialog_opt(r) == named_dialog(
                req@,
            ),
        forall|req: &RequestSummary, r: Route|
            #[trigger] call_ensures(crate::uas::server::dispatch::route, (req,), r) ==> r
                == route_of(*req),
{
}

/// What comes off a stream.
pub proof fn streams_compute()
    ensures
        forall|buf: &mut Vec<u8>, r: FrameOutcome|
            #[trigger] call_ensures(take_one_message, (buf,), r) ==> r@ == frame(buf@) && final(
                buf)@ == unframed(buf@),
        forall|buf: &mut Vec<u8>, r: (Vec<Vec<u8>>, bool)|
            #[trigger] call_ensures(drain_messages, (buf,), r) ==> (
                messages_view(r.0@),
                final(buf)@,
                r.1,
            ) == drained(buf@),
        forall|limit: Option<u64>, idle: u64, r: Option<u64>|
            #[trigger] call_ensures(read_budget, (limit, idle), r) ==> r == read_budget_of(
                limit,
                idle,
            ),
{
}

// ---------------------------------------------------------------------
// Writing
// ---------------------------------------------------------------------

/// What is written: responses, requests inside dialogs, ACKs of rejections and
/// warnings.
pub proof fn writers_compute(f: &InDialogRequest<'_>, sent: Vec<u8>)
    ensures
        call_ensures(build_in_dialog_request, (f,), sent) ==> sent@ == encode_utf8(
            in_dialog_text(f.method@, f.record@, f.via_sent_by@, f.via_transport@, f.branch@),
        ),
        forall|
            request: &[u8],
            status: u16,
            reason: &str,
            tag: Option<&str>,
            extras: &[(&str, &str)],
            body: &[u8],
            r: Vec<u8>,
        |
            #[trigger] call_ensures(
                build_response,
                (request, status, reason, tag, extras, body),
                r,
            ) ==> r@ == response_bytes(
                text::message_text(request@),
                status,
                reason@,
                str_opt(tag),
                headers_view(extras@),
                body@,
            ),
        forall|record: &DialogRecord, r: (String, Vec<String>)|
            #[trigger] call_ensures(dialog_route_target, (record,), r) ==> (
                r.0@,
                text::texts(r.1@),
            ) == route_target(record@),
        forall|invite: &[u8], response: &[u8], r: Option<Vec<u8>>|
            #[trigger] call_ensures(build_non_ok_ack, (invite, response), r) ==> (match r {
                Some(b) => non_ok_ack(invite@, response@) == Some(b@),
                None => non_ok_ack(invite@, response@) is None,
            }),
        forall|code: u16, message: &str, r: String|
            #[trigger] call_ensures(format_warning, (code, message), r) ==> r@ == warning_value(
                code,
                message@,
            ),
{
}

/// What is written for an outbound call.
pub proof fn callers_compute(
    i: InviteFields<'_>,
    invite: Vec<u8>,
    a: AckFields<'_>,
    ack: Vec<u8>,
    b: ByeFields<'_>,
    bye: Vec<u8>,
)
    requires
        call_ensures(build_invite, (i,), invite),
        call_ensures(build_ack_2xx, (a,), ack),
        call_ensures(build_bye, (b,), bye),
    ensures
        invite@ == invite_bytes(i),
        ack@ == ack_bytes(a),
        bye@ == bye_bytes(b),
{
}

// ---------------------------------------------------------------------
// Authentication
// ---------------------------------------------------------------------

/// What digests are made of, and what credentials say.
pub proof fn digests_compute()
    ensures
        forall|alg: Algorithm, user: &str, realm: &str, password: &str, r: String|
            #[trigger] call_ensures(ha1, (alg, user, realm, password), r) ==> r@ == ha1_text(
                alg,
                user@,
                realm@,
                password@,
            ),
        forall|alg: Algorithm, method: &str, uri: &str, r: String|
            #[trigger] call_ensures(ha2, (alg, method, uri), r) ==> r@ == ha2_text(
                alg,
                method@,
                uri@,
            ),
        forall|alg: Algorithm, a: &str, nonce: &str, nc: &str, cnonce: &str, b: &str, r: String|
            #[trigger] call_ensures(response_qop_auth, (alg, a, nonce, nc, cnonce, b), r) ==> r@
                == qop_response_text(alg, a@, nonce@, nc@, cnonce@, b@),
        forall|alg: Algorithm, a: &str, nonce: &str, b: &str, r: String|
            #[trigger] call_ensures(response_no_qop, (alg, a, nonce, b), r) ==> r@
                == plain_response_text(alg, a@, nonce@, b@),
        forall|alg: Algorithm, c: &Credentials, p: &AuthParams, method: &str, r: String|
            #[trigger] call_ensures(response_for, (alg, c, p, method), r) ==> r@
                == expected_response(alg, c@, p@, method@),
        forall|value: &str, r: Option<AuthParams>|
            #[trigger] call_ensures(parse_authorization, (value,), r) ==> (match r {
                Some(p) => authorization_of(value@) == Some(p@),
                None => authorization_of(value@) is None,
            }),
        forall|p: &AuthParams, r: Option<u32>|
            #[trigger] call_ensures(nonce_count, (p,), r) ==> r == count_of(p@),
        forall|realm: &str, nonce: &str, alg: Algorithm, stale: bool, r: String|
            #[trigger] call_ensures(challenge_value, (realm, nonce, alg, stale), r) ==> r@
                == challenge_text(realm@, nonce@, alg, stale),
        forall|token: &str, r: Option<Algorithm>|
            #[trigger] call_ensures(Algorithm::parse, (token,), r) ==> r == algorithm_named(token@),
        forall|alg: Algorithm, r: &'static str|
            #[trigger] call_ensures(Algorithm::as_str, (alg,), r) ==> r@ == algorithm_token(alg),
{
}

// ---------------------------------------------------------------------
// The server
// ---------------------------------------------------------------------

/// How the server takes requests and timers.
pub proof fn server_takes_requests()
    ensures
        forall|
            m: &mut UasServer,
            out: &mut Vec<UasCommand>,
            req: &RequestSummary,
            peer: &str,
            now: &Moment,
            r: bool,
        |
            #[trigger] call_ensures(UasServer::admit_request, (m, out, req, peer, now), r) ==> {
                let (s, c, goes_on) = admit_step(m@, *req, peer@, *now);
                final(m)@ == s && outputs(final(out)@) == outputs(out@) + c && r == goes_on
            },
        forall|
            m: &mut UasServer,
            out: &mut Vec<UasCommand>,
            req: &RequestSummary,
            peer: &str,
            now: &Moment,
            r: Route,
        |
            #[trigger] call_ensures(UasServer::handle_request, (m, out, req, peer, now), r)
                ==> exists|c: Seq<crate::uas::server::UasCommandView>| #[trigger]
                request_handled(m@, *req, peer@, *now, final(m)@, c) && outputs(final(out)@)
                    == outputs(out@) + c,
        forall|m: &mut UasServer, out: &mut Vec<UasCommand>, req: &RequestSummary|
            #[trigger] call_ensures(UasServer::handle_ack, (m, out, req), ()) ==> {
                let (s, c) = ack_step(m@, *req);
                final(m)@ == s && outputs(final(out)@) == outputs(out@) + c
            },
        forall|
            m: &mut UasServer,
            out: &mut Vec<UasCommand>,
            req: &RequestSummary,
            peer: &str,
            now: &Moment,
            r: Option<DialogKey>,
        |
            #[trigger] call_ensures(UasServer::handle_bye, (m, out, req, peer, now), r) ==> {
                let (s, c) = handle_bye_step(m@, *req, dialog_opt(r), peer@, *now);
                final(m)@ == s && outputs(final(out)@) == outputs(out@) + c
            },
        forall|
            m: &mut UasServer,
            out: &mut Vec<UasCommand>,
            req: &RequestSummary,
            auth: Option<AuthOutcome>,
            peer: &str,
            now: &Moment,
        |
            #[trigger] call_ensures(UasServer::handle_register, (m, out, req, auth, peer, now), ())
                ==> {
                let (s, c) = register_step(m@, *req, auth, peer@, *now);
                final(m)@ == s && outputs(final(out)@) == outputs(out@) + c
            },
        forall|
            m: &mut UasServer,
            out: &mut Vec<UasCommand>,
            req: &RequestSummary,
            peer: &str,
            now: &Moment,
        |
            #[trigger] call_ensures(UasServer::refuse_method, (m, out, req, peer, now), ()) ==> {
                let (s, c) = not_allowed_step(m@, *req, peer@, *now);
                final(m)@ == s && outputs(final(out)@) == outputs(out@) + c
            },
        forall|
            m: &mut UasServer,
            out: &mut Vec<UasCommand>,
            event: &InternalEvent,
            now: &Moment,
            r: Option<DialogKey>,
        |
            #[trigger] call_ensures(UasServer::handle_internal, (m, out, event, now), r) ==> {
                let (s, c) = timer_step(m@, *event, dialog_opt(r), *now);
                final(m)@ == s && outputs(final(out)@) == outputs(out@) + c
            },
        forall|m: &mut UasServer, out: &mut Vec<UasCommand>, key: TransactionKey, id: TimerId|
            #[trigger] call_ensures(UasServer::fire_timer, (m, out, key, id), ()) ==> final(m)@
                == (UasView {
                slots: table_after(m@.slots, path(key@), EventView::TimerFired(id)).0,
                ..m@
            }),
{
}

/// How the server opens, changes and ends calls.
pub proof fn server_runs_calls()
    ensures
        forall|
            m: &mut UasServer,
            out: &mut Vec<UasCommand>,
            req: &RequestSummary,
            peer: &str,
            now: &Moment,
            r: bool,
        |
            #[trigger] call_ensures(UasServer::open_invite, (m, out, req, peer, now), r) ==> {
                let (s, c, goes_on) = open_invite_step(m@, *req, peer@, *now);
                final(m)@ == s && outputs(final(out)@) == outputs(out@) + c && r == goes_on
            },
        forall|
            m: &mut UasServer,
            out: &mut Vec<UasCommand>,
            req: &RequestSummary,
            auth: Option<AuthOutcome>,
            peer: &str,
            now: &Moment,
            r: Option<AdmittedInvite>,
        |
            #[trigger] call_ensures(UasServer::admit_invite, (m, out, req, auth, peer, now), r)
                ==> {
                let (s, c, admitted) = admit_invite_step(m@, *req, auth, peer@, *now);
                final(m)@ == s && outputs(final(out)@) == outputs(out@) + c && admitted_opt(r)
                    == admitted
            },
        forall|
            m: &mut UasServer,
            out: &mut Vec<UasCommand>,
            req: &RequestSummary,
            dialog: &DialogKey,
            media: &Option<NegotiatedMedia>,
            timer: Option<SessionTimerAgreement>,
            peer: &str,
            now: &Moment,
        |
            #[trigger] call_ensures(
                UasServer::establish_dialog,
                (m, out, req, dialog, media, timer, peer, now),
                (),
            ) ==> {
                let (s, c) = establish_step(
                    m@,
                    *req,
                    *dialog,
                    media_opt(*media),
                    timer,
                    peer@,
                    *now,
                );
                final(m)@ == s && outputs(final(out)@) == outputs(out@) + c
            },
        forall|
            m: &mut UasServer,
            out: &mut Vec<UasCommand>,
            req: &RequestSummary,
            peer: &str,
            now: &Moment,
            r: Option<OpenUpdate>,
        |
            #[trigger] call_ensures(UasServer::open_update, (m, out, req, peer, now), r) ==> {
                let (s, c, opened) = open_update_step(m@, *req, peer@, *now);
                final(m)@ == s && outputs(final(out)@) == outputs(out@) + c && open_update_opt(r)
                    == opened
            },
        forall|
            m: &mut UasServer,
            out: &mut Vec<UasCommand>,
            req: &RequestSummary,
            update: &OpenUpdate,
            reneg: &Renegotiation,
            peer: &str,
        |
            #[trigger] call_ensures(
                UasServer::conclude_update,
                (m, out, req, update, reneg, peer),
                (),
            ) ==> {
                let (s, c) = conclude_step(
                    m@,
                    *req,
                    dialog_path(update.dialog),
                    update.local_tag@,
                    reneg@,
                    update.timer,
                    peer@,
                );
                final(m)@ == s && outputs(final(out)@) == outputs(out@) + c
            },
        forall|
            m: &mut UasServer,
            out: &mut Vec<UasCommand>,
            dialog: &DialogKey,
            event: DialogEvent,
            result: &str,
            now: &Moment,
            r: Option<DialogKey>,
        |
            #[trigger] call_ensures(UasServer::end_call, (m, out, dialog, event, result, now), r)
                ==> {
                let (s, c) = end_step(
                    m@,
                    dialog_path(*dialog),
                    event,
                    result@,
                    dialog_opt(r),
                    *now,
                );
                final(m)@ == s && outputs(final(out)@) == outputs(out@) + c
            },
        forall|
            m: &mut UasServer,
            out: &mut Vec<UasCommand>,
            dialog: &DialogKey,
            call_id: &str,
            result: &str,
            now: &Moment,
        |
            #[trigger] call_ensures(
                UasServer::finish_teardown,
                (m, out, dialog, call_id, result, now),
                (),
            ) ==> {
                let (s, c) = finish_step(m@, dialog_path(*dialog), call_id@, result@, *now);
                final(m)@ == s && outputs(final(out)@) == outputs(out@) + c
            },
        forall|
            m: &mut UasServer,
            out: &mut Vec<UasCommand>,
            record: &DialogRecord,
            branch: &str,
            sent_by: &str,
        |
            #[trigger] call_ensures(
                UasServer::send_in_dialog_bye,
                (m, out, record, branch, sent_by),
                (),
            ) ==> {
                let (s, c) = bye_step(m@, record@, branch@, sent_by@);
                final(m)@ == s && outputs(final(out)@) == outputs(out@) + c
            },
{
}

// ---------------------------------------------------------------------
// Media
// ---------------------------------------------------------------------

/// How the media of a call finds the rest of it.
pub proof fn server_connects_media()
    ensures
        forall|m: &UasServer, req: &RequestSummary, has_leg: bool, tried: Tried, r: AttachPlan|
            #[trigger] call_ensures(UasServer::attach_plan, (m, req, has_leg, tried), r) ==> r@
                == plan_of(m@.settings, *req, has_leg, tried),
        forall|
            m: &mut UasServer,
            room: &str,
            dialog: &DialogKey,
            leg: BridgeLeg,
            codec: Option<String>,
            r: PairStep,
        |
            #[trigger] call_ensures(UasServer::rendezvous_pair, (m, room, dialog, leg, codec), r)
                ==> (final(m)@, r@) == pair_step(
                m@,
                room@,
                dialog_path(*dialog),
                leg@,
                text::text_opt(codec),
            ),
        forall|
            m: &mut UasServer,
            room: &str,
            first: PendingLeg,
            dialog: &DialogKey,
            bridge: Option<u64>,
            r: Result<MediaAttachment, Rejection>,
        |
            #[trigger] call_ensures(UasServer::pair_bridged, (m, room, first, dialog, bridge), r)
                ==> (final(m)@, attachment_view(r)) == bridged_step(
                m@,
                room@,
                first@,
                dialog_path(*dialog),
                bridge,
            ),
        forall|
            m: &mut UasServer,
            room: &str,
            first: PendingLeg,
            dialog: &DialogKey,
            reply: TranscodeReply,
            r: Result<MediaAttachment, Rejection>,
        |
            #[trigger] call_ensures(
                UasServer::try_orchestrate_transcoded,
                (m, room, first, dialog, reply),
                r,
            ) ==> (final(m)@, attachment_view(r)) == transcoded_step(
                m@,
                room@,
                first@,
                dialog_path(*dialog),
                reply,
            ),
        forall|m: &mut UasServer, dialog: &DialogKey, bridge: Option<u64>, r: MediaAttachment|
            #[trigger] call_ensures(UasServer::webrtc_paired, (m, dialog, bridge), r) ==> {
                &&& r is WebRtc
                &&& bridge matches Some(b) ==> final(m)@.bridges.contains_key(dialog_path(*dialog))
                    && final(m)@.bridges[dialog_path(*dialog)] == b
                &&& bridge is None ==> final(m)@ == m@
            },
        forall|m: &mut UasServer, dialog: &DialogKey, session: u64, r: MediaAttachment|
            #[trigger] call_ensures(UasServer::room_joined, (m, dialog, session), r) ==> {
                &&& r is Conference
                &&& final(m)@.sessions.contains_key(dialog_path(*dialog))
                &&& final(m)@.sessions[dialog_path(*dialog)] == session
                &&& final(m)@.dialogs == m@.dialogs
            },
        forall|outcome: NegotiationOutcome, clock: u32, r: Result<AcceptedOffer, OfferError>|
            #[trigger] call_ensures(negotiate_body, (outcome, clock), r) ==> (match r {
                Ok(o) => offer_result(outcome, clock) == Ok::<OfferView, OfferError>(o@),
                Err(e) => offer_result(outcome, clock) == Err::<OfferView, OfferError>(e),
            }),
        forall|e: &OfferError, r: Rejection|
            #[trigger] call_ensures(reject_offer, (e,), r) ==> r@ == offer_refusal(*e),
{
}

/// How long to wait, and for how long a session lasts.
pub proof fn schedules_compute()
    ensures
        forall|budget: u64, r: Invite2xxSchedule|
            #[trigger] call_ensures(Invite2xxSchedule::new, (budget,), r) ==> r@ == fresh_schedule(
                budget,
            ),
        forall|s: &Invite2xxSchedule, r: u64|
            #[trigger] call_ensures(Invite2xxSchedule::wait, (s,), r) ==> r == next_wait(s@),
        forall|s: &mut Invite2xxSchedule, r: WakeStep|
            #[trigger] call_ensures(Invite2xxSchedule::on_wake, (s,), r) ==> (final(s)@, r) == wake(
                s@,
            ),
        forall|secs: u32, r: u64|
            #[trigger] call_ensures(expiry_nanos, (secs,), r) ==> r == expiry(secs),
        forall|d: u64, r: u32|
            #[trigger] call_ensures(secs_u32, (d,), r) ==> r == whole_seconds(d),
        forall|attempt: u32, max: u64, r: u64|
            #[trigger] call_ensures(doubling_backoff, (attempt, max), r) ==> r == backoff(
                attempt as nat,
                max as nat,
            ),
{
}

/// How a registrar decides.
pub proof fn registrars_compute<S>()
    ensures
        forall|
            g: &Registrar<S>,
            uri: &str,
            header: &str,
            now: u64,
            r: Result<(AuthParams, Algorithm), AuthError>,
        |
            #[trigger] call_ensures(Registrar::<S>::precheck_at, (g, uri, header, now), r) ==> (
            match r {
                Ok(p) => Ok::<(AuthView, Algorithm), AuthError>((p.0@, p.1)),
                Err(e) => Err(e),
            }) == prechecked(g.nonces(), g.realm_text(), uri@, header@, now, g.lifetime()),
        forall|
            g: &mut Registrar<S>,
            p: AuthParams,
            expected: &str,
            now: u64,
            r: Result<String, AuthError>,
        |
            #[trigger] call_ensures(Registrar::<S>::accept_at, (g, p, expected, now), r) ==> (
                final(g).nonces(),
                result_view(r),
            ) == accepted(g.nonces(), p@, expected@, now, g.lifetime()),
        forall|
            g: &mut Registrar<S>,
            p: AuthParams,
            alg: Algorithm,
            method: &str,
            c: &Credentials,
            now: u64,
            r: Result<String, AuthError>,
        |
            #[trigger] call_ensures(Registrar::<S>::finish_at, (g, p, alg, method, c, now), r) ==> (
                final(g).nonces(),
                result_view(r),
            ) == accepted(
                g.nonces(),
                p@,
                expected_response(alg, c@, p@, method@),
                now,
                g.lifetime(),
            ),
        forall|g: &mut Registrar<S>, random: &[u8], now: u64, r: String|
            #[trigger] call_ensures(Registrar::<S>::issue_nonce_at, (g, random, now), r) ==> r@
                == hex_text(random@) && is_issued(
                g.stock(),
                final(g).stock(),
                r@,
                now,
                g.lifetime(),
                g.cap(),
            ),
{
}

/// How the webhook is asked.
pub proof fn webhooks_compute()
    ensures
        forall|
            reply: WebhookReply,
            realm: &str,
            user: &str,
            r: Result<Option<Credentials>, HttpAuthError>,
        |
            #[trigger] call_ensures(interpret, (reply, realm, user), r) ==> lookup_view(r)
                == meaning(reply, realm@, user@),
        forall|s: &HttpAuthStore, now: u64, r: LookupStep|
            #[trigger] call_ensures(HttpAuthStore::start_at, (s, now), r) ==> r@ == begin(
                s.breaker(),
                s.settings().failure_mode,
                now,
            ),
        forall|
            s: &mut HttpAuthStore,
            attempt: u8,
            outcome: Result<Option<Credentials>, HttpAuthError>,
            now: u64,
            r: LookupStep,
        |
            #[trigger] call_ensures(HttpAuthStore::after_attempt, (s, attempt, outcome, now), r)
                ==> (final(s).breaker(), r@) == proceed(
                s.breaker(),
                s.settings().retries,
                attempt,
                lookup_view(outcome),
                now,
            ),
{
}

/// How a proxy is spoken to, and what a browser's frame calls for.
pub proof fn handshakes_compute()
    ensures
        forall|h: &mut Socks5Handshake, b: &[u8], r: HandshakeStep|
            #[trigger] call_ensures(Socks5Handshake::on_bytes, (h, b), r) ==> (
                final(h).stage(),
                r@,
            ) == socks5_step(h.stage(), h.credentials(), h.peer(), b@),
        forall|
            credentials: Option<ProxyCredentials>,
            peer: PeerAddr,
            r: (Socks5Handshake, HandshakeStep),
        |
            #[trigger] call_ensures(Socks5Handshake::start, (credentials, peer), r) ==> {
                &&& r.0.stage() == Socks5Stage::Method
                &&& r.0.peer() == peer
                &&& r.0.credentials() == credential_bytes(credentials)
                &&& r.1@ == (HandshakeView::Send { bytes: greeting(credentials is Some), want: 2 })
            },
        forall|h: &mut HttpConnectReply, b: u8, r: HandshakeStep|
            #[trigger] call_ensures(HttpConnectReply::on_byte, (h, b), r) ==> r@ == http_step(h@, b)
                && final(h)@ == h@.push(b),
        forall|host_port: &str, credentials: &Option<ProxyCredentials>, r: Vec<u8>|
            #[trigger] call_ensures(http_connect_request, (host_port, credentials), r) ==> r@
                == encode_utf8(http_connect_text(host_port@, credential_texts(*credentials))),
        forall|
            session: &mut Option<WebRtcSession>,
            ids: &mut SessionIdAllocator,
            f: WtSignal,
            r: FrameStep,
        |
            #[trigger] call_ensures(frame_step, (session, ids, f), r) ==> {
                &&& r@ == plan(session_view(*session), ids@, f@)
                &&& session_view(*final(session)) == session_after(
                    session_view(*session),
                    ids@,
                    f@,
                )
                &&& f@ is SessionInit ==> final(ids)@ == ids@.wrapping_add(1)
                &&& f@ !is SessionInit ==> final(ids)@ == ids@
            },
{
}

// ---------------------------------------------------------------------
// Transactions
// ---------------------------------------------------------------------

/// How the table of transactions takes what arrives: each event goes to the
/// transaction that its key names; a response of another method, and a request
/// of another sender, go nowhere.
pub proof fn drivers_compute()
    ensures
        forall|
            d: &mut TransactionDriver,
            key: &TransactionKey,
            status: u16,
            bytes: Vec<u8>,
            r: Vec<DriverCommand>,
        |
            #[trigger] call_ensures(
                TransactionDriver::send_response,
                (d, key, status, bytes),
                r,
            ) ==> (final(d).slots(), commands_view(r@)) == table_after(
                d.slots(),
                path(key@),
                EventView::SendResponseFromTu { status, bytes: bytes@ },
            ),
        forall|
            d: &mut TransactionDriver,
            key: &TransactionKey,
            bytes: Vec<u8>,
            r: Vec<DriverCommand>,
        |
            #[trigger] call_ensures(TransactionDriver::on_response, (d, key, bytes), r) ==> {
                let named = cseq_method_of(bytes@);
                &&& named is Some && named->0 != key@.method ==> final(d).slots() == d.slots()
                    && r@.len() == 0
                &&& named is None || named->0 == key@.method ==> (
                    final(d).slots(),
                    commands_view(r@),
                ) == table_after(
                    d.slots(),
                    path(key@),
                    EventView::ResponseReceived { status: status_or_zero(bytes@), bytes: bytes@ },
                )
            },
        forall|
            d: &mut TransactionDriver,
            key: &TransactionKey,
            method: String,
            bytes: Vec<u8>,
            r: Vec<DriverCommand>,
        |
            #[trigger] call_ensures(
                TransactionDriver::deliver_request,
                (d, key, method, bytes),
                r,
            ) ==> {
                let stranger = from_elsewhere(d.slots(), path(key@), bytes@);
                &&& stranger ==> final(d).slots() == d.slots() && r@.len() == 0
                &&& !stranger ==> (final(d).slots(), commands_view(r@)) == table_after(
                    d.slots(),
                    path(key@),
                    EventView::RequestReceived { method: method@, bytes: bytes@ },
                )
            },
        forall|
            d: &mut TransactionDriver,
            key: &TransactionKey,
            id: TimerId,
            r: Vec<DriverCommand>,
        |
            #[trigger] call_ensures(TransactionDriver::fire_timer, (d, key, id), r) ==> (
                final(d).slots(),
                commands_view(r@),
            ) == table_after(d.slots(), path(key@), EventView::TimerFired(id)),
        forall|d: &mut TransactionDriver, machine: Machine, r: Vec<DriverCommand>|
            #[trigger] call_ensures(TransactionDriver::start_client, (d, machine), r) ==> {
                let place = path(machine.model().key);
                let slot = fresh_slot(machine.flavor(), machine.model(), d.reliable(), None);
                (final(d).slots(), commands_view(r@)) == table_after(
                    d.slots().insert(place, slot),
                    place,
                    EventView::StartClient,
                )
            },
        forall|d: &mut TransactionDriver, machine: Machine, r: Vec<DriverCommand>|
            #[trigger] call_ensures(TransactionDriver::start_server, (d, machine), r) ==> {
                let place = path(machine.model().key);
                &&& final(d).slots().contains_key(place)
                &&& final(d).slots()[place].txn == (TxnView {
                    reliable: d.reliable(),
                    ..machine.model()
                })
                &&& commands_view(r@) == seq![CommandView::CountUp]
            },
{
    assert forall|
        d: &mut TransactionDriver,
        key: &TransactionKey,
        bytes: Vec<u8>,
        r: Vec<DriverCommand>,
    |
        #[trigger] call_ensures(TransactionDriver::on_response, (d, key, bytes), r) implies {
        let named = cseq_method_of(bytes@);
        &&& named is Some && named->0 != key@.method ==> final(d).slots() == d.slots() && r@.len()
            == 0
        &&& named is None || named->0 == key@.method ==> (final(d).slots(), commands_view(r@))
            == table_after(
            d.slots(),
            path(key@),
            EventView::ResponseReceived { status: status_or_zero(bytes@), bytes: bytes@ },
        )
    } by {
        assert(commands_view(r@).len() == r@.len());
    }
    assert forall|
        d: &mut TransactionDriver,
        key: &TransactionKey,
        method: String,
        bytes: Vec<u8>,
        r: Vec<DriverCommand>,
    |
        #[trigger] call_ensures(TransactionDriver::deliver_request, (d, key, method, bytes), r)
        implies {
        let stranger = from_elsewhere(d.slots(), path(key@), bytes@);
        &&& stranger ==> final(d).slots() == d.slots() && r@.len() == 0
        &&& !stranger ==> (final(d).slots(), commands_view(r@)) == table_after(
            d.slots(),
            path(key@),
            EventView::RequestReceived { method: method@, bytes: bytes@ },
        )
    } by {
        assert(commands_view(r@).len() == r@.len());
    }
}

/// How each transaction begins.
pub proof fn transactions_begin(branch: &str, method: &str, request: Vec<u8>)
    ensures
        forall|t: ClientInviteTxn|
            #[trigger] call_ensures(ClientInviteTxn::new, (branch, request), t) ==> t.model()
                == new_client_invite(branch@, request@),
        forall|t: ClientNonInviteTxn|
            #[trigger] call_ensures(ClientNonInviteTxn::new, (branch, method, request), t)
                ==> t.model() == new_client_non_invite(branch@, method@, request@),
        forall|t: ServerInviteTxn|
            #[trigger] call_ensures(ServerInviteTxn::new, (branch,), t) ==> t.model()
                == new_server_invite(branch@),
        forall|t: ServerNonInviteTxn|
            #[trigger] call_ensures(ServerNonInviteTxn::new, (branch, method), t) ==> t.model()
                == new_server_non_invite(branch@, method@),
{
}

} // verus!
