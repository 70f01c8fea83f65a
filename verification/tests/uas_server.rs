//! The answering side as a whole.

use smiths_sip::auth::digest::{AuthError, Registrar};
use smiths_sip::auth::{
    Credentials, InMemoryCredentialStore, InMemoryRegistrationStore, RegistrationStore,
};
use smiths_sip::rate_limit::{SipRateLimit, SipRateLimiter};
use smiths_sip::record::{DialogKey, DialogState, MediaAddr};
use smiths_sip::transport::LocalIpPlan;
use smiths_sip::txn::{DialogEvent, DriverCommand, Role, TimerId, TransactionKey};
use smiths_sip::uas::offer::{
    negotiate_body, reject_offer, AcceptedOffer, BridgeLeg, LegMedia, NegotiationOutcome,
    OfferError,
};
use smiths_sip::uas::retransmit::{Invite2xxSchedule, WakeStep};
use smiths_sip::uas::server::attach::{AttachPlan, MediaAttachment, PairStep, TranscodeReply, Tried};
use smiths_sip::uas::server::dispatch::{InternalEvent, Route};
use smiths_sip::uas::server::ingress::{ingress, ingress_at, Ingress, ResponseRoute};
use smiths_sip::uas::server::invite::{MediaReply, NegotiatedMedia};
use smiths_sip::uas::server::register::{
    binding_for, digest_authenticate, outcome_of, persist_register_binding, store_registration,
    AuthOutcome, BindingStep,
};
use smiths_sip::uas::server::update::{
    check_cseq, CseqVerdict, LegStep, MediaPlan, Renegotiation,
};
use smiths_sip::uas::server::{server_txn_key, Moment, UasCommand};
use smiths_sip::uas::session_timer::{
    expiry_nanos, negotiate_session_timer, secs_u32, SessionTimerAgreement,
};
use smiths_sip::uas::summary::{summarize_request, RequestSummary};
use smiths_sip::{SessionTimerConfig, UasServer};

const PEER: &str = "10.0.0.1:5060";
const NOW: Moment = Moment { nanos: 7, unix: 1_000 };

fn server() -> UasServer {
    UasServer::new("127.0.0.1:5060", "UDP", false, 0)
}

fn request(method: &str, branch: &str, call: &str, to_tag: &str, cseq: u32, extra: &str) -> RequestSummary {
    let to_tag = if to_tag.is_empty() {
        String::new()
    } else {
        format!(";tag={to_tag}")
    };
    let raw = format!(
        "{method} sip:room-1@engine SIP/2.0\r\n\
         Via: SIP/2.0/UDP {PEER};branch={branch}\r\n\
         From: <sip:bob@x>;tag=from-{call}\r\n\
         To: <sip:room-1@engine>{to_tag}\r\n\
         Call-ID: {call}\r\n\
         CSeq: {cseq} {method}\r\n\
         Contact: <sip:bob@10.0.0.1>\r\n\
         {extra}\r\n"
    );
    summarize_request(raw.as_bytes())
}

fn sdp_request(method: &str, branch: &str, call: &str, to_tag: &str, cseq: u32) -> RequestSummary {
    request(
        method,
        branch,
        call,
        to_tag,
        cseq,
        "Content-Type: application/sdp\r\n\r\nv=0\r\n",
    )
}

/// What goes to the wire.
fn sent(out: &[UasCommand]) -> Vec<String> {
    let mut all = Vec::new();
    for c in out {
        match c {
            UasCommand::Send { bytes, .. } => all.push(bytes.clone()),
            UasCommand::Txn { commands, .. } => {
                for d in commands {
                    if let DriverCommand::Send(b) = d {
                        all.push(b.clone());
                    }
                }
            }
            _ => {}
        }
    }
    all.into_iter().map(|b| String::from_utf8(b).unwrap()).collect()
}

fn take_in(s: &mut UasServer, req: &RequestSummary) -> (bool, Vec<UasCommand>) {
    let mut out = Vec::new();
    let goes_on = s.admit_request(&mut out, req, PEER, &NOW);
    (goes_on, out)
}

fn media(endpoint: u64, port: u16) -> NegotiatedMedia {
    NegotiatedMedia {
        endpoint,
        local: MediaAddr { host: "127.0.0.1".into(), port: 40_000 },
        offer: offer(port),
    }
}

fn offer(port: u16) -> AcceptedOffer {
    AcceptedOffer {
        answer_body: "v=0\r\nanswer\r\n".into(),
        remote_media: Some(MediaAddr { host: "10.0.0.1".into(), port }),
        remote_rtcp: None,
        srtp: None,
        audio_codec: Some("PCMU".into()),
        clock_rate: 8_000,
        video_codec: None,
        ice: None,
    }
}

/// Takes an INVITE all the way to its 200. Returns the dialog and what was
/// done.
fn establish(
    s: &mut UasServer,
    branch: &str,
    call: &str,
    media: Option<NegotiatedMedia>,
) -> (DialogKey, Vec<UasCommand>) {
    let req = sdp_request("INVITE", branch, call, "", 1);
    let (goes_on, mut out) = take_in(s, &req);
    assert!(goes_on);
    assert!(s.open_invite(&mut out, &req, PEER, &NOW));
    let admitted = s.admit_invite(&mut out, &req, None, PEER, &NOW).unwrap();
    let tag = s.settle_invite(&mut out, &req, None, PEER, &NOW).unwrap();
    let dialog = (admitted.call_id, tag, admitted.remote_tag);
    s.establish_dialog(&mut out, &req, &dialog, &media, admitted.timer, PEER, &NOW);
    (dialog, out)
}

// -- plain requests ----------------------------------------------------

#[test]
fn options_are_answered() {
    let mut s = server();
    let req = request("OPTIONS", "b1", "c1", "", 1, "");
    let (goes_on, mut out) = take_in(&mut s, &req);
    assert!(goes_on);
    assert_eq!(s.handle_request(&mut out, &req, PEER, &NOW), Route::Options);
    let wire = sent(&out);
    assert_eq!(wire.len(), 1);
    assert!(wire[0].starts_with("SIP/2.0 200 OK\r\n"));
    assert!(wire[0].contains("To: <sip:room-1@engine>;tag=smiths-0000000000000000-0000000000000007\r\n"));
}

#[test]
fn unknown_methods_are_refused_with_the_allowed_ones() {
    let mut s = server();
    let req = request("SUBSCRIBE", "b1", "c1", "", 1, "");
    let (_, mut out) = take_in(&mut s, &req);
    assert_eq!(s.handle_request(&mut out, &req, PEER, &NOW), Route::Unknown);
    let wire = sent(&out);
    assert!(wire[0].starts_with("SIP/2.0 405 Method Not Allowed\r\n"));
    assert!(wire[0].contains("Allow: INVITE, ACK, CANCEL, BYE, OPTIONS, REGISTER, UPDATE\r\n"));
}

#[test]
fn repeated_requests_get_the_same_answer_and_go_no_further() {
    let mut s = server();
    let req = request("OPTIONS", "b1", "c1", "", 1, "");
    let (_, mut out) = take_in(&mut s, &req);
    s.handle_request(&mut out, &req, PEER, &NOW);
    let first = sent(&out);
    let (goes_on, again) = take_in(&mut s, &req);
    assert!(!goes_on);
    assert_eq!(sent(&again), first);
}

#[test]
fn requests_without_a_branch_are_answered_straight() {
    let mut s = server();
    let raw = b"OPTIONS sip:x SIP/2.0\r\nCall-ID: c\r\n\r\n";
    let req = summarize_request(raw);
    let (goes_on, mut out) = take_in(&mut s, &req);
    assert!(goes_on);
    assert!(out.is_empty());
    s.handle_request(&mut out, &req, PEER, &NOW);
    assert!(matches!(&out[0], UasCommand::Send { peer, .. } if peer == PEER));
}

// -- calls -------------------------------------------------------------

#[test]
fn an_invite_establishes_a_dialog() {
    let mut s = server().with_max_call_duration(Some(5_000));
    let (dialog, out) = establish(&mut s, "b1", "c1", Some(media(5, 30_000)));
    let wire = sent(&out);
    assert_eq!(wire.len(), 2);
    assert!(wire[0].starts_with("SIP/2.0 100 Trying\r\n"));
    assert!(wire[1].starts_with("SIP/2.0 200 OK\r\n"));
    assert!(wire[1].contains("Contact: <sip:smiths@127.0.0.1:5060>\r\n"));
    assert!(wire[1].contains("Content-Type: application/sdp\r\n"));
    assert!(wire[1].ends_with("\r\n\r\nv=0\r\nanswer\r\n"));
    let record = s.dialog(&dialog).unwrap();
    assert_eq!(record.state, DialogState::Early);
    assert_eq!(record.remote_target.as_deref(), Some("sip:bob@10.0.0.1"));
    assert_eq!(record.media, Some(5));
    assert_eq!(record.pending_2xx.unwrap(), wire[1].as_bytes());
    assert!(out.iter().any(|c| matches!(c, UasCommand::Retransmit { .. })));
    assert!(out.iter().any(|c| matches!(c, UasCommand::ArmGuard { after: 5_000, .. })));
    assert!(out
        .iter()
        .any(|c| matches!(c, UasCommand::Created { endpoint: Some(5), .. })));
}

#[test]
fn the_same_invite_again_is_dropped() {
    let mut s = server();
    establish(&mut s, "b1", "c1", None);
    let again = sdp_request("INVITE", "b1", "c1", "", 1);
    let (goes_on, out) = take_in(&mut s, &again);
    assert!(!goes_on);
    assert!(out.is_empty());
    let other = sdp_request("INVITE", "b2", "c1", "", 2);
    assert!(take_in(&mut s, &other).0);
}

#[test]
fn an_ack_confirms_and_stops_the_repetition() {
    let mut s = server();
    let (dialog, _) = establish(&mut s, "b1", "c1", None);
    let ack = request("ACK", "b-ack", "c1", &dialog.1, 1, "");
    let (goes_on, mut out) = take_in(&mut s, &ack);
    assert!(goes_on);
    assert_eq!(s.handle_request(&mut out, &ack, PEER, &NOW), Route::Ack);
    assert!(out.iter().any(|c| matches!(c, UasCommand::StopRetransmit(_))));
    let record = s.dialog(&dialog).unwrap();
    assert_eq!(record.state, DialogState::Confirmed);
    assert!(record.pending_2xx.is_none());
    let mut out = Vec::new();
    s.handle_internal(&mut out, &InternalEvent::AckTimeout(dialog.clone()), &NOW);
    assert!(out.is_empty());
    assert!(s.has_dialog(&dialog));
}

#[test]
fn a_bye_ends_the_call() {
    let mut s = server().with_cdr_store();
    let (dialog, _) = establish(&mut s, "b1", "c1", Some(media(5, 30_000)));
    let bye = request("BYE", "b-bye", "c1", &dialog.1, 2, "");
    let (_, mut out) = take_in(&mut s, &bye);
    let later = Moment { nanos: 8, unix: 1_060 };
    s.handle_request(&mut out, &bye, PEER, &later);
    assert!(sent(&out)[0].starts_with("SIP/2.0 200 OK\r\n"));
    assert!(!s.has_dialog(&dialog));
    assert!(out.iter().any(|c| matches!(c, UasCommand::ReleaseEndpoint(5))));
    let cdr = out
        .iter()
        .find_map(|c| match c {
            UasCommand::Cdr(r) => Some(r),
            _ => None,
        })
        .unwrap();
    assert_eq!(cdr.duration_secs, 60);
    assert_eq!(cdr.result, "answered");
    assert_eq!(cdr.from_uri, "sip:bob@x");
    // Once more: there is no such dialog.
    let again = request("BYE", "b-bye2", "c1", &dialog.1, 3, "");
    let (_, mut out) = take_in(&mut s, &again);
    s.handle_request(&mut out, &again, PEER, &later);
    assert!(sent(&out)[0].starts_with("SIP/2.0 481 Call/Transaction Does Not Exist\r\n"));
    // And one that names no dialog.
    let bare = request("BYE", "b-bye3", "c1", "", 4, "");
    let (_, mut out) = take_in(&mut s, &bare);
    s.handle_request(&mut out, &bare, PEER, &later);
    assert!(sent(&out)[0].starts_with("SIP/2.0 400 Bad Request\r\n"));
}

#[test]
fn clocks_that_go_back_yield_no_negative_duration() {
    let mut s = server().with_cdr_store();
    let (dialog, _) = establish(&mut s, "b1", "c1", None);
    let mut out = Vec::new();
    let earlier = Moment { nanos: 0, unix: 900 };
    s.end_call(&mut out, &dialog, DialogEvent::ByeCompleted, "max_duration", &earlier);
    assert!(out
        .iter()
        .any(|c| matches!(c, UasCommand::Cdr(r) if r.duration_secs == 0)));
}

#[test]
fn a_pending_invite_is_cancelled_with_one_tag() {
    let mut s = server();
    let invite = sdp_request("INVITE", "b1", "c1", "", 1);
    take_in(&mut s, &invite);
    let cancel = request("CANCEL", "b1", "c1", "", 1, "");
    let (goes_on, out) = take_in(&mut s, &cancel);
    assert!(!goes_on);
    let answer = sent(&out);
    assert!(answer[0].starts_with("SIP/2.0 200 OK\r\n"));
    assert!(s.invite_was_cancelled(&invite));
    let mut out = Vec::new();
    assert!(!s.open_invite(&mut out, &invite, PEER, &NOW));
    let refused = sent(&out);
    assert!(refused[0].starts_with("SIP/2.0 487 Request Terminated\r\n"));
    let tag = |m: &str| m[m.find("engine>;tag=").unwrap()..].lines().next().unwrap().to_owned();
    assert_eq!(tag(&answer[0]), tag(&refused[0]));
    assert!(!s.invite_was_cancelled(&invite));
}

#[test]
fn a_cancel_during_negotiation_releases_the_media() {
    let mut s = server();
    let invite = sdp_request("INVITE", "b1", "c1", "", 1);
    let (_, mut out) = take_in(&mut s, &invite);
    assert!(s.open_invite(&mut out, &invite, PEER, &NOW));
    assert!(s.admit_invite(&mut out, &invite, None, PEER, &NOW).is_some());
    take_in(&mut s, &request("CANCEL", "b1", "c1", "", 1, ""));
    let mut out = Vec::new();
    assert!(s.settle_invite(&mut out, &invite, Some(5), PEER, &NOW).is_none());
    assert!(matches!(out[0], UasCommand::ReleaseEndpoint(5)));
    assert!(sent(&out)[0].starts_with("SIP/2.0 487"));
}

#[test]
fn a_late_cancel_has_no_effect() {
    let mut s = server();
    let (dialog, _) = establish(&mut s, "b1", "c1", None);
    let cancel = request("CANCEL", "b1", "c1", "", 1, "");
    let (goes_on, mut out) = take_in(&mut s, &cancel);
    assert!(goes_on);
    s.handle_request(&mut out, &cancel, PEER, &NOW);
    assert!(sent(&out)[0].starts_with("SIP/2.0 200 OK\r\n"));
    assert!(s.has_dialog(&dialog));
    let stray = request("CANCEL", "b9", "c1", "", 1, "");
    let (_, mut out) = take_in(&mut s, &stray);
    s.handle_request(&mut out, &stray, PEER, &NOW);
    assert!(sent(&out)[0].starts_with("SIP/2.0 481"));
    // After a failure of the INVITE.
    let mut s = server();
    let invite = sdp_request("INVITE", "b1", "c1", "", 1);
    let (_, mut out) = take_in(&mut s, &invite);
    s.set_draining(true);
    s.open_invite(&mut out, &invite, PEER, &NOW);
    let (goes_on, out) = take_in(&mut s, &request("CANCEL", "b1", "c1", "", 1, ""));
    assert!(!goes_on);
    assert!(sent(&out)[0].starts_with("SIP/2.0 200 OK\r\n"));
    assert!(!s.invite_was_cancelled(&invite));
}

#[test]
fn draining_refuses_new_calls() {
    let mut s = server();
    s.set_draining(true);
    let invite = sdp_request("INVITE", "b1", "c1", "", 1);
    let (_, mut out) = take_in(&mut s, &invite);
    assert!(!s.open_invite(&mut out, &invite, PEER, &NOW));
    let wire = sent(&out);
    assert!(wire[0].starts_with("SIP/2.0 503 Service Unavailable\r\n"));
    assert!(wire[0].contains("Retry-After: 0\r\n"));
}

#[test]
fn invites_without_identifiers_are_refused() {
    let mut s = server();
    let raw = b"INVITE sip:x SIP/2.0\r\nVia: SIP/2.0/UDP h;branch=b\r\nCall-ID: c\r\n\r\n";
    let req = summarize_request(raw);
    let (_, mut out) = take_in(&mut s, &req);
    assert!(s.admit_invite(&mut out, &req, None, PEER, &NOW).is_none());
    let wire = sent(&out);
    assert!(wire[0].starts_with("SIP/2.0 100 Trying\r\n"));
    assert!(wire[1].starts_with("SIP/2.0 400 Bad Request\r\n"));
}

#[test]
fn invites_must_authenticate() {
    let mut s = server();
    let req = sdp_request("INVITE", "b1", "c1", "", 1);
    let (_, mut out) = take_in(&mut s, &req);
    let challenge = AuthOutcome::Challenge("Digest realm=\"r\"".into());
    assert!(s.admit_invite(&mut out, &req, Some(challenge), PEER, &NOW).is_none());
    let wire = sent(&out);
    assert!(wire[0].starts_with("SIP/2.0 401 Unauthorized\r\n"));
    assert!(wire[0].contains("WWW-Authenticate: Digest realm=\"r\"\r\n"));
    let mut s = server();
    let (_, mut out) = take_in(&mut s, &req);
    assert!(s.admit_invite(&mut out, &req, Some(AuthOutcome::Failed), PEER, &NOW).is_none());
    assert!(sent(&out)[0].starts_with("SIP/2.0 500 Server Internal Error\r\n"));
    let mut s = server();
    let (_, mut out) = take_in(&mut s, &req);
    let known = AuthOutcome::Authenticated("alice".into());
    assert!(s.admit_invite(&mut out, &req, Some(known), PEER, &NOW).is_some());
}

#[test]
fn refused_offers_are_answered_by_their_reason() {
    let cases = [
        (NegotiationOutcome::Mismatch, "SIP/2.0 488 Not Acceptable Here\r\n"),
        (
            NegotiationOutcome::UnsupportedTransport { reason: "UDP/TLS".into() },
            "SIP/2.0 488 Not Acceptable Here\r\n",
        ),
        (NegotiationOutcome::Malformed("x".into()), "SIP/2.0 400 Bad Request\r\n"),
    ];
    for (outcome, line) in cases {
        let warned = matches!(outcome, NegotiationOutcome::UnsupportedTransport { .. });
        let mut s = server();
        let req = sdp_request("INVITE", "b1", "c1", "", 1);
        let (_, mut out) = take_in(&mut s, &req);
        let reply = MediaReply::Negotiated {
            endpoint: 5,
            local: MediaAddr { host: "127.0.0.1".into(), port: 1 },
            outcome,
        };
        assert!(s
            .negotiate_initial_offer(&mut out, &req, reply, 8_000, PEER, &NOW)
            .is_err());
        assert!(out.iter().any(|c| matches!(c, UasCommand::ReleaseEndpoint(5))));
        let wire = sent(&out);
        assert!(wire[0].starts_with(line));
        assert_eq!(
            wire[0].contains("Warning: 399 smiths-net \"UDP/TLS\"\r\n"),
            warned
        );
    }
    let mut s = server();
    let req = sdp_request("INVITE", "b1", "c1", "", 1);
    let (_, mut out) = take_in(&mut s, &req);
    assert!(s
        .negotiate_initial_offer(&mut out, &req, MediaReply::NoEndpoint, 8_000, PEER, &NOW)
        .is_err());
    assert!(sent(&out)[0].starts_with("SIP/2.0 500"));
    assert!(s
        .negotiate_initial_offer(&mut out, &req, MediaReply::NotAsked, 8_000, PEER, &NOW)
        .unwrap()
        .is_none());
}

#[test]
fn accepted_offers_say_where_rtcp_goes() {
    let outcome = NegotiationOutcome::Accepted {
        answer_body: "a".into(),
        remote_media: Some(MediaAddr { host: "h".into(), port: 10 }),
        remote_rtcp_port: Some(11),
        srtp: None,
        audio_codec: None,
        audio_clock_rate: None,
        video_codec: None,
        ice: None,
    };
    let o = negotiate_body(outcome, 8_000).unwrap();
    let rtcp = o.remote_rtcp.unwrap();
    assert_eq!((rtcp.host.as_str(), rtcp.port), ("h", 11));
    assert_eq!(o.clock_rate, 8_000);
    assert_eq!(reject_offer(&OfferError::Mismatch).status, 488);
}

// -- rendezvous --------------------------------------------------------

fn leg(endpoint: u64) -> BridgeLeg {
    BridgeLeg {
        endpoint,
        peer: MediaAddr { host: "h".into(), port: 1 },
        srtp: None,
        clock_rate: 8_000,
        rtcp_peer: None,
    }
}

fn key(n: &str) -> DialogKey {
    (n.to_owned(), "l".to_owned(), "r".to_owned())
}

#[test]
fn two_callers_of_one_room_are_bridged_and_end_together() {
    let mut s = server();
    let (a, _) = establish(&mut s, "b1", "c1", Some(media(1, 30_000)));
    let (b, _) = establish(&mut s, "b2", "c2", Some(media(2, 30_002)));
    let codec = || Some("PCMU".to_owned());
    assert!(matches!(s.rendezvous_pair("room-1", &a, leg(1), codec()), PairStep::Parked));
    let first = match s.rendezvous_pair("room-1", &b, leg(2), codec()) {
        PairStep::Bridge { pending, leg } => {
            assert_eq!(pending.dialog, a);
            assert_eq!(leg.endpoint, 2);
            pending
        }
        other => panic!("{other:?}"),
    };
    assert_eq!(
        s.pair_bridged("room-1", first, &b, Some(77)).unwrap(),
        MediaAttachment::Bridged
    );
    let bye = request("BYE", "b-bye", "c1", &a.1, 2, "");
    let (_, mut out) = take_in(&mut s, &bye);
    let partner = s.handle_bye(&mut out, &bye, PEER, &NOW);
    assert_eq!(partner, Some(b.clone()));
    assert!(!s.has_dialog(&a));
    assert!(!s.has_dialog(&b));
    assert!(out.iter().any(|c| matches!(c, UasCommand::ReleaseBridge(77))));
    let (record, branch) = out
        .iter()
        .find_map(|c| match c {
            UasCommand::Bye { record, branch } => Some((record.duplicate(), branch.clone())),
            _ => None,
        })
        .unwrap();
    assert_eq!(record.call_id, "c2");
    assert_eq!(record.local_cseq, 1);
    let mut out = Vec::new();
    s.send_in_dialog_bye(&mut out, &record, &branch, "127.0.0.1:5060");
    let wire = sent(&out);
    assert!(wire[0].starts_with("BYE sip:bob@10.0.0.1 SIP/2.0\r\n"));
    assert!(wire[0].contains("CSeq: 1 BYE\r\n"));
    // Its answer finds the transaction.
    let answer = format!(
        "SIP/2.0 200 OK\r\nVia: SIP/2.0/UDP 127.0.0.1:5060;branch={branch}\r\nCSeq: 1 BYE\r\n\r\n"
    );
    let mut out = Vec::new();
    assert!(matches!(
        s.route_response(&mut out, answer.clone().into_bytes()),
        ResponseRoute::Transaction
    ));
    assert!(matches!(
        s.route_response(&mut out, answer.replace(&branch, "other").into_bytes()),
        ResponseRoute::Subscriber(b) if b == "other"
    ));
    assert!(matches!(
        s.route_response(&mut out, b"SIP/2.0 200 OK\r\n\r\n".to_vec()),
        ResponseRoute::Dropped
    ));
}

#[test]
fn pairs_that_do_not_fit_leave_the_first_waiting() {
    let mut s = server();
    let pcmu = || Some("PCMU".to_owned());
    let opus = || Some("opus".to_owned());
    s.rendezvous_pair("r", &key("a"), leg(1), pcmu());
    match s.rendezvous_pair("r", &key("b"), leg(2), opus()) {
        PairStep::Rejected(r) => {
            assert_eq!(r.status, 488);
            assert_eq!(
                r.warning.as_deref(),
                Some("399 smiths-net \"codec mismatch (PCMU vs opus) and no transcoder configured\"")
            );
        }
        other => panic!("{other:?}"),
    }
    let mut s = server().with_transcode_orchestrator();
    s.rendezvous_pair("r", &key("a"), leg(1), pcmu());
    let first = match s.rendezvous_pair("r", &key("b"), leg(2), opus()) {
        PairStep::Transcode { pending, .. } => pending,
        other => panic!("{other:?}"),
    };
    let full = s
        .try_orchestrate_transcoded("r", first, &key("b"), TranscodeReply::Refused)
        .unwrap_err();
    assert_eq!(full.status, 503);
    let req = sdp_request("INVITE", "b1", "c1", "", 1);
    let (_, mut out) = take_in(&mut s, &req);
    s.refuse_attachment(&mut out, &req, Some(2), "t", &full, PEER);
    let wire = sent(&out);
    assert!(wire[0].contains("Warning: 370 smiths-net \"transcoding capacity exhausted\"\r\n"));
    assert!(wire[0].contains("Retry-After: 5\r\n"));
    let first = match s.rendezvous_pair("r", &key("b"), leg(2), opus()) {
        PairStep::Transcode { pending, codec_a, codec_b, .. } => {
            assert_eq!((codec_a.as_str(), codec_b.as_str()), ("PCMU", "opus"));
            pending
        }
        other => panic!("{other:?}"),
    };
    assert!(s
        .try_orchestrate_transcoded("r", first, &key("b"), TranscodeReply::Session(9))
        .is_ok());
    assert!(matches!(
        s.rendezvous_pair("r", &key("c"), leg(3), pcmu()),
        PairStep::Parked
    ));
    let first = match s.rendezvous_pair("r", &key("d"), leg(4), pcmu()) {
        PairStep::Bridge { pending, .. } => pending,
        other => panic!("{other:?}"),
    };
    assert_eq!(s.pair_bridged("r", first, &key("d"), None).unwrap_err().status, 500);
}

#[test]
fn media_is_attached_in_order_of_preference() {
    let s = server()
        .with_webrtc_rendezvous()
        .with_conference_orchestrator()
        .with_conference_rooms("room-".to_owned());
    let tagged = request("INVITE", "b", "c", "", 1, "X-Smiths-Webrtc-Tag: t1\r\n");
    assert!(matches!(
        s.attach_plan(&tagged, true, Tried::Nothing),
        AttachPlan::WebRtc { tag } if tag == "t1"
    ));
    assert!(matches!(
        s.attach_plan(&tagged, true, Tried::WebRtc),
        AttachPlan::Room { room } if room == "room-1"
    ));
    assert!(matches!(
        s.attach_plan(&tagged, true, Tried::Room),
        AttachPlan::Rendezvous { room } if room == "room-1"
    ));
    assert!(matches!(
        s.attach_plan(&tagged, false, Tried::Nothing),
        AttachPlan::Nothing
    ));
    assert!(matches!(
        server().attach_plan(&tagged, true, Tried::Nothing),
        AttachPlan::Rendezvous { .. }
    ));
    let mut s = server();
    assert_eq!(s.webrtc_paired(&key("a"), Some(3)), MediaAttachment::WebRtc);
    assert_eq!(s.room_joined(&key("a"), 4), MediaAttachment::Conference);
}

// -- changes inside a dialog -------------------------------------------

#[test]
fn a_reinvite_changes_the_dialog_once() {
    let mut s = server();
    let (dialog, _) = establish(&mut s, "b1", "c1", Some(media(5, 30_000)));
    let req = sdp_request("INVITE", "b2", "c1", &dialog.1, 2);
    let (goes_on, mut out) = take_in(&mut s, &req);
    assert!(goes_on);
    assert_eq!(s.handle_request(&mut out, &req, PEER, &NOW), Route::Reinvite);
    let update = s.open_update(&mut out, &req, PEER, &NOW).unwrap();
    assert!(matches!(
        update.plan,
        MediaPlan::Existing { endpoint: 5, port: 40_000 }
    ));
    let moved = offer(30_100);
    assert!(matches!(
        s.apply_leg_media(&mut out, &dialog, 5, &moved),
        LegStep::Settled
    ));
    let reneg = Renegotiation {
        body: "v=0\r\nnew\r\n".into(),
        offer: Some(moved),
        new_endpoint: None,
    };
    s.conclude_update(&mut out, &req, &update, &reneg, PEER);
    let wire = sent(&out);
    assert!(wire[0].starts_with("SIP/2.0 200 OK\r\n"));
    assert!(wire[0].ends_with("v=0\r\nnew\r\n"));
    let record = s.dialog(&dialog).unwrap();
    assert_eq!(record.remote_cseq, Some(2));
    assert_eq!(record.remote_media.unwrap().port, 30_100);
    assert_eq!(record.last_invite_branch.as_deref(), Some("b2"));
    // The same sequence number again is out of order.
    let again = sdp_request("INVITE", "b3", "c1", &dialog.1, 2);
    let (_, mut out) = take_in(&mut s, &again);
    assert!(s.open_update(&mut out, &again, PEER, &NOW).is_none());
    assert!(sent(&out)[0].starts_with("SIP/2.0 500 Server Internal Error\r\n"));
}

#[test]
fn updates_without_an_offer_only_refresh() {
    let mut s = server();
    let (dialog, _) = establish(&mut s, "b1", "c1", Some(media(5, 30_000)));
    let req = request("UPDATE", "b2", "c1", &dialog.1, 2, "Supported: timer\r\n");
    let (_, mut out) = take_in(&mut s, &req);
    let update = s.open_update(&mut out, &req, PEER, &NOW).unwrap();
    assert!(matches!(update.plan, MediaPlan::Nothing));
    let nothing = Renegotiation {
        body: String::new(),
        offer: None,
        new_endpoint: None,
    };
    s.conclude_update(&mut out, &req, &update, &nothing, PEER);
    assert!(sent(&out)[0].contains("Session-Expires: 1800;refresher=uac\r\n"));
    assert!(!sent(&out)[0].contains("Content-Type"));
    assert!(out
        .iter()
        .any(|c| matches!(c, UasCommand::ArmSession { generation: 1, .. })));
    // A re-INVITE without an offer gets the engine's own.
    let req = request("INVITE", "b3", "c1", &dialog.1, 3, "");
    let (_, mut out) = take_in(&mut s, &req);
    let update = s.open_update(&mut out, &req, PEER, &NOW).unwrap();
    assert!(matches!(update.plan, MediaPlan::OwnOffer { port: 40_000 }));
    s.conclude_update(&mut out, &req, &update, &nothing, PEER);
    assert!(out.iter().any(|c| matches!(c, UasCommand::CancelSession(_))));
}

#[test]
fn changes_that_cannot_be_made_are_refused() {
    let mut s = server();
    let unknown = request("UPDATE", "b2", "c1", "nope", 2, "");
    let (_, mut out) = take_in(&mut s, &unknown);
    assert!(s.open_update(&mut out, &unknown, PEER, &NOW).is_none());
    assert!(sent(&out)[0].starts_with("SIP/2.0 481"));
    let (dialog, _) = establish(&mut s, "b1", "c1", None);
    let small = request(
        "UPDATE",
        "b3",
        "c1",
        &dialog.1,
        2,
        "Supported: timer\r\nSession-Expires: 30\r\n",
    );
    let (_, mut out) = take_in(&mut s, &small);
    assert!(s.open_update(&mut out, &small, PEER, &NOW).is_none());
    let wire = sent(&out);
    assert!(wire[0].starts_with("SIP/2.0 422 Session Interval Too Small\r\n"));
    assert!(wire[0].contains("Min-SE: 90\r\n"));
    let offer = sdp_request("UPDATE", "b4", "c1", &dialog.1, 3);
    let (_, mut out) = take_in(&mut s, &offer);
    let update = s.open_update(&mut out, &offer, PEER, &NOW).unwrap();
    assert!(matches!(update.plan, MediaPlan::Allocate));
    s.refuse_update_offer(
        &mut out,
        &offer,
        Some(8),
        &update.local_tag,
        &OfferError::Mismatch,
        PEER,
    );
    assert!(out.iter().any(|c| matches!(c, UasCommand::ReleaseEndpoint(8))));
    assert!(sent(&out)[0].starts_with("SIP/2.0 488"));
    let offer = sdp_request("UPDATE", "b5", "c1", &dialog.1, 4);
    let (_, mut out) = take_in(&mut s, &offer);
    s.refuse_update(&mut out, &offer, "t", PEER);
    assert!(sent(&out)[0].starts_with("SIP/2.0 500"));
    assert_eq!(check_cseq(None, Some(1)), CseqVerdict::Absent);
    assert_eq!(check_cseq(Some(1), None), CseqVerdict::Fresh);
}

#[test]
fn bridges_follow_media_that_moves() {
    let mut s = server();
    let (a, _) = establish(&mut s, "b1", "c1", Some(media(1, 30_000)));
    let (b, _) = establish(&mut s, "b2", "c2", Some(media(2, 30_002)));
    s.rendezvous_pair("room-1", &a, leg(1), None);
    let first = match s.rendezvous_pair("room-1", &b, leg(2), None) {
        PairStep::Bridge { pending, .. } => pending,
        other => panic!("{other:?}"),
    };
    s.pair_bridged("room-1", first, &b, Some(7)).unwrap();
    let mut out = Vec::new();
    assert!(matches!(
        s.apply_leg_media(&mut out, &a, 1, &offer(30_000)),
        LegStep::Settled
    ));
    assert!(out.is_empty());
    match s.apply_leg_media(&mut out, &a, 1, &offer(31_000)) {
        LegStep::Rebuild { leg, other_leg, other } => {
            assert_eq!(leg.peer.port, 31_000);
            assert_eq!(other_leg.peer.port, 30_002);
            assert_eq!(other, b);
        }
        LegStep::Settled => panic!("expected a rebuild"),
    }
    assert!(matches!(out[0], UasCommand::ReleaseBridge(7)));
    s.bridge_rebuilt(&a, &b, Some(8));
    let mut out = Vec::new();
    s.end_call(&mut out, &a, DialogEvent::ByeCompleted, "max_duration", &NOW);
    assert!(out.iter().any(|c| matches!(c, UasCommand::ReleaseBridge(8))));
    assert_eq!(s.dialog_count(), 0);
}

#[test]
fn sessions_outlast_media_that_moves_and_end_with_the_call() {
    let mut s = server();
    let (a, _) = establish(&mut s, "b1", "c1", Some(media(1, 30_000)));
    s.room_joined(&a, 4);
    let mut out = Vec::new();
    assert!(matches!(
        s.apply_leg_media(&mut out, &a, 1, &offer(31_000)),
        LegStep::Settled
    ));
    assert!(out.is_empty());
    s.end_call(&mut out, &a, DialogEvent::ByeCompleted, "max_duration", &NOW);
    assert!(out.iter().any(|c| matches!(c, UasCommand::StopSession(4))));
}

#[test]
fn legs_enter_a_bridge_once_their_peer_is_known() {
    let mut o = offer(9);
    let known = LegMedia::from_offer(1, &o);
    assert_eq!(known.bridge_leg().unwrap().peer.port, 9);
    o.remote_media = None;
    let unknown = LegMedia::from_offer(1, &o);
    assert!(unknown.bridge_leg().is_none());
    assert!(!known.same(&unknown));
    assert!(unknown.same(&LegMedia::from_offer(1, &o)));
}

// -- timers ------------------------------------------------------------

#[test]
fn missing_acks_end_the_call() {
    let mut s = server();
    let (dialog, _) = establish(&mut s, "b1", "c1", None);
    let mut out = Vec::new();
    s.handle_internal(&mut out, &InternalEvent::AckTimeout(dialog.clone()), &NOW);
    assert!(!s.has_dialog(&dialog));
    assert!(out.iter().any(|c| matches!(c, UasCommand::Bye { .. })));
    assert!(out.iter().any(|c| matches!(c, UasCommand::Ended { .. })));
}

#[test]
fn the_configured_address_is_published() {
    match server().effective_local_ip("0.0.0.0", true, false) {
        LocalIpPlan::AskRoute { loopback, .. } => assert_eq!(loopback, "127.0.0.1"),
        other => panic!("{other:?}"),
    }
    let s = server().with_sdp_advertise_ip("203.0.113.9".to_owned());
    match s.effective_local_ip("0.0.0.0", true, false) {
        LocalIpPlan::Bound(ip) => assert_eq!(ip, "203.0.113.9"),
        other => panic!("{other:?}"),
    }
}

#[test]
fn a_transaction_ends_with_its_last_timer() {
    let mut s = server();
    let mut out = Vec::new();
    let req = request("OPTIONS", "b1", "c1", "", 1, "");
    assert!(s.admit_request(&mut out, &req, PEER, &NOW));
    s.handle_request(&mut out, &req, PEER, &NOW);
    assert!(!s.admit_request(&mut out, &req, PEER, &NOW));

    let mut out = Vec::new();
    s.fire_timer(&mut out, server_txn_key("b1", "OPTIONS"), TimerId::J);
    let released = out.iter().any(|c| match c {
        UasCommand::Txn { commands, .. } => {
            commands.iter().any(|d| matches!(d, DriverCommand::Release { lingers: false }))
        }
        _ => false,
    });
    assert!(released);

    let mut out = Vec::new();
    s.fire_timer(&mut out, server_txn_key("b1", "OPTIONS"), TimerId::J);
    assert!(matches!(&out[0], UasCommand::Txn { commands, .. } if commands.is_empty()));
    assert!(s.admit_request(&mut out, &req, PEER, &NOW));
}

#[test]
fn only_the_current_session_timer_ends_the_call() {
    let mut s = server();
    let (dialog, _) = establish(&mut s, "b1", "c1", None);
    let mut out = Vec::new();
    s.arm_session_timer(&mut out, &dialog, 90);
    s.arm_session_timer(&mut out, &dialog, 90);
    let mut out = Vec::new();
    let expired = |generation| InternalEvent::SessionExpired {
        dialog: dialog.clone(),
        generation,
    };
    s.handle_internal(&mut out, &expired(1), &NOW);
    assert!(out.is_empty());
    assert_eq!(expired(1).key(), &dialog);
    s.handle_internal(&mut out, &expired(2), &NOW);
    assert!(!s.has_dialog(&dialog));
    let mut out = Vec::new();
    s.handle_internal(&mut out, &InternalEvent::MaxDurationReached(dialog.clone()), &NOW);
    assert!(out.is_empty());
}

#[test]
fn session_timers_are_negotiated() {
    let cfg = SessionTimerConfig::default();
    let with = |extra: &str| request("INVITE", "b", "c", "", 1, extra);
    let agreed = |secs| Ok(Some(SessionTimerAgreement { interval_secs: secs }));
    assert_eq!(negotiate_session_timer(&cfg, &with("")), Ok(None));
    assert_eq!(negotiate_session_timer(&cfg, &with("Supported: timer\r\n")), agreed(1800));
    assert_eq!(
        negotiate_session_timer(&cfg, &with("Supported: timer\r\nSession-Expires: 89\r\n")),
        Err(90)
    );
    assert_eq!(
        negotiate_session_timer(
            &cfg,
            &with("Supported: timer\r\nSession-Expires: 120\r\nMin-SE: 300\r\n")
        ),
        agreed(300)
    );
    assert_eq!(
        negotiate_session_timer(
            &cfg,
            &with("Supported: timer\r\nSession-Expires: 120;refresher=uas\r\n")
        ),
        Ok(None)
    );
    let off = SessionTimerConfig { enabled: false, ..cfg };
    assert_eq!(negotiate_session_timer(&off, &with("Supported: timer\r\n")), Ok(None));
    assert_eq!(secs_u32(1_999), 1);
    assert_eq!(secs_u32(u64::MAX), u32::MAX);
}

#[test]
fn sessions_end_with_headroom() {
    assert_eq!(expiry_nanos(90), 60 * 1_000_000_000);
    assert_eq!(expiry_nanos(1_800), 1_768 * 1_000_000_000);
    assert_eq!(expiry_nanos(91), 91_000_000_000 - 30_333_333_333);
}

#[test]
fn a_2xx_is_repeated_at_doubling_intervals() {
    let mut schedule = Invite2xxSchedule::new(32_000);
    let mut waits = Vec::new();
    loop {
        waits.push(schedule.wait());
        if schedule.on_wake() == WakeStep::GiveUp {
            break;
        }
    }
    assert_eq!(waits, vec![500, 1_000, 2_000, 4_000, 4_000, 4_000, 4_000, 4_000, 4_000, 4_000, 500]);
    assert_eq!(waits.iter().sum::<u64>(), 32_000);
}

#[test]
fn a_shorter_budget_gives_up_sooner() {
    let mut schedule = Invite2xxSchedule::new(400);
    assert_eq!(schedule.wait(), 400);
    assert_eq!(schedule.on_wake(), WakeStep::GiveUp);
    let s = server()
        .with_invite_2xx_timeout(400)
        .with_session_timer(SessionTimerConfig { enabled: false, default_expires: 0, min_se: 0 });
    assert_eq!(s.settings().invite_2xx_timeout, 400);
    assert!(!s.settings().session_timer.enabled);
}

// -- registration ------------------------------------------------------

#[test]
fn registers_are_answered_by_their_authentication() {
    let cases = [
        (None, "SIP/2.0 200 OK\r\n"),
        (Some(AuthOutcome::Authenticated("alice".into())), "SIP/2.0 200 OK\r\n"),
        (Some(AuthOutcome::Challenge("Digest x".into())), "SIP/2.0 401 Unauthorized\r\n"),
        (Some(AuthOutcome::Failed), "SIP/2.0 500 Server Internal Error\r\n"),
    ];
    for (auth, line) in cases {
        let mut s = server();
        let req = request("REGISTER", "b1", "c1", "", 1, "");
        let (_, mut out) = take_in(&mut s, &req);
        assert_eq!(s.handle_request(&mut out, &req, PEER, &NOW), Route::Register);
        s.handle_register(&mut out, &req, auth, PEER, &NOW);
        assert!(sent(&out)[0].starts_with(line));
    }
}

#[test]
fn bindings_last_as_long_as_the_register_says() {
    let hour = request("REGISTER", "b", "c", "", 1, "");
    match binding_for(&hour, "r", "alice", 100) {
        BindingStep::Bind(b) => {
            assert_eq!(b.aor, "sip:alice@r");
            assert_eq!(b.contact, "sip:bob@10.0.0.1");
            assert_eq!(b.expires_at_unix, 3_700);
        }
        other => panic!("{other:?}"),
    }
    let minute = request("REGISTER", "b", "c", "", 1, "Expires: 60\r\n");
    assert!(matches!(
        binding_for(&minute, "r", "alice", i64::MAX - 5),
        BindingStep::Bind(b) if b.expires_at_unix == i64::MAX
    ));
    let mut store = InMemoryRegistrationStore::new();
    persist_register_binding(&mut store, &minute, "r", "alice", 9_000_000_000);
    assert_eq!(store.lookup_bindings("sip:alice@r").unwrap().len(), 1);
    let leave = request("REGISTER", "b", "c", "", 1, "Expires: 0\r\n");
    assert!(matches!(
        persist_register_binding(&mut store, &leave, "r", "alice", 0),
        BindingStep::Unbind { .. }
    ));
    assert!(store.lookup_bindings("sip:alice@r").unwrap().is_empty());
    let bare = summarize_request(b"REGISTER sip:x SIP/2.0\r\nContact: *\r\n\r\n");
    assert!(matches!(binding_for(&bare, "r", "alice", 0), BindingStep::Skip));
}

#[test]
fn only_authenticated_registers_change_the_bindings() {
    let req = request("REGISTER", "b", "c", "", 1, "");
    let mut store = InMemoryRegistrationStore::new();
    for auth in [None, Some(AuthOutcome::Challenge("x".into())), Some(AuthOutcome::Failed)] {
        assert!(matches!(
            store_registration(&mut store, &req, &auth, "r", 9_000_000_000),
            BindingStep::Skip
        ));
        assert!(store.snapshot().unwrap().is_empty());
    }
    let auth = Some(AuthOutcome::Authenticated("alice".into()));
    store_registration(&mut store, &req, &auth, "r", 9_000_000_000);
    assert_eq!(store.lookup_bindings("sip:alice@r").unwrap()[0].contact, "sip:bob@10.0.0.1");
}

#[test]
fn accounts_that_cannot_be_reached_are_a_failure() {
    let mut reg = Registrar::new("r", ());
    let lost = Some(Err(AuthError::Backend("task".into())));
    assert!(matches!(outcome_of(&mut reg, lost), AuthOutcome::Failed));
    assert_eq!(reg.live_nonces(), 0);
    match outcome_of(&mut reg, Some(Err(AuthError::NonceReplayed))) {
        AuthOutcome::Challenge(c) => assert!(c.ends_with(", stale=true")),
        other => panic!("{other:?}"),
    }
    assert_eq!(reg.live_nonces(), 1);
}

#[test]
fn requests_without_credentials_are_challenged() {
    let mut store = InMemoryCredentialStore::new();
    store.insert(Credentials::new("alice", "r", "p"));
    let mut reg = Registrar::new("r", store);
    let req = request("REGISTER", "b", "c", "", 1, "");
    match digest_authenticate(&mut reg, &req, "REGISTER") {
        AuthOutcome::Challenge(c) => assert!(!c.contains("stale")),
        other => panic!("{other:?}"),
    }
    let bad = request("REGISTER", "b", "c", "", 1, "Authorization: Basic x\r\n");
    assert!(matches!(
        digest_authenticate(&mut reg, &bad, "REGISTER"),
        AuthOutcome::Challenge(_)
    ));
}

// -- datagrams ---------------------------------------------------------

#[test]
fn datagrams_are_told_apart() {
    let mut limiter = SipRateLimiter::disabled();
    let options = b"OPTIONS sip:a@b SIP/2.0\r\nVia: SIP/2.0/UDP h;branch=z9hG4bK1\r\nFrom: <sip:a@b>;tag=1\r\nTo: <sip:a@b>\r\nCall-ID: c\r\nCSeq: 1 OPTIONS\r\nContent-Length: 0\r\n\r\n";
    match ingress(&mut limiter, "h", options) {
        Ingress::Request(req) => assert_eq!(req.method, "OPTIONS"),
        other => panic!("{other:?}"),
    }
    let ok = b"SIP/2.0 200 OK\r\nVia: SIP/2.0/UDP h;branch=z9hG4bK1\r\nContent-Length: 0\r\n\r\n";
    assert!(matches!(ingress(&mut limiter, "h", ok), Ingress::Response));
    match ingress(&mut limiter, "h", b"garbage") {
        Ingress::Malformed(why) => assert!(!why.is_empty()),
        other => panic!("{other:?}"),
    }
    let mut tight = SipRateLimiter::new(SipRateLimit { per_sec: 1, burst: 1 });
    assert!(matches!(ingress_at(&mut tight, "h", 0, ok), Ingress::Response));
    assert!(matches!(ingress_at(&mut tight, "h", 0, ok), Ingress::Limited));
    assert!(matches!(ingress_at(&mut tight, "i", 0, ok), Ingress::Response));
}

#[test]
fn server_transactions_are_keyed_by_branch_and_method() {
    assert_eq!(
        server_txn_key("b", "BYE"),
        TransactionKey {
            branch: "b".into(),
            method: "BYE".into(),
            role: Role::Server,
        }
    );
}
