//! Outbound calls: placing them, and hanging them up.
//!
//! A call is placed in two steps. `place_call` yields the INVITE to run through
//! a client transaction; `call_answered` takes what the transaction led to.
//! Hanging up works alike, with `hangup` and `hangup_answered`.

use vstd::prelude::*;

use crate::table::{key1, Table};
use crate::text;
use crate::txn::client_invite::new_client_invite;
use crate::txn::client_non_invite::new_client_non_invite;
use crate::txn::driver::TuEvent;
use crate::txn::driver::TuView;
use crate::txn::is_provisional;
use crate::txn::timers::Millis;
use crate::txn::{ClientInviteTxn, ClientNonInviteTxn, Transaction};

pub mod ids;
pub mod message;
pub mod wording;

use ids::{branch_text, call_id_text, fresh_tag_text, IdSource};
use message::{
    body_of, build_ack_2xx, build_bye, build_invite, dialog_request, extract_body, extract_to_tag,
    parse_reason, parse_target, reason_of, refusal, target_of, to_tag_of, AckFields, ByeFields,
    InviteFields,
};

verus! {

/// How long a call waits for its final response by default.
pub const DEFAULT_DEADLINE: Millis = 30_000;

/// Why a call failed.
#[derive(Debug)]
pub enum UacError {
    /// The target is no URI that can be called.
    InvalidTarget(String),
    /// The transport failed.
    Io(String),
    /// The peer refused.
    Rejected {
        /// Status code.
        status: u16,
        /// Reason phrase.
        reason: String,
    },
    /// There is no such call.
    NotFound(String),
    /// No final response came.
    Timeout {
        /// How long was waited, in milliseconds.
        millis: u64,
    },
    /// Anything else.
    Internal(String),
}

/// The message of an error.
pub open spec fn uac_error_text(e: UacError) -> Seq<char> {
    match e {
        UacError::InvalidTarget(m) => "invalid target uri: "@ + m@,
        UacError::Io(m) => "transport: "@ + m@,
        UacError::Rejected { status, reason } => "peer rejected: "@ + text::decimal(status as nat)
            + " "@ + reason@,
        UacError::NotFound(m) => "no dialog for call id "@ + m@,
        UacError::Timeout { millis } => "response timeout after "@ + text::decimal(millis as nat)
            + " ms"@,
        UacError::Internal(m) => m@,
    }
}

impl UacError {
    /// The message of the error.
    pub fn message(&self) -> (r: String)
        ensures
            r@ == uac_error_text(*self),
    {
        match self {
            UacError::InvalidTarget(m) => {
                let mut s: String = "invalid target uri: ".to_owned();
                s.append(m);
                s
            },
            UacError::Io(m) => {
                let mut s: String = "transport: ".to_owned();
                s.append(m);
                s
            },
            UacError::Rejected { status, reason } => {
                let mut s: String = "peer rejected: ".to_owned();
                s.append(&text::decimal_string(*status as u64));
                s.append(" ");
                s.append(reason);
                s
            },
            UacError::NotFound(m) => {
                let mut s: String = "no dialog for call id ".to_owned();
                s.append(m);
                s
            },
            UacError::Timeout { millis } => {
                let mut s: String = "response timeout after ".to_owned();
                s.append(&text::decimal_string(*millis));
                s.append(" ms");
                s
            },
            UacError::Internal(m) => m.clone(),
        }
    }
}

/// Why a call failed, as the callers of the engine see it.
#[derive(Debug)]
pub enum CallError {
    /// The target is no URI that can be called.
    InvalidTarget(String),
    /// The peer refused.
    Rejected {
        /// Status code.
        status: u16,
        /// Reason phrase.
        reason: String,
    },
    /// There is no such call.
    NotFound(String),
    /// No final response came.
    Timeout {
        /// How long was waited, in milliseconds.
        millis: u64,
    },
    /// Anything else.
    Internal(String),
}

impl From<UacError> for CallError {
    fn from(e: UacError) -> (r: Self) {
        match e {
            UacError::InvalidTarget(m) => CallError::InvalidTarget(m),
            UacError::Rejected { status, reason } => CallError::Rejected { status, reason },
            UacError::NotFound(m) => CallError::NotFound(m),
            UacError::Timeout { millis } => CallError::Timeout { millis },
            UacError::Io(m) => CallError::Internal(m),
            UacError::Internal(m) => CallError::Internal(m),
        }
    }
}

impl vstd::std_specs::convert::FromSpecImpl<UacError> for CallError {
    open spec fn obeys_from_spec() -> bool {
        true
    }

    open spec fn from_spec(e: UacError) -> CallError {
        match e {
            UacError::InvalidTarget(m) => CallError::InvalidTarget(m),
            UacError::Rejected { status, reason } => CallError::Rejected { status, reason },
            UacError::NotFound(m) => CallError::NotFound(m),
            UacError::Timeout { millis } => CallError::Timeout { millis },
            UacError::Io(m) => CallError::Internal(m),
            UacError::Internal(m) => CallError::Internal(m),
        }
    }
}

// ---------------------------------------------------------------------
// Waiting for a final response
// ---------------------------------------------------------------------

/// What a transaction's word means to a caller that awaits a final response.
#[derive(Debug)]
pub enum AwaitStep {
    /// Keep waiting.
    Wait,
    /// The final response.
    Final {
        /// Status code.
        status: u16,
        /// Raw response.
        bytes: Vec<u8>,
    },
    /// The transaction ended without one.
    Failed(UacError),
}

/// Reads one word of a transaction: provisional responses are waited out, any
/// other response is final, and an end before it is a timeout.
pub fn on_tu_event(event: TuEvent) -> (r: AwaitStep)
    ensures
        match event@ {
            TuView::Response { status, bytes } => if is_provisional(status) {
                r is Wait
            } else {
                r matches AwaitStep::Final { status: s, bytes: b } && s == status && b@ == bytes
            },
            TuView::Terminated => r == AwaitStep::Failed(UacError::Timeout { millis: u64::MAX }),
        },
{
    match event {
        TuEvent::Response { status, bytes } => if 100 <= status && status < 200 {
            AwaitStep::Wait
        } else {
            AwaitStep::Final { status, bytes }
        },
        TuEvent::Terminated => AwaitStep::Failed(UacError::Timeout { millis: u64::MAX }),
    }
}

// ---------------------------------------------------------------------
// The client
// ---------------------------------------------------------------------

/// An established outbound call.
#[derive(Debug)]
pub struct UacDialog {
    /// Call-ID.
    pub call_id: String,
    /// The engine's tag.
    pub local_tag: String,
    /// The peer's tag.
    pub remote_tag: String,
    /// The URI that was called.
    pub target_uri: String,
    /// Where the peer is, `host:port`.
    pub peer: String,
    /// Where the engine sends from, `host:port`.
    pub local_sip_addr: String,
    /// Sequence number of the next request.
    pub next_cseq: u32,
    /// Media endpoint of the call.
    pub endpoint_id: u64,
}

/// A call whose INVITE is under way.
#[derive(Debug)]
pub struct CallAttempt {
    /// Call-ID.
    pub call_id: String,
    /// The engine's tag.
    pub local_tag: String,
    /// The URI that is called.
    pub target_uri: String,
    /// Where the INVITE goes, `host:port`.
    pub peer: String,
    /// `Via` branch of the INVITE.
    pub branch: String,
    /// The INVITE.
    pub invite: Vec<u8>,
    /// Media endpoint of the call.
    pub endpoint_id: u64,
}

impl CallAttempt {
    /// The transaction that carries the INVITE.
    pub fn transaction(&self) -> (r: ClientInviteTxn)
        ensures
            r.model() == new_client_invite(self.branch@, self.invite@),
    {
        ClientInviteTxn::new(&self.branch, text::copy_bytes(&self.invite))
    }
}

/// What became of a call.
#[derive(Debug)]
pub enum CallOutcome {
    /// It is established.
    Connected {
        /// Call-ID.
        call_id: String,
        /// The ACK to send to the peer.
        ack: Vec<u8>,
        /// The peer's SDP answer.
        answer: String,
    },
    /// It failed.
    Failed {
        /// Why.
        error: UacError,
        /// The media endpoint to release, if any.
        release: Option<u64>,
    },
}

/// A hang-up whose BYE is under way.
#[derive(Debug)]
pub struct HangupAttempt {
    /// Call-ID.
    pub call_id: String,
    /// Where the BYE goes, `host:port`.
    pub peer: String,
    /// `Via` branch of the BYE.
    pub branch: String,
    /// The BYE.
    pub bye: Vec<u8>,
    /// Media endpoint of the call.
    pub endpoint_id: u64,
}

impl HangupAttempt {
    /// The transaction that carries the BYE.
    pub fn transaction(&self) -> (r: ClientNonInviteTxn)
        ensures
            r.model() == new_client_non_invite(self.branch@, "BYE"@, self.bye@),
    {
        ClientNonInviteTxn::new(&self.branch, "BYE", text::copy_bytes(&self.bye))
    }
}

/// The `Contact` of the engine at `addr`.
pub open spec fn contact_of(addr: Seq<char>) -> Seq<char> {
    "<sip:smiths@"@ + addr + ">"@
}

pub(crate) fn contact_string(addr: &str) -> (r: String)
    ensures
        r@ == contact_of(addr@),
{
    let mut s: String = "<sip:smiths@".to_owned();
    s.append(addr);
    s.append(">");
    s
}

/// `d` is the dialog that `attempt` led to, with a peer that chose the tag
/// `remote_tag`. The INVITE had sequence number 1.
pub open spec fn dialog_from(
    attempt: CallAttempt,
    remote_tag: Seq<char>,
    local_sip_addr: Seq<char>,
    d: UacDialog,
) -> bool {
    &&& d.call_id@ == attempt.call_id@
    &&& d.local_tag@ == attempt.local_tag@
    &&& d.remote_tag@ == remote_tag
    &&& d.target_uri@ == attempt.target_uri@
    &&& d.peer@ == attempt.peer@
    &&& d.local_sip_addr@ == local_sip_addr
    &&& d.next_cseq == 2
    &&& d.endpoint_id == attempt.endpoint_id
}

/// The ACK that `attempt` sends for its 2xx.
pub open spec fn ack_of(
    attempt: CallAttempt,
    remote_tag: Seq<char>,
    local_sip_addr: Seq<char>,
    branch: Seq<char>,
) -> Seq<char> {
    dialog_request(
        "ACK"@,
        attempt.target_uri@,
        local_sip_addr,
        branch,
        contact_of(local_sip_addr),
        attempt.local_tag@,
        attempt.target_uri@,
        remote_tag,
        attempt.call_id@,
        1,
    )
}

/// The BYE that ends `d`.
pub open spec fn bye_of(d: UacDialog, branch: Seq<char>, call_id: Seq<char>) -> Seq<char> {
    dialog_request(
        "BYE"@,
        d.target_uri@,
        d.local_sip_addr@,
        branch,
        contact_of(d.local_sip_addr@),
        d.local_tag@,
        d.target_uri@,
        d.remote_tag@,
        call_id,
        d.next_cseq,
    )
}

/// Places and ends outbound calls.
pub struct UacClient {
    local_ip: String,
    local_sip_addr: String,
    contact: String,
    dialogs: Table<UacDialog>,
    deadline: Millis,
}

impl UacClient {
    /// Where the engine sends from, `host:port`.
    pub closed spec fn local_sip_addr(&self) -> Seq<char> {
        self.local_sip_addr@
    }

    /// The host of [`Self::local_sip_addr`].
    pub closed spec fn local_ip(&self) -> Seq<char> {
        self.local_ip@
    }

    /// The established calls by Call-ID.
    pub closed spec fn dialogs(&self) -> Map<Seq<Seq<char>>, UacDialog> {
        self.dialogs@
    }

    /// How long a call or a hang-up waits for its final response.
    pub closed spec fn patience(&self) -> Millis {
        self.deadline
    }

    /// The contact names the address, and the calls are finite in number.
    pub closed spec fn wf(&self) -> bool {
        &&& self.contact@ == contact_of(self.local_sip_addr@)
        &&& self.dialogs@.dom().finite()
    }

    /// The other settings of `self` are those of `other`.
    pub open spec fn same_settings(&self, other: &UacClient) -> bool {
        &&& self.local_sip_addr() == other.local_sip_addr()
        &&& self.local_ip() == other.local_ip()
        &&& self.patience() == other.patience()
    }

    /// A client that sends from `local_sip_addr` (`host:port`), whose host is
    /// `local_ip`.
    #[must_use]
    pub fn new(local_ip: &str, local_sip_addr: &str) -> (r: Self)
        ensures
            r.wf(),
            r.local_ip() == local_ip@,
            r.local_sip_addr() == local_sip_addr@,
            r.patience() == DEFAULT_DEADLINE,
            r.dialogs().dom() == Set::<Seq<Seq<char>>>::empty(),
    {
        UacClient {
            local_ip: local_ip.to_owned(),
            local_sip_addr: local_sip_addr.to_owned(),
            contact: contact_string(local_sip_addr),
            dialogs: Table::new(),
            deadline: DEFAULT_DEADLINE,
        }
    }

    /// The client with another time limit for calls and hang-ups.
    #[must_use]
    pub fn with_deadline(self, deadline: Millis) -> (r: Self)
        requires
            self.wf(),
        ensures
            r.wf(),
            r.patience() == deadline,
            r.local_ip() == self.local_ip(),
            r.local_sip_addr() == self.local_sip_addr(),
            r.dialogs() == self.dialogs(),
    {
        UacClient { deadline, ..self }
    }

    /// The time limit for calls and hang-ups.
    pub fn deadline(&self) -> (r: Millis)
        ensures
            r == self.patience(),
    {
        self.deadline
    }

    /// The error of a call or hang-up that ran out of time.
    pub fn timed_out(&self) -> (r: UacError)
        ensures
            r == (UacError::Timeout { millis: self.patience() }),
    {
        UacError::Timeout { millis: self.deadline }
    }

    /// Number of established calls.
    pub fn active(&self) -> (r: usize)
        requires
            self.wf(),
        ensures
            self.dialogs().dom().finite(),
            r == self.dialogs().dom().len(),
    {
        self.dialogs.len()
    }

    /// Starts a call to the SIP URI `target`, whose address resolved to
    /// `peer`. `endpoint_id` is the media endpoint of the call and `sdp_offer`
    /// describes it; `nanos` is the wall clock in nanoseconds and `subsec` its
    /// fraction of a second.
    pub fn place_call(
        &self,
        ids: &mut IdSource,
        target: &str,
        peer: &str,
        endpoint_id: u64,
        sdp_offer: &str,
        subsec: u32,
        nanos: u64,
    ) -> (r: Result<CallAttempt, UacError>)
        requires
            self.wf(),
        ensures
            match r {
                Ok(a) => {
                    &&& target_of(target@) is Some
                    &&& a.target_uri@ == (target_of(target@)->0).0
                    &&& a.call_id@ == call_id_text(old(ids).call_ids(), subsec, self.local_ip())
                    &&& a.local_tag@ == fresh_tag_text(old(ids).tags(), subsec, "uac"@)
                    &&& a.branch@ == branch_text(old(ids).branches(), nanos)
                    &&& a.peer@ == peer@
                    &&& a.endpoint_id == endpoint_id
                    &&& a.invite@ == invite_request(
                        a,
                        self.local_sip_addr(),
                        contact_of(self.local_sip_addr()),
                        sdp_offer@,
                    )
                    &&& final(ids).call_ids() == old(ids).call_ids().wrapping_add(1)
                    &&& final(ids).tags() == old(ids).tags().wrapping_add(1)
                    &&& final(ids).branches() == old(ids).branches().wrapping_add(1)
                },
                Err(e) => {
                    &&& target_of(target@) is None
                    &&& e matches UacError::InvalidTarget(m) && m@ == refusal(target@)
                    &&& *final(ids) == *old(ids)
                },
            },
    {
        let target_uri = match parse_target(target) {
            Ok(p) => p.0,
            Err(e) => {
                return Err(e);
            },
        };
        let call_id = ids.fresh_call_id(&self.local_ip, subsec);
        let local_tag = ids.fresh_tag("uac", subsec);
        let branch = ids.fresh_branch(nanos);
        let invite = build_invite(
            InviteFields {
                request_uri: &target_uri,
                via_sent_by: &self.local_sip_addr,
                branch: &branch,
                from_uri: &self.contact,
                from_tag: &local_tag,
                to_uri: &target_uri,
                call_id: &call_id,
                cseq: 1,
                contact: &self.contact,
                sdp: sdp_offer,
            },
        );
        Ok(
            CallAttempt {
                call_id,
                local_tag,
                target_uri,
                peer: peer.to_owned(),
                branch,
                invite,
                endpoint_id,
            },
        )
    }

    /// Concludes a call with the final response to its INVITE, or the reason
    /// why none came. A 200 with a `To` tag establishes it; `nanos` is the
    /// wall clock in nanoseconds.
    pub fn call_answered(
        &mut self,
        ids: &mut IdSource,
        attempt: CallAttempt,
        answer: Result<(u16, Vec<u8>), UacError>,
        nanos: u64,
    ) -> (r: CallOutcome)
        requires
            old(self).wf(),
        ensures
            final(self).wf(),
            final(self).same_settings(old(self)),
            match answer {
                Err(e) => {
                    &&& r == (CallOutcome::Failed { error: e, release: Some(attempt.endpoint_id) })
                    &&& final(self).dialogs() == old(self).dialogs()
                    &&& *final(ids) == *old(ids)
                },
                Ok((status, bytes)) => if status != 200 {
                    &&& r matches CallOutcome::Failed { error, release }
                    &&& release == Some(attempt.endpoint_id)
                    &&& error matches UacError::Rejected { status: s, reason }
                    &&& s == status
                    &&& reason@ == reason_of(bytes@)
                    &&& final(self).dialogs() == old(self).dialogs()
                    &&& *final(ids) == *old(ids)
                } else if to_tag_of(bytes@) is None {
                    &&& r matches CallOutcome::Failed { error, release }
                    &&& release is None
                    &&& error matches UacError::Internal(m)
                    &&& m@ == "200 OK missing To-tag"@
                    &&& final(self).dialogs() == old(self).dialogs()
                    &&& *final(ids) == *old(ids)
                } else {
                    &&& r matches CallOutcome::Connected { call_id, ack, answer: body }
                    &&& call_id@ == attempt.call_id@
                    &&& body@ == body_of(bytes@)
                    &&& ack@ == vstd::utf8::encode_utf8(
                        ack_of(
                            attempt,
                            to_tag_of(bytes@)->0,
                            old(self).local_sip_addr(),
                            branch_text(old(ids).branches(), nanos),
                        ),
                    )
                    &&& final(ids).branches() == old(ids).branches().wrapping_add(1)
                    &&& final(ids).call_ids() == old(ids).call_ids()
                    &&& final(ids).tags() == old(ids).tags()
                    &&& final(self).dialogs().contains_key(seq![attempt.call_id@])
                    &&& dialog_from(
                        attempt,
                        to_tag_of(bytes@)->0,
                        old(self).local_sip_addr(),
                        final(self).dialogs()[seq![attempt.call_id@]],
                    )
                    &&& final(self).dialogs() == old(self).dialogs().insert(
                        seq![attempt.call_id@],
                        final(self).dialogs()[seq![attempt.call_id@]],
                    )
                },
            },
    {
        let (status, bytes) = match answer {
            Ok(p) => p,
            Err(e) => {
                return CallOutcome::Failed { error: e, release: Some(attempt.endpoint_id) };
            },
        };
        if status != 200 {
            let reason = parse_reason(&bytes);
            return CallOutcome::Failed {
                error: UacError::Rejected { status, reason },
                release: Some(attempt.endpoint_id),
            };
        }
        let remote_tag = match extract_to_tag(&bytes) {
            Some(t) => t,
            None => {
                return CallOutcome::Failed {
                    error: UacError::Internal("200 OK missing To-tag".to_owned()),
                    release: None,
                };
            },
        };
        let body = extract_body(&bytes);
        let branch = ids.fresh_branch(nanos);
        let ack = build_ack_2xx(
            AckFields {
                request_uri: &attempt.target_uri,
                via_sent_by: &self.local_sip_addr,
                branch: &branch,
                from_uri: &self.contact,
                from_tag: &attempt.local_tag,
                to_uri: &attempt.target_uri,
                to_tag: &remote_tag,
                call_id: &attempt.call_id,
                cseq: 1,
            },
        );
        let place = key1(&attempt.call_id);
        let call_id = attempt.call_id.clone();
        let dialog = UacDialog {
            call_id: attempt.call_id,
            local_tag: attempt.local_tag,
            remote_tag,
            target_uri: attempt.target_uri,
            peer: attempt.peer,
            local_sip_addr: self.local_sip_addr.clone(),
            next_cseq: 2,
            endpoint_id: attempt.endpoint_id,
        };
        self.dialogs.insert(place, dialog);
        CallOutcome::Connected { call_id, ack, answer: body }
    }

    /// Starts to end the call `call_id`; every attempt uses up a sequence
    /// number. `nanos` is the wall clock in nanoseconds.
    pub fn hangup(&mut self, ids: &mut IdSource, call_id: &str, nanos: u64) -> (r: Result<
        HangupAttempt,
        UacError,
    >)
        requires
            old(self).wf(),
        ensures
            final(self).wf(),
            final(self).same_settings(old(self)),
            match r {
                Ok(a) => {
                    &&& old(self).dialogs().contains_key(seq![call_id@])
                    &&& {
                        let d = old(self).dialogs()[seq![call_id@]];
                        &&& a.call_id@ == call_id@
                        &&& a.peer@ == d.peer@
                        &&& a.endpoint_id == d.endpoint_id
                        &&& a.branch@ == branch_text(old(ids).branches(), nanos)
                        &&& a.bye@ == vstd::utf8::encode_utf8(bye_of(d, a.branch@, call_id@))
                        &&& final(self).dialogs() == old(self).dialogs().insert(
                            seq![call_id@],
                            (UacDialog { next_cseq: d.next_cseq.wrapping_add(1), ..d }),
                        )
                    }
                    &&& final(ids).branches() == old(ids).branches().wrapping_add(1)
                    &&& final(ids).call_ids() == old(ids).call_ids()
                    &&& final(ids).tags() == old(ids).tags()
                },
                Err(e) => {
                    &&& !old(self).dialogs().contains_key(seq![call_id@])
                    &&& e matches UacError::NotFound(m) && m@ == call_id@
                    &&& final(self).dialogs() == old(self).dialogs()
                    &&& *final(ids) == *old(ids)
                },
            },
    {
        let place = key1(call_id);
        let d = match self.dialogs.remove(&place) {
            Some(d) => d,
            None => {
                assert(self.dialogs@ =~= old(self).dialogs@);
                return Err(UacError::NotFound(call_id.to_owned()));
            },
        };
        let branch = ids.fresh_branch(nanos);
        let from = contact_string(&d.local_sip_addr);
        let bye = build_bye(
            ByeFields {
                request_uri: &d.target_uri,
                via_sent_by: &d.local_sip_addr,
                branch: &branch,
                from_uri: &from,
                from_tag: &d.local_tag,
                to_uri: &d.target_uri,
                to_tag: &d.remote_tag,
                call_id,
                cseq: d.next_cseq,
            },
        );
        let peer = d.peer.clone();
        let endpoint_id: u64 = d.endpoint_id;
        let next: u32 = d.next_cseq.wrapping_add(1);
        self.dialogs.insert(place, UacDialog { next_cseq: next, ..d });
        assert(self.dialogs@ =~= old(self).dialogs@.insert(
            seq![call_id@],
            (UacDialog { next_cseq: next, ..d }),
        ));
        Ok(HangupAttempt { call_id: call_id.to_owned(), peer, branch, bye, endpoint_id })
    }

    /// Concludes a hang-up with the final response to its BYE, or the reason
    /// why none came. A 200 ends the call; the media endpoint to release is
    /// returned. Anything else leaves the call as it is.
    pub fn hangup_answered(
        &mut self,
        attempt: HangupAttempt,
        answer: Result<(u16, Vec<u8>), UacError>,
    ) -> (r: Result<u64, UacError>)
        requires
            old(self).wf(),
        ensures
            final(self).wf(),
            final(self).same_settings(old(self)),
            match answer {
                Err(e) => r == Err::<u64, UacError>(e) && final(self).dialogs()
                    == old(self).dialogs(),
                Ok((status, bytes)) => if status != 200 {
                    &&& r matches Err(error)
                    &&& error matches UacError::Rejected { status: s, reason }
                    &&& s == status
                    &&& reason@ == reason_of(bytes@)
                    &&& final(self).dialogs() == old(self).dialogs()
                } else {
                    &&& r == Ok::<u64, UacError>(attempt.endpoint_id)
                    &&& final(self).dialogs() == old(self).dialogs().remove(seq![attempt.call_id@])
                },
            },
    {
        match answer {
            Err(e) => Err(e),
            Ok((status, bytes)) => if status != 200 {
                let reason = parse_reason(&bytes);
                Err(UacError::Rejected { status, reason })
            } else {
                self.dialogs.remove(&key1(&attempt.call_id));
                Ok(attempt.endpoint_id)
            },
        }
    }
}

/// The INVITE of `attempt`.
pub open spec fn invite_request(
    attempt: CallAttempt,
    local_sip_addr: Seq<char>,
    contact: Seq<char>,
    sdp: Seq<char>,
) -> Seq<u8> {
    vstd::utf8::encode_utf8(
        message::request_front(
            "INVITE"@,
            attempt.target_uri@,
            local_sip_addr,
            attempt.branch@,
            contact,
            attempt.local_tag@,
            attempt.target_uri@,
        ) + message::request_middle("INVITE"@, attempt.call_id@, 1)
            + "Max-Forwards: 70\r\nContact: "@ + contact
            + "\r\nContent-Type: application/sdp\r\nContent-Length: "@ + text::decimal(
            vstd::utf8::encode_utf8(sdp).len(),
        ) + "\r\n\r\n"@,
    ) + vstd::utf8::encode_utf8(sdp)
}

/// The BYE of a call speaks of the dialog that the ACK confirmed: the same
/// Call-ID, tags, URI and address, and a larger sequence number.
pub proof fn bye_follows_the_ack(
    attempt: CallAttempt,
    remote_tag: Seq<char>,
    local_sip_addr: Seq<char>,
    d: UacDialog,
    branch: Seq<char>,
)
    requires
        dialog_from(attempt, remote_tag, local_sip_addr, d),
    ensures
        bye_of(d, branch, d.call_id@) == dialog_request(
            "BYE"@,
            attempt.target_uri@,
            local_sip_addr,
            branch,
            contact_of(local_sip_addr),
            attempt.local_tag@,
            attempt.target_uri@,
            remote_tag,
            attempt.call_id@,
            2,
        ),
{
}

} // verus!
