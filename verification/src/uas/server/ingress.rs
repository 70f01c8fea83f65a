//! What arrives: rate limiting, parsing, the transaction layer.

use rsip::SipMessage;
use vstd::prelude::*;

use super::super::compose::str_opt;
use super::super::parse::{extract_via_branch, message_branch, response_status};
use super::super::summary::{summarize_request, summary_of, RequestSummary};
use super::respond::{plain, respond_step};
use super::{
    emit, outputs, server_key, server_txn_key, tag_at, tagged, Moment, UasCommand, UasCommandView,
    UasServer, UasView,
};
use crate::rate_limit::{passage, SipRateLimiter};
use crate::record::{dialog_path, DialogKey};
use crate::table::{key1, key_view};
use crate::text;
use crate::txn::driver::{
    from_elsewhere, fresh_slot, path, status_or_zero, table_after, CommandView,
};
use crate::txn::machine::{Flavor, Machine};
use crate::txn::matching::{cseq_method, cseq_method_of, sent_by_of, top_via_sent_by};
use crate::txn::server_invite::new_server_invite;
use crate::txn::server_non_invite::new_server_non_invite;
use crate::txn::{
    EventView, KeyView, Role, ServerInviteTxn, ServerNonInviteTxn, TimerId, Transaction, TransactionKey,
    TransactionState,
};

verus! {

// ---------------------------------------------------------------------
// Parsing
// ---------------------------------------------------------------------

/// What `rsip::SipMessage::try_from` makes of a message: `true` for a request,
/// `false` for a response, or the text of its error.
pub uninterp spec fn sip_message_kind(bytes: Seq<u8>) -> Result<bool, Seq<char>>;

/// The model of a message's kind.
pub open spec fn kind_view(r: Result<bool, String>) -> Result<bool, Seq<char>> {
    match r {
        Ok(b) => Ok(b),
        Err(m) => Err(m@),
    }
}

/// `rsip::SipMessage::try_from`: whether a message is a request or a response,
/// or why it is neither. The grammar has a name but is not spelled out.
#[verifier::external_body]
fn parse_kind(bytes: &[u8]) -> (r: Result<bool, String>)
    ensures
        kind_view(r) == sip_message_kind(bytes@),
{
    match SipMessage::try_from(bytes) {
        Ok(SipMessage::Request(_)) => Ok(true),
        Ok(SipMessage::Response(_)) => Ok(false),
        Err(e) => Err(e.to_string()),
    }
}

/// What a datagram turned out to be.
#[derive(Debug)]
pub enum Ingress {
    /// Its source sends too much; it is dropped unread.
    Limited,
    /// It is no SIP message, and why.
    Malformed(String),
    /// A request.
    Request(RequestSummary),
    /// A response.
    Response,
}

/// `i` is what a message of the given kind turned out to be.
pub open spec fn classified(bytes: Seq<u8>, kind: Result<bool, Seq<char>>, i: Ingress) -> bool {
    match kind {
        Err(m) => i matches Ingress::Malformed(why) && why@ == m,
        Ok(true) => i matches Ingress::Request(req) && req@ == summary_of(text::message_text(bytes))
            && req.raw@ == bytes,
        Ok(false) => i is Response,
    }
}

/// Reads a message of a known kind.
pub fn classify(bytes: &[u8], kind: Result<bool, String>) -> (r: Ingress)
    ensures
        classified(bytes@, kind_view(kind), r),
{
    match kind {
        Err(m) => Ingress::Malformed(m),
        Ok(true) => Ingress::Request(summarize_request(bytes)),
        Ok(false) => Ingress::Response,
    }
}

/// Reads a datagram that arrived from `source` at `now` (nanoseconds on the
/// limiter's clock). The source's rate is checked before anything is parsed.
pub fn ingress_at(limiter: &mut SipRateLimiter, source: &str, now: u64, bytes: &[u8]) -> (r:
    Ingress)
    requires
        old(limiter).wf(),
    ensures
        final(limiter).wf(),
        final(limiter).rate() == old(limiter).rate(),
        final(limiter).bucket_depth() == old(limiter).bucket_depth(),
        old(limiter).rate() == 0 ==> final(limiter).buckets() == old(limiter).buckets()
            && classified(bytes@, sip_message_kind(bytes@), r),
        old(limiter).rate() != 0 ==> {
            let (buckets, passes) = passage(
                old(limiter).buckets(),
                source@,
                old(limiter).rate(),
                old(limiter).bucket_depth(),
                now,
            );
            &&& final(limiter).buckets() == buckets
            &&& passes ==> classified(bytes@, sip_message_kind(bytes@), r)
            &&& !passes ==> r is Limited
        },
{
    if !limiter.allow_at(source, now) {
        return Ingress::Limited;
    }
    classify(bytes, parse_kind(bytes))
}

/// Reads a datagram that arrived from `source` just now.
pub fn ingress(limiter: &mut SipRateLimiter, source: &str, bytes: &[u8]) -> (r: Ingress)
    requires
        old(limiter).wf(),
    ensures
        final(limiter).wf(),
        final(limiter).rate() == old(limiter).rate(),
        final(limiter).bucket_depth() == old(limiter).bucket_depth(),
        old(limiter).rate() == 0 ==> final(limiter).buckets() == old(limiter).buckets(),
        old(limiter).rate() != 0 ==> exists|now: u64|
            (final(limiter).buckets(), r !is Limited) == #[trigger] passage(
                old(limiter).buckets(),
                source@,
                old(limiter).rate(),
                old(limiter).bucket_depth(),
                now,
            ),
        old(limiter).rate() == 0 || r !is Limited ==> classified(
            bytes@,
            sip_message_kind(bytes@),
            r,
        ),
{
    if !limiter.allow(source) {
        return Ingress::Limited;
    }
    classify(bytes, parse_kind(bytes))
}

// ---------------------------------------------------------------------
// Responses
// ---------------------------------------------------------------------

/// Where a response goes.
#[derive(Debug)]
pub enum ResponseRoute {
    /// Nowhere: it has no branch.
    Dropped,
    /// To a client transaction of the server.
    Transaction,
    /// To whoever subscribed on this branch.
    Subscriber(String),
}

/// Where a response goes: to the client transaction that its branch and `CSeq`
/// method name, while that lives; else to the subscriber of its branch.
pub open spec fn response_target(s: UasView, bytes: Seq<u8>) -> Option<KeyView> {
    match (message_branch(bytes), cseq_method_of(bytes)) {
        (Some(branch), Some(method)) => {
            let key = KeyView { branch, method, role: Role::Client };
            if s.slots.contains_key(path(key)) {
                Some(key)
            } else {
                None
            }
        },
        _ => None,
    }
}

impl UasServer {
    /// Takes a response.
    pub fn route_response(&mut self, out: &mut Vec<UasCommand>, bytes: Vec<u8>) -> (r:
        ResponseRoute)
        requires
            old(self).wf(),
        ensures
            final(self).wf(),
            match response_target(old(self)@, bytes@) {
                Some(key) => {
                    let (slots, commands) = table_after(
                        old(self)@.slots,
                        path(key),
                        EventView::ResponseReceived {
                            status: status_or_zero(bytes@),
                            bytes: bytes@,
                        },
                    );
                    &&& r is Transaction
                    &&& final(self)@ == (UasView { slots, ..old(self)@ })
                    &&& outputs(final(out)@) == outputs(old(out)@) + seq![
                        UasCommandView::Txn { key, commands },
                    ]
                },
                None => {
                    &&& final(self)@ == old(self)@
                    &&& outputs(final(out)@) == outputs(old(out)@)
                    &&& message_branch(bytes@) is None ==> r is Dropped
                    &&& message_branch(bytes@) is Some ==> (r matches ResponseRoute::Subscriber(b)
                        && b@ == message_branch(bytes@)->0)
                },
            },
    {
        let branch = match extract_via_branch(&bytes) {
            Some(b) => b,
            None => {
                return ResponseRoute::Dropped;
            },
        };
        match cseq_method(&bytes) {
            Some(method) => {
                let key = TransactionKey { branch: branch.clone(), method, role: Role::Client };
                if self.driver.is_alive(&key) {
                    let status: u16 = match response_status(&bytes) {
                        Some(s) => s,
                        None => 0,
                    };
                    let commands = self.driver.deliver_response(&key, status, bytes);
                    emit(out, UasCommand::Txn { key, commands });
                    return ResponseRoute::Transaction;
                }
            },
            None => {},
        }
        ResponseRoute::Subscriber(branch)
    }

    /// A timer of one of the server's transactions fired. One of a transaction
    /// that has ended does nothing.
    pub fn fire_timer(&mut self, out: &mut Vec<UasCommand>, key: TransactionKey, id: TimerId)
        requires
            old(self).wf(),
        ensures
            final(self).wf(),
            ({
                let (slots, commands) = table_after(
                    old(self)@.slots,
                    path(key@),
                    EventView::TimerFired(id),
                );
                &&& final(self)@ == (UasView { slots, ..old(self)@ })
                &&& outputs(final(out)@) == outputs(old(out)@) + seq![
                    UasCommandView::Txn { key: key@, commands },
                ]
            }),
    {
        let commands = self.driver.fire_timer(&key, id);
        emit(out, UasCommand::Txn { key, commands });
    }
}

// ---------------------------------------------------------------------
// Requests
// ---------------------------------------------------------------------

/// The dialog at `p` was established or changed by the INVITE on `branch` of
/// the call `call_id`, sent by the side with the tag `remote_tag`, if that is
/// given.
pub open spec fn invited(
    s: UasView,
    p: Seq<Seq<char>>,
    call_id: Seq<char>,
    remote_tag: Option<Seq<char>>,
    branch: Seq<char>,
) -> bool {
    &&& s.dialogs.contains_key(p)
    &&& p.len() == 3
    &&& p[0] == call_id
    &&& remote_tag matches Some(f) ==> p[2] == f
    &&& s.dialogs[p].last_invite_branch == Some(branch)
}

/// Some dialog was established or changed by that INVITE.
pub open spec fn any_invited(
    s: UasView,
    call_id: Seq<char>,
    remote_tag: Option<Seq<char>>,
    branch: Seq<char>,
) -> bool {
    exists|p: Seq<Seq<char>>| #[trigger] invited(s, p, call_id, remote_tag, branch)
}

/// A request repeats the INVITE that established or last changed a live
/// dialog.
pub open spec fn is_retransmit(s: UasView, req: RequestSummary) -> bool {
    match (req@.branch, req@.call_id, req@.from_tag) {
        (Some(branch), Some(call_id), Some(remote_tag)) => match req@.to_tag {
            Some(local_tag) => invited(
                s,
                seq![call_id, local_tag, remote_tag],
                call_id,
                Some(remote_tag),
                branch,
            ),
            None => any_invited(s, call_id, Some(remote_tag), branch),
        },
        _ => false,
    }
}

/// Takes a CANCEL, whose own transaction has begun, while the transaction of
/// its INVITE lives. An INVITE without a final response is marked, and its
/// final response will carry the tag that the CANCEL is answered with. `None`
/// when there is no such transaction.
pub open spec fn cancel_step(
    s: UasView,
    req: RequestSummary,
    branch: Seq<char>,
    peer: Seq<char>,
    now: Moment,
) -> Option<(UasView, Seq<UasCommandView>)> {
    let p = path(server_key(branch, "INVITE"@));
    if s.slots.contains_key(p) {
        let tag = tag_at(s, now);
        let marked = if s.slots[p].txn.state == TransactionState::Proceeding {
            UasView { cancelled: s.cancelled.insert(seq![branch], tag), ..tagged(s) }
        } else {
            tagged(s)
        };
        Some(respond_step(marked, req, plain(200, "OK"@, tag), peer))
    } else {
        None
    }
}

/// The machine that a fresh request starts.
pub open spec fn server_machine(branch: Seq<char>, method: Seq<char>) -> (
    Flavor,
    crate::txn::TxnView,
) {
    if method == "INVITE"@ {
        (Flavor::ServerInvite, new_server_invite(branch))
    } else {
        (Flavor::ServerNonInvite, new_server_non_invite(branch, method))
    }
}

/// Begins the transaction of a fresh request.
pub open spec fn open_step(s: UasView, req: RequestSummary, branch: Seq<char>, peer: Seq<char>) -> (
    UasView,
    Seq<UasCommandView>,
) {
    let key = server_key(branch, req@.method);
    let (flavor, txn) = server_machine(branch, req@.method);
    (
        UasView {
            slots: s.slots.insert(
                path(key),
                fresh_slot(flavor, txn, s.reliable, sent_by_of(req.raw@)),
            ),
            ..s
        },
        seq![
            UasCommandView::Open { key, peer },
            UasCommandView::Txn { key, commands: seq![CommandView::CountUp] },
        ],
    )
}

/// Takes a request through the transaction layer. The last component tells
/// whether it goes on to the transaction user: a repetition of a request does
/// not, nor does a CANCEL that was answered.
pub open spec fn admit_step(s: UasView, req: RequestSummary, peer: Seq<char>, now: Moment) -> (
    UasView,
    Seq<UasCommandView>,
    bool,
) {
    if req@.branch is None || req@.method == "ACK"@ {
        (s, seq![], true)
    } else {
        let branch = req@.branch->0;
        let key = server_key(branch, req@.method);
        if s.slots.contains_key(path(key)) {
            let (slots, commands) = if from_elsewhere(s.slots, path(key), req.raw@) {
                (s.slots, seq![])
            } else {
                table_after(
                    s.slots,
                    path(key),
                    EventView::RequestReceived { method: req@.method, bytes: req.raw@ },
                )
            };
            (UasView { slots, ..s }, seq![UasCommandView::Txn { key, commands }], false)
        } else if req@.method == "INVITE"@ && is_retransmit(s, req) {
            (s, seq![], false)
        } else {
            let (opened, c1) = open_step(s, req, branch, peer);
            if req@.method == "CANCEL"@ {
                match cancel_step(opened, req, branch, peer, now) {
                    Some((answered, c2)) => (answered, c1 + c2, false),
                    None => (opened, c1, true),
                }
            } else {
                (opened, c1, true)
            }
        }
    }
}

impl UasServer {
    /// The engine's tag in some dialog that the INVITE on `branch` of the call
    /// `call_id` established or last changed.
    pub(super) fn invited_by(
        &mut self,
        call_id: &str,
        remote_tag: Option<&str>,
        branch: &str,
    ) -> (r: Option<String>)
        requires
            old(self).wf(),
        ensures
            final(self).wf(),
            final(self)@ == old(self)@,
            r matches Some(tag) ==> exists|p: Seq<Seq<char>>| #[trigger]
                invited(old(self)@, p, call_id@, str_opt(remote_tag), branch@)
                    && old(self)@.dialogs[p].local_tag == tag@,
            r is Some <==> any_invited(
                old(self)@,
                call_id@,
                str_opt(remote_tag),
                branch@,
            ),
    {
        let ghost tag_wanted = str_opt(remote_tag);
        let keys = self.dialogs.keys();
        let ghost table = self.dialogs@;
        let mut i: usize = 0;
        while i < keys.len()
            invariant
                i <= keys@.len(),
                self.wf(),
                self@ == old(self)@,
                tag_wanted == str_opt(remote_tag),
                forall|j: int| #![trigger keys@[j]]
                    0 <= j < i ==> !invited(
                        self@,
                        key_view(keys@[j]),
                        call_id@,
                        tag_wanted,
                        branch@,
                    ),
            decreases keys.len() - i,
        {
            let k = &keys[i];
            let ghost p = key_view(*k);
            let named = k.len() == 3 && k[0] == call_id.to_owned() && (match remote_tag {
                Some(f) => k[2] == f.to_owned(),
                None => true,
            });
            assert(named == (p.len() == 3 && p[0] == call_id@ && (tag_wanted matches Some(f)
                ==> p[2] == f)));
            if named {
                match self.dialogs.take(k) {
                    Some(rec) => {
                        let hit = match &rec.last_invite_branch {
                            Some(b) => *b == branch.to_owned(),
                            None => false,
                        };
                        let tag = rec.local_tag.clone();
                        self.dialogs.put(crate::table::copy_key(k), rec);
                        if hit {
                            assert(invited(self@, p, call_id@, tag_wanted, branch@));
                            return Some(tag);
                        }
                    },
                    None => {},
                }
            }
            i = i + 1;
        }
        proof {
            assert forall|p: Seq<Seq<char>>| !#[trigger]
                invited(old(self)@, p, call_id@, tag_wanted, branch@) by {
                if old(self)@.dialogs.contains_key(p) {
                    assert(table.contains_key(p));
                    let j = choose|j: int| 0 <= j < keys@.len() && key_view(#[trigger] keys@[j])
                        == p;
                    assert(key_view(keys@[j]) == p);
                }
            }
        }
        None
    }

    /// `true` when a request repeats the INVITE that established or last
    /// changed a live dialog.
    pub fn is_invite_retransmit(&mut self, req: &RequestSummary) -> (r: bool)
        requires
            old(self).wf(),
        ensures
            final(self).wf(),
            final(self)@ == old(self)@,
            r == is_retransmit(old(self)@, *req),
    {
        match (&req.branch, &req.call_id, &req.from_tag) {
            (Some(branch), Some(call_id), Some(remote_tag)) => match &req.to_tag {
                Some(local_tag) => {
                    let key: DialogKey = (call_id.clone(), local_tag.clone(), remote_tag.clone());
                    let r = match self.dialog(&key) {
                        Some(rec) => match &rec.last_invite_branch {
                            Some(b) => *b == *branch,
                            None => false,
                        },
                        None => false,
                    };
                    assert(r == invited(
                        old(self)@,
                        dialog_path(key),
                        call_id@,
                        Some(remote_tag@),
                        branch@,
                    ));
                    r
                },
                None => {
                    let found = self.invited_by(call_id, Some(remote_tag.as_str()), branch);
                    found.is_some()
                },
            },
            _ => false,
        }
    }

    /// Takes a CANCEL while the transaction of its INVITE lives. Returns
    /// whether it was answered.
    fn cancel_pending_invite(
        &mut self,
        out: &mut Vec<UasCommand>,
        req: &RequestSummary,
        branch: &str,
        peer: &str,
        now: &Moment,
    ) -> (r: bool)
        requires
            old(self).wf(),
        ensures
            final(self).wf(),
            match cancel_step(old(self)@, *req, branch@, peer@, *now) {
                Some((s, c)) => r && final(self)@ == s && outputs(final(out)@) == outputs(
                    old(out)@,
                ) + c,
                None => !r && final(self)@ == old(self)@ && outputs(final(out)@) == outputs(
                    old(out)@,
                ),
            },
    {
        let key = server_txn_key(branch, "INVITE");
        match self.driver.state(&key) {
            Some(state) => {
                let tag = self.next_tag(now);
                match state {
                    TransactionState::Proceeding => {
                        self.cancelled.put(key1(branch), tag.clone());
                    },
                    _ => {},
                }
                self.respond_plain(out, req, 200, "OK", &tag, peer);
                true
            },
            None => false,
        }
    }

    fn open_transaction(
        &mut self,
        out: &mut Vec<UasCommand>,
        req: &RequestSummary,
        branch: &str,
        peer: &str,
    )
        requires
            old(self).wf(),
        ensures
            final(self).wf(),
            ({
                let (s, c) = open_step(old(self)@, *req, branch@, peer@);
                final(self)@ == s && outputs(final(out)@) == outputs(old(out)@) + c
            }),
    {
        let ghost before = outputs(out@);
        let machine = if req.method == "INVITE".to_owned() {
            Machine::ServerInvite(ServerInviteTxn::new(branch))
        } else {
            Machine::ServerNonInvite(ServerNonInviteTxn::new(branch, &req.method))
        };
        let commands = match top_via_sent_by(&req.raw) {
            Some(sent_by) => self.driver.start_server_with_sent_by(machine, &sent_by),
            None => self.driver.start_server(machine),
        };
        emit(
            out,
            UasCommand::Open { key: server_txn_key(branch, &req.method), peer: peer.to_owned() },
        );
        emit(out, UasCommand::Txn { key: server_txn_key(branch, &req.method), commands });
        assert(outputs(out@) =~= before + open_step(old(self)@, *req, branch@, peer@).1);
    }

    /// Takes a request through the transaction layer: a repetition is answered
    /// as before, and anything else begins a transaction. Returns whether the
    /// request goes on to the transaction user. An ACK always does, and begins
    /// no transaction.
    pub fn admit_request(
        &mut self,
        out: &mut Vec<UasCommand>,
        req: &RequestSummary,
        peer: &str,
        now: &Moment,
    ) -> (r: bool)
        requires
            old(self).wf(),
        ensures
            final(self).wf(),
            ({
                let (s, c, goes_on) = admit_step(old(self)@, *req, peer@, *now);
                &&& final(self)@ == s
                &&& outputs(final(out)@) == outputs(old(out)@) + c
                &&& r == goes_on
            }),
    {
        let ghost before = outputs(out@);
        assert(before + seq![] =~= before);
        let branch = match &req.branch {
            Some(b) => b,
            None => {
                return true;
            },
        };
        if req.method == "ACK".to_owned() {
            return true;
        }
        let key = server_txn_key(branch, &req.method);
        if self.driver.is_alive(&key) {
            let commands = self.driver.deliver_request(
                &key,
                req.method.clone(),
                text::copy_bytes(&req.raw),
            );
            emit(out, UasCommand::Txn { key, commands });
            return false;
        }
        if req.method == "INVITE".to_owned() && self.is_invite_retransmit(req) {
            return false;
        }
        self.open_transaction(out, req, branch, peer);
        if req.method == "CANCEL".to_owned() {
            let answered = self.cancel_pending_invite(out, req, branch, peer, now);
            assert(outputs(out@) =~= before + admit_step(old(self)@, *req, peer@, *now).1);
            return !answered;
        }
        true
    }
}

/// A request that repeats one whose transaction lives is never handled twice:
/// it goes to the transaction alone, and changes nothing else.
pub proof fn repetitions_stop_at_the_transaction(
    s: UasView,
    req: RequestSummary,
    branch: Seq<char>,
    peer: Seq<char>,
    now: Moment,
)
    requires
        req@.branch == Some(branch),
        req@.method != "ACK"@,
        s.slots.contains_key(path(server_key(branch, req@.method))),
    ensures
        ({
            let (after, _, goes_on) = admit_step(s, req, peer, now);
            &&& !goes_on
            &&& after == (UasView { slots: after.slots, ..s })
        }),
{
}

/// The answer to a CANCEL and the final response to its INVITE carry one tag.
pub proof fn cancelled_invite_keeps_the_tag(
    s: UasView,
    req: RequestSummary,
    branch: Seq<char>,
    peer: Seq<char>,
    now: Moment,
)
    requires
        s.slots.contains_key(path(server_key(branch, "INVITE"@))),
        s.slots[path(server_key(branch, "INVITE"@))].txn.state == TransactionState::Proceeding,
        req@.method == "CANCEL"@,
    ensures
        cancel_step(s, req, branch, peer, now) is Some,
        ({
            let after = (cancel_step(s, req, branch, peer, now)->0).0;
            after.cancelled.contains_key(seq![branch]) && after.cancelled[seq![branch]] == tag_at(
                s,
                now,
            )
        }),
{
}

/// A request that begins a transaction goes on to its user: an INVITE waits in
/// the INVITE machine, any other request in the other one, each known by branch,
/// method and sender; and the transaction is counted.
pub proof fn fresh_requests_begin_a_transaction(
    s: UasView,
    req: RequestSummary,
    branch: Seq<char>,
    peer: Seq<char>,
    now: Moment,
)
    requires
        req@.branch == Some(branch),
        req@.method != "ACK"@,
        req@.method != "CANCEL"@,
        !s.slots.contains_key(path(server_key(branch, req@.method))),
        !(req@.method == "INVITE"@ && is_retransmit(s, req)),
    ensures
        ({
            let (after, c, goes_on) = admit_step(s, req, peer, now);
            let key = server_key(branch, req@.method);
            let slot = after.slots[path(key)];
            &&& goes_on
            &&& key.branch == branch && key.method == req@.method && key.role == Role::Server
            &&& after.slots.contains_key(path(key))
            &&& slot.txn.key == key
            &&& slot.txn.reliable == s.reliable
            &&& slot.txn.buffer is None
            &&& slot.sent_by == sent_by_of(req.raw@)
            &&& req@.method == "INVITE"@ ==> slot.flavor == Flavor::ServerInvite && slot.txn.state
                == TransactionState::Proceeding
            &&& req@.method != "INVITE"@ ==> slot.flavor == Flavor::ServerNonInvite
                && slot.txn.state == TransactionState::Trying
            &&& c == seq![
                UasCommandView::Open { key, peer },
                UasCommandView::Txn { key, commands: seq![CommandView::CountUp] },
            ]
            &&& after == (UasView { slots: after.slots, ..s })
        }),
{
}

/// An ACK, and a request without a branch, have no transaction: they go straight
/// to the user. An INVITE that repeats the one of a live dialog goes nowhere.
pub proof fn some_requests_pass_by(
    s: UasView,
    req: RequestSummary,
    peer: Seq<char>,
    now: Moment,
)
    ensures
        req@.branch is None || req@.method == "ACK"@ ==> admit_step(s, req, peer, now) == (
            s,
            Seq::<UasCommandView>::empty(),
            true,
        ),
        req@.branch is Some && req@.method == "INVITE"@ && !s.slots.contains_key(
            path(server_key(req@.branch->0, "INVITE"@)),
        ) && is_retransmit(s, req) ==> admit_step(s, req, peer, now) == (
            s,
            Seq::<UasCommandView>::empty(),
            false,
        ),
{
    reveal_strlit("INVITE");
    reveal_strlit("ACK");
    assert("INVITE"@.len() == 6 && "ACK"@.len() == 3);
}

/// A request repeats the INVITE of a live dialog exactly when branch, Call-ID
/// and the caller's tag are those of it, and the engine's tag where it names
/// one.
pub proof fn repeated_invites_are_recognised(
    s: UasView,
    req: RequestSummary,
    p: Seq<Seq<char>>,
)
    requires
        s.dialogs.contains_key(p),
        p.len() == 3,
        s.dialogs[p].last_invite_branch == req@.branch,
        req@.branch is Some,
        req@.call_id == Some(p[0]),
        req@.from_tag == Some(p[2]),
        req@.to_tag is None || req@.to_tag == Some(p[1]),
    ensures
        is_retransmit(s, req),
{
    assert(invited(s, p, p[0], Some(p[2]), req@.branch->0));
    if req@.to_tag is Some {
        assert(seq![p[0], p[1], p[2]] =~= p);
    }
}

/// A response goes to the client transaction of its branch and method while that
/// lives, and to no other.
pub proof fn responses_find_their_transaction(
    s: UasView,
    bytes: Seq<u8>,
    branch: Seq<char>,
    method: Seq<char>,
)
    ensures
        ({
            let key = KeyView { branch, method, role: Role::Client };
            response_target(s, bytes) == Some(key) <==> message_branch(bytes) == Some(branch)
                && cseq_method_of(bytes) == Some(method) && s.slots.contains_key(path(key))
        }),
        response_target(s, bytes) matches Some(key) ==> key.role == Role::Client,
{
}

/// Nothing else is taken for a repetition: a request that is one has the branch
/// of the INVITE that a live dialog was last set up by, its Call-ID, the
/// caller's tag, and the engine's where it names one.
pub proof fn only_repetitions_are_taken_for_such(s: UasView, req: RequestSummary)
    requires
        is_retransmit(s, req),
    ensures
        exists|p: Seq<Seq<char>>|
            #[trigger] s.dialogs.contains_key(p) && p.len() == 3 && req@.call_id == Some(p[0])
                && req@.from_tag == Some(p[2]) && req@.branch is Some
                && s.dialogs[p].last_invite_branch == req@.branch && (req@.to_tag is Some
                ==> req@.to_tag == Some(p[1])),
{
    let branch = req@.branch->0;
    let call_id = req@.call_id->0;
    let remote_tag = req@.from_tag->0;
    match req@.to_tag {
        Some(local_tag) => {
            let p = seq![call_id, local_tag, remote_tag];
            assert(s.dialogs.contains_key(p));
        },
        None => {
            let p = choose|p: Seq<Seq<char>>| #[trigger]
                invited(s, p, call_id, Some(remote_tag), branch);
            assert(s.dialogs.contains_key(p));
        },
    }
}

/// A repeated request from the same sender is answered with the last response of
/// its transaction, where there is one.
pub proof fn repeated_requests_get_the_last_response(
    s: UasView,
    req: RequestSummary,
    branch: Seq<char>,
    peer: Seq<char>,
    now: Moment,
    last: Seq<u8>,
)
    requires
        req@.branch == Some(branch),
        req@.method != "ACK"@,
        s.slots.contains_key(path(server_key(branch, req@.method))),
        !from_elsewhere(s.slots, path(server_key(branch, req@.method)), req.raw@),
        ({
            let slot = s.slots[path(server_key(branch, req@.method))];
            &&& slot.txn.buffer == Some(last)
            &&& slot.txn.state == TransactionState::Proceeding || slot.txn.state
                == TransactionState::Completed
            &&& slot.flavor == Flavor::ServerNonInvite || slot.flavor == Flavor::ServerInvite
                && req@.method == "INVITE"@
        }),
    ensures
        ({
            let (after, c, goes_on) = admit_step(s, req, peer, now);
            &&& !goes_on
            &&& c.len() == 1
            &&& c[0] matches UasCommandView::Txn { key, commands }
            &&& key == server_key(branch, req@.method)
            &&& commands.contains(CommandView::Send(last))
        }),
{
    let p = path(server_key(branch, req@.method));
    let slot = s.slots[p];
    let event = EventView::RequestReceived { method: req@.method, bytes: req.raw@ };
    let actions = crate::txn::machine::step(slot.flavor, slot.txn, event).1;
    let sent = crate::txn::ActionView::SendToPeer(last);
    assert(actions[0] == sent);
    assert(actions.contains(actions[0]));
    crate::txn::delivery::actions_are_carried_out(slot.txn.key, actions, slot.got_2xx, sent);
}

/// A message that parses is a request, with what it says, or a response; one
/// that does not is malformed, with the reason.
pub proof fn messages_are_classified(
    bytes: Seq<u8>,
    kind: Result<bool, Seq<char>>,
    i: Ingress,
)
    requires
        classified(bytes, kind, i),
    ensures
        kind is Err <==> i is Malformed,
        kind == Ok::<bool, Seq<char>>(true) <==> i is Request,
        kind == Ok::<bool, Seq<char>>(false) <==> i is Response,
        i !is Limited,
        i matches Ingress::Request(req) ==> req.raw@ == bytes && req@ == summary_of(
            text::message_text(bytes),
        ),
        i matches Ingress::Malformed(why) ==> kind == Err::<bool, Seq<char>>(why@),
{
}

} // verus!
