//! Responses.

use vstd::prelude::*;

use super::super::compose::{build_response, headers_view, response_bytes, str_opt, HeaderView};
use super::super::summary::RequestSummary;
use super::{
    emit, outputs, server_key, server_txn_key, UasCommand, UasCommandView, UasServer, UasView,
};
use crate::record::{dialog_path, place_of, DialogKey, RecordView};
use crate::text;
use crate::txn::driver::{path, table_after};
use crate::txn::EventView;

verus! {

/// A response to be built.
#[derive(Copy, Clone)]
pub struct Reply<'a> {
    /// Status code.
    pub status: u16,
    /// Reason phrase.
    pub reason: &'a str,
    /// The engine's tag, for a `To` without one.
    pub tag: Option<&'a str>,
    /// Additional headers.
    pub extras: &'a [(&'a str, &'a str)],
    /// Body.
    pub body: &'a [u8],
}

/// Model of a [`Reply`].
#[verifier::ext_equal]
pub struct ReplyView {
    pub status: u16,
    pub reason: Seq<char>,
    pub tag: Option<Seq<char>>,
    pub extras: Seq<HeaderView>,
    pub body: Seq<u8>,
}

impl<'a> View for Reply<'a> {
    type V = ReplyView;

    open spec fn view(&self) -> ReplyView {
        ReplyView {
            status: self.status,
            reason: self.reason@,
            tag: str_opt(self.tag),
            extras: headers_view(self.extras@),
            body: self.body@,
        }
    }
}

/// A reply without additional headers and body.
pub open spec fn plain(status: u16, reason: Seq<char>, tag: Seq<char>) -> ReplyView {
    ReplyView { status, reason, tag: Some(tag), extras: seq![], body: seq![] }
}

/// The bytes of a response.
pub open spec fn reply_bytes(req: RequestSummary, reply: ReplyView) -> Seq<u8> {
    response_bytes(
        text::message_text(req.raw@),
        reply.status,
        reply.reason,
        reply.tag,
        reply.extras,
        reply.body,
    )
}

/// The dialog whose 2xx a response is.
pub open spec fn answered_dialog(req: RequestSummary, reply: ReplyView) -> Option<Seq<Seq<char>>> {
    if req@.method == "INVITE"@ && 200 <= reply.status < 300 {
        match (req@.call_id, req@.from_tag, reply.tag) {
            (Some(c), Some(f), Some(t)) => Some(seq![c, t, f]),
            _ => None,
        }
    } else {
        None
    }
}

/// Keeps a 2xx with its dialog, and repeats it until it is acknowledged.
pub open spec fn park_step(
    s: UasView,
    dialog: Seq<Seq<char>>,
    bytes: Seq<u8>,
    peer: Seq<char>,
) -> (UasView, Seq<UasCommandView>) {
    let repeat = UasCommandView::Retransmit { dialog, bytes, peer };
    if s.dialogs.contains_key(dialog) {
        let record = RecordView { pending_2xx: Some(bytes), ..s.dialogs[dialog] };
        (
            UasView { dialogs: s.dialogs.insert(dialog, record), ..s },
            seq![UasCommandView::Upsert(record), repeat],
        )
    } else {
        (s, seq![repeat])
    }
}

/// Hands a response to the request's transaction, or to the transport when
/// there is none.
pub open spec fn deliver_step(
    s: UasView,
    req: RequestSummary,
    status: u16,
    bytes: Seq<u8>,
    peer: Seq<char>,
) -> (UasView, Seq<UasCommandView>) {
    match req@.branch {
        Some(branch) => {
            let key = server_key(branch, req@.method);
            if s.slots.contains_key(path(key)) {
                let (slots, commands) = table_after(
                    s.slots,
                    path(key),
                    EventView::SendResponseFromTu { status, bytes },
                );
                (UasView { slots, ..s }, seq![UasCommandView::Txn { key, commands }])
            } else {
                (s, seq![UasCommandView::Send { bytes, peer }])
            }
        },
        None => (s, seq![UasCommandView::Send { bytes, peer }]),
    }
}

/// Answers a request.
pub open spec fn respond_step(
    s: UasView,
    req: RequestSummary,
    reply: ReplyView,
    peer: Seq<char>,
) -> (UasView, Seq<UasCommandView>) {
    let bytes = reply_bytes(req, reply);
    let (parked, c1) = match answered_dialog(req, reply) {
        Some(dialog) => park_step(s, dialog, bytes, peer),
        None => (s, seq![]),
    };
    let (sent, c2) = deliver_step(parked, req, reply.status, bytes, peer);
    (sent, c1 + c2)
}

/// Sends a provisional response.
pub open spec fn provisional_step(
    s: UasView,
    req: RequestSummary,
    status: u16,
    reason: Seq<char>,
    peer: Seq<char>,
) -> (UasView, Seq<UasCommandView>) {
    let reply = ReplyView { status, reason, tag: None, extras: seq![], body: seq![] };
    deliver_step(s, req, status, reply_bytes(req, reply), peer)
}

impl UasServer {
    fn deliver(
        &mut self,
        out: &mut Vec<UasCommand>,
        req: &RequestSummary,
        status: u16,
        bytes: Vec<u8>,
        peer: &str,
    )
        requires
            old(self).wf(),
        ensures
            final(self).wf(),
            ({
                let (s, c) = deliver_step(old(self)@, *req, status, bytes@, peer@);
                final(self)@ == s && outputs(final(out)@) == outputs(old(out)@) + c
            }),
    {
        match &req.branch {
            Some(branch) => {
                let key = server_txn_key(branch, &req.method);
                if self.driver.is_alive(&key) {
                    let commands = self.driver.send_response(&key, status, bytes);
                    emit(out, UasCommand::Txn { key, commands });
                    return;
                }
            },
            None => {},
        }
        emit(out, UasCommand::Send { bytes, peer: peer.to_owned() });
    }

    fn park(&mut self, out: &mut Vec<UasCommand>, dialog: DialogKey, bytes: Vec<u8>, peer: &str)
        requires
            old(self).wf(),
        ensures
            final(self).wf(),
            ({
                let (s, c) = park_step(old(self)@, dialog_path(dialog), bytes@, peer@);
                final(self)@ == s && outputs(final(out)@) == outputs(old(out)@) + c
            }),
    {
        let ghost before = outputs(out@);
        match self.dialogs.take(&place_of(&dialog)) {
            Some(rec) => {
                let mut rec = rec;
                let ghost given = rec@;
                rec.pending_2xx = Some(text::copy_bytes(&bytes));
                assert(rec@ =~= (RecordView { pending_2xx: Some(bytes@), ..given }));
                emit(out, UasCommand::Upsert(rec.duplicate()));
                self.dialogs.put(place_of(&dialog), rec);
                assert(self@.dialogs =~= old(self)@.dialogs.insert(dialog_path(dialog), rec@));
            },
            None => {},
        }
        let ghost step = park_step(old(self)@, dialog_path(dialog), bytes@, peer@);
        emit(out, UasCommand::Retransmit { dialog, bytes, peer: peer.to_owned() });
        assert(outputs(out@) =~= before + step.1);
    }

    /// Answers a request: a 2xx to an INVITE is kept with its dialog and
    /// repeated until it is acknowledged; every response goes through the
    /// request's transaction while that lives, else straight to `peer`.
    pub fn respond(
        &mut self,
        out: &mut Vec<UasCommand>,
        req: &RequestSummary,
        reply: Reply<'_>,
        peer: &str,
    )
        requires
            old(self).wf(),
        ensures
            final(self).wf(),
            ({
                let (s, c) = respond_step(old(self)@, *req, reply@, peer@);
                final(self)@ == s && outputs(final(out)@) == outputs(old(out)@) + c
            }),
    {
        let ghost before = outputs(out@);
        let bytes = build_response(
            &req.raw,
            reply.status,
            reply.reason,
            reply.tag,
            reply.extras,
            reply.body,
        );
        assert(bytes@ == reply_bytes(*req, reply@));
        if req.method == "INVITE".to_owned() && 200 <= reply.status && reply.status < 300 {
            match (&req.call_id, &req.from_tag, reply.tag) {
                (Some(c), Some(f), Some(t)) => {
                    let dialog: DialogKey = (c.clone(), t.to_owned(), f.clone());
                    self.park(out, dialog, text::copy_bytes(&bytes), peer);
                },
                _ => {},
            }
        }
        self.deliver(out, req, reply.status, bytes, peer);
        assert(outputs(out@) =~= before + respond_step(old(self)@, *req, reply@, peer@).1);
    }

    /// Sends a provisional response.
    pub fn send_provisional(
        &mut self,
        out: &mut Vec<UasCommand>,
        req: &RequestSummary,
        status: u16,
        reason: &str,
        peer: &str,
    )
        requires
            old(self).wf(),
        ensures
            final(self).wf(),
            ({
                let (s, c) = provisional_step(old(self)@, *req, status, reason@, peer@);
                final(self)@ == s && outputs(final(out)@) == outputs(old(out)@) + c
            }),
    {
        let no_headers: [(&str, &str); 0] = [];
        let no_body: [u8; 0] = [];
        let bytes = build_response(&req.raw, status, reason, None, &no_headers, &no_body);
        assert(headers_view(no_headers@) =~= seq![]);
        assert(no_body@ =~= seq![]);
        self.deliver(out, req, status, bytes, peer);
    }

    /// Answers a request without additional headers and body.
    pub fn respond_plain(
        &mut self,
        out: &mut Vec<UasCommand>,
        req: &RequestSummary,
        status: u16,
        reason: &str,
        tag: &str,
        peer: &str,
    )
        requires
            old(self).wf(),
        ensures
            final(self).wf(),
            ({
                let (s, c) = respond_step(old(self)@, *req, plain(status, reason@, tag@), peer@);
                final(self)@ == s && outputs(final(out)@) == outputs(old(out)@) + c
            }),
    {
        let no_headers: [(&str, &str); 0] = [];
        let no_body: [u8; 0] = [];
        let reply = Reply { status, reason, tag: Some(tag), extras: &no_headers, body: &no_body };
        assert(reply@ =~= plain(status, reason@, tag@));
        self.respond(out, req, reply, peer);
    }
}

/// A 2xx to an INVITE is kept, byte for byte, with the dialog that it
/// established, and repeated.
pub proof fn answers_are_kept_with_their_dialog(
    s: UasView,
    req: RequestSummary,
    reply: ReplyView,
    peer: Seq<char>,
    dialog: Seq<Seq<char>>,
)
    requires
        answered_dialog(req, reply) == Some(dialog),
        s.dialogs.contains_key(dialog),
    ensures
        ({
            let (after, c) = respond_step(s, req, reply, peer);
            &&& after.dialogs.contains_key(dialog)
            &&& after.dialogs[dialog].pending_2xx == Some(reply_bytes(req, reply))
            &&& c.contains(
                UasCommandView::Retransmit { dialog, bytes: reply_bytes(req, reply), peer },
            )
        }),
{
    let bytes = reply_bytes(req, reply);
    let c1 = park_step(s, dialog, bytes, peer).1;
    let c = respond_step(s, req, reply, peer).1;
    assert(c[1] == c1[1]);
}

} // verus!
