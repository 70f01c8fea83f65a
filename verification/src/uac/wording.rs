//! What the requests of an outbound call say, and what is read in its
//! responses.

use vstd::prelude::*;
use vstd::utf8::encode_utf8;

use super::ids::{branch_text, call_id_text, fresh_tag_text};
use super::message::{
    ack_bytes, after_two_spaces, bare_target, body_of, bye_bytes, dialog_request, invite_bytes,
    invite_head, reason_of, request_front, request_middle, target_address, target_of, to_tag_from,
    AckFields, ByeFields, InviteFields,
};
use super::{ack_of, bye_of, contact_of, dialog_from, invite_request, CallAttempt, UacDialog};
use crate::text;
use crate::text::laws::{
    blank, clear_of, cuts_divide_at_the_first, cuts_from_the_end_divide_at_the_last,
    first_lines_end_at_the_line_feed, lemma_clear_of_char, tight, trimming_takes_off_the_blanks,
};
use crate::uas::reading::{ends_param, is_param, parameters_stand_behind_their_marker};
use crate::uas::writing::{
    bears, closes_with, ends_line, lemma_begins, lemma_closes, lemma_group2, lemma_group3,
    lemma_group5, lemma_line_end, lemma_markers, lemma_rest, lemma_step, says,
};

verus! {

// ---------------------------------------------------------------------
// Requests
// ---------------------------------------------------------------------

spec fn start_line(method: Seq<char>, uri: Seq<char>) -> Seq<char> {
    method + " "@ + uri + " SIP/2.0\r\n"@
}

spec fn via_line(sent_by: Seq<char>, branch: Seq<char>) -> Seq<char> {
    "Via: SIP/2.0/UDP "@ + sent_by + ";branch="@ + branch + ";rport"@
}

spec fn from_line(from_uri: Seq<char>, from_tag: Seq<char>) -> Seq<char> {
    "From: "@ + from_uri + ";tag="@ + from_tag
}

spec fn cseq_line(method: Seq<char>, cseq: u32) -> Seq<char> {
    "CSeq: "@ + text::decimal(cseq as nat) + " "@ + method
}

proof fn lemma_front_literals()
    ensures
        ";rport\r\n"@ == ";rport"@ + "\r\n"@,
        "\r\nTo: "@ == "\r\n"@ + "To: "@,
        "\r\nCall-ID: "@ == "\r\n"@ + "Call-ID: "@,
        "\r\nCSeq: "@ == "\r\n"@ + "CSeq: "@,
        ends_line(" SIP/2.0\r\n"@),
{
    reveal_strlit(";rport\r\n");
    reveal_strlit(";rport");
    reveal_strlit("\r\n");
    reveal_strlit("\r\nTo: ");
    reveal_strlit("To: ");
    reveal_strlit("\r\nCall-ID: ");
    reveal_strlit("Call-ID: ");
    reveal_strlit("\r\nCSeq: ");
    reveal_strlit("CSeq: ");
    reveal_strlit(" SIP/2.0\r\n");
    assert(";rport\r\n"@ =~= ";rport"@ + "\r\n"@);
    assert("\r\nTo: "@ =~= "\r\n"@ + "To: "@);
    assert("\r\nCall-ID: "@ =~= "\r\n"@ + "Call-ID: "@);
    assert("\r\nCSeq: "@ =~= "\r\n"@ + "CSeq: "@);
}

/// A request, line by line: `to_line` is its `To`, and `tail` what follows the
/// sequence number.
proof fn lemma_request_lines(
    method: Seq<char>,
    uri: Seq<char>,
    sent_by: Seq<char>,
    branch: Seq<char>,
    from_uri: Seq<char>,
    from_tag: Seq<char>,
    to_uri: Seq<char>,
    to_tail: Seq<char>,
    call_id: Seq<char>,
    cseq: u32,
    tail: Seq<char>,
)
    ensures
        ({
            let nl = "\r\n"@;
            request_front(method, uri, sent_by, branch, from_uri, from_tag, to_uri) + to_tail
                + request_middle(method, call_id, cseq) + tail == start_line(method, uri) + (
            via_line(sent_by, branch) + nl) + (from_line(from_uri, from_tag) + nl) + ("To: "@
                + to_uri + to_tail + nl) + ("Call-ID: "@ + call_id + nl) + (cseq_line(method, cseq)
                + nl) + tail
        }),
{
    let nl = "\r\n"@;
    let n = text::decimal(cseq as nat);
    lemma_front_literals();
    let p1 = start_line(method, uri);
    let via = "Via: SIP/2.0/UDP "@ + sent_by + ";branch="@ + branch;
    lemma_group5(p1, "Via: SIP/2.0/UDP "@, sent_by, ";branch="@, branch, ";rport"@ + nl);
    lemma_group2(via, ";rport"@, nl);
    let p2 = p1 + (via_line(sent_by, branch) + nl);
    let f4 = "From: "@ + from_uri + ";tag="@ + from_tag;
    lemma_group5(p2, "From: "@, from_uri, ";tag="@, from_tag, nl + "To: "@);
    lemma_group2(f4, nl, "To: "@);
    lemma_group2(p2, f4 + nl, "To: "@);
    let p3 = p2 + (from_line(from_uri, from_tag) + nl);
    let front = request_front(method, uri, sent_by, branch, from_uri, from_tag, to_uri);
    assert(front == p3 + "To: "@ + to_uri);
    let t = "To: "@ + to_uri + to_tail;
    lemma_group3(p3, "To: "@, to_uri, to_tail);
    assert(front + to_tail == p3 + t);
    let c = "Call-ID: "@ + call_id;
    let middle = request_middle(method, call_id, cseq);
    // nl + "Call-ID: " + call_id + (nl + "CSeq: ") + n + " " + method + nl
    lemma_group2(nl, "Call-ID: "@, call_id);
    let m1 = nl + c;
    assert("\r\nCall-ID: "@ + call_id == m1);
    lemma_group2(m1, nl, "CSeq: "@);
    let m2 = m1 + nl;
    lemma_group5(m2, "CSeq: "@, n, " "@, method, nl);
    assert(middle == m2 + (cseq_line(method, cseq) + nl));
    let q = p3 + t;
    lemma_group2(q, m2, cseq_line(method, cseq) + nl);
    lemma_group2(q, m1, nl);
    lemma_group2(q, nl, c);
    lemma_group2(q + nl, c, nl);
    lemma_group2(p3, t, nl);
    let p4 = p3 + (t + nl);
    let p5 = p4 + (c + nl);
    assert(q + m2 == p5);
    assert(q + middle == p5 + (cseq_line(method, cseq) + nl));
}

proof fn lemma_front_said(
    t: Seq<char>,
    method: Seq<char>,
    uri: Seq<char>,
    sent_by: Seq<char>,
    branch: Seq<char>,
    from_uri: Seq<char>,
    from_tag: Seq<char>,
    to_uri: Seq<char>,
    to_tail: Seq<char>,
    call_id: Seq<char>,
    cseq: u32,
    tail: Seq<char>,
) -> (front: Seq<char>)
    requires
        t == request_front(method, uri, sent_by, branch, from_uri, from_tag, to_uri) + to_tail
            + request_middle(method, call_id, cseq) + tail,
    ensures
        text::begins_with(t, method + " "@ + uri + " SIP/2.0\r\n"@),
        says(t, "Via: SIP/2.0/UDP "@ + sent_by + ";branch="@ + branch + ";rport"@),
        says(t, "From: "@ + from_uri + ";tag="@ + from_tag),
        says(t, "To: "@ + to_uri + to_tail),
        says(t, "Call-ID: "@ + call_id),
        says(t, "CSeq: "@ + text::decimal(cseq as nat) + " "@ + method),
        ends_line(front),
        t == front + tail,
{
    let nl = "\r\n"@;
    lemma_request_lines(
        method,
        uri,
        sent_by,
        branch,
        from_uri,
        from_tag,
        to_uri,
        to_tail,
        call_id,
        cseq,
        tail,
    );
    lemma_front_literals();
    let a1 = start_line(method, uri);
    lemma_line_end(method + " "@ + uri, " SIP/2.0\r\n"@);
    let via = via_line(sent_by, branch);
    let from = from_line(from_uri, from_tag);
    let to = "To: "@ + to_uri + to_tail;
    let call = "Call-ID: "@ + call_id;
    let number = cseq_line(method, cseq);
    let a2 = a1 + (via + nl);
    let a3 = a2 + (from + nl);
    let a4 = a3 + (to + nl);
    let a5 = a4 + (call + nl);
    let a6 = a5 + (number + nl);
    let b5 = (number + nl) + tail;
    let b4 = (call + nl) + b5;
    let b3 = (to + nl) + b4;
    let b2 = (from + nl) + b3;
    lemma_rest(t, a6, tail, a5, number + nl);
    lemma_rest(t, a5, b5, a4, call + nl);
    lemma_rest(t, a4, b4, a3, to + nl);
    lemma_rest(t, a3, b3, a2, from + nl);
    lemma_rest(t, a2, b2, a1, via + nl);
    lemma_step(t, a1, via, b2);
    lemma_step(t, a2, from, b3);
    lemma_step(t, a3, to, b4);
    lemma_step(t, a4, call, b5);
    lemma_step(t, a5, number, tail);
    lemma_begins(t, a1, (via + nl) + b2);
    a6
}

/// A request inside a call comes from the engine's URI and tag and goes to the
/// peer's, under the call's Call-ID and the given number, and has no body.
pub proof fn requests_carry_their_call(
    method: Seq<char>,
    uri: Seq<char>,
    sent_by: Seq<char>,
    branch: Seq<char>,
    from_uri: Seq<char>,
    from_tag: Seq<char>,
    to_uri: Seq<char>,
    to_tag: Seq<char>,
    call_id: Seq<char>,
    cseq: u32,
)
    ensures
        ({
            let t = dialog_request(
                method,
                uri,
                sent_by,
                branch,
                from_uri,
                from_tag,
                to_uri,
                to_tag,
                call_id,
                cseq,
            );
            &&& text::begins_with(t, method + " "@ + uri + " SIP/2.0\r\n"@)
            &&& says(t, "Via: SIP/2.0/UDP "@ + sent_by + ";branch="@ + branch + ";rport"@)
            &&& says(t, "From: "@ + from_uri + ";tag="@ + from_tag)
            &&& says(t, "To: "@ + to_uri + (";tag="@ + to_tag))
            &&& says(t, "Call-ID: "@ + call_id)
            &&& says(t, "CSeq: "@ + text::decimal(cseq as nat) + " "@ + method)
            &&& says(t, "Max-Forwards: 70"@)
            &&& closes_with(t, "Content-Length: 0"@)
        }),
{
    let t = dialog_request(
        method,
        uri,
        sent_by,
        branch,
        from_uri,
        from_tag,
        to_uri,
        to_tag,
        call_id,
        cseq,
    );
    let nl = "\r\n"@;
    let end = "Content-Length: 0"@ + "\r\n\r\n"@;
    let tail = "Max-Forwards: 70\r\nContent-Length: 0\r\n\r\n"@;
    reveal_strlit("Max-Forwards: 70\r\nContent-Length: 0\r\n\r\n");
    reveal_strlit("Max-Forwards: 70");
    reveal_strlit("Content-Length: 0");
    reveal_strlit("\r\n");
    reveal_strlit("\r\n\r\n");
    assert(tail =~= ("Max-Forwards: 70"@ + nl) + end);
    lemma_group2(
        request_front(method, uri, sent_by, branch, from_uri, from_tag, to_uri),
        ";tag="@,
        to_tag,
    );
    let front = lemma_front_said(
        t,
        method,
        uri,
        sent_by,
        branch,
        from_uri,
        from_tag,
        to_uri,
        ";tag="@ + to_tag,
        call_id,
        cseq,
        tail,
    );
    lemma_group2(front, "Max-Forwards: 70"@ + nl, end);
    lemma_step(t, front, "Max-Forwards: 70"@, end);
    lemma_closes(t, front + ("Max-Forwards: 70"@ + nl), "Content-Length: 0"@);
}

/// The ACK and the BYE of a call say what they were made of.
pub proof fn acks_and_byes_are_requests_of_the_call(a: AckFields<'_>, b: ByeFields<'_>)
    ensures
        ack_bytes(a) == encode_utf8(
            dialog_request(
                "ACK"@,
                a.request_uri@,
                a.via_sent_by@,
                a.branch@,
                a.from_uri@,
                a.from_tag@,
                a.to_uri@,
                a.to_tag@,
                a.call_id@,
                a.cseq,
            ),
        ),
        bye_bytes(b) == encode_utf8(
            dialog_request(
                "BYE"@,
                b.request_uri@,
                b.via_sent_by@,
                b.branch@,
                b.from_uri@,
                b.from_tag@,
                b.to_uri@,
                b.to_tag@,
                b.call_id@,
                b.cseq,
            ),
        ),
{
}

/// An INVITE says whom it calls and from where, and states the length of the
/// SDP offer that follows it.
pub proof fn invites_say_whom_they_call(f: InviteFields<'_>)
    ensures
        ({
            let t = invite_head(f);
            &&& invite_bytes(f) == encode_utf8(t) + encode_utf8(f.sdp@)
            &&& text::begins_with(t, "INVITE"@ + " "@ + f.request_uri@ + " SIP/2.0\r\n"@)
            &&& says(t, "Via: SIP/2.0/UDP "@ + f.via_sent_by@ + ";branch="@ + f.branch@ + ";rport"@)
            &&& says(t, "From: "@ + f.from_uri@ + ";tag="@ + f.from_tag@)
            &&& says(t, "To: "@ + f.to_uri@)
            &&& says(t, "Call-ID: "@ + f.call_id@)
            &&& says(t, "CSeq: "@ + text::decimal(f.cseq as nat) + " "@ + "INVITE"@)
            &&& says(t, "Max-Forwards: 70"@)
            &&& says(t, "Contact: "@ + f.contact@)
            &&& says(t, "Content-Type: application/sdp"@)
            &&& closes_with(t, "Content-Length: "@ + text::decimal(encode_utf8(f.sdp@).len()))
        }),
{
    let t = invite_head(f);
    let nl = "\r\n"@;
    let none = Seq::<char>::empty();
    let n = text::decimal(encode_utf8(f.sdp@).len());
    let contact = "Contact: "@ + f.contact@;
    let kind = "Content-Type: application/sdp"@;
    let length = "Content-Length: "@ + n;
    let tail = "Max-Forwards: 70\r\nContact: "@ + f.contact@
        + "\r\nContent-Type: application/sdp\r\nContent-Length: "@ + n + "\r\n\r\n"@;
    lemma_invite_tail(f.contact@, n);
    let front0 = request_front(
        "INVITE"@,
        f.request_uri@,
        f.via_sent_by@,
        f.branch@,
        f.from_uri@,
        f.from_tag@,
        f.to_uri@,
    );
    let middle = request_middle("INVITE"@, f.call_id@, f.cseq);
    lemma_group5(
        front0 + middle,
        "Max-Forwards: 70\r\nContact: "@,
        f.contact@,
        "\r\nContent-Type: application/sdp\r\nContent-Length: "@,
        n,
        "\r\n\r\n"@,
    );
    assert(front0 + none =~= front0);
    let front = lemma_front_said(
        t,
        "INVITE"@,
        f.request_uri@,
        f.via_sent_by@,
        f.branch@,
        f.from_uri@,
        f.from_tag@,
        f.to_uri@,
        none,
        f.call_id@,
        f.cseq,
        tail,
    );
    assert("To: "@ + f.to_uri@ + none =~= "To: "@ + f.to_uri@);
    let end = length + "\r\n\r\n"@;
    let b2 = (kind + nl) + end;
    let b1 = (contact + nl) + b2;
    let a1 = front + ("Max-Forwards: 70"@ + nl);
    let a2 = a1 + (contact + nl);
    let a3 = a2 + (kind + nl);
    lemma_group2(front, "Max-Forwards: 70"@ + nl, b1);
    lemma_group2(a1, contact + nl, b2);
    lemma_group2(a2, kind + nl, end);
    lemma_step(t, front, "Max-Forwards: 70"@, b1);
    lemma_step(t, a1, contact, b2);
    lemma_step(t, a2, kind, end);
    lemma_closes(t, a3, length);
}

proof fn lemma_invite_tail(contact: Seq<char>, n: Seq<char>)
    ensures
        "Max-Forwards: 70\r\nContact: "@ + contact
            + "\r\nContent-Type: application/sdp\r\nContent-Length: "@ + n + "\r\n\r\n"@ == (
        "Max-Forwards: 70"@ + "\r\n"@) + (("Contact: "@ + contact + "\r\n"@) + ((
        "Content-Type: application/sdp"@ + "\r\n"@) + ("Content-Length: "@ + n + "\r\n\r\n"@))),
{
    reveal_strlit("Max-Forwards: 70\r\nContact: ");
    reveal_strlit("Max-Forwards: 70");
    reveal_strlit("Contact: ");
    reveal_strlit("\r\nContent-Type: application/sdp\r\nContent-Length: ");
    reveal_strlit("Content-Type: application/sdp");
    reveal_strlit("Content-Length: ");
    reveal_strlit("\r\n");
    let nl = "\r\n"@;
    let m = "Max-Forwards: 70"@ + nl;
    let k = "Content-Type: application/sdp"@ + nl;
    let l = "Content-Length: "@;
    assert("Max-Forwards: 70\r\nContact: "@ =~= m + "Contact: "@);
    assert("\r\nContent-Type: application/sdp\r\nContent-Length: "@ =~= nl + (k + l));
    lemma_tail_pieces(m, "Contact: "@, contact, nl, k, l, n, "\r\n\r\n"@);
}

proof fn lemma_tail_pieces(
    m: Seq<char>,
    c: Seq<char>,
    contact: Seq<char>,
    nl: Seq<char>,
    k: Seq<char>,
    l: Seq<char>,
    n: Seq<char>,
    e: Seq<char>,
)
    ensures
        (m + c) + contact + (nl + (k + l)) + n + e == m + ((c + contact + nl) + (k + (l + n + e))),
{
    assert((m + c) + contact + (nl + (k + l)) + n + e =~= m + ((c + contact + nl) + (k + (l + n
        + e))));
}

/// The INVITE of an attempt calls its target, from the engine's contact with
/// the attempt's own tag and Call-ID, under number 1.
pub proof fn attempts_call_their_target(
    attempt: CallAttempt,
    addr: Seq<char>,
    contact: Seq<char>,
    sdp: Seq<char>,
    f: InviteFields<'_>,
)
    requires
        f.request_uri@ == attempt.target_uri@,
        f.via_sent_by@ == addr,
        f.branch@ == attempt.branch@,
        f.from_uri@ == contact,
        f.from_tag@ == attempt.local_tag@,
        f.to_uri@ == attempt.target_uri@,
        f.call_id@ == attempt.call_id@,
        f.cseq == 1,
        f.contact@ == contact,
        f.sdp@ == sdp,
    ensures
        invite_request(attempt, addr, contact, sdp) == invite_bytes(f),
{
}

/// The ACK and the BYE of a call turn to the peer's tag, from the engine's; the
/// ACK has the number of the INVITE and the BYE the next.
pub proof fn calls_keep_their_sides(
    attempt: CallAttempt,
    remote_tag: Seq<char>,
    addr: Seq<char>,
    branch: Seq<char>,
    d: UacDialog,
)
    requires
        dialog_from(attempt, remote_tag, addr, d),
    ensures
        ({
            let ack = ack_of(attempt, remote_tag, addr, branch);
            let bye = bye_of(d, branch, d.call_id@);
            let from = "From: "@ + ("<sip:smiths@"@ + addr + ">"@) + ";tag="@ + attempt.local_tag@;
            let to = "To: "@ + attempt.target_uri@ + (";tag="@ + remote_tag);
            &&& text::begins_with(ack, "ACK"@ + " "@ + attempt.target_uri@ + " SIP/2.0\r\n"@)
            &&& text::begins_with(bye, "BYE"@ + " "@ + attempt.target_uri@ + " SIP/2.0\r\n"@)
            &&& says(ack, from) && says(bye, from)
            &&& says(ack, to) && says(bye, to)
            &&& says(ack, "Call-ID: "@ + attempt.call_id@)
            &&& says(bye, "Call-ID: "@ + attempt.call_id@)
            &&& says(ack, "CSeq: "@ + text::decimal(1) + " "@ + "ACK"@)
            &&& says(bye, "CSeq: "@ + text::decimal(2) + " "@ + "BYE"@)
        }),
{
    requests_carry_their_call(
        "ACK"@,
        attempt.target_uri@,
        addr,
        branch,
        contact_of(addr),
        attempt.local_tag@,
        attempt.target_uri@,
        remote_tag,
        attempt.call_id@,
        1,
    );
    requests_carry_their_call(
        "BYE"@,
        attempt.target_uri@,
        addr,
        branch,
        contact_of(addr),
        attempt.local_tag@,
        attempt.target_uri@,
        remote_tag,
        attempt.call_id@,
        2,
    );
}

// ---------------------------------------------------------------------
// Targets
// ---------------------------------------------------------------------

/// White space and angle brackets around a target make no difference.
pub proof fn targets_are_unwrapped(a: Seq<char>, uri: Seq<char>, b: Seq<char>)
    requires
        blank(a),
        blank(b),
        uri.len() > 0,
        tight(uri),
        uri[0] != '<',
    ensures
        bare_target(a + uri + b) == uri,
        bare_target(a + ("<"@ + uri + ">"@) + b) == uri,
{
    reveal_strlit("<");
    reveal_strlit(">");
    trimming_takes_off_the_blanks(a, uri, b);
    let wrapped = "<"@ + uri + ">"@;
    assert(wrapped[0] == '<' && wrapped.last() == '>');
    trimming_takes_off_the_blanks(a, wrapped, b);
    assert(wrapped.subrange(1, wrapped.len() - 1) =~= uri);
}

/// A `sip:` target is called at the host and port behind its user, at port 5060
/// where it names none; the colons of an IPv6 address name none.
pub proof fn targets_are_located(user: Seq<char>, host: Seq<char>, port: Seq<char>)
    requires
        !host.contains('@') && !host.contains(':') && !host.contains(']') && !host.contains('['),
        !port.contains('@') && !port.contains(']'),
    ensures
        target_address(user + "@"@ + host) == host + ":5060"@,
        target_address(user + "@"@ + host + ":"@ + port) == host + ":"@ + port,
        !user.contains('@') && !user.contains(':') && !user.contains(']') ==> target_address(user)
            == user + ":5060"@,
{
    reveal_strlit("@");
    reveal_strlit(":");
    assert("@"@ =~= seq!['@'] && ":"@ =~= seq![':']);
    cuts_from_the_end_divide_at_the_last(user, '@', host);
    cuts_from_the_end_divide_at_the_last(user, ']', host);
    let with_port = host + ":"@ + port;
    assert(user + "@"@ + host + ":"@ + port =~= user + "@"@ + with_port);
    assert forall|i: int| 0 <= i < with_port.len() implies with_port[i] != '@' && with_port[i]
        != ']' by {
        if i < host.len() {
            assert(host.contains(host[i]));
        } else if i > host.len() {
            assert(port.contains(port[i - host.len() - 1]));
            assert(with_port[i] == port[i - host.len() - 1]);
        }
    }
    cuts_from_the_end_divide_at_the_last(user, '@', with_port);
    cuts_from_the_end_divide_at_the_last(user, ']', with_port);
    assert(with_port[host.len() as int] == ':');
    assert(with_port.contains(':'));
    if !user.contains('@') && !user.contains(']') {
        cuts_from_the_end_divide_at_the_last(user, '@', user);
        cuts_from_the_end_divide_at_the_last(user, ']', user);
    }
}

/// An IPv6 host in brackets names a port only behind them.
pub proof fn bracketed_hosts_are_located(user: Seq<char>, inner: Seq<char>, port: Seq<char>)
    requires
        !inner.contains('@') && !inner.contains(']'),
        !port.contains('@') && !port.contains(']'),
    ensures
        target_address(user + "@"@ + ("["@ + inner + "]"@)) == "["@ + inner + "]"@ + ":5060"@,
        target_address(user + "@"@ + ("["@ + inner + "]"@ + ":"@ + port)) == "["@ + inner + "]"@
            + ":"@ + port,
{
    reveal_strlit("@");
    reveal_strlit(":");
    reveal_strlit("[");
    reveal_strlit("]");
    assert("@"@ =~= seq!['@'] && ":"@ =~= seq![':'] && "["@ =~= seq!['['] && "]"@ =~= seq![']']);
    let none = Seq::<char>::empty();
    let host = "["@ + inner + "]"@;
    let full = host + ":"@ + port;
    assert forall|i: int| 0 <= i < full.len() implies full[i] != '@' by {
        if 1 <= i < 1 + inner.len() {
            assert(full[i] == inner[i - 1]);
            assert(inner.contains(inner[i - 1]));
        } else if i > host.len() {
            assert(full[i] == port[i - host.len() - 1]);
            assert(port.contains(port[i - host.len() - 1]));
        }
    }
    assert forall|i: int| 0 <= i < host.len() implies host[i] != '@' by {
        assert(host[i] == full[i]);
    }
    assert(!full.contains('@') && !host.contains('@'));
    cuts_from_the_end_divide_at_the_last(user, '@', host);
    cuts_from_the_end_divide_at_the_last(user, '@', full);
    let open = "["@ + inner;
    cuts_from_the_end_divide_at_the_last(open, ']', none);
    assert(open + seq![']'] + none =~= host);
    assert(!none.contains(':'));
    let rest = ":"@ + port;
    assert(!rest.contains(']')) by {
        if rest.contains(']') {
            let j = choose|j: int| 0 <= j < rest.len() && rest[j] == ']';
            assert(j > 0 && rest[j] == port[j - 1]);
            assert(port.contains(port[j - 1]));
        }
    }
    cuts_from_the_end_divide_at_the_last(open, ']', rest);
    assert(open + seq![']'] + rest =~= full);
    assert(rest[0] == ':');
    assert(rest.contains(':'));
}

/// Only a `sip:` URI can be called, and it is called as it stands.
pub proof fn targets_are_sip_uris(target: Seq<char>)
    ensures
        target_of(target) is Some <==> text::begins_with(bare_target(target), "sip:"@),
        target_of(target) matches Some(t) ==> t.0 == bare_target(target) && t.1 == target_address(
            t.0.subrange(4, t.0.len() as int),
        ),
{
    reveal_strlit("sip:");
    assert("sip:"@.len() == 4);
}

// ---------------------------------------------------------------------
// Responses
// ---------------------------------------------------------------------

/// The reason of a response is what follows its status, up to the end of the
/// line.
pub proof fn reasons_are_read(version: Seq<char>, code: Seq<char>, reason: Seq<char>)
    requires
        !version.contains(' '),
        !code.contains(' '),
    ensures
        after_two_spaces(version + " "@ + code + " "@ + reason) == reason,
{
    reveal_strlit(" ");
    assert(" "@ =~= seq![' ']);
    let rest = code + " "@ + reason;
    assert(version + " "@ + code + " "@ + reason =~= version + " "@ + rest);
    lemma_clear_of_char(version, ' ');
    cuts_divide_at_the_first(version, seq![' '], rest);
    lemma_clear_of_char(code, ' ');
    cuts_divide_at_the_first(code, seq![' '], reason);
}

/// Reason and body of a response are those of its text: the reason is in the
/// first line, and the body is what follows the first empty one.
pub proof fn responses_are_read(bytes: Seq<u8>, line: Seq<char>, rest: Seq<char>, body: Seq<char>)
    requires
        !line.contains('\n'),
        clear_of(line + "\r\n"@ + rest, "\r\n\r\n"@),
        text::utf8_text(bytes) == Some(line + "\r\n"@ + rest + "\r\n\r\n"@ + body),
    ensures
        reason_of(bytes) == after_two_spaces(line),
        body_of(bytes) == body,
{
    let head = line + "\r\n"@ + rest;
    cuts_divide_at_the_first(head, "\r\n\r\n"@, body);
    reveal_strlit("\r\n");
    assert("\r\n"@ =~= seq!['\r', '\n']);
    let more = rest + "\r\n\r\n"@ + body;
    first_lines_end_at_the_line_feed(line, more);
    assert(line + seq!['\r', '\n'] + more =~= head + "\r\n\r\n"@ + body);
}

/// The `To` tag of a response is that of the first `To` line that has one.
pub proof fn to_tags_are_read(
    lines: Seq<Seq<char>>,
    k: int,
    a: Seq<char>,
    spelled: Seq<char>,
    tag: Seq<char>,
    b: Seq<char>,
)
    requires
        0 <= k < lines.len(),
        lines[k] == a + spelled + tag + b,
        bears(lines[k], "To"@) || bears(lines[k], "t"@),
        text::lowered(spelled) == ";tag="@,
        clear_of(text::lowered(a), ";tag="@),
        is_param(tag, seq![';']),
        ends_param(b, seq![';']),
        forall|j: int|
            0 <= j < k ==> !bears(#[trigger] lines[j], "To"@) && !bears(lines[j], "t"@),
    ensures
        to_tag_from(lines, 0) == Some(tag),
{
    parameters_stand_behind_their_marker(a, ";tag="@, spelled, tag, b, seq![';']);
    lemma_markers(lines[k]);
    lemma_to_skips(lines, 0, k);
}

proof fn lemma_to_skips(lines: Seq<Seq<char>>, i: int, k: int)
    requires
        0 <= i <= k <= lines.len(),
        forall|j: int|
            i <= j < k ==> !bears(#[trigger] lines[j], "To"@) && !bears(lines[j], "t"@),
    ensures
        to_tag_from(lines, i) == to_tag_from(lines, k),
    decreases k - i,
{
    if i < k {
        lemma_markers(lines[i]);
        assert(!bears(lines[i], "To"@));
        lemma_to_skips(lines, i + 1, k);
    }
}

// ---------------------------------------------------------------------
// Identifiers
// ---------------------------------------------------------------------

/// A branch begins with the cookie of RFC 3261, and identifiers hold the clock
/// reading they were made at.
pub proof fn identifiers_hold_the_clock(
    count: u64,
    nanos: u32,
    wide: u64,
    local: Seq<char>,
    prefix: Seq<char>,
)
    ensures
        text::begins_with(branch_text(count, wide), "z9hG4bK"@),
        text::uint_value(branch_text(count, wide).subrange(8, 24), 16, u64::MAX as nat) == Some(
            wide as nat,
        ),
        text::uint_value(call_id_text(count, nanos, local).subrange(0, 8), 16, u32::MAX as nat)
            == Some(nanos as nat),
        text::begins_with(fresh_tag_text(count, nanos, prefix), prefix + "-"@),
        ({
            let id = call_id_text(count, nanos, local);
            text::occurs_at(id, "@"@ + local, id.len() - local.len() - 1)
        }),
{
    let b = branch_text(count, wide);
    let id = call_id_text(count, nanos, local);
    let tag = fresh_tag_text(count, nanos, prefix);
    text::lemma_padded_hex_len(wide as nat);
    text::lemma_padded_hex_len(nanos as nat);
    text::laws::padded_hex_reads_back(wide as nat, 16, u64::MAX as nat);
    text::laws::padded_hex_reads_back(nanos as nat, 8, u32::MAX as nat);
    reveal_strlit("z9hG4bK-");
    reveal_strlit("z9hG4bK");
    reveal_strlit("@");
    assert("z9hG4bK-"@.len() == 8 && "z9hG4bK"@.len() == 7);
    assert(b.subrange(0, 7) =~= "z9hG4bK"@);
    assert(b.subrange(8, 24) =~= text::padded_hex(wide as nat, 16));
    assert(id.subrange(0, 8) =~= text::padded_hex(nanos as nat, 8));
    let k = id.len() - local.len() - 1;
    assert(id.subrange(k, k + ("@"@ + local).len()) =~= "@"@ + local);
    let front = prefix + "-"@;
    assert(tag.subrange(0, front.len() as int) =~= front);
}

/// A line without two spaces has no reason, and a message without an empty line
/// no body.
pub proof fn missing_parts_are_empty(line: Seq<char>, bytes: Seq<u8>, t: Seq<char>)
    requires
        text::utf8_text(bytes) == Some(t),
    ensures
        !line.contains(' ') ==> after_two_spaces(line).len() == 0,
        (forall|i: int| 0 <= i ==> !#[trigger] text::occurs_at(t, "\r\n\r\n"@, i)) ==> body_of(
            bytes,
        ).len() == 0,
{
    text::laws::cuts_need_the_separator(t, "\r\n\r\n"@);
    text::laws::cuts_need_the_separator(line, seq![' ']);
    if !line.contains(' ') {
        assert forall|i: int| 0 <= i implies !#[trigger] text::occurs_at(line, seq![' '], i) by {
            text::laws::characters_occur(line, ' ', i);
            if i < line.len() {
                assert(line.contains(line[i]));
            }
        }
    }
}

/// The requests of a call hold what is said of them and nothing else.
pub proof fn call_requests_hold_nothing_else(
    method: Seq<char>,
    uri: Seq<char>,
    sent_by: Seq<char>,
    branch: Seq<char>,
    from_uri: Seq<char>,
    from_tag: Seq<char>,
    to_uri: Seq<char>,
    to_tag: Seq<char>,
    call_id: Seq<char>,
    cseq: u32,
    f: InviteFields<'_>,
)
    ensures
        ({
            let t = dialog_request(
                method,
                uri,
                sent_by,
                branch,
                from_uri,
                from_tag,
                to_uri,
                to_tag,
                call_id,
                cseq,
            );
            t.len() == (method.len() + 1 + uri.len() + 10) + (17 + sent_by.len() + 8 + branch.len()
                + 8) + (6 + from_uri.len() + 5 + from_tag.len() + 2) + (4 + to_uri.len() + 5
                + to_tag.len() + 2) + (9 + call_id.len() + 2) + (6 + text::decimal(
                cseq as nat,
            ).len() + 1 + method.len() + 2) + 18 + 21
        }),
        ({
            let t = invite_head(f);
            t.len() == (6 + 1 + f.request_uri@.len() + 10) + (17 + f.via_sent_by@.len() + 8
                + f.branch@.len() + 8) + (6 + f.from_uri@.len() + 5 + f.from_tag@.len() + 2) + (4
                + f.to_uri@.len() + 2) + (9 + f.call_id@.len() + 2) + (6 + text::decimal(
                f.cseq as nat,
            ).len() + 1 + 6 + 2) + 18 + (9 + f.contact@.len() + 2) + 31 + (16 + text::decimal(
                encode_utf8(f.sdp@).len(),
            ).len() + 4)
        }),
{
    reveal_strlit("INVITE");
    reveal_strlit(" ");
    reveal_strlit(" SIP/2.0\r\n");
    reveal_strlit("Via: SIP/2.0/UDP ");
    reveal_strlit(";branch=");
    reveal_strlit(";rport\r\n");
    reveal_strlit("From: ");
    reveal_strlit(";tag=");
    reveal_strlit("\r\nTo: ");
    reveal_strlit("\r\nCall-ID: ");
    reveal_strlit("\r\nCSeq: ");
    reveal_strlit("\r\n");
    reveal_strlit("\r\n\r\n");
    reveal_strlit("Max-Forwards: 70\r\nContent-Length: 0\r\n\r\n");
    reveal_strlit("Max-Forwards: 70\r\nContact: ");
    reveal_strlit("\r\nContent-Type: application/sdp\r\nContent-Length: ");
    assert("INVITE"@.len() == 6 && " "@.len() == 1 && " SIP/2.0\r\n"@.len() == 10);
    assert("Via: SIP/2.0/UDP "@.len() == 17 && ";branch="@.len() == 8);
    assert(";rport\r\n"@.len() == 8 && "From: "@.len() == 6 && ";tag="@.len() == 5);
    assert("\r\nTo: "@.len() == 6 && "\r\nCall-ID: "@.len() == 11 && "\r\nCSeq: "@.len() == 8);
    assert("\r\n"@.len() == 2 && "\r\n\r\n"@.len() == 4);
    assert("Max-Forwards: 70\r\nContent-Length: 0\r\n\r\n"@.len() == 39);
    assert("Max-Forwards: 70\r\nContact: "@.len() == 27);
    assert("\r\nContent-Type: application/sdp\r\nContent-Length: "@.len() == 49);
}

} // verus!
