//! ACK construction for non-2xx final responses to INVITE.
//!
//! The client INVITE transaction itself acknowledges final responses in the
//! range 300 to 699 (RFC 3261 section 17.1.1.3). That ACK is no new
//! transaction: it repeats the INVITE's `Via`, `From`, `Call-ID` and
//! Request-URI, and takes `To`, with the server's tag, from the response.

use vstd::prelude::*;
use vstd::utf8::encode_utf8;

use crate::text;

verus! {

/// The first line at or after `i` whose lower-case form begins with `a` or `b`.
pub open spec fn header_line_from(
    lines: Seq<Seq<char>>,
    a: Seq<char>,
    b: Seq<char>,
    i: int,
) -> Option<Seq<char>>
    decreases lines.len() - i,
{
    if i < 0 || i >= lines.len() {
        None
    } else if text::begins_with(text::lowered(lines[i]), a) || text::begins_with(
        text::lowered(lines[i]),
        b,
    ) {
        Some(lines[i])
    } else {
        header_line_from(lines, a, b, i + 1)
    }
}

/// The first line whose lower-case form begins with `a` or `b`.
pub open spec fn header_line(lines: Seq<Seq<char>>, a: Seq<char>, b: Seq<char>) -> Option<
    Seq<char>,
> {
    header_line_from(lines, a, b, 0)
}

/// The lines before the first empty one, from `i` on.
pub open spec fn until_blank_from(lines: Seq<Seq<char>>, i: int) -> Seq<Seq<char>>
    decreases lines.len() - i,
{
    if i < 0 || i >= lines.len() || lines[i].len() == 0 {
        seq![]
    } else {
        seq![lines[i]] + until_blank_from(lines, i + 1)
    }
}

/// The second word of a request line: the Request-URI.
pub open spec fn request_uri_of(request_line: Seq<char>) -> Option<Seq<char>> {
    text::word(request_line, 1)
}

/// The number in a `CSeq` header line.
pub open spec fn cseq_number_of(line: Seq<char>) -> Option<Seq<char>> {
    match text::cut(line, seq![':']) {
        Some(p) => text::word(text::trimmed(p.1), 0),
        None => None,
    }
}

/// The number of the first `CSeq` line, from `i` on, that carries one.
pub open spec fn cseq_number_from(lines: Seq<Seq<char>>, i: int) -> Option<Seq<char>>
    decreases lines.len() - i,
{
    if i < 0 || i >= lines.len() {
        None
    } else if text::begins_with(text::lowered(lines[i]), "cseq:"@) && cseq_number_of(
        lines[i],
    ) is Some {
        cseq_number_of(lines[i])
    } else {
        cseq_number_from(lines, i + 1)
    }
}

/// Every `Route` line from `i` on, each with its line break.
pub open spec fn route_lines_from(lines: Seq<Seq<char>>, i: int) -> Seq<char>
    decreases lines.len() - i,
{
    if i < 0 || i >= lines.len() {
        seq![]
    } else if text::begins_with(text::lowered(lines[i]), "route:"@) {
        lines[i] + "\r\n"@ + route_lines_from(lines, i + 1)
    } else {
        route_lines_from(lines, i + 1)
    }
}

/// The part of a message before its empty line.
pub open spec fn head_of(message: Seq<char>) -> Seq<char> {
    match text::cut(message, "\r\n\r\n"@) {
        Some(p) => p.0,
        None => message,
    }
}

/// The ACK that answers `response` to `invite`; `None` when a header that it
/// repeats is missing.
pub open spec fn ack_text(invite: Seq<char>, response: Seq<char>) -> Option<Seq<char>> {
    let all = text::split(head_of(invite), "\r\n"@);
    let lines = until_blank_from(all, 1);
    let uri = request_uri_of(all[0]);
    let via = header_line(lines, "via:"@, "v:"@);
    let from = header_line(lines, "from:"@, "f:"@);
    let call_id = header_line(lines, "call-id:"@, "i:"@);
    let cseq = cseq_number_from(lines, 0);
    let to = header_line(text::split(head_of(response), "\r\n"@), "to:"@, "t:"@);
    let forwards = match header_line(lines, "max-forwards:"@, "max-forwards:"@) {
        Some(l) => l + "\r\n"@,
        None => "Max-Forwards: 70\r\n"@,
    };
    if uri is Some && via is Some && from is Some && call_id is Some && cseq is Some && to is Some {
        Some(
            "ACK "@ + uri->0 + " SIP/2.0\r\n"@ + via->0 + "\r\n"@ + route_lines_from(lines, 0)
                + from->0 + "\r\n"@ + to->0 + "\r\n"@ + call_id->0 + "\r\n"@ + "CSeq: "@ + cseq->0
                + " ACK\r\n"@ + forwards + "Content-Length: 0\r\n\r\n"@,
        )
    } else {
        None
    }
}

/// The bytes of the ACK that answers `response` to `invite`.
pub open spec fn non_ok_ack(invite: Seq<u8>, response: Seq<u8>) -> Option<Seq<u8>> {
    match (text::utf8_text(invite), text::utf8_text(response)) {
        (Some(i), Some(r)) => match ack_text(i, r) {
            Some(a) => Some(encode_utf8(a)),
            None => None,
        },
        _ => None,
    }
}

/// The first of `lines` whose lower-case form begins with `a` or `b`.
pub(crate) fn find_header<'a>(lines: &Vec<&'a [char]>, a: &str, b: &str) -> (r: Option<&'a [char]>)
    ensures
        r matches Some(l) ==> header_line(text::views(lines@), a@, b@) == Some(l@),
        r is None ==> header_line(text::views(lines@), a@, b@) is None,
{
    let x = text::to_chars(a);
    let y = text::to_chars(b);
    let mut i: usize = 0;
    while i < lines.len()
        invariant
            i <= lines.len(),
            x@ == a@,
            y@ == b@,
            header_line(text::views(lines@), a@, b@) == header_line_from(
                text::views(lines@),
                a@,
                b@,
                i as int,
            ),
        decreases lines.len() - i,
    {
        let lower = text::to_lower(lines[i]);
        if text::has_prefix(&lower, &x) || text::has_prefix(&lower, &y) {
            return Some(lines[i]);
        }
        i = i + 1;
    }
    None
}

/// The lines before the first empty one, without the first `skip` lines.
pub(crate) fn header_block<'a>(lines: &Vec<&'a [char]>, skip: usize) -> (r: Vec<&'a [char]>)
    ensures
        text::views(r@) == until_blank_from(text::views(lines@), skip as int),
{
    let mut out: Vec<&'a [char]> = Vec::new();
    let mut i: usize = skip;
    assert(text::views(out@) =~= seq![]);
    while i < lines.len() && lines[i].len() > 0
        invariant
            text::views(out@) + until_blank_from(text::views(lines@), i as int)
                =~= until_blank_from(text::views(lines@), skip as int),
        decreases lines.len() - i,
    {
        let ghost before = out@;
        out.push(lines[i]);
        assert(text::views(out@) =~= text::views(before).push(lines@[i as int]@));
        i = i + 1;
    }
    out
}

/// The Request-URI in a request line.
pub fn extract_request_uri(request_line: &[char]) -> (r: Option<&[char]>)
    ensures
        r matches Some(u) ==> request_uri_of(request_line@) == Some(u@),
        r is None ==> request_uri_of(request_line@) is None,
{
    let w = text::split_words(request_line);
    if w.len() > 1 {
        Some(w[1])
    } else {
        None
    }
}

/// The number in a `CSeq` header line.
pub fn parse_cseq_num(line: &[char]) -> (r: Option<&[char]>)
    ensures
        r matches Some(n) ==> cseq_number_of(line@) == Some(n@),
        r is None ==> cseq_number_of(line@) is None,
{
    let colon: [char; 1] = [':'];
    assert(colon@ =~= seq![':']);
    match text::split_once(line, &colon) {
        Some(p) => {
            let w = text::split_words(text::trim(p.1));
            if w.len() > 0 {
                Some(w[0])
            } else {
                None
            }
        },
        None => None,
    }
}

fn find_cseq<'a>(lines: &Vec<&'a [char]>) -> (r: Option<&'a [char]>)
    ensures
        r matches Some(n) ==> cseq_number_from(text::views(lines@), 0) == Some(n@),
        r is None ==> cseq_number_from(text::views(lines@), 0) is None,
{
    let prefix = text::to_chars("cseq:");
    let mut i: usize = 0;
    while i < lines.len()
        invariant
            i <= lines.len(),
            prefix@ == "cseq:"@,
            cseq_number_from(text::views(lines@), 0) == cseq_number_from(
                text::views(lines@),
                i as int,
            ),
        decreases lines.len() - i,
    {
        let lower = text::to_lower(lines[i]);
        if text::has_prefix(&lower, &prefix) {
            match parse_cseq_num(lines[i]) {
                Some(n) => {
                    return Some(n);
                },
                None => {},
            }
        }
        i = i + 1;
    }
    None
}

fn push_routes(out: &mut String, lines: &Vec<&[char]>)
    ensures
        final(out)@ == old(out)@ + route_lines_from(text::views(lines@), 0),
{
    let prefix = text::to_chars("route:");
    let mut i: usize = 0;
    while i < lines.len()
        invariant
            i <= lines.len(),
            prefix@ == "route:"@,
            out@ + route_lines_from(text::views(lines@), i as int) == old(out)@ + route_lines_from(
                text::views(lines@),
                0,
            ),
        decreases lines.len() - i,
    {
        let lower = text::to_lower(lines[i]);
        let ghost before = out@;
        if text::has_prefix(&lower, &prefix) {
            text::push_chars(out, lines[i]);
            text::push_crlf(out);
            proof {
                let rest = route_lines_from(text::views(lines@), i + 1);
                assert(before + (lines@[i as int]@ + "\r\n"@ + rest) =~= before + lines@[i as int]@
                    + "\r\n"@ + rest);
            }
        }
        i = i + 1;
    }
    assert(out@ + Seq::<char>::empty() =~= out@);
}

/// Builds the ACK for a non-2xx final `response_bytes` to the INVITE
/// `invite_bytes`. `None` when either message is no UTF-8 text or lacks a
/// header that the ACK repeats.
#[verifier::spinoff_prover]
pub fn build_non_ok_ack(invite_bytes: &[u8], response_bytes: &[u8]) -> (r: Option<Vec<u8>>)
    ensures
        r matches Some(b) ==> non_ok_ack(invite_bytes@, response_bytes@) == Some(b@),
        r is None ==> non_ok_ack(invite_bytes@, response_bytes@) is None,
{
    let invite = match text::decode(invite_bytes) {
        Some(t) => t,
        None => {
            return None;
        },
    };
    let response = match text::decode(response_bytes) {
        Some(t) => t,
        None => {
            return None;
        },
    };
    proof {
        reveal_strlit("\r\n");
        reveal_strlit("\r\n\r\n");
    }
    let crlf = text::to_chars("\r\n");
    let invite_head = head(&invite);
    let response_head = head(&response);
    let all = text::split_on(invite_head, &crlf);
    let lines = header_block(&all, 1);
    let uri = match extract_request_uri(all[0]) {
        Some(u) => u,
        None => {
            return None;
        },
    };
    let response_lines = text::split_on(response_head, &crlf);
    let to = match find_header(&response_lines, "to:", "t:") {
        Some(l) => l,
        None => {
            return None;
        },
    };
    let via = match find_header(&lines, "via:", "v:") {
        Some(l) => l,
        None => {
            return None;
        },
    };
    let from = match find_header(&lines, "from:", "f:") {
        Some(l) => l,
        None => {
            return None;
        },
    };
    let call_id = match find_header(&lines, "call-id:", "i:") {
        Some(l) => l,
        None => {
            return None;
        },
    };
    let cseq = match find_cseq(&lines) {
        Some(n) => n,
        None => {
            return None;
        },
    };
    let mut ack: String = "ACK ".to_owned();
    text::push_chars(&mut ack, uri);
    ack.append(" SIP/2.0\r\n");
    text::push_chars(&mut ack, via);
    text::push_crlf(&mut ack);
    push_routes(&mut ack, &lines);
    text::push_chars(&mut ack, from);
    text::push_crlf(&mut ack);
    text::push_chars(&mut ack, to);
    text::push_crlf(&mut ack);
    text::push_chars(&mut ack, call_id);
    text::push_crlf(&mut ack);
    ack.append("CSeq: ");
    text::push_chars(&mut ack, cseq);
    ack.append(" ACK\r\n");
    let mut forwards: String = String::new();
    match find_header(&lines, "max-forwards:", "max-forwards:") {
        Some(l) => {
            text::push_chars(&mut forwards, l);
            text::push_crlf(&mut forwards);
            assert(forwards@ =~= l@ + "\r\n"@);
        },
        None => {
            forwards = "Max-Forwards: 70\r\n".to_owned();
        },
    }
    ack.append(&forwards);
    ack.append("Content-Length: 0\r\n\r\n");
    Some(text::to_bytes(&ack))
}

/// The part of a message before its empty line.
pub(crate) fn head(message: &[char]) -> (r: &[char])
    ensures
        r@ == head_of(message@),
{
    let blank = text::to_chars("\r\n\r\n");
    match text::split_once(message, &blank) {
        Some(p) => p.0,
        None => message,
    }
}

/// An ACK begins with the letter `A`.
pub(crate) proof fn lemma_ack_begins(invite: Seq<u8>, response: Seq<u8>)
    ensures
        non_ok_ack(invite, response) matches Some(a) ==> a.len() > 0 && a[0] == 65,
{
    if non_ok_ack(invite, response) is Some {
        let t = ack_text(text::utf8_text(invite)->0, text::utf8_text(response)->0)->0;
        reveal_strlit("ACK ");
        assert(t[0] == 'A');
        assert(vstd::utf8::leading_byte_width_1(65) == 65) by (bit_vector);
        assert(encode_utf8(t)[0] == vstd::utf8::leading_byte_width_1('A' as u32));
    }
}

} // verus!
