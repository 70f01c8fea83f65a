//! Which transaction a message belongs to (RFC 3261 sections 17.1.3 and
//! 17.2.3).

use vstd::prelude::*;

use crate::text;
use crate::uas::parse::{
    head_and_body, header_values, nonempty, response_status, split_headers_body, status_of,
    values_from,
};

verus! {

/// The values of the headers named `a` or `b` in a message's text.
pub open spec fn message_values(message: Seq<char>, a: Seq<char>, b: Seq<char>) -> Seq<Seq<char>> {
    values_from(text::split(head_and_body(message).0, "\r\n"@), a, b, 1)
}

/// The method in the first `CSeq` of a message.
pub open spec fn cseq_method_of(bytes: Seq<u8>) -> Option<Seq<char>> {
    match text::utf8_text(bytes) {
        Some(t) => {
            let values = message_values(t, "cseq"@, "cseq"@);
            if values.len() > 0 {
                text::word(values[0], 1)
            } else {
                None
            }
        },
        None => None,
    }
}

/// The `sent-by` of the topmost `Via` of a message: what follows the protocol,
/// up to the parameters.
pub open spec fn sent_by_of(bytes: Seq<u8>) -> Option<Seq<char>> {
    match text::utf8_text(bytes) {
        Some(t) => {
            let values = message_values(t, "via"@, "v"@);
            if values.len() > 0 {
                match text::word(values[0], 1) {
                    Some(w) => nonempty(Some(text::before_any(w, seq![';', ',']))),
                    None => None,
                }
            } else {
                None
            }
        },
        None => None,
    }
}

/// The method in the first `CSeq` of a raw message.
pub fn cseq_method(bytes: &[u8]) -> (r: Option<String>)
    ensures
        text::text_opt(r) == cseq_method_of(bytes@),
{
    let message = match text::decode(bytes) {
        Some(t) => t,
        None => {
            return None;
        },
    };
    proof {
        reveal_strlit("\r\n");
    }
    let crlf = text::to_chars("\r\n");
    let (head, _) = split_headers_body(&message);
    let lines = text::split_on(head, &crlf);
    let values = header_values(&lines, "cseq", "cseq");
    if values.len() == 0 {
        return None;
    }
    let w = text::split_words(values[0]);
    if w.len() > 1 {
        Some(text::to_string(w[1]))
    } else {
        None
    }
}

/// The `sent-by` of the topmost `Via` of a raw message.
pub fn top_via_sent_by(bytes: &[u8]) -> (r: Option<String>)
    ensures
        text::text_opt(r) == sent_by_of(bytes@),
{
    let message = match text::decode(bytes) {
        Some(t) => t,
        None => {
            return None;
        },
    };
    proof {
        reveal_strlit("\r\n");
    }
    let crlf = text::to_chars("\r\n");
    let (head, _) = split_headers_body(&message);
    let lines = text::split_on(head, &crlf);
    let values = header_values(&lines, "via", "v");
    if values.len() == 0 {
        return None;
    }
    let w = text::split_words(values[0]);
    if w.len() <= 1 {
        return None;
    }
    let ends: [char; 2] = [';', ','];
    assert(ends@ =~= seq![';', ',']);
    let host = text::cut_before(w[1], &ends);
    if host.len() > 0 {
        Some(text::to_string(host))
    } else {
        None
    }
}

/// The status code in a response's first line; `None` when there is none.
pub fn parse_status(bytes: &[u8]) -> (r: Option<u16>)
    ensures
        match r {
            Some(s) => status_of(bytes@) == Some(s as nat),
            None => status_of(bytes@) is None,
        },
{
    response_status(bytes)
}

} // verus!
