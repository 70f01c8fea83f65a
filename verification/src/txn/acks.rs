//! What the ACK of a rejection repeats: of the INVITE its target, its topmost
//! `Via`, its routes, its `From`, its Call-ID and its number, and of the
//! response the `To`.

use vstd::prelude::*;

use super::ack::{
    ack_text, cseq_number_from, cseq_number_of, head_of, header_line, header_line_from, non_ok_ack,
    route_lines_from, until_blank_from,
};
use crate::text;
use crate::text::laws::{cuts_divide_at_the_first, lemma_clear_of_char, words_peel_off};
use crate::uas::writing::{
    bears, closes_with, ends_line, lemma_bears, lemma_begins, lemma_closes, lemma_crlf,
    lemma_group2, lemma_group3, lemma_line_end, lemma_rest, lemma_step, says,
};

verus! {

/// Line `k` is the first that bears one of the two names.
pub open spec fn is_first(lines: Seq<Seq<char>>, k: int, long: Seq<char>, short: Seq<char>) -> bool {
    &&& 0 <= k < lines.len()
    &&& bears(lines[k], long) || bears(lines[k], short)
    &&& forall|j: int| 0 <= j < k ==> !bears(#[trigger] lines[j], long) && !bears(lines[j], short)
}

proof fn lemma_header_line(
    lines: Seq<Seq<char>>,
    i: int,
    k: int,
    long: Seq<char>,
    short: Seq<char>,
    a: Seq<char>,
    b: Seq<char>,
)
    requires
        a == text::lowered(long) + seq![':'],
        b == text::lowered(short) + seq![':'],
        0 <= i <= k <= lines.len(),
        forall|j: int|
            i <= j < k ==> !bears(#[trigger] lines[j], long) && !bears(lines[j], short),
        k < lines.len() ==> bears(lines[k], long) || bears(lines[k], short),
    ensures
        header_line_from(lines, a, b, i) == (if k < lines.len() {
            Some(lines[k])
        } else {
            None
        }),
    decreases k - i,
{
    if i < lines.len() {
        lemma_bears(lines[i], long, a);
        lemma_bears(lines[i], short, b);
        if i < k {
            assert(!bears(lines[i], long));
            lemma_header_line(lines, i + 1, k, long, short, a, b);
        }
    }
}

proof fn lemma_ack_literals()
    ensures
        "via:"@ == text::lowered("Via"@) + seq![':'],
        "v:"@ == text::lowered("v"@) + seq![':'],
        "from:"@ == text::lowered("From"@) + seq![':'],
        "f:"@ == text::lowered("f"@) + seq![':'],
        "call-id:"@ == text::lowered("Call-ID"@) + seq![':'],
        "i:"@ == text::lowered("i"@) + seq![':'],
        "to:"@ == text::lowered("To"@) + seq![':'],
        "t:"@ == text::lowered("t"@) + seq![':'],
        "max-forwards:"@ == text::lowered("Max-Forwards"@) + seq![':'],
{
    reveal_strlit("Via");
    reveal_strlit("v");
    reveal_strlit("From");
    reveal_strlit("f");
    reveal_strlit("Call-ID");
    reveal_strlit("i");
    reveal_strlit("To");
    reveal_strlit("t");
    reveal_strlit("Max-Forwards");
    reveal_strlit("via:");
    reveal_strlit("v:");
    reveal_strlit("from:");
    reveal_strlit("f:");
    reveal_strlit("call-id:");
    reveal_strlit("i:");
    reveal_strlit("to:");
    reveal_strlit("t:");
    reveal_strlit("max-forwards:");
    assert("via:"@ =~= text::lowered("Via"@) + seq![':']);
    assert("v:"@ =~= text::lowered("v"@) + seq![':']);
    assert("from:"@ =~= text::lowered("From"@) + seq![':']);
    assert("f:"@ =~= text::lowered("f"@) + seq![':']);
    assert("call-id:"@ =~= text::lowered("Call-ID"@) + seq![':']);
    assert("i:"@ =~= text::lowered("i"@) + seq![':']);
    assert("to:"@ =~= text::lowered("To"@) + seq![':']);
    assert("t:"@ =~= text::lowered("t"@) + seq![':']);
    assert("max-forwards:"@ =~= text::lowered("Max-Forwards"@) + seq![':']);
}

/// The header lines of a message: what follows its first line, up to an empty
/// one.
pub open spec fn headers_of(message: Seq<char>) -> Seq<Seq<char>> {
    until_blank_from(text::split(head_of(message), "\r\n"@), 1)
}

/// The header lines of a message without an empty line among them are all that
/// follow the first.
pub proof fn headers_follow_the_first_line(lines: Seq<Seq<char>>, k: int)
    requires
        1 <= k <= lines.len(),
        forall|j: int| 1 <= j < k ==> #[trigger] lines[j].len() > 0,
        k < lines.len() ==> lines[k].len() == 0,
    ensures
        until_blank_from(lines, 1) == lines.subrange(1, k),
{
    lemma_until_blank(lines, 1, k);
}

proof fn lemma_until_blank(lines: Seq<Seq<char>>, i: int, k: int)
    requires
        0 <= i <= k <= lines.len(),
        forall|j: int| i <= j < k ==> #[trigger] lines[j].len() > 0,
        k < lines.len() ==> lines[k].len() == 0,
    ensures
        until_blank_from(lines, i) == lines.subrange(i, k),
    decreases k - i,
{
    if i < k {
        assert(lines[i].len() > 0);
        lemma_until_blank(lines, i + 1, k);
        assert(lines.subrange(i, k) =~= seq![lines[i]] + lines.subrange(i + 1, k));
    } else {
        assert(lines.subrange(i, k) =~= seq![]);
    }
}

spec fn forwards_line(lines: Seq<Seq<char>>) -> Seq<char> {
    match header_line(lines, "max-forwards:"@, "max-forwards:"@) {
        Some(l) => l,
        None => "Max-Forwards: 70"@,
    }
}

proof fn lemma_routes_end(a: Seq<char>, lines: Seq<Seq<char>>, i: int)
    requires
        ends_line(a),
        0 <= i,
    ensures
        ends_line(a + route_lines_from(lines, i)),
    decreases lines.len() - i,
{
    lemma_crlf();
    if i < lines.len() {
        lemma_routes_end(a, lines, i + 1);
        if text::begins_with(text::lowered(lines[i]), "route:"@) {
            let line = lines[i] + "\r\n"@;
            lemma_line_end(lines[i], "\r\n"@);
            lemma_line_end(a, line);
            lemma_routes_end(a + line, lines, i + 1);
            assert(a + route_lines_from(lines, i) =~= a + line + route_lines_from(lines, i + 1));
        }
    } else {
        assert(a + route_lines_from(lines, i) =~= a);
    }
}

proof fn lemma_route_said(
    t: Seq<char>,
    a: Seq<char>,
    lines: Seq<Seq<char>>,
    i: int,
    k: int,
    b: Seq<char>,
)
    requires
        ends_line(a),
        0 <= i <= k < lines.len(),
        text::begins_with(text::lowered(lines[k]), "route:"@),
        t == a + route_lines_from(lines, i) + b,
    ensures
        says(t, lines[k]),
    decreases k - i,
{
    lemma_crlf();
    let rest = route_lines_from(lines, i + 1);
    if text::begins_with(text::lowered(lines[i]), "route:"@) {
        let line = lines[i] + "\r\n"@;
        assert(route_lines_from(lines, i) == line + rest);
        assert(t =~= a + line + (rest + b));
        lemma_step(t, a, lines[i], rest + b);
        if i < k {
            assert(t =~= (a + line) + rest + b);
            lemma_route_said(t, a + line, lines, i + 1, k, b);
        }
    } else {
        lemma_route_said(t, a, lines, i + 1, k, b);
    }
}

proof fn lemma_ack_lines(
    uri: Seq<char>,
    via: Seq<char>,
    routes: Seq<char>,
    from: Seq<char>,
    to: Seq<char>,
    call_id: Seq<char>,
    number: Seq<char>,
    forwards: Seq<char>,
)
    ensures
        ({
            let nl = "\r\n"@;
            "ACK "@ + uri + " SIP/2.0\r\n"@ + via + nl + routes + from + nl + to + nl + call_id + nl
                + "CSeq: "@ + number + " ACK\r\n"@ + (forwards + nl) + "Content-Length: 0\r\n\r\n"@
                == ("ACK "@ + uri + " SIP/2.0\r\n"@) + (via + nl) + routes + (from + nl) + (to + nl)
                + (call_id + nl) + ("CSeq: "@ + number + " ACK"@ + nl) + (forwards + nl) + (
            "Content-Length: 0"@ + "\r\n\r\n"@)
        }),
{
    let nl = "\r\n"@;
    reveal_strlit(" ACK\r\n");
    reveal_strlit(" ACK");
    reveal_strlit("\r\n");
    reveal_strlit("Content-Length: 0\r\n\r\n");
    reveal_strlit("Content-Length: 0");
    reveal_strlit("\r\n\r\n");
    assert(" ACK\r\n"@ =~= " ACK"@ + nl);
    assert("Content-Length: 0\r\n\r\n"@ =~= "Content-Length: 0"@ + "\r\n\r\n"@);
    let p1 = "ACK "@ + uri + " SIP/2.0\r\n"@;
    lemma_group2(p1, via, nl);
    let p2 = p1 + (via + nl) + routes;
    lemma_group2(p2, from, nl);
    let p3 = p2 + (from + nl);
    lemma_group2(p3, to, nl);
    let p4 = p3 + (to + nl);
    lemma_group2(p4, call_id, nl);
    let p5 = p4 + (call_id + nl);
    lemma_group3(p5, "CSeq: "@, number, " ACK"@ + nl);
    lemma_group2("CSeq: "@ + number, " ACK"@, nl);
}

/// There is an ACK exactly when the INVITE has a target, a `Via`, a `From`, a
/// Call-ID and a number, and the response has a `To`. It goes to the target of
/// the INVITE, repeats the first of each of these lines, has the INVITE's number
/// with its own method, and has no body.
pub proof fn acks_repeat_invite_and_response(
    invite: Seq<char>,
    response: Seq<char>,
    via: int,
    from: int,
    call_id: int,
    to: int,
)
    requires
        is_first(headers_of(invite), via, "Via"@, "v"@),
        is_first(headers_of(invite), from, "From"@, "f"@),
        is_first(headers_of(invite), call_id, "Call-ID"@, "i"@),
        is_first(text::split(head_of(response), "\r\n"@), to, "To"@, "t"@),
    ensures
        ({
            let lines = headers_of(invite);
            let uri = text::word(text::split(head_of(invite), "\r\n"@)[0], 1);
            let number = cseq_number_from(lines, 0);
            let ack = ack_text(invite, response);
            &&& ack is Some <==> uri is Some && number is Some
            &&& ack matches Some(t) ==> {
                &&& text::begins_with(t, "ACK "@ + uri->0 + " SIP/2.0\r\n"@)
                &&& says(t, lines[via])
                &&& says(t, lines[from])
                &&& says(t, text::split(head_of(response), "\r\n"@)[to])
                &&& says(t, lines[call_id])
                &&& says(t, "CSeq: "@ + number->0 + " ACK"@)
                &&& forall|k: int|
                    0 <= k < lines.len() && bears(#[trigger] lines[k], "Route"@) ==> says(
                        t,
                        lines[k],
                    )
                &&& forall|k: int|
                    #[trigger] is_first(lines, k, "Max-Forwards"@, "Max-Forwards"@) ==> says(
                        t,
                        lines[k],
                    )
                &&& closes_with(t, "Content-Length: 0"@)
            }
        }),
{
    let lines = headers_of(invite);
    let others = text::split(head_of(response), "\r\n"@);
    lemma_ack_literals();
    lemma_header_line(lines, 0, via, "Via"@, "v"@, "via:"@, "v:"@);
    lemma_header_line(lines, 0, from, "From"@, "f"@, "from:"@, "f:"@);
    lemma_header_line(lines, 0, call_id, "Call-ID"@, "i"@, "call-id:"@, "i:"@);
    lemma_header_line(others, 0, to, "To"@, "t"@, "to:"@, "t:"@);
    if let Some(t) = ack_text(invite, response) {
        let uri = text::word(text::split(head_of(invite), "\r\n"@)[0], 1)->0;
        let number = cseq_number_from(lines, 0)->0;
        lemma_forwards(lines);
        lemma_ack_said(
            t,
            uri,
            lines[via],
            lines,
            lines[from],
            others[to],
            lines[call_id],
            number,
            forwards_line(lines),
        );
        assert forall|k: int| #[trigger]
            is_first(lines, k, "Max-Forwards"@, "Max-Forwards"@) implies says(t, lines[k]) by {
            lemma_header_line(
                lines,
                0,
                k,
                "Max-Forwards"@,
                "Max-Forwards"@,
                "max-forwards:"@,
                "max-forwards:"@,
            );
        }
    }
}

proof fn lemma_forwards(lines: Seq<Seq<char>>)
    ensures
        (match header_line(lines, "max-forwards:"@, "max-forwards:"@) {
            Some(l) => l + "\r\n"@,
            None => "Max-Forwards: 70\r\n"@,
        }) == forwards_line(lines) + "\r\n"@,
{
    reveal_strlit("Max-Forwards: 70\r\n");
    reveal_strlit("Max-Forwards: 70");
    reveal_strlit("\r\n");
    assert("Max-Forwards: 70\r\n"@ =~= "Max-Forwards: 70"@ + "\r\n"@);
}

proof fn lemma_ack_said(
    t: Seq<char>,
    uri: Seq<char>,
    via: Seq<char>,
    lines: Seq<Seq<char>>,
    from: Seq<char>,
    to: Seq<char>,
    call_id: Seq<char>,
    number: Seq<char>,
    forwards: Seq<char>,
)
    requires
        t == "ACK "@ + uri + " SIP/2.0\r\n"@ + via + "\r\n"@ + route_lines_from(lines, 0) + from
            + "\r\n"@ + to + "\r\n"@ + call_id + "\r\n"@ + "CSeq: "@ + number + " ACK\r\n"@ + (
        forwards + "\r\n"@) + "Content-Length: 0\r\n\r\n"@,
    ensures
        text::begins_with(t, "ACK "@ + uri + " SIP/2.0\r\n"@),
        says(t, via),
        says(t, from),
        says(t, to),
        says(t, call_id),
        says(t, "CSeq: "@ + number + " ACK"@),
        says(t, forwards),
        closes_with(t, "Content-Length: 0"@),
        forall|k: int|
            0 <= k < lines.len() && bears(#[trigger] lines[k], "Route"@) ==> says(t, lines[k]),
{
    let nl = "\r\n"@;
    let routes = route_lines_from(lines, 0);
    lemma_ack_lines(uri, via, routes, from, to, call_id, number, forwards);
    let cseq = "CSeq: "@ + number + " ACK"@;
    let end = "Content-Length: 0"@ + "\r\n\r\n"@;
    let a1 = "ACK "@ + uri + " SIP/2.0\r\n"@;
    let a2 = a1 + (via + nl);
    let a3 = a2 + routes;
    let a4 = a3 + (from + nl);
    let a5 = a4 + (to + nl);
    let a6 = a5 + (call_id + nl);
    let a7 = a6 + (cseq + nl);
    let a8 = a7 + (forwards + nl);
    let b7 = (forwards + nl) + end;
    let b6 = (cseq + nl) + b7;
    let b5 = (call_id + nl) + b6;
    let b4 = (to + nl) + b5;
    let b3 = (from + nl) + b4;
    let b2 = routes + b3;
    lemma_rest(t, a8, end, a7, forwards + nl);
    lemma_rest(t, a7, b7, a6, cseq + nl);
    lemma_rest(t, a6, b6, a5, call_id + nl);
    lemma_rest(t, a5, b5, a4, to + nl);
    lemma_rest(t, a4, b4, a3, from + nl);
    lemma_rest(t, a3, b3, a2, routes);
    lemma_rest(t, a2, b2, a1, via + nl);
    lemma_start_ends(uri);
    lemma_step(t, a1, via, b2);
    lemma_routes_end(a2, lines, 0);
    lemma_step(t, a3, from, b4);
    lemma_step(t, a4, to, b5);
    lemma_step(t, a5, call_id, b6);
    lemma_step(t, a6, cseq, b7);
    lemma_step(t, a7, forwards, end);
    lemma_closes(t, a8, "Content-Length: 0"@);
    lemma_begins(t, a1, (via + nl) + b2);
    assert forall|k: int|
        0 <= k < lines.len() && bears(#[trigger] lines[k], "Route"@) implies says(t, lines[k]) by {
        lemma_route_marker(lines[k]);
        lemma_route_said(t, a2, lines, 0, k, b3);
    }
}

proof fn lemma_route_marker(line: Seq<char>)
    ensures
        bears(line, "Route"@) <==> text::begins_with(text::lowered(line), "route:"@),
{
    reveal_strlit("Route");
    reveal_strlit("route:");
    assert("route:"@ =~= text::lowered("Route"@) + seq![':']);
    lemma_bears(line, "Route"@, "route:"@);
}

proof fn lemma_start_ends(uri: Seq<char>)
    ensures
        ends_line("ACK "@ + uri + " SIP/2.0\r\n"@),
{
    reveal_strlit(" SIP/2.0\r\n");
    assert(ends_line(" SIP/2.0\r\n"@));
    lemma_line_end("ACK "@ + uri, " SIP/2.0\r\n"@);
}

/// Without one of the lines that it repeats there is no ACK.
pub proof fn acks_need_what_they_repeat(invite: Seq<char>, response: Seq<char>)
    ensures
        (forall|j: int|
            0 <= j < headers_of(invite).len() ==> !bears(#[trigger] headers_of(invite)[j], "Via"@)
                && !bears(headers_of(invite)[j], "v"@)) ==> ack_text(invite, response) is None,
        (forall|j: int|
            0 <= j < headers_of(invite).len() ==> !bears(#[trigger] headers_of(invite)[j], "From"@)
                && !bears(headers_of(invite)[j], "f"@)) ==> ack_text(invite, response) is None,
        (forall|j: int|
            0 <= j < headers_of(invite).len() ==> !bears(
                #[trigger] headers_of(invite)[j],
                "Call-ID"@,
            ) && !bears(headers_of(invite)[j], "i"@)) ==> ack_text(invite, response) is None,
{
    let lines = headers_of(invite);
    let n = lines.len() as int;
    lemma_ack_literals();
    if forall|j: int|
        0 <= j < lines.len() ==> !bears(#[trigger] lines[j], "Via"@) && !bears(lines[j], "v"@) {
        lemma_header_line(lines, 0, n, "Via"@, "v"@, "via:"@, "v:"@);
    }
    if forall|j: int|
        0 <= j < lines.len() ==> !bears(#[trigger] lines[j], "From"@) && !bears(lines[j], "f"@) {
        lemma_header_line(lines, 0, n, "From"@, "f"@, "from:"@, "f:"@);
    }
    if forall|j: int|
        0 <= j < lines.len() ==> !bears(#[trigger] lines[j], "Call-ID"@) && !bears(
            lines[j],
            "i"@,
        ) {
        lemma_header_line(lines, 0, n, "Call-ID"@, "i"@, "call-id:"@, "i:"@);
    }
}

/// The bytes of the ACK are those of its text, and there are none where either
/// message is no well-formed UTF-8.
pub proof fn acks_are_encoded(invite: Seq<u8>, response: Seq<u8>)
    ensures
        !vstd::utf8::valid_utf8(invite) || !vstd::utf8::valid_utf8(response) ==> non_ok_ack(
            invite,
            response,
        ) is None,
        vstd::utf8::valid_utf8(invite) && vstd::utf8::valid_utf8(response) ==> {
            let ack = ack_text(vstd::utf8::decode_utf8(invite), vstd::utf8::decode_utf8(response));
            &&& ack is None ==> non_ok_ack(invite, response) is None
            &&& ack matches Some(t) ==> non_ok_ack(invite, response) == Some(
                vstd::utf8::encode_utf8(t),
            )
        },
{
}

/// The number of a `CSeq` line is its first word.
pub proof fn sequence_numbers_are_read(number: Seq<char>, rest: Seq<char>)
    requires
        number.len() > 0,
        text::laws::spaceless(number),
        rest.len() > 0 && text::laws::spaceless(rest),
    ensures
        cseq_number_of("CSeq: "@ + number + " "@ + rest) == Some(number),
{
    reveal_strlit("CSeq: ");
    reveal_strlit("CSeq");
    reveal_strlit(" ");
    assert(" "@ =~= seq![' ']);
    let name = "CSeq"@;
    assert("CSeq: "@ =~= name + seq![':'] + " "@);
    let core = number + " "@ + rest;
    let value = " "@ + core;
    assert("CSeq: "@ + number + " "@ + rest =~= name + seq![':'] + value);
    assert(!name.contains(':')) by {
        if name.contains(':') {
            let j = choose|j: int| 0 <= j < name.len() && name[j] == ':';
            assert(name[j] != ':');
        }
    }
    lemma_clear_of_char(name, ':');
    cuts_divide_at_the_first(name, seq![':'], value);
    let none = Seq::<char>::empty();
    assert(core[0] == number[0] && core.last() == rest.last());
    text::laws::trimming_takes_off_the_blanks(" "@, core, none);
    assert(" "@ + core + none =~= value);
    words_peel_off(none, number, " "@ + rest);
    assert(none + number + (" "@ + rest) =~= core);
    assert(text::words(core)[0] == number);
}

/// Without a `Max-Forwards` in the INVITE the ACK has one of 70; a message
/// without an empty line is all head.
pub proof fn acks_have_a_hop_limit(invite: Seq<char>, response: Seq<char>)
    requires
        ack_text(invite, response) is Some,
        forall|j: int|
            0 <= j < headers_of(invite).len() ==> !bears(
                #[trigger] headers_of(invite)[j],
                "Max-Forwards"@,
            ),
    ensures
        says(ack_text(invite, response)->0, "Max-Forwards: 70"@),
        (forall|i: int| 0 <= i ==> !#[trigger] text::occurs_at(invite, "\r\n\r\n"@, i))
            ==> head_of(invite) == invite,
{
    let lines = headers_of(invite);
    let others = text::split(head_of(response), "\r\n"@);
    lemma_ack_literals();
    lemma_header_line(
        lines,
        0,
        lines.len() as int,
        "Max-Forwards"@,
        "Max-Forwards"@,
        "max-forwards:"@,
        "max-forwards:"@,
    );
    lemma_forwards(lines);
    lemma_ack_said(
        ack_text(invite, response)->0,
        text::word(text::split(head_of(invite), "\r\n"@)[0], 1)->0,
        header_line(lines, "via:"@, "v:"@)->0,
        lines,
        header_line(lines, "from:"@, "f:"@)->0,
        header_line(others, "to:"@, "t:"@)->0,
        header_line(lines, "call-id:"@, "i:"@)->0,
        cseq_number_from(lines, 0)->0,
        forwards_line(lines),
    );
    text::laws::cuts_need_the_separator(invite, "\r\n\r\n"@);
}

} // verus!
