//! What the engine's messages say, line by line.

use vstd::prelude::*;
use vstd::utf8::encode_utf8;

use super::compose::{
    echo_from, echo_line, extras_from, in_dialog_text, is_echoed, is_to, response_bytes,
    response_head, route_target, routes_from, tag_text, unquoted_from, warning_value, HeaderView,
};
use super::parse::contact_uri;
use super::reading::lines_of;
use crate::record::RecordView;
use crate::text;

verus! {

/// `s` ends a line.
pub open spec fn ends_line(s: Seq<char>) -> bool {
    s.len() >= 2 && s[s.len() - 2] == '\r' && s[s.len() - 1] == '\n'
}

/// One of the lines of `s` behind its first is `line`.
pub open spec fn says(s: Seq<char>, line: Seq<char>) -> bool {
    exists|i: int| #[trigger]
        text::occurs_at(s, line + "\r\n"@, i) && i >= 2 && s[i - 2] == '\r' && s[i - 1] == '\n'
}

/// The last line of `s` in front of the empty line that ends it is `line`.
pub open spec fn closes_with(s: Seq<char>, line: Seq<char>) -> bool {
    let end = "\r\n"@ + line + "\r\n\r\n"@;
    text::occurs_at(s, end, s.len() - end.len())
}

proof fn lemma_says(s: Seq<char>, a: Seq<char>, line: Seq<char>, b: Seq<char>)
    requires
        ends_line(a),
        s == a + (line + "\r\n"@) + b,
    ensures
        says(s, line),
        text::occurs_at(s, line + "\r\n"@, a.len() as int),
{
    let i = a.len() as int;
    assert(s.subrange(i, i + (line + "\r\n"@).len()) =~= line + "\r\n"@);
    assert(s[i - 2] == a[i - 2] && s[i - 1] == a[i - 1]);
    assert(text::occurs_at(s, line + "\r\n"@, i));
}

pub(crate) proof fn lemma_line_end(a: Seq<char>, b: Seq<char>)
    requires
        ends_line(b),
    ensures
        ends_line(a + b),
{
    let s = a + b;
    assert(s[s.len() - 2] == b[b.len() - 2] && s[s.len() - 1] == b[b.len() - 1]);
}

pub(crate) proof fn lemma_crlf()
    ensures
        "\r\n"@ =~= seq!['\r', '\n'],
        ends_line("\r\n"@),
        "\r\n\r\n"@ =~= "\r\n"@ + "\r\n"@,
{
    reveal_strlit("\r\n");
    reveal_strlit("\r\n\r\n");
}

// ---------------------------------------------------------------------
// In-dialog requests
// ---------------------------------------------------------------------

proof fn lemma_routes_end(a: Seq<char>, routes: Seq<Seq<char>>, i: int)
    requires
        ends_line(a),
        0 <= i,
    ensures
        ends_line(a + routes_from(routes, i)),
    decreases routes.len() - i,
{
    lemma_crlf();
    if i < routes.len() {
        let line = "Route: "@ + routes[i] + "\r\n"@;
        lemma_line_end("Route: "@ + routes[i], "\r\n"@);
        lemma_line_end(a, line);
        lemma_routes_end(a + line, routes, i + 1);
        assert(a + routes_from(routes, i) =~= a + line + routes_from(routes, i + 1));
    } else {
        assert(a + routes_from(routes, i) =~= a);
    }
}

proof fn lemma_route_said(
    s: Seq<char>,
    a: Seq<char>,
    routes: Seq<Seq<char>>,
    i: int,
    k: int,
    b: Seq<char>,
)
    requires
        ends_line(a),
        0 <= i <= k < routes.len(),
        s == a + routes_from(routes, i) + b,
    ensures
        says(s, "Route: "@ + routes[k]),
    decreases k - i,
{
    lemma_crlf();
    let line = "Route: "@ + routes[i];
    let rest = routes_from(routes, i + 1);
    assert(routes_from(routes, i) == line + "\r\n"@ + rest);
    if i == k {
        assert(s =~= a + (line + "\r\n"@) + (rest + b));
        lemma_says(s, a, line, rest + b);
    } else {
        lemma_line_end(a + line, "\r\n"@);
        assert(a + line + "\r\n"@ + rest + b =~= s);
        lemma_route_said(s, a + line + "\r\n"@, routes, i + 1, k, b);
    }
}

pub(crate) proof fn lemma_begins(t: Seq<char>, a: Seq<char>, b: Seq<char>)
    requires
        t == a + b,
    ensures
        text::begins_with(t, a),
{
    assert(t.subrange(0, a.len() as int) =~= a);
}

pub(crate) proof fn lemma_group2(x: Seq<char>, a: Seq<char>, b: Seq<char>)
    ensures
        x + a + b == x + (a + b),
{
    assert(x + a + b =~= x + (a + b));
}

pub(crate) proof fn lemma_group3(x: Seq<char>, a: Seq<char>, b: Seq<char>, c: Seq<char>)
    ensures
        x + a + b + c == x + (a + b + c),
{
    assert(x + a + b + c =~= x + (a + b + c));
}

pub(crate) proof fn lemma_group5(
    x: Seq<char>,
    a: Seq<char>,
    b: Seq<char>,
    c: Seq<char>,
    d: Seq<char>,
    e: Seq<char>,
)
    ensures
        x + a + b + c + d + e == x + (a + b + c + d + e),
{
    lemma_group3(x, a, b, c);
    lemma_group3(x, a + b + c, d, e);
}

/// The lines of a request, one by one.
spec fn request_line(record: RecordView, method: Seq<char>) -> Seq<char> {
    method + " "@ + route_target(record).0 + " SIP/2.0\r\n"@
}

spec fn via_line(sent_by: Seq<char>, transport: Seq<char>, branch: Seq<char>) -> Seq<char> {
    "Via: SIP/2.0/"@ + transport + " "@ + sent_by + ";branch="@ + branch + ";rport"@
}

spec fn from_line(record: RecordView, sent_by: Seq<char>) -> Seq<char> {
    "From: <"@ + super::compose::own_uri(record, sent_by) + ">;tag="@ + record.local_tag
}

spec fn to_line(record: RecordView) -> Seq<char> {
    "To: <"@ + super::compose::peer_uri(record) + ">;tag="@ + record.remote_tag
}

spec fn call_line(record: RecordView) -> Seq<char> {
    "Call-ID: "@ + record.call_id
}

spec fn cseq_line(record: RecordView, method: Seq<char>) -> Seq<char> {
    "CSeq: "@ + text::decimal(record.local_cseq as nat) + " "@ + method
}

proof fn lemma_written_lines(
    method: Seq<char>,
    record: RecordView,
    sent_by: Seq<char>,
    transport: Seq<char>,
    branch: Seq<char>,
)
    ensures
        in_dialog_text(method, record, sent_by, transport, branch) == request_line(record, method)
            + (via_line(sent_by, transport, branch) + "\r\n"@) + ("Max-Forwards: 70"@ + "\r\n"@)
            + routes_from(route_target(record).1, 0) + (from_line(record, sent_by) + "\r\n"@) + (
        to_line(record) + "\r\n"@) + (call_line(record) + "\r\n"@) + (cseq_line(record, method)
            + "\r\n"@) + ("Content-Length: 0"@ + "\r\n\r\n"@),
{
    let nl = "\r\n"@;
    let own = super::compose::own_uri(record, sent_by);
    let peer = super::compose::peer_uri(record);
    let routes = routes_from(route_target(record).1, 0);
    let n = text::decimal(record.local_cseq as nat);
    let p1 = request_line(record, method);
    lemma_literals();
    lemma_group5(p1, "Via: SIP/2.0/"@, transport, " "@, sent_by, ";branch="@);
    let v5 = "Via: SIP/2.0/"@ + transport + " "@ + sent_by + ";branch="@;
    lemma_group3(p1, v5, branch, ";rport"@ + nl);
    lemma_rest(v5 + branch + (";rport"@ + nl), v5 + branch, ";rport"@ + nl, v5, branch);
    assert(v5 + branch + (";rport"@ + nl) =~= via_line(sent_by, transport, branch) + nl);
    let p2 = p1 + (via_line(sent_by, transport, branch) + nl);
    let p3 = p2 + ("Max-Forwards: 70"@ + nl);
    let p4 = p3 + routes;
    lemma_group5(p4, "From: <"@, own, ">;tag="@, record.local_tag, nl);
    let p5 = p4 + (from_line(record, sent_by) + nl);
    lemma_group5(p5, "To: <"@, peer, ">;tag="@, record.remote_tag, nl);
    let p6 = p5 + (to_line(record) + nl);
    lemma_group3(p6, "Call-ID: "@, record.call_id, nl);
    let p7 = p6 + (call_line(record) + nl);
    lemma_group5(p7, "CSeq: "@, n, " "@, method, nl);
}

proof fn lemma_literals()
    ensures
        ";rport\r\n"@ == ";rport"@ + "\r\n"@,
        "Max-Forwards: 70\r\n"@ == "Max-Forwards: 70"@ + "\r\n"@,
        "Content-Length: 0\r\n\r\n"@ == "Content-Length: 0"@ + "\r\n\r\n"@,
        ends_line(" SIP/2.0\r\n"@),
        "\r\n\r\n"@ == "\r\n"@ + "\r\n"@,
        ends_line("\r\n"@),
        "\r\n"@.len() == 2,
{
    lemma_crlf();
    reveal_strlit(" SIP/2.0\r\n");
    reveal_strlit(";rport\r\n");
    reveal_strlit(";rport");
    reveal_strlit("Max-Forwards: 70\r\n");
    reveal_strlit("Max-Forwards: 70");
    reveal_strlit("Content-Length: 0\r\n\r\n");
    reveal_strlit("Content-Length: 0");
    assert(";rport\r\n"@ =~= ";rport"@ + "\r\n"@);
    assert("Max-Forwards: 70\r\n"@ =~= "Max-Forwards: 70"@ + "\r\n"@);
    assert("Content-Length: 0\r\n\r\n"@ =~= "Content-Length: 0"@ + "\r\n\r\n"@);
}

/// A text of two parts around a line says it; the part in front of the next
/// line ends one.
pub(crate) proof fn lemma_step(t: Seq<char>, a: Seq<char>, line: Seq<char>, b: Seq<char>)
    requires
        ends_line(a),
        t == a + (line + "\r\n"@) + b,
    ensures
        says(t, line),
        ends_line(a + (line + "\r\n"@)),
{
    lemma_crlf();
    lemma_says(t, a, line, b);
    lemma_line_end(line, "\r\n"@);
    lemma_line_end(a, line + "\r\n"@);
}

/// A request inside a dialog comes from the engine's URI and tag and goes to
/// the peer's, under the dialog's Call-ID and the engine's sequence number; its
/// `Via` names the engine and the branch, and it has no body.
pub proof fn requests_carry_their_dialog(
    method: Seq<char>,
    record: RecordView,
    sent_by: Seq<char>,
    transport: Seq<char>,
    branch: Seq<char>,
)
    ensures
        ({
            let t = in_dialog_text(method, record, sent_by, transport, branch);
            let own = match record.local_uri {
                Some(u) => u,
                None => "sip:smiths@"@ + sent_by,
            };
            let peer = match record.remote_uri {
                Some(u) => u,
                None => "sip:"@ + record.peer_signal,
            };
            &&& says(t, "From: <"@ + own + ">;tag="@ + record.local_tag)
            &&& says(t, "To: <"@ + peer + ">;tag="@ + record.remote_tag)
            &&& says(t, "Call-ID: "@ + record.call_id)
            &&& says(t, "CSeq: "@ + text::decimal(record.local_cseq as nat) + " "@ + method)
            &&& says(
                t,
                "Via: SIP/2.0/"@ + transport + " "@ + sent_by + ";branch="@ + branch + ";rport"@,
            )
            &&& says(t, "Max-Forwards: 70"@)
            &&& closes_with(t, "Content-Length: 0"@)
        }),
{
    let t = in_dialog_text(method, record, sent_by, transport, branch);
    let nl = "\r\n"@;
    let a1 = request_line(record, method);
    let via = via_line(sent_by, transport, branch);
    let routes = routes_from(route_target(record).1, 0);
    let from = from_line(record, sent_by);
    let to = to_line(record);
    let call = call_line(record);
    let cseq = cseq_line(record, method);
    let end = "Content-Length: 0"@ + "\r\n\r\n"@;
    lemma_written_lines(method, record, sent_by, transport, branch);
    let a2 = a1 + (via + nl);
    let a3 = a2 + ("Max-Forwards: 70"@ + nl);
    let a4 = a3 + routes;
    let a5 = a4 + (from + nl);
    let a6 = a5 + (to + nl);
    let a7 = a6 + (call + nl);
    let a8 = a7 + (cseq + nl);
    assert(t == a8 + end);
    let b7 = (cseq + nl) + end;
    let b6 = (call + nl) + b7;
    let b5 = (to + nl) + b6;
    let b4 = (from + nl) + b5;
    let b3 = routes + b4;
    let b2 = ("Max-Forwards: 70"@ + nl) + b3;
    lemma_rest(t, a8, end, a7, cseq + nl);
    lemma_rest(t, a7, b7, a6, call + nl);
    lemma_rest(t, a6, b6, a5, to + nl);
    lemma_rest(t, a5, b5, a4, from + nl);
    lemma_rest(t, a4, b4, a3, routes);
    lemma_rest(t, a3, b3, a2, "Max-Forwards: 70"@ + nl);
    lemma_rest(t, a2, b2, a1, via + nl);
    lemma_request_line_ends(record, method);
    lemma_step(t, a1, via, b2);
    lemma_step(t, a2, "Max-Forwards: 70"@, b3);
    lemma_routes_end(a3, route_target(record).1, 0);
    lemma_step(t, a4, from, b5);
    lemma_step(t, a5, to, b6);
    lemma_step(t, a6, call, b7);
    lemma_step(t, a7, cseq, end);
    lemma_closes(t, a8, "Content-Length: 0"@);
}

proof fn lemma_request_line_ends(record: RecordView, method: Seq<char>)
    ensures
        ends_line(request_line(record, method)),
{
    lemma_literals();
    lemma_line_end(method + " "@ + route_target(record).0, " SIP/2.0\r\n"@);
}

pub(crate) proof fn lemma_closes(t: Seq<char>, a: Seq<char>, line: Seq<char>)
    requires
        ends_line(a),
        t == a + (line + "\r\n\r\n"@),
    ensures
        closes_with(t, line),
{
    lemma_crlf();
    let end = line + "\r\n\r\n"@;
    let last = "\r\n"@ + line + "\r\n\r\n"@;
    let k = t.len() - last.len();
    assert(k == a.len() - 2);
    assert(t.subrange(k, k + last.len()) =~= last) by {
        assert(t[k] == a[a.len() - 2] && t[k + 1] == a[a.len() - 1]);
        assert(t.subrange(a.len() as int, t.len() as int) =~= end);
        assert forall|i: int| 0 <= i < last.len() implies t[k + i] == last[i] by {
            if i >= 2 {
                assert(last[i] == end[i - 2]);
                assert(t[k + i] == end[i - 2]);
            }
        }
    }
}

pub(crate) proof fn lemma_rest(t: Seq<char>, a: Seq<char>, b: Seq<char>, a0: Seq<char>, part: Seq<char>)
    requires
        t == a + b,
        a == a0 + part,
    ensures
        t == a0 + (part + b),
        t == a0 + part + b,
{
    assert(a0 + part + b =~= a0 + (part + b));
}

/// A request inside a dialog goes to the peer's contact, or to its address
/// when it gave none. The route set is listed in its order; only where its
/// first element is a strict router does that one stand in the Request-URI
/// instead, and then the peer's contact ends the route.
pub proof fn requests_follow_their_route(
    method: Seq<char>,
    record: RecordView,
    sent_by: Seq<char>,
    transport: Seq<char>,
    branch: Seq<char>,
    k: int,
)
    ensures
        ({
            let t = in_dialog_text(method, record, sent_by, transport, branch);
            let routes = record.route_set;
            let target = match record.remote_target {
                Some(u) => u,
                None => "sip:"@ + record.peer_signal,
            };
            let loose = routes.len() == 0 || exists|i: int| #[trigger]
                text::occurs_at(text::lowered(routes[0]), ";lr"@, i);
            &&& loose ==> text::begins_with(t, method + " "@ + target + " SIP/2.0\r\n"@)
            &&& loose && 0 <= k < routes.len() ==> says(t, "Route: "@ + routes[k])
            &&& !loose ==> {
                &&& contact_uri(routes[0]) matches Some(u) ==> text::begins_with(
                    t,
                    method + " "@ + u + " SIP/2.0\r\n"@,
                )
                &&& contact_uri(routes[0]) is None ==> text::begins_with(
                    t,
                    method + " "@ + routes[0] + " SIP/2.0\r\n"@,
                )
                &&& 1 <= k < routes.len() ==> says(t, "Route: "@ + routes[k])
                &&& says(t, "Route: <"@ + target + ">"@)
            }
            &&& route_target(record).1.len() == routes.len()
        }),
{
    let t = in_dialog_text(method, record, sent_by, transport, branch);
    let nl = "\r\n"@;
    let routes = route_target(record).1;
    let target = super::compose::target_of(record);
    if record.route_set.len() > 0 {
        let low = text::lowered(record.route_set[0]);
        text::lemma_find_from(low, ";lr"@, 0);
        if text::find_from(low, ";lr"@, 0) is Some {
            assert(text::occurs_at(low, ";lr"@, text::find_from(low, ";lr"@, 0)->0));
        }
    }
    let (front, rest) = lemma_around_routes(method, record, sent_by, transport, branch);
    if 0 <= k < routes.len() {
        lemma_route_said(t, front, routes, 0, k, rest);
    }
    if record.route_set.len() > 0 && !super::compose::is_loose(record.route_set[0]) {
        let n = routes.len() - 1;
        assert(routes[n] == "<"@ + target + ">"@);
        lemma_route_said(t, front, routes, 0, n, rest);
        lemma_route_literal(target);
        if 1 <= k < record.route_set.len() {
            assert(routes[k - 1] == record.route_set[k]);
            lemma_route_said(t, front, routes, 0, k - 1, rest);
        }
    }
}

proof fn lemma_route_literal(target: Seq<char>)
    ensures
        "Route: "@ + ("<"@ + target + ">"@) == "Route: <"@ + target + ">"@,
{
    reveal_strlit("Route: <");
    reveal_strlit("Route: ");
    reveal_strlit("<");
    assert("Route: <"@ =~= "Route: "@ + "<"@);
    assert("Route: "@ + ("<"@ + target + ">"@) =~= "Route: "@ + "<"@ + target + ">"@);
}

proof fn lemma_around_routes(
    method: Seq<char>,
    record: RecordView,
    sent_by: Seq<char>,
    transport: Seq<char>,
    branch: Seq<char>,
) -> (parts: (Seq<char>, Seq<char>))
    ensures
        ends_line(parts.0),
        text::begins_with(
            in_dialog_text(method, record, sent_by, transport, branch),
            request_line(record, method),
        ),
        in_dialog_text(method, record, sent_by, transport, branch) == parts.0 + routes_from(
            route_target(record).1,
            0,
        ) + parts.1,
{
    let t = in_dialog_text(method, record, sent_by, transport, branch);
    let nl = "\r\n"@;
    let a1 = request_line(record, method);
    let via = via_line(sent_by, transport, branch);
    let routes = routes_from(route_target(record).1, 0);
    let from = from_line(record, sent_by);
    let to = to_line(record);
    let call = call_line(record);
    let cseq = cseq_line(record, method);
    let end = "Content-Length: 0"@ + "\r\n\r\n"@;
    lemma_written_lines(method, record, sent_by, transport, branch);
    let a2 = a1 + (via + nl);
    let a3 = a2 + ("Max-Forwards: 70"@ + nl);
    let a4 = a3 + routes;
    lemma_group5(a4, from + nl, to + nl, call + nl, cseq + nl, end);
    let b4 = (from + nl) + (to + nl) + (call + nl) + (cseq + nl) + end;
    lemma_request_line_ends(record, method);
    lemma_crlf();
    lemma_line_end(a2 + "Max-Forwards: 70"@, nl);
    assert(a2 + "Max-Forwards: 70"@ + nl =~= a3);
    assert(t.subrange(0, a1.len() as int) =~= a1);
    (a3, b4)
}

// ---------------------------------------------------------------------
// Responses
// ---------------------------------------------------------------------

/// `line` is a header with exactly this name, in any case.
pub open spec fn bears(line: Seq<char>, name: Seq<char>) -> bool {
    &&& line.len() > name.len()
    &&& line[name.len() as int] == ':'
    &&& text::same_ignoring_case(line.subrange(0, name.len() as int), name)
}

/// `line` is one of the headers that identify a transaction and a dialog,
/// other than `To`.
pub open spec fn identifies(line: Seq<char>) -> bool {
    ||| bears(line, "Via"@)
    ||| bears(line, "v"@)
    ||| bears(line, "From"@)
    ||| bears(line, "f"@)
    ||| bears(line, "Call-ID"@)
    ||| bears(line, "i"@)
    ||| bears(line, "CSeq"@)
}

pub(crate) proof fn lemma_bears(line: Seq<char>, name: Seq<char>, marker: Seq<char>)
    requires
        marker == text::lowered(name) + seq![':'],
    ensures
        bears(line, name) <==> text::begins_with(text::lowered(line), marker),
{
    let low = text::lowered(line);
    let n = name.len() as int;
    assert(marker.len() == n + 1);
    if bears(line, name) {
        assert(low.subrange(0, n + 1) =~= marker) by {
            assert(text::lowered(line.subrange(0, n)) == text::lowered(name));
            assert forall|i: int| 0 <= i < n implies low[i] == marker[i] by {
                assert(text::lowered(line.subrange(0, n))[i] == low[i]);
            }
            assert(low[n] == ':');
        }
    }
    if text::begins_with(low, marker) {
        assert forall|i: int| 0 <= i <= n implies low[i] == marker[i] by {
            assert(low.subrange(0, n + 1)[i] == low[i]);
        }
        assert(low[n] == ':');
        assert(line[n] == ':');
        assert(text::lowered(line.subrange(0, n)) =~= text::lowered(name)) by {
            assert forall|i: int| 0 <= i < n implies text::lowered(line.subrange(0, n))[i]
                == text::lowered(name)[i] by {
                assert(low[i] == marker[i]);
            }
        }
    }
}

pub(crate) proof fn lemma_markers(line: Seq<char>)
    ensures
        identifies(line) <==> is_echoed(text::lowered(line)),
        (bears(line, "To"@) || bears(line, "t"@)) <==> is_to(text::lowered(line)),
{
    reveal_strlit("Via");
    reveal_strlit("v");
    reveal_strlit("From");
    reveal_strlit("f");
    reveal_strlit("Call-ID");
    reveal_strlit("i");
    reveal_strlit("CSeq");
    reveal_strlit("To");
    reveal_strlit("t");
    reveal_strlit("via:");
    reveal_strlit("v:");
    reveal_strlit("from:");
    reveal_strlit("f:");
    reveal_strlit("call-id:");
    reveal_strlit("i:");
    reveal_strlit("cseq:");
    reveal_strlit("to:");
    reveal_strlit("t:");
    assert("via:"@ =~= text::lowered("Via"@) + seq![':']);
    assert("v:"@ =~= text::lowered("v"@) + seq![':']);
    assert("from:"@ =~= text::lowered("From"@) + seq![':']);
    assert("f:"@ =~= text::lowered("f"@) + seq![':']);
    assert("call-id:"@ =~= text::lowered("Call-ID"@) + seq![':']);
    assert("i:"@ =~= text::lowered("i"@) + seq![':']);
    assert("cseq:"@ =~= text::lowered("CSeq"@) + seq![':']);
    assert("to:"@ =~= text::lowered("To"@) + seq![':']);
    assert("t:"@ =~= text::lowered("t"@) + seq![':']);
    lemma_bears(line, "Via"@, "via:"@);
    lemma_bears(line, "v"@, "v:"@);
    lemma_bears(line, "From"@, "from:"@);
    lemma_bears(line, "f"@, "f:"@);
    lemma_bears(line, "Call-ID"@, "call-id:"@);
    lemma_bears(line, "i"@, "i:"@);
    lemma_bears(line, "CSeq"@, "cseq:"@);
    lemma_bears(line, "To"@, "to:"@);
    lemma_bears(line, "t"@, "t:"@);
}

/// What a response repeats of its request, line by line and in order: the lines
/// that identify the transaction and the dialog as they are; `To` with the
/// engine's tag, unless it has a tag already or there is none to add; of the
/// other lines nothing.
pub proof fn responses_repeat_what_identifies(
    lines: Seq<Seq<char>>,
    tag: Option<Seq<char>>,
    k: int,
)
    requires
        0 <= k < lines.len(),
    ensures
        ({
            let line = lines[k];
            let own = forall|i: int|
                0 <= i ==> !#[trigger] text::occurs_at(text::lowered(line), ";tag="@, i);
            let to = !identifies(line) && (bears(line, "To"@) || bears(line, "t"@));
            let rest = echo_from(lines, tag, k + 1);
            &&& identifies(line) ==> echo_from(lines, tag, k) == line + "\r\n"@ + rest
            &&& to && tag is Some && own ==> echo_from(lines, tag, k) == line + ";tag="@ + tag->0
                + "\r\n"@ + rest
            &&& to && (tag is None || !own) ==> echo_from(lines, tag, k) == line + "\r\n"@ + rest
            &&& !identifies(line) && !to ==> echo_from(lines, tag, k) == rest
        }),
        echo_from(lines, tag, lines.len() as int).len() == 0,
{
    let line = lines[k];
    lemma_markers(line);
    text::lemma_find_from(text::lowered(line), ";tag="@, 0);
    let rest = echo_from(lines, tag, k + 1);
    assert(echo_from(lines, tag, k) == echo_line(line, tag) + rest);
    assert(Seq::<char>::empty() + rest =~= rest);
    assert(line + ";tag="@ + tag->0 + "\r\n"@ + rest =~= (line + ";tag="@ + tag->0 + "\r\n"@)
        + rest);
    assert(line + "\r\n"@ + rest =~= (line + "\r\n"@) + rest);
}

proof fn lemma_echo_ends(a: Seq<char>, lines: Seq<Seq<char>>, tag: Option<Seq<char>>, i: int)
    requires
        ends_line(a),
        0 <= i,
    ensures
        ends_line(a + echo_from(lines, tag, i)),
    decreases lines.len() - i,
{
    lemma_crlf();
    if i < lines.len() {
        let e = echo_line(lines[i], tag);
        lemma_line_end(lines[i], "\r\n"@);
        if tag is Some {
            lemma_line_end(lines[i] + ";tag="@ + tag->0, "\r\n"@);
        }
        if e.len() > 0 {
            lemma_line_end(a, e);
        } else {
            assert(a + e =~= a);
        }
        lemma_echo_ends(a + e, lines, tag, i + 1);
        assert(a + echo_from(lines, tag, i) =~= a + e + echo_from(lines, tag, i + 1));
    } else {
        assert(a + echo_from(lines, tag, i) =~= a);
    }
}

proof fn lemma_echo_said(
    s: Seq<char>,
    a: Seq<char>,
    lines: Seq<Seq<char>>,
    tag: Option<Seq<char>>,
    i: int,
    k: int,
    b: Seq<char>,
    line: Seq<char>,
)
    requires
        ends_line(a),
        0 <= i <= k < lines.len(),
        s == a + echo_from(lines, tag, i) + b,
        echo_line(lines[k], tag) == line + "\r\n"@,
    ensures
        says(s, line),
    decreases k - i,
{
    let e = echo_line(lines[i], tag);
    let rest = echo_from(lines, tag, i + 1);
    if i == k {
        assert(s =~= a + (line + "\r\n"@) + (rest + b));
        lemma_says(s, a, line, rest + b);
    } else {
        lemma_crlf();
        lemma_line_end(lines[i], "\r\n"@);
        if tag is Some {
            lemma_line_end(lines[i] + ";tag="@ + tag->0, "\r\n"@);
        }
        if e.len() > 0 {
            lemma_line_end(a, e);
        } else {
            assert(a + e =~= a);
        }
        assert(s =~= a + e + rest + b);
        lemma_echo_said(s, a + e, lines, tag, i + 1, k, b, line);
    }
}

proof fn lemma_extras_said(
    s: Seq<char>,
    a: Seq<char>,
    extras: Seq<HeaderView>,
    i: int,
    k: int,
    b: Seq<char>,
)
    requires
        ends_line(a),
        0 <= i <= k < extras.len(),
        s == a + extras_from(extras, i) + b,
    ensures
        says(s, extras[k].0 + ": "@ + extras[k].1),
    decreases k - i,
{
    lemma_crlf();
    let line = extras[i].0 + ": "@ + extras[i].1;
    let rest = extras_from(extras, i + 1);
    assert(extras_from(extras, i) == line + "\r\n"@ + rest);
    if i == k {
        assert(s =~= a + (line + "\r\n"@) + (rest + b));
        lemma_says(s, a, line, rest + b);
    } else {
        lemma_line_end(a + line, "\r\n"@);
        assert(a + line + "\r\n"@ + rest + b =~= s);
        lemma_extras_said(s, a + line + "\r\n"@, extras, i + 1, k, b);
    }
}

proof fn lemma_extras_end(a: Seq<char>, extras: Seq<HeaderView>, i: int)
    requires
        ends_line(a),
        0 <= i,
    ensures
        ends_line(a + extras_from(extras, i)),
    decreases extras.len() - i,
{
    lemma_crlf();
    if i < extras.len() {
        let line = extras[i].0 + ": "@ + extras[i].1 + "\r\n"@;
        lemma_line_end(extras[i].0 + ": "@ + extras[i].1, "\r\n"@);
        lemma_line_end(a, line);
        lemma_extras_end(a + line, extras, i + 1);
        assert(a + extras_from(extras, i) =~= a + line + extras_from(extras, i + 1));
    } else {
        assert(a + extras_from(extras, i) =~= a);
    }
}

/// A response begins with its status and reason, repeats every line of the
/// request that identifies the transaction or the dialog, has a `To` with the
/// engine's tag, says each additional header, and states the length of the body
/// that follows it.
pub proof fn responses_answer_their_request(
    request: Seq<char>,
    status: u16,
    reason: Seq<char>,
    tag: Option<Seq<char>>,
    extras: Seq<HeaderView>,
    body: Seq<u8>,
    k: int,
    e: int,
)
    ensures
        ({
            let head = response_head(request, status, reason, tag, extras, body.len());
            let lines = lines_of(request);
            let line = lines[k];
            &&& response_bytes(request, status, reason, tag, extras, body) == encode_utf8(head)
                + body
            &&& text::begins_with(
                head,
                "SIP/2.0 "@ + text::decimal(status as nat) + " "@ + reason + "\r\n"@,
            )
            &&& 1 <= k < lines.len() && identifies(line) ==> says(head, line)
            &&& 1 <= k < lines.len() && !identifies(line) && (bears(line, "To"@) || bears(
                line,
                "t"@,
            )) ==> {
                &&& tag is Some && (forall|i: int|
                    0 <= i ==> !#[trigger] text::occurs_at(text::lowered(line), ";tag="@, i))
                    ==> says(head, line + ";tag="@ + tag->0)
                &&& tag is None || (exists|i: int| #[trigger]
                    text::occurs_at(text::lowered(line), ";tag="@, i)) ==> says(head, line)
            }
            &&& 0 <= e < extras.len() ==> says(head, extras[e].0 + ": "@ + extras[e].1)
            &&& closes_with(head, "Content-Length: "@ + text::decimal(body.len()))
        }),
{
    lemma_crlf();
    let nl = "\r\n"@;
    let head = response_head(request, status, reason, tag, extras, body.len());
    let lines = lines_of(request);
    let line = lines[k];
    let start = "SIP/2.0 "@ + text::decimal(status as nat) + " "@ + reason + nl;
    let echo = echo_from(lines, tag, 1);
    let more = extras_from(extras, 0);
    let length = "Content-Length: "@ + text::decimal(body.len());
    lemma_line_end("SIP/2.0 "@ + text::decimal(status as nat) + " "@ + reason, nl);
    assert(head =~= start + echo + more + (length + nl + nl));
    assert(head.subrange(0, start.len() as int) =~= start);
    lemma_markers(line);
    text::lemma_find_from(text::lowered(line), ";tag="@, 0);
    lemma_echo_ends(start, lines, tag, 1);
    let tail = more + (length + nl + nl);
    assert(head =~= start + echo + tail);
    if 1 <= k < lines.len() {
        if identifies(line) {
            lemma_echo_said(head, start, lines, tag, 1, k, tail, line);
        } else if bears(line, "To"@) || bears(line, "t"@) {
            if tag is Some && text::find_from(text::lowered(line), ";tag="@, 0) is None {
                lemma_echo_said(head, start, lines, tag, 1, k, tail, line + ";tag="@ + tag->0);
            } else {
                lemma_echo_said(head, start, lines, tag, 1, k, tail, line);
                if tag is Some {
                    assert(text::occurs_at(
                        text::lowered(line),
                        ";tag="@,
                        text::find_from(text::lowered(line), ";tag="@, 0)->0,
                    ));
                }
            }
        }
    }
    if 0 <= e < extras.len() {
        lemma_extras_said(head, start + echo, extras, 0, e, length + nl + nl);
    }
    let front = start + echo + more;
    lemma_extras_end(start + echo, extras, 0);
    let last = nl + length + "\r\n\r\n"@;
    let i = head.len() - last.len();
    assert(i == front.len() - 2);
    assert(head.subrange(i, i + last.len()) =~= last) by {
        assert(head[i] == front[front.len() - 2] && head[i + 1] == front[front.len() - 1]);
        assert(head.subrange(front.len() as int, head.len() as int) =~= length + nl + nl);
    }
}

// ---------------------------------------------------------------------
// Values
// ---------------------------------------------------------------------

proof fn lemma_unquoted(s: Seq<char>, i: int)
    requires
        0 <= i <= s.len(),
    ensures
        !unquoted_from(s, i).contains('"'),
        !s.subrange(i, s.len() as int).contains('"') ==> unquoted_from(s, i) == s.subrange(
            i,
            s.len() as int,
        ),
    decreases s.len() - i,
{
    if i < s.len() {
        lemma_unquoted(s, i + 1);
        let rest = unquoted_from(s, i + 1);
        let tail = s.subrange(i, s.len() as int);
        assert(tail =~= seq![s[i]] + s.subrange(i + 1, s.len() as int));
        if s[i] != '"' {
            let all = seq![s[i]] + rest;
            if all.contains('"') {
                let j = choose|j: int| 0 <= j < all.len() && all[j] == '"';
                assert(all[j] == rest[j - 1]);
            }
        }
        if !tail.contains('"') {
            assert(tail[0] == s[i]);
            assert(tail.contains(tail[0]));
            let next = s.subrange(i + 1, s.len() as int);
            if next.contains('"') {
                let j = choose|j: int| 0 <= j < next.len() && next[j] == '"';
                assert(tail[j + 1] == next[j]);
            }
        }
    } else {
        assert(s.subrange(i, s.len() as int) =~= seq![]);
    }
}

/// A warning is its code, the agent and the text in quotation marks, none of
/// which stands within the text; a text without any is kept as it is.
pub proof fn warnings_are_quoted(code: u16, message: Seq<char>)
    ensures
        ({
            let w = warning_value(code, message);
            let front = text::decimal(code as nat) + " smiths-net \""@;
            let inner = w.subrange(front.len() as int, w.len() - 1);
            &&& text::begins_with(w, front)
            &&& w.last() == '"'
            &&& !inner.contains('"')
            &&& !message.contains('"') ==> inner == message
        }),
{
    let w = warning_value(code, message);
    let front = text::decimal(code as nat) + " smiths-net \""@;
    lemma_unquoted(message, 0);
    reveal_strlit("\"");
    assert(message.subrange(0, message.len() as int) =~= message);
    assert(w.subrange(0, front.len() as int) =~= front);
    assert(w.subrange(front.len() as int, w.len() - 1) =~= unquoted_from(message, 0));
}

/// A tag holds the whole counter, and the clock reading mixed with the process.
pub proof fn tags_hold_counter_and_clock(count: u64, nanos: u64, pid: u32)
    ensures
        ({
            let t = tag_text(count, nanos, pid);
            &&& t.len() == 40
            &&& text::begins_with(t, "smiths-"@)
            &&& text::uint_value(t.subrange(7, 23), 16, u64::MAX as nat) == Some(count as nat)
            &&& t[23] == '-'
            &&& text::uint_value(t.subrange(24, 40), 16, u64::MAX as nat) == Some(
                (nanos ^ (pid as u64)) as nat,
            )
        }),
{
    let t = tag_text(count, nanos, pid);
    let mixed = nanos ^ (pid as u64);
    text::lemma_padded_hex_len(count as nat);
    text::lemma_padded_hex_len(mixed as nat);
    text::laws::padded_hex_reads_back(count as nat, 16, u64::MAX as nat);
    text::laws::padded_hex_reads_back(mixed as nat, 16, u64::MAX as nat);
    reveal_strlit("smiths-");
    reveal_strlit("-");
    assert("smiths-"@.len() == 7);
    assert(t.subrange(0, 7) =~= "smiths-"@);
    assert(t.subrange(7, 23) =~= text::padded_hex(count as nat, 16));
    assert(t.subrange(24, 40) =~= text::padded_hex(mixed as nat, 16));
}

// ---------------------------------------------------------------------
// Nothing else
// ---------------------------------------------------------------------

/// Additional headers stand one per line, in their order.
pub proof fn additional_headers_stand_in_order(extras: Seq<HeaderView>, k: int)
    requires
        0 <= k < extras.len(),
    ensures
        extras_from(extras, k) == extras[k].0 + ": "@ + extras[k].1 + "\r\n"@ + extras_from(
            extras,
            k + 1,
        ),
        extras_from(extras, extras.len() as int).len() == 0,
{
}

/// Routes stand one per line, in their order.
pub proof fn routes_stand_in_order(routes: Seq<Seq<char>>, k: int)
    requires
        0 <= k < routes.len(),
    ensures
        routes_from(routes, k) == "Route: "@ + routes[k] + "\r\n"@ + routes_from(routes, k + 1),
        routes_from(routes, routes.len() as int).len() == 0,
{
}

/// A response holds its status line, what it repeats of the request, the
/// additional headers and its length, in this order, and nothing else.
pub proof fn responses_hold_nothing_else(
    request: Seq<char>,
    status: u16,
    reason: Seq<char>,
    tag: Option<Seq<char>>,
    extras: Seq<HeaderView>,
    n: nat,
)
    ensures
        ({
            let head = response_head(request, status, reason, tag, extras, n);
            let start = "SIP/2.0 "@ + text::decimal(status as nat) + " "@ + reason + "\r\n"@;
            let echo = echo_from(lines_of(request), tag, 1);
            let more = extras_from(extras, 0);
            let a = start.len() as int;
            let b = a + echo.len();
            let c = b + more.len();
            &&& text::occurs_at(head, start, 0)
            &&& text::occurs_at(head, echo, a)
            &&& text::occurs_at(head, more, b)
            &&& text::occurs_at(
                head,
                "Content-Length: "@ + text::decimal(n) + "\r\n\r\n"@,
                c,
            )
            &&& head.len() == c + 16 + text::decimal(n).len() + 4
        }),
{
    reveal_strlit("Content-Length: ");
    reveal_strlit("\r\n\r\n");
    assert("Content-Length: "@.len() == 16 && "\r\n\r\n"@.len() == 4);
    let head = response_head(request, status, reason, tag, extras, n);
    let start = "SIP/2.0 "@ + text::decimal(status as nat) + " "@ + reason + "\r\n"@;
    let echo = echo_from(lines_of(request), tag, 1);
    let more = extras_from(extras, 0);
    let tail = "Content-Length: "@ + text::decimal(n) + "\r\n\r\n"@;
    lemma_group3(start + echo + more, "Content-Length: "@, text::decimal(n), "\r\n\r\n"@);
    assert(head == start + echo + more + tail);
    lemma_four_parts(head, start, echo, more, tail);
}

proof fn lemma_four_parts(
    s: Seq<char>,
    a: Seq<char>,
    b: Seq<char>,
    c: Seq<char>,
    d: Seq<char>,
)
    requires
        s == a + b + c + d,
    ensures
        text::occurs_at(s, a, 0),
        text::occurs_at(s, b, a.len() as int),
        text::occurs_at(s, c, (a.len() + b.len()) as int),
        text::occurs_at(s, d, (a.len() + b.len() + c.len()) as int),
        s.len() == a.len() + b.len() + c.len() + d.len(),
{
    let i = a.len() as int;
    let j = i + b.len();
    let k = j + c.len();
    assert(s.subrange(0, a.len() as int) =~= a);
    assert(s.subrange(i, i + b.len()) =~= b);
    assert(s.subrange(j, j + c.len()) =~= c);
    assert(s.subrange(k, k + d.len()) =~= d);
}

/// A request inside a dialog holds its request line, `Via`, `Max-Forwards`, the
/// routes, `From`, `To`, Call-ID, `CSeq` and `Content-Length`, and nothing else.
pub proof fn requests_hold_nothing_else(
    method: Seq<char>,
    record: RecordView,
    sent_by: Seq<char>,
    transport: Seq<char>,
    branch: Seq<char>,
)
    ensures
        ({
            let t = in_dialog_text(method, record, sent_by, transport, branch);
            let (uri, routes) = route_target(record);
            let own = match record.local_uri {
                Some(u) => u,
                None => "sip:smiths@"@ + sent_by,
            };
            let peer = match record.remote_uri {
                Some(u) => u,
                None => "sip:"@ + record.peer_signal,
            };
            let number = text::decimal(record.local_cseq as nat);
            t.len() == (method.len() + 1 + uri.len() + 10) + (13 + transport.len() + 1
                + sent_by.len() + 8 + branch.len() + 8) + 18 + routes_from(routes, 0).len() + (7
                + own.len() + 6 + record.local_tag.len() + 2) + (5 + peer.len() + 6
                + record.remote_tag.len() + 2) + (9 + record.call_id.len() + 2) + (6 + number.len()
                + 1 + method.len() + 2) + 21
        }),
{
    reveal_strlit(" ");
    reveal_strlit(" SIP/2.0\r\n");
    reveal_strlit("Via: SIP/2.0/");
    reveal_strlit(";branch=");
    reveal_strlit(";rport\r\n");
    reveal_strlit("Max-Forwards: 70\r\n");
    reveal_strlit("From: <");
    reveal_strlit(">;tag=");
    reveal_strlit("\r\n");
    reveal_strlit("To: <");
    reveal_strlit("Call-ID: ");
    reveal_strlit("CSeq: ");
    reveal_strlit("Content-Length: 0\r\n\r\n");
    assert(" "@.len() == 1 && " SIP/2.0\r\n"@.len() == 10 && "Via: SIP/2.0/"@.len() == 13);
    assert(";branch="@.len() == 8 && ";rport\r\n"@.len() == 8);
    assert("Max-Forwards: 70\r\n"@.len() == 18 && "From: <"@.len() == 7 && ">;tag="@.len() == 6);
    assert("\r\n"@.len() == 2 && "To: <"@.len() == 5 && "Call-ID: "@.len() == 9);
    assert("CSeq: "@.len() == 6 && "Content-Length: 0\r\n\r\n"@.len() == 21);
}

} // verus!
