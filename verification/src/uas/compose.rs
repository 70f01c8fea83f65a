//! Writing SIP messages: responses and in-dialog requests.

use vstd::prelude::*;
use vstd::utf8::encode_utf8;

use super::parse::{contact_uri, first_contact_uri, head_and_body, split_headers_body};
use crate::record::{DialogRecord, RecordView};
use crate::text;

verus! {

// ---------------------------------------------------------------------
// Responses
// ---------------------------------------------------------------------

/// One of the headers that a response repeats as they are.
pub open spec fn is_echoed(lower: Seq<char>) -> bool {
    ||| text::begins_with(lower, "via:"@)
    ||| text::begins_with(lower, "v:"@)
    ||| text::begins_with(lower, "from:"@)
    ||| text::begins_with(lower, "f:"@)
    ||| text::begins_with(lower, "call-id:"@)
    ||| text::begins_with(lower, "i:"@)
    ||| text::begins_with(lower, "cseq:"@)
}

/// The `To` header.
pub open spec fn is_to(lower: Seq<char>) -> bool {
    text::begins_with(lower, "to:"@) || text::begins_with(lower, "t:"@)
}

/// What a response repeats of one header line of its request: `To` gains the
/// engine's tag unless it has one already.
pub open spec fn echo_line(line: Seq<char>, tag: Option<Seq<char>>) -> Seq<char> {
    let lower = text::lowered(line);
    if is_echoed(lower) {
        line + "\r\n"@
    } else if is_to(lower) {
        if tag is Some && text::find_from(lower, ";tag="@, 0) is None {
            line + ";tag="@ + tag->0 + "\r\n"@
        } else {
            line + "\r\n"@
        }
    } else {
        seq![]
    }
}

/// What a response repeats of the header lines from `i` on.
pub open spec fn echo_from(lines: Seq<Seq<char>>, tag: Option<Seq<char>>, i: int) -> Seq<char>
    decreases lines.len() - i,
{
    if i < 0 || i >= lines.len() {
        seq![]
    } else {
        echo_line(lines[i], tag) + echo_from(lines, tag, i + 1)
    }
}

/// A header: name and value.
pub type HeaderView = (Seq<char>, Seq<char>);

/// The models of a list of headers.
pub open spec fn headers_view(v: Seq<(&str, &str)>) -> Seq<HeaderView> {
    Seq::new(v.len(), |i: int| (v[i].0@, v[i].1@))
}

/// Additional headers from `i` on.
pub open spec fn extras_from(extras: Seq<HeaderView>, i: int) -> Seq<char>
    decreases extras.len() - i,
{
    if i < 0 || i >= extras.len() {
        seq![]
    } else {
        extras[i].0 + ": "@ + extras[i].1 + "\r\n"@ + extras_from(extras, i + 1)
    }
}

/// Everything in a response but its body.
pub open spec fn response_head(
    request: Seq<char>,
    status: u16,
    reason: Seq<char>,
    tag: Option<Seq<char>>,
    extras: Seq<HeaderView>,
    body_len: nat,
) -> Seq<char> {
    "SIP/2.0 "@ + text::decimal(status as nat) + " "@ + reason + "\r\n"@ + echo_from(
        text::split(head_and_body(request).0, "\r\n"@),
        tag,
        1,
    ) + extras_from(extras, 0) + "Content-Length: "@ + text::decimal(body_len) + "\r\n\r\n"@
}

/// A response to the request whose text is `request`.
pub open spec fn response_bytes(
    request: Seq<char>,
    status: u16,
    reason: Seq<char>,
    tag: Option<Seq<char>>,
    extras: Seq<HeaderView>,
    body: Seq<u8>,
) -> Seq<u8> {
    encode_utf8(response_head(request, status, reason, tag, extras, body.len())) + body
}

/// The text in an optional string slice.
pub open spec fn str_opt(o: Option<&str>) -> Option<Seq<char>> {
    match o {
        Some(s) => Some(s@),
        None => None,
    }
}

fn line_is_echoed(lower: &[char]) -> (r: bool)
    ensures
        r == is_echoed(lower@),
{
    text::has_prefix(lower, &text::to_chars("via:")) || text::has_prefix(
        lower,
        &text::to_chars("v:"),
    ) || text::has_prefix(lower, &text::to_chars("from:")) || text::has_prefix(
        lower,
        &text::to_chars("f:"),
    ) || text::has_prefix(lower, &text::to_chars("call-id:")) || text::has_prefix(
        lower,
        &text::to_chars("i:"),
    ) || text::has_prefix(lower, &text::to_chars("cseq:"))
}

pub(crate) fn line_is_to(lower: &[char]) -> (r: bool)
    ensures
        r == is_to(lower@),
{
    text::has_prefix(lower, &text::to_chars("to:")) || text::has_prefix(
        lower,
        &text::to_chars("t:"),
    )
}

fn push_echo_line(out: &mut String, line: &[char], tag: Option<&str>)
    ensures
        final(out)@ == old(out)@ + echo_line(line@, str_opt(tag)),
{
    let lower = text::to_lower(line);
    let ghost before = out@;
    if line_is_echoed(&lower) {
        text::push_chars(out, line);
        text::push_crlf(out);
        assert(out@ =~= before + (line@ + "\r\n"@));
    } else if line_is_to(&lower) {
        text::push_chars(out, line);
        let marker = text::to_chars(";tag=");
        match tag {
            Some(t) => {
                if text::find(&lower, &marker, 0).is_none() {
                    out.append(";tag=");
                    out.append(t);
                    text::push_crlf(out);
                    assert(out@ =~= before + (line@ + ";tag="@ + t@ + "\r\n"@));
                } else {
                    text::push_crlf(out);
                    assert(out@ =~= before + (line@ + "\r\n"@));
                }
            },
            None => {
                text::push_crlf(out);
                assert(out@ =~= before + (line@ + "\r\n"@));
            },
        }
    } else {
        assert(out@ =~= before + seq![]);
    }
}

fn push_echo(out: &mut String, lines: &Vec<&[char]>, tag: Option<&str>)
    ensures
        final(out)@ == old(out)@ + echo_from(text::views(lines@), str_opt(tag), 1),
{
    let mut i: usize = 1;
    while i < lines.len()
        invariant
            i >= 1,
            out@ + echo_from(text::views(lines@), str_opt(tag), i as int) =~= old(out)@ + echo_from(
                text::views(lines@),
                str_opt(tag),
                1,
            ),
        decreases lines.len() - i,
    {
        push_echo_line(out, lines[i], tag);
        i = i + 1;
    }
    assert(echo_from(text::views(lines@), str_opt(tag), i as int) =~= seq![]);
}

fn push_extras(out: &mut String, extras: &[(&str, &str)])
    ensures
        final(out)@ == old(out)@ + extras_from(headers_view(extras@), 0),
{
    let mut i: usize = 0;
    while i < extras.len()
        invariant
            i <= extras@.len(),
            out@ + extras_from(headers_view(extras@), i as int) =~= old(out)@ + extras_from(headers_view(extras@), 0),
        decreases extras.len() - i,
    {
        let ghost before = out@;
        out.append(extras[i].0);
        out.append(": ");
        out.append(extras[i].1);
        out.append("\r\n");
        proof {
            assert(out@ =~= before + (extras@[i as int].0@ + ": "@ + extras@[i as int].1@
                + "\r\n"@));
            assert(out@ + extras_from(headers_view(extras@), i + 1) =~= before + extras_from(headers_view(extras@), i as int));
        }
        i = i + 1;
    }
    assert(extras_from(headers_view(extras@), i as int) =~= seq![]);
}

/// Builds a response to the request whose text is `message`.
pub fn build_response_to_text(
    message: &str,
    status: u16,
    reason: &str,
    local_tag: Option<&str>,
    extras: &[(&str, &str)],
    body: &[u8],
) -> (r: Vec<u8>)
    ensures
        r@ == response_bytes(message@, status, reason@, str_opt(local_tag), headers_view(extras@), body@),
{
    proof {
        reveal_strlit("\r\n");
    }
    let chars = text::to_chars(message);
    let (head, _) = split_headers_body(&chars);
    let crlf = text::to_chars("\r\n");
    let lines = text::split_on(head, &crlf);
    let mut out: String = "SIP/2.0 ".to_owned();
    out.append(&text::decimal_string(status as u64));
    out.append(" ");
    out.append(reason);
    text::push_crlf(&mut out);
    push_echo(&mut out, &lines, local_tag);
    push_extras(&mut out, extras);
    out.append("Content-Length: ");
    out.append(&text::decimal_string(body.len() as u64));
    out.append("\r\n\r\n");
    let mut bytes = text::to_bytes(&out);
    bytes.extend_from_slice(body);
    assert(bytes@ =~= response_bytes(
        message@,
        status,
        reason@,
        str_opt(local_tag),
        headers_view(extras@),
        body@,
    ));
    bytes
}

/// Builds a response to a raw request: `Via`, `From`, `Call-ID` and `CSeq` as
/// they came, `To` with the engine's tag unless it has one, then `extras`,
/// `Content-Length` and `body`.
pub fn build_response(
    request: &[u8],
    status: u16,
    reason: &str,
    local_tag: Option<&str>,
    extras: &[(&str, &str)],
    body: &[u8],
) -> (r: Vec<u8>)
    ensures
        r@ == response_bytes(
            text::message_text(request@),
            status,
            reason@,
            str_opt(local_tag),
            headers_view(extras@),
            body@,
        ),
{
    let message = text::read_message(request);
    build_response_to_text(&message, status, reason, local_tag, extras, body)
}

// ---------------------------------------------------------------------
// Header values
// ---------------------------------------------------------------------

/// `s` from `i` on, without double quotes.
pub open spec fn unquoted_from(s: Seq<char>, i: int) -> Seq<char>
    decreases s.len() - i,
{
    if i < 0 || i >= s.len() {
        seq![]
    } else if s[i] == '"' {
        unquoted_from(s, i + 1)
    } else {
        seq![s[i]] + unquoted_from(s, i + 1)
    }
}

/// A `Warning` header value.
pub open spec fn warning_value(code: u16, message: Seq<char>) -> Seq<char> {
    text::decimal(code as nat) + " smiths-net \""@ + unquoted_from(message, 0) + "\""@
}

/// A `Warning` value: code, agent and quoted text. Double quotes are taken out
/// of the text.
pub fn format_warning(code: u16, message: &str) -> (r: String)
    ensures
        r@ == warning_value(code, message@),
{
    let chars = text::to_chars(message);
    let mut clean: String = String::new();
    let mut i: usize = 0;
    while i < chars.len()
        invariant
            i <= chars@.len(),
            clean@ + unquoted_from(chars@, i as int) =~= unquoted_from(chars@, 0),
        decreases chars.len() - i,
    {
        if chars[i] != '"' {
            clean.push(chars[i]);
        }
        i = i + 1;
    }
    assert(clean@ =~= unquoted_from(message@, 0));
    let mut out = text::decimal_string(code as u64);
    out.append(" smiths-net \"");
    out.append(&clean);
    out.append("\"");
    out
}

// ---------------------------------------------------------------------
// In-dialog requests
// ---------------------------------------------------------------------

/// What an engine-originated in-dialog request is made of.
pub struct InDialogRequest<'a> {
    /// Method.
    pub method: &'a str,
    /// The dialog; its `local_cseq` is the number to use.
    pub record: &'a DialogRecord,
    /// `host:port` that the engine sends from.
    pub via_sent_by: &'a str,
    /// `Via` transport token.
    pub via_transport: &'a str,
    /// `Via` branch.
    pub branch: &'a str,
}

/// The peer's contact URI; its address when it gave none.
pub open spec fn target_of(record: RecordView) -> Seq<char> {
    match record.remote_target {
        Some(t) => t,
        None => "sip:"@ + record.peer_signal,
    }
}

/// `true` when a route is a loose router.
pub open spec fn is_loose(route: Seq<char>) -> bool {
    text::find_from(text::lowered(route), ";lr"@, 0) is Some
}

/// Request-URI and routes of a request in a dialog. Without a route set the
/// request goes to the remote target. A loose router in front leaves the
/// target in the Request-URI. A strict one takes its place there, and the
/// target ends the route.
pub open spec fn route_target(record: RecordView) -> (Seq<char>, Seq<Seq<char>>) {
    let target = target_of(record);
    let routes = record.route_set;
    if routes.len() == 0 {
        (target, seq![])
    } else if is_loose(routes[0]) {
        (target, routes)
    } else {
        (
            match contact_uri(routes[0]) {
                Some(u) => u,
                None => routes[0],
            },
            routes.drop_first().push("<"@ + target + ">"@),
        )
    }
}

fn remote_target(record: &DialogRecord) -> (r: String)
    ensures
        r@ == target_of(record@),
{
    match &record.remote_target {
        Some(t) => t.clone(),
        None => {
            let mut s: String = "sip:".to_owned();
            s.append(&record.peer_signal);
            s
        },
    }
}

fn copy_texts(v: &Vec<String>, skip: usize) -> (r: Vec<String>)
    requires
        skip <= v@.len(),
    ensures
        text::texts(r@) == text::texts(v@).subrange(skip as int, v@.len() as int),
{
    let mut out: Vec<String> = Vec::new();
    let mut i: usize = skip;
    while i < v.len()
        invariant
            skip <= i <= v@.len(),
            text::texts(out@) =~= text::texts(v@).subrange(skip as int, i as int),
        decreases v.len() - i,
    {
        let ghost before = out@;
        out.push(v[i].clone());
        assert(text::texts(out@) =~= text::texts(before).push(v@[i as int]@));
        i = i + 1;
    }
    out
}

/// Request-URI and `Route` values for a request inside the dialog.
pub fn dialog_route_target(record: &DialogRecord) -> (r: (String, Vec<String>))
    ensures
        (r.0@, text::texts(r.1@)) == route_target(record@),
{
    let target = remote_target(record);
    if record.route_set.len() == 0 {
        let none: Vec<String> = Vec::new();
        assert(text::texts(none@) =~= seq![]);
        return (target, none);
    }
    let lower = text::to_lower(&text::to_chars(&record.route_set[0]));
    let marker = text::to_chars(";lr");
    if text::find(&lower, &marker, 0).is_some() {
        let routes = copy_texts(&record.route_set, 0);
        assert(text::texts(routes@) =~= text::texts(record.route_set@));
        return (target, routes);
    }
    let mut routes = copy_texts(&record.route_set, 1);
    let mut last: String = "<".to_owned();
    last.append(&target);
    last.append(">");
    let ghost before = routes@;
    routes.push(last);
    assert(text::texts(routes@) =~= text::texts(before).push(last@));
    assert(text::texts(routes@) =~= route_target(record@).1);
    let first = match first_contact_uri(&record.route_set[0]) {
        Some(u) => u,
        None => record.route_set[0].clone(),
    };
    (first, routes)
}

/// `Route` headers from `i` on.
pub open spec fn routes_from(routes: Seq<Seq<char>>, i: int) -> Seq<char>
    decreases routes.len() - i,
{
    if i < 0 || i >= routes.len() {
        seq![]
    } else {
        "Route: "@ + routes[i] + "\r\n"@ + routes_from(routes, i + 1)
    }
}

fn push_routes(out: &mut String, routes: &Vec<String>)
    ensures
        final(out)@ == old(out)@ + routes_from(text::texts(routes@), 0),
{
    let mut i: usize = 0;
    while i < routes.len()
        invariant
            i <= routes@.len(),
            out@ + routes_from(text::texts(routes@), i as int) =~= old(out)@ + routes_from(
                text::texts(routes@),
                0,
            ),
        decreases routes.len() - i,
    {
        let ghost before = out@;
        out.append("Route: ");
        out.append(&routes[i]);
        out.append("\r\n");
        proof {
            assert(out@ =~= before + ("Route: "@ + routes@[i as int]@ + "\r\n"@));
            assert(out@ + routes_from(text::texts(routes@), i + 1) =~= before + routes_from(
                text::texts(routes@),
                i as int,
            ));
        }
        i = i + 1;
    }
    assert(routes_from(text::texts(routes@), i as int) =~= seq![]);
}

/// The engine's own URI in a request.
pub open spec fn own_uri(record: RecordView, sent_by: Seq<char>) -> Seq<char> {
    match record.local_uri {
        Some(u) => u,
        None => "sip:smiths@"@ + sent_by,
    }
}

/// The peer's URI in a request.
pub open spec fn peer_uri(record: RecordView) -> Seq<char> {
    match record.remote_uri {
        Some(u) => u,
        None => "sip:"@ + record.peer_signal,
    }
}

/// An in-dialog request: addressed by [`route_target`], from the engine's URI
/// and tag to the peer's, with the dialog's local sequence number.
pub open spec fn in_dialog_text(
    method: Seq<char>,
    record: RecordView,
    sent_by: Seq<char>,
    transport: Seq<char>,
    branch: Seq<char>,
) -> Seq<char> {
    let (uri, routes) = route_target(record);
    method + " "@ + uri + " SIP/2.0\r\n"@ + "Via: SIP/2.0/"@ + transport + " "@ + sent_by
        + ";branch="@ + branch + ";rport\r\n"@ + "Max-Forwards: 70\r\n"@ + routes_from(routes, 0)
        + "From: <"@ + own_uri(record, sent_by) + ">;tag="@ + record.local_tag + "\r\n"@
        + "To: <"@ + peer_uri(record) + ">;tag="@ + record.remote_tag + "\r\n"@ + "Call-ID: "@
        + record.call_id + "\r\n"@ + "CSeq: "@ + text::decimal(record.local_cseq as nat) + " "@
        + method + "\r\n"@ + "Content-Length: 0\r\n\r\n"@
}

/// Builds an in-dialog request.
pub fn build_in_dialog_request(f: &InDialogRequest<'_>) -> (r: Vec<u8>)
    ensures
        r@ == encode_utf8(
            in_dialog_text(f.method@, f.record@, f.via_sent_by@, f.via_transport@, f.branch@),
        ),
{
    let (uri, routes) = dialog_route_target(f.record);
    let local_uri = match &f.record.local_uri {
        Some(u) => u.clone(),
        None => {
            let mut s: String = "sip:smiths@".to_owned();
            s.append(f.via_sent_by);
            s
        },
    };
    let remote_uri = match &f.record.remote_uri {
        Some(u) => u.clone(),
        None => {
            let mut s: String = "sip:".to_owned();
            s.append(&f.record.peer_signal);
            s
        },
    };
    let mut out: String = f.method.to_owned();
    out.append(" ");
    out.append(&uri);
    out.append(" SIP/2.0\r\n");
    out.append("Via: SIP/2.0/");
    out.append(f.via_transport);
    out.append(" ");
    out.append(f.via_sent_by);
    out.append(";branch=");
    out.append(f.branch);
    out.append(";rport\r\n");
    out.append("Max-Forwards: 70\r\n");
    push_routes(&mut out, &routes);
    out.append("From: <");
    out.append(&local_uri);
    out.append(">;tag=");
    out.append(&f.record.local_tag);
    out.append("\r\n");
    out.append("To: <");
    out.append(&remote_uri);
    out.append(">;tag=");
    out.append(&f.record.remote_tag);
    out.append("\r\n");
    out.append("Call-ID: ");
    out.append(&f.record.call_id);
    out.append("\r\n");
    out.append("CSeq: ");
    out.append(&text::decimal_string(f.record.local_cseq as u64));
    out.append(" ");
    out.append(f.method);
    out.append("\r\n");
    out.append("Content-Length: 0\r\n\r\n");
    text::to_bytes(&out)
}

// ---------------------------------------------------------------------
// Tags
// ---------------------------------------------------------------------

/// The tag made from a counter, a clock reading and a process id. The counter
/// tells the tags of one process apart; the rest those of several.
pub open spec fn tag_text(count: u64, nanos: u64, pid: u32) -> Seq<char> {
    "smiths-"@ + text::padded_hex(count as nat, 16) + "-"@ + text::padded_hex(
        (nanos ^ (pid as u64)) as nat,
        16,
    )
}

/// Numbers the tags that one process hands out.
#[derive(Debug)]
pub struct TagSource {
    issued: u64,
}

impl View for TagSource {
    type V = u64;

    closed spec fn view(&self) -> u64 {
        self.issued
    }
}

impl TagSource {
    /// A source that has issued nothing.
    pub fn new() -> (r: Self)
        ensures
            r@ == 0,
    {
        TagSource { issued: 0 }
    }

    /// The next tag for `From` or `To`, at clock reading `nanos` in process
    /// `pid`.
    pub fn next_tag(&mut self, nanos: u64, pid: u32) -> (r: String)
        ensures
            r@ == tag_text(old(self)@, nanos, pid),
            final(self)@ == old(self)@.wrapping_add(1),
    {
        let n: u64 = self.issued;
        self.issued = n.wrapping_add(1);
        let mut out: String = "smiths-".to_owned();
        out.append(&text::hex_string(n, 16));
        out.append("-");
        out.append(&text::hex_string(nanos ^ (pid as u64), 16));
        out
    }
}

/// Tags that one source hands out differ, whatever the clock reads, until it
/// has handed out all of them.
pub proof fn tags_differ(c: u64, d: u64, nanos_c: u64, nanos_d: u64, pid: u32)
    requires
        c != d,
    ensures
        tag_text(c, nanos_c, pid) != tag_text(d, nanos_d, pid),
{
    text::lemma_padded_hex_value(c as nat, 16);
    text::lemma_padded_hex_value(d as nat, 16);
    text::lemma_padded_hex_len(c as nat);
    text::lemma_padded_hex_len(d as nat);
    let x = tag_text(c, nanos_c, pid);
    let y = tag_text(d, nanos_d, pid);
    if x == y {
        let n = "smiths-"@.len() as int;
        assert(x.subrange(n, n + 16) =~= text::padded_hex(c as nat, 16));
        assert(y.subrange(n, n + 16) =~= text::padded_hex(d as nat, 16));
    }
}

} // verus!
