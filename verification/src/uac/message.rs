//! The messages of an outbound call: requests it sends, and what it reads of
//! their responses.

use vstd::prelude::*;
use vstd::utf8::encode_utf8;

use super::UacError;
use crate::text;
use crate::uas::compose::{is_to, line_is_to};
use crate::uas::parse::{param_value, read_param, strip_prefix, without_prefix};

verus! {

// ---------------------------------------------------------------------
// Requests
// ---------------------------------------------------------------------

/// What an INVITE is made of.
pub struct InviteFields<'a> {
    /// Request-URI.
    pub request_uri: &'a str,
    /// `host:port` that the engine sends from.
    pub via_sent_by: &'a str,
    /// `Via` branch.
    pub branch: &'a str,
    /// `From`.
    pub from_uri: &'a str,
    /// `From` tag.
    pub from_tag: &'a str,
    /// `To`.
    pub to_uri: &'a str,
    /// Call-ID.
    pub call_id: &'a str,
    /// Sequence number.
    pub cseq: u32,
    /// `Contact`.
    pub contact: &'a str,
    /// SDP offer.
    pub sdp: &'a str,
}

/// Start line, `Via` and `From` of a request, up to the end of `To`.
pub open spec fn request_front(
    method: Seq<char>,
    uri: Seq<char>,
    sent_by: Seq<char>,
    branch: Seq<char>,
    from_uri: Seq<char>,
    from_tag: Seq<char>,
    to_uri: Seq<char>,
) -> Seq<char> {
    method + " "@ + uri + " SIP/2.0\r\n"@ + "Via: SIP/2.0/UDP "@ + sent_by + ";branch="@ + branch
        + ";rport\r\n"@ + "From: "@ + from_uri + ";tag="@ + from_tag + "\r\nTo: "@ + to_uri
}

/// Call-ID and sequence number of a request.
pub open spec fn request_middle(method: Seq<char>, call_id: Seq<char>, cseq: u32) -> Seq<char> {
    "\r\nCall-ID: "@ + call_id + "\r\nCSeq: "@ + text::decimal(cseq as nat) + " "@ + method
        + "\r\n"@
}

/// Everything in an INVITE but its body.
pub open spec fn invite_head(f: InviteFields<'_>) -> Seq<char> {
    request_front(
        "INVITE"@,
        f.request_uri@,
        f.via_sent_by@,
        f.branch@,
        f.from_uri@,
        f.from_tag@,
        f.to_uri@,
    ) + request_middle("INVITE"@, f.call_id@, f.cseq) + "Max-Forwards: 70\r\nContact: "@
        + f.contact@ + "\r\nContent-Type: application/sdp\r\nContent-Length: "@ + text::decimal(
        encode_utf8(f.sdp@).len(),
    ) + "\r\n\r\n"@
}

/// An INVITE with its SDP offer.
pub open spec fn invite_bytes(f: InviteFields<'_>) -> Seq<u8> {
    encode_utf8(invite_head(f)) + encode_utf8(f.sdp@)
}

fn push_front(
    out: &mut String,
    method: &str,
    uri: &str,
    sent_by: &str,
    branch: &str,
    from_uri: &str,
    from_tag: &str,
    to_uri: &str,
)
    requires
        old(out)@.len() == 0,
    ensures
        final(out)@ == request_front(
            method@,
            uri@,
            sent_by@,
            branch@,
            from_uri@,
            from_tag@,
            to_uri@,
        ),
{
    out.append(method);
    assert(out@ =~= method@);
    out.append(" ");
    out.append(uri);
    out.append(" SIP/2.0\r\n");
    out.append("Via: SIP/2.0/UDP ");
    out.append(sent_by);
    out.append(";branch=");
    out.append(branch);
    out.append(";rport\r\n");
    out.append("From: ");
    out.append(from_uri);
    out.append(";tag=");
    out.append(from_tag);
    out.append("\r\nTo: ");
    out.append(to_uri);
}

fn push_middle(out: &mut String, method: &str, call_id: &str, cseq: u32)
    ensures
        final(out)@ == old(out)@ + request_middle(method@, call_id@, cseq),
{
    let mut m: String = "\r\nCall-ID: ".to_owned();
    m.append(call_id);
    m.append("\r\nCSeq: ");
    m.append(&text::decimal_string(cseq as u64));
    m.append(" ");
    m.append(method);
    m.append("\r\n");
    out.append(&m);
}

/// Builds an INVITE.
pub fn build_invite(f: InviteFields<'_>) -> (r: Vec<u8>)
    ensures
        r@ == invite_bytes(f),
{
    let body = text::to_bytes(f.sdp);
    let mut out: String = String::new();
    push_front(
        &mut out,
        "INVITE",
        f.request_uri,
        f.via_sent_by,
        f.branch,
        f.from_uri,
        f.from_tag,
        f.to_uri,
    );
    push_middle(&mut out, "INVITE", f.call_id, f.cseq);
    out.append("Max-Forwards: 70\r\nContact: ");
    out.append(f.contact);
    out.append("\r\nContent-Type: application/sdp\r\nContent-Length: ");
    out.append(&text::decimal_string(body.len() as u64));
    out.append("\r\n\r\n");
    let mut bytes = text::to_bytes(&out);
    bytes.extend_from_slice(&body);
    assert(bytes@ =~= invite_bytes(f));
    bytes
}

/// What an ACK for a 2xx is made of.
pub struct AckFields<'a> {
    /// Request-URI.
    pub request_uri: &'a str,
    /// `host:port` that the engine sends from.
    pub via_sent_by: &'a str,
    /// `Via` branch.
    pub branch: &'a str,
    /// `From`.
    pub from_uri: &'a str,
    /// `From` tag.
    pub from_tag: &'a str,
    /// `To`.
    pub to_uri: &'a str,
    /// `To` tag.
    pub to_tag: &'a str,
    /// Call-ID.
    pub call_id: &'a str,
    /// Sequence number.
    pub cseq: u32,
}

/// What a BYE is made of.
pub struct ByeFields<'a> {
    /// Request-URI.
    pub request_uri: &'a str,
    /// `host:port` that the engine sends from.
    pub via_sent_by: &'a str,
    /// `Via` branch.
    pub branch: &'a str,
    /// `From`.
    pub from_uri: &'a str,
    /// `From` tag.
    pub from_tag: &'a str,
    /// `To`.
    pub to_uri: &'a str,
    /// `To` tag.
    pub to_tag: &'a str,
    /// Call-ID.
    pub call_id: &'a str,
    /// Sequence number.
    pub cseq: u32,
}

/// A request inside an established dialog, without a body.
pub open spec fn dialog_request(
    method: Seq<char>,
    uri: Seq<char>,
    sent_by: Seq<char>,
    branch: Seq<char>,
    from_uri: Seq<char>,
    from_tag: Seq<char>,
    to_uri: Seq<char>,
    to_tag: Seq<char>,
    call_id: Seq<char>,
    cseq: u32,
) -> Seq<char> {
    request_front(method, uri, sent_by, branch, from_uri, from_tag, to_uri) + ";tag="@ + to_tag
        + request_middle(method, call_id, cseq) + "Max-Forwards: 70\r\nContent-Length: 0\r\n\r\n"@
}

/// The ACK for a 2xx.
pub open spec fn ack_bytes(f: AckFields<'_>) -> Seq<u8> {
    encode_utf8(
        dialog_request(
            "ACK"@,
            f.request_uri@,
            f.via_sent_by@,
            f.branch@,
            f.from_uri@,
            f.from_tag@,
            f.to_uri@,
            f.to_tag@,
            f.call_id@,
            f.cseq,
        ),
    )
}

/// A BYE.
pub open spec fn bye_bytes(f: ByeFields<'_>) -> Seq<u8> {
    encode_utf8(
        dialog_request(
            "BYE"@,
            f.request_uri@,
            f.via_sent_by@,
            f.branch@,
            f.from_uri@,
            f.from_tag@,
            f.to_uri@,
            f.to_tag@,
            f.call_id@,
            f.cseq,
        ),
    )
}

/// Builds the ACK for a 2xx.
pub fn build_ack_2xx(f: AckFields<'_>) -> (r: Vec<u8>)
    ensures
        r@ == ack_bytes(f),
{
    let mut out: String = String::new();
    push_front(
        &mut out,
        "ACK",
        f.request_uri,
        f.via_sent_by,
        f.branch,
        f.from_uri,
        f.from_tag,
        f.to_uri,
    );
    out.append(";tag=");
    out.append(f.to_tag);
    push_middle(&mut out, "ACK", f.call_id, f.cseq);
    out.append("Max-Forwards: 70\r\nContent-Length: 0\r\n\r\n");
    text::to_bytes(&out)
}

/// Builds a BYE.
pub fn build_bye(f: ByeFields<'_>) -> (r: Vec<u8>)
    ensures
        r@ == bye_bytes(f),
{
    let mut out: String = String::new();
    push_front(
        &mut out,
        "BYE",
        f.request_uri,
        f.via_sent_by,
        f.branch,
        f.from_uri,
        f.from_tag,
        f.to_uri,
    );
    out.append(";tag=");
    out.append(f.to_tag);
    push_middle(&mut out, "BYE", f.call_id, f.cseq);
    out.append("Max-Forwards: 70\r\nContent-Length: 0\r\n\r\n");
    text::to_bytes(&out)
}

// ---------------------------------------------------------------------
// Responses
// ---------------------------------------------------------------------

/// What follows the second space of a line; empty when there is none.
pub open spec fn after_two_spaces(line: Seq<char>) -> Seq<char> {
    match text::cut(line, seq![' ']) {
        Some(p) => match text::cut(p.1, seq![' ']) {
            Some(q) => q.1,
            None => seq![],
        },
        None => seq![],
    }
}

/// The reason phrase of a response.
pub open spec fn reason_of(bytes: Seq<u8>) -> Seq<char> {
    match text::utf8_text(bytes) {
        Some(t) => after_two_spaces(text::first_line(t)),
        None => seq![],
    }
}

/// The reason phrase of a response; empty when it has none or is no text.
pub fn parse_reason(bytes: &[u8]) -> (r: String)
    ensures
        r@ == reason_of(bytes@),
{
    let message = match text::decode(bytes) {
        Some(t) => t,
        None => {
            let empty: String = String::new();
            assert(empty@ =~= seq![]);
            return empty;
        },
    };
    let space: [char; 1] = [' '];
    assert(space@ =~= seq![' ']);
    let line = text::line_one(&message);
    match text::split_once(line, &space) {
        Some(p) => match text::split_once(p.1, &space) {
            Some(q) => text::to_string(q.1),
            None => {
                let empty: String = String::new();
                assert(empty@ =~= seq![]);
                empty
            },
        },
        None => {
            let empty: String = String::new();
            assert(empty@ =~= seq![]);
            empty
        },
    }
}

/// The tag in the first tagged `To` header among `lines`, from `i` on.
pub open spec fn to_tag_from(lines: Seq<Seq<char>>, i: int) -> Option<Seq<char>>
    decreases lines.len() - i,
{
    if i < 0 || i >= lines.len() {
        None
    } else if is_to(text::lowered(lines[i])) && param_value(lines[i], ";tag="@, seq![';'])
        is Some {
        param_value(lines[i], ";tag="@, seq![';'])
    } else {
        to_tag_from(lines, i + 1)
    }
}

/// The `To` tag of a response.
pub open spec fn to_tag_of(bytes: Seq<u8>) -> Option<Seq<char>> {
    match text::utf8_text(bytes) {
        Some(t) => to_tag_from(text::split(t, "\r\n"@), 0),
        None => None,
    }
}

/// The `To` tag of a response.
pub fn extract_to_tag(bytes: &[u8]) -> (r: Option<String>)
    ensures
        text::text_opt(r) == to_tag_of(bytes@),
{
    let message = match text::decode(bytes) {
        Some(t) => t,
        None => {
            return None;
        },
    };
    proof {
        reveal_strlit("\r\n");
    }
    let crlf = text::to_chars("\r\n");
    let stops: [char; 1] = [';'];
    assert(stops@ =~= seq![';']);
    let lines = text::split_on(&message, &crlf);
    let mut i: usize = 0;
    while i < lines.len()
        invariant
            stops@ == seq![';'],
            to_tag_of(bytes@) == to_tag_from(text::views(lines@), i as int),
        decreases lines.len() - i,
    {
        let lower = text::to_lower(lines[i]);
        if line_is_to(&lower) {
            match read_param(lines[i], ";tag=", &stops) {
                Some(v) => {
                    return Some(text::to_string(v));
                },
                None => {},
            }
        }
        i = i + 1;
    }
    None
}

/// The body of a message as text; empty when it has none or is no text.
pub open spec fn body_of(bytes: Seq<u8>) -> Seq<char> {
    match text::utf8_text(bytes) {
        Some(t) => match text::cut(t, "\r\n\r\n"@) {
            Some(p) => p.1,
            None => seq![],
        },
        None => seq![],
    }
}

/// The body of a message as text; empty when it has none or is no text.
pub fn extract_body(bytes: &[u8]) -> (r: String)
    ensures
        r@ == body_of(bytes@),
{
    let blank = text::to_chars("\r\n\r\n");
    match text::decode(bytes) {
        Some(t) => match text::split_once(&t, &blank) {
            Some(p) => text::to_string(p.1),
            None => {
                let empty: String = String::new();
                assert(empty@ =~= seq![]);
                empty
            },
        },
        None => {
            let empty: String = String::new();
            assert(empty@ =~= seq![]);
            empty
        },
    }
}

// ---------------------------------------------------------------------
// Targets
// ---------------------------------------------------------------------

/// A target without white space and angle brackets around it.
pub open spec fn bare_target(target: Seq<char>) -> Seq<char> {
    let raw = text::trimmed(target);
    if raw.len() >= 2 && raw[0] == '<' && raw.last() == '>' {
        raw.subrange(1, raw.len() - 1)
    } else {
        raw
    }
}

/// `host_port` names a port: a colon stands in it, after the closing bracket of
/// an IPv6 address.
pub open spec fn names_port(host_port: Seq<char>) -> bool {
    match text::rcut(host_port, ']') {
        Some(p) => p.1.contains(':'),
        None => host_port.contains(':'),
    }
}

/// Host and port of a URI without its scheme; port 5060 when it names none.
pub open spec fn target_address(body: Seq<char>) -> Seq<char> {
    let host_port = match text::rcut(body, '@') {
        Some(p) => p.1,
        None => body,
    };
    if names_port(host_port) {
        host_port
    } else {
        host_port + ":5060"@
    }
}

/// Request-URI and `host:port` of a target; `None` for one that is no `sip:`
/// URI.
pub open spec fn target_of(target: Seq<char>) -> Option<(Seq<char>, Seq<char>)> {
    match without_prefix(bare_target(target), "sip:"@) {
        Some(body) => Some((bare_target(target), target_address(body))),
        None => None,
    }
}

/// Why a target is refused.
pub open spec fn refusal(target: Seq<char>) -> Seq<char> {
    "expected sip: scheme, got `"@ + bare_target(target) + "`"@
}

/// Reads a SIP URI such as `sip:alice@host:5060`: the Request-URI to send, and
/// the `host:port` to send it to. The port defaults to 5060.
pub fn parse_target(target: &str) -> (r: Result<(String, String), UacError>)
    ensures
        match r {
            Ok(p) => target_of(target@) == Some((p.0@, p.1@)),
            Err(e) => target_of(target@) is None && (e matches UacError::InvalidTarget(m) && m@
                == refusal(target@)),
        },
{
    let chars = text::to_chars(target);
    let raw = text::trim(&chars);
    let n: usize = raw.len();
    let inner: &[char] = if n >= 2 && raw[0] == '<' && raw[n - 1] == '>' {
        text::part(raw, 1, n - 1)
    } else {
        raw
    };
    let body = match strip_prefix(inner, "sip:") {
        Some(b) => b,
        None => {
            let mut m: String = "expected sip: scheme, got `".to_owned();
            text::push_chars(&mut m, inner);
            m.append("`");
            return Err(UacError::InvalidTarget(m));
        },
    };
    let host_port: &[char] = match text::rsplit_once(body, '@') {
        Some(p) => p.1,
        None => body,
    };
    let mut address = text::to_string(host_port);
    let after_host: &[char] = match text::rsplit_once(host_port, ']') {
        Some(p) => p.1,
        None => host_port,
    };
    if !text::one_of(':', after_host) {
        address.append(":5060");
    }
    Ok((text::to_string(inner), address))
}

} // verus!
