//! One request, reduced to what the engine acts on.

use vstd::prelude::*;

use super::parse::{
    branch_of, contact_uri, head_and_body, header_list, header_values, nonempty, number_opt,
    push_list, read_session_expires, read_u32, session_expires_of, split_headers_body, tag_of,
    tag_param, uri_of, uri_user, user_of, values_from, via_branch,
};
use crate::record::{dialog_path, DialogKey};
use crate::text;

verus! {

/// A parsed request.
#[derive(Debug)]
pub struct RequestSummary {
    /// Method, in upper case.
    pub method: String,
    /// Branch of the topmost `Via`.
    pub branch: Option<String>,
    /// `Call-ID`.
    pub call_id: Option<String>,
    /// Tag of `From`.
    pub from_tag: Option<String>,
    /// Tag of `To`.
    pub to_tag: Option<String>,
    /// `CSeq` sequence number.
    pub cseq: Option<u32>,
    /// User part of the Request-URI; the rendezvous name.
    pub ruri_user: Option<String>,
    /// Request-URI.
    pub request_uri: Option<String>,
    /// `Authorization` value.
    pub authorization: Option<String>,
    /// Media type of the body, in lower case, without parameters.
    pub content_type: Option<String>,
    /// `Contact` value.
    pub contact: Option<String>,
    /// `Record-Route` elements, in header order.
    pub record_route: Vec<String>,
    /// URI of `From`.
    pub from_uri: Option<String>,
    /// URI of `To`.
    pub to_uri: Option<String>,
    /// `Expires` in seconds.
    pub expires: Option<u32>,
    /// `Session-Expires` in seconds.
    pub session_expires: Option<u32>,
    /// `refresher` of `Session-Expires`, in lower case.
    pub session_refresher: Option<String>,
    /// `Min-SE` in seconds.
    pub min_se: Option<u32>,
    /// `Supported` lists `timer`.
    pub supports_timer: bool,
    /// Body, unless empty.
    pub body: Option<String>,
    /// The request as it came.
    pub raw: Vec<u8>,
    /// `X-Smiths-Webrtc-Tag` value.
    pub webrtc_tag: Option<String>,
}

/// Model of a [`RequestSummary`], without the raw bytes.
#[verifier::ext_equal]
pub struct SummaryView {
    pub method: Seq<char>,
    pub branch: Option<Seq<char>>,
    pub call_id: Option<Seq<char>>,
    pub from_tag: Option<Seq<char>>,
    pub to_tag: Option<Seq<char>>,
    pub cseq: Option<nat>,
    pub ruri_user: Option<Seq<char>>,
    pub request_uri: Option<Seq<char>>,
    pub authorization: Option<Seq<char>>,
    pub content_type: Option<Seq<char>>,
    pub contact: Option<Seq<char>>,
    pub record_route: Seq<Seq<char>>,
    pub from_uri: Option<Seq<char>>,
    pub to_uri: Option<Seq<char>>,
    pub expires: Option<nat>,
    pub session_expires: Option<nat>,
    pub session_refresher: Option<Seq<char>>,
    pub min_se: Option<nat>,
    pub supports_timer: bool,
    pub body: Option<Seq<char>>,
    pub webrtc_tag: Option<Seq<char>>,
}

impl View for RequestSummary {
    type V = SummaryView;

    open spec fn view(&self) -> SummaryView {
        SummaryView {
            method: self.method@,
            branch: text::text_opt(self.branch),
            call_id: text::text_opt(self.call_id),
            from_tag: text::text_opt(self.from_tag),
            to_tag: text::text_opt(self.to_tag),
            cseq: number_opt(self.cseq),
            ruri_user: text::text_opt(self.ruri_user),
            request_uri: text::text_opt(self.request_uri),
            authorization: text::text_opt(self.authorization),
            content_type: text::text_opt(self.content_type),
            contact: text::text_opt(self.contact),
            record_route: text::texts(self.record_route@),
            from_uri: text::text_opt(self.from_uri),
            to_uri: text::text_opt(self.to_uri),
            expires: number_opt(self.expires),
            session_expires: number_opt(self.session_expires),
            session_refresher: text::text_opt(self.session_refresher),
            min_se: number_opt(self.min_se),
            supports_timer: self.supports_timer,
            body: text::text_opt(self.body),
            webrtc_tag: text::text_opt(self.webrtc_tag),
        }
    }
}

/// What a header value is read for: a text.
#[derive(Copy, Clone)]
pub enum TextRule {
    /// The value itself, unless empty.
    Whole,
    /// The `branch` parameter.
    Branch,
    /// The `tag` parameter.
    Tag,
    /// The media type: lower case, without parameters, unless empty.
    MediaType,
}

/// What a header value is read for: a number.
#[derive(Copy, Clone)]
pub enum NumberRule {
    /// The whole value.
    Whole,
    /// The first word.
    FirstWord,
    /// What precedes the parameters.
    BeforeParams,
}

/// What `rule` reads in a value.
pub open spec fn text_in(rule: TextRule, value: Seq<char>) -> Option<Seq<char>> {
    match rule {
        TextRule::Whole => nonempty(Some(value)),
        TextRule::Branch => via_branch(value),
        TextRule::Tag => tag_param(value),
        TextRule::MediaType => nonempty(
            Some(text::lowered(text::trimmed(text::before_any(value, seq![';'])))),
        ),
    }
}

/// What `rule` reads in a value.
pub open spec fn number_in(rule: NumberRule, value: Seq<char>) -> Option<nat> {
    match rule {
        NumberRule::Whole => text::uint_value(value, 10, u32::MAX as nat),
        NumberRule::FirstWord => match text::word(value, 0) {
            Some(w) => text::uint_value(w, 10, u32::MAX as nat),
            None => None,
        },
        NumberRule::BeforeParams => text::uint_value(
            text::trimmed(text::before_any(value, seq![';'])),
            10,
            u32::MAX as nat,
        ),
    }
}

/// The first text that `rule` reads in `values`, from `i` on.
pub open spec fn first_text_from(values: Seq<Seq<char>>, rule: TextRule, i: int) -> Option<
    Seq<char>,
>
    decreases values.len() - i,
{
    if i < 0 || i >= values.len() {
        None
    } else if text_in(rule, values[i]) is Some {
        text_in(rule, values[i])
    } else {
        first_text_from(values, rule, i + 1)
    }
}

/// The first number that `rule` reads in `values`, from `i` on.
pub open spec fn first_number_from(values: Seq<Seq<char>>, rule: NumberRule, i: int) -> Option<nat>
    decreases values.len() - i,
{
    if i < 0 || i >= values.len() {
        None
    } else if number_in(rule, values[i]) is Some {
        number_in(rule, values[i])
    } else {
        first_number_from(values, rule, i + 1)
    }
}

/// The first of `values`, from `i` on, that has a tag; the last one when none
/// has.
pub open spec fn tagged_from(values: Seq<Seq<char>>, i: int) -> Option<Seq<char>>
    decreases values.len() - i,
{
    if i < 0 || i >= values.len() {
        None
    } else if tag_param(values[i]) is Some || i == values.len() - 1 {
        Some(values[i])
    } else {
        tagged_from(values, i + 1)
    }
}

/// The first of `values`, from `i` on, that states seconds; the last one when
/// none does.
pub open spec fn timed_from(values: Seq<Seq<char>>, i: int) -> Option<Seq<char>>
    decreases values.len() - i,
{
    if i < 0 || i >= values.len() {
        None
    } else if session_expires_of(values[i]).0 is Some || i == values.len() - 1 {
        Some(values[i])
    } else {
        timed_from(values, i + 1)
    }
}

/// The elements of the lists in `values`, from `i` on.
pub open spec fn lists_from(values: Seq<Seq<char>>, i: int) -> Seq<Seq<char>>
    decreases values.len() - i,
{
    if i < 0 || i >= values.len() {
        seq![]
    } else {
        header_list(values[i]) + lists_from(values, i + 1)
    }
}

/// The tag of a dialog side: of the first header that has one.
pub open spec fn side_tag(values: Seq<Seq<char>>) -> Option<Seq<char>> {
    match tagged_from(values, 0) {
        Some(v) => tag_param(v),
        None => None,
    }
}

/// The URI of a dialog side.
pub open spec fn side_uri(values: Seq<Seq<char>>) -> Option<Seq<char>> {
    match tagged_from(values, 0) {
        Some(v) => contact_uri(v),
        None => None,
    }
}

/// Seconds and refresher of the session timer.
pub open spec fn session_of(values: Seq<Seq<char>>) -> (Option<nat>, Option<Seq<char>>) {
    match timed_from(values, 0) {
        Some(v) => session_expires_of(v),
        None => (None, None),
    }
}

/// One of `items` equals `token` up to case.
pub open spec fn lists_token(items: Seq<Seq<char>>, token: Seq<char>) -> bool {
    exists|i: int|
        0 <= i < items.len() && text::same_ignoring_case(#[trigger] items[i], token)
}

/// What a request's text says.
pub open spec fn summary_of(message: Seq<char>) -> SummaryView {
    let (head, body) = head_and_body(message);
    let lines = text::split(head, "\r\n"@);
    let from = values_from(lines, "from"@, "f"@, 1);
    let to = values_from(lines, "to"@, "t"@, 1);
    let session = session_of(values_from(lines, "session-expires"@, "x"@, 1));
    let uri = text::word(lines[0], 1);
    SummaryView {
        method: match text::word(lines[0], 0) {
            Some(m) => text::uppered(m),
            None => seq![],
        },
        branch: first_text_from(values_from(lines, "via"@, "v"@, 1), TextRule::Branch, 0),
        call_id: first_text_from(values_from(lines, "call-id"@, "i"@, 1), TextRule::Whole, 0),
        from_tag: side_tag(from),
        to_tag: side_tag(to),
        cseq: first_number_from(
            values_from(lines, "cseq"@, "cseq"@, 1),
            NumberRule::FirstWord,
            0,
        ),
        ruri_user: match uri {
            Some(u) => uri_user(u),
            None => None,
        },
        request_uri: uri,
        authorization: first_text_from(
            values_from(lines, "authorization"@, "authorization"@, 1),
            TextRule::Whole,
            0,
        ),
        content_type: first_text_from(
            values_from(lines, "content-type"@, "c"@, 1),
            TextRule::MediaType,
            0,
        ),
        contact: first_text_from(values_from(lines, "contact"@, "m"@, 1), TextRule::Whole, 0),
        record_route: lists_from(values_from(lines, "record-route"@, "record-route"@, 1), 0),
        from_uri: side_uri(from),
        to_uri: side_uri(to),
        expires: first_number_from(
            values_from(lines, "expires"@, "expires"@, 1),
            NumberRule::Whole,
            0,
        ),
        session_expires: session.0,
        session_refresher: session.1,
        min_se: first_number_from(
            values_from(lines, "min-se"@, "min-se"@, 1),
            NumberRule::BeforeParams,
            0,
        ),
        supports_timer: lists_token(
            lists_from(values_from(lines, "supported"@, "k"@, 1), 0),
            "timer"@,
        ),
        body: nonempty(Some(body)),
        webrtc_tag: first_text_from(
            values_from(lines, "x-smiths-webrtc-tag"@, "x-smiths-webrtc-tag"@, 1),
            TextRule::Whole,
            0,
        ),
    }
}

fn read_text(rule: TextRule, value: &[char]) -> (r: Option<String>)
    ensures
        text::text_opt(r) == text_in(rule, value@),
{
    match rule {
        TextRule::Whole => if value.len() > 0 {
            Some(text::to_string(value))
        } else {
            None
        },
        TextRule::Branch => branch_of(value),
        TextRule::Tag => tag_of(value),
        TextRule::MediaType => {
            let semi: [char; 1] = [';'];
            assert(semi@ =~= seq![';']);
            let t = text::to_lower(text::trim(text::cut_before(value, &semi)));
            if t.len() > 0 {
                Some(text::to_string(&t))
            } else {
                None
            }
        },
    }
}

fn read_number(rule: NumberRule, value: &[char]) -> (r: Option<u32>)
    ensures
        number_opt(r) == number_in(rule, value@),
{
    match rule {
        NumberRule::Whole => read_u32(value),
        NumberRule::FirstWord => {
            let w = text::split_words(value);
            if w.len() > 0 {
                read_u32(w[0])
            } else {
                None
            }
        },
        NumberRule::BeforeParams => {
            let semi: [char; 1] = [';'];
            assert(semi@ =~= seq![';']);
            read_u32(text::trim(text::cut_before(value, &semi)))
        },
    }
}

fn first_text(values: &Vec<&[char]>, rule: TextRule) -> (r: Option<String>)
    ensures
        text::text_opt(r) == first_text_from(text::views(values@), rule, 0),
{
    let mut i: usize = 0;
    while i < values.len()
        invariant
            i <= values@.len(),
            first_text_from(text::views(values@), rule, 0) == first_text_from(
                text::views(values@),
                rule,
                i as int,
            ),
        decreases values.len() - i,
    {
        let t = read_text(rule, values[i]);
        if t.is_some() {
            return t;
        }
        i = i + 1;
    }
    None
}

fn first_number(values: &Vec<&[char]>, rule: NumberRule) -> (r: Option<u32>)
    ensures
        number_opt(r) == first_number_from(text::views(values@), rule, 0),
{
    let mut i: usize = 0;
    while i < values.len()
        invariant
            i <= values@.len(),
            first_number_from(text::views(values@), rule, 0) == first_number_from(
                text::views(values@),
                rule,
                i as int,
            ),
        decreases values.len() - i,
    {
        let n = read_number(rule, values[i]);
        if n.is_some() {
            return n;
        }
        i = i + 1;
    }
    None
}

fn read_side(values: &Vec<&[char]>) -> (r: (Option<String>, Option<String>))
    ensures
        text::text_opt(r.0) == side_tag(text::views(values@)),
        text::text_opt(r.1) == side_uri(text::views(values@)),
{
    let mut i: usize = 0;
    while i < values.len()
        invariant
            i <= values@.len(),
            tagged_from(text::views(values@), 0) == tagged_from(text::views(values@), i as int),
        decreases values.len() - i,
    {
        let tag = tag_of(values[i]);
        if tag.is_some() || i == values.len() - 1 {
            return (tag, uri_of(values[i]));
        }
        i = i + 1;
    }
    (None, None)
}

fn read_session(values: &Vec<&[char]>) -> (r: (Option<u32>, Option<String>))
    ensures
        (number_opt(r.0), text::text_opt(r.1)) == session_of(text::views(values@)),
{
    let mut i: usize = 0;
    while i < values.len()
        invariant
            i <= values@.len(),
            timed_from(text::views(values@), 0) == timed_from(text::views(values@), i as int),
        decreases values.len() - i,
    {
        let s = read_session_expires(values[i]);
        if s.0.is_some() || i == values.len() - 1 {
            return s;
        }
        i = i + 1;
    }
    (None, None)
}

fn read_lists(values: &Vec<&[char]>) -> (r: Vec<String>)
    ensures
        text::texts(r@) == lists_from(text::views(values@), 0),
{
    let mut out: Vec<String> = Vec::new();
    assert(text::texts(out@) =~= seq![]);
    let mut i: usize = 0;
    while i < values.len()
        invariant
            i <= values@.len(),
            text::texts(out@) + lists_from(text::views(values@), i as int) =~= lists_from(
                text::views(values@),
                0,
            ),
        decreases values.len() - i,
    {
        push_list(&mut out, values[i]);
        i = i + 1;
    }
    out
}

fn has_token(items: &Vec<String>, token: &str) -> (r: bool)
    ensures
        r == lists_token(text::texts(items@), token@),
{
    let t = text::to_chars(token);
    let mut i: usize = 0;
    while i < items.len()
        invariant
            i <= items@.len(),
            t@ == token@,
            forall|j: int|
                0 <= j < i ==> !text::same_ignoring_case(
                    #[trigger] text::texts(items@)[j],
                    token@,
                ),
        decreases items.len() - i,
    {
        let item = text::to_chars(&items[i]);
        if text::same_nocase(&item, &t) {
            assert(text::same_ignoring_case(text::texts(items@)[i as int], token@));
            return true;
        }
        i = i + 1;
    }
    false
}

/// Reads a request whose text is `message`.
pub fn summarize_text(message: &str, raw: Vec<u8>) -> (r: RequestSummary)
    ensures
        r@ == summary_of(message@),
        r.raw@ == raw@,
{
    let chars = text::to_chars(message);
    let (head, body) = split_headers_body(&chars);
    proof {
        reveal_strlit("\r\n");
    }
    let crlf = text::to_chars("\r\n");
    let lines = text::split_on(head, &crlf);
    let start = text::split_words(lines[0]);
    let method = if start.len() > 0 {
        let m = text::to_upper(start[0]);
        text::to_string(&m)
    } else {
        String::new()
    };
    let (request_uri, ruri_user) = if start.len() > 1 {
        (Some(text::to_string(start[1])), user_of(start[1]))
    } else {
        (None, None)
    };
    let branch = first_text(&header_values(&lines, "via", "v"), TextRule::Branch);
    let call_id = first_text(&header_values(&lines, "call-id", "i"), TextRule::Whole);
    let (from_tag, from_uri) = read_side(&header_values(&lines, "from", "f"));
    let (to_tag, to_uri) = read_side(&header_values(&lines, "to", "t"));
    let cseq = first_number(&header_values(&lines, "cseq", "cseq"), NumberRule::FirstWord);
    let content_type = first_text(
        &header_values(&lines, "content-type", "c"),
        TextRule::MediaType,
    );
    let authorization = first_text(
        &header_values(&lines, "authorization", "authorization"),
        TextRule::Whole,
    );
    let contact = first_text(&header_values(&lines, "contact", "m"), TextRule::Whole);
    let record_route = read_lists(&header_values(&lines, "record-route", "record-route"));
    let expires = first_number(&header_values(&lines, "expires", "expires"), NumberRule::Whole);
    let (session_expires, session_refresher) = read_session(
        &header_values(&lines, "session-expires", "x"),
    );
    let min_se = first_number(&header_values(&lines, "min-se", "min-se"), NumberRule::BeforeParams);
    let supported = read_lists(&header_values(&lines, "supported", "k"));
    let supports_timer = has_token(&supported, "timer");
    let webrtc_tag = first_text(
        &header_values(&lines, "x-smiths-webrtc-tag", "x-smiths-webrtc-tag"),
        TextRule::Whole,
    );
    let body_text = if body.len() > 0 {
        Some(text::to_string(body))
    } else {
        None
    };
    let r = RequestSummary {
        method,
        branch,
        call_id,
        from_tag,
        to_tag,
        cseq,
        ruri_user,
        request_uri,
        authorization,
        content_type,
        contact,
        record_route,
        from_uri,
        to_uri,
        expires,
        session_expires,
        session_refresher,
        min_se,
        supports_timer,
        body: body_text,
        raw,
        webrtc_tag,
    };
    assert(r@ =~= summary_of(message@));
    r
}

/// Reads a raw request. Nothing is refused: what is missing or malformed stays
/// out of the summary.
pub fn summarize_request(raw: &[u8]) -> (r: RequestSummary)
    ensures
        r@ == summary_of(text::message_text(raw@)),
        r.raw@ == raw@,
{
    let message = text::read_message(raw);
    summarize_text(&message, text::copy_bytes(raw))
}

/// `true` when the request carries an SDP body.
pub open spec fn carries_sdp(s: SummaryView) -> bool {
    s.content_type == Some("application/sdp"@) && s.body is Some
}

impl RequestSummary {
    /// `true` when the body is an SDP offer.
    pub fn has_sdp(&self) -> (r: bool)
        ensures
            r == carries_sdp(self@),
    {
        match &self.content_type {
            Some(t) => *t == "application/sdp".to_owned() && self.body.is_some(),
            None => false,
        }
    }
}

/// The dialog that an in-dialog request names: an incoming request sees its
/// sender in `From` and the engine in `To`.
pub open spec fn named_dialog(s: SummaryView) -> Option<Seq<Seq<char>>> {
    match (s.call_id, s.to_tag, s.from_tag) {
        (Some(c), Some(l), Some(f)) => Some(seq![c, l, f]),
        _ => None,
    }
}

/// The dialog that an in-dialog request names; `None` when it lacks a Call-ID
/// or a tag.
pub fn in_dialog_key(req: &RequestSummary) -> (r: Option<DialogKey>)
    ensures
        match r {
            Some(k) => named_dialog(req@) == Some(dialog_path(k)),
            None => named_dialog(req@) is None,
        },
{
    match (&req.call_id, &req.to_tag, &req.from_tag) {
        (Some(c), Some(l), Some(f)) => Some((c.clone(), l.clone(), f.clone())),
        _ => None,
    }
}

// ---------------------------------------------------------------------
// Laws
// ---------------------------------------------------------------------

/// The long form of a header name in lower case.
pub open spec fn long_name(name: Seq<char>) -> Seq<char> {
    if name == "v"@ {
        "via"@
    } else if name == "i"@ {
        "call-id"@
    } else if name == "f"@ {
        "from"@
    } else if name == "t"@ {
        "to"@
    } else if name == "c"@ {
        "content-type"@
    } else if name == "m"@ {
        "contact"@
    } else if name == "x"@ {
        "session-expires"@
    } else if name == "k"@ {
        "supported"@
    } else {
        name
    }
}

/// Two header lines say the same: their names are the same up to letter case
/// and the compact form, and so are their values up to white space around them.
pub open spec fn same_header(a: Seq<char>, b: Seq<char>) -> bool {
    match (text::cut(a, seq![':']), text::cut(b, seq![':'])) {
        (Some(p), Some(q)) => long_name(text::lowered(text::trimmed(p.0))) == long_name(
            text::lowered(text::trimmed(q.0)),
        ) && text::trimmed(p.1) == text::trimmed(q.1),
        (None, None) => a == b,
        _ => false,
    }
}

/// Two messages say the same: the same request line, header lines that say the
/// same in the same order, and the same body.
pub open spec fn same_message(m: Seq<char>, n: Seq<char>) -> bool {
    let (head_m, body_m) = head_and_body(m);
    let (head_n, body_n) = head_and_body(n);
    let a = text::split(head_m, "\r\n"@);
    let b = text::split(head_n, "\r\n"@);
    &&& body_m == body_n
    &&& a.len() == b.len()
    &&& a[0] == b[0]
    &&& forall|i: int| 1 <= i < a.len() ==> same_header(#[trigger] a[i], b[i])
}

/// `a` and its other form `b` are all the names with the long form `a`.
spec fn is_named(a: Seq<char>, b: Seq<char>) -> bool {
    forall|name: Seq<char>| (name == a || name == b) == (#[trigger] long_name(name) == a)
}

proof fn lemma_names()
    ensures
        is_named("via"@, "v"@),
        is_named("call-id"@, "i"@),
        is_named("from"@, "f"@),
        is_named("to"@, "t"@),
        is_named("content-type"@, "c"@),
        is_named("contact"@, "m"@),
        is_named("session-expires"@, "x"@),
        is_named("supported"@, "k"@),
        is_named("cseq"@, "cseq"@),
        is_named("authorization"@, "authorization"@),
        is_named("record-route"@, "record-route"@),
        is_named("expires"@, "expires"@),
        is_named("min-se"@, "min-se"@),
        is_named("x-smiths-webrtc-tag"@, "x-smiths-webrtc-tag"@),
{
    reveal_strlit("via");
    reveal_strlit("v");
    reveal_strlit("call-id");
    reveal_strlit("i");
    reveal_strlit("from");
    reveal_strlit("f");
    reveal_strlit("to");
    reveal_strlit("t");
    reveal_strlit("content-type");
    reveal_strlit("c");
    reveal_strlit("contact");
    reveal_strlit("m");
    reveal_strlit("session-expires");
    reveal_strlit("x");
    reveal_strlit("supported");
    reveal_strlit("k");
    reveal_strlit("cseq");
    reveal_strlit("authorization");
    reveal_strlit("record-route");
    reveal_strlit("expires");
    reveal_strlit("min-se");
    reveal_strlit("x-smiths-webrtc-tag");
    assert("via"@.len() == 3);
    assert("call-id"@.len() == 7);
    assert("from"@.len() == 4);
    assert("to"@.len() == 2);
    assert("content-type"@.len() == 12);
    assert("contact"@.len() == 7);
    assert("session-expires"@.len() == 15);
    assert("supported"@.len() == 9);
    assert("cseq"@.len() == 4);
    assert("authorization"@.len() == 13);
    assert("record-route"@.len() == 12);
    assert("expires"@.len() == 7);
    assert("min-se"@.len() == 6);
    assert("x-smiths-webrtc-tag"@.len() == 19);
    assert("v"@.len() == 1);
    assert("i"@.len() == 1);
    assert("f"@.len() == 1);
    assert("t"@.len() == 1);
    assert("c"@.len() == 1);
    assert("m"@.len() == 1);
    assert("x"@.len() == 1);
    assert("k"@.len() == 1);
    assert("call-id"@[1] == 'a' && "contact"@[1] == 'o' && "expires"@[0] == 'e');
    assert("from"@[0] == 'f' && "cseq"@[0] == 'c');
    assert("content-type"@[0] == 'c' && "record-route"@[0] == 'r');
    assert("v"@[0] == 'v' && "i"@[0] == 'i' && "f"@[0] == 'f' && "t"@[0] == 't' && "c"@[0] == 'c'
        && "m"@[0] == 'm' && "x"@[0] == 'x' && "k"@[0] == 'k');
}

proof fn lemma_same_values(
    lines: Seq<Seq<char>>,
    others: Seq<Seq<char>>,
    a: Seq<char>,
    b: Seq<char>,
    i: int,
)
    requires
        1 <= i,
        lines.len() == others.len(),
        is_named(a, b),
        forall|j: int| 1 <= j < lines.len() ==> same_header(#[trigger] lines[j], others[j]),
    ensures
        values_from(lines, a, b, i) == values_from(others, a, b, i),
    decreases lines.len() - i,
{
    if i < lines.len() {
        lemma_same_values(lines, others, a, b, i + 1);
        assert(same_header(lines[i], others[i]));
    }
}

/// How header names are spelled makes no difference: requests that differ in
/// the letter case of names, or in their compact forms, have the same summary.
pub proof fn spelling_of_names_is_free(m: Seq<char>, n: Seq<char>)
    requires
        same_message(m, n),
    ensures
        summary_of(m) == summary_of(n),
{
    let a = text::split(head_and_body(m).0, "\r\n"@);
    let b = text::split(head_and_body(n).0, "\r\n"@);
    lemma_names();
    lemma_same_values(a, b, "via"@, "v"@, 1);
    lemma_same_values(a, b, "call-id"@, "i"@, 1);
    lemma_same_values(a, b, "from"@, "f"@, 1);
    lemma_same_values(a, b, "to"@, "t"@, 1);
    lemma_same_values(a, b, "content-type"@, "c"@, 1);
    lemma_same_values(a, b, "contact"@, "m"@, 1);
    lemma_same_values(a, b, "session-expires"@, "x"@, 1);
    lemma_same_values(a, b, "supported"@, "k"@, 1);
    lemma_same_values(a, b, "cseq"@, "cseq"@, 1);
    lemma_same_values(a, b, "authorization"@, "authorization"@, 1);
    lemma_same_values(a, b, "record-route"@, "record-route"@, 1);
    lemma_same_values(a, b, "expires"@, "expires"@, 1);
    lemma_same_values(a, b, "min-se"@, "min-se"@, 1);
    lemma_same_values(a, b, "x-smiths-webrtc-tag"@, "x-smiths-webrtc-tag"@, 1);
}

} // verus!
