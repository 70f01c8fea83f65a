//! Reading SIP messages: the few header fields that the engine acts on.

use vstd::prelude::*;

use crate::text;

verus! {

// ---------------------------------------------------------------------
// Parameters and list elements
// ---------------------------------------------------------------------

/// The text after the first `marker` (found in the lower-case form of
/// `value`), up to white space or one of `stops`; `None` without the marker.
pub open spec fn param_value(value: Seq<char>, marker: Seq<char>, stops: Seq<char>) -> Option<
    Seq<char>,
> {
    match text::find_from(text::lowered(value), marker, 0) {
        Some(k) => Some(
            value.subrange(k + marker.len(), text::stop_from(value, stops, k + marker.len())),
        ),
        None => None,
    }
}

/// `o` unless it is empty.
pub open spec fn nonempty(o: Option<Seq<char>>) -> Option<Seq<char>> {
    match o {
        Some(s) => if s.len() > 0 {
            Some(s)
        } else {
            None
        },
        None => None,
    }
}

/// The `branch` parameter of a `Via` value.
pub open spec fn via_branch(value: Seq<char>) -> Option<Seq<char>> {
    nonempty(param_value(value, ";branch="@, seq![';', ',']))
}

/// The `tag` parameter of a `From` or `To` value.
pub open spec fn tag_param(value: Seq<char>) -> Option<Seq<char>> {
    nonempty(param_value(value, ";tag="@, seq![';', ',', '>']))
}

/// Reads a parameter; see [`param_value`].
pub(crate) fn read_param<'a>(value: &'a [char], marker: &str, stops: &[char]) -> (r: Option<
    &'a [char],
>)
    ensures
        r matches Some(v) ==> param_value(value@, marker@, stops@) == Some(v@),
        r is None ==> param_value(value@, marker@, stops@) is None,
{
    let lower = text::to_lower(value);
    let m = text::to_chars(marker);
    let n: usize = value.len();
    proof {
        text::lemma_find_from(lower@, m@, 0);
    }
    match text::find(&lower, &m, 0) {
        Some(k) => {
            let from: usize = k + m.len();
            let to = text::find_stop(value, stops, from);
            Some(text::part(value, from, to))
        },
        None => None,
    }
}

fn keep_nonempty(o: Option<&[char]>) -> (r: Option<String>)
    ensures
        text::text_opt(r) == nonempty(
            match o {
                Some(s) => Some(s@),
                None => None,
            },
        ),
{
    match o {
        Some(s) => if s.len() > 0 {
            Some(text::to_string(s))
        } else {
            None
        },
        None => None,
    }
}

pub(crate) fn branch_of(value: &[char]) -> (r: Option<String>)
    ensures
        text::text_opt(r) == via_branch(value@),
{
    let stops: [char; 2] = [';', ','];
    assert(stops@ =~= seq![';', ',']);
    keep_nonempty(read_param(value, ";branch=", &stops))
}

pub(crate) fn tag_of(value: &[char]) -> (r: Option<String>)
    ensures
        text::text_opt(r) == tag_param(value@),
{
    let stops: [char; 3] = [';', ',', '>'];
    assert(stops@ =~= seq![';', ',', '>']);
    keep_nonempty(read_param(value, ";tag=", &stops))
}

/// The `branch` parameter of one `Via` value; `None` when it is absent or
/// empty.
pub fn via_branch_param(value: &str) -> (r: Option<String>)
    ensures
        text::text_opt(r) == via_branch(value@),
{
    branch_of(&text::to_chars(value))
}

/// The `tag` parameter of a `From` or `To` value; `None` when it is absent or
/// empty.
pub fn extract_tag_param(header_value: &str) -> (r: Option<String>)
    ensures
        text::text_opt(r) == tag_param(header_value@),
{
    tag_of(&text::to_chars(header_value))
}

/// `s` as a list of one element, unless it is blank.
pub open spec fn list_item(s: Seq<char>) -> Seq<Seq<char>> {
    if text::trimmed(s).len() > 0 {
        seq![text::trimmed(s)]
    } else {
        seq![]
    }
}

/// The elements of a comma-separated list, from `i` on: `start` is where the
/// current element began and `depth` how many angle brackets are open. A comma
/// separates only outside of angle brackets.
pub open spec fn list_from(s: Seq<char>, i: int, start: int, depth: nat) -> Seq<Seq<char>>
    decreases s.len() - i,
{
    if i < 0 || i >= s.len() {
        list_item(s.subrange(start, s.len() as int))
    } else if s[i] == '<' {
        list_from(s, i + 1, start, depth + 1)
    } else if s[i] == '>' {
        list_from(
            s,
            i + 1,
            start,
            if depth > 0 {
                (depth - 1) as nat
            } else {
                0
            },
        )
    } else if s[i] == ',' && depth == 0 {
        list_item(s.subrange(start, i)) + list_from(s, i + 1, i + 1, 0)
    } else {
        list_from(s, i + 1, start, depth)
    }
}

/// The elements of a comma-separated header value, trimmed, empty ones left
/// out.
pub open spec fn header_list(s: Seq<char>) -> Seq<Seq<char>> {
    list_from(s, 0, 0, 0)
}

fn push_item(out: &mut Vec<String>, s: &[char])
    ensures
        text::texts(final(out)@) == text::texts(old(out)@) + list_item(s@),
{
    let item = text::trim(s);
    let ghost before = out@;
    if item.len() > 0 {
        out.push(text::to_string(item));
    }
    assert(text::texts(out@) =~= text::texts(before) + list_item(s@));
}

/// Appends the elements of a comma-separated header value.
pub(crate) fn push_list(out: &mut Vec<String>, s: &[char])
    ensures
        text::texts(final(out)@) == text::texts(old(out)@) + header_list(s@),
{
    let mut i: usize = 0;
    let mut start: usize = 0;
    let mut depth: usize = 0;
    while i < s.len()
        invariant
            start <= i <= s@.len(),
            depth <= i,
            text::texts(out@) + list_from(s@, i as int, start as int, depth as nat) =~= text::texts(
                old(out)@,
            ) + header_list(s@),
        decreases s.len() - i,
    {
        let c = s[i];
        if c == '<' {
            depth = depth + 1;
        } else if c == '>' {
            if depth > 0 {
                depth = depth - 1;
            }
        } else if c == ',' && depth == 0 {
            push_item(out, text::part(s, start, i));
            start = i + 1;
        }
        i = i + 1;
    }
    push_item(out, text::part(s, start, s.len()));
}

/// Splits a comma-separated header value into its elements, leaving commas
/// inside `<...>` alone.
pub fn split_header_list(value: &str) -> (r: Vec<String>)
    ensures
        text::texts(r@) == header_list(value@),
{
    let mut out: Vec<String> = Vec::new();
    push_list(&mut out, &text::to_chars(value));
    assert(text::texts(Seq::<String>::empty()) =~= seq![]);
    assert(text::texts(out@) =~= header_list(value@));
    out
}

/// The first contact URI of a header value: what the first pair of angle
/// brackets holds, or else the first token without its parameters.
pub open spec fn contact_uri(header: Seq<char>) -> Option<Seq<char>> {
    let t = text::trimmed(header);
    if t.len() == 0 || t == "*"@ {
        None
    } else if bracketed(t) is Some {
        bracketed(t)
    } else {
        let first = text::trimmed(text::before_any(t, seq![',', ' ', '\t']));
        nonempty(Some(text::trimmed(text::before_any(first, seq![';']))))
    }
}

/// What stands between the first `<` and the `>` after it, unless that is
/// nothing.
pub open spec fn bracketed(t: Seq<char>) -> Option<Seq<char>> {
    match text::cut(t, seq!['<']) {
        Some(p) => match text::cut(p.1, seq!['>']) {
            Some(q) => nonempty(Some(q.0)),
            None => None,
        },
        None => None,
    }
}

pub(crate) fn uri_of(header: &[char]) -> (r: Option<String>)
    ensures
        text::text_opt(r) == contact_uri(header@),
{
    let t = text::trim(header);
    let star = text::to_chars("*");
    if t.len() == 0 || text::same(t, &star) {
        return None;
    }
    let open: [char; 1] = ['<'];
    let close: [char; 1] = ['>'];
    assert(open@ =~= seq!['<']);
    assert(close@ =~= seq!['>']);
    match text::split_once(t, &open) {
        Some(p) => match text::split_once(p.1, &close) {
            Some(q) => {
                if q.0.len() > 0 {
                    return Some(text::to_string(q.0));
                }
            },
            None => {},
        },
        None => {},
    }
    let seps: [char; 3] = [',', ' ', '\t'];
    assert(seps@ =~= seq![',', ' ', '\t']);
    let semi: [char; 1] = [';'];
    assert(semi@ =~= seq![';']);
    let first = text::trim(text::cut_before(t, &seps));
    keep_nonempty(Some(text::trim(text::cut_before(first, &semi))))
}

/// The first contact URI of a `Contact`, `From` or `To` value; `None` for an
/// empty value and for `*`.
pub fn first_contact_uri(header: &str) -> (r: Option<String>)
    ensures
        text::text_opt(r) == contact_uri(header@),
{
    uri_of(&text::to_chars(header))
}

/// `s` without `prefix`.
pub open spec fn without_prefix(s: Seq<char>, prefix: Seq<char>) -> Option<Seq<char>> {
    if text::begins_with(s, prefix) {
        Some(s.subrange(prefix.len() as int, s.len() as int))
    } else {
        None
    }
}

/// Removes a prefix.
pub(crate) fn strip_prefix<'a>(s: &'a [char], prefix: &str) -> (r: Option<&'a [char]>)
    ensures
        r matches Some(v) ==> without_prefix(s@, prefix@) == Some(v@),
        r is None ==> without_prefix(s@, prefix@) is None,
{
    let p = text::to_chars(prefix);
    if text::has_prefix(s, &p) {
        Some(text::part(s, p.len(), s.len()))
    } else {
        None
    }
}

/// What follows the scheme of a SIP URI, angle bracket or not.
pub open spec fn after_scheme(uri: Seq<char>) -> Option<Seq<char>> {
    if without_prefix(uri, "sip:"@) is Some {
        without_prefix(uri, "sip:"@)
    } else if without_prefix(uri, "sips:"@) is Some {
        without_prefix(uri, "sips:"@)
    } else if without_prefix(uri, "<sip:"@) is Some {
        without_prefix(uri, "<sip:"@)
    } else {
        without_prefix(uri, "<sips:"@)
    }
}

/// The user part of a Request-URI.
pub open spec fn uri_user(uri: Seq<char>) -> Option<Seq<char>> {
    match after_scheme(uri) {
        Some(rest) => match text::cut(rest, seq!['@']) {
            Some(p) => nonempty(Some(p.0)),
            None => None,
        },
        None => None,
    }
}

pub(crate) fn user_of(uri: &[char]) -> (r: Option<String>)
    ensures
        text::text_opt(r) == uri_user(uri@),
{
    let rest = match strip_prefix(uri, "sip:") {
        Some(s) => s,
        None => match strip_prefix(uri, "sips:") {
            Some(s) => s,
            None => match strip_prefix(uri, "<sip:") {
                Some(s) => s,
                None => match strip_prefix(uri, "<sips:") {
                    Some(s) => s,
                    None => {
                        return None;
                    },
                },
            },
        },
    };
    let at: [char; 1] = ['@'];
    assert(at@ =~= seq!['@']);
    match text::split_once(rest, &at) {
        Some(p) => keep_nonempty(Some(p.0)),
        None => None,
    }
}

/// The user part of a Request-URI such as `sip:user@host`; `None` when it has
/// none.
pub fn ruri_user_from(request_uri: &str) -> (r: Option<String>)
    ensures
        text::text_opt(r) == uri_user(request_uri@),
{
    user_of(&text::to_chars(request_uri))
}

/// Seconds and refresher of a `Session-Expires` value.
pub open spec fn session_expires_of(value: Seq<char>) -> (Option<nat>, Option<Seq<char>>) {
    let parts = text::split(value, seq![';']);
    (
        text::uint_value(text::trimmed(parts[0]), 10, u32::MAX as nat),
        refresher_from(parts, 1),
    )
}

/// The `refresher` parameter among `parts`, from `i` on.
pub open spec fn refresher_from(parts: Seq<Seq<char>>, i: int) -> Option<Seq<char>>
    decreases parts.len() - i,
{
    if i < 0 || i >= parts.len() {
        None
    } else {
        match text::cut(parts[i], seq!['=']) {
            Some(p) => if text::same_ignoring_case(text::trimmed(p.0), "refresher"@) {
                Some(text::lowered(text::trimmed(p.1)))
            } else {
                refresher_from(parts, i + 1)
            },
            None => refresher_from(parts, i + 1),
        }
    }
}

/// The seconds in an optional number.
pub open spec fn number_opt(o: Option<u32>) -> Option<nat> {
    match o {
        Some(n) => Some(n as nat),
        None => None,
    }
}

pub(crate) fn read_u32(s: &[char]) -> (r: Option<u32>)
    ensures
        number_opt(r) == text::uint_value(s@, 10, u32::MAX as nat),
{
    match text::parse_uint(s, 10, u32::MAX as u64) {
        Some(v) => Some(v as u32),
        None => None,
    }
}

pub(crate) fn read_session_expires(value: &[char]) -> (r: (Option<u32>, Option<String>))
    ensures
        (number_opt(r.0), text::text_opt(r.1)) == session_expires_of(value@),
{
    let semi: [char; 1] = [';'];
    assert(semi@ =~= seq![';']);
    let eq: [char; 1] = ['='];
    assert(eq@ =~= seq!['=']);
    let name = text::to_chars("refresher");
    let parts = text::split_on(value, &semi);
    let secs = read_u32(text::trim(parts[0]));
    let mut i: usize = 1;
    while i < parts.len()
        invariant
            eq@ == seq!['='],
            name@ == "refresher"@,
            i >= 1,
            refresher_from(text::views(parts@), 1) == refresher_from(
                text::views(parts@),
                i as int,
            ),
            text::views(parts@) == text::split(value@, seq![';']),
            number_opt(secs) == session_expires_of(value@).0,
        decreases parts.len() - i,
    {
        match text::split_once(parts[i], &eq) {
            Some(p) => {
                if text::same_nocase(text::trim(p.0), &name) {
                    let v = text::to_lower(text::trim(p.1));
                    return (secs, Some(text::to_string(&v)));
                }
            },
            None => {},
        }
        i = i + 1;
    }
    (secs, None)
}

/// `1800;refresher=uac` as `(Some(1800), Some("uac"))`.
pub fn parse_session_expires(value: &str) -> (r: (Option<u32>, Option<String>))
    ensures
        (number_opt(r.0), text::text_opt(r.1)) == session_expires_of(value@),
{
    read_session_expires(&text::to_chars(value))
}

// ---------------------------------------------------------------------
// Messages
// ---------------------------------------------------------------------

/// Headers and body of a message: around its first empty line, be that of
/// `\r\n` or of `\n`.
pub open spec fn head_and_body(message: Seq<char>) -> (Seq<char>, Seq<char>) {
    match text::cut(message, "\r\n\r\n"@) {
        Some(p) => p,
        None => match text::cut(message, "\n\n"@) {
            Some(p) => p,
            None => (message, seq![]),
        },
    }
}

/// Splits a message into headers and body.
pub fn split_headers_body(message: &[char]) -> (r: (&[char], &[char]))
    ensures
        (r.0@, r.1@) == head_and_body(message@),
{
    let crlf2 = text::to_chars("\r\n\r\n");
    match text::split_once(message, &crlf2) {
        Some(p) => p,
        None => {
            let lf2 = text::to_chars("\n\n");
            match text::split_once(message, &lf2) {
                Some(p) => p,
                None => {
                    let none = text::part(message, 0, 0);
                    assert(none@ =~= seq![]);
                    (message, none)
                },
            }
        },
    }
}

/// The values of the headers named `a` or `b` among `lines`, from `i` on.
pub open spec fn values_from(
    lines: Seq<Seq<char>>,
    a: Seq<char>,
    b: Seq<char>,
    i: int,
) -> Seq<Seq<char>>
    decreases lines.len() - i,
{
    if i < 0 || i >= lines.len() {
        seq![]
    } else {
        match text::cut(lines[i], seq![':']) {
            Some(p) => if text::lowered(text::trimmed(p.0)) == a || text::lowered(
                text::trimmed(p.0),
            ) == b {
                seq![text::trimmed(p.1)] + values_from(lines, a, b, i + 1)
            } else {
                values_from(lines, a, b, i + 1)
            },
            None => values_from(lines, a, b, i + 1),
        }
    }
}

/// The values, trimmed, of the headers named `a` or `b`; the first line is no
/// header.
pub(crate) fn header_values<'a>(lines: &Vec<&'a [char]>, a: &str, b: &str) -> (r: Vec<&'a [char]>)
    ensures
        text::views(r@) == values_from(text::views(lines@), a@, b@, 1),
{
    let x = text::to_chars(a);
    let y = text::to_chars(b);
    let colon: [char; 1] = [':'];
    assert(colon@ =~= seq![':']);
    let mut out: Vec<&'a [char]> = Vec::new();
    assert(text::views(out@) =~= seq![]);
    let mut i: usize = 1;
    while i < lines.len()
        invariant
            x@ == a@,
            y@ == b@,
            colon@ == seq![':'],
            i >= 1,
            text::views(out@) + values_from(text::views(lines@), a@, b@, i as int) =~= values_from(
                text::views(lines@),
                a@,
                b@,
                1,
            ),
        decreases lines.len() - i,
    {
        match text::split_once(lines[i], &colon) {
            Some(p) => {
                let name = text::to_lower(text::trim(p.0));
                if text::same(&name, &x) || text::same(&name, &y) {
                    let ghost before = out@;
                    out.push(text::trim(p.1));
                    assert(text::views(out@) =~= text::views(before).push(text::trimmed(p.1@)));
                }
            },
            None => {},
        }
        i = i + 1;
    }
    out
}

/// The status code in the first line of `bytes`, which must end in a carriage
/// return.
pub open spec fn status_of(bytes: Seq<u8>) -> Option<nat> {
    match carriage_return_from(bytes, 0) {
        Some(end) => match text::utf8_text(bytes.subrange(0, end)) {
            Some(line) => match text::word(line, 1) {
                Some(code) => text::uint_value(code, 10, u16::MAX as nat),
                None => None,
            },
            None => None,
        },
        None => None,
    }
}

/// The first carriage return at or after `i`.
pub open spec fn carriage_return_from(bytes: Seq<u8>, i: int) -> Option<int>
    decreases bytes.len() - i,
{
    if i < 0 || i >= bytes.len() {
        None
    } else if bytes[i] == 13 {
        Some(i)
    } else {
        carriage_return_from(bytes, i + 1)
    }
}

/// The status code of a raw response, from its first line.
pub fn response_status(bytes: &[u8]) -> (r: Option<u16>)
    ensures
        match r {
            Some(s) => status_of(bytes@) == Some(s as nat),
            None => status_of(bytes@) is None,
        },
{
    let mut end: usize = 0;
    while end < bytes.len() && bytes[end] != 13
        invariant
            end <= bytes@.len(),
            carriage_return_from(bytes@, 0) == carriage_return_from(bytes@, end as int),
        decreases bytes.len() - end,
    {
        end = end + 1;
    }
    if end == bytes.len() {
        return None;
    }
    match text::decode(vstd::slice::slice_subrange(bytes, 0, end)) {
        Some(line) => {
            let w = text::split_words(&line);
            if w.len() > 1 {
                match text::parse_uint(w[1], 10, u16::MAX as u64) {
                    Some(v) => Some(v as u16),
                    None => None,
                }
            } else {
                None
            }
        },
        None => None,
    }
}

/// The branch of the first `Via` among `lines`, from `i` on; the search ends
/// at an empty line and at one that is no header.
pub open spec fn top_branch_from(lines: Seq<Seq<char>>, i: int) -> Option<Seq<char>>
    decreases lines.len() - i,
{
    if i < 0 || i >= lines.len() || lines[i].len() == 0 {
        None
    } else {
        match text::cut(lines[i], seq![':']) {
            Some(p) => if text::same_ignoring_case(text::trimmed(p.0), "via"@)
                || text::same_ignoring_case(text::trimmed(p.0), "v"@) {
                via_branch(p.1)
            } else {
                top_branch_from(lines, i + 1)
            },
            None => None,
        }
    }
}

/// The branch of the topmost `Via` of a message.
pub open spec fn message_branch(bytes: Seq<u8>) -> Option<Seq<char>> {
    match text::utf8_text(bytes) {
        Some(t) => top_branch_from(text::split(t, "\r\n"@), 1),
        None => None,
    }
}

/// The branch of the topmost `Via` of a raw request or response.
pub fn extract_via_branch(raw: &[u8]) -> (r: Option<String>)
    ensures
        text::text_opt(r) == message_branch(raw@),
{
    let message = match text::decode(raw) {
        Some(t) => t,
        None => {
            return None;
        },
    };
    proof {
        reveal_strlit("\r\n");
    }
    let crlf = text::to_chars("\r\n");
    let colon: [char; 1] = [':'];
    assert(colon@ =~= seq![':']);
    let long = text::to_chars("via");
    let short = text::to_chars("v");
    let lines = text::split_on(&message, &crlf);
    let mut i: usize = 1;
    while i < lines.len() && lines[i].len() > 0
        invariant
            i >= 1,
            colon@ == seq![':'],
            long@ == "via"@,
            short@ == "v"@,
            message_branch(raw@) == top_branch_from(text::views(lines@), i as int),
        decreases lines.len() - i,
    {
        match text::split_once(lines[i], &colon) {
            Some(p) => {
                let name = text::trim(p.0);
                if text::same_nocase(name, &long) || text::same_nocase(name, &short) {
                    return branch_of(p.1);
                }
            },
            None => {
                return None;
            },
        }
        i = i + 1;
    }
    None
}

} // verus!
