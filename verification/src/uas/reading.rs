//! What the engine reads in a request, header by header: each field of a
//! summary is the value of the header that carries it, whatever else the
//! request holds.

use vstd::prelude::*;

use super::parse::{
    bracketed, carriage_return_from, contact_uri, head_and_body, header_list, list_from, list_item,
    message_branch, param_value, refresher_from, session_expires_of, status_of, tag_param,
    top_branch_from, uri_user, values_from, via_branch,
};
use super::summary::{
    first_number_from, first_text_from, lists_from, named_dialog, number_in, session_of, summary_of,
    tagged_from, text_in, timed_from, NumberRule, SummaryView, TextRule,
};
use crate::text;
use crate::text::laws::{
    blank, characters_occur, clear_of, cuts_divide_at_the_first, decimals_read_back,
    lemma_clear_of_char, lemma_colon, prefixes_end_at_the_first_stop, spaceless,
    splits_need_the_separator, splits_peel_off, tight, tight_texts_stay,
    trimming_takes_off_the_blanks, words_peel_off,
};

verus! {

// ---------------------------------------------------------------------
// Header lines
// ---------------------------------------------------------------------

/// `line` is a header with the name `long` or `short`, in any case, and its
/// first colon stands at `c`.
pub open spec fn is_header(line: Seq<char>, c: int, long: Seq<char>, short: Seq<char>) -> bool {
    &&& 0 <= c < line.len()
    &&& line[c] == ':'
    &&& !line.subrange(0, c).contains(':')
    &&& {
        let name = text::trimmed(line.subrange(0, c));
        text::same_ignoring_case(name, long) || text::same_ignoring_case(name, short)
    }
}

/// The value of a header line whose first colon stands at `c`.
pub open spec fn value_behind(line: Seq<char>, c: int) -> Seq<char> {
    text::trimmed(line.subrange(c + 1, line.len() as int))
}

/// None of `lines` from `from` up to `to` is a header of that name.
pub open spec fn no_header(
    lines: Seq<Seq<char>>,
    from: int,
    to: int,
    long: Seq<char>,
    short: Seq<char>,
) -> bool {
    forall|j: int, c: int| from <= j < to ==> !#[trigger] is_header(lines[j], c, long, short)
}

/// `a` is in lower case.
pub open spec fn is_lower(a: Seq<char>) -> bool {
    text::lowered(a) == a
}

/// Every cut of a line at a colon is at its first.
proof fn lemma_first_colon(line: Seq<char>) -> (c: int)
    ensures
        text::cut(line, seq![':']) is Some ==> {
            &&& 0 <= c < line.len()
            &&& line[c] == ':'
            &&& !line.subrange(0, c).contains(':')
        },
{
    text::lemma_find_from(line, seq![':'], 0);
    match text::find_from(line, seq![':'], 0) {
        Some(c) => {
            characters_occur(line, ':', c);
            if line.subrange(0, c).contains(':') {
                let j = choose|j: int| 0 <= j < c && line.subrange(0, c)[j] == ':';
                characters_occur(line, ':', j);
            }
            c
        },
        None => 0,
    }
}

proof fn lemma_skip_headers(
    lines: Seq<Seq<char>>,
    long: Seq<char>,
    short: Seq<char>,
    i: int,
    k: int,
)
    requires
        0 <= i <= k <= lines.len(),
        is_lower(long),
        is_lower(short),
        no_header(lines, i, k, long, short),
    ensures
        values_from(lines, long, short, i) == values_from(lines, long, short, k),
    decreases k - i,
{
    if i < k {
        let c = lemma_first_colon(lines[i]);
        if text::cut(lines[i], seq![':']) is Some {
            lemma_colon(lines[i], c);
            assert(!is_header(lines[i], c, long, short));
        }
        lemma_skip_headers(lines, long, short, i + 1, k);
    }
}

/// The values of a header are those of the lines that bear its name, in any
/// case, in their order: the first such line gives the first value, and the
/// lines behind it the others.
pub proof fn values_are_those_of_the_named_lines(
    lines: Seq<Seq<char>>,
    long: Seq<char>,
    short: Seq<char>,
    k: int,
    c: int,
)
    requires
        1 <= k < lines.len(),
        is_lower(long),
        is_lower(short),
        no_header(lines, 1, k, long, short),
        is_header(lines[k], c, long, short),
    ensures
        values_from(lines, long, short, 1) == seq![value_behind(lines[k], c)] + values_from(
            lines,
            long,
            short,
            k + 1,
        ),
{
    lemma_skip_headers(lines, long, short, 1, k);
    lemma_colon(lines[k], c);
}

/// Where no line bears the name there is no value.
pub proof fn values_need_a_named_line(
    lines: Seq<Seq<char>>,
    long: Seq<char>,
    short: Seq<char>,
)
    requires
        lines.len() >= 1,
        is_lower(long),
        is_lower(short),
        no_header(lines, 1, lines.len() as int, long, short),
    ensures
        values_from(lines, long, short, 1) == Seq::<Seq<char>>::empty(),
{
    lemma_skip_headers(lines, long, short, 1, lines.len() as int);
}

// ---------------------------------------------------------------------
// Values
// ---------------------------------------------------------------------

/// `v` may stand as the value of a parameter that ends at one of `stops`.
pub open spec fn is_param(v: Seq<char>, stops: Seq<char>) -> bool {
    v.len() > 0 && spaceless(v) && forall|i: int| 0 <= i < v.len() ==> !stops.contains(
        #[trigger] v[i],
    )
}

/// What follows a parameter: nothing, white space, or one of `stops`.
pub open spec fn ends_param(b: Seq<char>, stops: Seq<char>) -> bool {
    b.len() > 0 ==> text::is_space(b[0]) || stops.contains(b[0])
}

proof fn lemma_stop(s: Seq<char>, stops: Seq<char>, i: int, k: int)
    requires
        0 <= i <= k <= s.len(),
        forall|j: int| i <= j < k ==> !text::is_space(#[trigger] s[j]) && !stops.contains(s[j]),
        k < s.len() ==> text::is_space(s[k]) || stops.contains(s[k]),
    ensures
        text::stop_from(s, stops, i) == k,
    decreases k - i,
{
    if i < k {
        lemma_stop(s, stops, i + 1, k);
    }
}

proof fn lemma_lowered_parts(a: Seq<char>, b: Seq<char>)
    ensures
        text::lowered(a + b) == text::lowered(a) + text::lowered(b),
{
    assert(text::lowered(a + b) =~= text::lowered(a) + text::lowered(b));
}

/// A parameter is what stands behind the first occurrence of its marker, in any
/// case, up to white space or a character that ends it.
pub proof fn parameters_stand_behind_their_marker(
    a: Seq<char>,
    marker: Seq<char>,
    spelled: Seq<char>,
    v: Seq<char>,
    b: Seq<char>,
    stops: Seq<char>,
)
    requires
        text::lowered(spelled) == marker,
        clear_of(text::lowered(a), marker),
        is_param(v, stops),
        ends_param(b, stops),
    ensures
        param_value(a + spelled + v + b, marker, stops) == Some(v),
{
    let s = a + spelled + v + b;
    let k = (a.len() + marker.len()) as int;
    assert(spelled.len() == marker.len());
    lemma_lowered_parts(a + spelled, v + b);
    lemma_lowered_parts(a, spelled);
    assert(s =~= (a + spelled) + (v + b));
    cuts_divide_at_the_first(text::lowered(a), marker, text::lowered(v + b));
    text::lemma_find_from(text::lowered(s), marker, 0);
    assert(text::lowered(s) == text::lowered(a) + marker + text::lowered(v + b));
    assert(text::find_from(text::lowered(s), marker, 0) == Some(a.len() as int)) by {
        assert(text::cut(text::lowered(s), marker) is Some);
        let f = text::find_from(text::lowered(s), marker, 0)->0;
        assert(text::lowered(s).subrange(0, f) == text::lowered(a));
    }
    assert forall|j: int| k <= j < k + v.len() implies !text::is_space(#[trigger] s[j])
        && !stops.contains(s[j]) by {
        assert(s[j] == v[j - k]);
    }
    if b.len() > 0 {
        assert(s[k + v.len()] == b[0]);
    }
    lemma_stop(s, stops, k, k + v.len());
    assert(s.subrange(k, k + v.len()) =~= v);
}

/// The tag of a `From` or `To` is what stands behind its first `;tag=`, in any
/// case, up to a semicolon, a comma, an angle bracket or white space; without
/// that there is none.
pub proof fn tags_are_read(a: Seq<char>, spelled: Seq<char>, tag: Seq<char>, b: Seq<char>)
    requires
        text::lowered(spelled) == ";tag="@,
        clear_of(text::lowered(a), ";tag="@),
        is_param(tag, seq![';', ',', '>']),
        ends_param(b, seq![';', ',', '>']),
    ensures
        tag_param(a + spelled + tag + b) == Some(tag),
{
    parameters_stand_behind_their_marker(a, ";tag="@, spelled, tag, b, seq![';', ',', '>']);
}

/// A value without `;tag=` has no tag, and one without `;branch=` no branch.
pub proof fn parameters_need_their_marker(value: Seq<char>)
    ensures
        (forall|i: int| 0 <= i ==> !#[trigger] text::occurs_at(text::lowered(value), ";tag="@, i))
            ==> tag_param(value) is None,
        (forall|i: int| 0 <= i ==> !#[trigger] text::occurs_at(text::lowered(value), ";branch="@, i))
            ==> via_branch(value) is None,
{
    text::lemma_find_from(text::lowered(value), ";tag="@, 0);
    text::lemma_find_from(text::lowered(value), ";branch="@, 0);
}

/// The branch of a `Via` is what stands behind its first `;branch=`, in any
/// case, up to a semicolon, a comma or white space.
pub proof fn branches_are_read(a: Seq<char>, spelled: Seq<char>, branch: Seq<char>, b: Seq<char>)
    requires
        text::lowered(spelled) == ";branch="@,
        clear_of(text::lowered(a), ";branch="@),
        is_param(branch, seq![';', ',']),
        ends_param(b, seq![';', ',']),
    ensures
        via_branch(a + spelled + branch + b) == Some(branch),
{
    parameters_stand_behind_their_marker(a, ";branch="@, spelled, branch, b, seq![';', ',']);
}

/// The URI of a value is what its first pair of angle brackets holds, whatever
/// precedes and follows it.
pub proof fn bracketed_uris_are_read(name: Seq<char>, uri: Seq<char>, b: Seq<char>)
    requires
        !name.contains('<'),
        uri.len() > 0,
        !uri.contains('>'),
        tight(name + seq!['<'] + uri + seq!['>'] + b),
    ensures
        contact_uri(name + seq!['<'] + uri + seq!['>'] + b) == Some(uri),
{
    let t = name + seq!['<'] + uri + seq!['>'] + b;
    let rest = uri + seq!['>'] + b;
    tight_texts_stay(t);
    reveal_strlit("*");
    assert(t.len() > 1);
    lemma_clear_of_char(name, '<');
    cuts_divide_at_the_first(name, seq!['<'], rest);
    assert(name + seq!['<'] + rest =~= t);
    lemma_clear_of_char(uri, '>');
    cuts_divide_at_the_first(uri, seq!['>'], b);
    assert(bracketed(t) == Some(uri));
}

/// A URI without angle brackets is read as it stands; its parameters, and what
/// follows behind a comma or a blank, are left out.
pub proof fn plain_uris_are_read(uri: Seq<char>, params: Seq<char>, b: Seq<char>)
    requires
        uri.len() > 0,
        uri + params + b != "*"@,
        spaceless(uri + params),
        !uri.contains(';'),
        params.len() > 0 ==> params[0] == ';',
        !(uri + params).contains(','),
        !(uri + params + b).contains('<'),
        b.len() > 0 ==> b[0] == ',' || b[0] == ' ',
        tight(uri + params + b),
    ensures
        contact_uri(uri + params + b) == Some(uri),
{
    let core = uri + params;
    let t = core + b;
    tight_texts_stay(t);
    text::laws::cuts_need_the_separator(t, seq!['<']);
    assert forall|i: int| 0 <= i implies !#[trigger] text::occurs_at(t, seq!['<'], i) by {
        characters_occur(t, '<', i);
        if i < t.len() {
            assert(t.contains(t[i]));
        }
    }
    let seps = seq![',', ' ', '\t'];
    assert(seps[0] == ',' && seps[1] == ' ' && seps[2] == '\t');
    assert forall|i: int| 0 <= i < core.len() implies !seps.contains(#[trigger] core[i]) by {
        assert(core.contains(core[i]));
    }
    assert(seps.contains(seps[0]) && seps.contains(seps[1]));
    prefixes_end_at_the_first_stop(core, b, seps);
    tight_texts_stay(core);
    let semi = seq![';'];
    assert(semi[0] == ';');
    assert(semi.contains(semi[0]));
    assert forall|i: int| 0 <= i < uri.len() implies !semi.contains(#[trigger] uri[i]) by {
        assert(uri.contains(uri[i]));
    }
    prefixes_end_at_the_first_stop(uri, params, semi);
    assert(uri[0] == core[0] && uri.last() == core[uri.len() - 1]);
    tight_texts_stay(uri);
}

/// The user of a SIP URI is what stands between its scheme and its first `@`;
/// a URI without an `@`, or of another scheme, has none.
pub proof fn users_are_read(user: Seq<char>, b: Seq<char>)
    requires
        !user.contains('@'),
    ensures
        user.len() > 0 ==> uri_user("sip:"@ + user + "@"@ + b) == Some(user),
        user.len() > 0 ==> uri_user("sips:"@ + user + "@"@ + b) == Some(user),
        uri_user("sip:"@ + "@"@ + b) is None,
        uri_user("sip:"@ + user) is None,
{
    reveal_strlit("sip:");
    reveal_strlit("sips:");
    reveal_strlit("@");
    assert("@"@ =~= seq!['@']);
    assert("sip:"@.len() == 4 && "sips:"@.len() == 5);
    lemma_clear_of_char(user, '@');
    cuts_divide_at_the_first(user, seq!['@'], b);
    let rest = user + "@"@ + b;
    let plain = "sip:"@ + user + "@"@ + b;
    let secure = "sips:"@ + user + "@"@ + b;
    assert(plain.subrange(0, 4) =~= "sip:"@);
    assert(plain.subrange(4, plain.len() as int) =~= rest);
    assert(secure[3] == 's');
    assert("sip:"@[3] == ':');
    if text::begins_with(secure, "sip:"@) {
        assert(secure.subrange(0, 4)[3] == "sip:"@[3]);
    }
    assert(secure.subrange(0, 5) =~= "sips:"@);
    assert(secure.subrange(5, secure.len() as int) =~= rest);
    let none = Seq::<char>::empty();
    lemma_clear_of_char(none, '@');
    cuts_divide_at_the_first(none, seq!['@'], b);
    let bare = "sip:"@ + "@"@ + b;
    assert(bare.subrange(0, 4) =~= "sip:"@);
    assert(bare.subrange(4, bare.len() as int) =~= none + seq!['@'] + b);
    let alone = "sip:"@ + user;
    assert(alone.subrange(0, 4) =~= "sip:"@);
    assert(alone.subrange(4, alone.len() as int) =~= user);
    text::laws::cuts_need_the_separator(user, seq!['@']);
    assert forall|i: int| 0 <= i implies !#[trigger] text::occurs_at(user, seq!['@'], i) by {
        characters_occur(user, '@', i);
        if i < user.len() {
            assert(user.contains(user[i]));
        }
    }
}

/// A `Session-Expires` value says how many seconds, and who refreshes.
pub proof fn session_intervals_are_read(n: nat, who: Seq<char>)
    requires
        n <= u32::MAX,
        spaceless(who),
        !who.contains(';'),
    ensures
        session_expires_of(text::decimal(n)) == (Some(n), None::<Seq<char>>),
        session_expires_of(text::decimal(n) + ";refresher="@ + who) == (
            Some(n),
            Some(text::lowered(who)),
        ),
{
    let d = text::decimal(n);
    decimals_read_back(n, u32::MAX as nat);
    assert(!d.contains(';')) by {
        if d.contains(';') {
            let j = choose|j: int| 0 <= j < d.len() && d[j] == ';';
            assert('0' <= d[j] <= '9');
        }
    }
    assert('0' <= d[0] <= '9' && '0' <= d[d.len() - 1] <= '9');
    tight_texts_stay(d);
    assert forall|i: int| 0 <= i implies !#[trigger] text::occurs_at(d, seq![';'], i) by {
        characters_occur(d, ';', i);
        if i < d.len() {
            assert(d.contains(d[i]));
        }
    }
    splits_need_the_separator(d, seq![';']);
    assert(refresher_from(text::split(d, seq![';']), 1) is None);
    reveal_strlit(";refresher=");
    reveal_strlit("refresher");
    let name = "refresher"@;
    assert(name.len() == 9);
    let tail = name + seq!['='] + who;
    let v = d + ";refresher="@ + who;
    assert(";refresher="@ =~= seq![';'] + name + seq!['=']);
    assert(v =~= d + seq![';'] + tail);
    lemma_clear_of_char(d, ';');
    splits_peel_off(d, seq![';'], tail);
    assert forall|i: int| 0 <= i implies !#[trigger] text::occurs_at(tail, seq![';'], i) by {
        characters_occur(tail, ';', i);
        if 0 <= i < 9 {
            assert(tail[i] == name[i]);
        } else if 10 <= i < tail.len() {
            assert(tail[i] == who[i - 10]);
            assert(who.contains(who[i - 10]));
        }
    }
    splits_need_the_separator(tail, seq![';']);
    let parts = text::split(v, seq![';']);
    assert(parts =~= seq![d, tail]);
    assert(!name.contains('=')) by {
        if name.contains('=') {
            let j = choose|j: int| 0 <= j < name.len() && name[j] == '=';
            assert(name[j] != '=');
        }
    }
    lemma_clear_of_char(name, '=');
    cuts_divide_at_the_first(name, seq!['='], who);
    assert(name[0] == 'r' && name[8] == 'r');
    tight_texts_stay(name);
    tight_texts_stay(who);
    assert(refresher_from(parts, 1) == Some(text::lowered(who)));
}

// ---------------------------------------------------------------------
// Lists
// ---------------------------------------------------------------------

/// Nothing in `s` opens, closes or separates.
pub open spec fn unstructured(s: Seq<char>) -> bool {
    !s.contains('<') && !s.contains('>') && !s.contains(',')
}

proof fn lemma_list_plain(s: Seq<char>, i: int, k: int, start: int, depth: nat)
    requires
        0 <= i <= k <= s.len(),
        forall|j: int| i <= j < k ==> #[trigger] s[j] != '<' && s[j] != '>' && (s[j] != ','
            || depth > 0),
    ensures
        list_from(s, i, start, depth) == list_from(s, k, start, depth),
    decreases k - i,
{
    if i < k {
        lemma_list_plain(s, i + 1, k, start, depth);
    }
}

proof fn lemma_list_shift(s: Seq<char>, i: int, start: int, depth: nat, k: int)
    requires
        0 <= k <= start <= i <= s.len(),
    ensures
        list_from(s, i, start, depth) == list_from(
            s.subrange(k, s.len() as int),
            i - k,
            start - k,
            depth,
        ),
    decreases s.len() - i,
{
    let t = s.subrange(k, s.len() as int);
    if i < s.len() {
        assert(t[i - k] == s[i]);
        lemma_list_shift(s, i + 1, start, depth + 1, k);
        lemma_list_shift(
            s,
            i + 1,
            start,
            if depth > 0 {
                (depth - 1) as nat
            } else {
                0
            },
            k,
        );
        lemma_list_shift(s, i + 1, start, depth, k);
        lemma_list_shift(s, i + 1, i + 1, 0, k);
        assert(s.subrange(start, i) =~= t.subrange(start - k, i - k));
        assert(i + 1 - k == (i - k) + 1);
    } else {
        assert(s.subrange(start, s.len() as int) =~= t.subrange(start - k, t.len() as int));
    }
}

/// A comma outside of angle brackets ends the element before it, and the
/// elements behind it follow; one inside of them does not.
pub proof fn lists_peel_off(p: Seq<char>, q: Seq<char>, r: Seq<char>, b: Seq<char>)
    requires
        unstructured(p),
        unstructured(r),
        !q.contains('<') && !q.contains('>'),
    ensures
        header_list(p + seq![','] + b) == list_item(p) + header_list(b),
        header_list(p + seq!['<'] + q + seq!['>'] + r + seq![','] + b) == list_item(
            p + seq!['<'] + q + seq!['>'] + r,
        ) + header_list(b),
        header_list(p) == list_item(p),
        header_list(p + seq!['<'] + q + seq!['>'] + r) == list_item(
            p + seq!['<'] + q + seq!['>'] + r,
        ),
{
    let x = p + seq![','] + b;
    let n = p.len() as int;
    assert forall|j: int| 0 <= j < n implies #[trigger] x[j] != '<' && x[j] != '>' && x[j]
        != ',' by {
        assert(x[j] == p[j]);
        assert(p.contains(p[j]));
    }
    lemma_list_plain(x, 0, n, 0, 0);
    assert(x[n] == ',');
    assert(x.subrange(0, n) =~= p);
    lemma_list_shift(x, n + 1, n + 1, 0, n + 1);
    assert(x.subrange(n + 1, x.len() as int) =~= b);

    assert forall|j: int| 0 <= j < n implies #[trigger] p[j] != '<' && p[j] != '>' && p[j]
        != ',' by {
        assert(p.contains(p[j]));
    }
    lemma_list_plain(p, 0, n, 0, 0);
    assert(p.subrange(0, n) =~= p);

    let e = p + seq!['<'] + q + seq!['>'] + r;
    let y = e + seq![','] + b;
    let m = e.len() as int;
    assert(y.subrange(0, m) =~= e);
    lemma_list_element(p, q, r, y);
    assert(y[m] == ',');
    lemma_list_shift(y, m + 1, m + 1, 0, m + 1);
    assert(y.subrange(m + 1, y.len() as int) =~= b);
    assert(e.subrange(0, m) =~= e);
    lemma_list_element(p, q, r, e);
}

proof fn lemma_list_element(p: Seq<char>, q: Seq<char>, r: Seq<char>, y: Seq<char>)
    requires
        unstructured(p),
        unstructured(r),
        !q.contains('<') && !q.contains('>'),
        ({
            let e = p + seq!['<'] + q + seq!['>'] + r;
            y.len() >= e.len() && y.subrange(0, e.len() as int) == e
        }),
    ensures
        ({
            let e = p + seq!['<'] + q + seq!['>'] + r;
            header_list(y) == list_from(y, e.len() as int, 0, 0)
        }),
{
    let e = p + seq!['<'] + q + seq!['>'] + r;
    let n = p.len() as int;
    let k = n + 1 + q.len();
    assert forall|j: int| 0 <= j < e.len() implies y[j] == e[j] by {
        assert(y.subrange(0, e.len() as int)[j] == y[j]);
    }
    assert forall|j: int| 0 <= j < n implies #[trigger] y[j] != '<' && y[j] != '>' && y[j]
        != ',' by {
        assert(y[j] == p[j]);
        assert(p.contains(p[j]));
    }
    lemma_list_plain(y, 0, n, 0, 0);
    assert(y[n] == '<');
    assert forall|j: int| n + 1 <= j < k implies #[trigger] y[j] != '<' && y[j] != '>' by {
        assert(y[j] == q[j - n - 1]);
        assert(q.contains(q[j - n - 1]));
    }
    lemma_list_plain(y, n + 1, k, 0, 1);
    assert(y[k] == '>');
    assert forall|j: int| k + 1 <= j < e.len() implies #[trigger] y[j] != '<' && y[j] != '>'
        && y[j] != ',' by {
        assert(y[j] == r[j - k - 1]);
        assert(r.contains(r[j - k - 1]));
    }
    lemma_list_plain(y, k + 1, e.len() as int, 0, 0);
}

// ---------------------------------------------------------------------
// Messages
// ---------------------------------------------------------------------

/// A message falls into its headers and its body around the first empty line.
pub proof fn messages_fall_apart(head: Seq<char>, body: Seq<char>)
    requires
        clear_of(head, "\r\n\r\n"@),
    ensures
        head_and_body(head + "\r\n\r\n"@ + body) == (head, body),
{
    cuts_divide_at_the_first(head, "\r\n\r\n"@, body);
}

/// A status line states its code.
pub proof fn status_lines_are_read(
    line: Seq<char>,
    version: Seq<char>,
    n: nat,
    reason: Seq<char>,
    bytes: Seq<u8>,
    more: Seq<u8>,
)
    requires
        version.len() > 0 && spaceless(version),
        line == version + " "@ + text::decimal(n) + " "@ + reason,
        text::utf8_text(bytes) == Some(line),
        !bytes.contains(13u8),
    ensures
        n <= u16::MAX ==> status_of(bytes + seq![13u8] + more) == Some(n),
        n > u16::MAX ==> status_of(bytes + seq![13u8] + more) is None,
{
    let all = bytes + seq![13u8] + more;
    lemma_cr(all, 0, bytes.len() as int, bytes);
    assert(all.subrange(0, bytes.len() as int) =~= bytes);
    reveal_strlit(" ");
    assert(" "@ =~= seq![' ']);
    let d = text::decimal(n);
    decimals_read_back(n, u16::MAX as nat);
    assert forall|i: int| 0 <= i < d.len() implies !text::is_space(#[trigger] d[i]) by {
        assert('0' <= d[i] <= '9');
    }
    let tail = " "@ + d + " "@ + reason;
    words_peel_off(Seq::empty(), version, tail);
    assert(Seq::<char>::empty() + version + tail =~= line);
    let rest = " "@ + reason;
    words_peel_off(" "@, d, rest);
    assert(" "@ + d + rest =~= tail);
    assert(text::words(line)[1] == d);
    assert(text::word(line, 1) == Some(d));
}

proof fn lemma_cr(all: Seq<u8>, i: int, k: int, bytes: Seq<u8>)
    requires
        0 <= i <= k,
        k == bytes.len(),
        k < all.len(),
        all[k] == 13,
        forall|j: int| 0 <= j < k ==> #[trigger] all[j] == bytes[j],
        !bytes.contains(13u8),
    ensures
        carriage_return_from(all, i) == Some(k),
    decreases k - i,
{
    if i < k {
        assert(all[i] == bytes[i]);
        assert(bytes.contains(bytes[i]));
        lemma_cr(all, i + 1, k, bytes);
    }
}

/// The lines of a request's head.
pub open spec fn lines_of(message: Seq<char>) -> Seq<Seq<char>> {
    text::split(head_and_body(message).0, "\r\n"@)
}

/// Line `k` of a message is the first header of that name, and its colon stands
/// at `c`.
pub open spec fn leads(
    message: Seq<char>,
    k: int,
    c: int,
    long: Seq<char>,
    short: Seq<char>,
) -> bool {
    let lines = lines_of(message);
    1 <= k < lines.len() && is_header(lines[k], c, long, short) && no_header(
        lines,
        1,
        k,
        long,
        short,
    )
}

/// Line `k` of a message is its only header of that name.
pub open spec fn stands_alone(
    message: Seq<char>,
    k: int,
    c: int,
    long: Seq<char>,
    short: Seq<char>,
) -> bool {
    leads(message, k, c, long, short) && no_header(
        lines_of(message),
        k + 1,
        lines_of(message).len() as int,
        long,
        short,
    )
}

/// A message has no header of that name.
pub open spec fn lacks(message: Seq<char>, long: Seq<char>, short: Seq<char>) -> bool {
    no_header(lines_of(message), 1, lines_of(message).len() as int, long, short)
}

proof fn lemma_lines(message: Seq<char>)
    ensures
        lines_of(message).len() >= 1,
{
    reveal_strlit("\r\n");
    text::lemma_split_nonempty(head_and_body(message).0, "\r\n"@, 0);
}

pub(crate) proof fn lemma_leads(message: Seq<char>, k: int, c: int, long: Seq<char>, short: Seq<char>)
    requires
        is_lower(long),
        is_lower(short),
    ensures
        ({
            let values = values_from(lines_of(message), long, short, 1);
            let value = value_behind(lines_of(message)[k], c);
            &&& leads(message, k, c, long, short) ==> values.len() >= 1 && values[0] == value
            &&& stands_alone(message, k, c, long, short) ==> values == seq![value]
            &&& lacks(message, long, short) ==> values == Seq::<Seq<char>>::empty()
        }),
{
    let lines = lines_of(message);
    lemma_lines(message);
    if leads(message, k, c, long, short) {
        values_are_those_of_the_named_lines(lines, long, short, k, c);
    }
    if stands_alone(message, k, c, long, short) {
        lemma_skip_headers(lines, long, short, k + 1, lines.len() as int);
        assert(seq![value_behind(lines[k], c)] + Seq::<Seq<char>>::empty() =~= seq![
            value_behind(lines[k], c),
        ]);
    }
    if lacks(message, long, short) {
        values_need_a_named_line(lines, long, short);
    }
}

pub(crate) proof fn lemma_names_are_lower()
    ensures
        is_lower("via"@) && is_lower("v"@),
        is_lower("call-id"@) && is_lower("i"@),
        is_lower("from"@) && is_lower("f"@),
        is_lower("to"@) && is_lower("t"@),
        is_lower("content-type"@) && is_lower("c"@),
        is_lower("contact"@) && is_lower("m"@),
        is_lower("session-expires"@) && is_lower("x"@),
        is_lower("supported"@) && is_lower("k"@),
        is_lower("cseq"@),
        is_lower("authorization"@),
        is_lower("record-route"@),
        is_lower("expires"@),
        is_lower("min-se"@),
        is_lower("x-smiths-webrtc-tag"@),
{
    reveal_strlit("via");
    reveal_strlit("v");
    reveal_strlit("call-id");
    reveal_strlit("i");
    reveal_strlit("from");
    reveal_strlit("f");
    reveal_strlit("to");
    reveal_strlit("t");
    reveal_strlit("content-type");
    reveal_strlit("c");
    reveal_strlit("contact");
    reveal_strlit("m");
    reveal_strlit("session-expires");
    reveal_strlit("x");
    reveal_strlit("supported");
    reveal_strlit("k");
    reveal_strlit("cseq");
    reveal_strlit("authorization");
    reveal_strlit("record-route");
    reveal_strlit("expires");
    reveal_strlit("min-se");
    reveal_strlit("x-smiths-webrtc-tag");
    assert(text::lowered("via"@) =~= "via"@ && text::lowered("v"@) =~= "v"@);
    assert(text::lowered("call-id"@) =~= "call-id"@ && text::lowered("i"@) =~= "i"@);
    assert(text::lowered("from"@) =~= "from"@ && text::lowered("f"@) =~= "f"@);
    assert(text::lowered("to"@) =~= "to"@ && text::lowered("t"@) =~= "t"@);
    assert(text::lowered("content-type"@) =~= "content-type"@ && text::lowered("c"@) =~= "c"@);
    assert(text::lowered("contact"@) =~= "contact"@ && text::lowered("m"@) =~= "m"@);
    assert(text::lowered("session-expires"@) =~= "session-expires"@);
    assert(text::lowered("x"@) =~= "x"@);
    assert(text::lowered("supported"@) =~= "supported"@ && text::lowered("k"@) =~= "k"@);
    assert(text::lowered("cseq"@) =~= "cseq"@);
    assert(text::lowered("authorization"@) =~= "authorization"@);
    assert(text::lowered("record-route"@) =~= "record-route"@);
    assert(text::lowered("expires"@) =~= "expires"@);
    assert(text::lowered("min-se"@) =~= "min-se"@);
    assert(text::lowered("x-smiths-webrtc-tag"@) =~= "x-smiths-webrtc-tag"@);
}

/// Tag and URI of the caller are those of the `From` line, and those of the
/// callee those of the `To` line.
pub proof fn sides_come_from_their_headers(message: Seq<char>, k: int, c: int)
    ensures
        ({
            let s = summary_of(message);
            let value = value_behind(lines_of(message)[k], c);
            &&& stands_alone(message, k, c, "from"@, "f"@) ==> s.from_tag == tag_param(value)
                && s.from_uri == contact_uri(value)
            &&& stands_alone(message, k, c, "to"@, "t"@) ==> s.to_tag == tag_param(value)
                && s.to_uri == contact_uri(value)
            &&& lacks(message, "from"@, "f"@) ==> s.from_tag is None && s.from_uri is None
            &&& lacks(message, "to"@, "t"@) ==> s.to_tag is None && s.to_uri is None
        }),
{
    lemma_names_are_lower();
    lemma_leads(message, k, c, "from"@, "f"@);
    lemma_leads(message, k, c, "to"@, "t"@);
}

/// `Call-ID`, `Contact`, `Authorization`, the media type and the topmost
/// branch are those of the first line of their name.
pub proof fn texts_come_from_their_headers(message: Seq<char>, k: int, c: int)
    ensures
        ({
            let s = summary_of(message);
            let value = value_behind(lines_of(message)[k], c);
            &&& value.len() > 0 ==> {
                &&& leads(message, k, c, "call-id"@, "i"@) ==> s.call_id == Some(value)
                &&& leads(message, k, c, "contact"@, "m"@) ==> s.contact == Some(value)
                &&& leads(message, k, c, "authorization"@, "authorization"@) ==> s.authorization
                    == Some(value)
                &&& leads(message, k, c, "x-smiths-webrtc-tag"@, "x-smiths-webrtc-tag"@)
                    ==> s.webrtc_tag == Some(value)
            }
            &&& leads(message, k, c, "via"@, "v"@) && via_branch(value) is Some ==> s.branch
                == via_branch(value)
            &&& leads(message, k, c, "content-type"@, "c"@) && !value.contains(';') && tight(value)
                && value.len() > 0 ==> s.content_type == Some(text::lowered(value))
            &&& lacks(message, "call-id"@, "i"@) ==> s.call_id is None
            &&& lacks(message, "contact"@, "m"@) ==> s.contact is None
            &&& lacks(message, "authorization"@, "authorization"@) ==> s.authorization is None
            &&& lacks(message, "x-smiths-webrtc-tag"@, "x-smiths-webrtc-tag"@)
                ==> s.webrtc_tag is None
            &&& lacks(message, "via"@, "v"@) ==> s.branch is None
            &&& lacks(message, "content-type"@, "c"@) ==> s.content_type is None
        }),
{
    lemma_names_are_lower();
    lemma_leads(message, k, c, "call-id"@, "i"@);
    lemma_leads(message, k, c, "contact"@, "m"@);
    lemma_leads(message, k, c, "authorization"@, "authorization"@);
    lemma_leads(message, k, c, "x-smiths-webrtc-tag"@, "x-smiths-webrtc-tag"@);
    lemma_leads(message, k, c, "via"@, "v"@);
    lemma_leads(message, k, c, "content-type"@, "c"@);
    let value = value_behind(lines_of(message)[k], c);
    if !value.contains(';') && tight(value) {
        assert forall|i: int| 0 <= i < value.len() implies !seq![';'].contains(
            #[trigger] value[i],
        ) by {
            assert(value.contains(value[i]));
        }
        prefixes_end_at_the_first_stop(value, Seq::empty(), seq![';']);
        assert(value + Seq::<char>::empty() =~= value);
        tight_texts_stay(value);
    }
}

/// `Expires`, `Min-SE` and the sequence number are the numbers that are written
/// in their lines.
pub proof fn numbers_come_from_their_headers(
    message: Seq<char>,
    k: int,
    c: int,
    n: nat,
    rest: Seq<char>,
)
    requires
        n <= u32::MAX,
        rest.len() > 0 ==> text::is_space(rest[0]),
    ensures
        ({
            let s = summary_of(message);
            let value = value_behind(lines_of(message)[k], c);
            let d = text::decimal(n);
            &&& leads(message, k, c, "expires"@, "expires"@) && value == d ==> s.expires == Some(n)
            &&& leads(message, k, c, "min-se"@, "min-se"@) && value == d ==> s.min_se == Some(n)
            &&& leads(message, k, c, "cseq"@, "cseq"@) && value == d + rest ==> s.cseq == Some(n)
            &&& lacks(message, "expires"@, "expires"@) ==> s.expires is None
            &&& lacks(message, "min-se"@, "min-se"@) ==> s.min_se is None
            &&& lacks(message, "cseq"@, "cseq"@) ==> s.cseq is None
        }),
{
    lemma_names_are_lower();
    lemma_leads(message, k, c, "expires"@, "expires"@);
    lemma_leads(message, k, c, "min-se"@, "min-se"@);
    lemma_leads(message, k, c, "cseq"@, "cseq"@);
    lemma_number_rules(n, rest);
}

proof fn lemma_number_rules(n: nat, rest: Seq<char>)
    requires
        n <= u32::MAX,
        rest.len() > 0 ==> text::is_space(rest[0]),
    ensures
        number_in(NumberRule::Whole, text::decimal(n)) == Some(n),
        number_in(NumberRule::BeforeParams, text::decimal(n)) == Some(n),
        number_in(NumberRule::FirstWord, text::decimal(n) + rest) == Some(n),
{
    let d = text::decimal(n);
    decimals_read_back(n, u32::MAX as nat);
    assert('0' <= d[0] <= '9' && '0' <= d[d.len() - 1] <= '9');
    tight_texts_stay(d);
    assert forall|i: int| 0 <= i < d.len() implies !seq![';'].contains(#[trigger] d[i]) by {
        assert('0' <= d[i] <= '9');
    }
    prefixes_end_at_the_first_stop(d, Seq::empty(), seq![';']);
    assert(d + Seq::<char>::empty() =~= d);
    assert forall|i: int| 0 <= i < d.len() implies !text::is_space(#[trigger] d[i]) by {
        assert('0' <= d[i] <= '9');
    }
    words_peel_off(Seq::empty(), d, rest);
    assert(Seq::<char>::empty() + d + rest =~= d + rest);
    assert(text::word(d + rest, 0) == Some(d));
}

/// The session interval is the number in the `Session-Expires` line, and its
/// refresher the one that is named there.
pub proof fn intervals_come_from_their_header(message: Seq<char>, k: int, c: int, n: nat)
    requires
        n <= u32::MAX,
    ensures
        ({
            let s = summary_of(message);
            let value = value_behind(lines_of(message)[k], c);
            let d = text::decimal(n);
            &&& leads(message, k, c, "session-expires"@, "x"@) && value == d ==> s.session_expires
                == Some(n) && s.session_refresher is None
            &&& leads(message, k, c, "session-expires"@, "x"@) && value == d + ";refresher=uas"@
                ==> s.session_expires == Some(n) && s.session_refresher == Some("uas"@)
            &&& leads(message, k, c, "session-expires"@, "x"@) && value == d + ";refresher=uac"@
                ==> s.session_expires == Some(n) && s.session_refresher == Some("uac"@)
            &&& lacks(message, "session-expires"@, "x"@) ==> s.session_expires is None
                && s.session_refresher is None
        }),
{
    lemma_names_are_lower();
    lemma_leads(message, k, c, "session-expires"@, "x"@);
    lemma_refreshers(n);
}

proof fn lemma_refreshers(n: nat)
    requires
        n <= u32::MAX,
    ensures
        session_expires_of(text::decimal(n)) == (Some(n), None::<Seq<char>>),
        session_expires_of(text::decimal(n) + ";refresher=uas"@) == (Some(n), Some("uas"@)),
        session_expires_of(text::decimal(n) + ";refresher=uac"@) == (Some(n), Some("uac"@)),
{
    let d = text::decimal(n);
    reveal_strlit("uas");
    reveal_strlit("uac");
    reveal_strlit(";refresher=");
    reveal_strlit(";refresher=uas");
    reveal_strlit(";refresher=uac");
    let s = "uas"@;
    let c = "uac"@;
    assert(s =~= seq!['u', 'a', 's'] && c =~= seq!['u', 'a', 'c']);
    assert(!s.contains(';') && !c.contains(';'));
    assert(";refresher=uas"@ =~= ";refresher="@ + s);
    assert(";refresher=uac"@ =~= ";refresher="@ + c);
    session_intervals_are_read(n, s);
    session_intervals_are_read(n, c);
    assert(d + (";refresher="@ + s) =~= d + ";refresher="@ + s);
    assert(d + (";refresher="@ + c) =~= d + ";refresher="@ + c);
    assert(text::lowered(s) =~= s && text::lowered(c) =~= c);
}

/// The route set is the list in the `Record-Route` line, and timers are
/// supported when the list in the `Supported` line names them.
pub proof fn lists_come_from_their_headers(message: Seq<char>, k: int, c: int)
    ensures
        ({
            let s = summary_of(message);
            let value = value_behind(lines_of(message)[k], c);
            &&& stands_alone(message, k, c, "record-route"@, "record-route"@) ==> s.record_route
                == header_list(value)
            &&& stands_alone(message, k, c, "supported"@, "k"@) ==> (s.supports_timer <==> exists|
                i: int,
            |
                0 <= i < header_list(value).len() && text::same_ignoring_case(
                    #[trigger] header_list(value)[i],
                    "timer"@,
                ))
            &&& lacks(message, "record-route"@, "record-route"@) ==> s.record_route.len() == 0
            &&& lacks(message, "supported"@, "k"@) ==> !s.supports_timer
        }),
{
    lemma_names_are_lower();
    lemma_leads(message, k, c, "record-route"@, "record-route"@);
    lemma_leads(message, k, c, "supported"@, "k"@);
    let value = value_behind(lines_of(message)[k], c);
    reveal_with_fuel(lists_from, 2);
    assert(header_list(value) + Seq::<Seq<char>>::empty() =~= header_list(value));
}

/// Method, Request-URI and body: the first word of the request line in upper
/// case, the second as it stands, and what follows the empty line.
pub proof fn requests_are_read(
    method: Seq<char>,
    uri: Seq<char>,
    rest: Seq<char>,
    headers: Seq<char>,
    body: Seq<char>,
)
    requires
        method.len() > 0 && spaceless(method),
        uri.len() > 0 && spaceless(uri),
        clear_of(method + " "@ + uri + " "@ + rest, "\r\n"@),
        clear_of(method + " "@ + uri + " "@ + rest + "\r\n"@ + headers, "\r\n\r\n"@),
    ensures
        ({
            let s = summary_of(
                method + " "@ + uri + " "@ + rest + "\r\n"@ + headers + "\r\n\r\n"@ + body,
            );
            &&& s.method == text::uppered(method)
            &&& s.request_uri == Some(uri)
            &&& s.ruri_user == uri_user(uri)
            &&& body.len() > 0 ==> s.body == Some(body)
            &&& body.len() == 0 ==> s.body is None
        }),
{
    let line = method + " "@ + uri + " "@ + rest;
    let head = line + "\r\n"@ + headers;
    let message = head + "\r\n\r\n"@ + body;
    messages_fall_apart(head, body);
    reveal_strlit("\r\n");
    splits_peel_off(line, "\r\n"@, headers);
    assert(lines_of(message)[0] == line);
    reveal_strlit(" ");
    assert(" "@ =~= seq![' ']);
    let tail = " "@ + uri + " "@ + rest;
    words_peel_off(Seq::empty(), method, tail);
    assert(Seq::<char>::empty() + method + tail =~= line);
    words_peel_off(" "@, uri, " "@ + rest);
    assert(" "@ + uri + (" "@ + rest) =~= tail);
    assert(text::words(line)[0] == method && text::words(line)[1] == uri);
}

/// A request inside a dialog names it by its Call-ID, the engine's tag in `To`
/// and the peer's in `From`, and names none where one of them is missing.
pub proof fn dialogs_are_named_by_both_tags(s: SummaryView)
    ensures
        named_dialog(s) matches Some(d) ==> d.len() == 3 && s.call_id == Some(d[0]) && s.to_tag
            == Some(d[1]) && s.from_tag == Some(d[2]),
        named_dialog(s) is None <==> s.call_id is None || s.to_tag is None || s.from_tag is None,
{
}

/// The branch of a message is that of its first `Via`, whichever headers
/// precede it.
pub proof fn top_branches_are_read(lines: Seq<Seq<char>>, k: int, c: int)
    requires
        1 <= k < lines.len(),
        is_header(lines[k], c, "via"@, "v"@),
        no_header(lines, 1, k, "via"@, "v"@),
        forall|j: int| 1 <= j < k ==> #[trigger] lines[j].contains(':'),
    ensures
        top_branch_from(lines, 1) == via_branch(lines[k].subrange(c + 1, lines[k].len() as int)),
{
    lemma_top_branch(lines, 1, k);
    lemma_colon(lines[k], c);
}

proof fn lemma_top_branch(lines: Seq<Seq<char>>, i: int, k: int)
    requires
        1 <= i <= k <= lines.len(),
        no_header(lines, i, k, "via"@, "v"@),
        forall|j: int| i <= j < k ==> #[trigger] lines[j].contains(':'),
    ensures
        top_branch_from(lines, i) == top_branch_from(lines, k),
    decreases k - i,
{
    if i < k {
        let line = lines[i];
        assert(line.contains(':'));
        let j = choose|j: int| 0 <= j < line.len() && line[j] == ':';
        text::lemma_find_from(line, seq![':'], 0);
        characters_occur(line, ':', j);
        let c = lemma_first_colon(line);
        lemma_colon(line, c);
        assert(!is_header(line, c, "via"@, "v"@));
        lemma_top_branch(lines, i + 1, k);
    }
}

/// The branch of a message is that of its topmost `Via`.
pub proof fn messages_have_the_branch_of_their_via(bytes: Seq<u8>, k: int, c: int)
    requires
        vstd::utf8::valid_utf8(bytes),
        ({
            let lines = text::split(vstd::utf8::decode_utf8(bytes), "\r\n"@);
            &&& 1 <= k < lines.len()
            &&& is_header(lines[k], c, "via"@, "v"@)
            &&& no_header(lines, 1, k, "via"@, "v"@)
            &&& forall|j: int| 1 <= j < k ==> #[trigger] lines[j].contains(':')
        }),
    ensures
        ({
            let lines = text::split(vstd::utf8::decode_utf8(bytes), "\r\n"@);
            message_branch(bytes) == via_branch(
                lines[k].subrange(c + 1, lines[k].len() as int),
            )
        }),
{
    top_branches_are_read(text::split(vstd::utf8::decode_utf8(bytes), "\r\n"@), k, c);
}

/// A media type is read in lower case and without its parameters.
pub proof fn media_types_lose_their_parameters(kind: Seq<char>, params: Seq<char>)
    requires
        kind.len() > 0,
        tight(kind),
        !kind.contains(';'),
        params.len() > 0 ==> params[0] == ';',
    ensures
        text_in(TextRule::MediaType, kind + params) == Some(text::lowered(kind)),
{
    let semi = seq![';'];
    assert(semi[0] == ';');
    assert(semi.contains(semi[0]));
    assert forall|i: int| 0 <= i < kind.len() implies !semi.contains(#[trigger] kind[i]) by {
        assert(kind.contains(kind[i]));
    }
    prefixes_end_at_the_first_stop(kind, params, semi);
    tight_texts_stay(kind);
}

/// Where a header comes several times, a side of the dialog is the first that
/// has a tag, or the last where none has; a session interval is the first that
/// states seconds; a text or a number the first that can be read.
pub proof fn repeated_headers_are_searched(values: Seq<Seq<char>>, k: int)
    requires
        0 <= k < values.len(),
    ensures
        tag_param(values[k]) is Some && (forall|j: int|
            0 <= j < k ==> tag_param(#[trigger] values[j]) is None) ==> tagged_from(values, 0)
            == Some(values[k]),
        (forall|j: int| 0 <= j < values.len() ==> tag_param(#[trigger] values[j]) is None)
            ==> tagged_from(values, 0) == Some(values.last()),
        session_expires_of(values[k]).0 is Some && (forall|j: int|
            0 <= j < k ==> session_expires_of(#[trigger] values[j]).0 is None) ==> session_of(
            values,
        ) == session_expires_of(values[k]),
        forall|rule: TextRule|
            text_in(rule, values[k]) is Some && (forall|j: int|
                0 <= j < k ==> text_in(rule, #[trigger] values[j]) is None)
                ==> #[trigger] first_text_from(values, rule, 0) == text_in(rule, values[k]),
        forall|rule: NumberRule|
            number_in(rule, values[k]) is Some && (forall|j: int|
                0 <= j < k ==> number_in(rule, #[trigger] values[j]) is None)
                ==> #[trigger] first_number_from(values, rule, 0) == number_in(rule, values[k]),
{
    if tag_param(values[k]) is Some && (forall|j: int|
        0 <= j < k ==> tag_param(#[trigger] values[j]) is None) {
        lemma_tagged(values, 0, k);
    }
    if forall|j: int| 0 <= j < values.len() ==> tag_param(#[trigger] values[j]) is None {
        lemma_tagged(values, 0, values.len() - 1);
    }
    if session_expires_of(values[k]).0 is Some && (forall|j: int|
        0 <= j < k ==> session_expires_of(#[trigger] values[j]).0 is None) {
        lemma_timed(values, 0, k);
    }
    assert forall|rule: TextRule|
        text_in(rule, values[k]) is Some && (forall|j: int|
            0 <= j < k ==> text_in(rule, #[trigger] values[j]) is None) implies
        #[trigger] first_text_from(values, rule, 0) == text_in(rule, values[k]) by {
        lemma_first_text(values, rule, 0, k);
    }
    assert forall|rule: NumberRule|
        number_in(rule, values[k]) is Some && (forall|j: int|
            0 <= j < k ==> number_in(rule, #[trigger] values[j]) is None) implies
        #[trigger] first_number_from(values, rule, 0) == number_in(rule, values[k]) by {
        lemma_first_number(values, rule, 0, k);
    }
}

proof fn lemma_tagged(values: Seq<Seq<char>>, i: int, k: int)
    requires
        0 <= i <= k < values.len(),
        tag_param(values[k]) is Some || k == values.len() - 1,
        forall|j: int| i <= j < k ==> tag_param(#[trigger] values[j]) is None,
    ensures
        tagged_from(values, i) == Some(values[k]),
    decreases k - i,
{
    if i < k {
        assert(tag_param(values[i]) is None);
        lemma_tagged(values, i + 1, k);
    }
}

proof fn lemma_timed(values: Seq<Seq<char>>, i: int, k: int)
    requires
        0 <= i <= k < values.len(),
        session_expires_of(values[k]).0 is Some,
        forall|j: int| i <= j < k ==> session_expires_of(#[trigger] values[j]).0 is None,
    ensures
        timed_from(values, i) == Some(values[k]),
    decreases k - i,
{
    if i < k {
        assert(session_expires_of(values[i]).0 is None);
        lemma_timed(values, i + 1, k);
    }
}

proof fn lemma_first_text(values: Seq<Seq<char>>, rule: TextRule, i: int, k: int)
    requires
        0 <= i <= k < values.len(),
        text_in(rule, values[k]) is Some,
        forall|j: int| i <= j < k ==> text_in(rule, #[trigger] values[j]) is None,
    ensures
        first_text_from(values, rule, i) == text_in(rule, values[k]),
    decreases k - i,
{
    if i < k {
        assert(text_in(rule, values[i]) is None);
        lemma_first_text(values, rule, i + 1, k);
    }
}

proof fn lemma_first_number(values: Seq<Seq<char>>, rule: NumberRule, i: int, k: int)
    requires
        0 <= i <= k < values.len(),
        number_in(rule, values[k]) is Some,
        forall|j: int| i <= j < k ==> number_in(rule, #[trigger] values[j]) is None,
    ensures
        first_number_from(values, rule, i) == number_in(rule, values[k]),
    decreases k - i,
{
    if i < k {
        assert(number_in(rule, values[i]) is None);
        lemma_first_number(values, rule, i + 1, k);
    }
}

/// A message whose lines end in line feeds alone falls apart at its first empty
/// line too; one without an empty line is all headers.
pub proof fn messages_without_carriage_returns_fall_apart(head: Seq<char>, body: Seq<char>)
    ensures
        clear_of(head, "\n\n"@) && (forall|i: int|
            0 <= i ==> !#[trigger] text::occurs_at(
                head + "\n\n"@ + body,
                "\r\n\r\n"@,
                i,
            )) ==> head_and_body(head + "\n\n"@ + body) == (head, body),
        (forall|i: int|
            0 <= i ==> !#[trigger] text::occurs_at(head, "\r\n\r\n"@, i)) && (forall|i: int|
            0 <= i ==> !#[trigger] text::occurs_at(head, "\n\n"@, i)) ==> head_and_body(head) == (
            head,
            Seq::<char>::empty(),
        ),
{
    text::laws::cuts_need_the_separator(head + "\n\n"@ + body, "\r\n\r\n"@);
    text::laws::cuts_need_the_separator(head, "\r\n\r\n"@);
    text::laws::cuts_need_the_separator(head, "\n\n"@);
    if clear_of(head, "\n\n"@) {
        cuts_divide_at_the_first(head, "\n\n"@, body);
    }
}

/// An empty value, and `*`, name no URI; empty brackets name none, and so what
/// precedes them is read.
pub proof fn some_values_name_no_uri()
    ensures
        contact_uri(Seq::empty()) is None,
        contact_uri("*"@) is None,
{
    reveal_strlit("*");
    tight_texts_stay(Seq::empty());
    tight_texts_stay("*"@);
}

/// White space around the seconds of an interval, and the case of its refresher,
/// make no difference.
pub proof fn intervals_are_read_loosely(n: nat, a: Seq<char>, b: Seq<char>)
    requires
        n <= u32::MAX,
        blank(a) && blank(b),
        !a.contains(';') && !b.contains(';'),
    ensures
        session_expires_of(a + text::decimal(n) + b).0 == Some(n),
        number_in(NumberRule::BeforeParams, a + text::decimal(n) + b) == Some(n),
{
    let d = text::decimal(n);
    let s = a + d + b;
    decimals_read_back(n, u32::MAX as nat);
    assert('0' <= d[0] <= '9' && '0' <= d[d.len() - 1] <= '9');
    trimming_takes_off_the_blanks(a, d, b);
    assert forall|i: int| 0 <= i < s.len() implies #[trigger] s[i] != ';' by {
        if i < a.len() {
            assert(a.contains(a[i]));
        } else if i < a.len() + d.len() {
            assert(s[i] == d[i - a.len()]);
            assert('0' <= d[i - a.len()] <= '9');
        } else {
            assert(s[i] == b[i - a.len() - d.len()]);
            assert(b.contains(b[i - a.len() - d.len()]));
        }
    }
    assert forall|i: int| 0 <= i implies !#[trigger] text::occurs_at(s, seq![';'], i) by {
        characters_occur(s, ';', i);
    }
    splits_need_the_separator(s, seq![';']);
    assert forall|i: int| 0 <= i < s.len() implies !seq![';'].contains(#[trigger] s[i]) by {}
    prefixes_end_at_the_first_stop(s, Seq::empty(), seq![';']);
    assert(s + Seq::<char>::empty() =~= s);
}

/// The lists of several headers of one name follow each other in their order.
pub proof fn lists_of_several_headers_follow(values: Seq<Seq<char>>, k: int)
    requires
        0 <= k < values.len(),
    ensures
        lists_from(values, k) == header_list(values[k]) + lists_from(values, k + 1),
        lists_from(values, values.len() as int).len() == 0,
{
}

/// The route set of a request is the lists of all its `Record-Route` lines, and
/// its extensions those of all its `Supported` lines.
pub proof fn all_lists_count(message: Seq<char>)
    ensures
        ({
            let s = summary_of(message);
            let routes = values_from(lines_of(message), "record-route"@, "record-route"@, 1);
            let extensions = lists_from(
                values_from(lines_of(message), "supported"@, "k"@, 1),
                0,
            );
            &&& s.record_route == lists_from(routes, 0)
            &&& s.supports_timer <==> exists|i: int|
                0 <= i < extensions.len() && text::same_ignoring_case(
                    #[trigger] extensions[i],
                    "timer"@,
                )
        }),
{
}

} // verus!
