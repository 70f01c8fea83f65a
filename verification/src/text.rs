//! Text primitives: the scanning, splitting, trimming and number formats that
//! SIP's line-oriented grammar is built from.
//!
//! Parsing works on slices of `char`; the mathematical model of a text is
//! `Seq<char>`, which is also the view of `str` and `String`.

use vstd::arithmetic::power::pow;
use vstd::prelude::*;
use vstd::slice::slice_subrange;
use vstd::utf8::*;

pub mod laws;

verus! {

/// `String::push` appends one character.
pub assume_specification[ String::push ](s: &mut String, c: char)
    ensures
        final(s)@ == old(s)@.push(c),
;

// ---------------------------------------------------------------------
// Characters
// ---------------------------------------------------------------------

/// The characters with the Unicode property `White_Space`.
pub open spec fn is_space(c: char) -> bool {
    ||| '\u{9}' <= c <= '\u{d}'
    ||| c == ' '
    ||| c == '\u{85}'
    ||| c == '\u{a0}'
    ||| c == '\u{1680}'
    ||| '\u{2000}' <= c <= '\u{200a}'
    ||| c == '\u{2028}'
    ||| c == '\u{2029}'
    ||| c == '\u{202f}'
    ||| c == '\u{205f}'
    ||| c == '\u{3000}'
}

/// `true` for a character with the Unicode property `White_Space`.
pub fn is_whitespace(c: char) -> (r: bool)
    ensures
        r == is_space(c),
{
    ('\u{9}' <= c && c <= '\u{d}') || c == ' ' || c == '\u{85}' || c == '\u{a0}' || c == '\u{1680}'
        || ('\u{2000}' <= c && c <= '\u{200a}') || c == '\u{2028}' || c == '\u{2029}' || c
        == '\u{202f}' || c == '\u{205f}' || c == '\u{3000}'
}

/// ASCII lower case of one character.
pub open spec fn lower_char(c: char) -> char {
    if 'A' <= c <= 'Z' {
        ((c as u32) + 32) as char
    } else {
        c
    }
}

/// ASCII upper case of one character.
pub open spec fn upper_char(c: char) -> char {
    if 'a' <= c <= 'z' {
        ((c as u32) - 32) as char
    } else {
        c
    }
}

/// ASCII lower case of one character.
pub fn lower(c: char) -> (r: char)
    ensures
        r == lower_char(c),
{
    if 'A' <= c && c <= 'Z' {
        ((c as u8) + 32) as char
    } else {
        c
    }
}

/// ASCII upper case of one character.
pub fn upper(c: char) -> (r: char)
    ensures
        r == upper_char(c),
{
    if 'a' <= c && c <= 'z' {
        ((c as u8) - 32) as char
    } else {
        c
    }
}

/// ASCII lower case of a text.
pub open spec fn lowered(s: Seq<char>) -> Seq<char> {
    Seq::new(s.len(), |i: int| lower_char(s[i]))
}

/// ASCII upper case of a text.
pub open spec fn uppered(s: Seq<char>) -> Seq<char> {
    Seq::new(s.len(), |i: int| upper_char(s[i]))
}

/// Equality up to ASCII case.
pub open spec fn same_ignoring_case(a: Seq<char>, b: Seq<char>) -> bool {
    lowered(a) == lowered(b)
}

/// Texts that are equal up to case have the same upper-case form.
pub proof fn lemma_same_uppered(a: Seq<char>, b: Seq<char>)
    requires
        same_ignoring_case(a, b),
    ensures
        uppered(a) == uppered(b),
{
    assert(a.len() == lowered(a).len() && b.len() == lowered(b).len());
    assert forall|i: int| 0 <= i < a.len() implies uppered(a)[i] == uppered(b)[i] by {
        assert(lowered(a)[i] == lowered(b)[i]);
    }
    assert(uppered(a) =~= uppered(b));
}

// ---------------------------------------------------------------------
// Conversions
// ---------------------------------------------------------------------

/// The characters of `s`.
pub fn to_chars(s: &str) -> (r: Vec<char>)
    ensures
        r@ == s@,
{
    let mut out: Vec<char> = Vec::new();
    for c in it: s.chars()
        invariant
            it.seq() == s@,
            out@ == s@.take(it.index()),
    {
        out.push(c);
    }
    out
}

/// The characters of `s` as a `String`.
pub fn to_string(s: &[char]) -> (r: String)
    ensures
        r@ == s@,
{
    let mut out: String = String::new();
    let mut i: usize = 0;
    while i < s.len()
        invariant
            i <= s.len(),
            out@ == s@.take(i as int),
        decreases s.len() - i,
    {
        out.push(s[i]);
        i = i + 1;
    }
    assert(s@.take(s@.len() as int) =~= s@);
    out
}

/// Appends the characters of `s`.
pub fn push_chars(out: &mut String, s: &[char])
    ensures
        final(out)@ == old(out)@ + s@,
{
    let t = to_string(s);
    out.append(&t);
}

/// Appends a line break.
pub fn push_crlf(out: &mut String)
    ensures
        final(out)@ == old(out)@ + "\r\n"@,
{
    out.append("\r\n");
}

/// A copy of `b`.
pub fn copy_bytes(b: &[u8]) -> (r: Vec<u8>)
    ensures
        r@ == b@,
{
    let mut out: Vec<u8> = Vec::new();
    out.extend_from_slice(b);
    assert(out@ =~= b@);
    out
}

/// A copy of `s` in ASCII lower case.
pub fn to_lower(s: &[char]) -> (r: Vec<char>)
    ensures
        r@ == lowered(s@),
{
    let mut out: Vec<char> = Vec::new();
    let mut i: usize = 0;
    while i < s.len()
        invariant
            i <= s.len(),
            out@ =~= lowered(s@).take(i as int),
        decreases s.len() - i,
    {
        out.push(lower(s[i]));
        i = i + 1;
    }
    out
}

/// A copy of `s` in ASCII upper case.
pub fn to_upper(s: &[char]) -> (r: Vec<char>)
    ensures
        r@ == uppered(s@),
{
    let mut out: Vec<char> = Vec::new();
    let mut i: usize = 0;
    while i < s.len()
        invariant
            i <= s.len(),
            out@ =~= uppered(s@).take(i as int),
        decreases s.len() - i,
    {
        out.push(upper(s[i]));
        i = i + 1;
    }
    out
}

/// `std::str::from_utf8`: succeeds exactly on well-formed UTF-8, and then
/// returns the text whose encoding the bytes are.
#[verifier::external_body]
fn str_from_utf8(bytes: &[u8]) -> (r: Option<&str>)
    ensures
        r is Some <==> valid_utf8(bytes@),
        r matches Some(s) ==> encode_utf8(s@) == bytes@,
{
    std::str::from_utf8(bytes).ok()
}

/// The text that `bytes` encode, `None` unless they are well-formed UTF-8.
pub open spec fn utf8_text(bytes: Seq<u8>) -> Option<Seq<char>> {
    if valid_utf8(bytes) {
        Some(decode_utf8(bytes))
    } else {
        None
    }
}

/// Decodes UTF-8.
pub fn decode(bytes: &[u8]) -> (r: Option<Vec<char>>)
    ensures
        r matches Some(v) ==> utf8_text(bytes@) == Some(v@),
        r is None ==> utf8_text(bytes@) is None,
{
    match str_from_utf8(bytes) {
        Some(s) => {
            proof {
                encode_utf8_decode_utf8(s@);
            }
            Some(to_chars(s))
        },
        None => None,
    }
}

/// What `String::from_utf8_lossy` makes of `bytes`.
pub uninterp spec fn lossy_text(bytes: Seq<u8>) -> Seq<char>;

/// `String::from_utf8_lossy`: the text that `bytes` encode. Where they are no
/// well-formed UTF-8 the replacement character stands for what is not; which
/// text comes out then has a name but is not spelled out.
#[verifier::external_body]
fn decode_lossy(bytes: &[u8]) -> (r: String)
    ensures
        r@ == lossy_text(bytes@),
        valid_utf8(bytes@) ==> r@ == decode_utf8(bytes@),
{
    String::from_utf8_lossy(bytes).into_owned()
}

/// The text of a message: what its bytes encode; where they are no well-formed
/// UTF-8, what lossy decoding makes of them.
pub open spec fn message_text(bytes: Seq<u8>) -> Seq<char> {
    if valid_utf8(bytes) {
        decode_utf8(bytes)
    } else {
        lossy_text(bytes)
    }
}

/// The text of a message; see [`message_text`].
pub fn read_message(bytes: &[u8]) -> (r: String)
    ensures
        r@ == message_text(bytes@),
{
    decode_lossy(bytes)
}

/// How the `Debug` form of a text reads: in quotation marks, with escapes.
pub uninterp spec fn debug_text(s: Seq<char>) -> Seq<char>;

/// `str`'s `Debug`: the text in quotation marks, with escapes for what does not
/// print. Which characters are escaped, and how, is not spelled out.
#[verifier::external_body]
pub(crate) fn debug_string(s: &str) -> (r: String)
    ensures
        r@ == debug_text(s@),
{
    format!("{s:?}")
}

/// UTF-8 bytes of `s`.
pub fn to_bytes(s: &str) -> (r: Vec<u8>)
    ensures
        r@ == encode_utf8(s@),
{
    s.as_bytes_vec()
}

// ---------------------------------------------------------------------
// Scanning
// ---------------------------------------------------------------------

/// `pat` occurs in `s` at position `i`.
pub open spec fn occurs_at(s: Seq<char>, pat: Seq<char>, i: int) -> bool {
    0 <= i && i + pat.len() <= s.len() && s.subrange(i, i + pat.len()) == pat
}

/// `s` begins with `pat`.
pub open spec fn begins_with(s: Seq<char>, pat: Seq<char>) -> bool {
    occurs_at(s, pat, 0)
}

/// The first position at or after `i` at which `pat` occurs in `s`.
pub open spec fn find_from(s: Seq<char>, pat: Seq<char>, i: int) -> Option<int>
    decreases s.len() + 1 - i,
{
    if i < 0 || i + pat.len() > s.len() {
        None
    } else if occurs_at(s, pat, i) {
        Some(i)
    } else {
        find_from(s, pat, i + 1)
    }
}

/// The last position before `i` of the character `c` in `s`.
pub open spec fn rfind_before(s: Seq<char>, c: char, i: int) -> Option<int>
    decreases i,
{
    if i <= 0 || i > s.len() {
        None
    } else if s[i - 1] == c {
        Some(i - 1)
    } else {
        rfind_before(s, c, i - 1)
    }
}

/// `find_from` reports an occurrence, and none lies before it.
pub proof fn lemma_find_from(s: Seq<char>, pat: Seq<char>, i: int)
    requires
        0 <= i,
    ensures
        find_from(s, pat, i) matches Some(k) ==> i <= k && occurs_at(s, pat, k) && forall|j: int|
            i <= j < k ==> !occurs_at(s, pat, j),
        find_from(s, pat, i) is None ==> forall|j: int| i <= j ==> !occurs_at(s, pat, j),
    decreases s.len() + 1 - i,
{
    if i + pat.len() <= s.len() && !occurs_at(s, pat, i) {
        lemma_find_from(s, pat, i + 1);
    }
}

/// `rfind_before` reports an occurrence, and none lies after it.
pub proof fn lemma_rfind_before(s: Seq<char>, c: char, i: int)
    requires
        0 <= i <= s.len(),
    ensures
        rfind_before(s, c, i) matches Some(k) ==> 0 <= k < i && s[k] == c && forall|j: int|
            k < j < i ==> s[j] != c,
        rfind_before(s, c, i) is None ==> forall|j: int| 0 <= j < i ==> s[j] != c,
    decreases i,
{
    if i > 0 && s[i - 1] != c {
        lemma_rfind_before(s, c, i - 1);
    }
}

/// `true` when `pat` occurs in `s` at position `i`.
pub fn matches_at(s: &[char], pat: &[char], i: usize) -> (r: bool)
    ensures
        r == occurs_at(s@, pat@, i as int),
{
    if i > s.len() || s.len() - i < pat.len() {
        return false;
    }
    let mut k: usize = 0;
    while k < pat.len()
        invariant
            k <= pat.len(),
            i + pat.len() <= s.len(),
            forall|j: int| 0 <= j < k ==> s@[i + j] == pat@[j],
        decreases pat.len() - k,
    {
        if s[i + k] != pat[k] {
            assert(s@.subrange(i as int, i + pat@.len())[k as int] != pat@[k as int]);
            return false;
        }
        k = k + 1;
    }
    assert(s@.subrange(i as int, i + pat@.len()) =~= pat@);
    true
}

/// Compares two texts.
pub fn same(a: &[char], b: &[char]) -> (r: bool)
    ensures
        r == (a@ == b@),
{
    if a.len() != b.len() {
        return false;
    }
    let r = matches_at(a, b, 0);
    proof {
        assert(a@.subrange(0, a@.len() as int) =~= a@);
    }
    r
}

/// Compares two texts up to ASCII case.
pub fn same_nocase(a: &[char], b: &[char]) -> (r: bool)
    ensures
        r == same_ignoring_case(a@, b@),
{
    let x = to_lower(a);
    let y = to_lower(b);
    same(&x, &y)
}

/// `true` when `s` begins with `pat`.
pub fn has_prefix(s: &[char], pat: &[char]) -> (r: bool)
    ensures
        r == begins_with(s@, pat@),
{
    matches_at(s, pat, 0)
}

/// The first position at or after `start` at which `pat` occurs in `s`.
pub fn find(s: &[char], pat: &[char], start: usize) -> (r: Option<usize>)
    ensures
        r matches Some(k) ==> find_from(s@, pat@, start as int) == Some(k as int),
        r is None ==> find_from(s@, pat@, start as int) is None,
{
    let mut i: usize = start;
    while i <= s.len() && s.len() - i >= pat.len()
        invariant
            find_from(s@, pat@, start as int) == find_from(s@, pat@, i as int),
        decreases s.len() + 1 - i,
    {
        if matches_at(s, pat, i) {
            return Some(i);
        }
        if i == s.len() {
            assert(find_from(s@, pat@, i + 1) is None);
            return None;
        }
        i = i + 1;
    }
    None
}

/// The last position of `c` in `s`.
pub fn rfind(s: &[char], c: char) -> (r: Option<usize>)
    ensures
        r matches Some(k) ==> k < s@.len() && rfind_before(s@, c, s@.len() as int) == Some(k as int),
        r is None ==> rfind_before(s@, c, s@.len() as int) is None,
{
    let mut i: usize = s.len();
    while i > 0
        invariant
            i <= s.len(),
            rfind_before(s@, c, s@.len() as int) == rfind_before(s@, c, i as int),
        decreases i,
    {
        if s[i - 1] == c {
            return Some(i - 1);
        }
        i = i - 1;
    }
    None
}

/// The first position at or after `i` that holds white space or one of
/// `stops`; the length of `s` when there is none.
pub open spec fn stop_from(s: Seq<char>, stops: Seq<char>, i: int) -> int
    decreases s.len() - i,
{
    if i < 0 || i >= s.len() {
        s.len() as int
    } else if is_space(s[i]) || stops.contains(s[i]) {
        i
    } else {
        stop_from(s, stops, i + 1)
    }
}

/// `stop_from` stays within the text.
pub proof fn lemma_stop_from(s: Seq<char>, stops: Seq<char>, i: int)
    requires
        0 <= i <= s.len(),
    ensures
        i <= stop_from(s, stops, i) <= s.len(),
    decreases s.len() - i,
{
    if i < s.len() {
        lemma_stop_from(s, stops, i + 1);
    }
}

/// `true` when `c` is one of `set`.
pub fn one_of(c: char, set: &[char]) -> (r: bool)
    ensures
        r == set@.contains(c),
{
    let mut i: usize = 0;
    while i < set.len()
        invariant
            i <= set.len(),
            forall|j: int| 0 <= j < i ==> set@[j] != c,
        decreases set.len() - i,
    {
        if set[i] == c {
            return true;
        }
        i = i + 1;
    }
    false
}

/// See [`stop_from`].
pub fn find_stop(s: &[char], stops: &[char], start: usize) -> (r: usize)
    requires
        start <= s@.len(),
    ensures
        r == stop_from(s@, stops@, start as int),
        start <= r <= s@.len(),
{
    let mut i: usize = start;
    while i < s.len()
        invariant
            start <= i <= s.len(),
            stop_from(s@, stops@, start as int) == stop_from(s@, stops@, i as int),
        decreases s.len() - i,
    {
        if is_whitespace(s[i]) || one_of(s[i], stops) {
            return i;
        }
        i = i + 1;
    }
    s.len()
}

/// The first position at or after `i` that holds one of `stops`; the length of
/// `s` when there is none.
pub open spec fn any_from(s: Seq<char>, stops: Seq<char>, i: int) -> int
    decreases s.len() - i,
{
    if i < 0 || i >= s.len() {
        s.len() as int
    } else if stops.contains(s[i]) {
        i
    } else {
        any_from(s, stops, i + 1)
    }
}

/// `s` up to the first of `stops`.
pub open spec fn before_any(s: Seq<char>, stops: Seq<char>) -> Seq<char> {
    s.subrange(0, any_from(s, stops, 0))
}

/// See [`before_any`].
pub fn cut_before<'a>(s: &'a [char], stops: &[char]) -> (r: &'a [char])
    ensures
        r@ == before_any(s@, stops@),
{
    let mut i: usize = 0;
    while i < s.len() && !one_of(s[i], stops)
        invariant
            i <= s@.len(),
            any_from(s@, stops@, 0) == any_from(s@, stops@, i as int),
        decreases s.len() - i,
    {
        i = i + 1;
    }
    part(s, 0, i)
}

/// A part of `s`.
pub fn part(s: &[char], from: usize, to: usize) -> (r: &[char])
    requires
        from <= to <= s@.len(),
    ensures
        r@ == s@.subrange(from as int, to as int),
{
    slice_subrange(s, from, to)
}

// ---------------------------------------------------------------------
// Trimming
// ---------------------------------------------------------------------

/// The first position at or after `i` that holds no white space.
pub open spec fn skip_spaces(s: Seq<char>, i: int) -> int
    decreases s.len() - i,
{
    if i < 0 || i >= s.len() {
        s.len() as int
    } else if is_space(s[i]) {
        skip_spaces(s, i + 1)
    } else {
        i
    }
}

/// The position after the last character before `i` that is no white space.
pub open spec fn back_spaces(s: Seq<char>, i: int) -> int
    decreases i,
{
    if i <= 0 || i > s.len() {
        0
    } else if is_space(s[i - 1]) {
        back_spaces(s, i - 1)
    } else {
        i
    }
}

/// `s` without leading and trailing white space.
pub open spec fn trimmed(s: Seq<char>) -> Seq<char> {
    if skip_spaces(s, 0) < back_spaces(s, s.len() as int) {
        s.subrange(skip_spaces(s, 0), back_spaces(s, s.len() as int))
    } else {
        Seq::empty()
    }
}

/// Removes leading and trailing white space.
pub fn trim(s: &[char]) -> (r: &[char])
    ensures
        r@ == trimmed(s@),
{
    let mut a: usize = 0;
    while a < s.len() && is_whitespace(s[a])
        invariant
            a <= s.len(),
            skip_spaces(s@, 0) == skip_spaces(s@, a as int),
        decreases s.len() - a,
    {
        a = a + 1;
    }
    let mut b: usize = s.len();
    while b > 0 && is_whitespace(s[b - 1])
        invariant
            b <= s.len(),
            back_spaces(s@, s@.len() as int) == back_spaces(s@, b as int),
        decreases b,
    {
        b = b - 1;
    }
    if a < b {
        part(s, a, b)
    } else {
        part(s, 0, 0)
    }
}

// ---------------------------------------------------------------------
// Splitting
// ---------------------------------------------------------------------

/// The texts in a sequence of slices.
pub open spec fn views(v: Seq<&[char]>) -> Seq<Seq<char>> {
    Seq::new(v.len(), |i: int| v[i]@)
}

/// The texts in a sequence of strings.
pub open spec fn texts(v: Seq<String>) -> Seq<Seq<char>> {
    Seq::new(v.len(), |i: int| v[i]@)
}

/// The text in an optional string.
pub open spec fn text_opt(o: Option<String>) -> Option<Seq<char>> {
    match o {
        Some(s) => Some(s@),
        None => None,
    }
}

/// `s` from `start` on, cut at each occurrence of `pat`.
pub open spec fn split_from(s: Seq<char>, pat: Seq<char>, start: int) -> Seq<Seq<char>>
    decreases s.len() - start,
{
    match find_from(s, pat, start) {
        Some(k) => if 0 <= start <= k && pat.len() > 0 && k + pat.len() <= s.len() {
            seq![s.subrange(start, k)] + split_from(s, pat, k + pat.len())
        } else {
            seq![]
        },
        None => seq![s.subrange(start, s.len() as int)],
    }
}

/// `s`, cut at each occurrence of `pat`.
pub open spec fn split(s: Seq<char>, pat: Seq<char>) -> Seq<Seq<char>> {
    split_from(s, pat, 0)
}

/// A split has at least one part.
pub proof fn lemma_split_nonempty(s: Seq<char>, pat: Seq<char>, start: int)
    requires
        0 <= start,
        pat.len() > 0,
    ensures
        split_from(s, pat, start).len() > 0,
{
    lemma_find_from(s, pat, start);
}

/// Cuts `s` at each occurrence of `pat`.
pub fn split_on<'a>(s: &'a [char], pat: &[char]) -> (r: Vec<&'a [char]>)
    requires
        pat@.len() > 0,
    ensures
        views(r@) == split(s@, pat@),
        r@.len() > 0,
{
    let mut out: Vec<&'a [char]> = Vec::new();
    let mut start: usize = 0;
    proof {
        lemma_split_nonempty(s@, pat@, 0);
    }
    loop
        invariant
            pat@.len() > 0,
            start <= s@.len(),
            views(out@) + split_from(s@, pat@, start as int) =~= split(s@, pat@),
            split(s@, pat@).len() > 0,
        decreases s.len() - start,
    {
        proof {
            lemma_find_from(s@, pat@, start as int);
        }
        match find(s, pat, start) {
            Some(k) => {
                let ghost before = out@;
                out.push(part(s, start, k));
                proof {
                    assert(views(out@) =~= views(before).push(s@.subrange(start as int, k as int)));
                }
                start = k + pat.len();
            },
            None => {
                let ghost before = out@;
                out.push(part(s, start, s.len()));
                proof {
                    assert(views(out@) =~= views(before).push(
                        s@.subrange(start as int, s@.len() as int),
                    ));
                    assert(views(out@).len() == out@.len());
                }
                return out;
            },
        }
    }
}

/// `s` around the first occurrence of `pat`, `None` when there is none.
pub open spec fn cut(s: Seq<char>, pat: Seq<char>) -> Option<(Seq<char>, Seq<char>)> {
    match find_from(s, pat, 0) {
        Some(k) => Some((s.subrange(0, k), s.subrange(k + pat.len(), s.len() as int))),
        None => None,
    }
}

/// Cuts `s` around the first occurrence of `pat`.
pub fn split_once<'a>(s: &'a [char], pat: &[char]) -> (r: Option<(&'a [char], &'a [char])>)
    ensures
        r matches Some(p) ==> cut(s@, pat@) == Some((p.0@, p.1@)),
        r is None ==> cut(s@, pat@) is None,
{
    let n: usize = s.len();
    proof {
        lemma_find_from(s@, pat@, 0);
    }
    match find(s, pat, 0) {
        Some(k) => Some((part(s, 0, k), part(s, k + pat.len(), n))),
        None => None,
    }
}

/// `s` around the last occurrence of `c`, `None` when there is none.
pub open spec fn rcut(s: Seq<char>, c: char) -> Option<(Seq<char>, Seq<char>)> {
    match rfind_before(s, c, s.len() as int) {
        Some(k) => Some((s.subrange(0, k), s.subrange(k + 1, s.len() as int))),
        None => None,
    }
}

/// Cuts `s` around the last occurrence of `c`.
pub fn rsplit_once<'a>(s: &'a [char], c: char) -> (r: Option<(&'a [char], &'a [char])>)
    ensures
        r matches Some(p) ==> rcut(s@, c) == Some((p.0@, p.1@)),
        r is None ==> rcut(s@, c) is None,
{
    let n: usize = s.len();
    match rfind(s, c) {
        Some(k) => Some((part(s, 0, k), part(s, k + 1, n))),
        None => None,
    }
}

/// The words of `s` from `i` on: its longest runs without white space.
pub open spec fn words_from(s: Seq<char>, i: int) -> Seq<Seq<char>>
    decreases s.len() - i,
{
    let a = skip_spaces(s, i);
    let b = stop_from(s, Seq::empty(), a);
    if 0 <= i <= a < s.len() && a < b <= s.len() {
        seq![s.subrange(a, b)] + words_from(s, b)
    } else {
        seq![]
    }
}

/// The words of `s`.
pub open spec fn words(s: Seq<char>) -> Seq<Seq<char>> {
    words_from(s, 0)
}

/// The word of `s` at index `n`.
pub open spec fn word(s: Seq<char>, n: int) -> Option<Seq<char>> {
    if 0 <= n < words(s).len() {
        Some(words(s)[n])
    } else {
        None
    }
}

/// Splits `s` into its words.
pub fn split_words<'a>(s: &'a [char]) -> (r: Vec<&'a [char]>)
    ensures
        views(r@) == words(s@),
{
    let mut out: Vec<&'a [char]> = Vec::new();
    let mut i: usize = 0;
    let no_stops: [char; 0] = [];
    assert(no_stops@ =~= Seq::<char>::empty());
    assert(views(out@) =~= seq![]);
    loop
        invariant
            i <= s@.len(),
            no_stops@ == Seq::<char>::empty(),
            views(out@) + words_from(s@, i as int) =~= words(s@),
        decreases s.len() - i,
    {
        let ghost i0 = i;
        while i < s.len() && is_whitespace(s[i])
            invariant
                i0 <= i <= s@.len(),
                skip_spaces(s@, i0 as int) == skip_spaces(s@, i as int),
            decreases s.len() - i,
        {
            i = i + 1;
        }
        if i == s.len() {
            assert(words_from(s@, i0 as int) =~= seq![]);
            return out;
        }
        let end = find_stop(s, &no_stops, i);
        proof {
            lemma_stop_from(s@, no_stops@, i + 1);
        }
        let ghost before = out@;
        out.push(part(s, i, end));
        assert(views(out@) =~= views(before).push(s@.subrange(i as int, end as int)));
        i = end;
    }
}

// ---------------------------------------------------------------------
// Lines
// ---------------------------------------------------------------------

/// The first line of `s`: what precedes the first line feed, without the
/// carriage return in front of it.
pub open spec fn first_line(s: Seq<char>) -> Seq<char> {
    match find_from(s, seq!['\n'], 0) {
        Some(k) => if k > 0 && s[k - 1] == '\r' {
            s.subrange(0, k - 1)
        } else {
            s.subrange(0, k)
        },
        None => s,
    }
}

/// See [`first_line`].
pub fn line_one(s: &[char]) -> (r: &[char])
    ensures
        r@ == first_line(s@),
{
    let lf: [char; 1] = ['\n'];
    assert(lf@ =~= seq!['\n']);
    proof {
        lemma_find_from(s@, lf@, 0);
    }
    match find(s, &lf, 0) {
        Some(k) => if k > 0 && s[k - 1] == '\r' {
            part(s, 0, k - 1)
        } else {
            part(s, 0, k)
        },
        None => s,
    }
}

// ---------------------------------------------------------------------
// Numbers
// ---------------------------------------------------------------------

/// The value of `c` as a digit, upper and lower case alike.
pub open spec fn digit_value(c: char, radix: nat) -> Option<nat> {
    let v: int = if '0' <= c <= '9' {
        c as int - '0' as int
    } else if 'a' <= c <= 'z' {
        c as int - 'a' as int + 10
    } else if 'A' <= c <= 'Z' {
        c as int - 'A' as int + 10
    } else {
        1000
    };
    if v < radix {
        Some(v as nat)
    } else {
        None
    }
}

/// The number that `s` writes in `radix`, most significant digit first; `None`
/// when a character is no digit.
pub open spec fn digits_value(s: Seq<char>, radix: nat) -> Option<nat>
    decreases s.len(),
{
    if s.len() == 0 {
        Some(0)
    } else {
        match (digits_value(s.drop_last(), radix), digit_value(s.last(), radix)) {
            (Some(v), Some(d)) => Some(v * radix + d),
            _ => None,
        }
    }
}

/// `s` as an unsigned number up to `max`: at least one digit, with an optional
/// plus sign in front.
pub open spec fn uint_value(s: Seq<char>, radix: nat, max: nat) -> Option<nat> {
    let body = if s.len() > 1 && s[0] == '+' {
        s.subrange(1, s.len() as int)
    } else {
        s
    };
    if body.len() == 0 {
        None
    } else {
        match digits_value(body, radix) {
            Some(v) => if v <= max {
                Some(v)
            } else {
                None
            },
            None => None,
        }
    }
}

proof fn lemma_digits_grow(s: Seq<char>, radix: nat, k: int)
    requires
        0 <= k <= s.len(),
        radix >= 1,
        digits_value(s, radix) is Some,
    ensures
        digits_value(s.take(k), radix) is Some,
        digits_value(s.take(k), radix)->0 <= digits_value(s, radix)->0,
    decreases s.len() - k,
{
    if k == s.len() {
        assert(s.take(k) =~= s);
    } else {
        lemma_digits_grow(s, radix, k + 1);
        assert(s.take(k + 1).drop_last() =~= s.take(k));
        let v = digits_value(s.take(k), radix)->0;
        assert(v * radix >= v) by (nonlinear_arith)
            requires
                radix >= 1,
        ;
    }
}

/// The value of `c` as a digit.
pub fn digit(c: char, radix: u64) -> (r: Option<u64>)
    requires
        radix <= 36,
    ensures
        r matches Some(v) ==> digit_value(c, radix as nat) == Some(v as nat) && v < radix,
        r is None ==> digit_value(c, radix as nat) is None,
{
    let v: u64 = if '0' <= c && c <= '9' {
        (c as u64) - ('0' as u64)
    } else if 'a' <= c && c <= 'z' {
        (c as u64) - ('a' as u64) + 10
    } else if 'A' <= c && c <= 'Z' {
        (c as u64) - ('A' as u64) + 10
    } else {
        1000
    };
    if v < radix {
        Some(v)
    } else {
        None
    }
}

/// Reads an unsigned number; see [`uint_value`].
pub fn parse_uint(s: &[char], radix: u64, max: u64) -> (r: Option<u64>)
    requires
        2 <= radix <= 36,
    ensures
        r matches Some(v) ==> uint_value(s@, radix as nat, max as nat) == Some(v as nat) && v
            <= max,
        r is None ==> uint_value(s@, radix as nat, max as nat) is None,
{
    let body: &[char] = if s.len() > 1 && s[0] == '+' {
        part(s, 1, s.len())
    } else {
        s
    };
    if body.len() == 0 {
        return None;
    }
    let mut acc: u64 = 0;
    let mut i: usize = 0;
    while i < body.len()
        invariant
            i <= body@.len(),
            2 <= radix <= 36,
            acc <= max,
            digits_value(body@.take(i as int), radix as nat) == Some(acc as nat),
            uint_value(s@, radix as nat, max as nat) == (match digits_value(body@, radix as nat) {
                Some(v) => if v <= max {
                    Some(v)
                } else {
                    None
                },
                None => None,
            }),
        decreases body.len() - i,
    {
        proof {
            assert(body@.take(i + 1).drop_last() =~= body@.take(i as int));
            if digits_value(body@, radix as nat) is Some {
                lemma_digits_grow(body@, radix as nat, i + 1);
            }
        }
        match digit(body[i], radix) {
            Some(d) => {
                proof {
                    lemma_room(acc as int, radix as int, max as int);
                }
                if acc > max / radix {
                    return None;
                }
                let scaled: u64 = acc * radix;
                if d > max - scaled {
                    return None;
                }
                acc = scaled + d;
            },
            None => {
                return None;
            },
        }
        i = i + 1;
    }
    assert(body@.take(body@.len() as int) =~= body@);
    Some(acc)
}

proof fn lemma_room(acc: int, radix: int, max: int)
    by (nonlinear_arith)
    requires
        0 <= acc,
        2 <= radix,
        0 <= max,
    ensures
        acc > max / radix ==> acc * radix > max,
        acc <= max / radix ==> acc * radix <= max,
{
}

/// The digit that writes `d`.
pub open spec fn digit_char(d: nat) -> char {
    if d < 10 {
        ('0' as u32 + d) as char
    } else {
        ('a' as u32 + (d - 10)) as char
    }
}

/// `n` written in `radix`, without leading zeros.
pub open spec fn written(n: nat, radix: nat) -> Seq<char>
    decreases n,
{
    if radix < 2 {
        seq![]
    } else if n < radix {
        seq![digit_char(n)]
    } else {
        proof {
            assert(n / radix < n) by (nonlinear_arith)
                requires
                    n >= radix,
                    radix >= 2,
            ;
        }
        written(n / radix, radix).push(digit_char(n % radix))
    }
}

/// `n` in decimal.
pub open spec fn decimal(n: nat) -> Seq<char> {
    written(n, 10)
}

/// `n` in lower-case hexadecimal, padded with zeros to `width`.
pub open spec fn padded_hex(n: nat, width: nat) -> Seq<char> {
    let w = written(n, 16);
    if w.len() >= width {
        w
    } else {
        Seq::new((width - w.len()) as nat, |i: int| '0') + w
    }
}

/// A written number reads back as the number.
pub proof fn lemma_written_value(n: nat, radix: nat)
    requires
        2 <= radix <= 16,
    ensures
        digits_value(written(n, radix), radix) == Some(n),
        written(n, radix).len() > 0,
    decreases n,
{
    if n < radix {
        assert(written(n, radix).drop_last() =~= seq![]);
        assert(digits_value(seq![], radix) == Some(0nat));
        assert(0 * radix + n == n);
    } else {
        assert(n / radix < n && (n / radix) * radix + n % radix == n && n % radix < radix) by (nonlinear_arith)
            requires
                n >= radix,
                radix >= 2,
        ;
        lemma_written_value(n / radix, radix);
        assert(written(n, radix).drop_last() =~= written(n / radix, radix));
    }
}

/// Leading zeros do not change a number.
proof fn lemma_zeros_value(zeros: nat, s: Seq<char>, radix: nat)
    requires
        2 <= radix,
        digits_value(s, radix) is Some,
    ensures
        digits_value(Seq::new(zeros, |i: int| '0') + s, radix) == digits_value(s, radix),
    decreases zeros + s.len(),
{
    let pad = Seq::new(zeros, |i: int| '0');
    if s.len() > 0 {
        lemma_zeros_value(zeros, s.drop_last(), radix);
        assert((pad + s).drop_last() =~= pad + s.drop_last());
    } else if zeros > 0 {
        let less = (zeros - 1) as nat;
        lemma_zeros_value(less, s, radix);
        assert((pad + s).drop_last() =~= Seq::new(less, |i: int| '0') + s);
        assert(0 * radix + 0 == 0);
    } else {
        assert(pad + s =~= s);
    }
}

/// A padded hexadecimal number reads back as the number.
pub proof fn lemma_padded_hex_value(n: nat, width: nat)
    ensures
        digits_value(padded_hex(n, width), 16) == Some(n),
        padded_hex(n, width).len() >= width,
{
    lemma_written_value(n, 16);
    let w = written(n, 16);
    if w.len() < width {
        lemma_zeros_value((width - w.len()) as nat, w, 16);
    }
}

/// A hexadecimal number has as many digits as its size calls for.
proof fn lemma_written_len(n: nat, k: nat)
    requires
        k >= 1,
        n < pow(16, k),
    ensures
        written(n, 16).len() <= k,
    decreases k,
{
    if n >= 16 {
        let less = (k - 1) as nat;
        reveal_with_fuel(pow, 2);
        assert(k >= 2) by {
            if k == 1 {
                assert(pow(16, 1) == 16);
            }
        }
        assert(pow(16, k) == 16 * pow(16, less));
        assert(n / 16 < pow(16, less));
        lemma_written_len(n / 16, less);
    }
}

/// A number below 2^32 takes 8 hexadecimal digits when padded to 8, and one
/// below 2^64 takes 16 when padded to 16.
pub proof fn lemma_padded_hex_len(n: nat)
    ensures
        n <= u32::MAX ==> padded_hex(n, 8).len() == 8,
        n <= u64::MAX ==> padded_hex(n, 16).len() == 16,
{
    assert(pow(16, 8) == 0x1_0000_0000 && pow(16, 16) == 0x1_0000_0000_0000_0000) by {
        reveal_with_fuel(pow, 17);
    }
    if n <= u32::MAX {
        lemma_written_len(n, 8);
    }
    if n <= u64::MAX {
        lemma_written_len(n, 16);
    }
}

fn write_char(d: u64) -> (r: char)
    requires
        d < 16,
    ensures
        r == digit_char(d as nat),
{
    if d < 10 {
        (48 + d as u8) as char
    } else {
        (87 + d as u8) as char
    }
}

/// `n` written in `radix`.
pub fn write_uint(n: u64, radix: u64) -> (r: Vec<char>)
    requires
        2 <= radix <= 16,
    ensures
        r@ == written(n as nat, radix as nat),
        r@.len() >= 1,
    decreases n,
{
    if n < radix {
        let mut v: Vec<char> = Vec::new();
        v.push(write_char(n));
        v
    } else {
        proof {
            assert(n / radix < n) by (nonlinear_arith)
                requires
                    n >= radix,
                    radix >= 2,
            ;
        }
        let mut v = write_uint(n / radix, radix);
        v.push(write_char(n % radix));
        v
    }
}

/// `n` in decimal.
pub fn decimal_string(n: u64) -> (r: String)
    ensures
        r@ == decimal(n as nat),
{
    let v = write_uint(n, 10);
    to_string(&v)
}

/// `n` in lower-case hexadecimal, padded with zeros to `width`.
pub fn hex_string(n: u64, width: usize) -> (r: String)
    ensures
        r@ == padded_hex(n as nat, width as nat),
{
    let w = write_uint(n, 16);
    let mut out: String = String::new();
    if w.len() < width {
        let pad: usize = width - w.len();
        let mut i: usize = 0;
        while i < pad
            invariant
                i <= pad,
                out@ =~= Seq::new(i as nat, |k: int| '0'),
            decreases pad - i,
        {
            out.push('0');
            i = i + 1;
        }
    }
    let tail = to_string(&w);
    out.append(&tail);
    proof {
        assert(out@ =~= padded_hex(n as nat, width as nat));
    }
    out
}

} // verus!
