//! What the text primitives amount to: each is fixed by how it treats a text
//! that is put together from known parts.

use vstd::prelude::*;

use super::{
    any_from, back_spaces, before_any, cut, decimal, digit_value, digits_value, find_from,
    first_line, is_space, lemma_find_from, lemma_rfind_before, lemma_stop_from, lemma_written_value,
    occurs_at, padded_hex, rcut, rfind_before, same_ignoring_case, skip_spaces, split, split_from,
    stop_from, trimmed, uint_value, words, words_from, written,
};

verus! {

/// `s` holds no white space.
pub open spec fn spaceless(s: Seq<char>) -> bool {
    forall|i: int| 0 <= i < s.len() ==> !is_space(#[trigger] s[i])
}

/// `s` holds nothing but white space.
pub open spec fn blank(s: Seq<char>) -> bool {
    forall|i: int| 0 <= i < s.len() ==> is_space(#[trigger] s[i])
}

/// `s` has neither leading nor trailing white space.
pub open spec fn tight(s: Seq<char>) -> bool {
    s.len() > 0 ==> !is_space(s[0]) && !is_space(s.last())
}

/// `a` holds no `pat`, nor does one begin in `a` when `pat` follows it.
pub open spec fn clear_of(a: Seq<char>, pat: Seq<char>) -> bool {
    forall|i: int| 0 <= i < a.len() ==> !#[trigger] occurs_at(a + pat, pat, i)
}

// ---------------------------------------------------------------------
// Trimming
// ---------------------------------------------------------------------

proof fn lemma_skip(s: Seq<char>, i: int, k: int)
    requires
        0 <= i <= k <= s.len(),
        forall|j: int| i <= j < k ==> is_space(#[trigger] s[j]),
        k < s.len() ==> !is_space(s[k]),
    ensures
        skip_spaces(s, i) == k,
    decreases k - i,
{
    if i < k {
        lemma_skip(s, i + 1, k);
    }
}

proof fn lemma_back(s: Seq<char>, i: int, k: int)
    requires
        0 <= k <= i <= s.len(),
        forall|j: int| k <= j < i ==> is_space(#[trigger] s[j]),
        k > 0 ==> !is_space(s[k - 1]),
    ensures
        back_spaces(s, i) == k,
    decreases i - k,
{
    if k < i {
        lemma_back(s, i - 1, k);
    }
}

/// Trimming takes off exactly the white space around a text.
pub proof fn trimming_takes_off_the_blanks(a: Seq<char>, core: Seq<char>, b: Seq<char>)
    requires
        blank(a),
        blank(b),
        tight(core),
    ensures
        trimmed(a + core + b) == core,
{
    let s = a + core + b;
    assert forall|j: int| 0 <= j < a.len() implies is_space(#[trigger] s[j]) by {
        assert(s[j] == a[j]);
    }
    assert forall|j: int| a.len() + core.len() <= j < s.len() implies is_space(#[trigger] s[j]) by {
        assert(s[j] == b[j - a.len() - core.len()]);
    }
    if core.len() > 0 {
        assert(s[a.len() as int] == core[0]);
        assert(s[a.len() + core.len() - 1] == core.last());
        lemma_skip(s, 0, a.len() as int);
        lemma_back(s, s.len() as int, (a.len() + core.len()) as int);
        assert(s.subrange(a.len() as int, (a.len() + core.len()) as int) =~= core);
    } else {
        lemma_skip(s, 0, s.len() as int);
        lemma_back(s, s.len() as int, 0);
        assert(core =~= Seq::empty());
    }
}

/// A text without white space around it is its own trimmed form.
pub proof fn tight_texts_stay(s: Seq<char>)
    requires
        tight(s),
    ensures
        trimmed(s) == s,
{
    trimming_takes_off_the_blanks(Seq::empty(), s, Seq::empty());
    assert(Seq::empty() + s + Seq::empty() =~= s);
}

// ---------------------------------------------------------------------
// Cutting and splitting
// ---------------------------------------------------------------------

proof fn lemma_occurs_in_front(a: Seq<char>, pat: Seq<char>, b: Seq<char>, i: int)
    requires
        0 <= i <= a.len(),
    ensures
        occurs_at(a + pat + b, pat, i) == occurs_at(a + pat, pat, i),
{
    if i + pat.len() <= (a + pat).len() {
        assert((a + pat + b).subrange(i, i + pat.len()) =~= (a + pat).subrange(i, i + pat.len()));
    }
}

proof fn lemma_find_is(s: Seq<char>, pat: Seq<char>, i: int, k: int)
    requires
        0 <= i <= k,
        occurs_at(s, pat, k),
        forall|j: int| i <= j < k ==> !#[trigger] occurs_at(s, pat, j),
    ensures
        find_from(s, pat, i) == Some(k),
{
    lemma_find_from(s, pat, i);
}

proof fn lemma_first(a: Seq<char>, pat: Seq<char>, b: Seq<char>)
    requires
        clear_of(a, pat),
    ensures
        find_from(a + pat + b, pat, 0) == Some(a.len() as int),
{
    let s = a + pat + b;
    assert(s.subrange(a.len() as int, (a.len() + pat.len()) as int) =~= pat);
    assert forall|j: int| 0 <= j < a.len() implies !#[trigger] occurs_at(s, pat, j) by {
        lemma_occurs_in_front(a, pat, b, j);
    }
    lemma_find_is(s, pat, 0, a.len() as int);
}

/// A cut divides a text at the first occurrence of the separator.
pub proof fn cuts_divide_at_the_first(a: Seq<char>, pat: Seq<char>, b: Seq<char>)
    requires
        clear_of(a, pat),
    ensures
        cut(a + pat + b, pat) == Some((a, b)),
{
    let s = a + pat + b;
    lemma_first(a, pat, b);
    assert(s.subrange(0, a.len() as int) =~= a);
    assert(s.subrange((a.len() + pat.len()) as int, s.len() as int) =~= b);
}

/// There is no cut exactly when the separator does not occur.
pub proof fn cuts_need_the_separator(s: Seq<char>, pat: Seq<char>)
    ensures
        cut(s, pat) is None <==> forall|i: int| 0 <= i ==> !#[trigger] occurs_at(s, pat, i),
{
    lemma_find_from(s, pat, 0);
}

/// A single character occurs in a text where it stands.
pub proof fn characters_occur(s: Seq<char>, c: char, i: int)
    ensures
        occurs_at(s, seq![c], i) <==> 0 <= i < s.len() && s[i] == c,
{
    if 0 <= i < s.len() {
        assert(s.subrange(i, i + 1)[0] == s[i]);
        if s[i] == c {
            assert(s.subrange(i, i + 1) =~= seq![c]);
        }
    }
}

/// A text without the character `c` is clear of it.
pub proof fn lemma_clear_of_char(a: Seq<char>, c: char)
    requires
        !a.contains(c),
    ensures
        clear_of(a, seq![c]),
{
    assert forall|i: int| 0 <= i < a.len() implies !#[trigger] occurs_at(a + seq![c], seq![c], i) by {
        characters_occur(a + seq![c], c, i);
        assert(a.contains(a[i]));
    }
}

/// A line is cut at its first colon.
pub proof fn lemma_colon(line: Seq<char>, c: int)
    requires
        0 <= c < line.len(),
        line[c] == ':',
        !line.subrange(0, c).contains(':'),
    ensures
        cut(line, seq![':']) == Some(
            (line.subrange(0, c), line.subrange(c + 1, line.len() as int)),
        ),
{
    let a = line.subrange(0, c);
    let b = line.subrange(c + 1, line.len() as int);
    lemma_clear_of_char(a, ':');
    cuts_divide_at_the_first(a, seq![':'], b);
    assert(a + seq![':'] + b =~= line);
}

/// A cut from the end divides a text at the last occurrence of the character;
/// there is none exactly when the character does not occur.
pub proof fn cuts_from_the_end_divide_at_the_last(a: Seq<char>, c: char, b: Seq<char>)
    requires
        !b.contains(c),
    ensures
        rcut(a + seq![c] + b, c) == Some((a, b)),
        rcut(b, c) is None,
{
    let s = a + seq![c] + b;
    lemma_rfind_before(s, c, s.len() as int);
    lemma_rfind_before(b, c, b.len() as int);
    assert(s[a.len() as int] == c);
    let k = rfind_before(s, c, s.len() as int);
    assert(k is Some);
    if k->0 > a.len() {
        assert(s[k->0] == b[k->0 - a.len() - 1]);
        assert(b.contains(c));
    }
    assert(s.subrange(0, a.len() as int) =~= a);
    assert(s.subrange((a.len() + 1) as int, s.len() as int) =~= b);
    if rfind_before(b, c, b.len() as int) is Some {
        assert(b.contains(b[rfind_before(b, c, b.len() as int)->0]));
    }
}

proof fn lemma_find_shift(s: Seq<char>, pat: Seq<char>, i: int, k: int)
    requires
        0 <= k <= i <= s.len(),
    ensures
        find_from(s, pat, i) == (match find_from(s.subrange(k, s.len() as int), pat, i - k) {
            Some(j) => Some(j + k),
            None => None,
        }),
    decreases s.len() + 1 - i,
{
    let t = s.subrange(k, s.len() as int);
    if i + pat.len() <= s.len() {
        assert(s.subrange(i, i + pat.len()) =~= t.subrange(i - k, i - k + pat.len()));
        assert(occurs_at(s, pat, i) == occurs_at(t, pat, i - k));
        if !occurs_at(s, pat, i) && i < s.len() {
            lemma_find_shift(s, pat, i + 1, k);
        }
    }
}

proof fn lemma_split_shift(s: Seq<char>, pat: Seq<char>, i: int, k: int)
    requires
        0 <= k <= i <= s.len(),
        pat.len() > 0,
    ensures
        split_from(s, pat, i) == split_from(s.subrange(k, s.len() as int), pat, i - k),
    decreases s.len() - i,
{
    let t = s.subrange(k, s.len() as int);
    lemma_find_shift(s, pat, i, k);
    lemma_find_from(s, pat, i);
    match find_from(s, pat, i) {
        Some(j) => {
            lemma_split_shift(s, pat, j + pat.len(), k);
            assert(s.subrange(i, j) =~= t.subrange(i - k, j - k));
            assert(j + pat.len() - k == j - k + pat.len());
        },
        None => {
            assert(s.subrange(i, s.len() as int) =~= t.subrange(i - k, t.len() as int));
        },
    }
}

/// A split goes on behind the first separator: what precedes it is the first
/// part, and the parts of the rest follow.
pub proof fn splits_peel_off(a: Seq<char>, pat: Seq<char>, b: Seq<char>)
    requires
        pat.len() > 0,
        clear_of(a, pat),
    ensures
        split(a + pat + b, pat) == seq![a] + split(b, pat),
{
    let s = a + pat + b;
    let k = (a.len() + pat.len()) as int;
    lemma_first(a, pat, b);
    assert(s.subrange(0, a.len() as int) =~= a);
    assert(s.subrange(k, s.len() as int) =~= b);
    lemma_split_shift(s, pat, k, k);
}

/// A text without the separator is not split.
pub proof fn splits_need_the_separator(s: Seq<char>, pat: Seq<char>)
    requires
        forall|i: int| 0 <= i ==> !#[trigger] occurs_at(s, pat, i),
    ensures
        split(s, pat) == seq![s],
{
    lemma_find_from(s, pat, 0);
    assert(s.subrange(0, s.len() as int) =~= s);
}

proof fn lemma_any(s: Seq<char>, stops: Seq<char>, i: int, k: int)
    requires
        0 <= i <= k <= s.len(),
        forall|j: int| i <= j < k ==> !stops.contains(#[trigger] s[j]),
        k < s.len() ==> stops.contains(s[k]),
    ensures
        any_from(s, stops, i) == k,
    decreases k - i,
{
    if i < k {
        lemma_any(s, stops, i + 1, k);
    }
}

/// What precedes the first of some characters ends right before it, and is the
/// whole text where there is none.
pub proof fn prefixes_end_at_the_first_stop(a: Seq<char>, b: Seq<char>, stops: Seq<char>)
    requires
        forall|i: int| 0 <= i < a.len() ==> !stops.contains(#[trigger] a[i]),
        b.len() > 0 ==> stops.contains(b[0]),
    ensures
        before_any(a + b, stops) == a,
{
    let s = a + b;
    assert forall|j: int| 0 <= j < a.len() implies !stops.contains(#[trigger] s[j]) by {
        assert(s[j] == a[j]);
    }
    if b.len() > 0 {
        assert(s[a.len() as int] == b[0]);
    }
    lemma_any(s, stops, 0, a.len() as int);
    assert(s.subrange(0, a.len() as int) =~= a);
}

/// The first line ends at the first line feed, and does not hold the carriage
/// return in front of it.
pub proof fn first_lines_end_at_the_line_feed(a: Seq<char>, b: Seq<char>)
    requires
        !a.contains('\n'),
    ensures
        first_line(a + seq!['\r', '\n'] + b) == a,
        a.len() == 0 || a.last() != '\r' ==> first_line(a + seq!['\n'] + b) == a,
        first_line(a) == a,
{
    let s = a + seq!['\r', '\n'] + b;
    let cr = a.push('\r');
    assert(cr + seq!['\n'] + b =~= s);
    assert(!cr.contains('\n'));
    lemma_clear_of_char(cr, '\n');
    lemma_first(cr, seq!['\n'], b);
    assert(s[a.len() as int] == '\r');
    assert(s.subrange(0, a.len() as int) =~= a);
    let t = a + seq!['\n'] + b;
    lemma_clear_of_char(a, '\n');
    lemma_first(a, seq!['\n'], b);
    if a.len() > 0 {
        assert(t[a.len() - 1] == a.last());
    }
    assert(t.subrange(0, a.len() as int) =~= a);
    lemma_find_from(a, seq!['\n'], 0);
    if find_from(a, seq!['\n'], 0) is Some {
        characters_occur(a, '\n', find_from(a, seq!['\n'], 0)->0);
        assert(a.contains(a[find_from(a, seq!['\n'], 0)->0]));
    }
}

// ---------------------------------------------------------------------
// Words
// ---------------------------------------------------------------------

proof fn lemma_stop_is(s: Seq<char>, i: int, k: int)
    requires
        0 <= i <= k <= s.len(),
        forall|j: int| i <= j < k ==> !is_space(#[trigger] s[j]),
        k < s.len() ==> is_space(s[k]),
    ensures
        stop_from(s, Seq::empty(), i) == k,
    decreases k - i,
{
    if i < k {
        lemma_stop_is(s, i + 1, k);
    }
}

proof fn lemma_skip_shift(s: Seq<char>, i: int, k: int)
    requires
        0 <= k <= i <= s.len(),
    ensures
        skip_spaces(s, i) == skip_spaces(s.subrange(k, s.len() as int), i - k) + k,
    decreases s.len() - i,
{
    if i < s.len() {
        assert(s.subrange(k, s.len() as int)[i - k] == s[i]);
        lemma_skip_shift(s, i + 1, k);
    }
}

proof fn lemma_stop_shift(s: Seq<char>, i: int, k: int)
    requires
        0 <= k <= i <= s.len(),
    ensures
        stop_from(s, Seq::empty(), i) == stop_from(
            s.subrange(k, s.len() as int),
            Seq::empty(),
            i - k,
        ) + k,
    decreases s.len() - i,
{
    if i < s.len() {
        assert(s.subrange(k, s.len() as int)[i - k] == s[i]);
        lemma_stop_shift(s, i + 1, k);
    }
}

proof fn lemma_skip_bounds(s: Seq<char>, i: int)
    requires
        0 <= i <= s.len(),
    ensures
        i <= skip_spaces(s, i) <= s.len(),
    decreases s.len() - i,
{
    if i < s.len() {
        lemma_skip_bounds(s, i + 1);
    }
}

proof fn lemma_words_shift(s: Seq<char>, i: int, k: int)
    requires
        0 <= k <= i <= s.len(),
    ensures
        words_from(s, i) == words_from(s.subrange(k, s.len() as int), i - k),
    decreases s.len() - i,
{
    let t = s.subrange(k, s.len() as int);
    let a = skip_spaces(s, i);
    lemma_skip_shift(s, i, k);
    lemma_skip_bounds(s, i);
    lemma_stop_shift(s, a, k);
    let b = stop_from(s, Seq::empty(), a);
    lemma_stop_from(s, Seq::empty(), a);
    if a < s.len() && a < b {
        lemma_words_shift(s, b, k);
        assert(s.subrange(a, b) =~= t.subrange(a - k, b - k));
    }
}

/// A text's first word stands behind its leading white space and ends at the
/// next; the words of the rest follow.
pub proof fn words_peel_off(a: Seq<char>, w: Seq<char>, b: Seq<char>)
    requires
        blank(a),
        spaceless(w),
        w.len() > 0,
        b.len() > 0 ==> is_space(b[0]),
    ensures
        words(a + w + b) == seq![w] + words(b),
{
    let s = a + w + b;
    let k = (a.len() + w.len()) as int;
    assert forall|j: int| 0 <= j < a.len() implies is_space(#[trigger] s[j]) by {
        assert(s[j] == a[j]);
    }
    assert forall|j: int| a.len() <= j < k implies !is_space(#[trigger] s[j]) by {
        assert(s[j] == w[j - a.len()]);
    }
    if b.len() > 0 {
        assert(s[k] == b[0]);
    }
    lemma_skip(s, 0, a.len() as int);
    lemma_stop_is(s, a.len() as int, k);
    assert(s.subrange(a.len() as int, k) =~= w);
    lemma_words_shift(s, k, k);
    assert(s.subrange(k, s.len() as int) =~= b);
}

/// White space holds no word.
pub proof fn blanks_hold_no_word(s: Seq<char>)
    requires
        blank(s),
    ensures
        words(s).len() == 0,
{
    lemma_skip(s, 0, s.len() as int);
}

// ---------------------------------------------------------------------
// Case
// ---------------------------------------------------------------------

/// Two texts are equal up to case exactly when they are of one length and each
/// pair of characters is equal, or is the upper- and lower-case form of one
/// ASCII letter.
pub proof fn case_is_that_of_ascii_letters(a: Seq<char>, b: Seq<char>)
    ensures
        same_ignoring_case(a, b) <==> a.len() == b.len() && forall|i: int|
            0 <= i < a.len() ==> {
                ||| #[trigger] a[i] == b[i]
                ||| 'A' <= a[i] <= 'Z' && b[i] as u32 == a[i] as u32 + 32
                ||| 'A' <= b[i] <= 'Z' && a[i] as u32 == b[i] as u32 + 32
            },
{
    let la = super::lowered(a);
    let lb = super::lowered(b);
    if same_ignoring_case(a, b) {
        assert(la.len() == lb.len());
        assert forall|i: int| 0 <= i < a.len() implies {
            ||| #[trigger] a[i] == b[i]
            ||| 'A' <= a[i] <= 'Z' && b[i] as u32 == a[i] as u32 + 32
            ||| 'A' <= b[i] <= 'Z' && a[i] as u32 == b[i] as u32 + 32
        } by {
            assert(la[i] == lb[i]);
        }
    }
    if a.len() == b.len() && forall|i: int|
        0 <= i < a.len() ==> {
            ||| #[trigger] a[i] == b[i]
            ||| 'A' <= a[i] <= 'Z' && b[i] as u32 == a[i] as u32 + 32
            ||| 'A' <= b[i] <= 'Z' && a[i] as u32 == b[i] as u32 + 32
        } {
        assert forall|i: int| 0 <= i < a.len() implies la[i] == lb[i] by {
            let x = a[i];
        }
        assert(la =~= lb);
    }
}

/// Upper case changes the lower-case ASCII letters, each to its own upper-case
/// form, and nothing else; lower case the other way round.
pub proof fn case_changes_letters_only(s: Seq<char>, i: int)
    requires
        0 <= i < s.len(),
    ensures
        super::uppered(s).len() == s.len(),
        super::lowered(s).len() == s.len(),
        'a' <= s[i] <= 'z' ==> super::uppered(s)[i] as u32 + 32 == s[i] as u32,
        !('a' <= s[i] <= 'z') ==> super::uppered(s)[i] == s[i],
        'A' <= s[i] <= 'Z' ==> super::lowered(s)[i] as u32 == s[i] as u32 + 32,
        !('A' <= s[i] <= 'Z') ==> super::lowered(s)[i] == s[i],
{
}

// ---------------------------------------------------------------------
// Numbers
// ---------------------------------------------------------------------

proof fn lemma_written_digits(n: nat, radix: nat, i: int)
    requires
        2 <= radix <= 16,
        0 <= i < written(n, radix).len(),
    ensures
        '0' <= written(n, radix)[i] <= '9' || 'a' <= written(n, radix)[i] <= 'f',
        radix == 10 ==> '0' <= written(n, radix)[i] <= '9',
        n > 0 ==> written(n, radix)[0] != '0',
    decreases n,
{
    if n >= radix {
        assert(0 < n / radix < n && n % radix < radix) by (nonlinear_arith)
            requires
                n >= radix,
                radix >= 2,
        ;
        lemma_written_value(n / radix, radix);
        let head = written(n / radix, radix);
        assert(written(n, radix) =~= head.push(super::digit_char(n % radix)));
        lemma_written_digits(n / radix, radix, 0);
        assert(written(n, radix)[0] == head[0]);
        if i < head.len() {
            lemma_written_digits(n / radix, radix, i);
        }
    }
}

/// A number in decimal reads back as the number, up to the limit and not above
/// it. It is written in digits, without a leading zero unless it is 0.
pub proof fn decimals_read_back(n: nat, max: nat)
    ensures
        n <= max ==> uint_value(decimal(n), 10, max) == Some(n),
        n > max ==> uint_value(decimal(n), 10, max) is None,
        decimal(n).len() > 0,
        forall|i: int| 0 <= i < decimal(n).len() ==> '0' <= #[trigger] decimal(n)[i] <= '9',
        n > 0 ==> decimal(n)[0] != '0',
{
    lemma_written_value(n, 10);
    assert forall|i: int| 0 <= i < decimal(n).len() implies '0' <= #[trigger] decimal(n)[i]
        <= '9' by {
        lemma_written_digits(n, 10, i);
    }
    lemma_written_digits(n, 10, 0);
}

/// A number that is padded in hexadecimal reads back as the number, and has no
/// less than the width asked for.
pub proof fn padded_hex_reads_back(n: nat, width: nat, max: nat)
    requires
        n <= max,
    ensures
        uint_value(padded_hex(n, width), 16, max) == Some(n),
        padded_hex(n, width).len() >= width,
{
    super::lemma_padded_hex_value(n, width);
    lemma_written_value(n, 16);
    let w = written(n, 16);
    lemma_written_digits(n, 16, 0);
    assert(padded_hex(n, width)[0] != '+') by {
        if w.len() >= width {
            assert(padded_hex(n, width)[0] == w[0]);
        } else {
            assert(padded_hex(n, width)[0] == '0');
        }
    }
}

/// One more digit multiplies a number by the radix and adds the digit's value.
pub proof fn digits_weigh_by_place(s: Seq<char>, c: char, radix: nat)
    ensures
        digits_value(s.push(c), radix) is Some <==> digits_value(s, radix) is Some && digit_value(
            c,
            radix,
        ) is Some,
        digits_value(s.push(c), radix) is Some ==> digits_value(s.push(c), radix)->0
            == digits_value(s, radix)->0 * radix + digit_value(c, radix)->0,
        digits_value(Seq::empty(), radix) == Some(0nat),
{
    assert(s.push(c).drop_last() =~= s);
}

/// A number is one digit or more, behind at most one plus sign.
pub proof fn numbers_are_digits(s: Seq<char>, max: nat, i: int)
    requires
        uint_value(s, 10, max) is Some,
        0 <= i < s.len(),
    ensures
        '0' <= s[i] <= '9' || (i == 0 && s[0] == '+' && s.len() > 1),
{
    let body = if s.len() > 1 && s[0] == '+' {
        s.subrange(1, s.len() as int)
    } else {
        s
    };
    if s.len() > 1 && s[0] == '+' {
        if i > 0 {
            lemma_digits_all(body, i - 1);
            assert(body[i - 1] == s[i]);
        }
    } else {
        lemma_digits_all(body, i);
    }
}

proof fn lemma_digits_all(s: Seq<char>, i: int)
    requires
        digits_value(s, 10) is Some,
        0 <= i < s.len(),
    ensures
        '0' <= s[i] <= '9',
    decreases s.len(),
{
    if i < s.len() - 1 {
        lemma_digits_all(s.drop_last(), i);
        assert(s.drop_last()[i] == s[i]);
    }
}

/// A digit counts from 0 to 9 and on from `a`, in either case, below the radix;
/// any other character is no digit.
pub proof fn digits_have_their_value(c: char, radix: nat)
    requires
        radix <= 36,
    ensures
        '0' <= c <= '9' && (c as u32) - ('0' as u32) < radix ==> digit_value(c, radix) == Some(
            (c as u32 - '0' as u32) as nat,
        ),
        'a' <= c <= 'z' && c as u32 - 'a' as u32 + 10 < radix ==> digit_value(c, radix) == Some(
            (c as u32 - 'a' as u32 + 10) as nat,
        ),
        'A' <= c <= 'Z' && c as u32 - 'A' as u32 + 10 < radix ==> digit_value(c, radix) == Some(
            (c as u32 - 'A' as u32 + 10) as nat,
        ),
        !('0' <= c <= '9') && !('a' <= c <= 'z') && !('A' <= c <= 'Z') ==> digit_value(
            c,
            radix,
        ) is None,
        digit_value(c, radix) matches Some(v) ==> v < radix,
{
}

/// A plus sign in front of a number makes no difference; alone it is none, and
/// neither is nothing.
pub proof fn signs_make_no_difference(n: nat, max: nat)
    ensures
        n <= max ==> uint_value("+"@ + decimal(n), 10, max) == Some(n),
        uint_value("+"@, 10, max) is None,
        uint_value(Seq::empty(), 10, max) is None,
{
    reveal_strlit("+");
    decimals_read_back(n, max);
    let s = "+"@ + decimal(n);
    assert(s.subrange(1, s.len() as int) =~= decimal(n));
    let plus = "+"@;
    assert(plus.len() == 1 && plus[0] == '+');
    assert(plus.drop_last() =~= Seq::empty());
    assert(digit_value('+', 10) is None);
    assert(digits_value(plus, 10) is None);
}

/// Of the ASCII characters, white space is the blank, the tab and the line
/// breaks; further ones are those that Unicode calls white space.
pub proof fn white_space_is(c: char)
    ensures
        c as u32 <= 127 ==> (is_space(c) <==> c == ' ' || c == '\t' || c == '\n' || c == '\r' || c
            == '\u{b}' || c == '\u{c}'),
        is_space('\u{85}') && is_space('\u{a0}') && is_space('\u{1680}') && is_space('\u{2028}')
            && is_space('\u{2029}') && is_space('\u{202f}') && is_space('\u{205f}') && is_space(
            '\u{3000}',
        ),
        0x2000 <= c as u32 <= 0x200a ==> is_space(c),
{
}

} // verus!
