//! Message framing on byte streams (RFC 3261 section 7.5).
//!
//! The headers end at the first empty line; `Content-Length` tells how many
//! bytes of body follow.

use vstd::prelude::*;

use crate::text;
use crate::text::laws::{
    blank, case_is_that_of_ascii_letters, characters_occur, decimals_read_back, lemma_colon,
    tight_texts_stay, trimming_takes_off_the_blanks,
};

verus! {

/// Cap on one message.
pub const MAX_MESSAGE_BYTES: usize = 65_535;

/// What came of the attempt to take a message off a buffer.
#[derive(Debug)]
pub enum FrameOutcome {
    /// One message; the buffer now begins with the next.
    Complete(Vec<u8>),
    /// More bytes are needed.
    Partial,
    /// The message exceeds the cap, or there are more bytes than the cap and
    /// the headers still do not end.
    Overflow,
    /// `Content-Length` cannot be read.
    BadLength,
}

/// Model of a [`FrameOutcome`].
#[verifier::ext_equal]
pub enum FrameView {
    Complete(Seq<u8>),
    Partial,
    Overflow,
    BadLength,
}

impl View for FrameOutcome {
    type V = FrameView;

    open spec fn view(&self) -> FrameView {
        match *self {
            FrameOutcome::Complete(b) => FrameView::Complete(b@),
            FrameOutcome::Partial => FrameView::Partial,
            FrameOutcome::Overflow => FrameView::Overflow,
            FrameOutcome::BadLength => FrameView::BadLength,
        }
    }
}

/// An empty line ends the line before position `i + 2`.
pub open spec fn blank_at(b: Seq<u8>, i: int) -> bool {
    0 <= i && i + 4 <= b.len() && b[i] == 13 && b[i + 1] == 10 && b[i + 2] == 13 && b[i + 3] == 10
}

/// The first empty line at or after `i`.
pub open spec fn blank_from(b: Seq<u8>, i: int) -> Option<int>
    decreases b.len() - i,
{
    if i < 0 || i + 4 > b.len() {
        None
    } else if blank_at(b, i) {
        Some(i)
    } else {
        blank_from(b, i + 1)
    }
}

/// The length that the first `Content-Length` line states, from line `i` on; 0
/// without one, `None` when it is no number.
pub open spec fn length_from(lines: Seq<Seq<char>>, i: int) -> Option<nat>
    decreases lines.len() - i,
{
    if i < 0 || i >= lines.len() {
        Some(0)
    } else {
        match text::cut(lines[i], seq![':']) {
            Some(p) => if text::same_ignoring_case(text::trimmed(p.0), "Content-Length"@)
                || text::same_ignoring_case(text::trimmed(p.0), "l"@) {
                text::uint_value(text::trimmed(p.1), 10, usize::MAX as nat)
            } else {
                length_from(lines, i + 1)
            },
            None => length_from(lines, i + 1),
        }
    }
}

/// The body length that a header block states.
pub open spec fn body_length(headers: Seq<u8>) -> Option<nat> {
    match text::utf8_text(headers) {
        Some(t) => length_from(text::split(t, "\r\n"@), 0),
        None => None,
    }
}

/// What the front of a buffer holds. The cap is on one message, not on the
/// buffer: whatever follows a complete message waits its turn.
pub open spec fn frame(b: Seq<u8>) -> FrameView {
    match blank_from(b, 0) {
        None => if b.len() > MAX_MESSAGE_BYTES {
            FrameView::Overflow
        } else {
            FrameView::Partial
        },
        Some(end) => match body_length(b.subrange(0, end)) {
            None => FrameView::BadLength,
            Some(n) => if end + 4 + n > MAX_MESSAGE_BYTES {
                FrameView::Overflow
            } else if b.len() < end + 4 + n {
                FrameView::Partial
            } else {
                FrameView::Complete(b.subrange(0, (end + 4 + n) as int))
            },
        },
    }
}

/// The buffer once its front message, if it is complete, was taken.
pub open spec fn unframed(b: Seq<u8>) -> Seq<u8> {
    match frame(b) {
        FrameView::Complete(m) => b.subrange(m.len() as int, b.len() as int),
        _ => b,
    }
}

fn find_double_crlf(b: &Vec<u8>) -> (r: Option<usize>)
    ensures
        match r {
            Some(i) => blank_from(b@, 0) == Some(i as int) && i + 4 <= b@.len(),
            None => blank_from(b@, 0) is None,
        },
{
    let n: usize = b.len();
    if n < 4 {
        return None;
    }
    let mut i: usize = 0;
    while i <= n - 4
        invariant
            n == b@.len(),
            n >= 4,
            i <= n - 3,
            blank_from(b@, 0) == blank_from(b@, i as int),
        decreases n - i,
    {
        if b[i] == 13 && b[i + 1] == 10 && b[i + 2] == 13 && b[i + 3] == 10 {
            return Some(i);
        }
        i = i + 1;
    }
    None
}

/// The body length that a header block states; see [`body_length`].
pub fn content_length(headers: &[u8]) -> (r: Option<usize>)
    ensures
        match r {
            Some(n) => body_length(headers@) == Some(n as nat),
            None => body_length(headers@) is None,
        },
{
    let block = match text::decode(headers) {
        Some(t) => t,
        None => {
            return None;
        },
    };
    proof {
        reveal_strlit("\r\n");
    }
    let crlf = text::to_chars("\r\n");
    let long = text::to_chars("Content-Length");
    let short = text::to_chars("l");
    let colon: [char; 1] = [':'];
    assert(colon@ =~= seq![':']);
    let lines = text::split_on(&block, &crlf);
    let mut i: usize = 0;
    while i < lines.len()
        invariant
            i <= lines@.len(),
            colon@ == seq![':'],
            long@ == "Content-Length"@,
            short@ == "l"@,
            body_length(headers@) == length_from(text::views(lines@), i as int),
        decreases lines.len() - i,
    {
        match text::split_once(lines[i], &colon) {
            Some(p) => {
                let name = text::trim(p.0);
                if text::same_nocase(name, &long) || text::same_nocase(name, &short) {
                    return match text::parse_uint(text::trim(p.1), 10, usize::MAX as u64) {
                        Some(v) => Some(v as usize),
                        None => None,
                    };
                }
            },
            None => {},
        }
        i = i + 1;
    }
    Some(0)
}

/// Takes one message off the front of `buf`. Unless the message is complete
/// the buffer stays as it is.
pub fn take_one_message(buf: &mut Vec<u8>) -> (r: FrameOutcome)
    ensures
        r@ == frame(old(buf)@),
        final(buf)@ == unframed(old(buf)@),
{
    let len: usize = buf.len();
    let end = match find_double_crlf(buf) {
        Some(i) => i,
        None => {
            if len > MAX_MESSAGE_BYTES {
                return FrameOutcome::Overflow;
            }
            return FrameOutcome::Partial;
        },
    };
    let body = match content_length(vstd::slice::slice_subrange(buf.as_slice(), 0, end)) {
        Some(n) => n,
        None => {
            return FrameOutcome::BadLength;
        },
    };
    let start: usize = end + 4;
    if start > MAX_MESSAGE_BYTES || body > MAX_MESSAGE_BYTES - start {
        return FrameOutcome::Overflow;
    }
    let total: usize = start + body;
    if len < total {
        return FrameOutcome::Partial;
    }
    let rest = buf.split_off(total);
    let mut message: Vec<u8> = rest;
    core::mem::swap(buf, &mut message);
    assert(message@ =~= old(buf)@.subrange(0, total as int));
    assert(buf@ =~= old(buf)@.subrange(total as int, old(buf)@.len() as int));
    FrameOutcome::Complete(message)
}

// ---------------------------------------------------------------------
// Laws
// ---------------------------------------------------------------------

/// No byte is lost or made up: a message that is taken and what remains are
/// the buffer.
pub proof fn frames_partition_the_buffer(b: Seq<u8>)
    ensures
        match frame(b) {
            FrameView::Complete(m) => b == m + unframed(b) && 4 <= m.len() <= MAX_MESSAGE_BYTES,
            _ => unframed(b) == b,
        },
{
    lemma_blank_from(b, 0);
    if let FrameView::Complete(m) = frame(b) {
        assert(b =~= m + unframed(b));
    }
}

proof fn lemma_blank_from(b: Seq<u8>, i: int)
    requires
        0 <= i,
    ensures
        blank_from(b, i) matches Some(k) ==> i <= k && blank_at(b, k),
    decreases b.len() - i,
{
    if i + 4 <= b.len() && !blank_at(b, i) {
        lemma_blank_from(b, i + 1);
    }
}

proof fn lemma_blank_extends(b: Seq<u8>, more: Seq<u8>, i: int)
    requires
        0 <= i,
        blank_from(b, i) is Some,
    ensures
        blank_from(b + more, i) == blank_from(b, i),
    decreases b.len() - i,
{
    let c = b + more;
    assert(i + 4 <= b.len());
    assert(c[i] == b[i] && c[i + 1] == b[i + 1] && c[i + 2] == b[i + 2] && c[i + 3] == b[i + 3]);
    if !blank_at(b, i) {
        lemma_blank_extends(b, more, i + 1);
    }
}

/// A complete message at the front of a buffer stays what it is, whatever
/// follows it.
pub proof fn complete_messages_are_stable(b: Seq<u8>, more: Seq<u8>)
    requires
        frame(b) is Complete,
    ensures
        frame(b + more) == frame(b),
        unframed(b + more) == unframed(b) + more,
{
    let end = blank_from(b, 0)->0;
    lemma_blank_from(b, 0);
    lemma_blank_extends(b, more, 0);
    assert((b + more).subrange(0, end) =~= b.subrange(0, end));
    let m = frame(b)->Complete_0;
    assert((b + more).subrange(0, m.len() as int) =~= b.subrange(0, m.len() as int));
    assert(unframed(b + more) =~= unframed(b) + more);
}

/// Messages that are sent back to back come off one by one: a buffer that
/// begins with a complete message yields it and then stands at the next.
pub proof fn back_to_back_messages_come_apart(m: Seq<u8>, more: Seq<u8>)
    requires
        frame(m) == FrameView::Complete(m),
    ensures
        frame(m + more) == FrameView::Complete(m),
        unframed(m + more) == more,
{
    complete_messages_are_stable(m, more);
    assert(unframed(m) =~= seq![]);
    assert(seq![] + more =~= more);
}

/// `line` is a `Content-Length` header, in its long or its short form, whose
/// first colon stands at `c`.
pub open spec fn is_length_line(line: Seq<char>, c: int) -> bool {
    &&& 0 <= c < line.len()
    &&& line[c] == ':'
    &&& !line.subrange(0, c).contains(':')
    &&& {
        let name = text::trimmed(line.subrange(0, c));
        text::same_ignoring_case(name, "Content-Length"@) || text::same_ignoring_case(name, "l"@)
    }
}

proof fn lemma_other_line(lines: Seq<Seq<char>>, i: int)
    requires
        0 <= i < lines.len(),
        forall|c: int| !is_length_line(lines[i], c),
    ensures
        length_from(lines, i) == length_from(lines, i + 1),
{
    let line = lines[i];
    text::lemma_find_from(line, seq![':'], 0);
    match text::find_from(line, seq![':'], 0) {
        Some(c) => {
            characters_occur(line, ':', c);
            assert(!line.subrange(0, c).contains(':')) by {
                if line.subrange(0, c).contains(':') {
                    let j = choose|j: int| 0 <= j < c && line.subrange(0, c)[j] == ':';
                    characters_occur(line, ':', j);
                }
            }
            lemma_colon(line, c);
            assert(!is_length_line(line, c));
        },
        None => {},
    }
}

proof fn lemma_length_skips(lines: Seq<Seq<char>>, i: int, k: int)
    requires
        0 <= i <= k <= lines.len(),
        forall|j: int, c: int| i <= j < k ==> !#[trigger] is_length_line(lines[j], c),
    ensures
        length_from(lines, i) == length_from(lines, k),
    decreases k - i,
{
    if i < k {
        lemma_other_line(lines, i);
        lemma_length_skips(lines, i + 1, k);
    }
}

/// The first `Content-Length` line of a header block counts: the body is as
/// long as it says, whatever the other lines are; a number that cannot be read
/// is no length.
pub proof fn the_first_length_counts(lines: Seq<Seq<char>>, k: int, c: int)
    requires
        0 <= k < lines.len(),
        is_length_line(lines[k], c),
        forall|j: int, d: int| 0 <= j < k ==> !#[trigger] is_length_line(lines[j], d),
    ensures
        length_from(lines, 0) == text::uint_value(
            text::trimmed(lines[k].subrange(c + 1, lines[k].len() as int)),
            10,
            usize::MAX as nat,
        ),
{
    lemma_length_skips(lines, 0, k);
    lemma_colon(lines[k], c);
}

/// Without a `Content-Length` line there is no body.
pub proof fn no_length_no_body(lines: Seq<Seq<char>>)
    requires
        forall|j: int, d: int| 0 <= j < lines.len() ==> !#[trigger] is_length_line(lines[j], d),
    ensures
        length_from(lines, 0) == Some(0nat),
{
    lemma_length_skips(lines, 0, lines.len() as int);
}

/// The same of the bytes of a header block: it states the number in the first
/// of its lines that is a `Content-Length`; it states 0 without one; and it
/// states nothing when it is no well-formed UTF-8.
pub proof fn header_blocks_state_their_length(headers: Seq<u8>, k: int, c: int)
    ensures
        !vstd::utf8::valid_utf8(headers) ==> body_length(headers) is None,
        vstd::utf8::valid_utf8(headers) ==> {
            let lines = text::split(vstd::utf8::decode_utf8(headers), "\r\n"@);
            &&& (0 <= k < lines.len() && is_length_line(lines[k], c) && forall|j: int, d: int|
                0 <= j < k ==> !#[trigger] is_length_line(lines[j], d)) ==> body_length(headers)
                == text::uint_value(
                text::trimmed(lines[k].subrange(c + 1, lines[k].len() as int)),
                10,
                usize::MAX as nat,
            )
            &&& (forall|j: int, d: int|
                0 <= j < lines.len() ==> !#[trigger] is_length_line(lines[j], d)) ==> body_length(
                headers,
            ) == Some(0nat)
        },
{
    if vstd::utf8::valid_utf8(headers) {
        let lines = text::split(vstd::utf8::decode_utf8(headers), "\r\n"@);
        if 0 <= k < lines.len() && is_length_line(lines[k], c) && forall|j: int, d: int|
            0 <= j < k ==> !#[trigger] is_length_line(lines[j], d) {
            the_first_length_counts(lines, k, c);
        }
        if forall|j: int, d: int|
            0 <= j < lines.len() ==> !#[trigger] is_length_line(lines[j], d) {
            no_length_no_body(lines);
        }
    }
}

/// A length that is written in decimal behind `Content-Length:` or `l:`, in any
/// case and with any white space around it, is read as that number.
pub proof fn written_lengths_are_read(
    lines: Seq<Seq<char>>,
    k: int,
    name: Seq<char>,
    before: Seq<char>,
    n: nat,
    after: Seq<char>,
)
    requires
        0 <= k < lines.len(),
        text::same_ignoring_case(name, "Content-Length"@) || text::same_ignoring_case(name, "l"@),
        blank(before),
        blank(after),
        lines[k] == name + ":"@ + before + text::decimal(n) + after,
        forall|j: int, d: int| 0 <= j < k ==> !#[trigger] is_length_line(lines[j], d),
    ensures
        n <= usize::MAX ==> length_from(lines, 0) == Some(n),
        n > usize::MAX ==> length_from(lines, 0) is None,
{
    let line = lines[k];
    let c = name.len() as int;
    reveal_strlit(":");
    reveal_strlit("Content-Length");
    reveal_strlit("l");
    assert("Content-Length"@.len() == 14 && "l"@.len() == 1);
    assert(line.subrange(0, c) =~= name);
    assert(line[c] == ':');
    case_is_that_of_ascii_letters(name, "Content-Length"@);
    case_is_that_of_ascii_letters(name, "l"@);
    let long = "Content-Length"@;
    let short = "l"@;
    assert(long[0] == 'C' && long[13] == 'h' && short[0] == 'l');
    if text::same_ignoring_case(name, long) {
        assert(name.len() == 14);
        assert(name[0] == 'C' || name[0] as u32 == 'C' as u32 + 32);
        assert(name[13] == 'h' || name[13] as u32 + 32 == 'h' as u32);
        assert forall|i: int| 0 <= i < 14 implies name[i] != ':' by {
            assert(long[i] != ':' && long[i] as u32 != ':' as u32 + 32);
        }
    } else {
        assert(name.len() == 1);
        assert(name[0] == 'l' || name[0] as u32 + 32 == 'l' as u32);
    }
    assert(!name.contains(':'));
    tight_texts_stay(name);
    assert(is_length_line(line, c));
    the_first_length_counts(lines, k, c);
    assert(line.subrange(c + 1, line.len() as int) =~= before + text::decimal(n) + after);
    decimals_read_back(n, usize::MAX as nat);
    assert('0' <= text::decimal(n)[0] <= '9');
    assert('0' <= text::decimal(n)[text::decimal(n).len() - 1] <= '9');
    trimming_takes_off_the_blanks(before, text::decimal(n), after);
}

proof fn lemma_blank_first(b: Seq<u8>, i: int, k: int)
    requires
        0 <= i <= k,
        blank_at(b, k),
        forall|j: int| i <= j < k ==> !#[trigger] blank_at(b, j),
    ensures
        blank_from(b, i) == Some(k),
    decreases k - i,
{
    if i < k {
        assert(!blank_at(b, i));
        lemma_blank_first(b, i + 1, k);
    }
}

/// The bytes of an empty line, and of the end of the line before it.
pub open spec fn empty_line() -> Seq<u8> {
    seq![13u8, 10u8, 13u8, 10u8]
}

/// A message is its header block, the empty line and as many bytes of body as
/// the block states; what follows is left alone. While bytes are missing it is
/// incomplete, and beyond the cap it is refused.
pub proof fn messages_are_taken_whole(head: Seq<u8>, body: Seq<u8>, more: Seq<u8>, n: nat)
    requires
        forall|j: int| 0 <= j < head.len() ==> !#[trigger] blank_at(head + empty_line(), j),
        body_length(head) == Some(n),
    ensures
        head.len() + 4 + n > 65_535 ==> frame(head + empty_line() + body) is Overflow,
        head.len() + 4 + n <= 65_535 && body.len() < n ==> frame(
            head + empty_line() + body,
        ) is Partial,
        head.len() + 4 + n <= 65_535 && body.len() == n ==> {
            &&& frame(head + empty_line() + body + more) == FrameView::Complete(
                head + empty_line() + body,
            )
            &&& unframed(head + empty_line() + body + more) == more
        },
{
    lemma_front(head, body, n);
    lemma_front(head, body + more, n);
    let m = head + empty_line() + body;
    assert(head + empty_line() + (body + more) =~= m + more);
    if head.len() + 4 + n <= 65_535 && body.len() == n {
        assert((m + more).subrange(0, m.len() as int) =~= m);
        assert((m + more).subrange(m.len() as int, (m + more).len() as int) =~= more);
    }
}

proof fn lemma_front(head: Seq<u8>, body: Seq<u8>, n: nat)
    requires
        forall|j: int| 0 <= j < head.len() ==> !#[trigger] blank_at(head + empty_line(), j),
        body_length(head) == Some(n),
    ensures
        blank_from(head + empty_line() + body, 0) == Some(head.len() as int),
        (head + empty_line() + body).subrange(0, head.len() as int) == head,
{
    let b = head + empty_line() + body;
    assert forall|j: int| 0 <= j < head.len() implies !#[trigger] blank_at(b, j) by {
        assert(!blank_at(head + empty_line(), j));
    }
    lemma_blank_first(b, 0, head.len() as int);
    assert(b.subrange(0, head.len() as int) =~= head);
}

/// A buffer without an empty line waits for more, until it is beyond the cap;
/// a header block whose length cannot be read is refused.
pub proof fn buffers_without_a_message(b: Seq<u8>, head: Seq<u8>, body: Seq<u8>)
    ensures
        (forall|j: int| 0 <= j ==> !#[trigger] blank_at(b, j)) ==> {
            &&& b.len() <= 65_535 ==> frame(b) is Partial
            &&& b.len() > 65_535 ==> frame(b) is Overflow
        },
        (forall|j: int| 0 <= j < head.len() ==> !#[trigger] blank_at(head + empty_line(), j))
            && body_length(head) is None ==> frame(head + empty_line() + body) is BadLength,
{
    lemma_blank_from(b, 0);
    let c = head + empty_line() + body;
    if (forall|j: int| 0 <= j < head.len() ==> !#[trigger] blank_at(head + empty_line(), j)) {
        assert forall|j: int| 0 <= j < head.len() implies !#[trigger] blank_at(c, j) by {
            assert(!blank_at(head + empty_line(), j));
        }
        lemma_blank_first(c, 0, head.len() as int);
        assert(c.subrange(0, head.len() as int) =~= head);
    }
}

/// What [`content_length`] returns for a header block: the number in the first
/// of its lines that is a `Content-Length`, whatever the other lines are, and 0
/// exactly where that states 0 or there is none.
pub proof fn lengths_are_those_stated(
    headers: &[u8],
    r: Option<usize>,
    k: int,
    c: int,
)
    requires
        call_ensures(content_length, (headers,), r),
        vstd::utf8::valid_utf8(headers@),
    ensures
        ({
            let lines = text::split(vstd::utf8::decode_utf8(headers@), "\r\n"@);
            let first = 0 <= k < lines.len() && is_length_line(lines[k], c) && forall|
                j: int,
                d: int,
            |
                0 <= j < k ==> !#[trigger] is_length_line(lines[j], d);
            let stated = text::uint_value(
                text::trimmed(lines[k].subrange(c + 1, lines[k].len() as int)),
                10,
                usize::MAX as nat,
            );
            &&& first && stated is Some ==> r is Some && r->0 == stated->0
            &&& first && stated is None ==> r is None
            &&& (forall|j: int, d: int|
                0 <= j < lines.len() ==> !#[trigger] is_length_line(lines[j], d)) ==> r == Some(
                0usize,
            )
        }),
{
    header_blocks_state_their_length(headers@, k, c);
}

} // verus!
