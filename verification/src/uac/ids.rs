//! Fresh identifiers of an outbound call.

use vstd::prelude::*;

use crate::text;

verus! {

/// A Call-ID.
pub open spec fn call_id_text(count: u64, nanos: u32, local: Seq<char>) -> Seq<char> {
    text::padded_hex(nanos as nat, 8) + text::padded_hex(count as nat, 4) + "@"@ + local
}

/// A tag for `From`.
pub open spec fn fresh_tag_text(count: u64, nanos: u32, prefix: Seq<char>) -> Seq<char> {
    prefix + "-"@ + text::padded_hex(nanos as nat, 8) + text::padded_hex(count as nat, 4)
}

/// A `Via` branch.
pub open spec fn branch_text(count: u64, nanos: u64) -> Seq<char> {
    "z9hG4bK-"@ + text::padded_hex(nanos as nat, 16) + text::padded_hex(count as nat, 4)
}

/// Numbers the identifiers that one process hands out.
#[derive(Debug)]
pub struct IdSource {
    call_ids: u64,
    tags: u64,
    branches: u64,
}

impl IdSource {
    /// How many Call-IDs were handed out.
    pub closed spec fn call_ids(&self) -> u64 {
        self.call_ids
    }

    /// How many tags were handed out.
    pub closed spec fn tags(&self) -> u64 {
        self.tags
    }

    /// How many branches were handed out.
    pub closed spec fn branches(&self) -> u64 {
        self.branches
    }

    /// A source that has handed out nothing.
    pub fn new() -> (r: Self)
        ensures
            r.call_ids() == 0,
            r.tags() == 0,
            r.branches() == 0,
    {
        IdSource { call_ids: 0, tags: 0, branches: 0 }
    }

    /// The next Call-ID of the host `local`; `nanos` is the wall clock's
    /// fraction of a second.
    pub fn fresh_call_id(&mut self, local: &str, nanos: u32) -> (r: String)
        ensures
            r@ == call_id_text(old(self).call_ids(), nanos, local@),
            final(self).call_ids() == old(self).call_ids().wrapping_add(1),
            final(self).tags() == old(self).tags(),
            final(self).branches() == old(self).branches(),
    {
        let c: u64 = self.call_ids;
        self.call_ids = c.wrapping_add(1);
        let mut out = text::hex_string(nanos as u64, 8);
        out.append(&text::hex_string(c, 4));
        out.append("@");
        out.append(local);
        out
    }

    /// The next tag; `nanos` is the wall clock's fraction of a second.
    pub fn fresh_tag(&mut self, prefix: &str, nanos: u32) -> (r: String)
        ensures
            r@ == fresh_tag_text(old(self).tags(), nanos, prefix@),
            final(self).call_ids() == old(self).call_ids(),
            final(self).tags() == old(self).tags().wrapping_add(1),
            final(self).branches() == old(self).branches(),
    {
        let c: u64 = self.tags;
        self.tags = c.wrapping_add(1);
        let mut out: String = prefix.to_owned();
        out.append("-");
        out.append(&text::hex_string(nanos as u64, 8));
        out.append(&text::hex_string(c, 4));
        out
    }

    /// The next branch; `nanos` is the wall clock in nanoseconds.
    pub fn fresh_branch(&mut self, nanos: u64) -> (r: String)
        ensures
            r@ == branch_text(old(self).branches(), nanos),
            final(self).call_ids() == old(self).call_ids(),
            final(self).tags() == old(self).tags(),
            final(self).branches() == old(self).branches().wrapping_add(1),
    {
        let c: u64 = self.branches;
        self.branches = c.wrapping_add(1);
        let mut out: String = "z9hG4bK-".to_owned();
        out.append(&text::hex_string(nanos, 16));
        out.append(&text::hex_string(c, 4));
        out
    }
}

/// Two numbers written one behind the other differ when the second ones do,
/// as long as the first ones have one width.
proof fn lemma_pairs_differ(a: Seq<char>, b: Seq<char>, c: u64, d: u64, tail: Seq<char>)
    requires
        a.len() == b.len(),
        c != d,
    ensures
        a + text::padded_hex(c as nat, 4) + tail != b + text::padded_hex(d as nat, 4) + tail,
{
    let x = a + text::padded_hex(c as nat, 4) + tail;
    let y = b + text::padded_hex(d as nat, 4) + tail;
    text::lemma_padded_hex_value(c as nat, 4);
    text::lemma_padded_hex_value(d as nat, 4);
    if x == y {
        let end = x.len() - tail.len();
        assert(x.subrange(a.len() as int, end) =~= text::padded_hex(c as nat, 4));
        assert(y.subrange(a.len() as int, end) =~= text::padded_hex(d as nat, 4));
    }
}

/// Call-IDs that one source hands out to one host differ, whatever the clock
/// says, until the source has handed out all of them.
pub proof fn call_ids_differ(c: u64, nanos_c: u32, d: u64, nanos_d: u32, local: Seq<char>)
    requires
        c != d,
    ensures
        call_id_text(c, nanos_c, local) != call_id_text(d, nanos_d, local),
{
    let a = text::padded_hex(nanos_c as nat, 8);
    let b = text::padded_hex(nanos_d as nat, 8);
    text::lemma_padded_hex_len(nanos_c as nat);
    text::lemma_padded_hex_len(nanos_d as nat);
    let tail = "@"@ + local;
    lemma_pairs_differ(a, b, c, d, tail);
    assert(call_id_text(c, nanos_c, local) =~= a + text::padded_hex(c as nat, 4) + tail);
    assert(call_id_text(d, nanos_d, local) =~= b + text::padded_hex(d as nat, 4) + tail);
}

/// Tags that one source hands out with one prefix differ, whatever the clock
/// says, until the source has handed out all of them.
pub proof fn tags_differ(c: u64, nanos_c: u32, d: u64, nanos_d: u32, prefix: Seq<char>)
    requires
        c != d,
    ensures
        fresh_tag_text(c, nanos_c, prefix) != fresh_tag_text(d, nanos_d, prefix),
{
    let a = prefix + "-"@ + text::padded_hex(nanos_c as nat, 8);
    let b = prefix + "-"@ + text::padded_hex(nanos_d as nat, 8);
    text::lemma_padded_hex_len(nanos_c as nat);
    text::lemma_padded_hex_len(nanos_d as nat);
    lemma_pairs_differ(a, b, c, d, seq![]);
    assert(fresh_tag_text(c, nanos_c, prefix) =~= a + text::padded_hex(c as nat, 4) + seq![]);
    assert(fresh_tag_text(d, nanos_d, prefix) =~= b + text::padded_hex(d as nat, 4) + seq![]);
}

/// Branches that one source hands out differ, whatever the clock says, until
/// the source has handed out all of them.
pub proof fn branches_differ(c: u64, nanos_c: u64, d: u64, nanos_d: u64)
    requires
        c != d,
    ensures
        branch_text(c, nanos_c) != branch_text(d, nanos_d),
{
    let a = "z9hG4bK-"@ + text::padded_hex(nanos_c as nat, 16);
    let b = "z9hG4bK-"@ + text::padded_hex(nanos_d as nat, 16);
    text::lemma_padded_hex_len(nanos_c as nat);
    text::lemma_padded_hex_len(nanos_d as nat);
    lemma_pairs_differ(a, b, c, d, seq![]);
    assert(branch_text(c, nanos_c) =~= a + text::padded_hex(c as nat, 4) + seq![]);
    assert(branch_text(d, nanos_d) =~= b + text::padded_hex(d as nat, 4) + seq![]);
}

} // verus!
