//! Which subscriber a response belongs to.
//!
//! Every client transaction subscribes on its `Via` branch before its request
//! goes out. A subscription lives until it is cancelled or its subscriber is
//! found gone, so that each response on the branch reaches the subscriber.

use vstd::prelude::*;

use crate::table::{key1, Table};

verus! {

/// Subscriptions by branch. Each is known by a number of its own.
pub struct ResponseRouter {
    pending: Table<u64>,
    next: u64,
}

impl ResponseRouter {
    /// The subscriber of each branch.
    pub closed spec fn subscribers(&self) -> Map<Seq<Seq<char>>, u64> {
        self.pending@
    }

    /// The number of the next subscriber.
    pub closed spec fn next(&self) -> u64 {
        self.next
    }

    /// The table is finite.
    pub closed spec fn wf(&self) -> bool {
        self.pending@.dom().finite()
    }

    /// A router without subscriptions.
    #[must_use]
    pub fn new() -> (r: Self)
        ensures
            r.wf(),
            r.subscribers().dom() == Set::<Seq<Seq<char>>>::empty(),
            r.next() == 0,
    {
        ResponseRouter { pending: Table::new(), next: 0 }
    }

    /// Subscribes on `branch`, in place of an earlier subscriber, and returns
    /// the number of the subscription and of the one it replaces.
    pub fn subscribe(&mut self, branch: &str) -> (r: (u64, Option<u64>))
        requires
            old(self).wf(),
        ensures
            final(self).wf(),
            r.0 == old(self).next(),
            final(self).next() == (if r.0 == u64::MAX {
                0
            } else {
                r.0 + 1
            }),
            final(self).subscribers() == old(self).subscribers().insert(seq![branch@], r.0),
            r.1 is Some <==> old(self).subscribers().contains_key(seq![branch@]),
            r.1 matches Some(id) ==> id == old(self).subscribers()[seq![branch@]],
    {
        let id: u64 = self.next;
        self.next = if id == u64::MAX {
            0
        } else {
            id + 1
        };
        let replaced = self.pending.insert(key1(branch), id);
        (id, replaced)
    }

    /// The subscriber that a response on `branch` goes to.
    pub fn route(&self, branch: &str) -> (r: Option<u64>)
        ensures
            r is Some <==> self.subscribers().contains_key(seq![branch@]),
            r matches Some(id) ==> id == self.subscribers()[seq![branch@]],
    {
        self.pending.get(&key1(branch))
    }

    /// Settles a delivery on `branch`: `taken` tells whether its subscriber,
    /// if there is one, took the response. A subscriber that is gone loses its
    /// subscription. Returns whether a subscriber was notified.
    pub fn deliver(&mut self, branch: &str, taken: bool) -> (r: bool)
        requires
            old(self).wf(),
        ensures
            final(self).wf(),
            r == (old(self).subscribers().contains_key(seq![branch@]) && taken),
            final(self).subscribers() == if r {
                old(self).subscribers()
            } else {
                old(self).subscribers().remove(seq![branch@])
            },
            final(self).next() == old(self).next(),
    {
        let k = key1(branch);
        if !self.pending.contains_key(&k) {
            assert(self.pending@ =~= self.pending@.remove(seq![branch@]));
            return false;
        }
        if taken {
            return true;
        }
        self.pending.remove(&k);
        false
    }

    /// Ends the subscription on `branch`, if there is one.
    pub fn cancel(&mut self, branch: &str)
        requires
            old(self).wf(),
        ensures
            final(self).wf(),
            final(self).subscribers() == old(self).subscribers().remove(seq![branch@]),
            final(self).next() == old(self).next(),
    {
        self.pending.remove(&key1(branch));
    }

    /// Number of subscriptions.
    #[must_use]
    pub fn len(&self) -> (r: usize)
        requires
            self.wf(),
        ensures
            self.subscribers().dom().finite(),
            r == self.subscribers().dom().len(),
    {
        self.pending.len()
    }

    /// `true` when there is no subscription.
    #[must_use]
    pub fn is_empty(&self) -> (r: bool)
        requires
            self.wf(),
        ensures
            self.subscribers().dom().finite(),
            r == (self.subscribers().dom().len() == 0),
    {
        self.len() == 0
    }
}

impl Default for ResponseRouter {
    fn default() -> (r: Self)
        ensures
            r.wf(),
            r.subscribers().dom() == Set::<Seq<Seq<char>>>::empty(),
            r.next() == 0,
    {
        ResponseRouter::new()
    }
}

} // verus!
