//! The deadline heap: entries of `(expiry, payload)` kept in expiry order.
//!
//! Expiry times are absolute instants in nanoseconds. The entries are stored
//! in a vector in non-increasing order of expiry, so that the earliest one
//! sits at the end: peeking at it, taking it out and putting it back take
//! constant time. An insertion finds its place by binary search and then
//! shifts the entries after that place, so it takes time linear in the
//! number of entries. The heap's view lists the same entries earliest first.
use vstd::prelude::*;

verus! {

/// Entries listed earliest first: each expiry is no later than the next.
pub open spec fn is_ascending<T>(s: Seq<(u128, T)>) -> bool {
    forall|i: int, j: int| 0 <= i < j < s.len() ==> s[i].0 <= s[j].0
}

/// `after` is `before` with `entry` placed after every entry that expires
/// earlier and before every entry that expires later; among entries with the
/// same expiry its place is left open.
pub open spec fn inserted_in_order<T>(
    before: Seq<(u128, T)>,
    after: Seq<(u128, T)>,
    entry: (u128, T),
) -> bool {
    exists|p: int|
        #![trigger before.insert(p, entry)]
        0 <= p <= before.len() && after == before.insert(p, entry) && (forall|i: int|
            0 <= i < p ==> before[i].0 <= entry.0) && (forall|i: int|
            p <= i < before.len() ==> before[i].0 >= entry.0)
}

/// A min-priority queue of entries keyed by expiry time.
pub struct DeadlineHeap<T> {
    entries: Vec<(u128, T)>,
}

impl<T> View for DeadlineHeap<T> {
    type V = Seq<(u128, T)>;

    closed spec fn view(&self) -> Seq<(u128, T)> {
        let n = self.entries@.len();
        Seq::new(n, |i: int| self.entries@[n - 1 - i])
    }
}

impl<T> DeadlineHeap<T> {
    /// The stored entries never increase in expiry from front to back.
    pub closed spec fn wf(&self) -> bool {
        forall|i: int, j: int|
            0 <= i < j < self.entries@.len() ==> #[trigger] self.entries@[i].0
                >= #[trigger] self.entries@[j].0
    }

    /// A well-formed heap lists its entries earliest first.
    pub proof fn lemma_view_ascending(&self)
        requires
            self.wf(),
        ensures
            is_ascending(self@),
    {
    }

    /// Makes an empty heap.
    pub fn new() -> (r: Self)
        ensures
            r.wf(),
            r@ == Seq::<(u128, T)>::empty(),
            is_ascending(r@),
    {
        let r = DeadlineHeap { entries: Vec::new() };
        assert(r@ =~= Seq::<(u128, T)>::empty());
        r
    }

    /// The number of entries.
    pub fn len(&self) -> (r: usize)
        ensures
            r == self@.len(),
    {
        self.entries.len()
    }

    /// The earliest expiry, if there is any entry.
    pub fn peek_expiry(&self) -> (r: Option<u128>)
        ensures
            self@.len() == 0 ==> r is None,
            self@.len() > 0 ==> r == Some(self@[0].0),
    {
        let n = self.entries.len();
        if n == 0 {
            None
        } else {
            Some(self.entries[n - 1].0)
        }
    }

    /// Adds an entry, in expiry order.
    pub fn insert(&mut self, expiry: u128, item: T)
        requires
            old(self).wf(),
        ensures
            final(self).wf(),
            is_ascending(final(self)@),
            final(self)@.len() == old(self)@.len() + 1,
            inserted_in_order(old(self)@, final(self)@, (expiry, item)),
    {
        let n = self.entries.len();
        let mut lo: usize = 0;
        let mut hi: usize = n;
        while lo < hi
            invariant
                self.wf(),
                n == self.entries@.len(),
                lo <= hi <= n,
                forall|k: int| 0 <= k < lo ==> self.entries@[k].0 > expiry,
                forall|k: int| hi <= k < n ==> self.entries@[k].0 <= expiry,
            decreases hi - lo,
        {
            let mid = lo + (hi - lo) / 2;
            if self.entries[mid].0 > expiry {
                lo = mid + 1;
            } else {
                hi = mid;
            }
        }
        let p = lo;
        let ghost before = self@;
        let ghost e = self.entries@;
        self.entries.insert(p, (expiry, item));
        assert(self@ =~= before.insert(n - p, (expiry, item)));
        assert(forall|i: int| 0 <= i < n - p ==> before[i] == e[n - 1 - i]);
        assert(forall|i: int| n - p <= i < n ==> before[i] == e[n - 1 - i]);
        proof {
            self.lemma_view_ascending();
        }
    }

    /// Removes and returns an entry with the earliest expiry.
    pub fn extract_min(&mut self) -> (r: Option<(u128, T)>)
        requires
            old(self).wf(),
        ensures
            final(self).wf(),
            is_ascending(final(self)@),
            old(self)@.len() == 0 ==> r is None && final(self)@ == old(self)@,
            old(self)@.len() > 0 ==> r == Some(old(self)@[0]) && final(self)@ == old(self)@.skip(1),
    {
        let ghost before = self@;
        let r = self.entries.pop();
        if r.is_some() {
            assert(self@ =~= before.skip(1));
        } else {
            assert(self@ =~= before);
        }
        proof {
            self.lemma_view_ascending();
        }
        r
    }

    /// Puts back an entry that expires no later than any entry held.
    pub fn reinsert(&mut self, entry: (u128, T))
        requires
            old(self).wf(),
            forall|i: int| 0 <= i < old(self)@.len() ==> entry.0 <= old(self)@[i].0,
        ensures
            final(self).wf(),
            is_ascending(final(self)@),
            final(self)@ == seq![entry] + old(self)@,
    {
        let ghost before = self@;
        let ghost e = self.entries@;
        assert(forall|k: int| 0 <= k < e.len() ==> e[k] == before[e.len() - 1 - k]);
        self.entries.push(entry);
        assert(self@ =~= seq![entry] + before);
        proof {
            self.lemma_view_ascending();
        }
    }
}

} // verus!
