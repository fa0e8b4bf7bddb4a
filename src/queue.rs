//! The timeout queue: items that are handed out once their timeouts expire.
use crate::clock::duration_nanos;
use crate::clock::now_nanos;
use crate::deadline::inserted_in_order;
use crate::deadline::is_ascending;
use crate::deadline::DeadlineHeap;
use crate::wakeup::delay_until;
use crate::wakeup::start_timer;
use crate::wakeup::wakeup_delay;
use crate::wakeup::wakeup_fired;
use fibers::time::timer::Timeout;
use std::time::Duration;
use vstd::prelude::*;

verus! {

/// Whether the earliest entry of `s` has expired at `now`.
pub open spec fn due_front<T>(s: Seq<(u128, T)>, now: u128) -> bool {
    s.len() > 0 && s[0].0 <= now
}

/// The entries left after a `pop` at `now`.
pub open spec fn after_pop<T>(s: Seq<(u128, T)>, now: u128) -> Seq<(u128, T)> {
    if due_front(s, now) {
        s.skip(1)
    } else {
        s
    }
}

/// The expiry of an item pushed at `now` with the given timeout; one beyond
/// the range of the clock is kept at its largest value.
pub open spec fn expiry_of(now: u128, timeout: u128) -> u128 {
    if now + timeout > u128::MAX {
        u128::MAX
    } else {
        (now + timeout) as u128
    }
}

/// Whether a scan of `s` at `now` that discarded its first `d` entries ends
/// with the result `r` and leaves the entries `rest`.
///
/// The discarded entries are exactly those the filter rejected. The scan stops
/// at the first entry the filter accepts: if it has expired it is handed out,
/// otherwise it stays, as do all the entries after it.
pub open spec fn scan_outcome<T, F: Fn(&T) -> bool>(
    s: Seq<(u128, T)>,
    filter: F,
    now: u128,
    d: int,
    r: Option<T>,
    rest: Seq<(u128, T)>,
) -> bool {
    &&& 0 <= d <= s.len()
    &&& forall|i: int| 0 <= i < d ==> #[trigger] filter.ensures((&s[i].1,), false)
    &&& if d == s.len() {
        r is None && rest == s.skip(d)
    } else if !filter.ensures((&s[d].1,), true) {
        false
    } else if s[d].0 > now {
        r is None && rest == s.skip(d)
    } else {
        r == Some(s[d].1) && rest == s.skip(d + 1)
    }
}

/// A freshly made queue is empty and has nothing due at any time: a pop on it
/// returns `None` and leaves it empty.
pub proof fn lemma_fresh_queue_pops_nothing<T>(now: u128)
    ensures
        Seq::<(u128, T)>::empty().len() == 0,
        !due_front(Seq::<(u128, T)>::empty(), now),
        after_pop(Seq::<(u128, T)>::empty(), now) == Seq::<(u128, T)>::empty(),
{
}

/// Popping an empty queue again and again, at any times, returns `None` each
/// time and leaves the length at zero.
pub proof fn lemma_drained_queue_stays_drained<T>(s: Seq<(u128, T)>, now1: u128, now2: u128)
    requires
        s.len() == 0,
    ensures
        !due_front(s, now1),
        after_pop(s, now1) == s,
        !due_front(after_pop(s, now1), now2),
        after_pop(after_pop(s, now1), now2) == s,
{
}

/// The item a pop of a well-formed queue hands out has expired and is its
/// earliest entry: it expires no later than any item that stays, and the
/// entries left are still in expiry order.
pub proof fn lemma_pop_in_expiry_order<T>(q: &TimeoutQueue<T>, now: u128)
    requires
        q.wf(),
        due_front(q@, now),
    ensures
        q@[0].0 <= now,
        forall|i: int| 0 <= i < q@.len() ==> q@[0].0 <= #[trigger] q@[i].0,
        forall|i: int| 0 <= i < after_pop(q@, now).len() ==> q@[0].0 <= #[trigger] after_pop(q@, now)[i].0,
        is_ascending(after_pop(q@, now)),
{
    q.lemma_view_ascending();
}

/// Two successive pops of a well-formed queue that both hand out an item hand
/// them out in order of expiry, each one due at the time of its pop.
pub proof fn lemma_successive_pops_in_order<T>(q: &TimeoutQueue<T>, now1: u128, now2: u128)
    requires
        q.wf(),
        due_front(q@, now1),
        due_front(after_pop(q@, now1), now2),
    ensures
        q@[0].0 <= now1,
        q@[0].0 <= after_pop(q@, now1)[0].0,
        after_pop(q@, now1)[0].0 <= now2,
{
    q.lemma_view_ascending();
    assert(after_pop(q@, now1)[0] == q@[1]);
}

/// An item is never due before its timeout has elapsed: if the expiry given
/// to an item pushed at `pushed_at` has been reached at `now`, then `timeout`
/// nanoseconds have passed.
pub proof fn lemma_never_due_early(pushed_at: u128, timeout: u128, now: u128)
    requires
        pushed_at + timeout <= u128::MAX,
        expiry_of(pushed_at, timeout) <= now,
    ensures
        pushed_at + timeout <= now,
{
}

/// A scan removes exactly the items it discarded and the one it handed out:
/// the length drops by the number of each.
pub proof fn lemma_scan_count<T, F: Fn(&T) -> bool>(
    s: Seq<(u128, T)>,
    filter: F,
    now: u128,
    d: int,
    r: Option<T>,
    rest: Seq<(u128, T)>,
)
    requires
        scan_outcome(s, filter, now, d, r, rest),
    ensures
        rest.len() == s.len() - d - (if r is Some {
            1int
        } else {
            0int
        }),
{
}

/// Whether the wake-up registration `after` is what synchronising the
/// registration `before` against `entries` at `now` gives, where `fired`
/// tells whether polling the timer of `before` found it fired.
///
/// An absent timer counts as fired. A timer that has not fired is kept.
/// Otherwise a timer is registered anew for the delay until the earliest
/// expiry, or none is left when there is no entry. A registration is the
/// delay in nanoseconds that its timer was started with.
pub open spec fn synced<T>(
    before: Option<u64>,
    entries: Seq<(u128, T)>,
    now: u128,
    fired: bool,
    after: Option<u64>,
) -> bool {
    &&& before is None ==> fired
    &&& if !fired {
        after == before
    } else if entries.len() == 0 {
        after is None
    } else {
        after == Some(delay_until(entries[0].0, now))
    }
}

/// Whether pushing an entry that expires at `expiry` into `s` makes it the
/// new earliest entry, so that the pending registration no longer fits.
pub open spec fn push_resets<T>(s: Seq<(u128, T)>, expiry: u128) -> bool {
    s.len() > 0 && expiry < s[0].0
}

/// The registration that a push of an entry expiring at `expiry` into `s`
/// synchronises: dropped when the entry becomes the new earliest one.
pub open spec fn registration_before_sync<T>(
    s: Seq<(u128, T)>,
    expiry: u128,
    pending: Option<u64>,
) -> Option<u64> {
    if push_resets(s, expiry) {
        None
    } else {
        pending
    }
}

/// Timeout queue.
///
/// This contains items that are dequeued once their timeouts have expired.
pub struct TimeoutQueue<T> {
    heap: DeadlineHeap<T>,
    next_timeout: Option<Timeout>,
    /// The delay that `next_timeout` was started with, while there is one.
    registered: Ghost<Option<u64>>,
}

impl<T> View for TimeoutQueue<T> {
    type V = Seq<(u128, T)>;

    /// The live entries, earliest expiry first.
    closed spec fn view(&self) -> Seq<(u128, T)> {
        self.heap@
    }
}

impl<T> TimeoutQueue<T> {
    /// The entries are kept in expiry order, and the registration is
    /// recorded exactly while a wake-up timer exists.
    pub closed spec fn wf(&self) -> bool {
        &&& self.heap.wf()
        &&& (self.next_timeout is Some <==> self.registered@ is Some)
    }

    /// The delay in nanoseconds that the live wake-up timer was registered
    /// for, if there is one.
    pub closed spec fn pending_wakeup(&self) -> Option<u64> {
        self.registered@
    }

    /// A well-formed queue lists its entries earliest first.
    pub proof fn lemma_view_ascending(&self)
        requires
            self.wf(),
        ensures
            is_ascending(self@),
    {
        self.heap.lemma_view_ascending();
    }

    /// Makes a new, empty queue.
    pub fn new() -> (r: Self)
        ensures
            r.wf(),
            r@ == Seq::<(u128, T)>::empty(),
            r.pending_wakeup() is None,
    {
        TimeoutQueue { heap: DeadlineHeap::new(), next_timeout: None, registered: Ghost(None) }
    }

    /// Returns the number of items held in the queue.
    pub fn len(&self) -> (r: usize)
        ensures
            r == self@.len(),
    {
        self.heap.len()
    }

    /// Returns `true` if the queue has no items, otherwise `false`.
    pub fn is_empty(&self) -> (r: bool)
        ensures
            r == (self@.len() == 0),
    {
        self.heap.len() == 0
    }

    /// Enqueues `item` at time `now` (in nanoseconds); it becomes due once
    /// `timeout` more nanoseconds have passed.
    ///
    /// When the item becomes the earliest one, the pending wake-up is dropped
    /// so that the timer is registered anew for it.
    pub fn push_at(&mut self, item: T, timeout: u128, now: u128)
        requires
            old(self).wf(),
        ensures
            final(self).wf(),
            is_ascending(final(self)@),
            final(self)@.len() > 0 ==> final(self).pending_wakeup() is Some,
            final(self)@.len() == old(self)@.len() + 1,
            inserted_in_order(old(self)@, final(self)@, (expiry_of(now, timeout), item)),
            exists|fired: bool|
                synced(
                    registration_before_sync(
                        old(self)@,
                        expiry_of(now, timeout),
                        old(self).pending_wakeup(),
                    ),
                    final(self)@,
                    now,
                    fired,
                    final(self).pending_wakeup(),
                ),
    {
        let expiry = now.saturating_add(timeout);
        let ghost pending = registration_before_sync(self@, expiry, self.pending_wakeup());
        let reset_next_timeout = match self.heap.peek_expiry() {
            Some(earliest) => expiry < earliest,
            None => false,
        };
        self.heap.insert(expiry, item);
        if reset_next_timeout {
            self.next_timeout = None;
            self.registered = Ghost(None);
        }
        let fired = self.poll_timeout(now);
        assert(synced(pending, self@, now, fired, self.pending_wakeup()));
    }

    /// Enqueues `item`; it becomes due once `timeout` has passed.
    pub fn push(&mut self, item: T, timeout: Duration)
        requires
            old(self).wf(),
        ensures
            final(self).wf(),
            is_ascending(final(self)@),
            final(self)@.len() > 0 ==> final(self).pending_wakeup() is Some,
            final(self)@.len() == old(self)@.len() + 1,
            exists|expiry: u128, now: u128, fired: bool|
                inserted_in_order(old(self)@, final(self)@, (expiry, item)) && synced(
                    registration_before_sync(old(self)@, expiry, old(self).pending_wakeup()),
                    final(self)@,
                    now,
                    fired,
                    final(self).pending_wakeup(),
                ),
    {
        let now = now_nanos();
        let timeout = duration_nanos(&timeout);
        self.push_at(item, timeout, now);
    }

    /// At time `now`, scans the items from the earliest expiry on: discards
    /// each one that `filter` rejects, and stops at the first one it accepts,
    /// which is returned if it has expired and kept otherwise.
    pub fn filter_pop_at<F: Fn(&T) -> bool>(&mut self, filter: F, now: u128) -> (r: Option<T>)
        requires
            old(self).wf(),
            forall|t: &T| filter.requires((t,)),
        ensures
            final(self).wf(),
            is_ascending(final(self)@),
            final(self)@.len() > 0 ==> final(self).pending_wakeup() is Some,
            exists|d: int| scan_outcome(old(self)@, filter, now, d, r, final(self)@),
            exists|fired: bool|
                synced(old(self).pending_wakeup(), final(self)@, now, fired, final(self).pending_wakeup()),
    {
        let ghost s = self@;
        let ghost pending = self.pending_wakeup();
        let ghost mut d: int = 0;
        let mut result: Option<T> = None;
        proof {
            self.heap.lemma_view_ascending();
        }
        loop
            invariant_except_break
                0 <= d <= s.len(),
                self@ == s.skip(d),
                result is None,
                forall|i: int| 0 <= i < d ==> #[trigger] filter.ensures((&s[i].1,), false),
            invariant
                self.wf(),
                self.pending_wakeup() == pending,
                is_ascending(s),
                forall|t: &T| filter.requires((t,)),
            ensures
                scan_outcome(s, filter, now, d, result, self@),
            decreases self@.len(),
        {
            match self.heap.extract_min() {
                None => {
                    break;
                },
                Some(entry) => {
                    let (expiry, item) = entry;
                    assert(entry == s[d]);
                    let accepted = filter(&item);
                    if !accepted {
                        proof {
                            d = d + 1;
                            assert(self@ =~= s.skip(d));
                        }
                    } else if expiry > now {
                        self.heap.reinsert((expiry, item));
                        assert(self@ =~= s.skip(d));
                        break;
                    } else {
                        assert(self@ =~= s.skip(d + 1));
                        result = Some(item);
                        break;
                    }
                },
            }
        }
        proof {
            self.heap.lemma_view_ascending();
        }
        let fired = self.poll_timeout(now);
        assert(synced(pending, self@, now, fired, self.pending_wakeup()));
        result
    }

    /// Dequeues, at time `now`, the item with the earliest expiry if that
    /// expiry is no later than `now`; otherwise returns `None` and keeps
    /// every item.
    pub fn pop_at(&mut self, now: u128) -> (r: Option<T>)
        requires
            old(self).wf(),
        ensures
            final(self).wf(),
            is_ascending(final(self)@),
            final(self)@.len() > 0 ==> final(self).pending_wakeup() is Some,
            final(self)@ == after_pop(old(self)@, now),
            r == (if due_front(old(self)@, now) {
                Some(old(self)@[0].1)
            } else {
                None::<T>
            }),
            final(self)@.len() == old(self)@.len() - (if r is Some {
                1int
            } else {
                0int
            }),
            exists|fired: bool|
                synced(old(self).pending_wakeup(), final(self)@, now, fired, final(self).pending_wakeup()),
    {
        let ghost s = self@;
        let accept_all = |_item: &T| -> (b: bool)
            ensures
                b,
            { true };
        let r = self.filter_pop_at(accept_all, now);
        proof {
            let d = choose|d: int| scan_outcome(s, accept_all, now, d, r, self@);
            if d > 0 {
                assert(accept_all.ensures((&s[0].1,), false));
            }
        }
        r
    }

    /// Tries dequeuing an item whose timeout has expired: the one with the
    /// earliest expiry, if the clock has reached it.
    pub fn pop(&mut self) -> (r: Option<T>)
        requires
            old(self).wf(),
        ensures
            final(self).wf(),
            is_ascending(final(self)@),
            final(self)@.len() > 0 ==> final(self).pending_wakeup() is Some,
            old(self)@.len() == 0 ==> r is None,
            r is None ==> final(self)@ == old(self)@,
            r is Some ==> old(self)@.len() > 0 && r == Some(old(self)@[0].1) && final(self)@
                == old(self)@.skip(1),
            exists|now: u128, fired: bool|
                final(self)@ == after_pop(old(self)@, now) && r == (if due_front(old(self)@, now) {
                    Some(old(self)@[0].1)
                } else {
                    None::<T>
                }) && synced(
                    old(self).pending_wakeup(),
                    final(self)@,
                    now,
                    fired,
                    final(self).pending_wakeup(),
                ),
    {
        let now = now_nanos();
        self.pop_at(now)
    }

    /// A variant of `pop` that filters the items at the front of the queue:
    /// each one that `filter` rejects is discarded, and the first one it
    /// accepts is returned if it has expired and kept otherwise.
    pub fn filter_pop<F: Fn(&T) -> bool>(&mut self, filter: F) -> (r: Option<T>)
        requires
            old(self).wf(),
            forall|t: &T| filter.requires((t,)),
        ensures
            final(self).wf(),
            is_ascending(final(self)@),
            final(self)@.len() > 0 ==> final(self).pending_wakeup() is Some,
            exists|now: u128, d: int, fired: bool|
                scan_outcome(old(self)@, filter, now, d, r, final(self)@) && synced(
                    old(self).pending_wakeup(),
                    final(self)@,
                    now,
                    fired,
                    final(self).pending_wakeup(),
                ),
    {
        let now = now_nanos();
        self.filter_pop_at(filter, now)
    }

    /// Aims the wake-up timer at the earliest expiry once the previous timer
    /// has fired, or when there is none; tells whether it was renewed.
    fn poll_timeout(&mut self, now: u128) -> (fired: bool)
        requires
            old(self).wf(),
        ensures
            final(self).wf(),
            final(self).heap == old(self).heap,
            synced(old(self).pending_wakeup(), final(self)@, now, fired, final(self).pending_wakeup()),
    {
        let fired = wakeup_fired(&mut self.next_timeout);
        if fired {
            match self.heap.peek_expiry() {
                Some(expiry) => {
                    let delay = wakeup_delay(expiry, now);
                    self.next_timeout = Some(start_timer(delay));
                    self.registered = Ghost(Some(delay));
                },
                None => {
                    self.next_timeout = None;
                    self.registered = Ghost(None);
                },
            }
        }
        fired
    }
}

impl<T> Default for TimeoutQueue<T> {
    fn default() -> (r: Self)
        ensures
            r.wf(),
            r@ == Seq::<(u128, T)>::empty(),
            r.pending_wakeup() is None,
    {
        TimeoutQueue { heap: DeadlineHeap::new(), next_timeout: None, registered: Ghost(None) }
    }
}

} // verus!
