//! Bounded, deduplicated FIFO work queue and batch completion tracking.
//!
//! Dedup is keyed on the domain key: while a job for a key is queued
//! (not yet dequeued), a new job for that key is dropped. Once dequeued,
//! the key clears and a new job for it may be enqueued. The jobs wait in
//! arrival order; the keys of the waiting jobs are kept in an
//! `scc::HashSet`, which enqueuing consults and dequeuing clears.
use std::collections::VecDeque;

use vstd::prelude::*;

verus! {

/// Result of an enqueue attempt.
#[derive(Debug, Clone, Copy, PartialEq, Eq, Structural)]
pub enum EnqueueResult {
    /// Job accepted and added to the queue.
    Accepted,
    /// Job rejected: a job with the same domain key is already queued.
    Deduplicated,
    /// Job rejected: the queue is at capacity (or closed).
    QueueFull,
}

/// The domain keys of queued entries, in order.
pub open spec fn keys_of<T>(items: Seq<(String, T)>) -> Seq<Seq<char>> {
    items.map_values(|e: (String, T)| e.0@)
}

/// No domain key occurs twice.
pub open spec fn distinct_keys(keys: Seq<Seq<char>>) -> bool {
    forall|i: int, j: int| 0 <= i < j < keys.len() ==> #[trigger] keys[i] != #[trigger] keys[j]
}

/// The outcome of enqueuing a job for `key` onto queued `items`:
/// deduplicated while the key is queued, refused when closed or full,
/// accepted otherwise.
pub open spec fn enqueue_outcome<T>(
    items: Seq<(String, T)>,
    capacity: usize,
    closed: bool,
    key: Seq<char>,
) -> EnqueueResult {
    if keys_of(items).contains(key) {
        EnqueueResult::Deduplicated
    } else if closed || items.len() >= capacity {
        EnqueueResult::QueueFull
    } else {
        EnqueueResult::Accepted
    }
}

/// `scc::HashSet`, the concurrent set that holds the keys of queued jobs.
#[verifier::external_type_specification]
#[verifier::external_body]
#[verifier::reject_recursive_types(K)]
#[verifier::reject_recursive_types(H)]
pub struct ExSccHashSet<K, H: std::hash::BuildHasher>(scc::HashSet<K, H>);

/// The keys that the `scc::HashSet` `s` holds, by their characters.
pub uninterp spec fn pending_keys(s: scc::HashSet<String>) -> Set<Seq<char>>;

/// An empty key set.
///
/// Calls `scc::HashSet::new`; the contract claims the set holds no key.
#[verifier::external_body]
fn pending_new() -> (s: scc::HashSet<String>)
    ensures
        pending_keys(s) == Set::<Seq<char>>::empty(),
{
    scc::HashSet::new()
}

/// Adds `key` to `s` unless an equal key is there.
///
/// Calls `scc::HashSet::insert_sync`, which returns `Ok` when it added the
/// key and hands the key back as `Err` when an equal one was present. The
/// contract claims that the result says whether the key was absent, and
/// that the key is in the set afterwards with nothing else changed.
#[verifier::external_body]
fn pending_insert(s: &mut scc::HashSet<String>, key: String) -> (added: bool)
    ensures
        added == !pending_keys(*old(s)).contains(key@),
        pending_keys(*final(s)) == pending_keys(*old(s)).insert(key@),
{
    s.insert_sync(key).is_ok()
}

/// Removes `key` from `s`, if it is there.
///
/// Calls `scc::HashSet::remove_sync`; the contract claims that the key is
/// gone afterwards and nothing else changed.
#[verifier::external_body]
fn pending_remove(s: &mut scc::HashSet<String>, key: &str)
    ensures
        pending_keys(*final(s)) == pending_keys(*old(s)).remove(key@),
{
    let _ = s.remove_sync(key);
}

/// The queue's contents: the jobs in order, and the set of their keys
/// that enqueuing consults.
struct QueueState<T> {
    items: VecDeque<(String, T)>,
    pending: scc::HashSet<String>,
}

impl<T> QueueState<T> {
    /// At most `capacity` jobs, no key twice, and the key set holding
    /// exactly the keys of the queued jobs.
    spec fn consistent(&self, capacity: usize) -> bool {
        &&& self.items@.len() <= capacity
        &&& distinct_keys(keys_of(self.items@))
        &&& pending_keys(self.pending) == keys_of(self.items@).to_set()
    }

    fn empty() -> (s: Self)
        ensures
            s.items@ == Seq::<(String, T)>::empty(),
            forall|c: usize| s.consistent(c),
    {
        let s = QueueState { items: VecDeque::new(), pending: pending_new() };
        assert(keys_of(s.items@).to_set() =~= Set::<Seq<char>>::empty());
        s
    }

    /// Enqueue as [`WorkQueue::enqueue`] describes, on the contents alone.
    fn enqueue(&mut self, capacity: usize, closed: bool, key: String, job: T) -> (r: EnqueueResult)
        requires
            old(self).consistent(capacity),
        ensures
            final(self).consistent(capacity),
            r == enqueue_outcome(old(self).items@, capacity, closed, key@),
            r == EnqueueResult::Accepted ==> final(self).items@ == old(self).items@.push((key, job)),
            r != EnqueueResult::Accepted ==> final(self).items@ == old(self).items@,
    {
        let ghost old_items = self.items@;
        let ghost old_keys = pending_keys(self.pending);
        if !pending_insert(&mut self.pending, key.clone()) {
            assert(pending_keys(self.pending) =~= old_keys);
            return EnqueueResult::Deduplicated;
        }
        assert(!keys_of(old_items).contains(key@));
        if closed || self.items.len() >= capacity {
            pending_remove(&mut self.pending, key.as_str());
            assert(pending_keys(self.pending) =~= old_keys);
            return EnqueueResult::QueueFull;
        }
        self.items.push_back((key, job));
        assert(keys_of(self.items@) =~= keys_of(old_items).push(key@));
        proof {
            keys_of(old_items).lemma_push_to_set_commute(key@);
        }
        EnqueueResult::Accepted
    }

    /// Dequeue as [`WorkQueue::dequeue`] describes, on the contents alone.
    fn dequeue(&mut self, capacity: usize) -> (r: Option<(String, T)>)
        requires
            old(self).consistent(capacity),
        ensures
            final(self).consistent(capacity),
            old(self).items@.len() == 0 ==> r is None && final(self).items@ == old(self).items@,
            old(self).items@.len() > 0 ==> r == Some(old(self).items@[0]) && final(self).items@
                == old(self).items@.drop_first(),
    {
        let ghost old_items = self.items@;
        let ghost old_keys = pending_keys(self.pending);
        let r = self.items.pop_front();
        if let Some(entry) = &r {
            pending_remove(&mut self.pending, entry.0.as_str());
            proof {
                let ks = keys_of(old_items);
                assert(self.items@ =~= old_items.drop_first());
                assert(keys_of(self.items@) =~= ks.drop_first());
                assert(ks[0] == entry.0@);
                assert forall|x: Seq<char>| #[trigger] keys_of(self.items@).to_set().contains(x)
                    <==> old_keys.remove(entry.0@).contains(x) by {
                    if keys_of(self.items@).contains(x) {
                        let j = choose|j: int| 0 <= j < ks.drop_first().len() && ks.drop_first()[j] == x;
                        assert(ks[j + 1] == x);
                        assert(ks.contains(x));
                    }
                    if ks.contains(x) && x != ks[0] {
                        let j = choose|j: int| 0 <= j < ks.len() && ks[j] == x;
                        assert(j != 0);
                        assert(ks.drop_first()[j - 1] == x);
                    }
                }
                assert(keys_of(self.items@).to_set() =~= old_keys.remove(entry.0@));
            }
        }
        r
    }
}

/// Bounded, deduplicated FIFO queue of jobs keyed by domain key.
///
/// Call [`close`](Self::close) to signal shutdown: dequeuing drains the
/// remaining jobs and then yields nothing; enqueuing is refused.
pub struct WorkQueue<T> {
    state: QueueState<T>,
    capacity: usize,
    closed: bool,
}

impl<T> WorkQueue<T> {
    /// The queued jobs with their keys, oldest first.
    pub closed spec fn items(&self) -> Seq<(String, T)> {
        self.state.items@
    }

    /// The maximum number of queued jobs.
    pub closed spec fn capacity(&self) -> usize {
        self.capacity
    }

    /// Whether the queue has been closed.
    pub closed spec fn is_closed(&self) -> bool {
        self.closed
    }

    /// The queue's invariant: a positive capacity that is never exceeded,
    /// no key queued twice, and the key set in step with the jobs.
    #[verifier::type_invariant]
    spec fn well_formed(self) -> bool {
        &&& self.capacity > 0
        &&& self.state.consistent(self.capacity)
    }

    /// Create a new work queue with the given capacity (which must be
    /// positive).
    pub fn new(capacity: usize) -> (q: Self)
        requires
            capacity > 0,
        ensures
            q.items() == Seq::<(String, T)>::empty(),
            q.capacity() == capacity,
            !q.is_closed(),
    {
        WorkQueue { state: QueueState::empty(), capacity, closed: false }
    }

    /// Attempt to enqueue a job for `key`: deduplicated while a job for
    /// the key is queued; refused when the queue is closed or full;
    /// appended otherwise.
    pub fn enqueue(&mut self, key: String, job: T) -> (r: EnqueueResult)
        ensures
            final(self).capacity() == old(self).capacity(),
            final(self).is_closed() == old(self).is_closed(),
            r == enqueue_outcome(old(self).items(), old(self).capacity(), old(self).is_closed(), key@),
            r == EnqueueResult::Accepted ==> final(self).items() == old(self).items().push((key, job)),
            r != EnqueueResult::Accepted ==> final(self).items() == old(self).items(),
    {
        proof {
            use_type_invariant(&*self);
        }
        let mut st = QueueState::empty();
        std::mem::swap(&mut st, &mut self.state);
        let r = st.enqueue(self.capacity, self.closed, key, job);
        self.state = st;
        r
    }

    /// Take the oldest queued job, clearing its key; `None` when nothing
    /// is queued.
    pub fn dequeue(&mut self) -> (r: Option<(String, T)>)
        ensures
            final(self).capacity() == old(self).capacity(),
            final(self).is_closed() == old(self).is_closed(),
            old(self).items().len() == 0 ==> r is None && final(self).items() == old(self).items(),
            old(self).items().len() > 0 ==> r == Some(old(self).items()[0]) && final(self).items()
                == old(self).items().drop_first(),
    {
        proof {
            use_type_invariant(&*self);
        }
        let mut st = QueueState::empty();
        std::mem::swap(&mut st, &mut self.state);
        let r = st.dequeue(self.capacity);
        self.state = st;
        r
    }

    /// Close the queue: later enqueues are refused; queued jobs remain
    /// for dequeuing.
    pub fn close(&mut self)
        ensures
            final(self).is_closed(),
            final(self).items() == old(self).items(),
            final(self).capacity() == old(self).capacity(),
    {
        proof {
            use_type_invariant(&*self);
        }
        self.closed = true;
    }

    /// Number of jobs currently queued. It never exceeds the (positive)
    /// capacity, and no key is queued twice.
    pub fn len(&self) -> (n: usize)
        ensures
            n == self.items().len(),
            0 < self.capacity(),
            n <= self.capacity(),
            distinct_keys(keys_of(self.items())),
    {
        proof {
            use_type_invariant(self);
        }
        self.state.items.len()
    }

    /// Whether nothing is queued.
    pub fn is_empty(&self) -> (b: bool)
        ensures
            b == (self.items().len() == 0),
    {
        self.state.items.len() == 0
    }

    /// Whether the queue has been closed.
    pub fn closed(&self) -> (b: bool)
        ensures
            b == self.is_closed(),
    {
        self.closed
    }
}

/// The queue after offering each job of `batch` in order.
pub open spec fn batch_after<T>(
    q: Seq<(String, T)>,
    capacity: usize,
    closed: bool,
    batch: Seq<(String, T)>,
) -> Seq<(String, T)>
    decreases batch.len(),
{
    if batch.len() == 0 {
        q
    } else {
        let prev = batch_after(q, capacity, closed, batch.drop_last());
        if enqueue_outcome(prev, capacity, closed, batch.last().0@) == EnqueueResult::Accepted {
            prev.push(batch.last())
        } else {
            prev
        }
    }
}

/// How many offers of `batch`, made in order, came out as `which`.
pub open spec fn batch_count<T>(
    q: Seq<(String, T)>,
    capacity: usize,
    closed: bool,
    batch: Seq<(String, T)>,
    which: EnqueueResult,
) -> nat
    decreases batch.len(),
{
    if batch.len() == 0 {
        0
    } else {
        let prev = batch_after(q, capacity, closed, batch.drop_last());
        batch_count(q, capacity, closed, batch.drop_last(), which) + if enqueue_outcome(
            prev,
            capacity,
            closed,
            batch.last().0@,
        ) == which {
            1nat
        } else {
            0nat
        }
    }
}

/// Result of a batch enqueue operation.
#[derive(Debug, Clone)]
#[non_exhaustive]
pub struct BatchEnqueueResult {
    /// Jobs offered.
    pub total: usize,
    /// Jobs accepted.
    pub accepted: usize,
    /// Jobs dropped as duplicates of a queued key.
    pub deduplicated: usize,
    /// Jobs refused because the queue was full or closed.
    pub rejected: usize,
}

/// Enqueue every `(key, job)` of a batch in order and count the outcomes;
/// every job is counted exactly once.
pub fn enqueue_batch<T>(queue: &mut WorkQueue<T>, items: Vec<(String, T)>) -> (r: BatchEnqueueResult)
    ensures
        final(queue).capacity() == old(queue).capacity(),
        final(queue).is_closed() == old(queue).is_closed(),
        final(queue).items() == batch_after(
            old(queue).items(),
            old(queue).capacity(),
            old(queue).is_closed(),
            items@,
        ),
        r.total == items@.len(),
        r.accepted == batch_count(
            old(queue).items(),
            old(queue).capacity(),
            old(queue).is_closed(),
            items@,
            EnqueueResult::Accepted,
        ),
        r.deduplicated == batch_count(
            old(queue).items(),
            old(queue).capacity(),
            old(queue).is_closed(),
            items@,
            EnqueueResult::Deduplicated,
        ),
        r.rejected == batch_count(
            old(queue).items(),
            old(queue).capacity(),
            old(queue).is_closed(),
            items@,
            EnqueueResult::QueueFull,
        ),
{
    let total = items.len();
    let mut accepted: usize = 0;
    let mut deduplicated: usize = 0;
    let mut rejected: usize = 0;
    let mut rest = items;
    let ghost all = items@;
    let ghost start = queue.items();
    let ghost cap = queue.capacity();
    let ghost closed = queue.is_closed();
    let mut n: usize = 0;
    while n < total
        invariant
            queue.capacity() == cap,
            queue.is_closed() == closed,
            total == all.len(),
            0 <= n <= total,
            rest@ == all.skip(n as int),
            queue.items() == batch_after(start, cap, closed, all.take(n as int)),
            accepted == batch_count(start, cap, closed, all.take(n as int), EnqueueResult::Accepted),
            deduplicated == batch_count(
                start,
                cap,
                closed,
                all.take(n as int),
                EnqueueResult::Deduplicated,
            ),
            rejected == batch_count(start, cap, closed, all.take(n as int), EnqueueResult::QueueFull),
            accepted + deduplicated + rejected == n,
        decreases total - n,
    {
        let ghost next = all.take(n + 1);
        assert(next.drop_last() =~= all.take(n as int));
        assert(next.last() == all[n as int]);
        assert(rest@[0] == all[n as int]);
        let (key, job) = rest.remove(0);
        assert(rest@ =~= all.skip(n + 1));
        match queue.enqueue(key, job) {
            EnqueueResult::Accepted => accepted = accepted + 1,
            EnqueueResult::Deduplicated => deduplicated = deduplicated + 1,
            EnqueueResult::QueueFull => rejected = rejected + 1,
        }
        n = n + 1;
    }
    assert(all.take(total as int) =~= all);
    BatchEnqueueResult { total, accepted, deduplicated, rejected }
}

/// Counts outstanding jobs of a batch; created by the producer, counted
/// down as jobs complete.
#[non_exhaustive]
pub struct BatchTracker {
    remaining: usize,
}

impl BatchTracker {
    /// Outstanding jobs.
    pub closed spec fn spec_remaining(&self) -> usize {
        self.remaining
    }

    /// A tracker for `count` outstanding jobs.
    pub fn new(count: usize) -> (t: Self)
        ensures
            t.spec_remaining() == count,
    {
        BatchTracker { remaining: count }
    }

    /// Mark one job as completed. Completing more jobs than were tracked
    /// is a caller error and is not accepted.
    pub fn complete_one(&mut self)
        requires
            old(self).spec_remaining() > 0,
        ensures
            final(self).spec_remaining() == old(self).spec_remaining() - 1,
    {
        self.remaining = self.remaining - 1;
    }

    /// Retire up to `count` outstanding slots in one step, returning how
    /// many were retired; retiring more than remain saturates.
    pub fn retire(&mut self, count: usize) -> (retired: usize)
        ensures
            retired == (if count < old(self).spec_remaining() {
                count
            } else {
                old(self).spec_remaining()
            }),
            final(self).spec_remaining() == old(self).spec_remaining() - retired,
    {
        let retired = if count < self.remaining {
            count
        } else {
            self.remaining
        };
        self.remaining = self.remaining - retired;
        retired
    }

    /// Retire every outstanding slot, releasing the barrier wholesale.
    pub fn drain(&mut self) -> (retired: usize)
        ensures
            retired == old(self).spec_remaining(),
            final(self).spec_remaining() == 0,
    {
        self.retire(usize::MAX)
    }

    /// Number of remaining jobs.
    pub fn remaining(&self) -> (n: usize)
        ensures
            n == self.spec_remaining(),
    {
        self.remaining
    }
}

/// Once the job for a key has been dequeued, a new job for that key is
/// accepted again (on an open queue).
pub proof fn law_dequeued_key_may_return<T>(items: Seq<(String, T)>, capacity: usize, key: Seq<char>)
    requires
        items.len() > 0,
        items.len() <= capacity,
        items[0].0@ == key,
        distinct_keys(keys_of(items)),
    ensures
        enqueue_outcome(items.drop_first(), capacity, false, key) == EnqueueResult::Accepted,
{
    if keys_of(items.drop_first()).contains(key) {
        let k = choose|k: int| 0 <= k < keys_of(items.drop_first()).len() && keys_of(items.drop_first())[k] == key;
        assert(keys_of(items)[k + 1] == key);
        assert(keys_of(items)[0] == key);
    }
}

/// A closed queue accepts nothing, and a queued key is never accepted a
/// second time.
pub proof fn law_enqueue_refusals<T>(items: Seq<(String, T)>, capacity: usize, closed: bool, key: Seq<char>)
    ensures
        closed ==> enqueue_outcome(items, capacity, closed, key) != EnqueueResult::Accepted,
        keys_of(items).contains(key) ==> enqueue_outcome(items, capacity, closed, key)
            == EnqueueResult::Deduplicated,
{
}

/// Retiring never wraps: what is retired plus what remains is what was
/// outstanding, and a second retire after a drain retires nothing.
pub proof fn law_retire_conserves(remaining: usize, count: usize)
    ensures
        ({
            let retired = if count < remaining {
                count
            } else {
                remaining
            };
            &&& retired <= remaining
            &&& retired <= count
            &&& (remaining - retired) + retired == remaining
        }),
{
}


/// The keys of `keys` at their first occurrence, in order.
pub open spec fn first_occurrences(keys: Seq<Seq<char>>) -> Seq<Seq<char>>
    decreases keys.len(),
{
    if keys.len() == 0 {
        Seq::empty()
    } else {
        let prev = first_occurrences(keys.drop_last());
        if prev.contains(keys.last()) {
            prev
        } else {
            prev.push(keys.last())
        }
    }
}

proof fn lemma_first_occurrences_len(keys: Seq<Seq<char>>)
    ensures
        first_occurrences(keys).len() <= keys.len(),
    decreases keys.len(),
{
    if keys.len() > 0 {
        lemma_first_occurrences_len(keys.drop_last());
    }
}

/// Offering a batch to an open, empty queue with room for all of it:
/// the queue holds each distinct key once, at its first occurrence and in
/// batch order; every repeat is deduplicated; nothing is refused.
pub proof fn law_batch_on_roomy_queue<T>(batch: Seq<(String, T)>, capacity: usize)
    requires
        batch.len() < capacity,
    ensures
        keys_of(batch_after(Seq::empty(), capacity, false, batch)) == first_occurrences(keys_of(batch)),
        batch_count(Seq::empty(), capacity, false, batch, EnqueueResult::Accepted)
            == first_occurrences(keys_of(batch)).len(),
        batch_count(Seq::empty(), capacity, false, batch, EnqueueResult::Deduplicated) == batch.len()
            - first_occurrences(keys_of(batch)).len(),
        batch_count(Seq::empty(), capacity, false, batch, EnqueueResult::QueueFull) == 0,
    decreases batch.len(),
{
    if batch.len() > 0 {
        let pre = batch.drop_last();
        law_batch_on_roomy_queue(pre, capacity);
        lemma_first_occurrences_len(keys_of(pre));
        assert(keys_of(batch).drop_last() =~= keys_of(pre));
        assert(keys_of(batch).last() == batch.last().0@);
        let q = batch_after(Seq::empty(), capacity, false, pre);
        assert(keys_of(q).len() == q.len());
        assert(q.len() <= pre.len()) by {
            assert(first_occurrences(keys_of(pre)).len() <= keys_of(pre).len());
        }
        if !keys_of(q).contains(batch.last().0@) {
            assert(keys_of(q.push(batch.last())) =~= keys_of(q).push(batch.last().0@));
        }
    }
}

/// First in, first out: offering jobs with distinct keys to an open,
/// empty queue with room for them all queues exactly them, in order, so
/// they are dequeued in the order they were offered.
pub proof fn law_distinct_batch_is_fifo<T>(batch: Seq<(String, T)>, capacity: usize)
    requires
        batch.len() <= capacity,
        distinct_keys(keys_of(batch)),
    ensures
        batch_after(Seq::empty(), capacity, false, batch) == batch,
    decreases batch.len(),
{
    if batch.len() > 0 {
        let pre = batch.drop_last();
        assert(keys_of(pre) =~= keys_of(batch).drop_last());
        law_distinct_batch_is_fifo(pre, capacity);
        let k = batch.last().0@;
        if keys_of(pre).contains(k) {
            let i = choose|i: int| 0 <= i < keys_of(pre).len() && keys_of(pre)[i] == k;
            assert(keys_of(batch)[i] == k);
            assert(keys_of(batch)[batch.len() - 1] == k);
        }
        assert(pre.push(batch.last()) =~= batch);
    }
}

} // verus!
