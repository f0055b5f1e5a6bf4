//! The dispatch queue: items wait, are leased to a worker, and leave when
//! the worker reports or an administrator drops them.

use vstd::prelude::*;

verus! {

/// One queued rebuild job.
pub struct QueueItem {
    pub id: u64,
    pub package_id: u64,
    /// The version to rebuild, captured when the item was queued.
    pub version: String,
    pub queued_at: i64,
    /// The worker that holds the lease, if any.
    pub worker_id: Option<u64>,
    pub last_ping: Option<i64>,
}

/// The mathematical value of a [`QueueItem`].
pub struct ItemView {
    pub id: u64,
    pub package_id: u64,
    pub version: Seq<char>,
    pub queued_at: i64,
    pub worker_id: Option<u64>,
    pub last_ping: Option<i64>,
}

impl View for QueueItem {
    type V = ItemView;

    open spec fn view(&self) -> ItemView {
        ItemView {
            id: self.id,
            package_id: self.package_id,
            version: self.version@,
            queued_at: self.queued_at,
            worker_id: self.worker_id,
            last_ping: self.last_ping,
        }
    }
}

impl QueueItem {
    /// A copy with the same value.
    pub fn duplicate(&self) -> (r: QueueItem)
        ensures
            r@ == self@,
    {
        QueueItem {
            id: self.id,
            package_id: self.package_id,
            version: self.version.clone(),
            queued_at: self.queued_at,
            worker_id: self.worker_id,
            last_ping: self.last_ping,
        }
    }
}

/// Why a queue operation was refused.
#[derive(Debug, PartialEq, Eq, Clone, Copy)]
pub enum QueueError {
    /// The caller does not hold the lease on the item it named.
    LeaseMismatch,
    /// No further item id can be given out.
    IdsExhausted,
}

/// The views of a sequence of items, in the same order.
pub open spec fn views(v: Seq<QueueItem>) -> Seq<ItemView> {
    Seq::new(v.len(), |i: int| v[i]@)
}

/// A lease has expired when its last ping is more than `timeout` before `now`.
pub open spec fn expired(it: ItemView, now: i64, timeout: i64) -> bool {
    it.worker_id is Some && match it.last_ping {
        Some(p) => now - p > timeout,
        None => true,
    }
}

/// The item without a lease.
pub open spec fn released(it: ItemView) -> ItemView {
    ItemView { worker_id: None, last_ping: None, ..it }
}

/// The item leased to `worker` at `now`.
pub open spec fn leased(it: ItemView, worker: u64, now: i64) -> ItemView {
    ItemView { worker_id: Some(worker), last_ping: Some(now), ..it }
}

/// The queue after every expired lease has been cleared.
pub open spec fn reclaimed(s: Seq<ItemView>, now: i64, timeout: i64) -> Seq<ItemView> {
    Seq::new(s.len(), |i: int| if expired(s[i], now, timeout) { released(s[i]) } else { s[i] })
}

/// `i` is the position of the oldest item that nobody holds.
pub open spec fn oldest_free(s: Seq<ItemView>, i: int) -> bool {
    &&& 0 <= i < s.len()
    &&& s[i].worker_id is None
    &&& forall|j: int| 0 <= j < i ==> (#[trigger] s[j]).worker_id is Some
}

/// Every item is held by some worker.
pub open spec fn none_free(s: Seq<ItemView>) -> bool {
    forall|j: int| 0 <= j < s.len() ==> (#[trigger] s[j]).worker_id is Some
}

/// The item with id `id` is in the queue and `worker` holds it.
pub open spec fn held_by(s: Seq<ItemView>, id: u64, worker: u64) -> bool {
    exists|i: int| 0 <= i < s.len() && (#[trigger] s[i]).id == id && s[i].worker_id == Some(worker)
}

/// The position of the item with id `id`, where there is one.
pub open spec fn position_of(s: Seq<ItemView>, id: u64) -> int {
    choose|i: int| 0 <= i < s.len() && (#[trigger] s[i]).id == id
}

/// `pos` is where an item queued at `t` belongs: behind every item queued
/// at `t` or earlier, before every later one.
pub open spec fn slot_for(s: Seq<ItemView>, t: i64, pos: int) -> bool {
    &&& 0 <= pos <= s.len()
    &&& forall|j: int| 0 <= j < pos ==> (#[trigger] s[j]).queued_at <= t
    &&& forall|j: int| pos <= j < s.len() ==> (#[trigger] s[j]).queued_at > t
}

/// The place of an item queued at `t`.
pub open spec fn slot(s: Seq<ItemView>, t: i64) -> int {
    choose|pos: int| slot_for(s, t, pos)
}

/// The state after one push: the items and the next fresh id. Where no id
/// is left the push changes nothing.
pub open spec fn pushed(s: Seq<ItemView>, next_id: u64, package_id: u64, version: Seq<char>, now: i64) -> (
    Seq<ItemView>,
    u64,
) {
    if next_id == u64::MAX {
        (s, next_id)
    } else {
        (
            s.insert(
                slot(s, now),
                ItemView { id: next_id, package_id, version, queued_at: now, worker_id: None, last_ping: None },
            ),
            (next_id + 1) as u64,
        )
    }
}

/// The state after pushing each of `entries` (package id and version) in
/// turn, all queued at `now`.
pub open spec fn pushed_all(s: Seq<ItemView>, next_id: u64, entries: Seq<(u64, Seq<char>)>, now: i64) -> (
    Seq<ItemView>,
    u64,
)
    decreases entries.len(),
{
    if entries.len() == 0 {
        (s, next_id)
    } else {
        let before = pushed_all(s, next_id, entries.drop_last(), now);
        pushed(before.0, before.1, entries.last().0, entries.last().1, now)
    }
}

/// The views of a list of entries to push.
pub open spec fn entry_views(v: Seq<(u64, String)>) -> Seq<(u64, Seq<char>)> {
    Seq::new(v.len(), |i: int| (v[i].0, v[i].1@))
}

/// What a pop may hand out, as a value.
pub open spec fn item_view(r: Option<QueueItem>) -> Option<ItemView> {
    match r {
        Some(item) => Some(item@),
        None => None,
    }
}

/// A pop by `worker` at `now` takes the queue from `pre` to `post` and
/// hands out `got`.
pub open spec fn popped(pre: Seq<ItemView>, worker: u64, now: i64, post: Seq<ItemView>, got: Option<ItemView>) -> bool {
    match got {
        Some(item) => exists|i: int| #[trigger] oldest_free(pre, i) && item == leased(pre[i], worker, now)
            && post == pre.update(i, item),
        None => none_free(pre) && post == pre,
    }
}

/// No two items share an id.
pub open spec fn distinct_ids(s: Seq<ItemView>) -> bool {
    forall|i: int, j: int|
        0 <= i < s.len() && 0 <= j < s.len() && i != j ==> (#[trigger] s[i]).id != (#[trigger] s[j]).id
}

/// The oldest item comes first.
pub open spec fn oldest_first(s: Seq<ItemView>) -> bool {
    forall|i: int, j: int|
        0 <= i < j < s.len() ==> (#[trigger] s[i]).queued_at <= (#[trigger] s[j]).queued_at
}

/// The invariant of a queue whose next fresh id is `next_id`.
pub open spec fn valid_queue(s: Seq<ItemView>, next_id: u64) -> bool {
    &&& distinct_ids(s)
    &&& oldest_first(s)
    &&& forall|i: int| 0 <= i < s.len() ==> (#[trigger] s[i]).id < next_id
    &&& forall|i: int| 0 <= i < s.len() ==> ((#[trigger] s[i]).worker_id is Some <==> s[i].last_ping is Some)
}

/// The items whose package is not among `pkgs`.
pub open spec fn without_packages(s: Seq<ItemView>, pkgs: Seq<u64>) -> Seq<ItemView> {
    s.filter(|it: ItemView| !pkgs.contains(it.package_id))
}

/// The work queue. Items are kept oldest first.
pub struct DispatchQueue {
    items: Vec<QueueItem>,
    next_id: u64,
}

impl View for DispatchQueue {
    type V = Seq<ItemView>;

    closed spec fn view(&self) -> Seq<ItemView> {
        views(self.items@)
    }
}

impl DispatchQueue {
    /// The id that the next pushed item gets.
    pub closed spec fn fresh_id(&self) -> u64 {
        self.next_id
    }

    /// The queue's invariant.
    pub open spec fn wf(&self) -> bool {
        valid_queue(self@, self.fresh_id())
    }

    /// An empty queue.
    pub fn new() -> (q: DispatchQueue)
        ensures
            q.wf(),
            q@ == Seq::<ItemView>::empty(),
            q.fresh_id() == 0,
    {
        let q = DispatchQueue { items: Vec::new(), next_id: 0 };
        assert(q@ =~= Seq::<ItemView>::empty());
        q
    }

    /// The number of items, leased or not.
    pub fn len(&self) -> (n: usize)
        ensures
            n == self@.len(),
    {
        self.items.len()
    }

    /// Appends an unassigned item for `package_id` at `version`, queued at
    /// `now`, and returns its id. Nothing is compared with the items already
    /// there: the same package and version may be queued twice.
    pub fn push(&mut self, package_id: u64, version: String, now: i64) -> (r: Result<u64, QueueError>)
        requires
            old(self).wf(),
        ensures
            final(self).wf(),
            (final(self)@, final(self).fresh_id()) == pushed(
                old(self)@,
                old(self).fresh_id(),
                package_id,
                version@,
                now,
            ),
            old(self).fresh_id() == u64::MAX ==> r == Err::<u64, QueueError>(QueueError::IdsExhausted),
            old(self).fresh_id() < u64::MAX ==> r == Ok::<u64, QueueError>(old(self).fresh_id()),
    {
        if self.next_id == u64::MAX {
            return Err(QueueError::IdsExhausted);
        }
        let id: u64 = self.next_id;
        let mut pos: usize = self.items.len();
        while pos > 0 && self.items[pos - 1].queued_at > now
            invariant
                pos <= self.items.len(),
                forall|j: int| pos <= j < self.items.len() ==> (#[trigger] self.items[j]).queued_at > now,
            decreases pos,
        {
            pos = pos - 1;
        }
        let item = QueueItem { id, package_id, version, queued_at: now, worker_id: None, last_ping: None };
        let ghost before = self@;
        proof {
            assert forall|j: int| 0 <= j < pos implies (#[trigger] before[j]).queued_at <= now by {
                if pos > 0 {
                    assert(before[pos - 1].queued_at <= now);
                    assert(before[j].queued_at <= before[pos - 1].queued_at || j == pos - 1);
                }
            }
            assert(slot_for(before, now, pos as int));
            lemma_slot_unique(before, now, pos as int, slot(before, now));
        }
        self.items.insert(pos, item);
        self.next_id = id + 1;
        proof {
            assert(self@ =~= before.insert(pos as int, item@));
        }
        Ok(id)
    }

    /// Pushes each of `entries` (package id and version) in turn, all queued
    /// at `now`; `false` where the ids ran out before the last one.
    pub fn push_all(&mut self, entries: &Vec<(u64, String)>, now: i64) -> (all: bool)
        requires
            old(self).wf(),
        ensures
            final(self).wf(),
            (final(self)@, final(self).fresh_id()) == pushed_all(
                old(self)@,
                old(self).fresh_id(),
                entry_views(entries@),
                now,
            ),
            all == (old(self).fresh_id() + entries@.len() <= u64::MAX),
    {
        let ghost wanted = entry_views(entries@);
        let mut all = true;
        let mut i: usize = 0;
        let n: usize = entries.len();
        while i < n
            invariant
                i <= n,
                n == entries.len(),
                self.wf(),
                (self@, self.fresh_id()) == pushed_all(old(self)@, old(self).fresh_id(), wanted.take(i as int), now),
                wanted == entry_views(entries@),
                all == (old(self).fresh_id() + i <= u64::MAX),
                all ==> self.fresh_id() == old(self).fresh_id() + i,
                !all ==> self.fresh_id() == u64::MAX,
            decreases n - i,
        {
            let version = entries[i].1.clone();
            let r = self.push(entries[i].0, version, now);
            proof {
                assert(wanted.take(i + 1).drop_last() =~= wanted.take(i as int));
                assert(wanted.take(i + 1).last() == wanted[i as int]);
            }
            if r.is_err() {
                all = false;
            }
            i = i + 1;
        }
        proof {
            assert(wanted.take(n as int) =~= wanted);
        }
        all
    }

    /// Clears holder and last ping of every item whose lease has expired at
    /// `now`. A second call with the same arguments changes nothing.
    pub fn reclaim_stale(&mut self, now: i64, lease_timeout: i64)
        requires
            old(self).wf(),
        ensures
            final(self).wf(),
            final(self).fresh_id() == old(self).fresh_id(),
            final(self)@ == reclaimed(old(self)@, now, lease_timeout),
    {
        let ghost before = self@;
        let n: usize = self.items.len();
        let mut i: usize = 0;
        while i < n
            invariant
                i <= n,
                n == self.items.len(),
                n == before.len(),
                self.next_id == old(self).next_id,
                forall|j: int| 0 <= j < i ==> (#[trigger] self@[j]) == reclaimed(before, now, lease_timeout)[j],
                forall|j: int| i <= j < n ==> (#[trigger] self@[j]) == before[j],
            decreases n - i,
        {
            let ghost mid = self@;
            let stale = match (&self.items[i].worker_id, &self.items[i].last_ping) {
                (Some(_), Some(p)) => crate::clock::older_than(*p, now, lease_timeout),
                (Some(_), None) => true,
                (None, _) => false,
            };
            if stale {
                let mut fresh = self.items[i].duplicate();
                fresh.worker_id = None;
                fresh.last_ping = None;
                self.items.set(i, fresh);
            }
            proof {
                assert(mid[i as int] == before[i as int]);
                assert(stale == expired(before[i as int], now, lease_timeout));
                assert forall|j: int| 0 <= j < i + 1 implies (#[trigger] self@[j]) == reclaimed(
                    before,
                    now,
                    lease_timeout,
                )[j] by {
                    if j < i {
                        assert(self@[j] == mid[j]);
                    }
                }
                assert forall|j: int| i + 1 <= j < n implies (#[trigger] self@[j]) == before[j] by {
                    assert(self@[j] == mid[j]);
                }
            }
            i = i + 1;
        }
        proof {
            assert(self@ =~= reclaimed(before, now, lease_timeout));
        }
    }

    /// The first `limit` items, oldest first. Expired leases are to be
    /// cleared first, with [`DispatchQueue::reclaim_stale`].
    pub fn list(&self, limit: usize) -> (out: Vec<QueueItem>)
        ensures
            views(out@) == self@.take(if limit <= self@.len() { limit as int } else { self@.len() as int }),
    {
        let n: usize = if limit <= self.items.len() { limit } else { self.items.len() };
        let mut out: Vec<QueueItem> = Vec::new();
        let mut i: usize = 0;
        while i < n
            invariant
                i <= n <= self.items.len(),
                out.len() == i,
                forall|j: int| 0 <= j < i ==> (#[trigger] out[j])@ == self@[j],
            decreases n - i,
        {
            out.push(self.items[i].duplicate());
            i = i + 1;
        }
        proof {
            assert(views(out@) =~= self@.take(n as int));
        }
        out
    }

    /// Leases the oldest item that nobody holds to `worker`, with `now` as
    /// its last ping, and returns it; `None` where every item is held.
    pub fn pop_next(&mut self, worker: u64, now: i64) -> (r: Option<QueueItem>)
        requires
            old(self).wf(),
        ensures
            final(self).wf(),
            final(self).fresh_id() == old(self).fresh_id(),
            popped(old(self)@, worker, now, final(self)@, item_view(r)),
    {
        let ghost before = self@;
        let n: usize = self.items.len();
        let mut i: usize = 0;
        while i < n
            invariant
                i <= n,
                n == self.items.len(),
                self@ == before,
                before == old(self)@,
                valid_queue(before, self.next_id),
                self.next_id == old(self).next_id,
                forall|j: int| 0 <= j < i ==> (#[trigger] before[j]).worker_id is Some,
            decreases n - i,
        {
            if self.items[i].worker_id.is_none() {
                assert(before[i as int].worker_id is None);
                let mut claimed = self.items[i].duplicate();
                claimed.worker_id = Some(worker);
                claimed.last_ping = Some(now);
                let handed = claimed.duplicate();
                self.items.set(i, claimed);
                proof {
                    assert(oldest_free(before, i as int));
                    assert(self@ =~= before.update(i as int, handed@));
                }
                return Some(handed);
            }
            assert(before[i as int].worker_id is Some);
            i = i + 1;
        }
        None
    }

    /// The position of the item `id` if `worker` holds it.
    fn find_held(&self, id: u64, worker: u64) -> (r: Option<usize>)
        requires
            self.wf(),
        ensures
            r is Some <==> held_by(self@, id, worker),
            r matches Some(i) ==> i < self@.len() && self@[i as int].id == id && self@[i as int].worker_id
                == Some(worker) && position_of(self@, id) == i,
    {
        let n: usize = self.items.len();
        let mut i: usize = 0;
        while i < n
            invariant
                i <= n,
                n == self.items.len(),
                self.wf(),
                forall|j: int| 0 <= j < i ==> (#[trigger] self@[j]).id != id,
            decreases n - i,
        {
            if self.items[i].id == id {
                assert(self@[i as int].id == id);
                let held = match self.items[i].worker_id {
                    Some(w) => w == worker,
                    None => false,
                };
                if held {
                    return Some(i);
                }
                return None;
            }
            assert(self@[i as int].id != id);
            i = i + 1;
        }
        None
    }

    /// Renews the lease on item `id`: succeeds exactly when `worker` holds
    /// the item, and then sets its last ping to `now`. Otherwise nothing
    /// changes.
    pub fn ping(&mut self, id: u64, worker: u64, now: i64) -> (r: Result<(), QueueError>)
        requires
            old(self).wf(),
        ensures
            final(self).wf(),
            final(self).fresh_id() == old(self).fresh_id(),
            r is Ok <==> held_by(old(self)@, id, worker),
            r is Ok ==> final(self)@ == old(self)@.update(
                position_of(old(self)@, id),
                leased(old(self)@[position_of(old(self)@, id)], worker, now),
            ),
            r is Err ==> r == Err::<(), QueueError>(QueueError::LeaseMismatch) && final(self)@ == old(self)@,
    {
        let ghost before = self@;
        match self.find_held(id, worker) {
            Some(i) => {
                let mut fresh = self.items[i].duplicate();
                fresh.last_ping = Some(now);
                self.items.set(i, fresh);
                proof {
                    assert(self@ =~= before.update(i as int, leased(before[i as int], worker, now)));
                }
                Ok(())
            },
            None => Err(QueueError::LeaseMismatch),
        }
    }

    /// Takes item `id` out of the queue for its holder: succeeds exactly
    /// when `worker` holds the item, and then returns it. Otherwise nothing
    /// changes.
    pub fn complete(&mut self, id: u64, worker: u64) -> (r: Result<QueueItem, QueueError>)
        requires
            old(self).wf(),
        ensures
            final(self).wf(),
            final(self).fresh_id() == old(self).fresh_id(),
            r is Ok <==> held_by(old(self)@, id, worker),
            r matches Ok(item) ==> item@ == old(self)@[position_of(old(self)@, id)]
                && final(self)@ == old(self)@.remove(position_of(old(self)@, id)),
            r is Err ==> (r matches Err(QueueError::LeaseMismatch)) && final(self)@ == old(self)@,
    {
        let ghost before = self@;
        match self.find_held(id, worker) {
            Some(i) => {
                let item = self.items.remove(i);
                proof {
                    assert(self@ =~= before.remove(i as int));
                }
                Ok(item)
            },
            None => Err(QueueError::LeaseMismatch),
        }
    }

    /// Deletes every item of a package in `pkgs`, leased or not.
    pub fn drop_for_packages(&mut self, pkgs: &Vec<u64>)
        requires
            old(self).wf(),
        ensures
            final(self).wf(),
            final(self).fresh_id() == old(self).fresh_id(),
            final(self)@ == without_packages(old(self)@, pkgs@),
    {
        let ghost before = self@;
        let ghost keep = |it: ItemView| !pkgs@.contains(it.package_id);
        let n: usize = self.items.len();
        let mut kept: Vec<QueueItem> = Vec::new();
        let mut i: usize = 0;
        while i < n
            invariant
                i <= n,
                n == self.items.len(),
                self@ == before,
                keep == (|it: ItemView| !pkgs@.contains(it.package_id)),
                views(kept@) == before.take(i as int).filter(keep),
            decreases n - i,
        {
            let named = contains_id(pkgs, self.items[i].package_id);
            let ghost prev = views(kept@);
            if !named {
                kept.push(self.items[i].duplicate());
            }
            proof {
                reveal(Seq::filter);
                assert(before.take(i + 1).drop_last() =~= before.take(i as int));
                assert(before.take(i + 1).last() == before[i as int]);
                assert(keep(before[i as int]) == !named);
                if !named {
                    assert(views(kept@) =~= prev.push(before[i as int]));
                }
            }
            i = i + 1;
        }
        proof {
            assert(before.take(n as int) =~= before);
            lemma_filter_keeps_valid(before, keep, self.next_id);
        }
        self.items = kept;
    }
}

/// At most one position is the place of an item queued at `t`.
pub proof fn lemma_slot_unique(s: Seq<ItemView>, t: i64, a: int, b: int)
    requires
        slot_for(s, t, a),
        slot_for(s, t, b),
    ensures
        a == b,
{
    if a < b {
        assert(s[a].queued_at > t);
    } else if b < a {
        assert(s[b].queued_at > t);
    }
}

/// Whether `id` occurs in `ids`.
pub fn contains_id(ids: &Vec<u64>, id: u64) -> (r: bool)
    ensures
        r == ids@.contains(id),
{
    let mut i: usize = 0;
    while i < ids.len()
        invariant
            i <= ids.len(),
            forall|j: int| 0 <= j < i ==> ids@[j] != id,
        decreases ids.len() - i,
    {
        if ids[i] == id {
            return true;
        }
        i = i + 1;
    }
    false
}

/// A filtered queue keeps the queue's invariant.
pub proof fn lemma_filter_keeps_valid(s: Seq<ItemView>, keep: spec_fn(ItemView) -> bool, next_id: u64)
    requires
        valid_queue(s, next_id),
    ensures
        valid_queue(s.filter(keep), next_id),
    decreases s.len(),
{
    reveal(Seq::filter);
    if s.len() > 0 {
        let front = s.drop_last();
        lemma_filter_keeps_valid(front, keep, next_id);
        let f = front.filter(keep);
        assert forall|i: int| 0 <= i < f.len() implies (#[trigger] f[i]).id != s.last().id
            && f[i].queued_at <= s.last().queued_at by {
            front.lemma_filter_contains_rev(keep, f[i]);
            let k = choose|k: int| 0 <= k < front.len() && front[k] == f[i];
            assert(s[k] == f[i]);
        }
    }
}

} // verus!
