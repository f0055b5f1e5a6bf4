//! What holds of the queue across several operations.

use vstd::prelude::*;
use crate::api::{JobView, job_for};
use crate::catalog::{PackageView, package_position, valid_catalog};
use crate::queue::{
    ItemView, distinct_ids, none_free, oldest_first, oldest_free, popped, pushed, pushed_all, reclaimed, slot,
    slot_for,
};

verus! {

/// Clearing expired leases twice, with nothing in between, leaves the queue
/// as clearing them once does.
pub proof fn reclaim_twice_is_once(s: Seq<ItemView>, now: i64, timeout: i64)
    ensures
        reclaimed(reclaimed(s, now, timeout), now, timeout) == reclaimed(s, now, timeout),
{
    assert(reclaimed(reclaimed(s, now, timeout), now, timeout) =~= reclaimed(s, now, timeout));
}

/// A run of pops, one after the other: `states[k]` is the queue before the
/// `k`-th pop, made by `workers[k]` at `times[k]`, and `got[k]` is what
/// that pop handed out.
pub open spec fn pop_run(
    states: Seq<Seq<ItemView>>,
    workers: Seq<u64>,
    times: Seq<i64>,
    got: Seq<Option<ItemView>>,
) -> bool {
    &&& states.len() == workers.len() + 1
    &&& times.len() == workers.len()
    &&& got.len() == workers.len()
    &&& forall|k: int|
        0 <= k < workers.len() ==> popped(states[k], workers[k], times[k], #[trigger] states[k + 1], got[k])
}

/// Through a run of pops the items keep their places and ids, and an item
/// that is held stays held.
pub proof fn pops_keep_leases(
    states: Seq<Seq<ItemView>>,
    workers: Seq<u64>,
    times: Seq<i64>,
    got: Seq<Option<ItemView>>,
    k: int,
    l: int,
)
    requires
        pop_run(states, workers, times, got),
        0 <= k <= l <= workers.len(),
    ensures
        states[l].len() == states[k].len(),
        forall|i: int| 0 <= i < states[k].len() ==> (#[trigger] states[l][i]).id == states[k][i].id,
        forall|i: int|
            0 <= i < states[k].len() && states[k][i].worker_id is Some ==> (#[trigger] states[l][i]).worker_id
                is Some,
    decreases l - k,
{
    if k < l {
        pops_keep_leases(states, workers, times, got, k, l - 1);
        assert(popped(states[l - 1], workers[l - 1], times[l - 1], states[l - 1 + 1], got[l - 1]));
    }
}

/// Mutual exclusion: in a run of pops on a queue, no item is handed out
/// twice. Any two pops of the run that hand out an item hand out different
/// items.
pub proof fn pops_hand_out_distinct_items(
    states: Seq<Seq<ItemView>>,
    workers: Seq<u64>,
    times: Seq<i64>,
    got: Seq<Option<ItemView>>,
    a: int,
    b: int,
)
    requires
        pop_run(states, workers, times, got),
        distinct_ids(states[0]),
        0 <= a < b < workers.len(),
        got[a] is Some,
        got[b] is Some,
    ensures
        got[a]->0.id != got[b]->0.id,
{
    assert(popped(states[a], workers[a], times[a], states[a + 1], got[a]));
    assert(popped(states[b], workers[b], times[b], states[b + 1], got[b]));
    let ia = choose|i: int| #[trigger]
        oldest_free(states[a], i) && got[a]->0 == crate::queue::leased(states[a][i], workers[a], times[a])
            && states[a + 1] == states[a].update(i, got[a]->0);
    let ib = choose|i: int| #[trigger]
        oldest_free(states[b], i) && got[b]->0 == crate::queue::leased(states[b][i], workers[b], times[b])
            && states[b + 1] == states[b].update(i, got[b]->0);
    pops_keep_leases(states, workers, times, got, 0, a);
    pops_keep_leases(states, workers, times, got, 0, b);
    pops_keep_leases(states, workers, times, got, a + 1, b);
    pops_keep_leases(states, workers, times, got, 0, a + 1);
    assert(states[a + 1][ia].worker_id is Some);
    assert(states[b][ia].worker_id is Some);
    assert(ia != ib);
    assert(states[0][ia].id != states[0][ib].id);
}

/// Lease exclusivity: a worker that is not the holder of an item does not
/// hold it, so its pings and reports on that item are refused and change
/// nothing.
pub proof fn only_the_holder_holds(s: Seq<ItemView>, i: int, worker: u64)
    requires
        distinct_ids(s),
        0 <= i < s.len(),
        s[i].worker_id != Some(worker),
    ensures
        !crate::queue::held_by(s, s[i].id, worker),
{
    if crate::queue::held_by(s, s[i].id, worker) {
        let j = choose|j: int| 0 <= j < s.len() && (#[trigger] s[j]).id == s[i].id && s[j].worker_id == Some(worker);
        assert(j == i);
    }
}

/// The number of items that nobody holds.
pub open spec fn free_count(s: Seq<ItemView>) -> nat
    decreases s.len(),
{
    if s.len() == 0 {
        0
    } else {
        free_count(s.drop_last()) + if s.last().worker_id is None {
            1nat
        } else {
            0nat
        }
    }
}

/// Where every item is held, none is free.
pub proof fn no_free_item_counts_zero(s: Seq<ItemView>)
    requires
        none_free(s),
    ensures
        free_count(s) == 0,
    decreases s.len(),
{
    if s.len() > 0 {
        assert(s[s.len() - 1].worker_id is Some);
        assert forall|j: int| 0 <= j < s.drop_last().len() implies (#[trigger] s.drop_last()[j]).worker_id
            is Some by {
            assert(s[j].worker_id is Some);
        }
        no_free_item_counts_zero(s.drop_last());
    }
}

/// Leasing one free item leaves one free item fewer.
pub proof fn lease_takes_one_free_item(s: Seq<ItemView>, i: int, item: ItemView)
    requires
        0 <= i < s.len(),
        s[i].worker_id is None,
        item.worker_id is Some,
    ensures
        free_count(s.update(i, item)) + 1 == free_count(s),
    decreases s.len(),
{
    let t = s.update(i, item);
    if i == s.len() - 1 {
        assert(t.drop_last() =~= s.drop_last());
    } else {
        assert(t.drop_last() =~= s.drop_last().update(i, item));
        lease_takes_one_free_item(s.drop_last(), i, item);
    }
}

/// Through the first `k` pops of a run on a queue with at least as many
/// free items as pops, every pop hands out an item.
pub proof fn pops_succeed_up_to(
    states: Seq<Seq<ItemView>>,
    workers: Seq<u64>,
    times: Seq<i64>,
    got: Seq<Option<ItemView>>,
    k: int,
)
    requires
        pop_run(states, workers, times, got),
        free_count(states[0]) >= workers.len(),
        0 <= k <= workers.len(),
    ensures
        free_count(states[k]) + k == free_count(states[0]),
        forall|j: int| 0 <= j < k ==> (#[trigger] got[j]) is Some,
    decreases k,
{
    if k > 0 {
        pops_succeed_up_to(states, workers, times, got, k - 1);
        let pre = states[k - 1];
        assert(popped(pre, workers[k - 1], times[k - 1], states[k - 1 + 1], got[k - 1]));
        if got[k - 1] is None {
            no_free_item_counts_zero(pre);
        } else {
            let item = got[k - 1]->0;
            let i = choose|i: int| #[trigger]
                oldest_free(pre, i) && item == crate::queue::leased(pre[i], workers[k - 1], times[k - 1])
                    && states[k - 1 + 1] == pre.update(i, item);
            lease_takes_one_free_item(pre, i, item);
        }
    }
}

/// Mutual exclusion: `n` pops on a queue that holds `n` unassigned items
/// each hand out an item, and no two of them the same.
pub proof fn n_pops_claim_n_items(
    states: Seq<Seq<ItemView>>,
    workers: Seq<u64>,
    times: Seq<i64>,
    got: Seq<Option<ItemView>>,
)
    requires
        pop_run(states, workers, times, got),
        distinct_ids(states[0]),
        free_count(states[0]) == workers.len(),
    ensures
        forall|j: int| 0 <= j < workers.len() ==> (#[trigger] got[j]) is Some,
        forall|a: int, b: int|
            0 <= a < b < workers.len() ==> (#[trigger] got[a])->0.id != (#[trigger] got[b])->0.id,
        free_count(states[workers.len() as int]) == 0,
{
    pops_succeed_up_to(states, workers, times, got, workers.len() as int);
    assert forall|a: int, b: int| 0 <= a < b < workers.len() implies (#[trigger] got[a])->0.id != (
    #[trigger] got[b])->0.id by {
        pops_hand_out_distinct_items(states, workers, times, got, a, b);
    }
}

/// An item that a pop hands out was held by nobody before the pop, and the
/// pop changes no other item.
pub proof fn pop_takes_only_a_free_item(
    pre: Seq<ItemView>,
    worker: u64,
    now: i64,
    post: Seq<ItemView>,
    item: ItemView,
)
    requires
        popped(pre, worker, now, post, Some(item)),
    ensures
        exists|i: int|
            0 <= i < pre.len() && (#[trigger] pre[i]).worker_id is None && pre[i].id == item.id && post
                == pre.update(i, item),
        item.worker_id == Some(worker),
        item.last_ping == Some(now),
{
    let i = choose|i: int| #[trigger]
        oldest_free(pre, i) && item == crate::queue::leased(pre[i], worker, now) && post == pre.update(i, item);
    assert(pre[i].worker_id is None);
}

/// A queue that keeps the oldest first has a place for an item queued at
/// any time.
pub proof fn slot_exists(s: Seq<ItemView>, t: i64)
    requires
        oldest_first(s),
    ensures
        slot_for(s, t, slot(s, t)),
    decreases s.len(),
{
    if s.len() == 0 {
        assert(slot_for(s, t, 0));
    } else if s.last().queued_at <= t {
        assert forall|j: int| 0 <= j < s.len() implies (#[trigger] s[j]).queued_at <= t by {
            if j < s.len() - 1 {
                assert(s[j].queued_at <= s[s.len() - 1].queued_at);
            }
        }
        assert(slot_for(s, t, s.len() as int));
    } else {
        let front = s.drop_last();
        assert(oldest_first(front)) by {
            assert forall|i: int, j: int| 0 <= i < j < front.len() implies (#[trigger] front[i]).queued_at <= (
            #[trigger] front[j]).queued_at by {
                assert(s[i].queued_at <= s[j].queued_at);
            }
        }
        slot_exists(front, t);
        let p = slot(front, t);
        assert forall|j: int| 0 <= j < p implies (#[trigger] s[j]).queued_at <= t by {
            assert(front[j].queued_at <= t);
        }
        assert forall|j: int| p <= j < s.len() implies (#[trigger] s[j]).queued_at > t by {
            if j < s.len() - 1 {
                assert(front[j].queued_at > t);
            }
        }
        assert(slot_for(s, t, p));
    }
}

/// Pushing a list of one entry is one push.
pub proof fn push_all_of_one_is_push(s: Seq<ItemView>, next_id: u64, package_id: u64, version: Seq<char>, now: i64)
    ensures
        pushed_all(s, next_id, seq![(package_id, version)], now) == pushed(s, next_id, package_id, version, now),
{
    let one = seq![(package_id, version)];
    assert(one.drop_last().len() == 0);
    assert(pushed_all(s, next_id, one.drop_last(), now) == (s, next_id));
    assert(one.last() == (package_id, version));
}

/// Round trip: where no item waits unassigned, a push of package
/// `catalog[at]` at `version` followed by a pop hands out the pushed item,
/// and the job made of it carries the version that was pushed and the
/// name, distro, suite and architecture of that package.
pub proof fn push_then_pop_round_trip(
    catalog: Seq<PackageView>,
    next_package: u64,
    at: int,
    queue: Seq<ItemView>,
    next_item: u64,
    version: Seq<char>,
    queued_at: i64,
    worker: u64,
    now: i64,
    post: Seq<ItemView>,
    got: Option<ItemView>,
)
    requires
        valid_catalog(catalog, next_package),
        0 <= at < catalog.len(),
        oldest_first(queue),
        none_free(queue),
        next_item < u64::MAX,
        popped(pushed(queue, next_item, catalog[at].id, version, queued_at).0, worker, now, post, got),
    ensures
        got is Some,
        got->0.id == next_item,
        got->0.worker_id == Some(worker),
        job_for(catalog, got->0) == (JobView {
            item: got->0,
            package: Some(PackageView { version: version, ..catalog[at] }),
        }),
{
    slot_exists(queue, queued_at);
    let p = slot(queue, queued_at);
    let mid = pushed(queue, next_item, catalog[at].id, version, queued_at).0;
    assert(mid[p].worker_id is None);
    assert forall|j: int| 0 <= j < mid.len() && j != p implies (#[trigger] mid[j]).worker_id is Some by {
        if j < p {
            assert(mid[j] == queue[j]);
        } else {
            assert(mid[j] == queue[j - 1]);
        }
    }
    assert(!none_free(mid));
    let i = choose|i: int| #[trigger]
        oldest_free(mid, i) && got->0 == crate::queue::leased(mid[i], worker, now) && post == mid.update(
            i,
            got->0,
        );
    assert(i == p);
    assert(catalog[at].id == got->0.package_id);
    let k = package_position(catalog, got->0.package_id);
    assert(k == at);
}

} // verus!
