use rebuild_dispatch::clock::older_than;
use rebuild_dispatch::queue::{contains_id, DispatchQueue, QueueError};

fn ids(q: &DispatchQueue) -> Vec<u64> {
    q.list(usize::MAX).iter().map(|it| it.id).collect()
}

#[test]
fn push_gives_fresh_ids_and_keeps_duplicates() {
    let mut q = DispatchQueue::new();
    assert_eq!(q.push(7, "1.0".to_string(), 100), Ok(0));
    assert_eq!(q.push(7, "1.0".to_string(), 100), Ok(1));
    assert_eq!(q.len(), 2);
    let items = q.list(10);
    assert_eq!(items[0].package_id, 7);
    assert_eq!(items[0].version, "1.0");
    assert_eq!(items[0].queued_at, 100);
    assert_eq!(items[0].worker_id, None);
    assert_eq!(items[0].last_ping, None);
    assert_eq!(items[1].id, 1);
}

#[test]
fn push_keeps_oldest_first() {
    let mut q = DispatchQueue::new();
    q.push(1, "a".to_string(), 50).unwrap();
    q.push(2, "b".to_string(), 10).unwrap();
    q.push(3, "c".to_string(), 30).unwrap();
    q.push(4, "d".to_string(), 30).unwrap();
    assert_eq!(ids(&q), vec![1, 2, 3, 0]);
}

#[test]
fn list_is_limited() {
    let mut q = DispatchQueue::new();
    for t in 0..5 {
        q.push(t, "v".to_string(), t as i64).unwrap();
    }
    assert_eq!(q.list(0).len(), 0);
    let two = q.list(2);
    assert_eq!(two.len(), 2);
    assert_eq!(two[0].id, 0);
    assert_eq!(two[1].id, 1);
    assert_eq!(q.list(9).len(), 5);
}

#[test]
fn pop_leases_oldest_free_item() {
    let mut q = DispatchQueue::new();
    q.push(1, "a".to_string(), 20).unwrap();
    q.push(2, "b".to_string(), 10).unwrap();
    let got = q.pop_next(9, 77).unwrap();
    assert_eq!(got.id, 1);
    assert_eq!(got.package_id, 2);
    assert_eq!(got.worker_id, Some(9));
    assert_eq!(got.last_ping, Some(77));
    let listed = q.list(10);
    assert_eq!(listed[0].worker_id, Some(9));
    assert_eq!(listed[0].last_ping, Some(77));
    assert_eq!(listed[1].worker_id, None);
}

#[test]
fn pop_on_empty_queue_gives_nothing() {
    let mut q = DispatchQueue::new();
    assert!(q.pop_next(1, 0).is_none());
}

#[test]
fn n_pops_on_n_items_are_distinct() {
    let mut q = DispatchQueue::new();
    for t in 0..4 {
        q.push(t, "v".to_string(), 10).unwrap();
    }
    let mut seen = Vec::new();
    for w in 0..4u64 {
        let got = q.pop_next(w, 11).unwrap();
        assert!(!seen.contains(&got.id));
        assert_eq!(got.worker_id, Some(w));
        seen.push(got.id);
    }
    assert_eq!(seen, vec![0, 1, 2, 3]);
    assert!(q.pop_next(99, 12).is_none());
}

#[test]
fn second_pop_after_single_push_is_nothing() {
    let mut q = DispatchQueue::new();
    q.push(5, "v1".to_string(), 1).unwrap();
    let first = q.pop_next(1, 2).unwrap();
    assert_eq!(first.package_id, 5);
    assert_eq!(first.version, "v1");
    assert!(q.pop_next(2, 2).is_none());
}

#[test]
fn expired_lease_is_reclaimed_and_claimed_again() {
    let mut q = DispatchQueue::new();
    let id = q.push(5, "v1".to_string(), 0).unwrap();
    assert_eq!(q.pop_next(1, 100).unwrap().id, id);
    q.reclaim_stale(160, 60);
    assert_eq!(q.list(1)[0].worker_id, Some(1));
    assert!(q.pop_next(2, 160).is_none());
    q.reclaim_stale(161, 60);
    let item = &q.list(1)[0];
    assert_eq!(item.worker_id, None);
    assert_eq!(item.last_ping, None);
    let again = q.pop_next(2, 161).unwrap();
    assert_eq!(again.id, id);
    assert_eq!(again.worker_id, Some(2));
    assert_eq!(q.ping(id, 1, 162), Err(QueueError::LeaseMismatch));
}

#[test]
fn reclaim_twice_equals_reclaim_once() {
    let mut a = DispatchQueue::new();
    let mut b = DispatchQueue::new();
    for q in [&mut a, &mut b] {
        q.push(1, "x".to_string(), 0).unwrap();
        q.push(2, "y".to_string(), 1).unwrap();
        q.push(3, "z".to_string(), 2).unwrap();
        q.pop_next(10, 5).unwrap();
        q.pop_next(11, 50).unwrap();
    }
    a.reclaim_stale(70, 30);
    b.reclaim_stale(70, 30);
    b.reclaim_stale(70, 30);
    let (la, lb) = (a.list(10), b.list(10));
    assert_eq!(la.len(), lb.len());
    for (x, y) in la.iter().zip(lb.iter()) {
        assert_eq!((x.id, x.worker_id, x.last_ping), (y.id, y.worker_id, y.last_ping));
    }
    assert_eq!(la[0].worker_id, None);
    assert_eq!(la[1].worker_id, Some(11));
    assert_eq!(la[1].last_ping, Some(50));
}

#[test]
fn ping_by_holder_refreshes() {
    let mut q = DispatchQueue::new();
    let id = q.push(1, "x".to_string(), 0).unwrap();
    q.pop_next(3, 10).unwrap();
    assert_eq!(q.ping(id, 3, 40), Ok(()));
    assert_eq!(q.list(1)[0].last_ping, Some(40));
    assert_eq!(q.list(1)[0].worker_id, Some(3));
}

#[test]
fn ping_by_other_worker_changes_nothing() {
    let mut q = DispatchQueue::new();
    let id = q.push(1, "x".to_string(), 0).unwrap();
    q.pop_next(3, 10).unwrap();
    assert_eq!(q.ping(id, 4, 40), Err(QueueError::LeaseMismatch));
    assert_eq!(q.ping(id + 1, 3, 40), Err(QueueError::LeaseMismatch));
    assert_eq!(q.list(1)[0].last_ping, Some(10));
    assert_eq!(q.list(1)[0].worker_id, Some(3));
}

#[test]
fn ping_on_unassigned_item_is_refused() {
    let mut q = DispatchQueue::new();
    let id = q.push(1, "x".to_string(), 0).unwrap();
    assert_eq!(q.ping(id, 3, 40), Err(QueueError::LeaseMismatch));
}

#[test]
fn complete_by_holder_deletes_item() {
    let mut q = DispatchQueue::new();
    q.push(1, "x".to_string(), 0).unwrap();
    let id = q.push(2, "y".to_string(), 1).unwrap();
    q.pop_next(3, 10).unwrap();
    q.pop_next(4, 10).unwrap();
    let done = q.complete(id, 4).unwrap();
    assert_eq!(done.package_id, 2);
    assert_eq!(ids(&q), vec![0]);
}

#[test]
fn complete_by_other_worker_is_refused() {
    let mut q = DispatchQueue::new();
    let id = q.push(1, "x".to_string(), 0).unwrap();
    q.pop_next(3, 10).unwrap();
    assert!(matches!(q.complete(id, 4), Err(QueueError::LeaseMismatch)));
    assert_eq!(q.len(), 1);
    assert_eq!(q.list(1)[0].worker_id, Some(3));
}

#[test]
fn drop_ignores_leases() {
    let mut q = DispatchQueue::new();
    q.push(1, "x".to_string(), 0).unwrap();
    q.push(2, "y".to_string(), 1).unwrap();
    q.push(1, "z".to_string(), 2).unwrap();
    q.push(3, "w".to_string(), 3).unwrap();
    q.pop_next(8, 5).unwrap();
    q.drop_for_packages(&vec![1, 3]);
    assert_eq!(ids(&q), vec![1]);
    q.drop_for_packages(&vec![]);
    assert_eq!(ids(&q), vec![1]);
}

#[test]
fn push_all_queues_in_order() {
    let mut q = DispatchQueue::new();
    let all = q.push_all(&vec![(4, "a".to_string()), (5, "b".to_string())], 9);
    assert!(all);
    let l = q.list(10);
    assert_eq!((l[0].id, l[0].package_id, l[0].version.as_str()), (0, 4, "a"));
    assert_eq!((l[1].id, l[1].package_id, l[1].version.as_str()), (1, 5, "b"));
}

#[test]
fn older_than_is_strict_and_exact() {
    assert!(!older_than(100, 160, 60));
    assert!(older_than(100, 161, 60));
    assert!(older_than(i64::MIN, i64::MAX, i64::MAX));
    assert!(!older_than(i64::MAX, i64::MIN, 0));
}

#[test]
fn contains_id_finds_members_only() {
    assert!(contains_id(&vec![1, 2, 3], 2));
    assert!(!contains_id(&vec![1, 2, 3], 4));
    assert!(!contains_id(&vec![], 0));
}
