//! The registry of workers: who has been seen, and when.

use vstd::prelude::*;

verus! {

/// A worker agent, known by its credential key.
pub struct Worker {
    pub id: u64,
    pub key: String,
    pub addr: String,
    pub last_ping: i64,
    pub online: bool,
    /// What the worker is doing, in free text.
    pub status: Option<String>,
}

/// The mathematical value of a [`Worker`].
pub struct WorkerView {
    pub id: u64,
    pub key: Seq<char>,
    pub addr: Seq<char>,
    pub last_ping: i64,
    pub online: bool,
    pub status: Option<Seq<char>>,
}

impl View for Worker {
    type V = WorkerView;

    open spec fn view(&self) -> WorkerView {
        WorkerView {
            id: self.id,
            key: self.key@,
            addr: self.addr@,
            last_ping: self.last_ping,
            online: self.online,
            status: crate::catalog::text_view(self.status),
        }
    }
}

/// A copy of an optional text.
pub fn copy_text(t: &Option<String>) -> (r: Option<String>)
    ensures
        crate::catalog::text_view(r) == crate::catalog::text_view(*t),
{
    match t {
        Some(s) => Some(s.clone()),
        None => None,
    }
}

impl Worker {
    /// A copy with the same value.
    pub fn duplicate(&self) -> (r: Worker)
        ensures
            r@ == self@,
    {
        Worker {
            id: self.id,
            key: self.key.clone(),
            addr: self.addr.clone(),
            last_ping: self.last_ping,
            online: self.online,
            status: copy_text(&self.status),
        }
    }
}

/// No further worker id can be given out.
#[derive(Debug, Clone, Copy, PartialEq, Eq, Structural)]
pub struct RegistryFull;

/// The views of a sequence of workers, in the same order.
pub open spec fn worker_views(v: Seq<Worker>) -> Seq<WorkerView> {
    Seq::new(v.len(), |i: int| v[i]@)
}

/// Some worker has this credential key.
pub open spec fn knows_key(s: Seq<WorkerView>, key: Seq<char>) -> bool {
    exists|i: int| 0 <= i < s.len() && (#[trigger] s[i]).key == key
}

/// The position of the worker with this key, where there is one.
pub open spec fn key_position(s: Seq<WorkerView>, key: Seq<char>) -> int {
    choose|i: int| 0 <= i < s.len() && (#[trigger] s[i]).key == key
}

/// The registry, its next fresh id and the worker handed out after a
/// contact under `key` from `addr` at `now`: a known worker has its last
/// ping renewed; an unknown one is registered, unless no id is left.
pub open spec fn identified(s: Seq<WorkerView>, next_id: u64, key: Seq<char>, addr: Seq<char>, now: i64) -> (
    Seq<WorkerView>,
    u64,
    Option<WorkerView>,
) {
    if knows_key(s, key) {
        let i = key_position(s, key);
        let w = WorkerView { last_ping: now, ..s[i] };
        (s.update(i, w), next_id, Some(w))
    } else if next_id == u64::MAX {
        (s, next_id, None)
    } else {
        let w = WorkerView { id: next_id, key, addr, last_ping: now, online: true, status: None };
        (s.push(w), (next_id + 1) as u64, Some(w))
    }
}

/// The value of an identified worker, if there is one.
pub open spec fn worker_view(r: Result<Worker, RegistryFull>) -> Option<WorkerView> {
    match r {
        Ok(w) => Some(w@),
        Err(_) => None,
    }
}

/// A worker is stale when its last ping is more than `timeout` before `now`.
pub open spec fn stale(w: WorkerView, now: i64, timeout: i64) -> bool {
    now - w.last_ping > timeout
}

/// The registry after the staleness sweep: stale workers are offline, the
/// others are as they were.
pub open spec fn swept(s: Seq<WorkerView>, now: i64, timeout: i64) -> Seq<WorkerView> {
    Seq::new(s.len(), |i: int| if stale(s[i], now, timeout) { WorkerView { online: false, ..s[i] } } else { s[i] })
}

/// The registry with the activity label of worker `id` replaced.
pub open spec fn with_label(s: Seq<WorkerView>, id: u64, label: Option<Seq<char>>) -> Seq<WorkerView> {
    Seq::new(s.len(), |i: int| if s[i].id == id { WorkerView { status: label, ..s[i] } } else { s[i] })
}

/// No two workers share a key or an id, and every id is below `next_id`.
pub open spec fn valid_registry(s: Seq<WorkerView>, next_id: u64) -> bool {
    &&& forall|i: int, j: int|
        0 <= i < s.len() && 0 <= j < s.len() && i != j ==> (#[trigger] s[i]).key != (#[trigger] s[j]).key
    &&& forall|i: int, j: int|
        0 <= i < s.len() && 0 <= j < s.len() && i != j ==> (#[trigger] s[i]).id != (#[trigger] s[j]).id
    &&& forall|i: int| 0 <= i < s.len() ==> (#[trigger] s[i]).id < next_id
}

/// The workers seen so far, in the order of their first contact.
pub struct WorkerRegistry {
    workers: Vec<Worker>,
    next_id: u64,
}

impl View for WorkerRegistry {
    type V = Seq<WorkerView>;

    closed spec fn view(&self) -> Seq<WorkerView> {
        worker_views(self.workers@)
    }
}

impl WorkerRegistry {
    /// The id that the next new worker gets.
    pub closed spec fn fresh_id(&self) -> u64 {
        self.next_id
    }

    /// The registry's invariant.
    pub open spec fn wf(&self) -> bool {
        valid_registry(self@, self.fresh_id())
    }

    /// An empty registry.
    pub fn new() -> (r: WorkerRegistry)
        ensures
            r.wf(),
            r@ == Seq::<WorkerView>::empty(),
            r.fresh_id() == 0,
    {
        let r = WorkerRegistry { workers: Vec::new(), next_id: 0 };
        assert(r@ =~= Seq::<WorkerView>::empty());
        r
    }

    /// Finds the worker with this credential key and sets its last ping to
    /// `now`; where there is none, registers one under that key, online and
    /// without an activity label. Either way the worker is returned. Fails,
    /// with no change, only where a new worker is needed and no id is left.
    pub fn identify(&mut self, key: &String, addr: &String, now: i64) -> (r: Result<Worker, RegistryFull>)
        requires
            old(self).wf(),
        ensures
            final(self).wf(),
            (final(self)@, final(self).fresh_id(), worker_view(r)) == identified(
                old(self)@,
                old(self).fresh_id(),
                key@,
                addr@,
                now,
            ),
    {
        let ghost before = self@;
        let n: usize = self.workers.len();
        let mut i: usize = 0;
        while i < n
            invariant
                i <= n,
                n == self.workers.len(),
                self@ == before,
                before == old(self)@,
                self.next_id == old(self).next_id,
                self.wf(),
                forall|j: int| 0 <= j < i ==> (#[trigger] before[j]).key != key@,
            decreases n - i,
        {
            if self.workers[i].key == *key {
                assert(before[i as int].key == key@);
                let mut seen = self.workers[i].duplicate();
                seen.last_ping = now;
                let handed = seen.duplicate();
                self.workers.set(i, seen);
                proof {
                    assert(key_position(before, key@) == i);
                    assert(self@ =~= before.update(i as int, handed@));
                }
                return Ok(handed);
            }
            assert(before[i as int].key != key@);
            i = i + 1;
        }
        if self.next_id == u64::MAX {
            return Err(RegistryFull);
        }
        let id: u64 = self.next_id;
        let fresh = Worker { id, key: key.clone(), addr: addr.clone(), last_ping: now, online: true, status: None };
        let handed = fresh.duplicate();
        self.workers.push(fresh);
        self.next_id = id + 1;
        proof {
            assert(self@ =~= before.push(handed@));
        }
        Ok(handed)
    }

    /// Marks every worker offline whose last ping is more than
    /// `offline_timeout` before `now`.
    pub fn mark_offline_if_stale(&mut self, now: i64, offline_timeout: i64)
        requires
            old(self).wf(),
        ensures
            final(self).wf(),
            final(self).fresh_id() == old(self).fresh_id(),
            final(self)@ == swept(old(self)@, now, offline_timeout),
    {
        let ghost before = self@;
        let n: usize = self.workers.len();
        let mut i: usize = 0;
        while i < n
            invariant
                i <= n,
                n == self.workers.len(),
                n == before.len(),
                self.next_id == old(self).next_id,
                forall|j: int| 0 <= j < i ==> (#[trigger] self@[j]) == swept(before, now, offline_timeout)[j],
                forall|j: int| i <= j < n ==> (#[trigger] self@[j]) == before[j],
            decreases n - i,
        {
            let ghost mid = self@;
            if crate::clock::older_than(self.workers[i].last_ping, now, offline_timeout) {
                let mut gone = self.workers[i].duplicate();
                gone.online = false;
                self.workers.set(i, gone);
            }
            proof {
                assert(mid[i as int] == before[i as int]);
                assert forall|j: int| 0 <= j < i + 1 implies (#[trigger] self@[j]) == swept(
                    before,
                    now,
                    offline_timeout,
                )[j] by {
                    if j < i {
                        assert(self@[j] == mid[j]);
                    }
                }
                assert forall|j: int| i + 1 <= j < n implies (#[trigger] self@[j]) == before[j] by {
                    assert(self@[j] == mid[j]);
                }
            }
            i = i + 1;
        }
        proof {
            assert(self@ =~= swept(before, now, offline_timeout));
        }
    }

    /// Stores what worker `id` is doing; `None` clears it. A registry
    /// without that worker is left as it is.
    pub fn set_status(&mut self, id: u64, label: Option<String>)
        requires
            old(self).wf(),
        ensures
            final(self).wf(),
            final(self).fresh_id() == old(self).fresh_id(),
            final(self)@ == with_label(old(self)@, id, crate::catalog::text_view(label)),
    {
        let ghost before = self@;
        let ghost want = with_label(before, id, crate::catalog::text_view(label));
        let n: usize = self.workers.len();
        let mut i: usize = 0;
        while i < n
            invariant
                i <= n,
                n == self.workers.len(),
                n == before.len(),
                self.next_id == old(self).next_id,
                want == with_label(before, id, crate::catalog::text_view(label)),
                forall|j: int| 0 <= j < i ==> (#[trigger] self@[j]) == want[j],
                forall|j: int| i <= j < n ==> (#[trigger] self@[j]) == before[j],
            decreases n - i,
        {
            let ghost mid = self@;
            if self.workers[i].id == id {
                let mut busy = self.workers[i].duplicate();
                busy.status = copy_text(&label);
                self.workers.set(i, busy);
            }
            proof {
                assert(mid[i as int] == before[i as int]);
                assert forall|j: int| 0 <= j < i + 1 implies (#[trigger] self@[j]) == want[j] by {
                    if j < i {
                        assert(self@[j] == mid[j]);
                    }
                }
                assert forall|j: int| i + 1 <= j < n implies (#[trigger] self@[j]) == before[j] by {
                    assert(self@[j] == mid[j]);
                }
            }
            i = i + 1;
        }
        proof {
            assert(self@ =~= want);
        }
    }

    /// All workers, after the staleness sweep.
    pub fn list(&mut self, now: i64, offline_timeout: i64) -> (out: Vec<Worker>)
        requires
            old(self).wf(),
        ensures
            final(self).wf(),
            final(self).fresh_id() == old(self).fresh_id(),
            final(self)@ == swept(old(self)@, now, offline_timeout),
            worker_views(out@) == final(self)@,
    {
        self.mark_offline_if_stale(now, offline_timeout);
        let n: usize = self.workers.len();
        let mut out: Vec<Worker> = Vec::new();
        let mut i: usize = 0;
        while i < n
            invariant
                i <= n,
                n == self.workers.len(),
                out.len() == i,
                forall|j: int| 0 <= j < i ==> (#[trigger] out[j])@ == self@[j],
            decreases n - i,
        {
            out.push(self.workers[i].duplicate());
            i = i + 1;
        }
        proof {
            assert(worker_views(out@) =~= self@);
        }
        out
    }
}

} // verus!
