//! A node-local registry of live media workers: workers register, report
//! heartbeats and drain; a new call goes to a healthy worker with the most
//! spare capacity.
//!
//! Times are milliseconds on a monotonic clock that the caller reads.

use crate::seqs::sorted_by_rank;
use crate::text::to_owned;
use dashmap::DashMap;
use vstd::prelude::*;

verus! {

/// A registered media worker.
#[derive(Clone, Debug)]
pub struct WorkerEntry {
    pub worker_id: String,
    /// Internal SIP address (the edge sends INVITE here).
    pub sip_addr: String,
    pub rtp_external_ip: String,
    pub rtp_start_port: u32,
    pub rtp_end_port: u32,
    pub max_concurrent: u32,
    pub active_calls: u32,
    /// The reported CPU usage, as the bits of an `f32`.
    pub cpu_usage_bits: u32,
    pub registered_at_ms: i64,
    pub last_heartbeat_ms: i64,
    /// Whether the worker stops accepting new calls.
    pub draining: bool,
}

/// Spare call capacity: `max_concurrent - active_calls`, or 0 when full.
pub open spec fn spare(e: WorkerEntry) -> int {
    if e.active_calls <= e.max_concurrent {
        e.max_concurrent - e.active_calls
    } else {
        0
    }
}

/// Time since the last heartbeat at `now_ms`, never below zero.
pub open spec fn silence_ms(e: WorkerEntry, now_ms: i64) -> int {
    if now_ms > e.last_heartbeat_ms {
        now_ms - e.last_heartbeat_ms
    } else {
        0
    }
}

/// Whether the worker takes calls at `now_ms`: not draining, and heard from
/// within `timeout_ms`.
pub open spec fn healthy(e: WorkerEntry, timeout_ms: u64, now_ms: i64) -> bool {
    !e.draining && silence_ms(e, now_ms) < timeout_ms
}

impl WorkerEntry {
    /// Spare call capacity.
    pub fn available_capacity(&self) -> (r: u32)
        ensures
            r == spare(*self),
    {
        self.max_concurrent.saturating_sub(self.active_calls)
    }

    /// Whether the worker takes calls at `now_ms`.
    pub fn is_healthy(&self, timeout_ms: u64, now_ms: i64) -> (r: bool)
        ensures
            r == healthy(*self, timeout_ms, now_ms),
    {
        let d: i128 = (now_ms as i128) - (self.last_heartbeat_ms as i128);
        let silence: i128 = if d > 0 {
            d
        } else {
            0
        };
        !self.draining && silence < (timeout_ms as i128)
    }
}

/// A worker table, by worker id.
pub type WorkerTable = DashMap<String, WorkerEntry>;

/// What a worker table holds: the entry of each worker id.
pub uninterp spec fn worker_entries(table: DashMap<String, WorkerEntry>) -> Map<Seq<char>, WorkerEntry>;

/// A worker table with no entry.
pub open spec fn no_workers() -> Map<Seq<char>, WorkerEntry> {
    Map::empty()
}

/// Whether `ps` lists the entries of `m`: each key once, with its entry.
pub open spec fn lists_entries(ps: Seq<(String, WorkerEntry)>, m: Map<Seq<char>, WorkerEntry>) -> bool {
    &&& forall|i: int| 0 <= i < ps.len() ==> m.contains_key(#[trigger] ps[i].0@) && m[ps[i].0@] == ps[i].1
    &&& forall|i: int, j: int| 0 <= i < j < ps.len() ==> #[trigger] ps[i].0@ != #[trigger] ps[j].0@
    &&& forall|k: Seq<char>| #[trigger] m.contains_key(k) ==> exists|i: int| 0 <= i < ps.len() && ps[i].0@ == k
}

/// `DashMap::new` for workers: an empty table.
#[verifier::external_body]
fn new_worker_table() -> (r: WorkerTable)
    ensures
        worker_entries(r) == no_workers(),
{
    DashMap::new()
}

/// `DashMap::get` for workers: a copy of the entry stored under `worker_id`,
/// if there is one.
#[verifier::external_body]
fn worker_table_get(table: &DashMap<String, WorkerEntry>, worker_id: &str) -> (r: Option<WorkerEntry>)
    ensures
        r == worker_entries(*table).get(worker_id@),
{
    table.get(worker_id).map(|e| e.value().clone())
}

/// `DashMap::insert` for workers: `worker_id` now holds `entry`.
#[verifier::external_body]
fn worker_table_insert(table: &mut DashMap<String, WorkerEntry>, worker_id: String, entry: WorkerEntry)
    ensures
        worker_entries(*final(table)) == worker_entries(*old(table)).insert(worker_id@, entry),
{
    table.insert(worker_id, entry);
}

/// `DashMap::remove` for workers: `worker_id` holds nothing afterwards.
#[verifier::external_body]
fn worker_table_remove(table: &mut DashMap<String, WorkerEntry>, worker_id: &str)
    ensures
        worker_entries(*final(table)) == worker_entries(*old(table)).remove(worker_id@),
{
    table.remove(worker_id);
}

/// `DashMap::iter` for workers: every entry once, as (worker id, entry), in
/// the table's own order, which nothing here fixes.
#[verifier::external_body]
fn worker_table_entries(table: &DashMap<String, WorkerEntry>) -> (r: Vec<(String, WorkerEntry)>)
    ensures
        lists_entries(r@, worker_entries(*table)),
{
    table.iter().map(|e| (e.key().clone(), e.value().clone())).collect()
}

/// The spare capacity of an entry, as a rank.
pub open spec fn capacity_rank() -> spec_fn(WorkerEntry) -> int {
    |e: WorkerEntry| spare(e)
}

/// Whether `r` holds exactly the entries of `m` that are healthy at
/// `now_ms`, each once, most spare capacity first.
pub open spec fn available_ok(r: Seq<WorkerEntry>, m: Map<Seq<char>, WorkerEntry>, timeout_ms: u64, now_ms: i64) -> bool {
    &&& forall|i: int|
        0 <= i < r.len() ==> m.contains_key((#[trigger] r[i]).worker_id@) && m[r[i].worker_id@] == r[i]
            && healthy(r[i], timeout_ms, now_ms)
    &&& forall|k: Seq<char>|
        #[trigger] m.contains_key(k) && healthy(m[k], timeout_ms, now_ms) ==> exists|i: int|
            0 <= i < r.len() && r[i] == m[k]
    &&& forall|i: int, j: int| 0 <= i < j < r.len() ==> (#[trigger] r[i]).worker_id@ != (#[trigger] r[j]).worker_id@
    &&& sorted_by_rank(r, capacity_rank())
}

/// In-memory registry of live media workers.
pub struct WorkerRegistry {
    workers: DashMap<String, WorkerEntry>,
    heartbeat_timeout_ms: u64,
}

impl View for WorkerRegistry {
    type V = Map<Seq<char>, WorkerEntry>;

    closed spec fn view(&self) -> Map<Seq<char>, WorkerEntry> {
        worker_entries(self.workers)
    }
}

impl WorkerRegistry {
    /// Whether every entry is stored under its own worker id.
    pub open spec fn wf(&self) -> bool {
        forall|k: Seq<char>| #[trigger] self@.contains_key(k) ==> self@[k].worker_id@ == k
    }

    /// How long a worker may stay silent and still take calls.
    pub closed spec fn timeout_spec(&self) -> u64 {
        self.heartbeat_timeout_ms
    }

    /// An empty registry whose workers must be heard from within
    /// `heartbeat_timeout_ms`.
    pub fn new(heartbeat_timeout_ms: u64) -> (r: Self)
        ensures
            r.wf(),
            r@ == no_workers(),
            r.timeout_spec() == heartbeat_timeout_ms,
    {
        WorkerRegistry { workers: new_worker_table(), heartbeat_timeout_ms }
    }

    /// How long a worker may stay silent and still take calls.
    pub fn heartbeat_timeout_ms(&self) -> (r: u64)
        ensures
            r == self.timeout_spec(),
    {
        self.heartbeat_timeout_ms
    }

    /// Registers `entry`, replacing any worker with the same id.
    pub fn register(&mut self, entry: WorkerEntry)
        requires
            old(self).wf(),
        ensures
            final(self).wf(),
            final(self)@ == old(self)@.insert(entry.worker_id@, entry),
            final(self).timeout_spec() == old(self).timeout_spec(),
    {
        let ghost before = self@;
        let ghost e = entry;
        let id = to_owned(entry.worker_id.as_str());
        worker_table_insert(&mut self.workers, id, entry);
        assert forall|k: Seq<char>| #[trigger] self@.contains_key(k) implies self@[k].worker_id@ == k by {
            if k != e.worker_id@ {
                assert(before.contains_key(k));
            }
        }
    }

    /// Records a heartbeat at `now_ms`: the worker's load and CPU usage are
    /// replaced and it counts as heard from. False for an unknown worker,
    /// which changes nothing.
    pub fn heartbeat(&mut self, worker_id: &str, active_calls: u32, cpu_usage_bits: u32, rtp_ports_used: u32, now_ms: i64) -> (r: bool)
        requires
            old(self).wf(),
        ensures
            final(self).wf(),
            r == old(self)@.contains_key(worker_id@),
            r ==> final(self)@ == old(self)@.insert(
                worker_id@,
                WorkerEntry {
                    active_calls,
                    cpu_usage_bits,
                    last_heartbeat_ms: now_ms,
                    ..old(self)@[worker_id@]
                },
            ),
            !r ==> final(self)@ == old(self)@,
            final(self).timeout_spec() == old(self).timeout_spec(),
    {
        match worker_table_get(&self.workers, worker_id) {
            Some(e) => {
                let updated = WorkerEntry {
                    active_calls,
                    cpu_usage_bits,
                    last_heartbeat_ms: now_ms,
                    ..e
                };
                worker_table_insert(&mut self.workers, to_owned(worker_id), updated);
                true
            },
            None => false,
        }
    }

    /// Stops the worker taking new calls; an unknown worker changes nothing.
    pub fn drain(&mut self, worker_id: &str)
        requires
            old(self).wf(),
        ensures
            final(self).wf(),
            old(self)@.contains_key(worker_id@) ==> final(self)@ == old(self)@.insert(
                worker_id@,
                WorkerEntry { draining: true, ..old(self)@[worker_id@] },
            ),
            !old(self)@.contains_key(worker_id@) ==> final(self)@ == old(self)@,
            final(self).timeout_spec() == old(self).timeout_spec(),
    {
        match worker_table_get(&self.workers, worker_id) {
            Some(e) => {
                let updated = WorkerEntry { draining: true, ..e };
                worker_table_insert(&mut self.workers, to_owned(worker_id), updated);
            },
            None => {},
        }
    }

    /// Removes the worker.
    pub fn remove(&mut self, worker_id: &str)
        requires
            old(self).wf(),
        ensures
            final(self).wf(),
            final(self)@ == old(self)@.remove(worker_id@),
            final(self).timeout_spec() == old(self).timeout_spec(),
    {
        let ghost before = self@;
        worker_table_remove(&mut self.workers, worker_id);
        assert forall|k: Seq<char>| #[trigger] self@.contains_key(k) implies self@[k].worker_id@ == k by {
            assert(before.contains_key(k));
        }
    }
}

/// Inserting `x` at `p` keeps every old element (shifted past `p`) and
/// adds `x` at `p`.
proof fn lemma_insert_parts<A>(s: Seq<A>, p: int, x: A)
    requires
        0 <= p <= s.len(),
    ensures
        s.insert(p, x).len() == s.len() + 1,
        s.insert(p, x)[p] == x,
        forall|i: int| 0 <= i < p ==> #[trigger] s.insert(p, x)[i] == s[i],
        forall|i: int| p < i <= s.len() ==> #[trigger] s.insert(p, x)[i] == s[i - 1],
{
    s.insert_ensures(p, x);
    assert forall|i: int| p < i <= s.len() implies #[trigger] s.insert(p, x)[i] == s[i - 1] by {
        assert(s.insert(p, x)[(i - 1) + 1] == s[i - 1]);
    }
}

impl WorkerRegistry {
    /// The workers healthy at `now_ms`, most spare capacity first. Among
    /// workers of equal spare capacity the order is the table's own.
    pub fn available(&self, now_ms: i64) -> (r: Vec<WorkerEntry>)
        requires
            self.wf(),
        ensures
            available_ok(r@, self@, self.timeout_spec(), now_ms),
    {
        let ghost m = self@;
        let ghost f = capacity_rank();
        let timeout = self.heartbeat_timeout_ms;
        let mut rest = worker_table_entries(&self.workers);
        let ghost all = rest@;
        let mut out: Vec<WorkerEntry> = Vec::new();
        let mut caps: Vec<u32> = Vec::new();
        while rest.len() > 0
            invariant
                rest@.len() <= all.len(),
                rest@ == all.take(rest@.len() as int),
                lists_entries(all, m),
                forall|k: Seq<char>| #[trigger] m.contains_key(k) ==> m[k].worker_id@ == k,
                timeout == self.timeout_spec(),
                m == self@,
                f == capacity_rank(),
                out@.len() == caps@.len(),
                forall|x: int| 0 <= x < caps@.len() ==> caps@[x] as int == f(#[trigger] out@[x]),
                sorted_by_rank(out@, f),
                forall|i: int|
                    0 <= i < out@.len() ==> m.contains_key((#[trigger] out@[i]).worker_id@) && m[out@[i].worker_id@]
                        == out@[i] && healthy(out@[i], timeout, now_ms),
                forall|i: int|
                    0 <= i < out@.len() ==> exists|y: int|
                        rest@.len() <= y < all.len() && all[y].0@ == (#[trigger] out@[i]).worker_id@,
                forall|y: int|
                    rest@.len() <= y < all.len() && healthy(#[trigger] all[y].1, timeout, now_ms) ==> out@.contains(
                        all[y].1,
                    ),
                forall|i: int, j: int|
                    0 <= i < j < out@.len() ==> (#[trigger] out@[i]).worker_id@ != (#[trigger] out@[j]).worker_id@,
            decreases rest@.len(),
        {
            let ghost x = rest@.len() - 1;
            let (key, e) = rest.pop().unwrap();
            proof {
                assert(all[x] == (key, e));
                assert(rest@ =~= all.take(x));
                assert(m.contains_key(key@) && m[key@] == e);
            }
            if e.is_healthy(timeout, now_ms) {
                let c = e.available_capacity();
                let mut p: usize = 0;
                while p < caps.len() && caps[p] >= c
                    invariant
                        p <= caps@.len(),
                        out@.len() == caps@.len(),
                        forall|x: int| 0 <= x < caps@.len() ==> caps@[x] as int == f(#[trigger] out@[x]),
                        forall|x: int| 0 <= x < p ==> caps@[x] >= c,
                    decreases caps@.len() - p,
                {
                    p = p + 1;
                }
                let ghost old_out = out@;
                proof {
                    assert(f(e) == c as int);
                    assert forall|j: int| 0 <= j < p implies f(#[trigger] old_out[j]) >= f(e) by {}
                    if p < old_out.len() {
                        assert(f(old_out[p as int]) < f(e));
                    }
                    crate::seqs::lemma_insert_by_rank(old_out, p as int, e, f);
                    lemma_insert_parts(old_out, p as int, e);
                    lemma_insert_parts(caps@, p as int, c);
                }
                out.insert(p, e);
                caps.insert(p, c);
                proof {
                    let o = out@;
                    assert forall|i: int|
                        0 <= i < o.len() implies exists|y: int|
                            x <= y < all.len() && all[y].0@ == (#[trigger] o[i]).worker_id@ by {
                        if i == p {
                            assert(all[x].0@ == o[i].worker_id@);
                        } else if i < p {
                            assert(o[i] == old_out[i]);
                        } else {
                            assert(o[i] == old_out[i - 1]);
                        }
                    }
                    assert forall|i: int, j: int|
                        0 <= i < j < o.len() implies (#[trigger] o[i]).worker_id@ != (#[trigger] o[j]).worker_id@ by {
                        let ii = if i < p { i } else if i == p { -1 } else { i - 1 };
                        let jj = if j < p { j } else if j == p { -1 } else { j - 1 };
                        if i == p {
                            let y = choose|y: int| x + 1 <= y < all.len() && all[y].0@ == old_out[jj].worker_id@;
                            assert(all[y].0@ != all[x].0@);
                        } else if j == p {
                            let y = choose|y: int| x + 1 <= y < all.len() && all[y].0@ == old_out[ii].worker_id@;
                            assert(all[y].0@ != all[x].0@);
                        } else {
                            assert(o[i] == old_out[ii] && o[j] == old_out[jj]);
                        }
                    }
                    assert forall|y: int|
                        x <= y < all.len() && healthy(#[trigger] all[y].1, timeout, now_ms) implies o.contains(
                            all[y].1,
                        ) by {
                        if y == x {
                            assert(o[p as int] == e);
                        } else {
                            let i = choose|i: int| 0 <= i < old_out.len() && old_out[i] == all[y].1;
                            if i < p {
                                assert(o[i] == old_out[i]);
                            } else {
                                assert(o[i + 1] == old_out[i]);
                            }
                        }
                    }
                }
            } else {
                proof {
                    assert forall|i: int|
                        0 <= i < out@.len() implies exists|y: int|
                            x <= y < all.len() && all[y].0@ == (#[trigger] out@[i]).worker_id@ by {
                        let y = choose|y: int| x + 1 <= y < all.len() && all[y].0@ == out@[i].worker_id@;
                    }
                }
            }
        }
        proof {
            assert forall|k: Seq<char>|
                #[trigger] m.contains_key(k) && healthy(m[k], timeout, now_ms) implies exists|i: int|
                    0 <= i < out@.len() && out@[i] == m[k] by {
                let y = choose|y: int| 0 <= y < all.len() && all[y].0@ == k;
                assert(m[all[y].0@] == all[y].1);
                assert(out@.contains(all[y].1));
            }
        }
        out
    }

    /// A healthy worker with the most spare capacity at `now_ms`, or none
    /// when no worker is healthy.
    pub fn select_for_call(&self, now_ms: i64) -> (r: Option<WorkerEntry>)
        requires
            self.wf(),
        ensures
            r is None <==> !(exists|k: Seq<char>| #[trigger] self@.contains_key(k) && healthy(self@[k], self.timeout_spec(), now_ms)),
            r matches Some(w) ==> self@.contains_key(w.worker_id@) && self@[w.worker_id@] == w && healthy(
                w,
                self.timeout_spec(),
                now_ms,
            ),
            r matches Some(w) ==> forall|k: Seq<char>|
                #[trigger] self@.contains_key(k) && healthy(self@[k], self.timeout_spec(), now_ms) ==> spare(self@[k])
                    <= spare(w),
    {
        let mut a = self.available(now_ms);
        if a.len() == 0 {
            proof {
                assert forall|k: Seq<char>| #[trigger] self@.contains_key(k) implies !healthy(self@[k], self.timeout_spec(), now_ms) by {
                    if healthy(self@[k], self.timeout_spec(), now_ms) {
                        let i = choose|i: int| 0 <= i < a@.len() && a@[i] == self@[k];
                    }
                }
            }
            None
        } else {
            let ghost r = a@;
            let w = a.swap_remove(0);
            proof {
                assert(w == r[0]);
                assert(self@.contains_key(r[0].worker_id@));
                assert forall|k: Seq<char>|
                    #[trigger] self@.contains_key(k) && healthy(self@[k], self.timeout_spec(), now_ms) implies spare(self@[k])
                        <= spare(w) by {
                    let i = choose|i: int| 0 <= i < r.len() && r[i] == self@[k];
                    if i > 0 {
                        assert(capacity_rank()(r[0]) >= capacity_rank()(r[i]));
                    }
                }
            }
            Some(w)
        }
    }
}

impl Default for WorkerRegistry {
    /// An empty registry with a 30-second heartbeat timeout.
    fn default() -> (r: Self)
        ensures
            r.wf(),
            r@ == no_workers(),
            r.timeout_spec() == 30_000,
    {
        WorkerRegistry::new(30_000)
    }
}

/// A drained worker is never offered for a call.
pub proof fn law_drained_worker_not_offered(
    m: Map<Seq<char>, WorkerEntry>,
    worker_id: Seq<char>,
    r: Seq<WorkerEntry>,
    timeout_ms: u64,
    now_ms: i64,
)
    requires
        m.contains_key(worker_id),
        available_ok(r, m.insert(worker_id, WorkerEntry { draining: true, ..m[worker_id] }), timeout_ms, now_ms),
    ensures
        forall|i: int| 0 <= i < r.len() ==> (#[trigger] r[i]).worker_id@ != worker_id,
{
    let m2 = m.insert(worker_id, WorkerEntry { draining: true, ..m[worker_id] });
    assert forall|i: int| 0 <= i < r.len() implies (#[trigger] r[i]).worker_id@ != worker_id by {
        if r[i].worker_id@ == worker_id {
            assert(m2[worker_id] == r[i]);
            assert(r[i].draining);
        }
    }
}

/// A worker registered healthy is offered: the registry is never empty of
/// healthy workers right after one registers.
pub proof fn law_registered_worker_offered(
    m: Map<Seq<char>, WorkerEntry>,
    e: WorkerEntry,
    r: Seq<WorkerEntry>,
    timeout_ms: u64,
    now_ms: i64,
)
    requires
        healthy(e, timeout_ms, now_ms),
        available_ok(r, m.insert(e.worker_id@, e), timeout_ms, now_ms),
    ensures
        r.contains(e),
{
    let m2 = m.insert(e.worker_id@, e);
    assert(m2.contains_key(e.worker_id@) && healthy(m2[e.worker_id@], timeout_ms, now_ms));
}

} // verus!
