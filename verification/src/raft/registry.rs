//! Worker selection and the time stamps the registry puts on commands.
//!
//! Selection keeps the healthy workers that carry every required label and
//! capability, most available first: by spare capacity, then tenant
//! affinity, then NAT reachability, keeping registry order among equals.

use super::types::{
    capacity_spec, nat_score_spec, sat_sub_i64, saturating_sub_i64, tenant_score_spec, worker_healthy_spec, EdgeRecord,
    WorkerRecord,
};
use crate::seqs::{keep, lemma_insert_by_rank, lemma_same_ranks_same_elements, sorted_by_rank, with_rank};
use crate::sorted_map::{lookup, SortedMap};
use crate::text::str_eq;
use vstd::prelude::*;

verus! {

/// A worker's selection rank: capacity first, then tenant affinity, then NAT reachability.
pub open spec fn worker_rank(w: WorkerRecord, tenant_id: Option<i64>) -> int {
    capacity_spec(w) * 16 + tenant_score_spec(w, tenant_id) * 8 + nat_score_spec(w.nat_type@)
}

/// Ranks order workers by spare capacity first, then by tenant affinity,
/// then by NAT reachability: a worker with more spare capacity ranks higher
/// whatever its other scores, and so on down the three.
pub proof fn law_rank_is_lexicographic(a: WorkerRecord, b: WorkerRecord, tenant_id: Option<i64>)
    ensures
        capacity_spec(a) > capacity_spec(b) ==> worker_rank(a, tenant_id) > worker_rank(b, tenant_id),
        capacity_spec(a) == capacity_spec(b) && tenant_score_spec(a, tenant_id) > tenant_score_spec(b, tenant_id)
            ==> worker_rank(a, tenant_id) > worker_rank(b, tenant_id),
        capacity_spec(a) == capacity_spec(b) && tenant_score_spec(a, tenant_id) == tenant_score_spec(b, tenant_id)
            ==> (worker_rank(a, tenant_id) >= worker_rank(b, tenant_id) <==> nat_score_spec(a.nat_type@)
            >= nat_score_spec(b.nat_type@)),
{
    let ca = capacity_spec(a) as int;
    let cb = capacity_spec(b) as int;
    let ta = tenant_score_spec(a, tenant_id) as int;
    let tb = tenant_score_spec(b, tenant_id) as int;
    let na = nat_score_spec(a.nat_type@) as int;
    let nb = nat_score_spec(b.nat_type@) as int;
    assert(0 <= ta <= 1 && 0 <= tb <= 1);
    assert(0 <= na <= 5 && 0 <= nb <= 5);
    assert(ca > cb ==> ca * 16 + ta * 8 + na > cb * 16 + tb * 8 + nb) by (nonlinear_arith)
        requires
            0 <= ta <= 1,
            0 <= tb <= 1,
            0 <= na <= 5,
            0 <= nb <= 5,
    ;
}

/// The rank function for a tenant.
pub open spec fn rank_for(tenant_id: Option<i64>) -> spec_fn(WorkerRecord) -> int {
    |w: WorkerRecord| worker_rank(w, tenant_id)
}

/// Whether a worker carries every required label with its value.
pub open spec fn has_labels(w: WorkerRecord, required: Seq<(Seq<char>, Seq<char>)>) -> bool {
    forall|i: int| 0 <= i < required.len() ==> lookup(w.labels@, #[trigger] required[i].0) == Some(required[i].1)
}

/// Whether a worker has the capability `c`.
pub open spec fn has_cap(w: WorkerRecord, c: Seq<char>) -> bool {
    exists|j: int| 0 <= j < w.capabilities@.len() && #[trigger] w.capabilities@[j]@ == c
}

/// Whether a worker has every required capability.
pub open spec fn has_capabilities(w: WorkerRecord, required: Seq<Seq<char>>) -> bool {
    forall|i: int| 0 <= i < required.len() ==> has_cap(w, #[trigger] required[i])
}

/// Workers that may take a call: healthy, with the required labels and capabilities.
pub open spec fn eligible(
    now_ms: i64,
    timeout_ms: i64,
    labels: Seq<(Seq<char>, Seq<char>)>,
    caps: Seq<Seq<char>>,
) -> spec_fn(WorkerRecord) -> bool {
    |w: WorkerRecord| worker_healthy_spec(w, now_ms, timeout_ms) && has_labels(w, labels) && has_capabilities(w, caps)
}

fn rank_of(w: &WorkerRecord, tenant_id: Option<i64>) -> (r: u64)
    ensures
        r == worker_rank(*w, tenant_id),
{
    (w.available_capacity() as u64) * 16 + (w.tenant_affinity_score(tenant_id) as u64) * 8 + (w.nat_reachability_score() as u64)
}

fn has_labels_exec(w: &WorkerRecord, required: &SortedMap<String>) -> (b: bool)
    ensures
        b == has_labels(*w, required@),
{
    let mut i: usize = 0;
    while i < required.len()
        invariant
            i <= required@.len(),
            forall|j: int| 0 <= j < i ==> lookup(w.labels@, #[trigger] required@[j].0) == Some(required@[j].1),
        decreases required@.len() - i,
    {
        let k = required.key_at(i);
        let v = required.value_at(i);
        let ok = match w.labels.find(k.as_str()) {
            Some(x) => str_eq(x.as_str(), v.as_str()),
            None => false,
        };
        if !ok {
            return false;
        }
        i = i + 1;
    }
    true
}

fn has_capability(w: &WorkerRecord, cap: &str) -> (b: bool)
    ensures
        b == has_cap(*w, cap@),
{
    let mut j: usize = 0;
    while j < w.capabilities.len()
        invariant
            j <= w.capabilities@.len(),
            forall|x: int| 0 <= x < j ==> #[trigger] w.capabilities@[x]@ != cap@,
        decreases w.capabilities@.len() - j,
    {
        if str_eq(w.capabilities[j].as_str(), cap) {
            return true;
        }
        j = j + 1;
    }
    false
}

fn has_capabilities_exec(w: &WorkerRecord, required: &[String]) -> (b: bool)
    ensures
        b == has_capabilities(*w, required@.map_values(|c: String| c@)),
        required@.map_values(|c: String| c@).len() == required@.len(),
{
    let ghost req = required@.map_values(|c: String| c@);
    let mut i: usize = 0;
    while i < required.len()
        invariant
            i <= required@.len(),
            req == required@.map_values(|c: String| c@),
            forall|x: int| 0 <= x < i ==> has_cap(*w, #[trigger] req[x]),
        decreases required@.len() - i,
    {
        assert(req[i as int] == required@[i as int]@);
        if !has_capability(w, required[i].as_str()) {
            return false;
        }
        i = i + 1;
    }
    true
}

/// The workers that may take a call, most available first: by spare capacity,
/// then affinity to `tenant_id`, then NAT reachability; workers of equal rank
/// keep their order in `workers`. The result holds, for every rank, exactly the
/// eligible workers of that rank in the order given, so it is a permutation
/// of the eligible workers.
pub fn available_with_constraints(
    workers: Vec<WorkerRecord>,
    now_ms: i64,
    timeout_ms: i64,
    tenant_id: Option<i64>,
    required_labels: &SortedMap<String>,
    required_capabilities: &[String],
) -> (r: Vec<WorkerRecord>)
    ensures
        sorted_by_rank(r@, rank_for(tenant_id)),
        forall|k: int|
            #[trigger] keep(r@, with_rank(rank_for(tenant_id), k)) == keep(
                keep(
                    workers@,
                    eligible(now_ms, timeout_ms, required_labels@, required_capabilities@.map_values(|c: String| c@)),
                ),
                with_rank(rank_for(tenant_id), k),
            ),
        r@.to_multiset() == keep(
            workers@,
            eligible(now_ms, timeout_ms, required_labels@, required_capabilities@.map_values(|c: String| c@)),
        ).to_multiset(),
        forall|i: int, j: int|
            0 <= i < j < r@.len() ==> capacity_spec(#[trigger] r@[i]) >= capacity_spec(#[trigger] r@[j]),
        forall|i: int, j: int|
            0 <= i < j < r@.len() && capacity_spec(#[trigger] r@[i]) == capacity_spec(#[trigger] r@[j])
                ==> tenant_score_spec(r@[i], tenant_id) >= tenant_score_spec(r@[j], tenant_id),
        forall|i: int, j: int|
            0 <= i < j < r@.len() && capacity_spec(#[trigger] r@[i]) == capacity_spec(#[trigger] r@[j])
                && tenant_score_spec(r@[i], tenant_id) == tenant_score_spec(r@[j], tenant_id)
                ==> nat_score_spec(r@[i].nat_type@) >= nat_score_spec(r@[j].nat_type@),
{
    let ghost all = workers@;
    let ghost el = eligible(now_ms, timeout_ms, required_labels@, required_capabilities@.map_values(|c: String| c@));
    let mut ws = workers;
    let mut out: Vec<WorkerRecord> = Vec::new();
    let ghost mut i: int = 0;
    assert(all.skip(0) =~= all);
    assert(all.take(0) =~= Seq::<WorkerRecord>::empty());
    while ws.len() > 0
        invariant
            0 <= i <= all.len(),
            ws@ == all.skip(i),
            el == eligible(now_ms, timeout_ms, required_labels@, required_capabilities@.map_values(|c: String| c@)),
            sorted_by_rank(out@, rank_for(tenant_id)),
            forall|k: int| #[trigger] keep(out@, with_rank(rank_for(tenant_id), k)) == keep(
                keep(all.take(i), el),
                with_rank(rank_for(tenant_id), k),
            ),
        decreases ws@.len(),
    {
        let w = ws.remove(0);
        proof {
            assert(all.skip(i)[0] == w);
            assert(all[i] == w);
            assert(ws@ =~= all.skip(i + 1));
            assert(all.take(i + 1).drop_last() =~= all.take(i));
            assert(all.take(i + 1).last() == w);
        }
        let ok = w.is_healthy(now_ms, timeout_ms) && has_labels_exec(&w, required_labels) && has_capabilities_exec(
            &w,
            required_capabilities,
        );
        if ok {
            let rk = rank_of(&w, tenant_id);
            let mut p: usize = 0;
            while p < out.len() && rank_of(&out[p], tenant_id) >= rk
                invariant
                    p <= out@.len(),
                    rk == worker_rank(w, tenant_id),
                    forall|j: int| 0 <= j < p ==> rank_for(tenant_id)(#[trigger] out@[j]) >= rank_for(tenant_id)(w),
                decreases out@.len() - p,
            {
                p = p + 1;
            }
            proof {
                lemma_insert_by_rank(out@, p as int, w, rank_for(tenant_id));
                assert forall|k: int| #[trigger] keep(keep(all.take(i + 1), el), with_rank(rank_for(tenant_id), k)) == if k == worker_rank(w, tenant_id) {
                    keep(keep(all.take(i), el), with_rank(rank_for(tenant_id), k)).push(w)
                } else {
                    keep(keep(all.take(i), el), with_rank(rank_for(tenant_id), k))
                } by {
                    assert(keep(all.take(i + 1), el) == keep(all.take(i), el).push(w));
                    let e = keep(all.take(i), el).push(w);
                    assert(e.drop_last() =~= keep(all.take(i), el));
                    assert(e.last() == w);
                }
            }
            out.insert(p, w);
        } else {
            proof {
                assert(keep(all.take(i + 1), el) == keep(all.take(i), el));
            }
        }
        proof {
            i = i + 1;
        }
    }
    proof {
        assert(all.take(i) =~= all);
        lemma_same_ranks_same_elements(out@, keep(all, el), rank_for(tenant_id));
        assert forall|i: int, j: int| 0 <= i < j < out@.len() implies capacity_spec(#[trigger] out@[i])
            >= capacity_spec(#[trigger] out@[j]) && (capacity_spec(out@[i]) == capacity_spec(out@[j])
            ==> tenant_score_spec(out@[i], tenant_id) >= tenant_score_spec(out@[j], tenant_id)) && (
        capacity_spec(out@[i]) == capacity_spec(out@[j]) && tenant_score_spec(out@[i], tenant_id)
            == tenant_score_spec(out@[j], tenant_id) ==> nat_score_spec(out@[i].nat_type@) >= nat_score_spec(
            out@[j].nat_type@,
        )) by {
            law_rank_is_lexicographic(out@[j], out@[i], tenant_id);
            assert(rank_for(tenant_id)(out@[i]) >= rank_for(tenant_id)(out@[j]));
        }
    }
    out
}

/// A worker record as stored on registration: `registered_at_ms` stamped with
/// `now_ms` when zero, and the heartbeat time always `now_ms`.
pub fn stamp_registration(record: WorkerRecord, now_ms: i64) -> (r: WorkerRecord)
    ensures
        r == (WorkerRecord {
            registered_at_ms: if record.registered_at_ms == 0 { now_ms } else { record.registered_at_ms },
            last_heartbeat_ms: now_ms,
            ..record
        }),
{
    let mut record = record;
    if record.registered_at_ms == 0 {
        record.registered_at_ms = now_ms;
    }
    record.last_heartbeat_ms = now_ms;
    record
}

/// An edge record as stored on registration, stamped like a worker's.
pub fn stamp_edge_registration(record: EdgeRecord, now_ms: i64) -> (r: EdgeRecord)
    ensures
        r == (EdgeRecord {
            registered_at_ms: if record.registered_at_ms == 0 { now_ms } else { record.registered_at_ms },
            last_heartbeat_ms: now_ms,
            ..record
        }),
{
    let mut record = record;
    if record.registered_at_ms == 0 {
        record.registered_at_ms = now_ms;
    }
    record.last_heartbeat_ms = now_ms;
    record
}

/// The cut-off for reaping: heartbeats older than twice the timeout are stale.
pub fn reap_cutoff(now_ms: i64, timeout_ms: i64) -> (r: i64)
    requires
        0 <= timeout_ms <= i64::MAX / 4,
        now_ms >= i64::MIN / 2,
    ensures
        r == now_ms - 2 * timeout_ms,
{
    now_ms - timeout_ms * 2
}

/// Whole seconds since `then_ms` at `now_ms`, zero for a time in the future
/// (how long ago a worker or edge last reported).
pub fn secs_since(now_ms: i64, then_ms: i64) -> (r: u64)
    ensures
        r == (if sat_sub_i64(now_ms, then_ms) > 0 { sat_sub_i64(now_ms, then_ms) as u64 / 1000 } else { 0 }),
{
    let d = saturating_sub_i64(now_ms, then_ms);
    if d > 0 {
        (d as u64) / 1000
    } else {
        0
    }
}


/// What a node reports of its Raft state.
#[derive(Clone, Debug)]
pub struct RaftMetricsSummary {
    pub id: u64,
    pub state: String,
    pub current_term: u64,
    pub current_leader: Option<u64>,
    pub last_log_index: Option<u64>,
    pub last_applied: Option<u64>,
    /// node id and advertised address of each member.
    pub members: Vec<(u64, String)>,
}

/// What `chrono` writes for `ms` milliseconds since the epoch:
/// `DateTime::from_timestamp_millis` then `to_rfc3339`; none where the
/// instant is out of chrono's range.
pub uninterp spec fn rfc3339_of_millis(ms: i64) -> Option<Seq<char>>;

/// `chrono::DateTime::from_timestamp_millis(ms)` written by `to_rfc3339`.
#[verifier::external_body]
pub(crate) fn millis_rfc3339(ms: i64) -> (r: Option<String>)
    ensures
        r is Some == rfc3339_of_millis(ms) is Some,
        r is Some ==> rfc3339_of_millis(ms) == Some(r.unwrap()@),
{
    match chrono::DateTime::from_timestamp_millis(ms) {
        Some(t) => Some(t.to_rfc3339()),
        None => None,
    }
}

/// The RFC 3339 text of an instant, empty when chrono cannot represent it.
pub open spec fn registered_text(ms: i64) -> Seq<char> {
    match rfc3339_of_millis(ms) {
        Some(t) => t,
        None => Seq::empty(),
    }
}

/// A worker as the admin listing shows it.
#[derive(Clone, Debug)]
pub struct WorkerView {
    pub worker_id: String,
    pub sip_addr: String,
    pub rtp_external_ip: String,
    pub active_calls: u32,
    pub max_concurrent: u32,
    pub available_capacity: u32,
    /// The reported CPU usage, as the bits of an `f32`.
    pub cpu_usage_bits: u32,
    pub nat_type: String,
    pub registered_at: String,
    pub last_heartbeat_secs_ago: u64,
    pub healthy: bool,
    pub draining: bool,
}

/// An edge as the admin listing shows it.
#[derive(Clone, Debug)]
pub struct EdgeView {
    pub edge_id: String,
    pub public_ip: String,
    pub sip_addr: String,
    pub transports: Vec<String>,
    pub region: String,
    pub version: String,
    pub active_calls: u32,
    pub nat_type: String,
    pub registered_at: String,
    pub last_heartbeat_secs_ago: u64,
    pub healthy: bool,
}

/// Whole seconds since `then_ms` at `now_ms`, zero for a time in the future.
pub open spec fn secs_ago(now_ms: i64, then_ms: i64) -> u64 {
    if sat_sub_i64(now_ms, then_ms) > 0 {
        (sat_sub_i64(now_ms, then_ms) as u64 / 1000) as u64
    } else {
        0
    }
}

/// How the admin listing shows a worker at `now_ms`.
pub fn worker_view(w: WorkerRecord, now_ms: i64, timeout_ms: i64) -> (r: WorkerView)
    ensures
        r.worker_id@ == w.worker_id@,
        r.sip_addr@ == w.sip_addr@,
        r.rtp_external_ip@ == w.rtp_external_ip@,
        r.active_calls == w.active_calls,
        r.max_concurrent == w.max_concurrent,
        r.available_capacity == capacity_spec(w),
        r.cpu_usage_bits == w.cpu_usage_bits,
        r.nat_type@ == w.nat_type@,
        r.registered_at@ == registered_text(w.registered_at_ms),
        r.last_heartbeat_secs_ago == secs_ago(now_ms, w.last_heartbeat_ms),
        r.healthy == worker_healthy_spec(w, now_ms, timeout_ms),
        r.draining == w.draining,
{
    let healthy = w.is_healthy(now_ms, timeout_ms);
    let available_capacity = w.available_capacity();
    let last_heartbeat_secs_ago = secs_since(now_ms, w.last_heartbeat_ms);
    let registered_at = match millis_rfc3339(w.registered_at_ms) {
        Some(t) => t,
        None => String::new(),
    };
    WorkerView {
        worker_id: w.worker_id,
        sip_addr: w.sip_addr,
        rtp_external_ip: w.rtp_external_ip,
        active_calls: w.active_calls,
        max_concurrent: w.max_concurrent,
        available_capacity,
        cpu_usage_bits: w.cpu_usage_bits,
        nat_type: w.nat_type,
        registered_at,
        last_heartbeat_secs_ago,
        healthy,
        draining: w.draining,
    }
}

/// How the admin listing shows an edge at `now_ms`.
pub fn edge_view(e: EdgeRecord, now_ms: i64, timeout_ms: i64) -> (r: EdgeView)
    ensures
        r.edge_id@ == e.edge_id@,
        r.public_ip@ == e.public_ip@,
        r.sip_addr@ == e.sip_addr@,
        r.transports == e.transports,
        r.region@ == e.region@,
        r.version@ == e.version@,
        r.active_calls == e.active_calls,
        r.nat_type@ == e.nat_type@,
        r.registered_at@ == registered_text(e.registered_at_ms),
        r.last_heartbeat_secs_ago == secs_ago(now_ms, e.last_heartbeat_ms),
        r.healthy == (sat_sub_i64(now_ms, e.last_heartbeat_ms) < timeout_ms),
{
    let healthy = e.is_healthy(now_ms, timeout_ms);
    let last_heartbeat_secs_ago = secs_since(now_ms, e.last_heartbeat_ms);
    let registered_at = match millis_rfc3339(e.registered_at_ms) {
        Some(t) => t,
        None => String::new(),
    };
    EdgeView {
        edge_id: e.edge_id,
        public_ip: e.public_ip,
        sip_addr: e.sip_addr,
        transports: e.transports,
        region: e.region,
        version: e.version,
        active_calls: e.active_calls,
        nat_type: e.nat_type,
        registered_at,
        last_heartbeat_secs_ago,
        healthy,
    }
}

} // verus!
