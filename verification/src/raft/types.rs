//! Records held by the replicated registry and the commands that change it.

use crate::sorted_map::{lookup, SortedMap};
use crate::text::{chars_of, dec_i64, i64_to_string, split, split_chars, str_eq, string_of, to_owned};
use vstd::prelude::*;

verus! {

/// Node id type: a stable integer per control replica.
pub type NodeId = u64;

/// The advertised node address `"<raft_addr>|<grpc_addr>"`.
pub open spec fn node_addr_spec(raft_addr: Seq<char>, grpc_addr: Seq<char>) -> Seq<char> {
    raft_addr + seq!['|'] + grpc_addr
}

/// Packs a node's Raft transport address and business gRPC address.
pub fn node_addr(raft_addr: &str, grpc_addr: &str) -> (r: String)
    ensures
        r@ == node_addr_spec(raft_addr@, grpc_addr@),
{
    let mut r = to_owned(raft_addr);
    r.append("|");
    r.append(grpc_addr);
    proof {
        reveal_strlit("|");
    }
    assert(r@ =~= node_addr_spec(raft_addr@, grpc_addr@));
    r
}

/// The Raft transport address: the part before the first `|`.
pub fn raft_addr(node_addr: &str) -> (r: String)
    ensures
        r@ == split(node_addr@, '|')[0],
{
    let v = chars_of(node_addr);
    let parts = split_chars(v.as_slice(), '|');
    assert(parts@.map_values(|x: Vec<char>| x@)[0] == parts@[0]@);
    assert(parts@[0]@.subrange(0, parts@[0]@.len() as int) =~= parts@[0]@);
    string_of(parts[0].as_slice(), 0, parts[0].len())
}

/// The business gRPC address: the second `|`-separated part, when present and non-empty.
pub fn grpc_addr(node_addr: &str) -> (r: Option<String>)
    ensures
        match r {
            Some(g) => split(node_addr@, '|').len() > 1 && g@ == split(node_addr@, '|')[1]
                && g@.len() > 0,
            None => split(node_addr@, '|').len() <= 1 || split(node_addr@, '|')[1].len() == 0,
        },
{
    let v = chars_of(node_addr);
    let parts = split_chars(v.as_slice(), '|');
    if parts.len() > 1 && parts[1].len() > 0 {
        assert(parts@.map_values(|x: Vec<char>| x@)[1] == parts@[1]@);
        let g = string_of(parts[1].as_slice(), 0, parts[1].len());
        assert(parts@[1]@.subrange(0, parts@[1]@.len() as int) =~= parts@[1]@);
        Some(g)
    } else {
        proof {
            if parts@.len() > 1 {
                assert(parts@.map_values(|x: Vec<char>| x@)[1] == parts@[1]@);
            }
        }
        None
    }
}

/// One registered Media Worker. Times are unix milliseconds; `cpu_usage_bits`
/// holds the bit pattern of the worker's reported `f32` CPU load.
#[derive(Clone, Debug)]
pub struct WorkerRecord {
    pub worker_id: String,
    pub sip_addr: String,
    pub rtp_external_ip: String,
    pub rtp_start_port: u32,
    pub rtp_end_port: u32,
    pub max_concurrent: u32,
    pub active_calls: u32,
    pub cpu_usage_bits: u32,
    pub labels: SortedMap<String>,
    pub capabilities: Vec<String>,
    /// EdgeWorker gRPC address (host:port); empty if absent.
    pub edge_worker_addr: String,
    /// Detected NAT type: open/cone/symmetric/nat/blocked/unknown.
    pub nat_type: String,
    pub registered_at_ms: i64,
    pub last_heartbeat_ms: i64,
    pub draining: bool,
}

impl View for WorkerRecord {
    type V = WorkerRecord;

    open spec fn view(&self) -> WorkerRecord {
        *self
    }
}

/// `max - active`, or 0 when the worker is at or over capacity.
pub open spec fn capacity_spec(w: WorkerRecord) -> u32 {
    if w.active_calls <= w.max_concurrent {
        (w.max_concurrent - w.active_calls) as u32
    } else {
        0
    }
}

/// Reachability rank of a NAT type: open 5, cone 4, nat 3, unknown/empty/other 2,
/// symmetric 1, blocked 0.
pub open spec fn nat_score_spec(kind: Seq<char>) -> u8 {
    if kind == "open"@ {
        5
    } else if kind == "cone"@ {
        4
    } else if kind == "nat"@ {
        3
    } else if kind == "symmetric"@ {
        1
    } else if kind == "blocked"@ {
        0
    } else {
        2
    }
}

/// Whether a worker's labels tie it to tenant `t`: `tenant_id` or `tenant` is
/// the tenant's id, or `tenant:<id>` is `true` or `1`.
pub open spec fn tenant_labelled(w: WorkerRecord, t: i64) -> bool {
    let id = dec_i64(t);
    ||| lookup(w.labels@, "tenant_id"@) == Some(id)
    ||| lookup(w.labels@, "tenant"@) == Some(id)
    ||| (lookup(w.labels@, "tenant:"@ + id) matches Some(v) && (v == "true"@ || v == "1"@))
}

/// 1 when a tenant is given and the worker is labelled for it, else 0.
pub open spec fn tenant_score_spec(w: WorkerRecord, tenant_id: Option<i64>) -> u8 {
    match tenant_id {
        Some(t) => if tenant_labelled(w, t) {
            1
        } else {
            0
        },
        None => 0,
    }
}

/// Healthy = not draining and last heartbeat less than `timeout_ms` before `now_ms`.
pub open spec fn worker_healthy_spec(w: WorkerRecord, now_ms: i64, timeout_ms: i64) -> bool {
    !w.draining && sat_sub_i64(now_ms, w.last_heartbeat_ms) < timeout_ms
}

/// `i64::saturating_sub`.
pub open spec fn sat_sub_i64(a: i64, b: i64) -> i64 {
    let d = a - b;
    if d > i64::MAX {
        i64::MAX
    } else if d < i64::MIN {
        i64::MIN
    } else {
        d as i64
    }
}

/// `i64::saturating_sub`.
pub fn saturating_sub_i64(a: i64, b: i64) -> (r: i64)
    ensures
        r == sat_sub_i64(a, b),
{
    let d: i128 = (a as i128) - (b as i128);
    if d > (i64::MAX as i128) {
        i64::MAX
    } else if d < (i64::MIN as i128) {
        i64::MIN
    } else {
        d as i64
    }
}

impl WorkerRecord {
    /// Spare call capacity.
    pub fn available_capacity(&self) -> (r: u32)
        ensures
            r == capacity_spec(*self),
    {
        self.max_concurrent.saturating_sub(self.active_calls)
    }

    /// Whether the worker is labelled for the tenant (1) or not (0).
    pub fn tenant_affinity_score(&self, tenant_id: Option<i64>) -> (r: u8)
        ensures
            r == tenant_score_spec(*self, tenant_id),
    {
        let t = match tenant_id {
            Some(t) => t,
            None => return 0,
        };
        let id = i64_to_string(t);
        let by_id = match self.labels.find("tenant_id") {
            Some(v) => str_eq(v.as_str(), id.as_str()),
            None => false,
        };
        let by_name = match self.labels.find("tenant") {
            Some(v) => str_eq(v.as_str(), id.as_str()),
            None => false,
        };
        let mut key = to_owned("tenant:");
        key.append(id.as_str());
        let by_flag = match self.labels.find(key.as_str()) {
            Some(v) => str_eq(v.as_str(), "true") || str_eq(v.as_str(), "1"),
            None => false,
        };
        if by_id || by_name || by_flag {
            1
        } else {
            0
        }
    }

    /// Rank of the worker's NAT reachability.
    pub fn nat_reachability_score(&self) -> (r: u8)
        ensures
            r == nat_score_spec(self.nat_type@),
    {
        proof {
            reveal_strlit("open");
            reveal_strlit("cone");
            reveal_strlit("nat");
            reveal_strlit("symmetric");
            reveal_strlit("blocked");
        }
        let n = self.nat_type.as_str();
        if crate::text::str_eq(n, "open") {
            5
        } else if crate::text::str_eq(n, "cone") {
            4
        } else if crate::text::str_eq(n, "nat") {
            3
        } else if crate::text::str_eq(n, "symmetric") {
            1
        } else if crate::text::str_eq(n, "blocked") {
            0
        } else {
            2
        }
    }

    /// Healthy = not draining and heartbeat within `timeout_ms` of `now_ms`.
    pub fn is_healthy(&self, now_ms: i64, timeout_ms: i64) -> (r: bool)
        ensures
            r == worker_healthy_spec(*self, now_ms, timeout_ms),
    {
        !self.draining && saturating_sub_i64(now_ms, self.last_heartbeat_ms) < timeout_ms
    }
}

/// One registered Edge gateway (observability only).
#[derive(Clone, Debug)]
pub struct EdgeRecord {
    pub edge_id: String,
    pub public_ip: String,
    pub sip_addr: String,
    pub transports: Vec<String>,
    pub region: String,
    pub version: String,
    pub active_calls: u32,
    /// Detected NAT type: open/cone/symmetric/nat/blocked/unknown.
    pub nat_type: String,
    pub registered_at_ms: i64,
    pub last_heartbeat_ms: i64,
}

impl View for EdgeRecord {
    type V = EdgeRecord;

    open spec fn view(&self) -> EdgeRecord {
        *self
    }
}

impl EdgeRecord {
    /// Healthy = heartbeat within `timeout_ms` of `now_ms`.
    pub fn is_healthy(&self, now_ms: i64, timeout_ms: i64) -> (r: bool)
        ensures
            r == (sat_sub_i64(now_ms, self.last_heartbeat_ms) < timeout_ms),
    {
        saturating_sub_i64(now_ms, self.last_heartbeat_ms) < timeout_ms
    }
}

/// A reserved per-tenant call slot (keyed by call id in the registry).
#[derive(Clone, Debug)]
pub struct CallSlotRecord {
    pub tenant_id: i64,
    /// Source trunk, for trunk-level concurrency accounting.
    pub trunk_name: Option<String>,
    /// When the slot was reserved (for the reaper backstop).
    pub at_ms: i64,
}

impl View for CallSlotRecord {
    type V = CallSlotRecord;

    open spec fn view(&self) -> CallSlotRecord {
        *self
    }
}

/// A recently accepted call start (for trunk calls-per-second limits).
#[derive(Clone, Debug)]
pub struct CallStartRecord {
    pub tenant_id: i64,
    pub trunk_name: Option<String>,
    pub at_ms: i64,
}

impl View for CallStartRecord {
    type V = CallStartRecord;

    open spec fn view(&self) -> CallStartRecord {
        *self
    }
}

/// One SIP Contact bound for an extension on a worker.
#[derive(Clone, Debug)]
pub struct ExtensionContactRecord {
    pub contact: String,
    /// Preference `q` in thousandths (0..=1000).
    pub q_milli: u16,
    /// Expiry in unix milliseconds; 0 means no expiry.
    pub expires_at_ms: i64,
}

impl View for ExtensionContactRecord {
    type V = ExtensionContactRecord;

    open spec fn view(&self) -> ExtensionContactRecord {
        *self
    }
}

/// Commands applied, in log order, to the replicated registry.
#[derive(Clone, Debug)]
pub enum RegistryCommand {
    /// Insert or replace a worker.
    Register { record: WorkerRecord },
    /// Update load fields and refresh the heartbeat.
    Heartbeat { worker_id: String, active_calls: u32, cpu_usage_bits: u32, at_ms: i64 },
    /// Mark a worker as draining.
    Drain { worker_id: String },
    /// Remove a worker.
    Remove { worker_id: String },
    /// Remove every worker whose heartbeat is older than `before_ms`.
    ReapStale { before_ms: i64 },
    /// Insert or replace an edge.
    RegisterEdge { record: EdgeRecord },
    /// Refresh an edge's load and heartbeat.
    EdgeHeartbeat { edge_id: String, active_calls: u32, at_ms: i64 },
    /// Remove an edge.
    RemoveEdge { edge_id: String },
    /// Remove every edge whose heartbeat is older than `before_ms`.
    ReapStaleEdges { before_ms: i64 },
    /// Reserve a call slot, enforcing tenant, trunk and trunk-CPS caps
    /// (`None` or 0 = unlimited). Re-acquiring a held `call_id` is always granted.
    AcquireCallSlot {
        call_id: String,
        tenant_id: i64,
        max: Option<u32>,
        trunk_name: Option<String>,
        trunk_max: Option<u32>,
        trunk_max_cps: Option<u32>,
        at_ms: i64,
    },
    /// Release the slot held by `call_id`.
    ReleaseCallSlot { call_id: String },
    /// Reap slots reserved before `before_ms`.
    ReapCallSlots { before_ms: i64 },
    /// Bind an affinity key to a worker (`expires_at_ms` None = no expiry).
    BindAffinity { affinity_key: String, worker_id: String, expires_at_ms: Option<i64> },
    /// Bind an affinity key to a worker together with one SIP Contact.
    BindAffinityContact {
        affinity_key: String,
        worker_id: String,
        contact: String,
        q_milli: u16,
        expires_at_ms: i64,
    },
    /// Remove an affinity binding.
    UnbindAffinity { affinity_key: String },
    /// Remove one worker from an affinity binding.
    UnbindAffinityWorker { affinity_key: String, worker_id: String },
    /// Remove affinity bindings, members and contacts expired at or before `before_ms`.
    ReapAffinity { before_ms: i64 },
}

/// Result of applying one command.
#[derive(Clone, Copy, PartialEq, Eq, Structural, Debug)]
pub struct RegistryResponse {
    /// Whether the target was known at apply time.
    pub known: bool,
    /// Number of entries removed.
    pub removed: u32,
    /// AcquireCallSlot: whether the slot was granted.
    pub granted: bool,
    /// AcquireCallSlot: the tenant's active-call count after applying.
    pub count: u32,
    /// AcquireCallSlot: the source trunk's active-call count after applying.
    pub trunk_count: u32,
    /// AcquireCallSlot: the source trunk's starts in the current 1 s window.
    pub trunk_cps_count: u32,
}

/// The common response: granted, with zero counts.
pub open spec fn known_resp(known: bool, removed: u32) -> RegistryResponse {
    RegistryResponse {
        known,
        removed,
        granted: true,
        count: 0,
        trunk_count: 0,
        trunk_cps_count: 0,
    }
}

impl RegistryResponse {
    /// The common worker/edge response (granted, zero counts).
    pub fn known(known: bool, removed: u32) -> (r: Self)
        ensures
            r == known_resp(known, removed),
    {
        RegistryResponse {
            known,
            removed,
            granted: true,
            count: 0,
            trunk_count: 0,
            trunk_cps_count: 0,
        }
    }
}

} // verus!
