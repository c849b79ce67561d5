//! Snapshots of the registry: its maps as a snapshot carries them, the
//! check a received snapshot passes before it is installed, and the id each
//! snapshot is built under.

use super::state_machine::{contacts_wf, model_wf, RegistryModel};
use super::types::{CallSlotRecord, CallStartRecord, EdgeRecord, ExtensionContactRecord, WorkerRecord};
use crate::sorted_map::{nested_sorted, sorted, SortedMap};
use crate::text::{dec, to_owned, u64_to_string};
use vstd::prelude::*;

verus! {

/// The last log entry a snapshot covers: the leader's id as the consensus
/// layer writes it, and the entry's index.
#[derive(Clone, Debug)]
pub struct LogPosition {
    pub leader: String,
    pub index: u64,
}

/// The registry's contents as a snapshot carries them.
pub struct StoredSnapshot {
    pub last_applied: Option<LogPosition>,
    pub workers: SortedMap<WorkerRecord>,
    pub edges: SortedMap<EdgeRecord>,
    pub call_slots: SortedMap<CallSlotRecord>,
    pub call_starts: SortedMap<CallStartRecord>,
    pub worker_affinity: SortedMap<String>,
    pub worker_affinity_expires: SortedMap<i64>,
    pub worker_affinity_members: SortedMap<SortedMap<i64>>,
    pub worker_affinity_contacts: SortedMap<SortedMap<SortedMap<ExtensionContactRecord>>>,
}

/// The registry a snapshot holds.
pub open spec fn snapshot_model(s: StoredSnapshot) -> RegistryModel {
    RegistryModel {
        workers: s.workers@,
        edges: s.edges@,
        slots: s.call_slots@,
        starts: s.call_starts@,
        affinity: s.worker_affinity@,
        affinity_expires: s.worker_affinity_expires@,
        members: s.worker_affinity_members@,
        contacts: s.worker_affinity_contacts@,
    }
}

/// The id of the `n`th snapshot: `"{leader}-{index}-{n}"` at a log
/// position, `"--{n}"` before any entry was applied.
pub open spec fn snapshot_id_spec(last_applied: Option<(Seq<char>, u64)>, n: u64) -> Seq<char> {
    match last_applied {
        Some((leader, index)) => leader + seq!['-'] + dec(index as nat) + seq!['-'] + dec(n as nat),
        None => seq!['-', '-'] + dec(n as nat),
    }
}

/// The position as plain values.
pub open spec fn position_view(p: Option<LogPosition>) -> Option<(Seq<char>, u64)> {
    match p {
        Some(p) => Some((p.leader@, p.index)),
        None => None,
    }
}

/// The id the `n`th snapshot is built under.
pub fn snapshot_id(last_applied: &Option<LogPosition>, n: u64) -> (r: String)
    ensures
        r@ == snapshot_id_spec(position_view(*last_applied), n),
{
    let mut r = match last_applied {
        Some(p) => {
            let mut r = to_owned(p.leader.as_str());
            r.append("-");
            let i = u64_to_string(p.index);
            r.append(i.as_str());
            r.append("-");
            r
        },
        None => {
            let mut r = String::new();
            r.append("--");
            r
        },
    };
    let c = u64_to_string(n);
    r.append(c.as_str());
    proof {
        reveal_strlit("-");
        reveal_strlit("--");
    }
    assert(r@ =~= snapshot_id_spec(position_view(*last_applied), n));
    r
}

/// Whether every inner map of `m` keeps its keys in order, as `m` does.
fn nested_ordered<V: View>(m: &SortedMap<SortedMap<V>>) -> (b: bool)
    ensures
        b == (sorted(m@) && nested_sorted(m@)),
{
    if !m.is_ordered() {
        return false;
    }
    let n = m.len();
    let mut i: usize = 0;
    while i < n
        invariant
            i <= n == m@.len(),
            sorted(m@),
            forall|j: int| 0 <= j < i ==> sorted(#[trigger] m@[j].1),
        decreases n - i,
    {
        if !m.value_at(i).is_ordered() {
            assert(!sorted(m@[i as int].1));
            return false;
        }
        i = i + 1;
    }
    true
}

/// Whether every map of a received snapshot keeps its keys in order, as the
/// registry's own maps always do.
#[verifier::loop_isolation(false)]
pub fn snapshot_ordered(s: &StoredSnapshot) -> (b: bool)
    ensures
        b == model_wf(snapshot_model(*s)),
{
    if !(s.workers.is_ordered() && s.edges.is_ordered() && s.call_slots.is_ordered() && s.call_starts.is_ordered()
        && s.worker_affinity.is_ordered() && s.worker_affinity_expires.is_ordered()) {
        return false;
    }
    if !nested_ordered(&s.worker_affinity_members) {
        return false;
    }
    let cs = &s.worker_affinity_contacts;
    if !cs.is_ordered() {
        return false;
    }
    let n = cs.len();
    let mut i: usize = 0;
    while i < n
        invariant
            i <= n == cs@.len(),
            forall|j: int| 0 <= j < i ==> contacts_wf(#[trigger] cs@[j].1),
        decreases n - i,
    {
        if !nested_ordered(cs.value_at(i)) {
            assert(!contacts_wf(cs@[i as int].1));
            return false;
        }
        i = i + 1;
    }
    true
}

} // verus!
