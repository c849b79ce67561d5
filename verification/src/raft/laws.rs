//! Properties of the registry that span commands or hold of every input.

use super::state_machine::{
    model_wf, step, tenant_slots, trunk_slots, trunk_starts, heartbeat_record, start_since,
    fresh_worker, fresh_edge, RegistryModel, CPS_WINDOW_MS, not_bound_to, members_without, live_member_map,
    live_member, unexpired,
};
use super::types::{sat_sub_i64, RegistryCommand, WorkerRecord, CallSlotRecord, CallStartRecord};
use crate::sorted_map::{
    contains_key, filt, lemma_del, lemma_filt_del, lemma_filt_len, lemma_filt_lookup, lemma_filt_put_absent,
    lemma_filt_put_le, lemma_put, lookup, put, inner_or_empty, lemma_lookup_some, lemma_fmap,
};
use vstd::prelude::*;

verus! {

/// A registered worker reads back under its id, replacing any earlier record.
pub proof fn law_register_then_read(m: RegistryModel, record: WorkerRecord)
    requires
        model_wf(m),
    ensures
        lookup(step(m, (RegistryCommand::Register { record })).0.workers, record.worker_id@) == Some(record),
        forall|k: Seq<char>| k != record.worker_id@ ==> #[trigger] lookup(
            step(m, (RegistryCommand::Register { record })).0.workers,
            k,
        ) == lookup(m.workers, k),
{
    lemma_put(m.workers, record.worker_id@, record);
}

/// A heartbeat is known exactly for a registered worker, and then updates its
/// load and heartbeat time.
pub proof fn law_heartbeat_known_iff_registered(
    m: RegistryModel,
    worker_id: String,
    active_calls: u32,
    cpu_usage_bits: u32,
    at_ms: i64,
)
    requires
        model_wf(m),
    ensures
        ({
            let (m2, r) = step(m, (RegistryCommand::Heartbeat { worker_id, active_calls, cpu_usage_bits, at_ms }));
            &&& r.known == contains_key(m.workers, worker_id@)
            &&& match lookup(m.workers, worker_id@) {
                Some(w) => lookup(m2.workers, worker_id@) == Some(
                    heartbeat_record(w, active_calls, cpu_usage_bits, at_ms),
                ),
                None => m2 == m,
            }
        }),
{
    match lookup(m.workers, worker_id@) {
        Some(w) => lemma_put(m.workers, worker_id@, heartbeat_record(w, active_calls, cpu_usage_bits, at_ms)),
        None => {},
    }
}

/// Reaping stale workers keeps exactly the workers heard from at or after the cut-off,
/// and reports how many went.
pub proof fn law_reap_keeps_exactly_fresh(m: RegistryModel, before_ms: i64)
    requires
        model_wf(m),
    ensures
        ({
            let (m2, r) = step(m, (RegistryCommand::ReapStale { before_ms }));
            &&& forall|k: Seq<char>| #[trigger] lookup(m2.workers, k) == match lookup(m.workers, k) {
                Some(w) => if w.last_heartbeat_ms >= before_ms {
                    Some(w)
                } else {
                    None
                },
                None => None,
            }
            &&& r.removed == (m.workers.len() - m2.workers.len()) as u32
        }),
{
    lemma_filt_lookup(m.workers, fresh_worker(before_ms));
}

/// Reaping stale edges keeps exactly the edges heard from at or after the
/// cut-off, reports how many were removed, and leaves the workers and every
/// other table as they were.
pub proof fn law_reap_edges_keeps_exactly_fresh(m: RegistryModel, before_ms: i64)
    requires
        model_wf(m),
    ensures
        ({
            let (m2, r) = step(m, (RegistryCommand::ReapStaleEdges { before_ms }));
            &&& forall|k: Seq<char>| #[trigger] lookup(m2.edges, k) == match lookup(m.edges, k) {
                Some(e) => if e.last_heartbeat_ms >= before_ms {
                    Some(e)
                } else {
                    None
                },
                None => None,
            }
            &&& m2.edges.len() <= m.edges.len()
            &&& r.removed == (m.edges.len() - m2.edges.len()) as u32
            &&& m2 == RegistryModel { edges: m2.edges, ..m }
            &&& m2.workers == m.workers
        }),
{
    lemma_filt_lookup(m.edges, fresh_edge(before_ms));
    lemma_filt_len(m.edges, fresh_edge(before_ms));
}

/// A heartbeat from a registered worker records the reported load and the
/// heartbeat's time, keeps every other field of the worker and every other
/// worker, and so keeps the worker through any reap whose cut-off is at or
/// before the heartbeat.
pub proof fn law_heartbeat_refreshes_worker(
    m: RegistryModel,
    worker_id: String,
    active_calls: u32,
    cpu_usage_bits: u32,
    at_ms: i64,
    before_ms: i64,
)
    requires
        model_wf(m),
        contains_key(m.workers, worker_id@),
        before_ms <= at_ms,
    ensures
        ({
            let w = lookup(m.workers, worker_id@)->0;
            let m2 = step(m, (RegistryCommand::Heartbeat { worker_id, active_calls, cpu_usage_bits, at_ms })).0;
            let w2 = lookup(m2.workers, worker_id@)->0;
            &&& lookup(m2.workers, worker_id@) is Some
            &&& w2.last_heartbeat_ms == at_ms
            &&& w2.active_calls == active_calls
            &&& w2.cpu_usage_bits == cpu_usage_bits
            &&& w2.worker_id == w.worker_id
            &&& w2.sip_addr == w.sip_addr
            &&& w2.rtp_external_ip == w.rtp_external_ip
            &&& w2.rtp_start_port == w.rtp_start_port
            &&& w2.rtp_end_port == w.rtp_end_port
            &&& w2.max_concurrent == w.max_concurrent
            &&& w2.labels == w.labels
            &&& w2.capabilities == w.capabilities
            &&& w2.edge_worker_addr == w.edge_worker_addr
            &&& w2.nat_type == w.nat_type
            &&& w2.registered_at_ms == w.registered_at_ms
            &&& w2.draining == w.draining
            &&& forall|k: Seq<char>| k != worker_id@ ==> #[trigger] lookup(m2.workers, k) == lookup(m.workers, k)
            &&& lookup(step(m2, (RegistryCommand::ReapStale { before_ms })).0.workers, worker_id@) == Some(w2)
        }),
{
    let w = lookup(m.workers, worker_id@)->0;
    let w2 = heartbeat_record(w, active_calls, cpu_usage_bits, at_ms);
    lemma_put(m.workers, worker_id@, w2);
    let m2 = step(m, (RegistryCommand::Heartbeat { worker_id, active_calls, cpu_usage_bits, at_ms })).0;
    lemma_filt_lookup(m2.workers, fresh_worker(before_ms));
}

/// A newly granted call slot never takes a tenant past its cap, and the
/// reported count is the tenant's count after the grant.
pub proof fn law_acquire_respects_tenant_cap(
    m: RegistryModel,
    call_id: String,
    tenant_id: i64,
    max: Option<u32>,
    trunk_name: Option<String>,
    trunk_max: Option<u32>,
    trunk_max_cps: Option<u32>,
    at_ms: i64,
)
    requires
        model_wf(m),
        m.slots.len() < u32::MAX,
    ensures
        ({
            let (m2, r) = step(
                m,
                (RegistryCommand::AcquireCallSlot { call_id, tenant_id, max, trunk_name, trunk_max, trunk_max_cps, at_ms }),
            );
            &&& r.granted && !contains_key(m.slots, call_id@) ==> tenant_slots(m2.slots, tenant_id) == r.count
            &&& (r.granted && !contains_key(m.slots, call_id@) && max is Some && max->0 > 0)
                ==> tenant_slots(m2.slots, tenant_id) <= max->0
            &&& !r.granted ==> m2.slots == m.slots
        }),
{
    let rec = CallSlotRecord { tenant_id: tenant_id, trunk_name: trunk_name, at_ms: at_ms };
    lemma_filt_len(m.slots, super::state_machine::slot_of_tenant(tenant_id));
    if !contains_key(m.slots, call_id@) {
        lemma_filt_put_absent(m.slots, call_id@, rec, super::state_machine::slot_of_tenant(tenant_id));
    }
}

/// Re-acquiring a held call id is always granted and changes no slot.
pub proof fn law_acquire_idempotent(
    m: RegistryModel,
    call_id: String,
    tenant_id: i64,
    max: Option<u32>,
    trunk_name: Option<String>,
    trunk_max: Option<u32>,
    trunk_max_cps: Option<u32>,
    at_ms: i64,
)
    requires
        model_wf(m),
        contains_key(m.slots, call_id@),
    ensures
        ({
            let (m2, r) = step(
                m,
                (RegistryCommand::AcquireCallSlot { call_id, tenant_id, max, trunk_name, trunk_max, trunk_max_cps, at_ms }),
            );
            r.granted && m2.slots == m.slots
        }),
{
}

/// A newly granted call slot never takes a tenant's trunk past the trunk cap,
/// nor the trunk's starts in the current window past the calls-per-second cap.
pub proof fn law_acquire_respects_trunk_caps(
    m: RegistryModel,
    call_id: String,
    tenant_id: i64,
    max: Option<u32>,
    trunk_name: Option<String>,
    trunk_max: Option<u32>,
    trunk_max_cps: Option<u32>,
    at_ms: i64,
)
    requires
        model_wf(m),
        m.slots.len() < u32::MAX,
        m.starts.len() < u32::MAX,
    ensures
        ({
            let (m2, r) = step(
                m,
                (RegistryCommand::AcquireCallSlot { call_id, tenant_id, max, trunk_name, trunk_max, trunk_max_cps, at_ms }),
            );
            let since = sat_sub_i64(at_ms, CPS_WINDOW_MS);
            &&& (r.granted && !contains_key(m.slots, call_id@) && trunk_name is Some && trunk_max is Some
                && trunk_max->0 > 0) ==> trunk_slots(m2.slots, tenant_id, trunk_name->0@) <= trunk_max->0
            &&& (r.granted && !contains_key(m.slots, call_id@) && trunk_name is Some && trunk_max_cps is Some
                && trunk_max_cps->0 > 0) ==> trunk_starts(m2.starts, tenant_id, trunk_name->0@, since)
                <= trunk_max_cps->0
        }),
{
    let since = sat_sub_i64(at_ms, CPS_WINDOW_MS);
    let starts1 = filt(m.starts, start_since(since));
    lemma_filt_lookup(m.starts, start_since(since));
    lemma_filt_len(m.starts, start_since(since));
    if trunk_name is Some && !contains_key(m.slots, call_id@) {
        let n = trunk_name->0@;
        let slot = CallSlotRecord { tenant_id: tenant_id, trunk_name: trunk_name, at_ms: at_ms };
        let start = CallStartRecord { tenant_id: tenant_id, trunk_name: trunk_name, at_ms: at_ms };
        lemma_filt_len(m.slots, super::state_machine::slot_on_trunk(tenant_id, n));
        lemma_filt_len(starts1, super::state_machine::start_on_trunk(tenant_id, n, since));
        lemma_filt_put_absent(m.slots, call_id@, slot, super::state_machine::slot_on_trunk(tenant_id, n));
        lemma_filt_put_le(starts1, call_id@, start, super::state_machine::start_on_trunk(tenant_id, n, since));
    }
}

/// Granting a slot to one tenant leaves every other tenant's count unchanged.
pub proof fn law_tenants_independent(
    m: RegistryModel,
    call_id: String,
    tenant_id: i64,
    max: Option<u32>,
    trunk_name: Option<String>,
    trunk_max: Option<u32>,
    trunk_max_cps: Option<u32>,
    at_ms: i64,
    other: i64,
)
    requires
        model_wf(m),
        other != tenant_id,
    ensures
        tenant_slots(
            step(
                m,
                (RegistryCommand::AcquireCallSlot { call_id, tenant_id, max, trunk_name, trunk_max, trunk_max_cps, at_ms }),
            ).0.slots,
            other,
        ) == tenant_slots(m.slots, other),
{
    if !contains_key(m.slots, call_id@) {
        let slot = CallSlotRecord { tenant_id: tenant_id, trunk_name: trunk_name, at_ms: at_ms };
        lemma_filt_put_absent(m.slots, call_id@, slot, super::state_machine::slot_of_tenant(other));
    }
}

/// Releasing a call id frees its slot, reports whether one was held, and leaves
/// every other slot alone.
pub proof fn law_release_frees(m: RegistryModel, call_id: String)
    requires
        model_wf(m),
    ensures
        ({
            let (m2, r) = step(m, (RegistryCommand::ReleaseCallSlot { call_id }));
            &&& lookup(m2.slots, call_id@) is None
            &&& r.removed == (if contains_key(m.slots, call_id@) { 1u32 } else { 0u32 })
            &&& forall|k: Seq<char>| k != call_id@ ==> #[trigger] lookup(m2.slots, k) == lookup(m.slots, k)
        }),
{
    lemma_del(m.slots, call_id@);
}

/// Releasing a call id lowers its tenant's count of held slots by one when the
/// call held a slot, and leaves every other tenant's count as it was.
pub proof fn law_release_lowers_tenant_count(m: RegistryModel, call_id: String, t: i64)
    requires
        model_wf(m),
    ensures
        ({
            let (m2, r) = step(m, (RegistryCommand::ReleaseCallSlot { call_id }));
            tenant_slots(m2.slots, t) == tenant_slots(m.slots, t) - (match lookup(m.slots, call_id@) {
                Some(s) => if s.tenant_id == t {
                    1int
                } else {
                    0int
                },
                None => 0int,
            })
        }),
{
    if contains_key(m.slots, call_id@) {
        lemma_filt_del(m.slots, call_id@, super::state_machine::slot_of_tenant(t));
    }
}

/// Releasing a newly granted slot gives back exactly the slots held before.
pub proof fn law_acquire_then_release(
    m: RegistryModel,
    call_id: String,
    tenant_id: i64,
    max: Option<u32>,
    trunk_name: Option<String>,
    trunk_max: Option<u32>,
    trunk_max_cps: Option<u32>,
    at_ms: i64,
)
    requires
        model_wf(m),
        !contains_key(m.slots, call_id@),
    ensures
        ({
            let (m2, r) = step(
                m,
                (RegistryCommand::AcquireCallSlot { call_id, tenant_id, max, trunk_name, trunk_max, trunk_max_cps, at_ms }),
            );
            let m3 = step(m2, (RegistryCommand::ReleaseCallSlot { call_id })).0;
            forall|k: Seq<char>| #[trigger] lookup(m3.slots, k) == lookup(m.slots, k)
        }),
{
    let slot = CallSlotRecord { tenant_id: tenant_id, trunk_name: trunk_name, at_ms: at_ms };
    lemma_put(m.slots, call_id@, slot);
    lemma_del(put(m.slots, call_id@, slot), call_id@);
    lemma_del(m.slots, call_id@);
}

/// The slot reaper keeps exactly the slots reserved at or after the cut-off.
pub proof fn law_reap_slots_keeps_exactly_recent(m: RegistryModel, before_ms: i64)
    requires
        model_wf(m),
    ensures
        ({
            let (m2, r) = step(m, (RegistryCommand::ReapCallSlots { before_ms }));
            &&& forall|k: Seq<char>| #[trigger] lookup(m2.slots, k) == match lookup(m.slots, k) {
                Some(s) => if s.at_ms >= before_ms {
                    Some(s)
                } else {
                    None
                },
                None => None,
            }
            &&& r.removed == (m.slots.len() - m2.slots.len()) as u32
        }),
{
    lemma_filt_lookup(m.slots, |k: Seq<char>, r: CallSlotRecord| r.at_ms >= before_ms);
}

/// Unbinding an affinity key clears it from every affinity map and reports
/// whether it had a primary.
pub proof fn law_unbind_clears_binding(m: RegistryModel, affinity_key: String)
    requires
        model_wf(m),
    ensures
        ({
            let (m2, r) = step(m, (RegistryCommand::UnbindAffinity { affinity_key }));
            &&& lookup(m2.affinity, affinity_key@) is None
            &&& lookup(m2.affinity_expires, affinity_key@) is None
            &&& lookup(m2.members, affinity_key@) is None
            &&& lookup(m2.contacts, affinity_key@) is None
            &&& r.known == contains_key(m.affinity, affinity_key@)
        }),
{
    lemma_del(m.affinity, affinity_key@);
    lemma_del(m.affinity_expires, affinity_key@);
    lemma_del(m.members, affinity_key@);
    lemma_del(m.contacts, affinity_key@);
}

/// Binding a key to a worker makes that worker its primary and a member.
pub proof fn law_bind_then_resolve(m: RegistryModel, affinity_key: String, worker_id: String, expires_at_ms: Option<i64>)
    requires
        model_wf(m),
    ensures
        ({
            let m2 = step(m, (RegistryCommand::BindAffinity { affinity_key, worker_id, expires_at_ms })).0;
            &&& lookup(m2.affinity, affinity_key@) == Some(worker_id@)
            &&& lookup(m2.members, affinity_key@) matches Some(ms) && lookup(ms, worker_id@) == Some(
                match expires_at_ms {
                    Some(t) => t,
                    None => 0i64,
                },
            )
        }),
{
    let t: i64 = match expires_at_ms {
        Some(t) => t,
        None => 0,
    };
    lemma_put(m.affinity, affinity_key@, worker_id@);
    let inner = inner_or_empty(m.members, affinity_key@);
    if lookup(m.members, affinity_key@) is Some {
        lemma_lookup_some(m.members, affinity_key@);
    }
    lemma_put(inner, worker_id@, t);
    lemma_put(m.members, affinity_key@, put(inner, worker_id@, t));
}

/// Removing a registered worker leaves it primary of no binding and member of none.
pub proof fn law_remove_worker_unbinds_it(m: RegistryModel, worker_id: String)
    requires
        model_wf(m),
        contains_key(m.workers, worker_id@),
    ensures
        ({
            let m2 = step(m, (RegistryCommand::Remove { worker_id })).0;
            &&& lookup(m2.workers, worker_id@) is None
            &&& forall|k: Seq<char>| #[trigger] lookup(m2.affinity, k) != Some(worker_id@)
            &&& forall|k: Seq<char>| #[trigger] lookup(m2.members, k) is Some ==> !contains_key(
                lookup(m2.members, k)->0,
                worker_id@,
            )
        }),
{
    let w = worker_id@;
    lemma_del(m.workers, w);
    {
        lemma_filt_lookup(m.affinity, not_bound_to(w));
        lemma_fmap(m.members, members_without(w));
        let m2 = step(m, (RegistryCommand::Remove { worker_id })).0;
        assert forall|k: Seq<char>| #[trigger] lookup(m2.members, k) is Some
            implies !contains_key(lookup(m2.members, k)->0, w) by {
            lemma_lookup_some(m.members, k);
            let ms0 = lookup(m.members, k)->0;
            lemma_del(ms0, w);
        }
    }
}

/// After expiring affinity state, every member left is still in force.
pub proof fn law_reap_affinity_leaves_live_members(m: RegistryModel, before_ms: i64)
    requires
        model_wf(m),
    ensures
        ({
            let m2 = step(m, (RegistryCommand::ReapAffinity { before_ms })).0;
            forall|k: Seq<char>, w: Seq<char>|
                #![trigger lookup(lookup(m2.members, k)->0, w)]
                lookup(m2.members, k) is Some && lookup(lookup(m2.members, k)->0, w) is Some ==> unexpired(
                    lookup(lookup(m2.members, k)->0, w)->0,
                    before_ms,
                )
        }),
{
    lemma_fmap(m.members, live_member_map(before_ms));
    let m2 = step(m, (RegistryCommand::ReapAffinity { before_ms })).0;
    assert forall|k: Seq<char>, w: Seq<char>|
        #![trigger lookup(lookup(m2.members, k)->0, w)]
        lookup(m2.members, k) is Some && lookup(lookup(m2.members, k)->0, w) is Some implies unexpired(
            lookup(lookup(m2.members, k)->0, w)->0,
            before_ms,
        ) by {
        let ms0 = lookup(m.members, k)->0;
        lemma_lookup_some(m.members, k);
        lemma_filt_lookup(ms0, live_member(before_ms));
    }
}

} // verus!
