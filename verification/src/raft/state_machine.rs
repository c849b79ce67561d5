//! The deterministic registry state machine: every replica applies the same
//! commands in log order to these maps and so holds the same registry.

use super::types::{
    known_resp, sat_sub_i64, saturating_sub_i64, worker_healthy_spec, CallSlotRecord, CallStartRecord, EdgeRecord, ExtensionContactRecord,
    RegistryCommand, RegistryResponse, WorkerRecord,
};
use crate::sorted_map::{
    del, filt, fmap, contains_key, keep_if, key_lt, lemma_del, lemma_filt_fmap, lemma_filt_len, lemma_fmap, lemma_put,
    lemma_put_existing, lemma_filt_first, nested_sorted, inner_or_empty, lemma_put_values, lemma_del_values, lemma_del_at, lemma_filt_values, put_nested, upsert_nested, lemma_filt_lookup, lemma_lookup_index, lemma_lookup_some, lookup, keys, opt_view, put, sorted, SortedMap,
};
use crate::text::{str_eq, strs_view};
use super::snapshot::{snapshot_model, snapshot_ordered, LogPosition, StoredSnapshot};
use super::affinity::{best_contact_q_milli, best_q_spec};
use crate::seqs::{keep, lemma_insert_by_rank, sorted_by_rank, with_rank};
use vstd::prelude::*;

verus! {

/// Width of the trunk calls-per-second window, in milliseconds.
pub const CPS_WINDOW_MS: i64 = 1000;

/// A string-keyed map as a sorted list of entries.
pub type Entries<X> = Seq<(Seq<char>, X)>;

/// The registry as mathematical maps (each a sorted entry list).
pub ghost struct RegistryModel {
    /// worker id -> worker
    pub workers: Entries<WorkerRecord>,
    /// edge id -> edge
    pub edges: Entries<EdgeRecord>,
    /// call id -> reserved call slot
    pub slots: Entries<CallSlotRecord>,
    /// call id -> recent accepted call start
    pub starts: Entries<CallStartRecord>,
    /// affinity key -> primary worker id
    pub affinity: Entries<Seq<char>>,
    /// affinity key -> expiry (unix ms)
    pub affinity_expires: Entries<i64>,
    /// affinity key -> worker id -> member expiry (0 = none)
    pub members: Entries<Entries<i64>>,
    /// affinity key -> worker id -> contact -> contact record
    pub contacts: Entries<Entries<Entries<ExtensionContactRecord>>>,
}

/// Every map, and every nested map, has strictly increasing keys.
pub open spec fn model_wf(m: RegistryModel) -> bool {
    &&& sorted(m.workers)
    &&& sorted(m.edges)
    &&& sorted(m.slots)
    &&& sorted(m.starts)
    &&& sorted(m.affinity)
    &&& sorted(m.affinity_expires)
    &&& sorted(m.members)
    &&& nested_sorted(m.members)
    &&& sorted(m.contacts)
    &&& (forall|i: int| 0 <= i < m.contacts.len() ==> contacts_wf(#[trigger] m.contacts[i].1))
}

/// A per-key contact table: sorted by worker, each worker's contacts sorted.
pub open spec fn contacts_wf(cm: Entries<Entries<ExtensionContactRecord>>) -> bool {
    sorted(cm) && nested_sorted(cm)
}

/// The total number of nested entries, which every count must fit below.
pub open spec fn nested_len<X>(s: Entries<Entries<X>>) -> nat
    decreases s.len(),
{
    if s.len() == 0 {
        0
    } else {
        nested_len(s.drop_last()) + s.last().1.len()
    }
}

/// Sizes for which every count a command reports, and every count plus one,
/// fits in a `u32`.
pub open spec fn model_fits(m: RegistryModel) -> bool {
    &&& m.slots.len() < u32::MAX
    &&& m.starts.len() < u32::MAX
    &&& m.affinity_expires.len() + nested_len(m.members) + contacts_len(m.contacts) < u32::MAX
}

/// The number of contact records across all keys and workers.
pub open spec fn contacts_len(s: Entries<Entries<Entries<ExtensionContactRecord>>>) -> nat
    decreases s.len(),
{
    if s.len() == 0 {
        0
    } else {
        contacts_len(s.drop_last()) + nested_len(s.last().1)
    }
}

/// A worker after a heartbeat.
pub open spec fn heartbeat_record(w: WorkerRecord, active_calls: u32, cpu: u32, at_ms: i64) -> WorkerRecord {
    WorkerRecord { active_calls: active_calls, cpu_usage_bits: cpu, last_heartbeat_ms: at_ms, ..w }
}

/// A worker marked draining.
pub open spec fn drained_record(w: WorkerRecord) -> WorkerRecord {
    WorkerRecord { draining: true, ..w }
}

/// An edge after a heartbeat.
pub open spec fn edge_heartbeat_record(e: EdgeRecord, active_calls: u32, at_ms: i64) -> EdgeRecord {
    EdgeRecord { active_calls: active_calls, last_heartbeat_ms: at_ms, ..e }
}

/// Whether an optional trunk name is `name`.
pub open spec fn on_trunk(t: Option<String>, name: Seq<char>) -> bool {
    t is Some && t->0@ == name
}

/// A slot held by tenant `t`.
pub open spec fn slot_of_tenant(t: i64) -> spec_fn(Seq<char>, CallSlotRecord) -> bool {
    |k: Seq<char>, r: CallSlotRecord| r.tenant_id == t
}

/// A worker healthy at `now_ms` under `timeout_ms`.
pub open spec fn worker_is_healthy(now_ms: i64, timeout_ms: i64) -> spec_fn(Seq<char>, WorkerRecord) -> bool {
    |k: Seq<char>, w: WorkerRecord| worker_healthy_spec(w, now_ms, timeout_ms)
}

/// A slot held by tenant `t` on trunk `name`.
pub open spec fn slot_on_trunk(t: i64, name: Seq<char>) -> spec_fn(Seq<char>, CallSlotRecord) -> bool {
    |k: Seq<char>, r: CallSlotRecord| r.tenant_id == t && on_trunk(r.trunk_name, name)
}

/// A start at or after `since`.
pub open spec fn start_since(since: i64) -> spec_fn(Seq<char>, CallStartRecord) -> bool {
    |k: Seq<char>, r: CallStartRecord| r.at_ms >= since
}

/// A start by tenant `t` on trunk `name` at or after `since`.
pub open spec fn start_on_trunk(t: i64, name: Seq<char>, since: i64) -> spec_fn(Seq<char>, CallStartRecord) -> bool {
    |k: Seq<char>, r: CallStartRecord| r.at_ms >= since && r.tenant_id == t && on_trunk(r.trunk_name, name)
}

/// Slots held by tenant `t`.
pub open spec fn tenant_slots(s: Entries<CallSlotRecord>, t: i64) -> nat {
    filt(s, slot_of_tenant(t)).len()
}

/// Slots held by tenant `t` on trunk `name`.
pub open spec fn trunk_slots(s: Entries<CallSlotRecord>, t: i64, name: Seq<char>) -> nat {
    filt(s, slot_on_trunk(t, name)).len()
}

/// Starts by tenant `t` on trunk `name` at or after `since`.
pub open spec fn trunk_starts(s: Entries<CallStartRecord>, t: i64, name: Seq<char>, since: i64) -> nat {
    filt(s, start_on_trunk(t, name, since)).len()
}

/// A cap that is set and non-zero, reached by `n`.
pub open spec fn cap_reached(cap: Option<u32>, n: u32) -> bool {
    cap is Some && cap->0 > 0 && n >= cap->0
}

/// A refused slot request.
pub open spec fn denied(count: u32, trunk_count: u32, cps: u32) -> RegistryResponse {
    RegistryResponse {
        known: true,
        removed: 0,
        granted: false,
        count: count,
        trunk_count: trunk_count,
        trunk_cps_count: cps,
    }
}

/// Reserving a call slot (see `RegistryCommand::AcquireCallSlot`).
pub open spec fn acquire_spec(
    m: RegistryModel,
    call_id: Seq<char>,
    tenant_id: i64,
    max: Option<u32>,
    trunk_name: Option<String>,
    trunk_max: Option<u32>,
    trunk_max_cps: Option<u32>,
    at_ms: i64,
) -> (RegistryModel, RegistryResponse) {
    let since = sat_sub_i64(at_ms, CPS_WINDOW_MS);
    let starts1 = filt(m.starts, start_since(since));
    let m1 = RegistryModel { starts: starts1, ..m };
    let current = tenant_slots(m.slots, tenant_id) as u32;
    let trunk_current: u32 = if trunk_name is Some {
        trunk_slots(m.slots, tenant_id, trunk_name->0@) as u32
    } else {
        0
    };
    let cps_current: u32 = if trunk_name is Some {
        trunk_starts(starts1, tenant_id, trunk_name->0@, since) as u32
    } else {
        0
    };
    if contains_key(m.slots, call_id) {
        (m1, RegistryResponse {
            known: true,
            removed: 0,
            granted: true,
            count: current,
            trunk_count: trunk_current,
            trunk_cps_count: cps_current,
        })
    } else if cap_reached(max, current) {
        (m1, denied(current, 0, 0))
    } else if cap_reached(trunk_max, trunk_current) || cap_reached(trunk_max_cps, cps_current) {
        (m1, denied(current, trunk_current, cps_current))
    } else {
        (RegistryModel {
            slots: put(
                m.slots,
                call_id,
                CallSlotRecord { tenant_id: tenant_id, trunk_name: trunk_name, at_ms: at_ms },
            ),
            starts: put(
                starts1,
                call_id,
                CallStartRecord { tenant_id: tenant_id, trunk_name: trunk_name, at_ms: at_ms },
            ),
            ..m
        }, RegistryResponse {
            known: true,
            removed: 0,
            granted: true,
            count: (current + 1) as u32,
            trunk_count: (trunk_current + 1) as u32,
            trunk_cps_count: (cps_current + 1) as u32,
        })
    }
}

/// A primary binding that is not to worker `w`.
pub open spec fn not_bound_to(w: Seq<char>) -> spec_fn(Seq<char>, Seq<char>) -> bool {
    |k: Seq<char>, v: Seq<char>| v != w
}

/// A member set without `w`, dropped when nothing is left.
pub open spec fn members_without(w: Seq<char>) -> spec_fn(Seq<char>, Entries<i64>) -> Option<Entries<i64>> {
    |k: Seq<char>, ms: Entries<i64>| if del(ms, w).len() > 0 {
        Some(del(ms, w))
    } else {
        None
    }
}

/// A binding's contact table without `w`, for the bindings that have members;
/// dropped when nothing is left.
pub open spec fn contacts_without(members: Entries<Entries<i64>>, w: Seq<char>) -> spec_fn(
    Seq<char>,
    Entries<Entries<ExtensionContactRecord>>,
) -> Option<Entries<Entries<ExtensionContactRecord>>> {
    |k: Seq<char>, cm: Entries<Entries<ExtensionContactRecord>>| if !contains_key(members, k) {
        Some(cm)
    } else if del(cm, w).len() > 0 {
        Some(del(cm, w))
    } else {
        None
    }
}

/// An expiry whose binding is in `affinity`.
pub open spec fn expiry_bound(affinity: Entries<Seq<char>>) -> spec_fn(Seq<char>, i64) -> bool {
    |k: Seq<char>, t: i64| contains_key(affinity, k)
}

/// Drops worker `w` from every affinity binding after the worker is removed.
pub open spec fn remove_worker_affinity(m: RegistryModel, w: Seq<char>) -> RegistryModel {
    let affinity = filt(m.affinity, not_bound_to(w));
    RegistryModel {
        affinity: affinity,
        members: fmap(m.members, members_without(w)),
        contacts: fmap(m.contacts, contacts_without(m.members, w)),
        affinity_expires: filt(m.affinity_expires, expiry_bound(affinity)),
        ..m
    }
}

/// The primary worker of a binding once its members are limited to live workers:
/// kept if still a member, else the smallest remaining member, else none.
pub open spec fn repair_primary(
    members: Entries<Entries<i64>>,
    live: Entries<WorkerRecord>,
    k: Seq<char>,
    p: Seq<char>,
) -> Option<Seq<char>> {
    match lookup(members, k) {
        Some(ms) => {
            let ms2 = filt(ms, member_live(live));
            if contains_key(ms2, p) {
                Some(p)
            } else if ms2.len() > 0 {
                Some(ms2[0].0)
            } else {
                None
            }
        },
        None => Some(p),
    }
}

/// A worker heard from at or after `before_ms`.
pub open spec fn fresh_worker(before_ms: i64) -> spec_fn(Seq<char>, WorkerRecord) -> bool {
    |k: Seq<char>, w: WorkerRecord| w.last_heartbeat_ms >= before_ms
}

/// An edge heard from at or after `before_ms`.
pub open spec fn fresh_edge(before_ms: i64) -> spec_fn(Seq<char>, EdgeRecord) -> bool {
    |k: Seq<char>, e: EdgeRecord| e.last_heartbeat_ms >= before_ms
}

/// A binding whose primary is a worker of `live`.
pub open spec fn bound_to_live(live: Entries<WorkerRecord>) -> spec_fn(Seq<char>, Seq<char>) -> bool {
    |k: Seq<char>, v: Seq<char>| contains_key(live, v)
}

/// A member that is a worker of `live`.
pub open spec fn member_live(live: Entries<WorkerRecord>) -> spec_fn(Seq<char>, i64) -> bool {
    |w: Seq<char>, t: i64| contains_key(live, w)
}

/// A member set limited to the workers of `live`, dropped when nothing is left.
pub open spec fn live_member_set(live: Entries<WorkerRecord>) -> spec_fn(Seq<char>, Entries<i64>) -> Option<Entries<i64>> {
    |k: Seq<char>, ms: Entries<i64>| if filt(ms, member_live(live)).len() > 0 {
        Some(filt(ms, member_live(live)))
    } else {
        None
    }
}

/// Repairs each primary against the member sets limited to `live`.
pub open spec fn repair(members: Entries<Entries<i64>>, live: Entries<WorkerRecord>) -> spec_fn(Seq<char>, Seq<char>) -> Option<Seq<char>> {
    |k: Seq<char>, p: Seq<char>| repair_primary(members, live, k, p)
}

/// Removing stale workers: only workers heard from at or after `before_ms` stay,
/// and when any left, every binding is limited to the remaining workers.
pub open spec fn reap_stale_spec(m: RegistryModel, before_ms: i64) -> (RegistryModel, RegistryResponse) {
    let workers = filt(m.workers, fresh_worker(before_ms));
    let removed = (m.workers.len() - workers.len()) as u32;
    if removed == 0 {
        (RegistryModel { workers: workers, ..m }, known_resp(true, 0))
    } else {
        let aff1 = filt(m.affinity, bound_to_live(workers));
        let aff2 = fmap(aff1, repair(m.members, workers));
        (RegistryModel {
            workers: workers,
            affinity: aff2,
            members: fmap(m.members, live_member_set(workers)),
            affinity_expires: filt(m.affinity_expires, expiry_bound(aff2)),
            ..m
        }, known_resp(true, removed))
    }
}

/// The members of a binding after adding `w` with member expiry `t`.
pub open spec fn members_with(m: RegistryModel, k: Seq<char>, w: Seq<char>, t: i64) -> Entries<i64> {
    put(inner_or_empty(m.members, k), w, t)
}

/// A contact record as stored (`q` capped at 1000).
pub open spec fn contact_record(contact: String, q_milli: u16, expires_at_ms: i64) -> ExtensionContactRecord {
    ExtensionContactRecord {
        contact: contact,
        q_milli: if q_milli <= 1000 { q_milli } else { 1000 },
        expires_at_ms: expires_at_ms,
    }
}

/// The contacts table of a binding after adding a contact for `w`.
pub open spec fn contacts_with(
    m: RegistryModel,
    k: Seq<char>,
    w: Seq<char>,
    c: ExtensionContactRecord,
) -> Entries<Entries<ExtensionContactRecord>> {
    put_nested(inner_or_empty(m.contacts, k), w, c.contact@, c)
}

/// Removing worker `w` from the binding `k`.
pub open spec fn unbind_worker_spec(m: RegistryModel, k: Seq<char>, w: Seq<char>) -> (RegistryModel, RegistryResponse) {
    match lookup(m.members, k) {
        Some(ms) => {
            let removed: u32 = if contains_key(ms, w) { 1 } else { 0 };
            let ms2 = del(ms, w);
            let contacts1 = match lookup(m.contacts, k) {
                Some(cm) => if del(cm, w).len() > 0 {
                    put(m.contacts, k, del(cm, w))
                } else {
                    del(m.contacts, k)
                },
                None => m.contacts,
            };
            if ms2.len() == 0 {
                (RegistryModel {
                    members: del(m.members, k),
                    affinity: del(m.affinity, k),
                    affinity_expires: del(m.affinity_expires, k),
                    contacts: del(m.contacts, k),
                    ..m
                }, known_resp(removed > 0, removed))
            } else if lookup(m.affinity, k) == Some(w) {
                (RegistryModel {
                    members: put(m.members, k, ms2),
                    affinity: put(m.affinity, k, ms2[0].0),
                    contacts: contacts1,
                    ..m
                }, known_resp(removed > 0, removed))
            } else {
                (RegistryModel { members: put(m.members, k, ms2), contacts: contacts1, ..m }, known_resp(
                    removed > 0,
                    removed,
                ))
            }
        },
        None => if lookup(m.affinity, k) == Some(w) {
            (RegistryModel {
                affinity: del(m.affinity, k),
                affinity_expires: del(m.affinity_expires, k),
                ..m
            }, known_resp(true, 1))
        } else {
            (m, known_resp(false, 0))
        },
    }
}

/// Whether a member or contact expiry is still in force after `before_ms`.
pub open spec fn unexpired(t: i64, before_ms: i64) -> bool {
    t == 0 || t > before_ms
}

/// A member still in force after `before_ms`.
pub open spec fn live_member(before_ms: i64) -> spec_fn(Seq<char>, i64) -> bool {
    |w: Seq<char>, t: i64| unexpired(t, before_ms)
}

/// A contact still in force after `before_ms`.
pub open spec fn live_contact(before_ms: i64) -> spec_fn(Seq<char>, ExtensionContactRecord) -> bool {
    |c: Seq<char>, r: ExtensionContactRecord| unexpired(r.expires_at_ms, before_ms)
}

/// A binding's members that are still in force.
pub open spec fn live_members(ms: Entries<i64>, before_ms: i64) -> Entries<i64> {
    filt(ms, live_member(before_ms))
}

/// A worker's contacts that are still in force.
pub open spec fn live_contacts(cs: Entries<ExtensionContactRecord>, before_ms: i64) -> Entries<ExtensionContactRecord> {
    filt(cs, live_contact(before_ms))
}

/// An expiry entry of a binding with no members whose expiry is at or before `before_ms`.
pub open spec fn expired_entry(members: Entries<Entries<i64>>, before_ms: i64) -> spec_fn(Seq<char>, i64) -> bool {
    |k: Seq<char>, t: i64| !contains_key(members, k) && t <= before_ms
}

/// A binding with no members whose own expiry is at or before `before_ms`.
pub open spec fn binding_gone(m: RegistryModel, k: Seq<char>, before_ms: i64) -> bool {
    lookup(m.affinity_expires, k) matches Some(t) && expired_entry(m.members, before_ms)(k, t)
}

/// A binding whose every member has expired.
pub open spec fn binding_emptied(m: RegistryModel, k: Seq<char>, before_ms: i64) -> bool {
    lookup(m.members, k) matches Some(ms) && live_members(ms, before_ms).len() == 0
}

/// An entry of a binding that is not gone.
pub open spec fn not_gone<X>(m: RegistryModel, before_ms: i64) -> spec_fn(Seq<char>, X) -> bool {
    |k: Seq<char>, x: X| !binding_gone(m, k, before_ms)
}

/// An entry of a binding that is neither gone nor emptied.
pub open spec fn binding_kept<X>(m: RegistryModel, before_ms: i64) -> spec_fn(Seq<char>, X) -> bool {
    |k: Seq<char>, x: X| !binding_gone(m, k, before_ms) && !binding_emptied(m, k, before_ms)
}

/// An expiry entry that is neither expired nor of an emptied binding.
pub open spec fn expiry_kept(m: RegistryModel, before_ms: i64) -> spec_fn(Seq<char>, i64) -> bool {
    |k: Seq<char>, t: i64| !expired_entry(m.members, before_ms)(k, t) && !binding_emptied(m, k, before_ms)
}

/// A member set limited to members in force, dropped when nothing is left.
pub open spec fn live_member_map(before_ms: i64) -> spec_fn(Seq<char>, Entries<i64>) -> Option<Entries<i64>> {
    |k: Seq<char>, ms: Entries<i64>| if live_members(ms, before_ms).len() > 0 {
        Some(live_members(ms, before_ms))
    } else {
        None
    }
}

/// A worker's contacts limited to those in force, dropped when nothing is left.
pub open spec fn live_contacts_map(before_ms: i64) -> spec_fn(Seq<char>, Entries<ExtensionContactRecord>) -> Option<
    Entries<ExtensionContactRecord>,
> {
    |w: Seq<char>, cs: Entries<ExtensionContactRecord>| if live_contacts(cs, before_ms).len() > 0 {
        Some(live_contacts(cs, before_ms))
    } else {
        None
    }
}

/// A binding's contact table limited to contacts in force, dropping emptied workers.
pub open spec fn live_contact_table(cm: Entries<Entries<ExtensionContactRecord>>, before_ms: i64) -> Entries<Entries<ExtensionContactRecord>> {
    fmap(cm, live_contacts_map(before_ms))
}

/// A contact table limited to contacts in force, dropped when nothing is left.
pub open spec fn live_table_map(before_ms: i64) -> spec_fn(Seq<char>, Entries<Entries<ExtensionContactRecord>>) -> Option<
    Entries<Entries<ExtensionContactRecord>>,
> {
    |k: Seq<char>, cm: Entries<Entries<ExtensionContactRecord>>| if live_contact_table(cm, before_ms).len() > 0 {
        Some(live_contact_table(cm, before_ms))
    } else {
        None
    }
}

/// The affinity map after member expiry, binding by binding in key order: a
/// binding left with no member in force loses its primary; otherwise a primary
/// that is missing or no longer a member in force becomes the first member in force.
pub open spec fn reaped_affinity(members: Entries<Entries<i64>>, aff: Entries<Seq<char>>, before_ms: i64) -> Entries<Seq<char>>
    decreases members.len(),
{
    if members.len() == 0 {
        aff
    } else {
        let r = reaped_affinity(members.drop_last(), aff, before_ms);
        let k = members.last().0;
        let live = live_members(members.last().1, before_ms);
        if live.len() == 0 {
            del(r, k)
        } else {
            match lookup(r, k) {
                Some(p) => if contains_key(live, p) {
                    r
                } else {
                    put(r, k, live[0].0)
                },
                None => put(r, k, live[0].0),
            }
        }
    }
}

/// Members removed by expiry, summed over bindings.
pub open spec fn expired_members(members: Entries<Entries<i64>>, before_ms: i64) -> nat
    decreases members.len(),
{
    if members.len() == 0 {
        0
    } else {
        expired_members(members.drop_last(), before_ms) + (members.last().1.len() - live_members(
            members.last().1,
            before_ms,
        ).len()) as nat
    }
}

/// Contacts removed by expiry in one binding's table.
pub open spec fn expired_in_table(cm: Entries<Entries<ExtensionContactRecord>>, before_ms: i64) -> nat
    decreases cm.len(),
{
    if cm.len() == 0 {
        0
    } else {
        expired_in_table(cm.drop_last(), before_ms) + (cm.last().1.len() - live_contacts(
            cm.last().1,
            before_ms,
        ).len()) as nat
    }
}

/// Contacts removed by expiry, summed over bindings.
pub open spec fn expired_contacts(s: Entries<Entries<Entries<ExtensionContactRecord>>>, before_ms: i64) -> nat
    decreases s.len(),
{
    if s.len() == 0 {
        0
    } else {
        expired_contacts(s.drop_last(), before_ms) + expired_in_table(s.last().1, before_ms)
    }
}

/// Expiring affinity state at `before_ms`: memberless bindings past their own
/// expiry go, expired members and contacts go, emptied bindings go, and
/// primaries are repaired. The count is of expired bindings, members and contacts.
pub open spec fn reap_affinity_spec(m: RegistryModel, before_ms: i64) -> (RegistryModel, RegistryResponse) {
    let n_expired = filt(m.affinity_expires, expired_entry(m.members, before_ms)).len();
    let aff1 = filt(m.affinity, not_gone(m, before_ms));
    let contacts2 = filt(m.contacts, binding_kept(m, before_ms));
    let removed = n_expired + expired_members(m.members, before_ms) + expired_contacts(contacts2, before_ms);
    (RegistryModel {
        affinity: reaped_affinity(m.members, aff1, before_ms),
        affinity_expires: filt(m.affinity_expires, expiry_kept(m, before_ms)),
        members: fmap(m.members, live_member_map(before_ms)),
        contacts: fmap(contacts2, live_table_map(before_ms)),
        ..m
    }, known_resp(true, removed as u32))
}

/// Applying one command to the registry: the new registry and the response.
pub open spec fn step(m: RegistryModel, cmd: RegistryCommand) -> (RegistryModel, RegistryResponse) {
    match cmd {
        RegistryCommand::Register { record } => (
            RegistryModel { workers: put(m.workers, record.worker_id@, record), ..m },
            known_resp(true, 0),
        ),
        RegistryCommand::Heartbeat { worker_id, active_calls, cpu_usage_bits, at_ms } => match lookup(
            m.workers,
            worker_id@,
        ) {
            Some(w) => (RegistryModel {
                workers: put(
                    m.workers,
                    worker_id@,
                    heartbeat_record(w, active_calls, cpu_usage_bits, at_ms),
                ),
                ..m
            }, known_resp(true, 0)),
            None => (m, known_resp(false, 0)),
        },
        RegistryCommand::Drain { worker_id } => match lookup(m.workers, worker_id@) {
            Some(w) => (
                RegistryModel { workers: put(m.workers, worker_id@, drained_record(w)), ..m },
                known_resp(true, 0),
            ),
            None => (m, known_resp(false, 0)),
        },
        RegistryCommand::Remove { worker_id } => if contains_key(m.workers, worker_id@) {
            (
                remove_worker_affinity(
                    RegistryModel { workers: del(m.workers, worker_id@), ..m },
                    worker_id@,
                ),
                known_resp(true, 1),
            )
        } else {
            (m, known_resp(false, 0))
        },
        RegistryCommand::ReapStale { before_ms } => reap_stale_spec(m, before_ms),
        RegistryCommand::RegisterEdge { record } => (
            RegistryModel { edges: put(m.edges, record.edge_id@, record), ..m },
            known_resp(true, 0),
        ),
        RegistryCommand::EdgeHeartbeat { edge_id, active_calls, at_ms } => match lookup(
            m.edges,
            edge_id@,
        ) {
            Some(e) => (RegistryModel {
                edges: put(m.edges, edge_id@, edge_heartbeat_record(e, active_calls, at_ms)),
                ..m
            }, known_resp(true, 0)),
            None => (m, known_resp(false, 0)),
        },
        RegistryCommand::RemoveEdge { edge_id } => if contains_key(m.edges, edge_id@) {
            (RegistryModel { edges: del(m.edges, edge_id@), ..m }, known_resp(true, 1))
        } else {
            (m, known_resp(false, 0))
        },
        RegistryCommand::ReapStaleEdges { before_ms } => {
            let edges = filt(m.edges, fresh_edge(before_ms));
            (RegistryModel { edges: edges, ..m }, known_resp(true, (m.edges.len() - edges.len()) as u32))
        },
        RegistryCommand::AcquireCallSlot {
            call_id,
            tenant_id,
            max,
            trunk_name,
            trunk_max,
            trunk_max_cps,
            at_ms,
        } => acquire_spec(m, call_id@, tenant_id, max, trunk_name, trunk_max, trunk_max_cps, at_ms),
        RegistryCommand::ReleaseCallSlot { call_id } => if contains_key(m.slots, call_id@) {
            (RegistryModel { slots: del(m.slots, call_id@), ..m }, known_resp(true, 1))
        } else {
            (m, known_resp(false, 0))
        },
        RegistryCommand::ReapCallSlots { before_ms } => {
            let slots = filt(m.slots, |k: Seq<char>, r: CallSlotRecord| r.at_ms >= before_ms);
            (RegistryModel { slots: slots, ..m }, known_resp(true, (m.slots.len() - slots.len()) as u32))
        },
        RegistryCommand::BindAffinity { affinity_key, worker_id, expires_at_ms } => (RegistryModel {
            affinity: put(m.affinity, affinity_key@, worker_id@),
            affinity_expires: if expires_at_ms is None {
                del(m.affinity_expires, affinity_key@)
            } else {
                m.affinity_expires
            },
            members: put(
                m.members,
                affinity_key@,
                members_with(
                    m,
                    affinity_key@,
                    worker_id@,
                    match expires_at_ms {
                        Some(t) => t,
                        None => 0,
                    },
                ),
            ),
            ..m
        }, known_resp(true, 0)),
        RegistryCommand::BindAffinityContact {
            affinity_key,
            worker_id,
            contact,
            q_milli,
            expires_at_ms,
        } => (RegistryModel {
            affinity: put(m.affinity, affinity_key@, worker_id@),
            members: put(
                m.members,
                affinity_key@,
                members_with(m, affinity_key@, worker_id@, expires_at_ms),
            ),
            contacts: put(
                m.contacts,
                affinity_key@,
                contacts_with(
                    m,
                    affinity_key@,
                    worker_id@,
                    contact_record(contact, q_milli, expires_at_ms),
                ),
            ),
            ..m
        }, known_resp(true, 0)),
        RegistryCommand::UnbindAffinity { affinity_key } => {
            let removed: u32 = if contains_key(m.affinity, affinity_key@) { 1 } else { 0 };
            (RegistryModel {
                affinity: del(m.affinity, affinity_key@),
                affinity_expires: del(m.affinity_expires, affinity_key@),
                members: del(m.members, affinity_key@),
                contacts: del(m.contacts, affinity_key@),
                ..m
            }, known_resp(removed > 0, removed))
        },
        RegistryCommand::UnbindAffinityWorker { affinity_key, worker_id } => unbind_worker_spec(
            m,
            affinity_key@,
            worker_id@,
        ),
        RegistryCommand::ReapAffinity { before_ms } => reap_affinity_spec(m, before_ms),
    }
}

/// A worker's preference for binding `key`: its best contact `q` in force, or 1000.
pub open spec fn contact_q_for(m: RegistryModel, key: Seq<char>, w: Seq<char>, now_ms: i64) -> u16 {
    match lookup(m.contacts, key) {
        Some(cm) => match lookup(cm, w) {
            Some(cs) => best_q_spec(cs, now_ms),
            None => 1000,
        },
        None => 1000,
    }
}

/// Ranks worker ids by their preference for binding `key`.
pub open spec fn q_rank(m: RegistryModel, key: Seq<char>, now_ms: i64) -> spec_fn(Seq<char>) -> int {
    |w: Seq<char>| contact_q_for(m, key, w, now_ms) as int
}

/// The workers bound to `key` at `now_ms`. With members: the members in force,
/// highest preference first and by id among equals. Without: nothing once the
/// binding's own expiry has passed, else its primary.
pub open spec fn affinity_ids_ok(m: RegistryModel, key: Seq<char>, now_ms: i64, r: Seq<Seq<char>>) -> bool {
    match lookup(m.members, key) {
        Some(ms) => {
            &&& sorted_by_rank(r, q_rank(m, key, now_ms))
            &&& forall|k: int|
                #[trigger] keep(r, with_rank(q_rank(m, key, now_ms), k)) == keep(
                    keys(live_members(ms, now_ms)),
                    with_rank(q_rank(m, key, now_ms), k),
                )
        },
        None => if lookup(m.affinity_expires, key) matches Some(t) && t <= now_ms {
            r == Seq::<Seq<char>>::empty()
        } else {
            r == match lookup(m.affinity, key) {
                Some(w) => seq![w],
                None => Seq::<Seq<char>>::empty(),
            }
        },
    }
}

/// The registry's maps, kept in key order on every replica.
pub struct RegistryState {
    workers: SortedMap<WorkerRecord>,
    edges: SortedMap<EdgeRecord>,
    slots: SortedMap<CallSlotRecord>,
    starts: SortedMap<CallStartRecord>,
    affinity: SortedMap<String>,
    affinity_expires: SortedMap<i64>,
    members: SortedMap<SortedMap<i64>>,
    contacts: SortedMap<SortedMap<SortedMap<ExtensionContactRecord>>>,
}

impl View for RegistryState {
    type V = RegistryModel;

    closed spec fn view(&self) -> RegistryModel {
        RegistryModel {
            workers: self.workers@,
            edges: self.edges@,
            slots: self.slots@,
            starts: self.starts@,
            affinity: self.affinity@,
            affinity_expires: self.affinity_expires@,
            members: self.members@,
            contacts: self.contacts@,
        }
    }
}

proof fn lemma_reinsert<X>(s: Entries<X>, i: int)
    requires
        sorted(s),
        0 <= i < s.len(),
    ensures
        i > 0 ==> key_lt(s.remove(i)[i - 1].0, s[i].0),
        i < s.remove(i).len() ==> key_lt(s[i].0, s.remove(i)[i].0),
{
    if i > 0 {
        assert(s.remove(i)[i - 1] == s[i - 1]);
    }
    if i < s.remove(i).len() {
        assert(s.remove(i)[i] == s[i + 1]);
    }
}

/// The first member of `ms` that is a worker of `live`.
fn first_live_member(ms: &SortedMap<i64>, live: &SortedMap<WorkerRecord>) -> (r: Option<String>)
    requires
        ms.wf(),
        live.wf(),
    ensures
        opt_view(r) == (if filt(ms@, member_live(live@)).len() > 0 {
            Some(filt(ms@, member_live(live@))[0].0)
        } else {
            None
        }),
{
    let ghost q = member_live(live@);
    let mut i: usize = 0;
    while i < ms.len()
        invariant
            i <= ms@.len(),
            live.wf(),
            q == member_live(live@),
            filt(ms@.take(i as int), q).len() == 0,
        decreases ms@.len() - i,
    {
        let k = ms.key_at(i);
        if live.contains(k.as_str()) {
            proof {
                lemma_filt_first(ms@, q, i as int);
            }
            return Some(k.clone());
        }
        proof {
            assert(ms@.take(i + 1).drop_last() =~= ms@.take(i as int));
            assert(ms@.take(i + 1).last() == ms@[i as int]);
        }
        i = i + 1;
    }
    assert(ms@.take(i as int) =~= ms@);
    None
}

/// The members of `ms` that are workers of `live`.
fn retain_live_members(ms: SortedMap<i64>, live: &SortedMap<WorkerRecord>) -> (r: SortedMap<i64>)
    requires
        ms.wf(),
        live.wf(),
    ensures
        r.wf(),
        r@ == filt(ms@, member_live(live@)),
{
    let ghost q = member_live(live@);
    let f = |w: &String, t: i64| -> (o: Option<i64>)
        requires
            live.wf(),
        ensures
            opt_view(o) == (if contains_key(live@, w@) { Some(t) } else { None }),
        {
            if live.contains(w.as_str()) {
                Some(t)
            } else {
                None
            }
        };
    proof {
        lemma_filt_fmap(ms@, q);
    }
    ms.filter_map(f, Ghost(keep_if(q)), Ghost(|t: i64| true))
}

/// Members of `ms` still in force after `before_ms`.
fn live_count(ms: &SortedMap<i64>, before_ms: i64) -> (n: usize)
    ensures
        n == live_members(ms@, before_ms).len(),
        n <= ms@.len(),
{
    let f = |w: &String, t: &i64| -> (b: bool)
        ensures
            b == unexpired(*t, before_ms),
        { *t == 0 || *t > before_ms };
    proof {
        lemma_filt_len(ms@, live_member(before_ms));
    }
    ms.count_where(f, Ghost(live_member(before_ms)))
}

/// Contacts of `cs` still in force after `before_ms`.
fn live_contact_count(cs: &SortedMap<ExtensionContactRecord>, before_ms: i64) -> (n: usize)
    ensures
        n == live_contacts(cs@, before_ms).len(),
        n <= cs@.len(),
{
    let f = |c: &String, r: &ExtensionContactRecord| -> (b: bool)
        ensures
            b == unexpired(r.expires_at_ms, before_ms),
        { r.expires_at_ms == 0 || r.expires_at_ms > before_ms };
    proof {
        lemma_filt_len(cs@, live_contact(before_ms));
    }
    cs.count_where(f, Ghost(live_contact(before_ms)))
}

/// The members of `ms` still in force.
fn retain_unexpired_members(ms: SortedMap<i64>, before_ms: i64) -> (r: SortedMap<i64>)
    requires
        ms.wf(),
    ensures
        r.wf(),
        r@ == live_members(ms@, before_ms),
{
    let ghost q = live_member(before_ms);
    let f = |w: &String, t: i64| -> (o: Option<i64>)
        ensures
            opt_view(o) == (if unexpired(t, before_ms) { Some(t) } else { None }),
        {
            if t == 0 || t > before_ms {
                Some(t)
            } else {
                None
            }
        };
    proof {
        lemma_filt_fmap(ms@, q);
    }
    ms.filter_map(f, Ghost(keep_if(q)), Ghost(|t: i64| true))
}

/// The contacts of `cs` still in force.
fn retain_unexpired_contacts(cs: SortedMap<ExtensionContactRecord>, before_ms: i64) -> (r: SortedMap<ExtensionContactRecord>)
    requires
        cs.wf(),
    ensures
        r.wf(),
        r@ == live_contacts(cs@, before_ms),
{
    let ghost q = live_contact(before_ms);
    let f = |c: &String, rec: ExtensionContactRecord| -> (o: Option<ExtensionContactRecord>)
        ensures
            opt_view(o) == (if unexpired(rec.expires_at_ms, before_ms) { Some(rec) } else { None }),
        {
            if rec.expires_at_ms == 0 || rec.expires_at_ms > before_ms {
                Some(rec)
            } else {
                None
            }
        };
    proof {
        lemma_filt_fmap(cs@, q);
    }
    cs.filter_map(f, Ghost(keep_if(q)), Ghost(|r: ExtensionContactRecord| true))
}

/// Limiting a well-formed contact table to contacts in force keeps it well formed.
proof fn lemma_live_table_wf(cm: Entries<Entries<ExtensionContactRecord>>, before_ms: i64)
    requires
        contacts_wf(cm),
    ensures
        contacts_wf(live_contact_table(cm, before_ms)),
{
    let g = live_contacts_map(before_ms);
    lemma_fmap(cm, g);
    let t = fmap(cm, g);
    assert forall|i: int| 0 <= i < t.len() implies sorted(#[trigger] t[i].1) by {
        let j = choose|j: int| 0 <= j < cm.len() && #[trigger] t[i].0 == cm[j].0 && g(cm[j].0, cm[j].1) == Some(t[i].1);
        lemma_filt_lookup(cm[j].1, live_contact(before_ms));
    }
}

/// A contact table limited to contacts in force, dropping emptied workers.
fn retain_live_table(cm: SortedMap<SortedMap<ExtensionContactRecord>>, before_ms: i64) -> (r: SortedMap<SortedMap<ExtensionContactRecord>>)
    requires
        cm.wf(),
        contacts_wf(cm@),
    ensures
        r.wf(),
        contacts_wf(r@),
        r@ == live_contact_table(cm@, before_ms),
{
    let ghost g = live_contacts_map(before_ms);
    let f = |w: &String, cs: SortedMap<ExtensionContactRecord>| -> (o: Option<SortedMap<ExtensionContactRecord>>)
        requires
            cs.wf(),
        ensures
            opt_view(o) == g(w@, cs@),
        {
            let l = retain_unexpired_contacts(cs, before_ms);
            if l.len() > 0 {
                Some(l)
            } else {
                None
            }
        };
    proof {
        lemma_live_table_wf(cm@, before_ms);
    }
    cm.filter_map(f, Ghost(g), Ghost(|cs: Entries<ExtensionContactRecord>| sorted(cs)))
}

/// The first member of `ms` still in force.
fn first_unexpired_member(ms: &SortedMap<i64>, before_ms: i64) -> (r: Option<String>)
    ensures
        opt_view(r) == (if live_members(ms@, before_ms).len() > 0 {
            Some(live_members(ms@, before_ms)[0].0)
        } else {
            None
        }),
{
    let ghost q = live_member(before_ms);
    let mut i: usize = 0;
    while i < ms.len()
        invariant
            i <= ms@.len(),
            q == live_member(before_ms),
            filt(ms@.take(i as int), q).len() == 0,
        decreases ms@.len() - i,
    {
        let t = *ms.value_at(i);
        if t == 0 || t > before_ms {
            proof {
                lemma_filt_first(ms@, q, i as int);
            }
            return Some(ms.key_at(i).clone());
        }
        proof {
            assert(ms@.take(i + 1).drop_last() =~= ms@.take(i as int));
            assert(ms@.take(i + 1).last() == ms@[i as int]);
        }
        i = i + 1;
    }
    assert(ms@.take(i as int) =~= ms@);
    None
}

/// Whether the binding `k` is memberless and expired at or before `before_ms`.
fn binding_gone_exec(ex: &SortedMap<i64>, mem: &SortedMap<SortedMap<i64>>, k: &str, before_ms: i64) -> (b: bool)
    requires
        ex.wf(),
        mem.wf(),
    ensures
        b == (lookup(ex@, k@) matches Some(t) && expired_entry(mem@, before_ms)(k@, t)),
{
    match ex.get(k) {
        Some(t) => !mem.contains(k) && *t <= before_ms,
        None => false,
    }
}

/// Whether the binding `k` has members, none of them in force.
fn binding_emptied_exec(mem: &SortedMap<SortedMap<i64>>, k: &str, before_ms: i64) -> (b: bool)
    requires
        mem.wf(),
    ensures
        b == (lookup(mem@, k@) matches Some(ms) && live_members(ms, before_ms).len() == 0),
{
    match mem.get(k) {
        Some(ms) => live_count(ms, before_ms) == 0,
        None => false,
    }
}

/// Expired contacts in one binding's contact table.
fn table_expired_count(cm: &SortedMap<SortedMap<ExtensionContactRecord>>, before_ms: i64) -> (n: u32)
    requires
        nested_len(cm@) < u32::MAX,
    ensures
        n == expired_in_table(cm@, before_ms),
        n <= nested_len(cm@),
{
    let mut n: u32 = 0;
    let mut j: usize = 0;
    while j < cm.len()
        invariant
            j <= cm@.len(),
            nested_len(cm@) < u32::MAX,
            n == expired_in_table(cm@.take(j as int), before_ms),
            n <= nested_len(cm@.take(j as int)),
        decreases cm@.len() - j,
    {
        let cs = cm.value_at(j);
        let live = live_contact_count(cs, before_ms);
        proof {
            assert(cm@.take(j + 1).drop_last() =~= cm@.take(j as int));
            assert(cm@.take(j + 1).last() == cm@[j as int]);
            lemma_nested_len_prefix(cm@, j + 1);
        }
        n = n + (cs.len() - live) as u32;
        j = j + 1;
    }
    assert(cm@.take(j as int) =~= cm@);
    n
}

/// A prefix holds no more nested entries than the whole.
proof fn lemma_nested_len_prefix<X>(s: Entries<Entries<X>>, i: int)
    requires
        0 <= i <= s.len(),
    ensures
        nested_len(s.take(i)) <= nested_len(s),
    decreases s.len(),
{
    if i < s.len() {
        assert(s.take(i) =~= s.drop_last().take(i));
        lemma_nested_len_prefix(s.drop_last(), i);
    } else {
        assert(s.take(i) =~= s);
    }
}

/// A prefix holds no more contacts than the whole.
proof fn lemma_contacts_len_prefix(s: Entries<Entries<Entries<ExtensionContactRecord>>>, i: int)
    requires
        0 <= i <= s.len(),
    ensures
        contacts_len(s.take(i)) <= contacts_len(s),
    decreases s.len(),
{
    if i < s.len() {
        assert(s.take(i) =~= s.drop_last().take(i));
        lemma_contacts_len_prefix(s.drop_last(), i);
    } else {
        assert(s.take(i) =~= s);
    }
}

/// Filtering bindings never adds contacts.
proof fn lemma_contacts_len_filt(
    s: Entries<Entries<Entries<ExtensionContactRecord>>>,
    p: spec_fn(Seq<char>, Entries<Entries<ExtensionContactRecord>>) -> bool,
)
    ensures
        contacts_len(filt(s, p)) <= contacts_len(s),
    decreases s.len(),
{
    if s.len() > 0 {
        lemma_contacts_len_filt(s.drop_last(), p);
        let r = filt(s.drop_last(), p);
        if p(s.last().0, s.last().1) {
            assert(r.push(s.last()).drop_last() =~= r);
        }
    }
}

/// A copy of an optional string.
pub fn clone_opt_string(o: &Option<String>) -> (r: Option<String>)
    ensures
        r == *o,
{
    match o {
        Some(s) => Some(s.clone()),
        None => None,
    }
}

impl RegistryState {
    /// The empty registry.
    pub fn new() -> (r: Self)
        ensures
            model_wf(r@),
            r@.workers.len() == 0 && r@.edges.len() == 0 && r@.slots.len() == 0 && r@.starts.len() == 0
                && r@.affinity.len() == 0 && r@.affinity_expires.len() == 0 && r@.members.len() == 0
                && r@.contacts.len() == 0,
    {
        RegistryState {
            workers: SortedMap::new(),
            edges: SortedMap::new(),
            slots: SortedMap::new(),
            starts: SortedMap::new(),
            affinity: SortedMap::new(),
            affinity_expires: SortedMap::new(),
            members: SortedMap::new(),
            contacts: SortedMap::new(),
        }
    }

    /// Applies one command: the registry and response are those `step` gives.
    pub fn apply(&mut self, cmd: RegistryCommand) -> (r: RegistryResponse)
        requires
            model_wf(old(self)@),
            model_fits(old(self)@),
        ensures
            model_wf(final(self)@),
            (final(self)@, r) == step(old(self)@, cmd),
    {
        match cmd {
            RegistryCommand::Register { record } => self.register(record),
            RegistryCommand::Heartbeat { worker_id, active_calls, cpu_usage_bits, at_ms } => self.heartbeat(
                worker_id,
                active_calls,
                cpu_usage_bits,
                at_ms,
            ),
            RegistryCommand::Drain { worker_id } => self.drain(worker_id),
            RegistryCommand::Remove { worker_id } => self.remove_worker(worker_id),
            RegistryCommand::ReapStale { before_ms } => self.reap_stale(before_ms),
            RegistryCommand::RegisterEdge { record } => self.register_edge(record),
            RegistryCommand::EdgeHeartbeat { edge_id, active_calls, at_ms } => self.edge_heartbeat(
                edge_id,
                active_calls,
                at_ms,
            ),
            RegistryCommand::RemoveEdge { edge_id } => self.remove_edge(edge_id),
            RegistryCommand::ReapStaleEdges { before_ms } => self.reap_stale_edges(before_ms),
            RegistryCommand::AcquireCallSlot {
                call_id,
                tenant_id,
                max,
                trunk_name,
                trunk_max,
                trunk_max_cps,
                at_ms,
            } => self.acquire(call_id, tenant_id, max, trunk_name, trunk_max, trunk_max_cps, at_ms),
            RegistryCommand::ReleaseCallSlot { call_id } => self.release_slot(call_id),
            RegistryCommand::ReapCallSlots { before_ms } => self.reap_slots(before_ms),
            RegistryCommand::BindAffinity { affinity_key, worker_id, expires_at_ms } => self.bind_affinity(
                affinity_key,
                worker_id,
                expires_at_ms,
            ),
            RegistryCommand::BindAffinityContact {
                affinity_key,
                worker_id,
                contact,
                q_milli,
                expires_at_ms,
            } => self.bind_affinity_contact(affinity_key, worker_id, contact, q_milli, expires_at_ms),
            RegistryCommand::UnbindAffinity { affinity_key } => self.unbind_affinity(affinity_key),
            RegistryCommand::UnbindAffinityWorker { affinity_key, worker_id } => self.unbind_affinity_worker(
                affinity_key,
                worker_id,
            ),
            RegistryCommand::ReapAffinity { before_ms } => self.reap_affinity(before_ms),
        }
    }

    fn register(&mut self, record: WorkerRecord) -> (r: RegistryResponse)
        requires
            model_wf(old(self)@),
        ensures
            model_wf(final(self)@),
            (final(self)@, r) == step(old(self)@, (RegistryCommand::Register { record })),
    {
        let ghost w = self@.workers;
        proof {
            lemma_put(w, record.worker_id@, record);
        }
        let id = record.worker_id.clone();
        self.workers.insert(id, record);
        RegistryResponse::known(true, 0)
    }

    fn heartbeat(&mut self, worker_id: String, active_calls: u32, cpu_usage_bits: u32, at_ms: i64) -> (r: RegistryResponse)
        requires
            model_wf(old(self)@),
        ensures
            model_wf(final(self)@),
            (final(self)@, r) == step(
                old(self)@,
                (RegistryCommand::Heartbeat { worker_id, active_calls, cpu_usage_bits, at_ms }),
            ),
    {
        let ghost w = self@.workers;
        match self.workers.index_of(worker_id.as_str()) {
            Some(i) => {
                let ghost rec = heartbeat_record(w[i as int].1, active_calls, cpu_usage_bits, at_ms);
                let (k, mut r) = self.workers.remove_at(i);
                r.active_calls = active_calls;
                r.cpu_usage_bits = cpu_usage_bits;
                r.last_heartbeat_ms = at_ms;
                assert(r == rec);
                proof {
                    lemma_reinsert(w, i as int);
                }
                self.workers.insert_at(i, k, r);
                proof {
                    lemma_put_existing(w, i as int, rec);
                    assert(self.workers@ =~= w.update(i as int, (w[i as int].0, rec)));
                }
                RegistryResponse::known(true, 0)
            },
            None => RegistryResponse::known(false, 0),
        }
    }

    fn drain(&mut self, worker_id: String) -> (r: RegistryResponse)
        requires
            model_wf(old(self)@),
        ensures
            model_wf(final(self)@),
            (final(self)@, r) == step(old(self)@, (RegistryCommand::Drain { worker_id })),
    {
        let ghost w = self@.workers;
        match self.workers.index_of(worker_id.as_str()) {
            Some(i) => {
                let ghost rec = drained_record(w[i as int].1);
                let (k, mut r) = self.workers.remove_at(i);
                r.draining = true;
                assert(r == rec);
                proof {
                    lemma_reinsert(w, i as int);
                }
                self.workers.insert_at(i, k, r);
                proof {
                    lemma_put_existing(w, i as int, rec);
                    assert(self.workers@ =~= w.update(i as int, (w[i as int].0, rec)));
                }
                RegistryResponse::known(true, 0)
            },
            None => RegistryResponse::known(false, 0),
        }
    }

    fn remove_worker(&mut self, worker_id: String) -> (r: RegistryResponse)
        requires
            model_wf(old(self)@),
        ensures
            model_wf(final(self)@),
            (final(self)@, r) == step(old(self)@, (RegistryCommand::Remove { worker_id })),
    {
        let ghost w = self@.workers;
        proof {
            lemma_del(w, worker_id@);
        }
        match self.workers.remove(worker_id.as_str()) {
            Some(_) => {
                self.remove_worker_affinity(&worker_id);
                RegistryResponse::known(true, 1)
            },
            None => RegistryResponse::known(false, 0),
        }
    }

    fn register_edge(&mut self, record: EdgeRecord) -> (r: RegistryResponse)
        requires
            model_wf(old(self)@),
        ensures
            model_wf(final(self)@),
            (final(self)@, r) == step(old(self)@, (RegistryCommand::RegisterEdge { record })),
    {
        let ghost e = self@.edges;
        proof {
            lemma_put(e, record.edge_id@, record);
        }
        let id = record.edge_id.clone();
        self.edges.insert(id, record);
        RegistryResponse::known(true, 0)
    }

    fn edge_heartbeat(&mut self, edge_id: String, active_calls: u32, at_ms: i64) -> (r: RegistryResponse)
        requires
            model_wf(old(self)@),
        ensures
            model_wf(final(self)@),
            (final(self)@, r) == step(
                old(self)@,
                (RegistryCommand::EdgeHeartbeat { edge_id, active_calls, at_ms }),
            ),
    {
        let ghost es = self@.edges;
        match self.edges.index_of(edge_id.as_str()) {
            Some(i) => {
                let ghost rec = edge_heartbeat_record(es[i as int].1, active_calls, at_ms);
                let (k, mut r) = self.edges.remove_at(i);
                r.active_calls = active_calls;
                r.last_heartbeat_ms = at_ms;
                assert(r == rec);
                proof {
                    lemma_reinsert(es, i as int);
                }
                self.edges.insert_at(i, k, r);
                proof {
                    lemma_put_existing(es, i as int, rec);
                    assert(self.edges@ =~= es.update(i as int, (es[i as int].0, rec)));
                }
                RegistryResponse::known(true, 0)
            },
            None => RegistryResponse::known(false, 0),
        }
    }

    fn remove_edge(&mut self, edge_id: String) -> (r: RegistryResponse)
        requires
            model_wf(old(self)@),
        ensures
            model_wf(final(self)@),
            (final(self)@, r) == step(old(self)@, (RegistryCommand::RemoveEdge { edge_id })),
    {
        let ghost e = self@.edges;
        proof {
            lemma_del(e, edge_id@);
        }
        match self.edges.remove(edge_id.as_str()) {
            Some(_) => RegistryResponse::known(true, 1),
            None => RegistryResponse::known(false, 0),
        }
    }

    fn reap_stale_edges(&mut self, before_ms: i64) -> (r: RegistryResponse)
        requires
            model_wf(old(self)@),
        ensures
            model_wf(final(self)@),
            (final(self)@, r) == step(old(self)@, (RegistryCommand::ReapStaleEdges { before_ms })),
    {
        let ghost e = self@.edges;
        let before = self.edges.len();
        let mut tmp = SortedMap::new();
        std::mem::swap(&mut tmp, &mut self.edges);
        let ghost p = |k: Seq<char>, r: EdgeRecord| r.last_heartbeat_ms >= before_ms;
        let f = |k: &String, r: EdgeRecord| -> (o: Option<EdgeRecord>)
            ensures
                opt_view(o) == (if r.last_heartbeat_ms >= before_ms { Some(r) } else { None }),
            {
                if r.last_heartbeat_ms >= before_ms {
                    Some(r)
                } else {
                    None
                }
            };
        self.edges = tmp.filter_map(f, Ghost(keep_if(p)), Ghost(|r: EdgeRecord| true));
        proof {
            lemma_filt_fmap(e, p);
            lemma_fmap(e, keep_if(p));
        }
        let after = self.edges.len();
        RegistryResponse::known(true, (before - after) as u32)
    }

    fn release_slot(&mut self, call_id: String) -> (r: RegistryResponse)
        requires
            model_wf(old(self)@),
        ensures
            model_wf(final(self)@),
            (final(self)@, r) == step(old(self)@, (RegistryCommand::ReleaseCallSlot { call_id })),
    {
        let ghost sl = self@.slots;
        proof {
            lemma_del(sl, call_id@);
        }
        match self.slots.remove(call_id.as_str()) {
            Some(_) => RegistryResponse::known(true, 1),
            None => RegistryResponse::known(false, 0),
        }
    }

    fn reap_slots(&mut self, before_ms: i64) -> (r: RegistryResponse)
        requires
            model_wf(old(self)@),
        ensures
            model_wf(final(self)@),
            (final(self)@, r) == step(old(self)@, (RegistryCommand::ReapCallSlots { before_ms })),
    {
        let ghost e = self@.slots;
        let before = self.slots.len();
        let mut tmp = SortedMap::new();
        std::mem::swap(&mut tmp, &mut self.slots);
        let ghost p = |k: Seq<char>, r: CallSlotRecord| r.at_ms >= before_ms;
        let f = |k: &String, r: CallSlotRecord| -> (o: Option<CallSlotRecord>)
            ensures
                opt_view(o) == (if r.at_ms >= before_ms { Some(r) } else { None }),
            {
                if r.at_ms >= before_ms {
                    Some(r)
                } else {
                    None
                }
            };
        self.slots = tmp.filter_map(f, Ghost(keep_if(p)), Ghost(|r: CallSlotRecord| true));
        proof {
            lemma_filt_fmap(e, p);
            lemma_fmap(e, keep_if(p));
        }
        let after = self.slots.len();
        RegistryResponse::known(true, (before - after) as u32)
    }

    fn bind_affinity_contact(
        &mut self,
        affinity_key: String,
        worker_id: String,
        contact: String,
        q_milli: u16,
        expires_at_ms: i64,
    ) -> (r: RegistryResponse)
        requires
            model_wf(old(self)@),
        ensures
            model_wf(final(self)@),
            (final(self)@, r) == step(
                old(self)@,
                (RegistryCommand::BindAffinityContact { affinity_key, worker_id, contact, q_milli, expires_at_ms }),
            ),
    {
        let ghost m = self@;
        self.affinity.insert(affinity_key.clone(), worker_id.clone());
        upsert_nested(&mut self.members, &affinity_key, worker_id.clone(), expires_at_ms);
        let q = if q_milli <= 1000 {
            q_milli
        } else {
            1000
        };
        let rec = ExtensionContactRecord { contact: contact.clone(), q_milli: q, expires_at_ms };
        assert(rec == contact_record(contact, q_milli, expires_at_ms));
        let ghost nc = contacts_with(m, affinity_key@, worker_id@, rec);
        match self.contacts.index_of(affinity_key.as_str()) {
            Some(i) => {
                let mut cm = self.contacts.replace_value_at(i, SortedMap::new());
                proof {
                    lemma_lookup_index(m.contacts, i as int);
                }
                upsert_nested(&mut cm, &worker_id, contact, rec);
                self.contacts.set_value_at(i, cm);
                proof {
                    lemma_put_existing(m.contacts, i as int, nc);
                    assert(self@.contacts =~= m.contacts.update(i as int, (affinity_key@, nc)));
                }
            },
            None => {
                let mut cm = SortedMap::new();
                assert(cm@ =~= inner_or_empty(m.contacts, affinity_key@));
                upsert_nested(&mut cm, &worker_id, contact, rec);
                self.contacts.insert(affinity_key, cm);
            },
        }
        proof {
            lemma_put_values(m.contacts, affinity_key@, nc, |c: Entries<Entries<ExtensionContactRecord>>| contacts_wf(c));
        }
        RegistryResponse::known(true, 0)
    }

    fn unbind_affinity(&mut self, affinity_key: String) -> (r: RegistryResponse)
        requires
            model_wf(old(self)@),
        ensures
            model_wf(final(self)@),
            (final(self)@, r) == step(old(self)@, (RegistryCommand::UnbindAffinity { affinity_key })),
    {
        let ghost m = self@;
        proof {
            lemma_del_values(m.members, affinity_key@, |ms: Entries<i64>| sorted(ms));
            lemma_del_values(m.contacts, affinity_key@, |c: Entries<Entries<ExtensionContactRecord>>| contacts_wf(c));
        }
        let removed: u32 = if self.affinity.remove(affinity_key.as_str()).is_some() {
            1
        } else {
            0
        };
        self.affinity_expires.remove(affinity_key.as_str());
        self.members.remove(affinity_key.as_str());
        self.contacts.remove(affinity_key.as_str());
        RegistryResponse::known(removed > 0, removed)
    }

    fn unbind_affinity_worker(&mut self, affinity_key: String, worker_id: String) -> (r: RegistryResponse)
        requires
            model_wf(old(self)@),
        ensures
            model_wf(final(self)@),
            (final(self)@, r) == step(old(self)@, (RegistryCommand::UnbindAffinityWorker { affinity_key, worker_id })),
    {
        let ghost m = self@;
        let ghost k = affinity_key@;
        let ghost w = worker_id@;
        let is_primary = match self.affinity.get(affinity_key.as_str()) {
            Some(p) => str_eq(p.as_str(), worker_id.as_str()),
            None => false,
        };
        assert(is_primary == (lookup(m.affinity, k) == Some(w)));
        match self.members.index_of(affinity_key.as_str()) {
            Some(i) => {
                let mut ms = self.members.replace_value_at(i, SortedMap::new());
                proof {
                    lemma_lookup_index(m.members, i as int);
                }
                let ghost ms0 = ms@;
                let removed: u32 = if ms.remove(worker_id.as_str()).is_some() {
                    1
                } else {
                    0
                };
                if ms.len() == 0 {
                    self.members.remove_at(i);
                    proof {
                        lemma_del_at(m.members, k, i as int);
                        assert(self@.members =~= del(m.members, k));
                        lemma_del_values(m.members, k, |ms: Entries<i64>| sorted(ms));
                        lemma_del_values(m.contacts, k, |c: Entries<Entries<ExtensionContactRecord>>| contacts_wf(c));
                    }
                    self.affinity.remove(affinity_key.as_str());
                    self.affinity_expires.remove(affinity_key.as_str());
                    self.contacts.remove(affinity_key.as_str());
                    return RegistryResponse::known(removed > 0, removed);
                }
                match self.contacts.index_of(affinity_key.as_str()) {
                    Some(j) => {
                        let mut cm = self.contacts.replace_value_at(j, SortedMap::new());
                        proof {
                            lemma_lookup_index(m.contacts, j as int);
                            lemma_del_values(cm@, w, |cs: Entries<ExtensionContactRecord>| sorted(cs));
                        }
                        cm.remove(worker_id.as_str());
                        if cm.len() > 0 {
                            self.contacts.set_value_at(j, cm);
                            proof {
                                lemma_put_existing(m.contacts, j as int, del(m.contacts[j as int].1, w));
                                assert(self@.contacts =~= m.contacts.update(j as int, (k, del(m.contacts[j as int].1, w))));
                                lemma_put_values(
                                    m.contacts,
                                    k,
                                    del(m.contacts[j as int].1, w),
                                    |c: Entries<Entries<ExtensionContactRecord>>| contacts_wf(c),
                                );
                            }
                        } else {
                            self.contacts.remove_at(j);
                            proof {
                                lemma_del_at(m.contacts, k, j as int);
                                assert(self@.contacts =~= del(m.contacts, k));
                                lemma_del_values(m.contacts, k, |c: Entries<Entries<ExtensionContactRecord>>| contacts_wf(c));
                            }
                        }
                    },
                    None => {},
                }
                if is_primary {
                    let first = ms.key_at(0).clone();
                    self.affinity.insert(affinity_key.clone(), first);
                }
                self.members.set_value_at(i, ms);
                proof {
                    lemma_put_existing(m.members, i as int, del(ms0, w));
                    assert(self@.members =~= m.members.update(i as int, (k, del(ms0, w))));
                    lemma_put_values(m.members, k, del(ms0, w), |ms: Entries<i64>| sorted(ms));
                }
                RegistryResponse::known(removed > 0, removed)
            },
            None => {
                if is_primary {
                    self.affinity.remove(affinity_key.as_str());
                    self.affinity_expires.remove(affinity_key.as_str());
                    RegistryResponse::known(true, 1)
                } else {
                    RegistryResponse::known(false, 0)
                }
            },
        }
    }

    fn reap_affinity(&mut self, before_ms: i64) -> (r: RegistryResponse)
        requires
            model_wf(old(self)@),
            model_fits(old(self)@),
        ensures
            model_wf(final(self)@),
            (final(self)@, r) == step(old(self)@, (RegistryCommand::ReapAffinity { before_ms })),
    {
        let ghost m = self@;
        let mem = &self.members;
        let fx = |k: &String, t: &i64| -> (b: bool)
            requires
                mem.wf(),
            ensures
                b == (!contains_key(mem@, k@) && *t <= before_ms),
            { !mem.contains(k.as_str()) && *t <= before_ms };
        let n_expired = self.affinity_expires.count_where(fx, Ghost(expired_entry(m.members, before_ms)));
        proof {
            lemma_filt_len(m.affinity_expires, expired_entry(m.members, before_ms));
        }
        // Bindings that are not gone keep their primary, for now.
        let ghost pa = not_gone::<Seq<char>>(m, before_ms);
        let mut aff = SortedMap::new();
        std::mem::swap(&mut aff, &mut self.affinity);
        let ex = &self.affinity_expires;
        let mem = &self.members;
        let fa = |k: &String, p: String| -> (o: Option<String>)
            requires
                ex.wf(),
                mem.wf(),
            ensures
                opt_view(o) == (if !(lookup(ex@, k@) matches Some(t) && expired_entry(mem@, before_ms)(k@, t)) {
                    Some(p@)
                } else {
                    None
                }),
            {
                if !binding_gone_exec(ex, mem, k.as_str(), before_ms) {
                    Some(p)
                } else {
                    None
                }
            };
        let mut aff = aff.filter_map(fa, Ghost(keep_if(pa)), Ghost(|p: Seq<char>| true));
        proof {
            lemma_filt_fmap(m.affinity, pa);
            lemma_fmap(m.affinity, keep_if(pa));
        }
        let ghost aff1 = aff@;
        // Contact tables of kept bindings.
        let ghost pc = binding_kept::<Entries<Entries<ExtensionContactRecord>>>(m, before_ms);
        let mut cs = SortedMap::new();
        std::mem::swap(&mut cs, &mut self.contacts);
        let fc = |k: &String, cm: SortedMap<SortedMap<ExtensionContactRecord>>| -> (o: Option<
            SortedMap<SortedMap<ExtensionContactRecord>>,
        >)
            requires
                ex.wf(),
                mem.wf(),
            ensures
                opt_view(o) == (if !(lookup(ex@, k@) matches Some(t) && expired_entry(mem@, before_ms)(k@, t))
                    && !(lookup(mem@, k@) matches Some(ms) && live_members(ms, before_ms).len() == 0) {
                    Some(cm@)
                } else {
                    None
                }),
            {
                if !binding_gone_exec(ex, mem, k.as_str(), before_ms) && !binding_emptied_exec(mem, k.as_str(), before_ms) {
                    Some(cm)
                } else {
                    None
                }
            };
        let cs2 = cs.filter_map(fc, Ghost(keep_if(pc)), Ghost(|cm: Entries<Entries<ExtensionContactRecord>>| true));
        let ghost c2 = cs2@;
        proof {
            lemma_filt_fmap(m.contacts, pc);
            lemma_fmap(m.contacts, keep_if(pc));
            lemma_filt_values(m.contacts, pc, |c: Entries<Entries<ExtensionContactRecord>>| contacts_wf(c));
            lemma_contacts_len_filt(m.contacts, pc);
        }
        // Expiries of kept bindings.
        let ghost pe = expiry_kept(m, before_ms);
        let mut es = SortedMap::new();
        std::mem::swap(&mut es, &mut self.affinity_expires);
        let fe = |k: &String, t: i64| -> (o: Option<i64>)
            requires
                mem.wf(),
            ensures
                opt_view(o) == (if !expired_entry(mem@, before_ms)(k@, t)
                    && !(lookup(mem@, k@) matches Some(ms) && live_members(ms, before_ms).len() == 0) {
                    Some(t)
                } else {
                    None
                }),
            {
                if !(!mem.contains(k.as_str()) && t <= before_ms) && !binding_emptied_exec(mem, k.as_str(), before_ms) {
                    Some(t)
                } else {
                    None
                }
            };
        self.affinity_expires = es.filter_map(fe, Ghost(keep_if(pe)), Ghost(|t: i64| true));
        proof {
            lemma_filt_fmap(m.affinity_expires, pe);
            lemma_fmap(m.affinity_expires, keep_if(pe));
        }
        // Primaries, and expired members, binding by binding.
        let mut cnt_m: u32 = 0;
        let mut i: usize = 0;
        proof {
            assert(m.members.take(0) =~= Seq::<(Seq<char>, Entries<i64>)>::empty());
        }
        while i < self.members.len()
            invariant
                self.members@ == m.members,
                self.members.wf(),
                nested_sorted(m.members),
                i <= m.members.len(),
                aff.wf(),
                aff@ == reaped_affinity(m.members.take(i as int), aff1, before_ms),
                cnt_m == expired_members(m.members.take(i as int), before_ms),
                cnt_m <= nested_len(m.members.take(i as int)),
                nested_len(m.members) < u32::MAX,
            decreases m.members.len() - i,
        {
            let k = self.members.key_at(i);
            let ms = self.members.value_at(i);
            let live = live_count(ms, before_ms);
            proof {
                assert(m.members.take(i + 1).drop_last() =~= m.members.take(i as int));
                assert(m.members.take(i + 1).last() == m.members[i as int]);
                lemma_nested_len_prefix(m.members, i + 1);
            }
            cnt_m = cnt_m + (ms.len() - live) as u32;
            if live == 0 {
                aff.remove(k.as_str());
            } else {
                let keep = match aff.get(k.as_str()) {
                    Some(p) => {
                        proof {
                            lemma_filt_lookup(ms@, live_member(before_ms));
                        }
                        match ms.get(p.as_str()) {
                            Some(t) => *t == 0 || *t > before_ms,
                            None => false,
                        }
                    },
                    None => false,
                };
                if !keep {
                    match first_unexpired_member(ms, before_ms) {
                        Some(first) => {
                            aff.insert(k.clone(), first);
                        },
                        None => {},
                    }
                }
            }
            i = i + 1;
        }
        proof {
            assert(m.members.take(i as int) =~= m.members);
        }
        self.affinity = aff;
        // Members in force.
        let ghost gm = live_member_map(before_ms);
        let mut ms = SortedMap::new();
        std::mem::swap(&mut ms, &mut self.members);
        let fm = |k: &String, ms: SortedMap<i64>| -> (o: Option<SortedMap<i64>>)
            requires
                ms.wf(),
            ensures
                opt_view(o) == gm(k@, ms@),
            {
                let l = retain_unexpired_members(ms, before_ms);
                if l.len() > 0 {
                    Some(l)
                } else {
                    None
                }
            };
        self.members = ms.filter_map(fm, Ghost(gm), Ghost(|ms: Entries<i64>| sorted(ms)));
        let ghost mem2 = self@.members;
        proof {
            lemma_fmap(m.members, gm);
            assert forall|x: int| 0 <= x < mem2.len() implies sorted(#[trigger] mem2[x].1) by {
                let j = choose|j: int| 0 <= j < m.members.len() && #[trigger] mem2[x].0 == m.members[j].0
                    && gm(m.members[j].0, m.members[j].1) == Some(mem2[x].1);
                lemma_filt_lookup(m.members[j].1, live_member(before_ms));
            }
        }
        // Expired contacts, counted over the kept tables.
        let mut cnt_c: u32 = 0;
        let mut i: usize = 0;
        proof {
            assert(c2.take(0) =~= Seq::<(Seq<char>, Entries<Entries<ExtensionContactRecord>>)>::empty());
        }
        while i < cs2.len()
            invariant
                cs2@ == c2,
                i <= c2.len(),
                cnt_c == expired_contacts(c2.take(i as int), before_ms),
                cnt_c <= contacts_len(c2.take(i as int)),
                contacts_len(c2) < u32::MAX,
            decreases c2.len() - i,
        {
            proof {
                assert(c2.take(i + 1).drop_last() =~= c2.take(i as int));
                assert(c2.take(i + 1).last() == c2[i as int]);
                lemma_contacts_len_prefix(c2, i + 1);
            }
            let n = table_expired_count(cs2.value_at(i), before_ms);
            cnt_c = cnt_c + n;
            i = i + 1;
        }
        proof {
            assert(c2.take(i as int) =~= c2);
        }
        // Contacts in force.
        let ghost gt = live_table_map(before_ms);
        let ft = |k: &String, cm: SortedMap<SortedMap<ExtensionContactRecord>>| -> (o: Option<
            SortedMap<SortedMap<ExtensionContactRecord>>,
        >)
            requires
                cm.wf(),
                contacts_wf(cm@),
            ensures
                opt_view(o) == gt(k@, cm@),
            {
                let t = retain_live_table(cm, before_ms);
                if t.len() > 0 {
                    Some(t)
                } else {
                    None
                }
            };
        self.contacts = cs2.filter_map(ft, Ghost(gt), Ghost(|c: Entries<Entries<ExtensionContactRecord>>| contacts_wf(c)));
        let ghost con3 = self@.contacts;
        proof {
            lemma_fmap(c2, gt);
            assert forall|x: int| 0 <= x < con3.len() implies contacts_wf(#[trigger] con3[x].1) by {
                let j = choose|j: int| 0 <= j < c2.len() && #[trigger] con3[x].0 == c2[j].0
                    && gt(c2[j].0, c2[j].1) == Some(con3[x].1);
                lemma_live_table_wf(c2[j].1, before_ms);
            }
            assert(self@.members == mem2);
        }
        let removed = (n_expired as u32) + cnt_m + cnt_c;
        RegistryResponse::known(true, removed)
    }

    fn bind_affinity(&mut self, affinity_key: String, worker_id: String, expires_at_ms: Option<i64>) -> (r: RegistryResponse)
        requires
            model_wf(old(self)@),
        ensures
            model_wf(final(self)@),
            (final(self)@, r) == step(
                old(self)@,
                (RegistryCommand::BindAffinity { affinity_key, worker_id, expires_at_ms }),
            ),
    {
        let ghost m = self@;
        self.affinity.insert(affinity_key.clone(), worker_id.clone());
        if expires_at_ms.is_none() {
            self.affinity_expires.remove(affinity_key.as_str());
        }
        let t = match expires_at_ms {
            Some(t) => t,
            None => 0,
        };
        upsert_nested(&mut self.members, &affinity_key, worker_id, t);
        RegistryResponse::known(true, 0)
    }

    fn reap_stale(&mut self, before_ms: i64) -> (r: RegistryResponse)
        requires
            model_wf(old(self)@),
        ensures
            model_wf(final(self)@),
            (final(self)@, r) == reap_stale_spec(old(self)@, before_ms),
    {
        let ghost m = self@;
        let before = self.workers.len();
        let ghost pw = fresh_worker(before_ms);
        let mut ws = SortedMap::new();
        std::mem::swap(&mut ws, &mut self.workers);
        let fw = |k: &String, w: WorkerRecord| -> (o: Option<WorkerRecord>)
            ensures
                opt_view(o) == (if w.last_heartbeat_ms >= before_ms { Some(w) } else { None }),
            {
                if w.last_heartbeat_ms >= before_ms {
                    Some(w)
                } else {
                    None
                }
            };
        self.workers = ws.filter_map(fw, Ghost(keep_if(pw)), Ghost(|w: WorkerRecord| true));
        proof {
            lemma_filt_fmap(m.workers, pw);
            lemma_fmap(m.workers, keep_if(pw));
        }
        let removed = (before - self.workers.len()) as u32;
        if removed == 0 {
            return RegistryResponse::known(true, 0);
        }
        let ghost live = self@.workers;
        let ghost pa = bound_to_live(live);
        let mut aff = SortedMap::new();
        std::mem::swap(&mut aff, &mut self.affinity);
        let wk = &self.workers;
        let fa = |k: &String, v: String| -> (o: Option<String>)
            requires
                wk.wf(),
            ensures
                opt_view(o) == (if contains_key(wk@, v@) { Some(v@) } else { None }),
            {
                if wk.contains(v.as_str()) {
                    Some(v)
                } else {
                    None
                }
            };
        let aff1 = aff.filter_map(fa, Ghost(keep_if(pa)), Ghost(|v: Seq<char>| true));
        proof {
            lemma_filt_fmap(m.affinity, pa);
            lemma_fmap(m.affinity, keep_if(pa));
        }
        let ghost a1 = aff1@;
        let ghost gr = repair(m.members, live);
        let mem = &self.members;
        let fr = |k: &String, p: String| -> (o: Option<String>)
            requires
                wk.wf(),
                mem.wf(),
                forall|i: int| 0 <= i < mem@.len() ==> sorted(#[trigger] mem@[i].1),
            ensures
                opt_view(o) == repair_primary(mem@, wk@, k@, p@),
            {
                match mem.get(k.as_str()) {
                    None => Some(p),
                    Some(ms) => {
                        proof {
                            lemma_lookup_some(mem@, k@);
                        }
                        proof {
                            lemma_filt_lookup(ms@, member_live(wk@));
                        }
                        if ms.contains(p.as_str()) && wk.contains(p.as_str()) {
                            Some(p)
                        } else {
                            first_live_member(ms, wk)
                        }
                    },
                }
            };
        self.affinity = aff1.filter_map(fr, Ghost(gr), Ghost(|v: Seq<char>| true));
        proof {
            lemma_fmap(a1, gr);
        }
        let ghost gm = live_member_set(live);
        let mut ms = SortedMap::new();
        std::mem::swap(&mut ms, &mut self.members);
        let wk = &self.workers;
        let fm = |k: &String, ms: SortedMap<i64>| -> (o: Option<SortedMap<i64>>)
            requires
                ms.wf(),
                wk.wf(),
            ensures
                opt_view(o) == gm(k@, ms@),
            {
                let kept = retain_live_members(ms, wk);
                if kept.len() > 0 {
                    Some(kept)
                } else {
                    None
                }
            };
        self.members = ms.filter_map(fm, Ghost(gm), Ghost(|ms: Entries<i64>| sorted(ms)));
        let ghost mem2 = self@.members;
        proof {
            lemma_fmap(m.members, gm);
            assert forall|i: int| 0 <= i < mem2.len() implies sorted(#[trigger] mem2[i].1) by {
                let j = choose|j: int| 0 <= j < m.members.len() && #[trigger] mem2[i].0 == m.members[j].0
                    && gm(m.members[j].0, m.members[j].1) == Some(mem2[i].1);
                lemma_filt_lookup(m.members[j].1, member_live(live));
            }
        }
        let ghost pe = expiry_bound(self@.affinity);
        let mut ex = SortedMap::new();
        std::mem::swap(&mut ex, &mut self.affinity_expires);
        let af = &self.affinity;
        let fe = |k: &String, t: i64| -> (o: Option<i64>)
            requires
                af.wf(),
            ensures
                opt_view(o) == (if contains_key(af@, k@) { Some(t) } else { None }),
            {
                if af.contains(k.as_str()) {
                    Some(t)
                } else {
                    None
                }
            };
        self.affinity_expires = ex.filter_map(fe, Ghost(keep_if(pe)), Ghost(|t: i64| true));
        proof {
            lemma_filt_fmap(m.affinity_expires, pe);
            lemma_fmap(m.affinity_expires, keep_if(pe));
            assert(self@.members == mem2);
            assert forall|i: int| 0 <= i < self@.members.len() implies sorted(#[trigger] self@.members[i].1) by {
                assert(self@.members[i] == mem2[i]);
            }
        }
        RegistryResponse::known(true, removed)
    }

    fn acquire(
        &mut self,
        call_id: String,
        tenant_id: i64,
        max: Option<u32>,
        trunk_name: Option<String>,
        trunk_max: Option<u32>,
        trunk_max_cps: Option<u32>,
        at_ms: i64,
    ) -> (r: RegistryResponse)
        requires
            model_wf(old(self)@),
            old(self)@.slots.len() < u32::MAX,
            old(self)@.starts.len() < u32::MAX,
        ensures
            model_wf(final(self)@),
            (final(self)@, r) == acquire_spec(old(self)@, call_id@, tenant_id, max, trunk_name, trunk_max, trunk_max_cps, at_ms),
    {
        let ghost m = self@;
        let since = saturating_sub_i64(at_ms, CPS_WINDOW_MS);
        let ghost sp = start_since(since);
        let mut tmp = SortedMap::new();
        std::mem::swap(&mut tmp, &mut self.starts);
        let f = |k: &String, r: CallStartRecord| -> (o: Option<CallStartRecord>)
            ensures
                opt_view(o) == (if r.at_ms >= since { Some(r) } else { None }),
            {
                if r.at_ms >= since {
                    Some(r)
                } else {
                    None
                }
            };
        self.starts = tmp.filter_map(f, Ghost(keep_if(sp)), Ghost(|r: CallStartRecord| true));
        proof {
            lemma_filt_fmap(m.starts, sp);
            lemma_fmap(m.starts, keep_if(sp));
            lemma_filt_len(m.slots, slot_of_tenant(tenant_id));
        }
        let ghost starts1 = self@.starts;
        let of_tenant = |k: &String, r: &CallSlotRecord| -> (b: bool)
            ensures
                b == (r.tenant_id == tenant_id),
            { r.tenant_id == tenant_id };
        let current = self.slots.count_where(of_tenant, Ghost(slot_of_tenant(tenant_id))) as u32;
        let trunk_current: u32 = match &trunk_name {
            Some(n) => {
                proof {
                    lemma_filt_len(m.slots, slot_on_trunk(tenant_id, n@));
                }
                let on = |k: &String, r: &CallSlotRecord| -> (b: bool)
                    ensures
                        b == (r.tenant_id == tenant_id && on_trunk(r.trunk_name, n@)),
                    {
                        r.tenant_id == tenant_id && match &r.trunk_name {
                            Some(t) => str_eq(t.as_str(), n.as_str()),
                            None => false,
                        }
                    };
                self.slots.count_where(on, Ghost(slot_on_trunk(tenant_id, n@))) as u32
            },
            None => 0,
        };
        let cps_current: u32 = match &trunk_name {
            Some(n) => {
                proof {
                    lemma_filt_len(starts1, start_on_trunk(tenant_id, n@, since));
                }
                let recent = |k: &String, r: &CallStartRecord| -> (b: bool)
                    ensures
                        b == (since <= r.at_ms && r.tenant_id == tenant_id && on_trunk(r.trunk_name, n@)),
                    {
                        r.at_ms >= since && r.tenant_id == tenant_id && match &r.trunk_name {
                            Some(t) => str_eq(t.as_str(), n.as_str()),
                            None => false,
                        }
                    };
                self.starts.count_where(recent, Ghost(start_on_trunk(tenant_id, n@, since))) as u32
            },
            None => 0,
        };
        if self.slots.contains(call_id.as_str()) {
            return RegistryResponse {
                known: true,
                removed: 0,
                granted: true,
                count: current,
                trunk_count: trunk_current,
                trunk_cps_count: cps_current,
            };
        }
        if let Some(cap) = max {
            if cap > 0 && current >= cap {
                return RegistryResponse {
                    known: true,
                    removed: 0,
                    granted: false,
                    count: current,
                    trunk_count: 0,
                    trunk_cps_count: 0,
                };
            }
        }
        let trunk_full = match trunk_max {
            Some(cap) => cap > 0 && trunk_current >= cap,
            None => false,
        };
        let cps_full = match trunk_max_cps {
            Some(cap) => cap > 0 && cps_current >= cap,
            None => false,
        };
        if trunk_full || cps_full {
            return RegistryResponse {
                known: true,
                removed: 0,
                granted: false,
                count: current,
                trunk_count: trunk_current,
                trunk_cps_count: cps_current,
            };
        }
        let slot = CallSlotRecord { tenant_id, trunk_name: clone_opt_string(&trunk_name), at_ms };
        let start = CallStartRecord { tenant_id, trunk_name, at_ms };
        proof {
            lemma_put(m.slots, call_id@, slot);
            lemma_put(starts1, call_id@, start);
        }
        self.slots.insert(call_id.clone(), slot);
        self.starts.insert(call_id, start);
        RegistryResponse {
            known: true,
            removed: 0,
            granted: true,
            count: current + 1,
            trunk_count: trunk_current + 1,
            trunk_cps_count: cps_current + 1,
        }
    }

    fn remove_worker_affinity(&mut self, w: &String)
        requires
            model_wf(old(self)@),
        ensures
            model_wf(final(self)@),
            final(self)@ == remove_worker_affinity(old(self)@, w@),
    {
        let ghost m = self@;
        let ghost pa = not_bound_to(w@);
        let mut aff = SortedMap::new();
        std::mem::swap(&mut aff, &mut self.affinity);
        let fa = |k: &String, v: String| -> (o: Option<String>)
            ensures
                opt_view(o) == (if v@ != w@ { Some(v@) } else { None }),
            {
                if !str_eq(v.as_str(), w.as_str()) {
                    Some(v)
                } else {
                    None
                }
            };
        self.affinity = aff.filter_map(fa, Ghost(keep_if(pa)), Ghost(|v: Seq<char>| true));
        proof {
            lemma_filt_fmap(m.affinity, pa);
            lemma_fmap(m.affinity, keep_if(pa));
        }
        let ghost gc = contacts_without(m.members, w@);
        let mut cs = SortedMap::new();
        std::mem::swap(&mut cs, &mut self.contacts);
        let mem = &self.members;
        let fc = |k: &String, cm: SortedMap<SortedMap<ExtensionContactRecord>>| -> (o: Option<
            SortedMap<SortedMap<ExtensionContactRecord>>,
        >)
            requires
                cm.wf(),
                mem.wf(),
            ensures
                opt_view(o) == gc(k@, cm@),
            {
                if !mem.contains(k.as_str()) {
                    Some(cm)
                } else {
                    let mut cm = cm;
                    cm.remove(w.as_str());
                    if cm.len() > 0 {
                        Some(cm)
                    } else {
                        None
                    }
                }
            };
        self.contacts = cs.filter_map(fc, Ghost(gc), Ghost(|cm: Entries<Entries<ExtensionContactRecord>>| sorted(cm)));
        let ghost con2 = self@.contacts;
        proof {
            lemma_fmap(m.contacts, gc);
            assert forall|i: int| 0 <= i < con2.len() implies contacts_wf(#[trigger] con2[i].1) by {
                let c2 = con2;
                let j = choose|j: int| 0 <= j < m.contacts.len() && #[trigger] c2[i].0 == m.contacts[j].0
                    && gc(m.contacts[j].0, m.contacts[j].1) == Some(c2[i].1);
                let cm = m.contacts[j].1;
                assert(contacts_wf(cm));
                lemma_del(cm, w@);
                if contains_key(m.members, m.contacts[j].0) {
                    assert(c2[i].1 == del(cm, w@));
                    assert forall|x: int| 0 <= x < del(cm, w@).len() implies sorted(#[trigger] del(cm, w@)[x].1) by {
                        let y = choose|y: int| 0 <= y < cm.len() && cm[y] == del(cm, w@)[x];
                    }
                }
            }
        }
        let ghost gm = members_without(w@);
        let mut ms = SortedMap::new();
        std::mem::swap(&mut ms, &mut self.members);
        let fm = |k: &String, ms: SortedMap<i64>| -> (o: Option<SortedMap<i64>>)
            requires
                ms.wf(),
            ensures
                opt_view(o) == gm(k@, ms@),
            {
                let mut ms = ms;
                ms.remove(w.as_str());
                if ms.len() > 0 {
                    Some(ms)
                } else {
                    None
                }
            };
        self.members = ms.filter_map(fm, Ghost(gm), Ghost(|ms: Entries<i64>| sorted(ms)));
        proof {
            lemma_fmap(m.members, gm);
            assert forall|i: int| 0 <= i < self@.members.len() implies sorted(#[trigger] self@.members[i].1) by {
                let m2 = self@.members;
                let j = choose|j: int| 0 <= j < m.members.len() && #[trigger] m2[i].0 == m.members[j].0
                    && gm(m.members[j].0, m.members[j].1) == Some(m2[i].1);
                lemma_del(m.members[j].1, w@);
            }
        }
        let ghost mem2 = self@.members;
        assert(forall|i: int| 0 <= i < mem2.len() ==> sorted(#[trigger] mem2[i].1));
        let ghost pe = expiry_bound(self@.affinity);
        let mut ex = SortedMap::new();
        std::mem::swap(&mut ex, &mut self.affinity_expires);
        let af = &self.affinity;
        let fe = |k: &String, t: i64| -> (o: Option<i64>)
            requires
                af.wf(),
            ensures
                opt_view(o) == (if contains_key(af@, k@) { Some(t) } else { None }),
            {
                if af.contains(k.as_str()) {
                    Some(t)
                } else {
                    None
                }
            };
        self.affinity_expires = ex.filter_map(fe, Ghost(keep_if(pe)), Ghost(|t: i64| true));
        proof {
            lemma_filt_fmap(m.affinity_expires, pe);
            lemma_fmap(m.affinity_expires, keep_if(pe));
            assert(sorted(self@.workers));
            assert(sorted(self@.affinity));
            assert(sorted(self@.affinity_expires));
            assert(sorted(self@.members));
            assert(sorted(self@.contacts));
            assert(self@.members == mem2);
            assert(self@.contacts == con2);
            assert forall|i: int| 0 <= i < self@.members.len() implies sorted(#[trigger] self@.members[i].1) by {
                assert(self@.members[i] == mem2[i]);
            }
            assert forall|i: int| 0 <= i < self@.contacts.len() implies contacts_wf(#[trigger] self@.contacts[i].1) by {
                assert(self@.contacts[i] == con2[i]);
            }
        }
    }
}

impl RegistryState {
    /// Number of registered workers.
    pub fn worker_count(&self) -> (n: usize)
        ensures
            n == self@.workers.len(),
    {
        self.workers.len()
    }

    /// The `i`-th registered worker, in id order.
    pub fn worker_at(&self, i: usize) -> (w: &WorkerRecord)
        requires
            i < self@.workers.len(),
        ensures
            *w == self@.workers[i as int].1,
    {
        self.workers.value_at(i)
    }

    /// Number of registered edges.
    pub fn edge_count(&self) -> (n: usize)
        ensures
            n == self@.edges.len(),
    {
        self.edges.len()
    }

    /// The `i`-th registered edge, in id order.
    pub fn edge_at(&self, i: usize) -> (e: &EdgeRecord)
        requires
            i < self@.edges.len(),
        ensures
            *e == self@.edges[i as int].1,
    {
        self.edges.value_at(i)
    }

    /// Slots currently held by a tenant.
    pub fn tenant_call_count(&self, tenant_id: i64) -> (n: u32)
        ensures
            n == tenant_slots(self@.slots, tenant_id) as u32,
    {
        let f = |k: &String, r: &CallSlotRecord| -> (b: bool)
            ensures
                b == (r.tenant_id == tenant_id),
            { r.tenant_id == tenant_id };
        self.slots.count_where(f, Ghost(slot_of_tenant(tenant_id))) as u32
    }

    /// Number of registered workers healthy at `now_ms` under `timeout_ms`.
    pub fn healthy_worker_count(&self, now_ms: i64, timeout_ms: i64) -> (n: usize)
        ensures
            n == filt(self@.workers, worker_is_healthy(now_ms, timeout_ms)).len(),
    {
        let f = |k: &String, w: &WorkerRecord| -> (b: bool)
            ensures
                b == worker_healthy_spec(*w, now_ms, timeout_ms),
            { w.is_healthy(now_ms, timeout_ms) };
        self.workers.count_where(f, Ghost(worker_is_healthy(now_ms, timeout_ms)))
    }

    /// Every contact table: affinity key -> worker id -> contact -> record.
    pub fn contact_tables(&self) -> (r: &SortedMap<SortedMap<SortedMap<ExtensionContactRecord>>>)
        ensures
            r@ == self@.contacts,
    {
        &self.contacts
    }

    /// The contact table of an affinity key: worker id -> contact -> record.
    pub fn contacts_of(&self, key: &str) -> (r: Option<&SortedMap<SortedMap<ExtensionContactRecord>>>)
        requires
            model_wf(self@),
        ensures
            match r {
                Some(cm) => lookup(self@.contacts, key@) == Some(cm@) && contacts_wf(cm@),
                None => lookup(self@.contacts, key@) is None,
            },
    {
        let r = self.contacts.get(key);
        proof {
            if lookup(self@.contacts, key@) is Some {
                lemma_lookup_some(self@.contacts, key@);
            }
        }
        r
    }

    /// Slots held across all tenants.
    pub fn call_slot_count(&self) -> (n: u32)
        ensures
            n == self@.slots.len() as u32,
    {
        self.slots.len() as u32
    }

    /// The workers bound to an affinity key at `now_ms`, most preferred first.
    pub fn worker_ids_for_affinity(&self, key: &str, now_ms: i64) -> (r: Vec<String>)
        requires
            model_wf(self@),
        ensures
            affinity_ids_ok(self@, key@, now_ms, strs_view(r@)),
    {
        let ghost m = self@;
        let ghost qr = q_rank(m, key@, now_ms);
        match self.members.get(key) {
            Some(ms) => {
                proof {
                    lemma_lookup_some(m.members, key@);
                }
                let cm = self.contacts.find(key);
                let mut out: Vec<String> = Vec::new();
                let mut qs: Vec<u16> = Vec::new();
                let mut j: usize = 0;
                let ghost live0 = keys(live_members(ms@, now_ms));
                assert(ms@.take(0) =~= Seq::<(Seq<char>, i64)>::empty());
                assert(keys(live_members(ms@.take(0), now_ms)) =~= Seq::<Seq<char>>::empty());
                assert(strs_view(out@) =~= Seq::<Seq<char>>::empty());
                while j < ms.len()
                    invariant
                        j <= ms@.len(),
                        lookup(m.members, key@) == Some(ms@),
                        qr == q_rank(m, key@, now_ms),
                        match cm {
                            Some(c) => lookup(m.contacts, key@) == Some(c@),
                            None => lookup(m.contacts, key@) is None,
                        },
                        out@.len() == qs@.len(),
                        forall|x: int| 0 <= x < qs@.len() ==> qs@[x] as int == qr(#[trigger] out@[x]@),
                        sorted_by_rank(strs_view(out@), qr),
                        forall|k: int|
                            #[trigger] keep(strs_view(out@), with_rank(qr, k)) == keep(
                                keys(live_members(ms@.take(j as int), now_ms)),
                                with_rank(qr, k),
                            ),
                    decreases ms@.len() - j,
                {
                    let t = *ms.value_at(j);
                    let ghost prev = ms@.take(j as int);
                    proof {
                        assert(ms@.take(j + 1).drop_last() =~= prev);
                        assert(ms@.take(j + 1).last() == ms@[j as int]);
                    }
                    if t == 0 || t > now_ms {
                        let w = ms.key_at(j);
                        let q: u16 = match cm {
                            Some(c) => match c.find(w.as_str()) {
                                Some(cs) => best_contact_q_milli(cs, now_ms),
                                None => 1000,
                            },
                            None => 1000,
                        };
                        assert(q as int == qr(w@));
                        let mut p: usize = 0;
                        while p < qs.len() && qs[p] >= q
                            invariant
                                p <= qs@.len(),
                                out@.len() == qs@.len(),
                                forall|x: int| 0 <= x < qs@.len() ==> qs@[x] as int == qr(#[trigger] out@[x]@),
                                forall|x: int| 0 <= x < p ==> qs@[x] >= q,
                            decreases qs@.len() - p,
                        {
                            p = p + 1;
                        }
                        let ghost ov = strs_view(out@);
                        proof {
                            assert forall|x: int| 0 <= x < p implies qr(#[trigger] ov[x]) >= qr(w@) by {
                                assert(ov[x] == out@[x]@);
                            }
                            if p < ov.len() {
                                assert(ov[p as int] == out@[p as int]@);
                            }
                            lemma_insert_by_rank(ov, p as int, w@, qr);
                            let lv = live_members(prev, now_ms).push(ms@[j as int]);
                            assert(live_members(ms@.take(j + 1), now_ms) == lv);
                            assert(keys(lv) =~= keys(live_members(prev, now_ms)).push(w@));
                            assert forall|k: int| #[trigger] keep(keys(lv), with_rank(qr, k)) == if k == qr(w@) {
                                keep(keys(live_members(prev, now_ms)), with_rank(qr, k)).push(w@)
                            } else {
                                keep(keys(live_members(prev, now_ms)), with_rank(qr, k))
                            } by {
                                let e = keys(live_members(prev, now_ms)).push(w@);
                                assert(e.drop_last() =~= keys(live_members(prev, now_ms)));
                                assert(e.last() == w@);
                            }
                        }
                        let ghost out0 = out@;
                        let ghost qs0 = qs@;
                        let wc = w.clone();
                        out.insert(p, wc);
                        qs.insert(p, q);
                        proof {
                            assert(strs_view(out@) =~= ov.insert(p as int, w@));
                            assert forall|x: int| 0 <= x < qs@.len() implies qs@[x] as int == qr(#[trigger] out@[x]@) by {
                                if x < p {
                                    assert(out@[x] == out0[x] && qs@[x] == qs0[x]);
                                } else if x > p {
                                    assert(out@[x] == out0[x - 1] && qs@[x] == qs0[x - 1]);
                                }
                            }
                        }
                    } else {
                        proof {
                            assert(live_members(ms@.take(j + 1), now_ms) == live_members(prev, now_ms));
                        }
                    }
                    j = j + 1;
                }
                proof {
                    assert(ms@.take(j as int) =~= ms@);
                }
                out
            },
            None => {
                let expired = match self.affinity_expires.get(key) {
                    Some(t) => *t <= now_ms,
                    None => false,
                };
                if expired {
                    let r: Vec<String> = Vec::new();
                    assert(strs_view(r@) =~= Seq::<Seq<char>>::empty());
                    r
                } else {
                    match self.affinity.get(key) {
                        Some(w) => {
                            let mut r: Vec<String> = Vec::new();
                            r.push(w.clone());
                            assert(strs_view(r@) =~= seq![w@]);
                            r
                        },
                        None => {
                            let r: Vec<String> = Vec::new();
                            assert(strs_view(r@) =~= Seq::<Seq<char>>::empty());
                            r
                        },
                    }
                }
            },
        }
    }

    /// The most preferred worker bound to an affinity key at `now_ms`.
    pub fn worker_for_affinity(&self, key: &str, now_ms: i64) -> (r: Option<String>)
        requires
            model_wf(self@),
        ensures
            exists|ids: Seq<Seq<char>>|
                affinity_ids_ok(self@, key@, now_ms, ids) && match r {
                    Some(w) => ids.len() > 0 && w@ == ids[0],
                    None => ids.len() == 0,
                },
    {
        let ids = self.worker_ids_for_affinity(key, now_ms);
        let ghost v = strs_view(ids@);
        assert(affinity_ids_ok(self@, key@, now_ms, v));
        if ids.len() > 0 {
            assert(v[0] == ids@[0]@);
            let w = ids[0].clone();
            assert(affinity_ids_ok(self@, key@, now_ms, v) && v.len() > 0 && w@ == v[0]);
            Some(w)
        } else {
            assert(affinity_ids_ok(self@, key@, now_ms, v) && v.len() == 0);
            None
        }
    }
}

/// Total inner entries of a map of maps, when below `bound`.
fn nested_total<X: View>(m: &SortedMap<SortedMap<X>>, bound: u64) -> (r: Option<u64>)
    requires
        0 < bound <= u32::MAX,
    ensures
        match r {
            Some(n) => n == nested_len(m@) && n < bound,
            None => nested_len(m@) >= bound,
        },
{
    let mut total: u64 = 0;
    let mut i: usize = 0;
    assert(m@.take(0) =~= Seq::<(Seq<char>, Seq<(Seq<char>, X::V)>)>::empty());
    while i < m.len()
        invariant
            i <= m@.len(),
            bound <= u32::MAX,
            total == nested_len(m@.take(i as int)),
            total < bound,
        decreases m@.len() - i,
    {
        let n = m.value_at(i).len() as u64;
        proof {
            assert(m@.take(i + 1).drop_last() =~= m@.take(i as int));
            assert(m@.take(i + 1).last() == m@[i as int]);
            lemma_nested_len_prefix(m@, i + 1);
        }
        if n >= bound - total {
            return None;
        }
        total = total + n;
        i = i + 1;
    }
    assert(m@.take(i as int) =~= m@);
    Some(total)
}

impl RegistryState {
    /// Whether every count a command could report fits: the bound that
    /// `apply` needs.
    pub fn within_limits(&self) -> (b: bool)
        ensures
            b == model_fits(self@),
    {
        let ghost m = self@;
        if self.slots.len() >= 4294967295 || self.starts.len() >= 4294967295 {
            return false;
        }
        let bound: u64 = 4294967295;
        let e = self.affinity_expires.len() as u64;
        if e >= bound {
            return false;
        }
        let nm = match nested_total(&self.members, bound - e) {
            Some(n) => n,
            None => return false,
        };
        let mut total: u64 = e + nm;
        let mut i: usize = 0;
        assert(m.contacts.take(0) =~= Seq::<(Seq<char>, Entries<Entries<ExtensionContactRecord>>)>::empty());
        while i < self.contacts.len()
            invariant
                i <= m.contacts.len(),
                self@ == m,
                total == m.affinity_expires.len() + nested_len(m.members) + contacts_len(m.contacts.take(i as int)),
                total < bound,
                bound == 4294967295,
            decreases m.contacts.len() - i,
        {
            proof {
                assert(m.contacts.take(i + 1).drop_last() =~= m.contacts.take(i as int));
                assert(m.contacts.take(i + 1).last() == m.contacts[i as int]);
                lemma_contacts_len_prefix(m.contacts, i + 1);
            }
            let n = match nested_total(self.contacts.value_at(i), bound - total) {
                Some(n) => n,
                None => return false,
            };
            total = total + n;
            i = i + 1;
        }
        assert(m.contacts.take(i as int) =~= m.contacts);
        true
    }
}

impl RegistryState {
    /// The registry taken apart into a snapshot at `last_applied`.
    pub fn into_snapshot(self, last_applied: Option<LogPosition>) -> (r: StoredSnapshot)
        ensures
            snapshot_model(r) == self@,
            r.last_applied == last_applied,
    {
        StoredSnapshot {
            last_applied,
            workers: self.workers,
            edges: self.edges,
            call_slots: self.slots,
            call_starts: self.starts,
            worker_affinity: self.affinity,
            worker_affinity_expires: self.affinity_expires,
            worker_affinity_members: self.members,
            worker_affinity_contacts: self.contacts,
        }
    }

    /// The registry a received snapshot holds; none when one of its maps is
    /// out of key order.
    pub fn from_snapshot(s: StoredSnapshot) -> (r: Option<RegistryState>)
        ensures
            r is Some == model_wf(snapshot_model(s)),
            r matches Some(st) ==> st@ == snapshot_model(s),
    {
        if !snapshot_ordered(&s) {
            return None;
        }
        Some(
            RegistryState {
                workers: s.workers,
                edges: s.edges,
                slots: s.call_slots,
                starts: s.call_starts,
                affinity: s.worker_affinity,
                affinity_expires: s.worker_affinity_expires,
                members: s.worker_affinity_members,
                contacts: s.worker_affinity_contacts,
            },
        )
    }
}

/// A snapshot installs the registry it was taken from: when `s` holds a
/// well-formed registry `m` (as `into_snapshot` leaves it) and `r` is what
/// `from_snapshot` makes of `s`, then `r` is that registry.
pub proof fn law_snapshot_then_install(m: RegistryModel, s: StoredSnapshot, r: Option<RegistryState>)
    requires
        model_wf(m),
        snapshot_model(s) == m,
        r is Some == model_wf(snapshot_model(s)),
        r matches Some(st) ==> st@ == snapshot_model(s),
    ensures
        r matches Some(st) && st@ == m,
{
}

} // verus!
