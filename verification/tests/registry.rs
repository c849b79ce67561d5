use rustpbx::raft::registry::{edge_view, worker_view, 
    available_with_constraints, reap_cutoff, secs_since, stamp_edge_registration, stamp_registration,
};
use rustpbx::raft::snapshot::{snapshot_id, LogPosition};
use rustpbx::raft::state_machine::RegistryState;
use rustpbx::raft::types::{EdgeRecord, RegistryCommand, RegistryResponse, WorkerRecord};
use rustpbx::sorted_map::SortedMap;

const NOW: i64 = 1_700_000_000_000;
const TIMEOUT_MS: i64 = 30_000;

fn rec(id: &str) -> WorkerRecord {
    WorkerRecord {
        worker_id: id.to_string(),
        sip_addr: "127.0.0.1:5060".to_string(),
        rtp_external_ip: "127.0.0.1".to_string(),
        rtp_start_port: 10000,
        rtp_end_port: 20000,
        max_concurrent: 100,
        active_calls: 0,
        cpu_usage_bits: 0.0f32.to_bits(),
        labels: SortedMap::new(),
        capabilities: Vec::new(),
        edge_worker_addr: String::new(),
        nat_type: String::new(),
        registered_at_ms: 0,
        last_heartbeat_ms: 0,
        draining: false,
    }
}

fn edge_rec(id: &str) -> EdgeRecord {
    EdgeRecord {
        edge_id: id.to_string(),
        public_ip: "203.0.113.7".to_string(),
        sip_addr: "203.0.113.7:5060".to_string(),
        transports: vec!["udp".to_string()],
        region: "us-east".to_string(),
        version: "0.1.0".to_string(),
        active_calls: 0,
        nat_type: "cone".to_string(),
        registered_at_ms: 0,
        last_heartbeat_ms: 0,
    }
}

fn register(st: &mut RegistryState, r: WorkerRecord) -> RegistryResponse {
    st.apply(RegistryCommand::Register { record: stamp_registration(r, NOW) })
}

fn acquire(
    st: &mut RegistryState,
    call_id: &str,
    tenant_id: i64,
    max: Option<u32>,
    trunk: Option<&str>,
    trunk_max: Option<u32>,
    trunk_max_cps: Option<u32>,
) -> (bool, u32, u32, u32) {
    let r = st.apply(RegistryCommand::AcquireCallSlot {
        call_id: call_id.to_string(),
        tenant_id,
        max,
        trunk_name: trunk.map(|t| t.to_string()),
        trunk_max,
        trunk_max_cps,
        at_ms: NOW,
    });
    (r.granted, r.count, r.trunk_count, r.trunk_cps_count)
}

fn all_workers(st: &RegistryState) -> Vec<WorkerRecord> {
    (0..st.worker_count()).map(|i| st.worker_at(i).clone()).collect()
}

fn worker_ids(ws: &[WorkerRecord]) -> Vec<String> {
    ws.iter().map(|w| w.worker_id.clone()).collect()
}

#[test]
fn edge_register_heartbeat_and_reap() {
    let mut st = RegistryState::new();
    st.apply(RegistryCommand::RegisterEdge { record: stamp_edge_registration(edge_rec("edge-1"), NOW) });
    st.apply(RegistryCommand::RegisterEdge { record: stamp_edge_registration(edge_rec("edge-2"), NOW) });
    assert_eq!(st.edge_count(), 2, "both edges committed");

    let hb = st.apply(RegistryCommand::EdgeHeartbeat { edge_id: "edge-1".to_string(), active_calls: 5, at_ms: NOW });
    assert!(hb.known);
    let ghost = st.apply(RegistryCommand::EdgeHeartbeat { edge_id: "ghost".to_string(), active_calls: 1, at_ms: NOW });
    assert!(!ghost.known);
    let e1 = (0..st.edge_count()).map(|i| st.edge_at(i)).find(|e| e.edge_id == "edge-1").unwrap();
    assert_eq!(e1.active_calls, 5);

    st.apply(RegistryCommand::EdgeHeartbeat { edge_id: "edge-2".to_string(), active_calls: 0, at_ms: 1 });
    let removed = st.apply(RegistryCommand::ReapStaleEdges { before_ms: reap_cutoff(NOW, TIMEOUT_MS) }).removed;
    assert_eq!(removed, 1, "only the stale edge is reaped");
    let ids: Vec<String> = (0..st.edge_count()).map(|i| st.edge_at(i).edge_id.clone()).collect();
    assert_eq!(ids, vec!["edge-1".to_string()]);
    assert_eq!(st.worker_count(), 0);
}

#[test]
fn call_slots_enforce_per_tenant_limit() {
    let mut st = RegistryState::new();
    let (g, n, _, _) = acquire(&mut st, "t1-a", 1, Some(2), None, None, None);
    assert!(g && n == 1);
    let (g, n, _, _) = acquire(&mut st, "t1-b", 1, Some(2), None, None, None);
    assert!(g && n == 2, "second call fills the cap");
    let (g, n, _, _) = acquire(&mut st, "t1-c", 1, Some(2), None, None, None);
    assert!(!g && n == 2, "third call is denied — tenant at cap");

    let (g, n, _, _) = acquire(&mut st, "t2-a", 2, Some(1), None, None, None);
    assert!(g && n == 1, "tenant 2 is independent of tenant 1");
    assert_eq!(st.tenant_call_count(1), 2);
    assert_eq!(st.tenant_call_count(2), 1);

    let (g, n, _, _) = acquire(&mut st, "t1-a", 1, Some(2), None, None, None);
    assert!(g && n == 2, "re-acquiring an existing slot is idempotent");

    assert!(st.apply(RegistryCommand::ReleaseCallSlot { call_id: "t1-a".to_string() }).known);
    assert_eq!(st.tenant_call_count(1), 1);
    let (g, n, _, _) = acquire(&mut st, "t1-d", 1, Some(2), None, None, None);
    assert!(g && n == 2, "a freed slot can be re-used");

    assert!(!st.apply(RegistryCommand::ReleaseCallSlot { call_id: "nope".to_string() }).known);

    let (g, _, _, _) = acquire(&mut st, "nolimit", 9, None, None, None, None);
    assert!(g, "tenants with no cap are never denied");
}

#[test]
fn call_slots_enforce_per_trunk_limit() {
    let mut st = RegistryState::new();
    let (g, tenant_n, trunk_n, _) = acquire(&mut st, "a-1", 1, Some(10), Some("carrier-a"), Some(1), None);
    assert!(g);
    assert_eq!(tenant_n, 1);
    assert_eq!(trunk_n, 1);

    let (g, tenant_n, trunk_n, _) = acquire(&mut st, "a-2", 1, Some(10), Some("carrier-a"), Some(1), None);
    assert!(!g, "second call on same capped trunk is denied");
    assert_eq!(tenant_n, 1);
    assert_eq!(trunk_n, 1);

    let (g, tenant_n, trunk_n, _) = acquire(&mut st, "b-1", 1, Some(10), Some("carrier-b"), Some(1), None);
    assert!(g, "different trunk has its own cap");
    assert_eq!(tenant_n, 2);
    assert_eq!(trunk_n, 1);
}

#[test]
fn call_slots_enforce_per_trunk_cps() {
    let mut st = RegistryState::new();
    let (g, _, _, cps_n) = acquire(&mut st, "cps-a-1", 1, Some(10), Some("carrier-a"), None, Some(1));
    assert!(g);
    assert_eq!(cps_n, 1);

    let (g, _, _, cps_n) = acquire(&mut st, "cps-a-2", 1, Some(10), Some("carrier-a"), None, Some(1));
    assert!(!g, "second start on same trunk in the 1s window is denied");
    assert_eq!(cps_n, 1);

    let (g, _, _, cps_n) = acquire(&mut st, "cps-b-1", 1, Some(10), Some("carrier-b"), None, Some(1));
    assert!(g, "different trunk has its own CPS window");
    assert_eq!(cps_n, 1);
}

#[test]
fn call_slots_reaper_frees_leaked_slots() {
    let mut st = RegistryState::new();
    acquire(&mut st, "live", 1, Some(10), None, None, None);
    st.apply(RegistryCommand::AcquireCallSlot {
        call_id: "leaked".to_string(),
        tenant_id: 1,
        max: Some(10),
        trunk_name: None,
        trunk_max: None,
        trunk_max_cps: None,
        at_ms: 1,
    });
    assert_eq!(st.tenant_call_count(1), 2);

    let removed = st.apply(RegistryCommand::ReapCallSlots { before_ms: NOW - 3_600_000 }).removed;
    assert_eq!(removed, 1, "only the leaked slot is reaped");
    assert_eq!(st.tenant_call_count(1), 1);
    assert_eq!(st.call_slot_count(), 1);
}

#[test]
fn register_then_read_back_through_raft() {
    let mut st = RegistryState::new();
    register(&mut st, rec("w1"));
    register(&mut st, rec("w2"));
    let all = all_workers(&st);
    assert_eq!(all.len(), 2, "both workers should be committed and readable");

    let avail = available_with_constraints(all, NOW, TIMEOUT_MS, None, &SortedMap::new(), &[]);
    assert_eq!(avail.len(), 2, "fresh workers are healthy and available");
}

#[test]
fn available_filters_by_labels_and_capabilities() {
    let mut st = RegistryState::new();
    let mut labels = SortedMap::new();
    labels.insert("region".to_string(), "us-east".to_string());

    let mut media = rec("media");
    media.labels = labels.clone();
    media.capabilities = vec!["rtp-gateway".to_string(), "recording".to_string()];

    let mut basic = rec("basic");
    basic.labels = labels.clone();
    basic.capabilities = vec!["rtp-gateway".to_string()];

    let mut west = rec("west");
    west.labels.insert("region".to_string(), "us-west".to_string());
    west.capabilities = vec!["rtp-gateway".to_string(), "recording".to_string()];

    register(&mut st, media);
    register(&mut st, basic);
    register(&mut st, west);

    let required_capabilities = vec!["recording".to_string()];
    let avail = available_with_constraints(all_workers(&st), NOW, TIMEOUT_MS, None, &labels, &required_capabilities);
    assert_eq!(worker_ids(&avail), vec!["media".to_string()]);
}

#[test]
fn available_scores_tenant_affinity_and_nat_after_capacity() {
    let mut generic = rec("generic");
    generic.active_calls = 90;
    generic.nat_type = "open".to_string();

    let mut tenant_match = rec("tenant-match");
    tenant_match.active_calls = 90;
    tenant_match.labels.insert("tenant_id".to_string(), "42".to_string());
    tenant_match.nat_type = "blocked".to_string();

    let mut higher_capacity = rec("higher-capacity");
    higher_capacity.active_calls = 80;
    higher_capacity.nat_type = "symmetric".to_string();

    let mut st = RegistryState::new();
    register(&mut st, generic);
    register(&mut st, tenant_match);
    register(&mut st, higher_capacity);

    let avail = available_with_constraints(all_workers(&st), NOW, TIMEOUT_MS, Some(42), &SortedMap::new(), &[]);
    assert_eq!(
        worker_ids(&avail),
        vec!["higher-capacity".to_string(), "tenant-match".to_string(), "generic".to_string()]
    );
}

#[test]
fn heartbeat_updates_load_and_reports_known() {
    let mut st = RegistryState::new();
    register(&mut st, rec("w1"));

    let known = st.apply(RegistryCommand::Heartbeat {
        worker_id: "w1".to_string(),
        active_calls: 7,
        cpu_usage_bits: 0.5f32.to_bits(),
        at_ms: NOW,
    });
    assert!(known.known, "heartbeat for a registered worker is known");

    let unknown = st.apply(RegistryCommand::Heartbeat {
        worker_id: "ghost".to_string(),
        active_calls: 1,
        cpu_usage_bits: 0.1f32.to_bits(),
        at_ms: NOW,
    });
    assert!(!unknown.known, "heartbeat for an unregistered worker is unknown");

    let w = all_workers(&st).into_iter().find(|w| w.worker_id == "w1").unwrap();
    assert_eq!(w.active_calls, 7, "heartbeat updates active_calls");
    assert_eq!(f32::from_bits(w.cpu_usage_bits), 0.5);
}

#[test]
fn reap_removes_only_stale_workers() {
    let mut st = RegistryState::new();
    register(&mut st, rec("fresh"));
    let mut old = rec("stale");
    old.registered_at_ms = 1;
    old.last_heartbeat_ms = 1;
    st.apply(RegistryCommand::Register { record: old });
    st.apply(RegistryCommand::Heartbeat {
        worker_id: "stale".to_string(),
        active_calls: 0,
        cpu_usage_bits: 0.0f32.to_bits(),
        at_ms: 1,
    });

    let removed = st.apply(RegistryCommand::ReapStale { before_ms: reap_cutoff(NOW, TIMEOUT_MS) }).removed;
    assert_eq!(removed, 1, "only the stale worker is reaped");
    assert_eq!(worker_ids(&all_workers(&st)), vec!["fresh".to_string()]);
}

#[test]
fn drained_worker_is_not_available_and_not_healthy() {
    let mut st = RegistryState::new();
    register(&mut st, rec("a"));
    register(&mut st, rec("b"));
    assert!(st.apply(RegistryCommand::Drain { worker_id: "a".to_string() }).known);
    assert_eq!(st.healthy_worker_count(NOW, TIMEOUT_MS), 1);
    let avail = available_with_constraints(all_workers(&st), NOW, TIMEOUT_MS, None, &SortedMap::new(), &[]);
    assert_eq!(worker_ids(&avail), vec!["b".to_string()]);
    assert!(!st.apply(RegistryCommand::Drain { worker_id: "ghost".to_string() }).known);
}

#[test]
fn remove_worker_reports_known_once() {
    let mut st = RegistryState::new();
    register(&mut st, rec("w1"));
    assert!(st.apply(RegistryCommand::Remove { worker_id: "w1".to_string() }).known);
    assert!(!st.apply(RegistryCommand::Remove { worker_id: "w1".to_string() }).known);
    assert_eq!(st.worker_count(), 0);
}

#[test]
fn stamped_registration_keeps_first_registration_time() {
    let mut r = rec("w");
    r.registered_at_ms = 5;
    let s = stamp_registration(r, NOW);
    assert_eq!(s.registered_at_ms, 5);
    assert_eq!(s.last_heartbeat_ms, NOW);
    let s2 = stamp_registration(rec("w"), NOW);
    assert_eq!(s2.registered_at_ms, NOW);
    assert_eq!(reap_cutoff(100_000, 30_000), 40_000);
}

#[test]
fn affinity_binding_resolves_and_unbinds() {
    let mut st = RegistryState::new();
    register(&mut st, rec("w1"));
    register(&mut st, rec("w2"));
    st.apply(RegistryCommand::BindAffinity {
        affinity_key: "ext:1:1001".to_string(),
        worker_id: "w1".to_string(),
        expires_at_ms: None,
    });
    assert_eq!(st.worker_for_affinity("ext:1:1001", NOW), Some("w1".to_string()));
    st.apply(RegistryCommand::UnbindAffinity { affinity_key: "ext:1:1001".to_string() });
    assert_eq!(st.worker_for_affinity("ext:1:1001", NOW), None);
}

#[test]
fn affinity_expired_binding_is_ignored_and_reaped() {
    let mut st = RegistryState::new();
    register(&mut st, rec("w1"));
    st.apply(RegistryCommand::BindAffinity {
        affinity_key: "k".to_string(),
        worker_id: "w1".to_string(),
        expires_at_ms: Some(NOW - 1),
    });
    assert_eq!(st.worker_for_affinity("k", NOW), None);
    let removed = st.apply(RegistryCommand::ReapAffinity { before_ms: NOW }).removed;
    assert!(removed >= 1);
}

#[test]
fn contact_affinity_prefers_highest_q_worker() {
    let mut st = RegistryState::new();
    register(&mut st, rec("w1"));
    register(&mut st, rec("w2"));
    st.apply(RegistryCommand::BindAffinityContact {
        affinity_key: "ext:1:1001".to_string(),
        worker_id: "w1".to_string(),
        contact: "<sip:1001@10.0.0.5>;q=0.5".to_string(),
        q_milli: 500,
        expires_at_ms: NOW + 60_000,
    });
    st.apply(RegistryCommand::BindAffinityContact {
        affinity_key: "ext:1:1001".to_string(),
        worker_id: "w2".to_string(),
        contact: "<sip:1001@10.0.0.6>;q=0.9".to_string(),
        q_milli: 900,
        expires_at_ms: NOW + 60_000,
    });
    assert_eq!(st.worker_ids_for_affinity("ext:1:1001", NOW), vec!["w2".to_string(), "w1".to_string()]);
    assert_eq!(st.worker_for_affinity("ext:1:1001", NOW), Some("w2".to_string()));

    st.apply(RegistryCommand::UnbindAffinityWorker {
        affinity_key: "ext:1:1001".to_string(),
        worker_id: "w2".to_string(),
    });
    assert_eq!(st.worker_for_affinity("ext:1:1001", NOW), Some("w1".to_string()));
}

#[test]
fn removing_a_worker_drops_its_affinity() {
    let mut st = RegistryState::new();
    register(&mut st, rec("w1"));
    st.apply(RegistryCommand::BindAffinity {
        affinity_key: "k".to_string(),
        worker_id: "w1".to_string(),
        expires_at_ms: None,
    });
    st.apply(RegistryCommand::Remove { worker_id: "w1".to_string() });
    assert_eq!(st.worker_for_affinity("k", NOW), None);
}

#[test]
fn within_limits_on_a_small_registry() {
    let mut st = RegistryState::new();
    assert!(st.within_limits());
    register(&mut st, rec("w1"));
    assert!(st.within_limits());
}

#[test]
fn heartbeat_age_in_whole_seconds() {
    assert_eq!(secs_since(10_999, 1_000), 9);
    assert_eq!(secs_since(1_000, 5_000), 0);
    assert_eq!(secs_since(i64::MAX, i64::MIN), (i64::MAX as u64) / 1000);
    let mut w = rec("w");
    w.active_calls = 120;
    assert_eq!(w.available_capacity(), 0);
    w.active_calls = 30;
    assert_eq!(w.available_capacity(), 70);
}

#[test]
fn admin_views_show_health_age_and_registration_time() {
    let mut w = rec("w1");
    w.registered_at_ms = 1_700_000_000_123;
    w.last_heartbeat_ms = 1_700_000_000_000;
    w.active_calls = 30;
    let v = worker_view(w, 1_700_000_012_500, 30_000);
    assert_eq!(v.worker_id, "w1");
    assert_eq!(v.available_capacity, 70);
    assert_eq!(v.last_heartbeat_secs_ago, 12);
    assert!(v.healthy);
    assert_eq!(v.registered_at, "2023-11-14T22:13:20.123+00:00");

    let mut e = edge_rec("e1");
    e.last_heartbeat_ms = 5_000;
    let ev = edge_view(e, 1_000, 30_000);
    assert_eq!(ev.last_heartbeat_secs_ago, 0, "a heartbeat in the future is no time ago");
    assert!(ev.healthy);
    assert_eq!(ev.registered_at, "1970-01-01T00:00:00+00:00");
    let stale = edge_view(edge_rec("e2"), 40_000, 30_000);
    assert!(!stale.healthy);
    assert_eq!(stale.last_heartbeat_secs_ago, 40);
    assert_eq!(worker_view(rec("w2"), 0, 30_000).registered_at, "1970-01-01T00:00:00+00:00");
    let far = WorkerRecord { registered_at_ms: i64::MAX, ..rec("w3") };
    assert_eq!(worker_view(far, 0, 30_000).registered_at, "", "an instant chrono cannot show is left empty");
}

#[test]
fn snapshot_installs_the_registry_it_was_taken_from() {
    let mut st = RegistryState::new();
    register(&mut st, rec("w1"));
    register(&mut st, rec("w2"));
    st.apply(RegistryCommand::RegisterEdge { record: stamp_edge_registration(edge_rec("e1"), NOW) });
    let pos = Some(LogPosition { leader: "T3-N1".to_string(), index: 42 });
    assert_eq!(snapshot_id(&pos, 7), "T3-N1-42-7");
    assert_eq!(snapshot_id(&None, 1), "--1");
    let snap = st.into_snapshot(pos);
    assert_eq!(snap.workers.len(), 2);
    assert_eq!(snap.last_applied.as_ref().unwrap().index, 42);
    let back = RegistryState::from_snapshot(snap).expect("an ordered snapshot installs");
    assert_eq!(back.worker_count(), 2);
    assert_eq!(back.edge_count(), 1);
    assert_eq!(back.worker_at(0).worker_id, "w1");
}
