use rustpbx::raft::registry::stamp_registration;
use rustpbx::raft::state_machine::RegistryState;
use rustpbx::raft::types::{RegistryCommand, WorkerRecord};
use rustpbx::sorted_map::SortedMap;

const NOW: i64 = 1_700_000_000_000;

fn rec(id: &str) -> WorkerRecord {
    WorkerRecord {
        worker_id: id.to_string(),
        sip_addr: "127.0.0.1:5060".to_string(),
        rtp_external_ip: "127.0.0.1".to_string(),
        rtp_start_port: 10000,
        rtp_end_port: 20000,
        max_concurrent: 100,
        active_calls: 0,
        cpu_usage_bits: 0,
        labels: SortedMap::new(),
        capabilities: Vec::new(),
        edge_worker_addr: String::new(),
        nat_type: String::new(),
        registered_at_ms: 0,
        last_heartbeat_ms: 0,
        draining: false,
    }
}

fn bind(st: &mut RegistryState, worker: &str, contact: &str, q: u16, expires: i64) {
    st.apply(RegistryCommand::BindAffinityContact {
        affinity_key: "extension:1:1001".to_string(),
        worker_id: worker.to_string(),
        contact: contact.to_string(),
        q_milli: q,
        expires_at_ms: expires,
    });
}

fn setup() -> RegistryState {
    let mut st = RegistryState::new();
    st.apply(RegistryCommand::Register { record: stamp_registration(rec("w1"), NOW) });
    st.apply(RegistryCommand::Register { record: stamp_registration(rec("w2"), NOW) });
    // The same phone (same URI, different q/expires parameters) through both workers.
    bind(&mut st, "w1", "<sip:1001@10.0.0.5:5060>;q=0.5", 500, NOW + 60_000);
    bind(&mut st, "w2", "<SIP:1001@10.0.0.5:5060>;q=0.9;expires=60", 900, NOW + 60_000);
    // A second phone only on w1, and an expired one on w2.
    bind(&mut st, "w1", "<sip:1001@10.0.0.7:5060>", 1000, 0);
    bind(&mut st, "w2", "<sip:1001@10.0.0.9:5060>", 800, NOW - 1);
    st
}

#[test]
fn duplicate_contact_goes_to_the_best_worker() {
    let st = setup();
    let by_worker = st.contacts_for_affinity("extension:1:1001", NOW);
    let w1 = by_worker.get("w1").unwrap();
    let w2 = by_worker.get("w2").unwrap();
    assert_eq!(w1.iter().map(|c| c.contact.as_str()).collect::<Vec<_>>(), vec!["<sip:1001@10.0.0.7:5060>"]);
    assert_eq!(w2.len(), 1);
    assert_eq!(w2[0].q_milli, 900);
    assert_eq!(by_worker.len(), 2);
    assert_eq!(st.contacts_for_affinity("extension:1:9999", NOW).len(), 0);
}

#[test]
fn handed_out_contacts_are_sorted_by_q_then_contact() {
    let mut st = RegistryState::new();
    st.apply(RegistryCommand::Register { record: stamp_registration(rec("w1"), NOW) });
    bind(&mut st, "w1", "<sip:b@h>", 500, 0);
    bind(&mut st, "w1", "<sip:a@h>", 500, 0);
    bind(&mut st, "w1", "<sip:c@h>", 900, 0);
    let by_worker = st.contacts_for_affinity("extension:1:1001", NOW);
    let list: Vec<&str> = by_worker.get("w1").unwrap().iter().map(|c| c.contact.as_str()).collect();
    assert_eq!(list, vec!["<sip:c@h>", "<sip:a@h>", "<sip:b@h>"]);
}

#[test]
fn conflicts_list_contested_contacts_best_first() {
    let st = setup();
    let conflicts = st.extension_contact_conflicts(NOW);
    assert_eq!(conflicts.len(), 1);
    let c = &conflicts[0];
    assert_eq!(c.affinity_key, "extension:1:1001");
    assert_eq!(c.contact_key, "<sip:1001@10.0.0.5:5060>");
    assert_eq!(c.selected_worker_id, "w2");
    assert_eq!(c.candidates.len(), 2);
    assert_eq!(c.candidates[0].q_milli, 900);
    assert_eq!(c.candidates[1].worker_id, "w1");
}

#[test]
fn equal_standing_prefers_later_expiry_then_smaller_worker() {
    let mut st = RegistryState::new();
    for w in ["wa", "wb", "wc"] {
        st.apply(RegistryCommand::Register { record: stamp_registration(rec(w), NOW) });
    }
    bind(&mut st, "wc", "<sip:x@h>", 700, NOW + 10);
    bind(&mut st, "wb", "<sip:x@h>", 700, NOW + 20);
    bind(&mut st, "wa", "<sip:x@h>", 700, NOW + 10);
    let conflicts = st.extension_contact_conflicts(NOW);
    let order: Vec<&str> = conflicts[0].candidates.iter().map(|c| c.worker_id.as_str()).collect();
    assert_eq!(order, vec!["wb", "wa", "wc"]);
    let owners = st.contacts_for_affinity("extension:1:1001", NOW);
    assert!(owners.get("wb").is_some());
    assert!(owners.get("wa").is_none());
    assert!(st.extension_contact_conflicts(NOW + 15).is_empty(), "a single live registration is no conflict");
}

fn offer_worker(id: &str) -> rustpbx::raft::types::WorkerRecord {
    rustpbx::raft::types::WorkerRecord {
        worker_id: id.to_string(),
        sip_addr: format!("{id}:5060"),
        rtp_external_ip: "127.0.0.1".to_string(),
        rtp_start_port: 10000,
        rtp_end_port: 20000,
        max_concurrent: 100,
        active_calls: 0,
        cpu_usage_bits: 0,
        labels: rustpbx::sorted_map::SortedMap::new(),
        capabilities: Vec::new(),
        edge_worker_addr: String::new(),
        nat_type: String::new(),
        registered_at_ms: 0,
        last_heartbeat_ms: 0,
        draining: false,
    }
}

#[test]
fn offers_carry_each_workers_own_contacts() {
    let mut grouped = rustpbx::sorted_map::SortedMap::new();
    grouped.insert(
        "w2".to_string(),
        vec![
            rustpbx::raft::types::ExtensionContactRecord { contact: "<sip:1001@a>;q=0.9".into(), q_milli: 900, expires_at_ms: 5_000 },
            rustpbx::raft::types::ExtensionContactRecord { contact: "<sip:1001@b>".into(), q_milli: 1000, expires_at_ms: -3 },
        ],
    );
    let offers = rustpbx::control_plane::worker_offers(vec![offer_worker("w1"), offer_worker("w2")], &grouped);
    assert_eq!(offers.len(), 2);
    assert_eq!(offers[0].worker.worker_id, "w1");
    assert!(offers[0].extension_contacts.is_empty());
    assert_eq!(offers[1].worker.worker_id, "w2");
    let c = &offers[1].extension_contacts;
    assert_eq!((c[0].contact.as_str(), c[0].q_milli, c[0].expires_at_unix_ms), ("<sip:1001@a>;q=0.9", 900, 5_000));
    assert_eq!((c[1].q_milli, c[1].expires_at_unix_ms), (1000, 0), "a negative expiry is offered as zero");

    assert_eq!(rustpbx::control_plane::affinity_requested(Some("ext:1:1001")), Some("ext:1:1001"));
    assert_eq!(rustpbx::control_plane::affinity_requested(Some("   ")), None);
    assert_eq!(rustpbx::control_plane::affinity_requested(None), None);
}
