use rustpbx::control_plane::{
    cdr_report_step, CdrReportAction, CdrReportEvent, contact_q_milli, extension_affinity_key, extension_location_command, heartbeat_drain, parse_q_milli, slot_plan,
    slot_reply, tenant_quota_applies,
};
use rustpbx::raft::types::RegistryCommand;
use rustpbx::store::sql::CallRecordReport;

#[test]
fn parses_contact_q_milli() {
    assert_eq!(contact_q_milli("<sip:1001@host>"), 1000);
    assert_eq!(contact_q_milli("<sip:1001@host>;q=0.7"), 700);
    assert_eq!(contact_q_milli("<sip:1001@host>;expires=60;q=0.25"), 250);
    assert_eq!(contact_q_milli("<sip:1001@host>;q=1.0"), 1000);
    assert_eq!(contact_q_milli("<sip:1001@host>;q=2"), 1000);
}

#[test]
fn q_values_parse_to_thousandths() {
    assert_eq!(parse_q_milli("0.5"), Some(500));
    assert_eq!(parse_q_milli("0"), Some(0));
    assert_eq!(parse_q_milli("1"), Some(1000));
    assert_eq!(parse_q_milli("abc"), None);
}

#[test]
fn only_positive_tenants_are_capped() {
    assert!(tenant_quota_applies(1));
    assert!(!tenant_quota_applies(0));
    assert!(!tenant_quota_applies(-3));
}

#[test]
fn slot_plan_trims_trunk_and_drops_zero_caps() {
    let p = slot_plan(7, Some(5), Some("  carrier-a "), Some(0), Some(3));
    assert_eq!(p.max, Some(5));
    assert_eq!(p.trunk_name.as_deref(), Some("carrier-a"));
    assert_eq!(p.trunk_max, None);
    assert_eq!(p.trunk_max_cps, Some(3));
    let q = slot_plan(0, Some(5), Some("   "), None, None);
    assert_eq!(q.max, None);
    assert_eq!(q.trunk_name, None);
}

#[test]
fn unknown_worker_is_told_to_drain() {
    assert!(heartbeat_drain(false));
    assert!(!heartbeat_drain(true));
}

#[test]
fn extension_keys_differ_by_tenant() {
    assert_eq!(extension_affinity_key(Some(1), "1001"), "extension:1:1001");
    assert_eq!(extension_affinity_key(Some(2), "1001"), "extension:2:1001");
    assert_eq!(extension_affinity_key(None, "1001"), "extension:global:1001");
}

#[test]
fn slot_reply_reports_caps_as_zero_when_unlimited() {
    let plan = slot_plan(3, Some(10), Some("carrier-a"), None, Some(2));
    let r = slot_reply(true, 4, 1, 1, &plan);
    assert!(r.granted);
    assert_eq!((r.active, r.max), (4, 10));
    assert_eq!((r.trunk_active, r.trunk_max), (1, 0));
    assert_eq!((r.trunk_cps_active, r.trunk_cps_max), (1, 2));
}

#[test]
fn extension_location_reports_become_registry_commands() {
    let now = 1_000_000;
    match extension_location_command(Some(1), " 1001 ", "w1", "<sip:1001@h>;q=0.5", 60, now).unwrap() {
        RegistryCommand::BindAffinityContact { affinity_key, worker_id, contact, q_milli, expires_at_ms } => {
            assert_eq!(affinity_key, "extension:1:1001");
            assert_eq!(worker_id, "w1");
            assert_eq!(contact, "<sip:1001@h>;q=0.5");
            assert_eq!(q_milli, 500);
            assert_eq!(expires_at_ms, now + 60_000);
        }
        other => panic!("unexpected {other:?}"),
    }
    match extension_location_command(Some(1), "1001", "w1", "  ", 60, now).unwrap() {
        RegistryCommand::BindAffinity { expires_at_ms, .. } => assert_eq!(expires_at_ms, Some(now + 60_000)),
        other => panic!("unexpected {other:?}"),
    }
    match extension_location_command(None, "1001", "w1", "<sip:x@h>", 0, now).unwrap() {
        RegistryCommand::UnbindAffinityWorker { affinity_key, worker_id } => {
            assert_eq!(affinity_key, "extension:global:1001");
            assert_eq!(worker_id, "w1");
        }
        other => panic!("unexpected {other:?}"),
    }
    assert!(extension_location_command(Some(1), "  ", "w1", "", 60, now).is_err());
    assert!(extension_location_command(Some(1), "1001", " ", "", 60, now).is_err());
}

#[test]
fn call_record_report_is_stored_released_and_always_acknowledged() {
    let rec = CallRecordReport {
        call_id: "call-9".into(),
        tenant_id: Some(4),
        caller: "1001".into(),
        callee: "+12025550100".into(),
        direction: "outbound".into(),
        status: "answered".into(),
        start_time_unix_ms: 1_700_000_000_000,
        answer_time_unix_ms: 1_700_000_001_000,
        end_time_unix_ms: 1_700_000_031_000,
        duration_secs: 30,
        trunk_name: None,
        worker_id: Some("w1".into()),
        edge_id: None,
        recording_path: None,
        hangup_cause: None,
    };
    match cdr_report_step(&rec, CdrReportEvent::Received) {
        CdrReportAction::Persist(st) => {
            assert!(st.sql.starts_with("INSERT INTO rustpbx_call_records"));
            assert_eq!(st.values.len(), 11);
        }
        _ => panic!("a new report is stored first"),
    }
    for ok in [true, false] {
        match cdr_report_step(&rec, CdrReportEvent::Persisted { ok }) {
            CdrReportAction::ReleaseSlot(id) => assert_eq!(id, "call-9"),
            _ => panic!("the slot is freed whether or not the insert ran"),
        }
        match cdr_report_step(&rec, CdrReportEvent::SlotReleased { ok }) {
            CdrReportAction::Reply(accepted) => assert!(accepted),
            _ => panic!("the report is always acknowledged"),
        }
    }
}
