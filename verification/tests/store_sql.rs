use rustpbx::store::sql::{count_total, distributed_spec, CallRecordReport, SqlValue, Store};
use rustpbx::store::{AclInput, CdrListOpts, ExtensionInput, TrunkInput};

fn trunk(name: &str) -> TrunkInput {
    TrunkInput {
        name: name.into(),
        display_name: Some("Carrier A".into()),
        carrier: None,
        direction: "outbound".into(),
        sip_server: Some("1.2.3.4".into()),
        sip_transport: "udp".into(),
        outbound_proxy: None,
        auth_username: Some("u".into()),
        auth_password: Some("p".into()),
        max_cps: Some(10),
        max_concurrent: Some(100),
        allowed_ips: vec!["1.2.3.4/32".into()],
        did_numbers: vec!["+12025550100".into()],
        incoming_from_user_prefix: None,
        incoming_to_user_prefix: None,
        is_active: true,
        register_enabled: false,
        register_expires: None,
        rewrite_hostport: true,
    }
}

fn ext(password: Option<&str>) -> ExtensionInput {
    ExtensionInput {
        extension: "1001".into(),
        display_name: Some("Alice".into()),
        email: None,
        status: Some("enabled".into()),
        login_disabled: false,
        voicemail_disabled: false,
        allow_guest_calls: false,
        sip_password: password.map(|p| p.to_string()),
        call_forwarding_mode: None,
        call_forwarding_destination: None,
        call_forwarding_timeout: None,
    }
}

fn big(v: &SqlValue) -> Option<i64> {
    match v {
        SqlValue::BigInt(x) => *x,
        other => panic!("not a bigint: {other:?}"),
    }
}

fn txt(v: &SqlValue) -> Option<String> {
    match v {
        SqlValue::Text(x) => x.clone(),
        other => panic!("not text: {other:?}"),
    }
}

#[test]
fn trunk_writes_bind_every_column_and_scope_to_the_tenant() {
    let c = Store::create_trunk(&trunk("t1"), Some(1));
    assert_eq!(c.values.len(), 20);
    assert!(c.sql.ends_with("VALUES ($1,$2,$3,'active',$4,$5,$6,$7,$8,$9,$10,$11,$12,$13,$14,$15,$16,$17,$18,$19,$20)"));
    assert_eq!(txt(&c.values[0]), Some("t1".to_string()));
    assert_eq!(big(&c.values[19]), Some(1));

    let scoped = Store::update_trunk(7, &trunk("renamed"), Some(2));
    assert!(scoped.sql.ends_with("WHERE id=$20 AND tenant_id=$21"));
    assert_eq!(scoped.values.len(), 21);
    assert_eq!((big(&scoped.values[19]), big(&scoped.values[20])), (Some(7), Some(2)));
    let admin = Store::update_trunk(7, &trunk("renamed"), None);
    assert!(admin.sql.ends_with("WHERE id=$20"));
    assert_eq!(admin.values.len(), 20);

    let d = Store::delete_trunk(7, Some(2));
    assert_eq!(d.sql, "DELETE FROM rustpbx_sip_trunks WHERE id=$1 AND tenant_id=$2");
    assert_eq!(Store::delete_acl(3, None).sql, "DELETE FROM rustpbx_acl_rules WHERE id=$1");
    assert_eq!(Store::count_trunks_for_tenant(4).values.len(), 1);
}

#[test]
fn extension_update_keeps_the_password_unless_one_is_given() {
    let keep = Store::update_extension(9, &ext(None), Some(1));
    assert!(keep.sql.ends_with("updated_at=CURRENT_TIMESTAMP WHERE id=$11 AND tenant_id=$12"));
    assert!(!keep.sql.contains("sip_password"));
    assert_eq!(keep.values.len(), 12);
    let blank = Store::update_extension(9, &ext(Some("")), None);
    assert!(!blank.sql.contains("sip_password"));
    assert!(blank.sql.ends_with("WHERE id=$11"));
    let set = Store::update_extension(9, &ext(Some("s3cret")), Some(1));
    assert!(set.sql.ends_with(", sip_password=$11 WHERE id=$12 AND tenant_id=$13"));
    assert_eq!(txt(&set.values[10]), Some("s3cret".to_string()));
    assert_eq!((big(&set.values[11]), big(&set.values[12])), (Some(9), Some(1)));
    assert_eq!(Store::create_extension(&ext(None), Some(2)).values.len(), 12);
}

#[test]
fn tenant_reads_see_own_and_global_rows() {
    let t = Store::list_acl_admin(Some(1));
    assert!(t.sql.ends_with("WHERE tenant_id = $1 OR tenant_id IS NULL ORDER BY priority ASC, id ASC"));
    assert_eq!(big(&t.values[0]), Some(1));
    let all = Store::list_acl_admin(None);
    assert!(all.values.is_empty());
    assert!(!all.sql.contains("WHERE"));
    let load = Store::load_acl_rules(Some(5));
    assert!(load.sql.contains("is_active = TRUE AND (tenant_id = $1 OR tenant_id IS NULL)"));
    assert!(load.sql.contains("status <> 'active'"));
    let acl = Store::create_acl(&AclInput { action: "deny".into(), target: "all".into(), priority: 200, is_active: true }, None);
    assert_eq!(big(&acl.values[0]), None, "a global rule has no tenant");
}

#[test]
fn call_record_listing_numbers_its_placeholders_in_order() {
    let mut o = CdrListOpts::default();
    o.tenant_id = Some(3);
    o.search = Some(" 555 ".into());
    o.status = Some("   ".into());
    o.direction = Some("inbound".into());
    o.since = Some(1_000);
    o.limit = 0;
    o.offset = 40;
    let q = Store::list_call_records_paged(&o);
    let w = "WHERE tenant_id = $1 AND (from_number LIKE $2 OR to_number LIKE $3) AND direction = $4 AND started_at >= $5";
    assert_eq!(q.count.sql, format!("SELECT COUNT(*) AS cnt FROM rustpbx_call_records {w}"));
    assert_eq!(
        q.page.sql,
        format!("SELECT id, call_id, tenant_id, direction, status, from_number, to_number, started_at, ended_at, duration_secs, recording_url FROM rustpbx_call_records {w} ORDER BY started_at DESC LIMIT 1 OFFSET 40")
    );
    assert_eq!(q.page.values.len(), 5);
    assert_eq!(txt(&q.page.values[1]), Some("%555%".to_string()));
    assert!(matches!(q.page.values[4], SqlValue::Timestamp(Some(1_000))));

    let none = Store::list_call_records_paged(&CdrListOpts { limit: 9_999, ..CdrListOpts::default() });
    assert_eq!(none.count.sql, "SELECT COUNT(*) AS cnt FROM rustpbx_call_records ");
    assert!(none.page.sql.ends_with("rustpbx_call_records  ORDER BY started_at DESC LIMIT 500 OFFSET 0"));
    assert!(none.count.values.is_empty());
    assert_eq!(count_total(Some(12)), 12);
    assert_eq!(count_total(Some(-1)), 0);
    assert_eq!(count_total(None), 0);
}

#[test]
fn reported_calls_drop_zero_tenant_and_empty_recording() {
    let rec = CallRecordReport {
        call_id: "c-1".into(),
        tenant_id: Some(0),
        caller: "1001".into(),
        callee: "1002".into(),
        direction: "inbound".into(),
        status: "answered".into(),
        start_time_unix_ms: 1_700_000_000_000,
        answer_time_unix_ms: 0,
        end_time_unix_ms: i64::MAX,
        duration_secs: 42,
        trunk_name: Some("carrier".into()),
        worker_id: Some("w1".into()),
        edge_id: None,
        recording_path: Some(String::new()),
        hangup_cause: Some(16),
    };
    let st = Store::persist_cdr(&rec);
    assert!(st.sql.ends_with("ON CONFLICT (call_id) DO NOTHING"));
    assert_eq!(st.values.len(), 11);
    assert!(matches!(st.values[5], SqlValue::Timestamp(Some(1_700_000_000_000))));
    assert!(matches!(st.values[6], SqlValue::Timestamp(None)), "an instant chrono cannot hold is stored as NULL");
    assert_eq!(big(&st.values[8]), None, "tenant 0 is no tenant");
    assert_eq!(txt(&st.values[9]), None, "an empty recording path is no URL");
    match &st.values[10] {
        SqlValue::CallMetadata(m) => {
            assert_eq!(m.tenant_id, Some(0));
            assert_eq!(m.answer_time_unix_ms, None);
            assert_eq!(m.worker_id.as_deref(), Some("w1"));
            assert_eq!(m.sip_trunk_name.as_deref(), Some("carrier"));
        }
        other => panic!("{other:?}"),
    }
    assert_eq!(distributed_spec(None), "{}");
    assert_eq!(distributed_spec(Some("{\"a\":1}".into())), "{\"a\":1}");
}
