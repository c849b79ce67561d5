use rustpbx::access::UserInfo;
use rustpbx::audit::{audit_query, tenant_audit_entry, AuditEntry, AuditFilter};
use rustpbx::dids::{apply_did_update, check_new_did, parse_status, CreateDidRequest, DidRecord, DidStatus, UpdateDidRequest};

fn did() -> DidRecord {
    DidRecord {
        id: 3,
        number: "+12025550100".into(),
        tenant_id: Some(1),
        trunk_id: Some(9),
        status: DidStatus::Assigned,
        country: None,
        city: None,
        monthly_cost: None,
        created_at: "t0".into(),
        updated_at: "t0".into(),
    }
}

fn upd() -> UpdateDidRequest {
    UpdateDidRequest { tenant_id: None, trunk_id: None, status: None, country: None, city: None, monthly_cost: None, unassign: false }
}

#[test]
fn new_did_defaults_status_by_tenant() {
    let mut req = CreateDidRequest {
        number: "  +12025550100 ".into(),
        tenant_id: None,
        trunk_id: None,
        status: None,
        country: None,
        city: None,
        monthly_cost: None,
    };
    assert_eq!(check_new_did(&req).unwrap(), ("+12025550100".to_string(), DidStatus::Available));
    req.tenant_id = Some(4);
    assert_eq!(check_new_did(&req).unwrap().1, DidStatus::Assigned);
    req.status = Some("porting".into());
    assert_eq!(check_new_did(&req).unwrap().1, DidStatus::Porting);
    req.status = Some("lost".into());
    assert!(check_new_did(&req).is_err());
    req.number = "   ".into();
    assert_eq!(check_new_did(&req).unwrap_err(), "number is required");
}

#[test]
fn unassign_frees_the_number() {
    let mut r = upd();
    r.unassign = true;
    let d = apply_did_update(did(), r, "t1".into()).unwrap();
    assert_eq!(d.tenant_id, None);
    assert_eq!(d.trunk_id, None);
    assert_eq!(d.status, DidStatus::Available);
    assert_eq!(d.updated_at, "t1");
}

#[test]
fn assigning_a_tenant_marks_assigned_and_bad_status_is_refused() {
    let mut free = did();
    free.tenant_id = None;
    free.status = DidStatus::Available;
    let mut r = upd();
    r.tenant_id = Some(8);
    let d = apply_did_update(free.clone(), r, "t1".into()).unwrap();
    assert_eq!(d.tenant_id, Some(8));
    assert_eq!(d.status, DidStatus::Assigned);
    let mut bad = upd();
    bad.status = Some("nope".into());
    assert!(apply_did_update(free, bad, "t1".into()).is_err());
    assert_eq!(parse_status("reserved"), Ok(DidStatus::Reserved));
    assert_eq!(DidStatus::Reserved.as_str(), "reserved");
}

#[test]
fn audit_query_drops_empty_filters_and_clamps_limit() {
    let q = audit_query(AuditFilter { tenant_id: Some(1), action: Some(String::new()), target_type: Some("trunk".into()), limit: 0 });
    assert_eq!(q.tenant_id, Some(1));
    assert_eq!(q.action, None);
    assert_eq!(q.target_type.as_deref(), Some("trunk"));
    assert_eq!(q.limit, 1);
    let big = audit_query(AuditFilter { limit: 10_000, ..Default::default() });
    assert_eq!(big.limit, 500);
    assert_eq!(AuditFilter::default().limit, 100);
}

#[test]
fn audit_entries_carry_actor_and_summary() {
    let u = UserInfo { username: "alice".into(), role: "tenant_admin".into(), tenant_id: Some(1), permissions: vec![] };
    let e = AuditEntry::action("create", "trunk", Some(42), "create trunk").with_actor(&u).with_payload("{\"name\":\"acme\"}".into());
    assert_eq!(e.actor_username, "alice");
    assert_eq!(e.actor_tenant_id, Some(1));
    assert_eq!(e.payload.as_deref(), Some("{\"name\":\"acme\"}"));
    let t = tenant_audit_entry("update", 100000000001, "acme");
    assert_eq!(t.summary, "update tenant 'acme' (id 100000000001)");
    assert_eq!(t.target_type, "tenant");
    let d = tenant_audit_entry("delete", 7, "");
    assert_eq!(d.summary, "delete tenant (id 7)");
}
