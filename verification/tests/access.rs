use rustpbx::access::{
    affected_or_404, audit_scope, bearer_token, cdr_page_limit, check_login_gate, client_key, create_tenant_scope,
    enforce_quota, initial_admin_credentials, login_domain, mutate_scope, order_by_saturation, read_scope,
    record_login_fail, require_perm, require_role_grant, require_superadmin, require_tenant_access, required_tenant,
    session_expiry, session_live, superadmin_login, LoginGate, QuotaUsage, TenantQuota, UserInfo,
};

fn superadmin() -> UserInfo {
    UserInfo { username: "admin".into(), role: "superadmin".into(), tenant_id: None, permissions: vec![] }
}

fn tenant_user(t: i64, perms: &[&str]) -> UserInfo {
    UserInfo {
        username: "bob".into(),
        role: "tenant_user".into(),
        tenant_id: Some(t),
        permissions: perms.iter().map(|p| p.to_string()).collect(),
    }
}

fn tenant_admin(t: i64) -> UserInfo {
    UserInfo { username: "root".into(), role: "tenant_admin".into(), tenant_id: Some(t), permissions: vec![] }
}

#[test]
fn scopes_follow_the_principal() {
    assert_eq!(read_scope(&superadmin(), Some(5)).unwrap(), Some(5));
    assert_eq!(read_scope(&superadmin(), None).unwrap(), None);
    assert_eq!(read_scope(&tenant_user(3, &[]), None).unwrap(), Some(3));
    assert_eq!(read_scope(&tenant_user(3, &[]), Some(4)).unwrap_err().status, 403);
    assert_eq!(create_tenant_scope(&tenant_user(3, &[]), Some(3)).unwrap(), Some(3));
    assert_eq!(mutate_scope(&superadmin()), None);
    assert_eq!(mutate_scope(&tenant_admin(9)), Some(9));
    assert_eq!(audit_scope(&tenant_admin(9), Some(1)), Some(9));
    assert_eq!(audit_scope(&superadmin(), Some(1)), Some(1));
}

#[test]
fn required_tenant_asks_superadmin_to_name_one() {
    assert_eq!(required_tenant(&superadmin(), None).unwrap_err().status, 400);
    assert_eq!(required_tenant(&superadmin(), Some(2)).unwrap(), 2);
    assert_eq!(required_tenant(&tenant_admin(2), None).unwrap(), 2);
    assert_eq!(required_tenant(&tenant_admin(2), Some(3)).unwrap_err().status, 403);
    let orphan = UserInfo { tenant_id: None, ..tenant_admin(0) };
    assert_eq!(required_tenant(&orphan, None).unwrap_err().status, 403);
}

#[test]
fn permissions_and_superadmin_checks() {
    assert!(require_perm(&tenant_user(1, &["trunks:read"]), "trunks:read").is_ok());
    let e = require_perm(&tenant_user(1, &["trunks:read"]), "trunks:write").unwrap_err();
    assert_eq!(e.status, 403);
    assert_eq!(e.message, "missing permission: trunks:write");
    assert!(require_perm(&tenant_admin(1), "trunks:write").is_ok());
    assert!(require_superadmin(&superadmin()).is_ok());
    assert_eq!(require_superadmin(&tenant_admin(1)).unwrap_err().status, 403);
}

#[test]
fn tenant_access_and_role_grants() {
    assert!(require_tenant_access(&superadmin(), 7).is_ok());
    assert!(require_tenant_access(&tenant_admin(7), 7).is_ok());
    assert_eq!(require_tenant_access(&tenant_admin(7), 8).unwrap_err().status, 403);
    assert_eq!(require_role_grant(&tenant_admin(7), Some("admin")).unwrap_err().status, 403);
    assert!(require_role_grant(&tenant_admin(7), Some("user")).is_ok());
    assert!(require_role_grant(&superadmin(), Some("admin")).is_ok());
    assert!(require_role_grant(&tenant_admin(7), None).is_ok());
}

#[test]
fn initial_admin_needs_six_byte_password() {
    assert_eq!(initial_admin_credentials(Some("  root "), Some("hunter2")).unwrap(), Some(("root".to_string(), "hunter2".to_string())));
    let e = initial_admin_credentials(Some("root"), Some("abc")).unwrap_err();
    assert_eq!(e.status, 400);
    assert_eq!(e.message, "admin password must be at least 6 characters");
    assert_eq!(initial_admin_credentials(Some("root"), None).unwrap_err().status, 400);
    assert_eq!(initial_admin_credentials(Some("   "), Some("x")).unwrap(), None);
    assert_eq!(initial_admin_credentials(None, Some("x")).unwrap(), None);
}

#[test]
fn affected_rows_and_quotas() {
    assert_eq!(affected_or_404(1).unwrap(), 204);
    assert_eq!(affected_or_404(0).unwrap_err().status, 404);
    assert!(enforce_quota("trunk", 1, Some(2)).is_ok());
    let e = enforce_quota("trunk", 2, Some(2)).unwrap_err();
    assert_eq!(e.status, 409);
    assert_eq!(e.message, "trunk quota reached for this tenant (2/2)");
    assert_eq!(enforce_quota("DID", 5, Some(3)).unwrap_err().message, "DID quota reached for this tenant (5/3)");
    assert!(enforce_quota("did", 1000, None).is_ok());
}

#[test]
fn login_throttle_opens_after_the_window() {
    let now = 1_000_000;
    let mut gate = None;
    for _ in 0..5 {
        assert!(check_login_gate(gate, now).is_ok());
        gate = Some(record_login_fail(gate, now));
    }
    let e = check_login_gate(gate, now + 1_000).unwrap_err();
    assert_eq!(e.status, 429);
    assert!(check_login_gate(gate, now + 60_000).is_ok());
    let restarted = record_login_fail(gate, now + 60_000);
    assert_eq!(restarted.fails, 1);
    assert_eq!(restarted.window_start_ms, now + 60_000);
    assert_eq!(record_login_fail(Some(LoginGate { fails: 2, window_start_ms: now }), now + 10).fails, 3);
}

#[test]
fn client_key_prefers_first_forwarded_hop() {
    assert_eq!(client_key(Some(" 203.0.113.9 , 10.0.0.1"), "10.0.0.2"), "203.0.113.9");
    assert_eq!(client_key(Some("   "), "10.0.0.2"), "10.0.0.2");
    assert_eq!(client_key(None, "10.0.0.2"), "10.0.0.2");
}

#[test]
fn login_paths() {
    assert_eq!(login_domain(Some("  voip.acme.io ")), Some("voip.acme.io".to_string()));
    assert_eq!(login_domain(Some("  ")), None);
    let u = superadmin_login("admin", "pw", "admin", "pw").unwrap();
    assert_eq!(u.role, "superadmin");
    assert_eq!(u.tenant_id, None);
    assert_eq!(superadmin_login("admin", "bad", "admin", "pw").unwrap_err().status, 401);
    assert_eq!(bearer_token(Some("Bearer abc")), Some("abc".to_string()));
    assert_eq!(bearer_token(Some("Basic abc")), None);
    assert_eq!(bearer_token(None), None);
}

#[test]
fn sessions_last_twelve_hours() {
    assert_eq!(session_expiry(0), 43_200_000);
    assert!(session_live(100, 100));
    assert!(!session_live(99, 100));
}

#[test]
fn cdr_page_size_defaults_and_clamps() {
    assert_eq!(cdr_page_limit(None), 50);
    assert_eq!(cdr_page_limit(Some(0)), 1);
    assert_eq!(cdr_page_limit(Some(9999)), 500);
    assert_eq!(cdr_page_limit(Some(20)), 20);
}

fn quota(id: i64, trunks: (u64, Option<u32>), dids: (u64, Option<u32>), conc: (u64, Option<u32>)) -> TenantQuota {
    TenantQuota {
        id,
        name: format!("t{id}"),
        status: "active".into(),
        trunks: QuotaUsage { used: trunks.0, max: trunks.1 },
        dids: QuotaUsage { used: dids.0, max: dids.1 },
        concurrent: QuotaUsage { used: conc.0, max: conc.1 },
    }
}

#[test]
fn saturation_is_the_highest_capped_percentage() {
    assert_eq!(quota(1, (1, Some(4)), (9, Some(10)), (0, None)).saturation(), 90);
    assert_eq!(quota(2, (5, None), (5, None), (5, None)).saturation(), 0);
    assert_eq!(quota(3, (3, Some(0)), (0, None), (0, None)).saturation(), 0);
    assert_eq!(quota(4, (6, Some(4)), (0, None), (0, None)).saturation(), 150);
}

#[test]
fn quotas_order_most_loaded_first_and_stable() {
    let rows = vec![
        quota(1, (1, Some(10)), (0, None), (0, None)),
        quota(2, (9, Some(10)), (0, None), (0, None)),
        quota(3, (0, None), (0, None), (0, None)),
        quota(4, (1, Some(10)), (0, None), (0, None)),
    ];
    let ids: Vec<i64> = order_by_saturation(rows).into_iter().map(|q| q.id).collect();
    assert_eq!(ids, vec![2, 1, 4, 3]);
}
