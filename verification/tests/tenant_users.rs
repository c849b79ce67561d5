use rustpbx::auth::permissions::roles;
use rustpbx::auth::permissions::TRUNKS_READ;
use rustpbx::tenant_users::{
    apply_user_update, authenticate_user, change_password_hash, check_new_user, initial_admin_request, prepare_new_user,
    tenant_login_user, validate_permissions, validate_role, CreateTenantUserRequest, TenantUserRecord,
    TenantUserResponse, UpdateTenantUserRequest,
};

const NOW: &str = "2024-01-01T00:00:00Z";

/// A tenant's accounts, as the user service keeps them.
struct Users {
    rows: Vec<TenantUserRecord>,
}

impl Users {
    fn new() -> Self {
        Users { rows: Vec::new() }
    }

    fn find(&self, tenant_id: i64, username: &str) -> Option<&TenantUserRecord> {
        self.rows.iter().find(|u| u.tenant_id == tenant_id && u.username == username)
    }

    fn create(&mut self, tenant_id: i64, req: &CreateTenantUserRequest) -> Result<TenantUserResponse, String> {
        let taken = self.find(tenant_id, req.username.trim()).is_some();
        let mut rec = prepare_new_user(tenant_id, req, taken, NOW)?;
        rec.id = self.rows.len() as i64 + 1;
        self.rows.push(rec.clone());
        Ok(TenantUserResponse::from_record(rec))
    }

    fn create_initial_admin(&mut self, tenant_id: i64, username: &str, password: &str) -> Result<TenantUserResponse, String> {
        self.create(tenant_id, &initial_admin_request(username, password))
    }

    fn authenticate(&self, tenant_id: i64, username: &str, password: &str) -> Option<rustpbx::tenant_users::AuthenticatedUser> {
        authenticate_user(self.find(tenant_id, username.trim()), password)
    }
}

fn no_update() -> UpdateTenantUserRequest {
    UpdateTenantUserRequest { display_name: None, password: None, role: None, permissions: None, status: None }
}

#[test]
fn initial_admin_authenticates_as_tenant_admin() {
    let mut svc = Users::new();
    svc.create_initial_admin(1, "root", "hunter2").unwrap();
    let ok = svc.authenticate(1, "root", "hunter2").unwrap();
    assert_eq!(ok.session_role, roles::TENANT_ADMIN);
    assert_eq!(ok.tenant_id, 1);
    assert!(svc.authenticate(1, "root", "wrong").is_none());
    assert!(svc.authenticate(2, "root", "hunter2").is_none());
}

#[test]
fn user_carries_granted_permissions() {
    let mut svc = Users::new();
    svc.create(
        7,
        &CreateTenantUserRequest {
            username: "agent".into(),
            password: "secret1".into(),
            display_name: None,
            role: Some("user".into()),
            permissions: vec![TRUNKS_READ.into()],
        },
    )
    .unwrap();
    let p = svc.authenticate(7, "agent", "secret1").unwrap();
    assert_eq!(p.session_role, roles::TENANT_USER);
    assert_eq!(p.permissions, vec![TRUNKS_READ.to_string()]);
    let u = tenant_login_user(p);
    assert_eq!(u.tenant_id, Some(7));
    assert_eq!(u.role, roles::TENANT_USER);
}

#[test]
fn username_unique_within_tenant_only() {
    let mut svc = Users::new();
    svc.create_initial_admin(1, "admin", "pass123").unwrap();
    svc.create_initial_admin(2, "admin", "pass123").unwrap();
    assert!(svc.create_initial_admin(1, "admin", "pass123").is_err());
}

#[test]
fn suspended_user_cannot_authenticate() {
    let mut svc = Users::new();
    svc.create_initial_admin(1, "root", "hunter2").unwrap();
    let existing = svc.rows[0].clone();
    let mut req = no_update();
    req.status = Some("suspended".into());
    svc.rows[0] = apply_user_update(existing, req, NOW).unwrap();
    assert!(svc.authenticate(1, "root", "hunter2").is_none());
}

#[test]
fn change_password_checks_current_and_rotates() {
    let mut svc = Users::new();
    svc.create_initial_admin(1, "root", "oldpass").unwrap();
    let user = svc.rows[0].clone();
    assert!(change_password_hash(&user, "nope", "newpass1").is_err());
    assert!(change_password_hash(&user, "oldpass", "abc").is_err());
    let h = change_password_hash(&user, "oldpass", "newpass1").unwrap();
    svc.rows[0].password_hash = h;
    assert!(svc.authenticate(1, "root", "oldpass").is_none());
    assert!(svc.authenticate(1, "root", "newpass1").is_some());
}

#[test]
fn rejects_unknown_permission() {
    let mut svc = Users::new();
    let err = svc.create(
        1,
        &CreateTenantUserRequest {
            username: "x".into(),
            password: "secret1".into(),
            display_name: None,
            role: Some("user".into()),
            permissions: vec!["bogus:perm".into()],
        },
    );
    assert!(err.is_err());
}

#[test]
fn new_user_checks_each_field() {
    let base = CreateTenantUserRequest {
        username: "  bob ".into(),
        password: "secret1".into(),
        display_name: None,
        role: None,
        permissions: vec![],
    };
    let (u, role) = check_new_user(&base, false).unwrap();
    assert_eq!(u, "bob");
    assert_eq!(role, "user");
    assert_eq!(check_new_user(&base, true).unwrap_err(), "username 'bob' already exists in this tenant");
    let mut short = base.clone();
    short.password = "abc".into();
    assert_eq!(check_new_user(&short, false).unwrap_err(), "password must be at least 6 characters");
    let mut blank = base.clone();
    blank.username = "   ".into();
    assert_eq!(check_new_user(&blank, false).unwrap_err(), "username is required");
    let mut bad_role = base.clone();
    bad_role.role = Some("owner".into());
    assert!(check_new_user(&bad_role, false).is_err());
}

#[test]
fn roles_and_permissions_validate() {
    assert_eq!(validate_role("admin"), Ok("admin"));
    assert_eq!(validate_role("user"), Ok("user"));
    assert!(validate_role("root").is_err());
    assert!(validate_permissions(&[TRUNKS_READ.to_string()]).is_ok());
    assert!(validate_permissions(&["x:y".to_string()]).is_err());
}

#[test]
fn update_with_empty_password_keeps_hash() {
    let mut svc = Users::new();
    svc.create_initial_admin(1, "root", "hunter2").unwrap();
    let before = svc.rows[0].clone();
    let mut req = no_update();
    req.password = Some(String::new());
    req.display_name = Some("Root".into());
    let after = apply_user_update(before.clone(), req, "later").unwrap();
    assert_eq!(after.password_hash, before.password_hash);
    assert_eq!(after.display_name.as_deref(), Some("Root"));
    assert_eq!(after.updated_at, "later");
    let mut bad = no_update();
    bad.status = Some("gone".into());
    assert!(apply_user_update(before, bad, NOW).is_err());
}
