use rustpbx::access::{session_expiry, UserInfo};
use rustpbx::access::ApiError;
use rustpbx::auth::password::hash_password;
use rustpbx::sessions::{new_session_token, sign_in_principal, uuid_string, LoginThrottle, SessionStore};
use rustpbx::tenant_users::TenantUserRecord;

fn user() -> UserInfo {
    UserInfo { username: "alice".into(), role: "tenant_admin".into(), tenant_id: Some(1), permissions: vec!["cdr:read".into()] }
}

#[test]
fn signed_in_token_lets_the_user_in_until_expiry() {
    let mut store = SessionStore::new();
    let now = 1_000_000;
    let token = new_session_token();
    assert_eq!(token.len(), 36);
    store.open(token.clone(), user(), session_expiry(now));
    let u = store.authenticate(&token, now + 1).unwrap();
    assert_eq!(u.username, "alice");
    assert_eq!(u.permissions, vec!["cdr:read".to_string()]);

    let e = store.authenticate(&token, session_expiry(now) + 1).unwrap_err();
    assert_eq!(e.status, 401);
    assert_eq!(e.message, "session expired");
    let gone = store.authenticate(&token, now).unwrap_err();
    assert_eq!(gone.message, "invalid token", "an expired session is removed");
}

#[test]
fn logout_ends_only_that_session() {
    let mut store = SessionStore::new();
    store.open("a".into(), user(), 100);
    store.open("b".into(), user(), 100);
    store.close("a");
    assert_eq!(store.authenticate("a", 50).unwrap_err().message, "invalid token");
    assert!(store.authenticate("b", 50).is_ok());
}

#[test]
fn authorize_guards_everything_but_login() {
    let mut store = SessionStore::new();
    store.open("tok".into(), user(), 100);
    assert!(store.authorize("/auth/login", None, 50).unwrap().is_none());
    let e = store.authorize("/tenants", None, 50).unwrap_err();
    assert_eq!(e.status, 401);
    assert_eq!(e.message, "missing bearer token");
    assert_eq!(store.authorize("/tenants", Some("Bearer nope"), 50).unwrap_err().message, "invalid token");
    let u = store.authorize("/tenants", Some("Bearer tok"), 50).unwrap().unwrap();
    assert_eq!(u.tenant_id, Some(1));
}

#[test]
fn uuid_text_is_hyphenated_lower_hex() {
    assert_eq!(uuid_string(0), "00000000-0000-0000-0000-000000000000");
    assert_eq!(
        uuid_string(0x0123_4567_89ab_cdef_fedc_ba98_7654_3210),
        "01234567-89ab-cdef-fedc-ba9876543210"
    );
    let a = new_session_token();
    let b = new_session_token();
    assert_ne!(a, b);
    assert_eq!(a.matches('-').count(), 4);
}

fn refused() -> Result<UserInfo, ApiError> {
    Err(ApiError { status: 401, message: "invalid credentials".into() })
}

#[test]
fn fifth_failure_in_a_window_locks_the_client_out() {
    let mut t = LoginThrottle::new();
    let now = 10_000_000;
    for i in 0..5 {
        assert!(t.check("10.0.0.1", now + i).is_ok());
        let r = t.settle("10.0.0.1", refused(), now + i);
        assert_eq!(r.unwrap_err().status, 401);
    }
    let e = t.check("10.0.0.1", now + 10).unwrap_err();
    assert_eq!(e.status, 429);
    assert!(t.check("10.0.0.2", now + 10).is_ok(), "other clients are unaffected");
    assert!(t.check("10.0.0.1", now + 60_000).is_ok(), "the window closes after a minute");
}

#[test]
fn a_successful_login_clears_the_count() {
    let mut t = LoginThrottle::new();
    let now = 5_000;
    for i in 0..4 {
        let _ = t.settle("k", refused(), now + i);
    }
    let ok = t.settle("k", Ok(user()), now + 5).unwrap();
    assert_eq!(ok.username, "alice");
    for i in 0..4 {
        let _ = t.settle("k", refused(), now + 10 + i);
    }
    assert!(t.check("k", now + 20).is_ok());
}

fn account(status: &str) -> TenantUserRecord {
    TenantUserRecord {
        id: 7,
        tenant_id: 3,
        username: "bob".into(),
        display_name: None,
        password_hash: hash_password("secret1").unwrap(),
        role: "admin".into(),
        permissions: vec!["cdr:read".into()],
        status: status.into(),
        created_at: "2024-01-01T00:00:00Z".into(),
        updated_at: "2024-01-01T00:00:00Z".into(),
        last_login_at: None,
    }
}

#[test]
fn sign_in_resolves_superadmin_and_tenant_users() {
    let admin = sign_in_principal("root", "pw", Some("  "), "root", "pw", None, None).unwrap();
    assert_eq!(admin.role, "superadmin");
    assert_eq!(admin.tenant_id, None);
    let e = sign_in_principal("root", "nope", None, "root", "pw", None, None).unwrap_err();
    assert_eq!((e.status, e.message.as_str()), (401, "invalid credentials"));
    let e = sign_in_principal("bob", "secret1", Some("acme.example"), "root", "pw", None, None).unwrap_err();
    assert_eq!((e.status, e.message.as_str()), (401, "unknown domain"));
    let a = account("active");
    let u = sign_in_principal("bob", "secret1", Some("acme.example"), "root", "pw", Some(3), Some(&a)).unwrap();
    assert_eq!((u.username.as_str(), u.role.as_str(), u.tenant_id), ("bob", "tenant_admin", Some(3)));
    assert_eq!(u.permissions, vec!["cdr:read".to_string()]);
    let e = sign_in_principal("bob", "wrong", Some("acme.example"), "root", "pw", Some(3), Some(&a)).unwrap_err();
    assert_eq!(e.message, "invalid credentials");
    let s = account("suspended");
    assert!(sign_in_principal("bob", "secret1", Some("acme.example"), "root", "pw", Some(3), Some(&s)).is_err());
}

#[test]
fn login_opens_a_session_and_throttles_failures() {
    let mut store = SessionStore::new();
    let mut throttle = LoginThrottle::new();
    let now = 5_000_000;
    for _ in 0..5 {
        let e = store.login(&mut throttle, "10.0.0.9", "root", "bad", None, "root", "pw", None, None, now).unwrap_err();
        assert_eq!(e.status, 401);
    }
    let e = store.login(&mut throttle, "10.0.0.9", "root", "pw", None, "root", "pw", None, None, now).unwrap_err();
    assert_eq!(e.status, 429, "a closed window refuses even good credentials");
    let (token, user) = store.login(&mut throttle, "10.0.0.1", "root", "pw", None, "root", "pw", None, None, now).unwrap();
    assert_eq!(token.len(), 36);
    assert_eq!(user.role, "superadmin");
    let seen = store.authenticate(&token, now + 1).unwrap();
    assert_eq!(seen.username, "root");
}
