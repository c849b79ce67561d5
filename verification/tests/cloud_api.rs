use rustpbx::cloud_api::{
    check_login, check_login_fields, clear_session_cookie, default_tenant, extract_cookie, session_cookie, session_expires,
    session_payload, session_role, session_token, session_user, session_user_id, sign, signing_key, verify_password,
    CloudUser, LoginRequest, SESSION_COOKIE, SESSION_TTL_SECS,
};

const PHC: &str = "$argon2id$v=19$m=19456,t=2,p=1$c29tZXNhbHQxMjM0NTY3OA$RlBRf5o5xg3ZE4CdwtlYtwz79vWbTIcc4gfK6zMTJvc";

fn user(active: bool) -> CloudUser {
    CloudUser {
        id: 7,
        username: "alice".into(),
        email: "alice@example.com".into(),
        password_hash: "not-a-phc-string".into(),
        is_active: active,
        is_superuser: false,
        is_staff: true,
    }
}

#[test]
fn roles_and_default_tenant() {
    assert_eq!(session_role(true, true), "platform_admin");
    assert_eq!(session_role(false, true), "tenant_admin");
    assert_eq!(session_role(false, false), "tenant_user");
    let d = default_tenant(None);
    assert_eq!((d.id.as_str(), d.name.as_str(), d.status.as_str()), ("default", "Default", "active"));
    let t = default_tenant(Some("  acme "));
    assert_eq!((t.id.as_str(), t.name.as_str()), ("acme", "acme"));
    assert_eq!(default_tenant(Some("   ")).id, "default");
    let s = session_user(&user(true), Some("acme"));
    assert_eq!(s.role, "tenant_admin");
    assert_eq!(s.email.as_deref(), Some("alice@example.com"));
    assert_eq!(s.tenant.id, "acme");
}

#[test]
fn login_needs_fields_and_valid_credentials() {
    let req = LoginRequest { username: "  alice ".into(), password: "pw".into(), tenant: None };
    assert_eq!(check_login_fields(&req).unwrap(), "alice");
    let empty = LoginRequest { username: " ".into(), password: "pw".into(), tenant: None };
    let e = check_login_fields(&empty).unwrap_err();
    assert_eq!(e.status, 400);
    assert_eq!(e.message, "username and password are required");
    assert_eq!(check_login(None, "pw").unwrap_err().status, 401);
    assert_eq!(check_login(Some(user(true)), "pw").unwrap_err().message, "invalid credentials");
    assert_eq!(check_login(Some(user(false)), "pw").unwrap_err().status, 401);
}

#[test]
fn argon2_hash_is_checked() {
    assert!(!verify_password("anything", "not-a-phc-string"));
    assert!(!verify_password("wrong", PHC));
}

#[test]
fn token_roundtrips_until_expiry_and_rejects_tampering() {
    let key = signing_key("0.0.0.0:8080", "sqlite::memory:");
    assert_eq!(key, "cloudpbx:0.0.0.0:8080:sqlite::memory:");
    let exp = session_expires(1_000);
    assert_eq!(exp, 1_000 + SESSION_TTL_SECS as i64);
    let token = session_token(&key, 7, exp).unwrap();
    assert!(token.starts_with("7:44200:"));
    assert_eq!(session_user_id(&key, &token, 1_000), Some(7));
    assert_eq!(session_user_id(&key, &token, exp), None, "expired");
    assert_eq!(session_user_id("other-key", &token, 1_000), None, "other key");
    let forged = token.replacen("7:", "8:", 1);
    assert_eq!(session_user_id(&key, &forged, 1_000), None, "tampered user id");
    assert_eq!(session_user_id(&key, &format!("{token}:x"), 1_000), None, "extra segment");
    assert_eq!(session_payload(-3, 5), "-3:5");
    let sig = sign(&key, "7:44200").unwrap();
    assert!(token.ends_with(&sig));
    assert!(!sig.contains('='), "no padding");
}

#[test]
fn cookies_set_read_and_clear() {
    let c = session_cookie("abc", Some(43200));
    assert_eq!(c, "cloudpbx_session=abc; Path=/; HttpOnly; SameSite=Lax; Max-Age=43200");
    assert_eq!(session_cookie("abc", None), "cloudpbx_session=abc; Path=/; HttpOnly; SameSite=Lax");
    assert_eq!(clear_session_cookie(), "cloudpbx_session=; Path=/; HttpOnly; SameSite=Lax; Max-Age=0");
    let headers = vec!["theme=dark".to_string(), "a=1;  cloudpbx_session=tok:1:sig ; b=2".to_string()];
    assert_eq!(extract_cookie(&headers, SESSION_COOKIE), Some("tok:1:sig".to_string()));
    assert_eq!(extract_cookie(&headers, "missing"), None);
    assert_eq!(extract_cookie(&["x=1".to_string(), "x=2".to_string()], "x"), Some("1".to_string()));
}
