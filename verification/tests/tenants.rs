use rustpbx::tenants::{
    active_domain, apply_domain_update, apply_update, custom_domain_login_ok, default_domain, default_domain_id,
    default_domain_login_ok, new_tenant, normalize_custom_domain, random_tenant_id, tenant_id_from_bits,
    CreateTenantRequest, TenantRecord, TenantResponse, TenantStatus, UpdateDomainRequest, UpdateTenantRequest,
};

const BASE: &str = "pbx.example.com";
const NOW: &str = "2024-01-01T00:00:00Z";

fn req(name: &str, custom: Option<&str>) -> CreateTenantRequest {
    CreateTenantRequest {
        name: name.into(),
        max_concurrent_calls: None,
        max_trunks: None,
        max_dids: None,
        storage_prefix: None,
        custom_domain: custom.map(Into::into),
        metadata: None,
        admin_username: None,
        admin_password: None,
    }
}

fn create(name: &str, custom: Option<&str>) -> TenantRecord {
    new_tenant(random_tenant_id(), &req(name, custom), NOW.to_string())
}

/// Login resolution as the tenant service does it, over one stored tenant.
fn resolves(t: &TenantRecord, domain: &str) -> bool {
    let d = domain.trim();
    if d.is_empty() || t.status == TenantStatus::Deleted {
        return false;
    }
    if t.custom_domain.as_deref() == Some(d) {
        return custom_domain_login_ok(t, d);
    }
    default_domain_id(d, BASE) == Some(t.id) && default_domain_login_ok(t, d, BASE)
}

#[test]
fn default_domain_derives_from_base_and_id() {
    let t = TenantResponse::from_record(create("acme", None), BASE);
    assert_eq!(t.default_domain.as_deref(), Some(&*format!("{}.pbx.example.com", t.id)));
    assert_eq!(t.active_domain, t.default_domain);
    assert!(!t.custom_domain_enabled);
}

#[test]
fn custom_domain_takes_over_and_default_is_reserved() {
    let t = create("acme", None);
    let id = t.id;
    let updated = apply_domain_update(
        t,
        UpdateDomainRequest { custom_domain: Some("voip.acme.io".into()), custom_domain_enabled: true },
        NOW.to_string(),
    );
    let resp = TenantResponse::from_record(updated.clone(), BASE);
    assert_eq!(resp.active_domain.as_deref(), Some("voip.acme.io"));
    assert_eq!(resp.default_domain.as_deref(), Some(&*format!("{}.pbx.example.com", id)));

    assert!(resolves(&updated, "voip.acme.io"));
    assert!(!resolves(&updated, &format!("{}.pbx.example.com", id)), "default domain is paused while custom is active");
}

#[test]
fn default_domain_resolves_when_no_custom() {
    let t = create("acme", None);
    assert!(resolves(&t, &format!("{}.pbx.example.com", t.id)));
}

#[test]
fn tenant_id_is_aws_style_12_digits() {
    let t = TenantResponse::from_record(create("acme", None), BASE);
    assert!((100_000_000_000..=999_999_999_999).contains(&t.id), "tenant id must be 12 digits, got {}", t.id);
    assert_eq!(t.default_domain, Some(format!("{}.pbx.example.com", t.id)));
    let t2 = create("beta", None);
    assert_ne!(t.id, t2.id);
}

#[test]
fn tenant_id_from_bits_stays_in_range() {
    assert_eq!(tenant_id_from_bits(0), 100_000_000_000);
    assert_eq!(tenant_id_from_bits(899_999_999_999), 999_999_999_999);
    assert_eq!(tenant_id_from_bits(900_000_000_000), 100_000_000_000);
    assert_eq!(tenant_id_from_bits(u128::MAX), 100_000_000_000 + (u64::MAX % 900_000_000_000) as i64);
}

#[test]
fn default_domain_needs_a_base() {
    assert_eq!(default_domain(100000000001, "  pbx.example.com "), Some("100000000001.pbx.example.com".to_string()));
    assert_eq!(default_domain(100000000001, "   "), None);
}

#[test]
fn creation_trims_custom_domain_and_enables_it() {
    let t = new_tenant(100000000005, &req("acme", Some("  voip.acme.io ")), NOW.to_string());
    assert_eq!(t.custom_domain.as_deref(), Some("voip.acme.io"));
    assert!(t.custom_domain_enabled);
    assert_eq!(t.status, TenantStatus::Active);
    let blank = new_tenant(100000000006, &req("beta", Some("   ")), NOW.to_string());
    assert_eq!(blank.custom_domain, None);
    assert!(!blank.custom_domain_enabled);
    assert_eq!(active_domain(&t, BASE).as_deref(), Some("voip.acme.io"));
}

#[test]
fn disabled_custom_domain_falls_back_to_default() {
    let t = new_tenant(100000000007, &req("acme", Some("voip.acme.io")), NOW.to_string());
    let off = apply_domain_update(
        t,
        UpdateDomainRequest { custom_domain: Some("voip.acme.io".into()), custom_domain_enabled: false },
        NOW.to_string(),
    );
    assert_eq!(active_domain(&off, BASE).as_deref(), Some("100000000007.pbx.example.com"));
    assert!(!resolves(&off, "voip.acme.io"));
    assert!(resolves(&off, "100000000007.pbx.example.com"));
    let cleared = apply_domain_update(off, UpdateDomainRequest { custom_domain: Some("  ".into()), custom_domain_enabled: true }, NOW.to_string());
    assert_eq!(cleared.custom_domain, None);
    assert!(!cleared.custom_domain_enabled, "a domain that is not set cannot be enabled");
}

#[test]
fn update_applies_given_fields_and_refuses_unknown_status() {
    let t = create("acme", None);
    let u = apply_update(
        t.clone(),
        UpdateTenantRequest {
            name: Some("acme2".into()),
            status: Some("suspended".into()),
            max_concurrent_calls: Some(5),
            max_trunks: None,
            max_dids: None,
            storage_prefix: None,
            metadata: None,
        },
        "later".to_string(),
    )
    .unwrap();
    assert_eq!(u.name, "acme2");
    assert_eq!(u.status, TenantStatus::Suspended);
    assert_eq!(u.max_concurrent_calls, Some(5));
    assert_eq!(u.updated_at, "later");
    let bad = apply_update(
        t,
        UpdateTenantRequest {
            name: None,
            status: Some("frozen".into()),
            max_concurrent_calls: None,
            max_trunks: None,
            max_dids: None,
            storage_prefix: None,
            metadata: None,
        },
        "later".to_string(),
    );
    assert_eq!(bad.unwrap_err(), "unknown status: frozen");
}

#[test]
fn status_texts_roundtrip() {
    for s in [TenantStatus::Active, TenantStatus::Suspended, TenantStatus::Deleted] {
        assert_eq!(TenantStatus::parse(s.as_str()), Some(s));
    }
    assert_eq!(TenantStatus::parse("Active"), None);
    assert_eq!(normalize_custom_domain(Some(" a.b ")), Some("a.b".to_string()));
    assert_eq!(normalize_custom_domain(None), None);
}

#[test]
fn suspended_or_unknown_domain_does_not_resolve() {
    let t = create("acme", None);
    assert!(!resolves(&t, "other.example.com"));
    assert_eq!(default_domain_id("abc.pbx.example.com", BASE), None);
}
