use rustpbx::sorted_map::SortedMap;
use rustpbx::store::{parse_rfc3339, rewrite_field, rewrite_rules_from};
use rustpbx::store::{
    acl_rule_line, concurrency_limit, default_any, default_direction, default_priority, default_rr, default_transport,
    default_true, is_mutable, is_visible, replaces_sip_password, trunk_dest, trunk_has_auth, trunk_worker_dests,
    CdrListOpts, ExtensionInput,
};

#[test]
fn tenant_sees_own_and_global_rows_but_changes_only_its_own() {
    assert!(is_visible(Some(1), Some(1)));
    assert!(is_visible(None, Some(1)), "tenant sees its rules + globals");
    assert!(!is_visible(Some(2), Some(1)));
    assert!(is_visible(Some(2), None));
    assert!(is_mutable(Some(1), Some(1)));
    assert!(!is_mutable(None, Some(1)), "tenant can't delete global rule");
    assert!(!is_mutable(Some(2), Some(1)));
    assert!(is_mutable(None, None), "superadmin can");
}

#[test]
fn submitted_defaults() {
    assert_eq!(default_direction(), "bidirectional");
    assert_eq!(default_transport(), "udp");
    assert!(default_true());
    assert_eq!(default_any(), "any");
    assert_eq!(default_priority(), 100);
    assert_eq!(default_rr(), "rr");
}

#[test]
fn extension_password_only_replaced_when_given() {
    let mut e = ExtensionInput {
        extension: "1001".into(),
        display_name: Some("Alice".into()),
        email: None,
        status: Some("enabled".into()),
        login_disabled: false,
        voicemail_disabled: false,
        allow_guest_calls: false,
        sip_password: Some("sip-secret".into()),
        call_forwarding_mode: None,
        call_forwarding_destination: None,
        call_forwarding_timeout: None,
    };
    assert!(replaces_sip_password(&e));
    e.sip_password = None;
    assert!(!replaces_sip_password(&e));
    e.sip_password = Some(String::new());
    assert!(!replaces_sip_password(&e));
}

#[test]
fn trunk_destinations() {
    assert_eq!(trunk_dest(&Some("1.2.3.4".into()), &Some("proxy".into())), Some("1.2.3.4".to_string()));
    assert_eq!(trunk_dest(&None, &Some("proxy".into())), Some("proxy".to_string()));
    assert_eq!(trunk_dest(&None, &None), None);
    assert_eq!(trunk_worker_dests(&Some("1.2.3.4".into()), &Some("proxy".into())), ("1.2.3.4".to_string(), Some("proxy".to_string())));
    assert_eq!(trunk_worker_dests(&None, &Some("proxy".into())), ("proxy".to_string(), None));
    assert_eq!(trunk_worker_dests(&None, &None), (String::new(), None));
    assert!(trunk_has_auth(&Some("u".into())));
    assert!(!trunk_has_auth(&Some(String::new())));
    assert!(!trunk_has_auth(&None));
}

#[test]
fn tenant_max_concurrent_reads_limit_or_none() {
    assert_eq!(concurrency_limit(Some(999)), Some(999));
    assert_eq!(concurrency_limit(None), None, "NULL → unlimited");
    assert_eq!(concurrency_limit(Some(0)), None, "0 → unlimited");
    assert_eq!(concurrency_limit(Some(-4)), None);
}

#[test]
fn acl_rules_render_as_action_and_target() {
    assert_eq!(acl_rule_line("allow", "10.0.0.0/8"), "allow 10.0.0.0/8");
    assert_eq!(acl_rule_line("deny", "all"), "deny all");
}

#[test]
fn cdr_filters_are_trimmed_and_page_clamped() {
    let opts = CdrListOpts {
        tenant_id: Some(1),
        search: Some("  9999 ".into()),
        status: Some("   ".into()),
        direction: Some("inbound".into()),
        limit: 0,
        offset: 5,
        ..Default::default()
    };
    let n = opts.normalized();
    assert_eq!(n.search.as_deref(), Some("9999"));
    assert_eq!(n.status, None);
    assert_eq!(n.direction.as_deref(), Some("inbound"));
    assert_eq!(n.limit, 1);
    assert_eq!(n.offset, 5);
    assert_eq!(CdrListOpts { limit: 100_000, ..Default::default() }.normalized().limit, 500);
}

#[test]
fn rewrite_fields_prefer_dotted_names() {
    let mut fields = SortedMap::new();
    fields.insert("from.user".to_string(), "alice".to_string());
    fields.insert("from_user".to_string(), "ignored".to_string());
    fields.insert("to_host".to_string(), "pbx.example.com".to_string());
    assert_eq!(rewrite_field(&fields, "from.user", "from_user"), Some("alice".to_string()));
    let r = rewrite_rules_from(&fields, SortedMap::new());
    assert_eq!(r.from_user.as_deref(), Some("alice"));
    assert_eq!(r.to_host.as_deref(), Some("pbx.example.com"));
    assert_eq!(r.to_user, None);
}

#[test]
fn listing_bounds_are_read_as_rfc3339() {
    assert_eq!(parse_rfc3339(Some(" 2024-01-02T03:04:05Z ")), Some(1_704_164_645_000));
    assert_eq!(parse_rfc3339(Some("2024-01-02T03:04:05.250+01:00")), Some(1_704_161_045_250));
    assert_eq!(parse_rfc3339(Some("   ")), None);
    assert_eq!(parse_rfc3339(Some("yesterday")), None);
    assert_eq!(parse_rfc3339(None), None);
}
