use rustpbx::store::views::{
    acl_view_from_row, cdr_view_from_row, extension_view_from_row, ivr_view_from_row, queue_view_from_row,
    route_view_from_row, trunk_view_from_row, AclRow, CdrRow, ExtensionRow, RouteListRow, SpecRow, TrunkListRow,
};

#[test]
fn trunk_view_takes_defaults_and_hides_credentials() {
    let row = TrunkListRow {
        id: 3,
        name: "carrier".into(),
        sip_server: None,
        outbound_proxy: Some("proxy.example".into()),
        sip_transport: None,
        direction: None,
        auth_username: Some(String::new()),
        register_enabled: None,
        is_active: None,
        did_numbers: Some("[\"+12025550100\"]".into()),
        allowed_ips: Some("not json".into()),
        max_concurrent: Some(20),
        tenant_id: Some(1),
    };
    let v = trunk_view_from_row(&row);
    assert_eq!(v.dest.as_deref(), Some("proxy.example"));
    assert_eq!(v.transport, "udp");
    assert_eq!(v.direction, "bidirectional");
    assert!(!v.has_auth, "an empty user name is no credential");
    assert!(!v.register_enabled);
    assert!(v.is_active);
    assert_eq!(v.did_numbers, vec!["+12025550100".to_string()]);
    assert!(v.allowed_ips.is_empty());
    let with_user = TrunkListRow { auth_username: Some("u".into()), sip_server: Some("1.2.3.4".into()), ..row };
    let w = trunk_view_from_row(&with_user);
    assert!(w.has_auth);
    assert_eq!(w.dest.as_deref(), Some("1.2.3.4"));
}

#[test]
fn route_view_reads_target_names() {
    let row = RouteListRow {
        id: 9,
        name: "default".into(),
        description: None,
        priority: None,
        direction: None,
        source_pattern: Some("^1".into()),
        destination_pattern: None,
        target_trunks: Some("[{\"name\":\"a\"},[\"b\"]]".into()),
        is_active: Some(false),
        tenant_id: None,
    };
    let v = route_view_from_row(&row);
    assert_eq!(v.priority, 0);
    assert_eq!(v.direction, "any");
    assert_eq!(v.target_trunks, vec!["a".to_string(), "b".to_string()]);
    assert!(!v.is_active);
}

#[test]
fn cdr_view_writes_rfc3339_times() {
    let row = CdrRow {
        id: 1,
        call_id: "c-1".into(),
        tenant_id: Some(2),
        direction: None,
        status: Some("answered".into()),
        from_number: Some("1001".into()),
        to_number: None,
        started_at_ms: Some(0),
        ended_at_ms: None,
        duration_secs: None,
        recording_url: None,
    };
    let v = cdr_view_from_row(&row);
    assert_eq!(v.started_at.as_deref(), Some("1970-01-01T00:00:00+00:00"));
    assert_eq!(v.ended_at, None);
    assert_eq!(v.direction, "");
    assert_eq!(v.duration_secs, 0);
}

#[test]
fn spec_acl_and_extension_views_take_defaults() {
    let row = SpecRow { id: 4, name: "q".into(), tenant_id: None, description: None, is_active: None, spec: None };
    assert_eq!(queue_view_from_row(&row).spec, "null");
    assert!(ivr_view_from_row(&row).is_active);
    let acl = acl_view_from_row(&AclRow { id: 5, tenant_id: None, action: None, target: None, priority: None, is_active: None });
    assert_eq!((acl.action.as_str(), acl.priority, acl.is_active), ("", 100, true));
    let ext = extension_view_from_row(&ExtensionRow {
        id: 6,
        extension: "1001".into(),
        tenant_id: Some(1),
        display_name: None,
        email: None,
        status: None,
        login_disabled: None,
        voicemail_disabled: Some(true),
        allow_guest_calls: None,
        call_forwarding_mode: None,
        call_forwarding_destination: None,
        call_forwarding_timeout: Some(30),
    });
    assert!(!ext.login_disabled && ext.voicemail_disabled && !ext.allow_guest_calls);
    assert_eq!(ext.call_forwarding_timeout, Some(30));
}
