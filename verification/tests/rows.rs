use rustpbx::store::rows::{route_rule_from_row, trunk_config_from_row, RouteRow, TrunkRow};

fn trunk_row() -> TrunkRow {
    TrunkRow {
        id: 7,
        name: "carrier-a".into(),
        sip_server: None,
        outbound_proxy: Some("proxy.example:5060".into()),
        sip_transport: None,
        auth_username: Some("u".into()),
        auth_password: Some("p".into()),
        direction: None,
        register_enabled: None,
        register_expires: Some(3600),
        rewrite_hostport: None,
        incoming_from_user_prefix: None,
        incoming_to_user_prefix: Some("+1".into()),
        max_cps: Some(-1),
        max_concurrent: Some(30),
        allowed_ips: Some("[\"1.2.3.4/32\",\"5.6.7.8\"]".into()),
        did_numbers: Some("not json".into()),
        register_extra_headers: Some("{\"X-A\":\"1\",\"X-B\":\"2\"}".into()),
        metadata: Some("{ \"sbc\": {\"mode\": \"edge\"} }".into()),
    }
}

#[test]
fn trunk_rows_take_defaults_and_read_their_json() {
    let t = trunk_config_from_row(&trunk_row());
    assert_eq!(t.id, Some(7));
    assert_eq!(t.dest, "proxy.example:5060");
    assert_eq!(t.backup_dest, None, "the proxy is the destination, so no backup");
    assert_eq!(t.transport.as_deref(), Some("udp"));
    assert_eq!(t.direction.as_deref(), Some("bidirectional"));
    assert_eq!(t.register_enabled, Some(false));
    assert_eq!(t.rewrite_hostport, Some(true));
    assert_eq!(t.inbound_hosts, vec!["1.2.3.4/32".to_string(), "5.6.7.8".to_string()]);
    assert!(t.did_numbers.is_empty(), "unreadable JSON reads as empty");
    assert_eq!(t.register_extra_headers.len(), 2);
    assert_eq!(t.register_extra_headers.find("X-B").map(|s| s.as_str()), Some("2"));
    assert_eq!(t.max_calls, Some(30));
    assert_eq!(t.max_cps, Some(u32::MAX), "a stored -1 is cast as the original casts it");
    assert_eq!(t.register_expires, Some(3600));
    assert_eq!(t.sbc_metadata_json.as_deref(), Some("{\"sbc\":{\"mode\":\"edge\"}}"));

    let mut plain = trunk_row();
    plain.sip_server = Some("sip.example".into());
    plain.metadata = Some("{\"region\":\"eu\"}".into());
    plain.register_extra_headers = Some("{\"X-A\":1}".into());
    let p = trunk_config_from_row(&plain);
    assert_eq!(p.dest, "sip.example");
    assert_eq!(p.backup_dest.as_deref(), Some("proxy.example:5060"));
    assert_eq!(p.sbc_metadata_json, None);
    assert_eq!(p.register_extra_headers.len(), 0, "a non-string value leaves the map empty");
}

#[test]
fn route_rows_take_defaults_targets_and_rewrites() {
    let row = RouteRow {
        name: "default".into(),
        description: Some("catch-all".into()),
        priority: None,
        direction: None,
        source_pattern: None,
        destination_pattern: Some("^9.*".into()),
        selection_strategy: None,
        hash_key: None,
        target_trunks: Some("[{\"name\":\"t1\"},{\"name\":\"t2\",\"weight\":3}]".into()),
        rewrite_rules: Some("{\"to.user\":\"1001\",\"from_user\":\"pbx\",\"to_user\":\"x\",\"headers\":{\"X-Y\":\"z\"}}".into()),
    };
    let r = route_rule_from_row(&row);
    assert_eq!((r.priority, r.direction.as_str(), r.select.as_str()), (0, "any", "rr"));
    assert!(r.auto_answer);
    assert_eq!(r.dest, vec!["t1".to_string(), "t2".to_string()]);
    assert_eq!(r.match_to_user.as_deref(), Some("^9.*"));
    let rw = r.rewrite.expect("a stored rewrite object");
    assert_eq!(rw.to_user.as_deref(), Some("1001"), "the dotted name wins");
    assert_eq!(rw.from_user.as_deref(), Some("pbx"));
    assert_eq!(rw.from_host, None);
    assert_eq!(rw.headers.find("X-Y").map(|s| s.as_str()), Some("z"));

    let bad = RouteRow { target_trunks: Some("[{\"id\":1}]".into()), rewrite_rules: None, ..row };
    let b = route_rule_from_row(&bad);
    assert!(b.dest.is_empty(), "a reference without a name leaves no targets");
    assert!(b.rewrite.is_none());

    let arrays = RouteRow {
        target_trunks: Some("[[\"a\"],{\"name\":\"b\"}]".into()),
        rewrite_rules: Some("[]".into()),
        ..bad.clone()
    };
    let a = route_rule_from_row(&arrays);
    assert_eq!(a.dest, vec!["a".to_string(), "b".to_string()], "a one-item array names a trunk too");
    let rw = a.rewrite.expect("stored rules give a rewrite");
    assert_eq!(rw.to_user, None);
    let two = RouteRow { target_trunks: Some("[[\"a\",\"b\"]]".into()), ..bad };
    assert!(route_rule_from_row(&two).dest.is_empty(), "an array reference must hold exactly one item");
}
