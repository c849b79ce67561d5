use rustpbx::internal::{DialStrategyKind, InternalCallContext, InternalDirection, RouteAction};

#[test]
fn roundtrip_forward() {
    let ctx = InternalCallContext {
        edge_id: "edge-1".into(),
        tenant_id: Some(42),
        trunk_name: "carrier-a".into(),
        trunk_id: Some(7),
        direction: InternalDirection::Inbound,
        action: RouteAction::Forward,
        original_from: "sip:+861390000@carrier".into(),
        original_to: "sip:1001@pbx".into(),
        targets: vec!["sip:1001@10.0.0.5:5060".into(), "sip:1002@10.0.0.6:5060".into()],
        dial_strategy: DialStrategyKind::Parallel,
        ..Default::default()
    };
    let pairs: Vec<(String, String)> = ctx.to_header_pairs().into_iter().map(|(n, v)| (n.to_string(), v)).collect();
    let ref_pairs: Vec<(&str, &str)> = pairs.iter().map(|(n, v)| (n.as_str(), v.as_str())).collect();
    let decoded = InternalCallContext::from_header_pairs(ref_pairs).expect("decode");
    assert_eq!(decoded.edge_id, "edge-1");
    assert_eq!(decoded.tenant_id, Some(42));
    assert_eq!(decoded.action, RouteAction::Forward);
    assert_eq!(decoded.targets.len(), 2);
    assert_eq!(decoded.dial_strategy, DialStrategyKind::Parallel);
}

#[test]
fn roundtrip_application() {
    let ctx = InternalCallContext {
        edge_id: "edge-1".into(),
        tenant_id: Some(42),
        trunk_name: "carrier-a".into(),
        direction: InternalDirection::Inbound,
        action: RouteAction::Application,
        original_from: "sip:+861390000@carrier".into(),
        original_to: "sip:400800@carrier".into(),
        app_name: Some("ivr-welcome".into()),
        app_params: Some("{\"lang\":\"zh\"}".to_string()),
        record: true,
        max_duration_secs: Some(3600),
        ..Default::default()
    };
    let pairs: Vec<(String, String)> = ctx.to_header_pairs().into_iter().map(|(n, v)| (n.to_string(), v)).collect();
    let ref_pairs: Vec<(&str, &str)> = pairs.iter().map(|(n, v)| (n.as_str(), v.as_str())).collect();
    let decoded = InternalCallContext::from_header_pairs(ref_pairs).expect("decode");
    assert_eq!(decoded.action, RouteAction::Application);
    assert_eq!(decoded.app_name.as_deref(), Some("ivr-welcome"));
    assert_eq!(decoded.record, true);
    assert_eq!(decoded.max_duration_secs, Some(3600));
    assert_eq!(decoded.app_params.as_deref(), Some("{\"lang\":\"zh\"}"));
}

#[test]
fn decode_without_action_returns_none() {
    let pairs = vec![("X-Edge-Id", "edge-1"), ("X-Tenant-Id", "1")];
    assert!(InternalCallContext::from_header_pairs(pairs).is_none());
}

#[test]
fn action_roundtrip() {
    for a in [RouteAction::Forward, RouteAction::Queue, RouteAction::Application] {
        assert_eq!(RouteAction::from_str(a.as_str()), Some(a));
    }
    assert!(RouteAction::from_str("unknown").is_none());
}

#[test]
fn direction_and_strategy_texts() {
    assert_eq!(InternalDirection::from_str(InternalDirection::Outbound.as_str()), Some(InternalDirection::Outbound));
    assert_eq!(InternalDirection::from_str("sideways"), None);
    assert_eq!(DialStrategyKind::from_str("parallel"), DialStrategyKind::Parallel);
    assert_eq!(DialStrategyKind::from_str("anything"), DialStrategyKind::Sequential);
}

#[test]
fn header_names_match_case_insensitively_and_bad_json_is_dropped() {
    let pairs = vec![
        ("x-route-action", "forward"),
        ("X-EDGE-ID", "edge-9"),
        ("x-trunk-name", "carrier-z"),
        ("X-App-Params", "{not json"),
    ];
    let d = InternalCallContext::from_header_pairs(pairs).expect("decode");
    assert_eq!(d.edge_id, "edge-9");
    assert_eq!(d.trunk_name, "carrier-z");
    assert_eq!(d.app_params, None);
    let missing_trunk = vec![("X-Route-Action", "forward"), ("X-Edge-Id", "edge-9")];
    assert!(InternalCallContext::from_header_pairs(missing_trunk).is_none());
}

#[test]
fn empty_fields_are_left_out_of_the_headers() {
    let ctx = InternalCallContext::default();
    let pairs = ctx.to_header_pairs();
    assert!(pairs.iter().all(|(_, v)| !v.is_empty()));
    for name in ["X-Edge-Id", "X-Trunk-Name", "X-Original-From", "X-Original-To"] {
        assert!(!pairs.iter().any(|(n, _)| *n == name), "{name} is left out when empty");
    }
    assert!(pairs.iter().any(|(n, v)| *n == "X-Route-Action" && v == "forward"));
}

#[test]
fn app_params_come_back_compact() {
    let pairs = vec![
        ("X-Route-Action", "application"),
        ("X-Edge-Id", "edge-1"),
        ("X-Trunk-Name", "carrier-a"),
        ("X-App-Params", "{ \"lang\" : \"zh\" }"),
    ];
    let d = InternalCallContext::from_header_pairs(pairs).expect("decode");
    assert_eq!(d.app_params.as_deref(), Some("{\"lang\":\"zh\"}"));
}
