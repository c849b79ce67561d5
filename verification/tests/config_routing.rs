use rustpbx::config::{ControlConfig, RaftConfig};
use rustpbx::policy::{is_default_recording_type, RecordingDirection, RecordingType};
use rustpbx::routing::{ActionType, ConfigOrigin, DialDirection, RouteAction, RouteDirection, TrunkDirection};
use rustpbx::stun::default_stun_servers;

#[test]
fn control_config_defaults() {
    let c = ControlConfig::default();
    assert_eq!(c.grpc_addr, "0.0.0.0:9090");
    assert_eq!(c.http_addr, "0.0.0.0:9080");
    assert_eq!(c.heartbeat_timeout_secs, 30);
    assert_eq!(c.raft.node_id, 1);
    assert!(!c.raft.is_cluster_mode());
}

#[test]
fn raft_advertises_bind_address_unless_set() {
    let mut r = RaftConfig::default();
    r.addr = "10.0.0.1:9190".into();
    assert!(r.is_cluster_mode());
    assert_eq!(r.effective_advertise_addr(), "10.0.0.1:9190");
    r.advertise_addr = "ctl-1.internal:9190".into();
    assert_eq!(r.effective_advertise_addr(), "ctl-1.internal:9190");
    r.addr = "   ".into();
    assert!(!r.is_cluster_mode());
}

#[test]
fn trunk_and_route_directions() {
    assert!(TrunkDirection::Bidirectional.allows(&DialDirection::Inbound));
    assert!(TrunkDirection::Inbound.allows(&DialDirection::Inbound));
    assert!(!TrunkDirection::Inbound.allows(&DialDirection::Outbound));
    assert!(RouteDirection::Any.matches(&DialDirection::Internal));
    assert!(RouteDirection::Outbound.matches(&DialDirection::Outbound));
    assert!(!RouteDirection::Outbound.matches(&DialDirection::Inbound));
    assert_eq!(DialDirection::Inbound.as_str(), "inbound");
}

#[test]
fn route_action_type_resolution() {
    let mut a = RouteAction::default();
    assert_eq!(a.select, "rr");
    assert_eq!(a.get_action_type(), ActionType::Forward);
    a.queue = Some("support".into());
    assert_eq!(a.get_action_type(), ActionType::Queue);
    a.app = Some("ivr".into());
    assert_eq!(a.get_action_type(), ActionType::Application);
    a.action = Some("busy".into());
    assert_eq!(a.get_action_type(), ActionType::Busy);
    a.action = Some("whatever".into());
    assert_eq!(a.get_action_type(), ActionType::Forward);
}

#[test]
fn config_origins_and_recording() {
    assert!(matches!(ConfigOrigin::embedded(), ConfigOrigin::Embedded));
    match ConfigOrigin::from_file("/etc/trunks.toml") {
        ConfigOrigin::File(p) => assert_eq!(p, "/etc/trunks.toml"),
        _ => panic!("expected a file origin"),
    }
    assert!(RecordingDirection::Inbound.matches(&DialDirection::Inbound));
    assert!(!RecordingDirection::Inbound.matches(&DialDirection::Outbound));
    assert!(is_default_recording_type(&RecordingType::Local));
    assert!(!is_default_recording_type(&RecordingType::S3));
}

#[test]
fn default_stun_list_prefers_rfc5780_server() {
    let s = default_stun_servers();
    assert_eq!(s.len(), 3);
    assert_eq!(s[0], "stunserver.stunprotocol.org:3478");
}
