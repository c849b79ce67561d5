use rustpbx::settings::{
    base_domain_from, choose_stun_servers, clean_stun_servers, config_version_from, next_config_version,
    notified_version, recording_policy_from, seed_base_domain, stun_servers_from, stun_servers_json, version_advance,
};
use rustpbx::stun::default_stun_servers;

#[test]
fn config_version_reads_number_or_zero() {
    assert_eq!(config_version_from(Some("42".into())), 42);
    assert_eq!(config_version_from(Some("x".into())), 0);
    assert_eq!(config_version_from(None), 0);
    assert_eq!(next_config_version(41), 42);
    assert_eq!(next_config_version(u64::MAX), u64::MAX);
}

#[test]
fn broadcasts_when_external_config_version_advances() {
    let mut observed = config_version_from(None);
    let bumped = next_config_version(observed);
    let announced = version_advance(observed, bumped);
    assert_eq!(announced, Some(bumped));
    observed = announced.unwrap();
    assert_eq!(version_advance(observed, bumped), None);
    assert_eq!(notified_version("17"), Some(17));
    assert_eq!(notified_version("not-a-number"), None);
}

#[test]
fn stun_servers_fall_back_to_defaults() {
    assert_eq!(stun_servers_from(None), default_stun_servers());
    assert_eq!(stun_servers_from(Some("not json".into())), default_stun_servers());
    assert_eq!(stun_servers_from(Some("[\"  \"]".into())), default_stun_servers());
    assert_eq!(stun_servers_from(Some("[\"stun.example.org:3478\"]".into())), vec!["stun.example.org:3478".to_string()]);
    assert_eq!(choose_stun_servers(vec![]), default_stun_servers());
}

#[test]
fn stun_servers_store_as_json_and_read_back() {
    let cleaned = clean_stun_servers(&[" a:1 ".to_string(), "  ".to_string(), "b:2".to_string()]);
    assert_eq!(cleaned, vec!["a:1".to_string(), "b:2".to_string()]);
    let json = stun_servers_json(&cleaned).unwrap();
    assert_eq!(json, "[\"a:1\",\"b:2\"]");
    assert_eq!(stun_servers_from(Some(json)), cleaned);
}

#[test]
fn base_domain_and_policy_entries() {
    assert_eq!(base_domain_from(None), "");
    assert_eq!(base_domain_from(Some("pbx.example.com".into())), "pbx.example.com");
    assert_eq!(recording_policy_from(Some("  ".into())), None);
    assert_eq!(recording_policy_from(Some("{}".into())), Some("{}".to_string()));
    assert_eq!(seed_base_domain("  pbx.example.com ", &None), Some("pbx.example.com".to_string()));
    assert_eq!(seed_base_domain("pbx.example.com", &Some("edited.example.com".into())), None);
    assert_eq!(seed_base_domain("   ", &None), None);
}
