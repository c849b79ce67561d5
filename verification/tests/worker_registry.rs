use rustpbx::worker_registry::{WorkerEntry, WorkerRegistry};

fn worker(id: &str, max: u32, active: u32, at_ms: i64) -> WorkerEntry {
    WorkerEntry {
        worker_id: id.into(),
        sip_addr: format!("{id}.internal:5060"),
        rtp_external_ip: "203.0.113.9".into(),
        rtp_start_port: 20000,
        rtp_end_port: 30000,
        max_concurrent: max,
        active_calls: active,
        cpu_usage_bits: 0.25f32.to_bits(),
        registered_at_ms: at_ms,
        last_heartbeat_ms: at_ms,
        draining: false,
    }
}

#[test]
fn capacity_saturates_at_zero() {
    assert_eq!(worker("a", 10, 3, 0).available_capacity(), 7);
    assert_eq!(worker("a", 2, 5, 0).available_capacity(), 0);
}

#[test]
fn health_needs_a_recent_heartbeat_and_no_drain() {
    let w = worker("a", 10, 0, 1_000);
    assert!(w.is_healthy(30_000, 1_000));
    assert!(w.is_healthy(30_000, 30_999));
    assert!(!w.is_healthy(30_000, 31_000));
    assert!(w.is_healthy(30_000, 0), "a clock behind the heartbeat counts as no silence");
    let mut d = w.clone();
    d.draining = true;
    assert!(!d.is_healthy(30_000, 1_000));
}

#[test]
fn available_lists_healthy_workers_most_capacity_first() {
    let mut r = WorkerRegistry::new(30_000);
    r.register(worker("a", 10, 8, 0));
    r.register(worker("b", 10, 1, 0));
    r.register(worker("c", 10, 5, 0));
    r.register(worker("stale", 50, 0, -100_000));
    let ids: Vec<String> = r.available(1_000).into_iter().map(|w| w.worker_id).collect();
    assert_eq!(ids, vec!["b", "c", "a"]);
    assert_eq!(r.select_for_call(1_000).unwrap().worker_id, "b");
}

#[test]
fn heartbeat_drain_and_remove() {
    let mut r = WorkerRegistry::default();
    assert_eq!(r.heartbeat_timeout_ms(), 30_000);
    assert!(!r.heartbeat("ghost", 0, 0, 0, 10), "unknown worker");
    r.register(worker("a", 10, 0, 0));
    r.register(worker("b", 10, 5, 0));
    assert!(r.heartbeat("b", 0, 0.5f32.to_bits(), 12, 40_000));
    assert_eq!(r.select_for_call(40_000).unwrap().worker_id, "b", "a has gone silent");
    r.drain("b");
    assert!(r.select_for_call(40_000).is_none());
    assert!(r.heartbeat("a", 2, 0, 0, 40_000));
    let a = r.select_for_call(40_001).unwrap();
    assert_eq!((a.worker_id.as_str(), a.active_calls), ("a", 2));
    r.remove("a");
    assert!(r.select_for_call(40_001).is_none());
    assert!(r.available(40_001).is_empty());
}
