use rustpbx::raft::log_store::{LogId, LogStore};

fn id(index: u64) -> LogId {
    LogId { term: 1, node_id: 1, index }
}

#[test]
fn append_truncate_purge_and_state() {
    let mut s: LogStore<&str, u64> = LogStore::new();
    assert_eq!(s.get_log_state().last_log_id, None);
    s.append(vec![(id(1), "a"), (id(2), "b"), (id(3), "c"), (id(2), "b2")]);
    assert_eq!(s.len(), 3);
    assert_eq!(s.entry(1).1, "b2", "a later entry replaces one at the same index");
    assert_eq!(s.entries_between(2, None), (1, 3));
    assert_eq!(s.entries_between(1, Some(3)), (0, 2));
    s.truncate(id(3));
    assert_eq!(s.len(), 2);
    assert_eq!(s.get_log_state().last_log_id, Some(id(2)));
    s.purge(id(2));
    assert_eq!(s.len(), 0);
    let st = s.get_log_state();
    assert_eq!((st.last_purged_log_id, st.last_log_id), (Some(id(2)), Some(id(2))));
    s.save_vote(7);
    assert_eq!(s.read_vote(), Some(&7));
    s.save_committed(Some(id(2)));
    assert_eq!(s.read_committed(), Some(id(2)));
}
