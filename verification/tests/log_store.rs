use hook_raft::config::Settings;
use hook_raft::hook::DefaultHook;
use hook_raft::hook::Hook;
use hook_raft::io_msg::UpdateNodeInput;
use hook_raft::log_entry::Entries;
use hook_raft::log_entry::Term;
use hook_raft::node::decode_conn_entry;
use hook_raft::node::encode_conn_entry;
use hook_raft::node::NextIndex;
use hook_raft::url::Url;

fn entry(id: usize, content: &str) -> Term {
    Term { id, timestamp: String::new(), content: content.to_string() }
}

#[test]
fn insert_then_find_returns_the_entry() {
    let mut e = Entries::new();
    let t = entry(1, "first");
    e.insert(&t);
    assert!(e.contains(&t));
    let found = e.find(1).expect("entry 1 must be stored");
    assert_eq!(found, t);
    assert_eq!(e.last_index(), 1);
    assert_eq!(e.current_term(), t);
}

#[test]
fn conflict_rollback() {
    // a follower stores entries 1, 2, 3; the leader sends a different
    // entry at id 2: it replaces id 2 and truncates id 3
    let mut e = Entries::new();
    e.insert(&entry(1, "one"));
    e.insert(&entry(2, "two"));
    e.insert(&entry(3, "three"));
    let different = entry(2, "different");
    e.insert(&different);
    assert_eq!(e.find(2).unwrap(), different);
    assert!(e.find(3).is_none());
    assert_eq!(e.last_index(), 2);
}

#[test]
fn commit_index_is_monotone() {
    let mut e = Entries::new();
    e.insert(&entry(1, "one"));
    e.insert(&entry(2, "two"));
    assert_eq!(e.commit_index(), 0);
    e.set_commit(1);
    assert_eq!(e.commit_index(), 1);
    // re-committing an old index is ignored
    e.set_commit(1);
    assert_eq!(e.commit_index(), 1);
    e.set_commit(0);
    assert_eq!(e.commit_index(), 1);
    // committing an unknown index is ignored
    e.set_commit(99);
    assert_eq!(e.commit_index(), 1);
    e.set_commit(2);
    assert_eq!(e.commit_index(), 2);
}

#[test]
fn committed_entries_are_evicted() {
    let mut e = Entries::new();
    e.insert(&entry(1, "one"));
    e.set_commit(1);
    assert!(e.find(1).is_none());
    assert_eq!(e.commit_index(), 1);
}

#[test]
fn check_commit_bounds() {
    let mut e = Entries::new();
    e.insert(&entry(1, "one"));
    e.insert(&entry(2, "two"));
    e.set_commit(1);
    assert!(!e.check_commit(1));
    assert!(e.check_commit(2));
    assert!(!e.check_commit(3));
}

#[test]
fn latest_synthesizes_a_default_entry() {
    let mut e = Entries::new();
    let (created, t) = e.latest();
    assert!(created);
    assert_eq!(t.id, 1);
    assert_eq!(t.content, "default");
    let (created_again, t2) = e.latest();
    assert!(!created_again);
    assert_eq!(t2.id, 1);
}

#[test]
fn append_allocates_dense_ids() {
    let mut e = Entries::new();
    let t1 = e.append("a".to_string());
    let t2 = e.append("b".to_string());
    assert_eq!(t1.id, 1);
    assert_eq!(t2.id, 2);
    assert_eq!(e.last_index(), 2);
    assert_eq!(e.find(1).unwrap().content, "a");
    assert_eq!(e.find(2).unwrap().content, "b");
}

#[test]
fn conn_entry_round_trip() {
    let addr = "10.0.0.7:4000".to_string();
    let content = encode_conn_entry(&addr);
    assert_eq!(content, "conn:10.0.0.7:4000");
    let decoded = decode_conn_entry(&content).expect("a membership entry must decode");
    assert_eq!(decoded, addr);
    assert!(decode_conn_entry(&"payload".to_string()).is_none());
    assert!(decode_conn_entry(&"conn".to_string()).is_none());
}

#[test]
fn url_get_port() {
    let url = Url::new("127.0.0.1:3000".to_string());
    assert_eq!(url.get_port(), "3000");
    assert_eq!(url.as_string(), "127.0.0.1:3000");
    // the port is the segment between the first and second colon
    let longer = Url::new("host:8080:extra".to_string());
    assert_eq!(longer.get_port(), "8080");
}

#[test]
fn settings_defaults() {
    let s = Settings::default();
    assert_eq!(s.addr, "127.0.0.1");
    assert_eq!(s.port, "3000");
    assert!(s.nodes.is_empty());
    assert!(!s.follower);
    assert_eq!(s.timeout_min, 150);
    assert_eq!(s.timeout_max, 300);
    assert_eq!(s.response_timeout, 20);
    assert_eq!(s.prepare_term_period, 80);
    assert_eq!(s.node_id, "");
}

#[test]
fn randomized_timeout_stays_in_range() {
    let s = Settings::default();
    let mut i: usize = 0;
    while i < 100 {
        let d = s.get_randomized_timeout();
        assert!(150 <= d && d <= 300);
        i += 1;
    }
    let tight = Settings { timeout_min: 42, timeout_max: 42, ..Settings::default() };
    assert_eq!(tight.get_randomized_timeout(), 42);
}

#[test]
fn next_index_accessors() {
    assert_eq!(NextIndex::Validated(7).unwrap(), 7);
    assert_eq!(NextIndex::Pending(7).unwrap(), 7);
    assert_eq!(NextIndex::Validated(7).validated(), 7);
    assert_eq!(NextIndex::Pending(7).validated(), 1);
}

#[test]
fn update_node_input_compares_by_hash() {
    let a = UpdateNodeInput { hash: [3u8; 16], port: "1".to_string() };
    let b = UpdateNodeInput { hash: [3u8; 16], port: "2".to_string() };
    let c = UpdateNodeInput { hash: [4u8; 16], port: "1".to_string() };
    assert!(a == b);
    assert!(a != c);
}

#[test]
fn default_hook_answers_defaults() {
    let hook = DefaultHook;
    assert!(hook.update_node());
    let t = entry(4, "x");
    assert_eq!(hook.pre_append_term(&t), Some(4));
    assert!(hook.append_term(&t));
    assert!(hook.commit_term(&t));
    assert_eq!(hook.prepare_term(), "default");
    let r = hook.retreive_term(9).unwrap();
    assert_eq!(r.id, 9);
    assert_eq!(r.content, "default");
    let many = hook.retreive_terms(2, 5).unwrap();
    assert_eq!(many.len(), 4);
    assert_eq!(many[0].id, 2);
    assert_eq!(many[3].id, 5);
    assert!(hook.retreive_terms(5, 2).unwrap().is_empty());
}

#[test]
fn conn_entry_with_empty_address() {
    let content = "conn:".to_string();
    assert_eq!(decode_conn_entry(&content), Some(String::new()));
}
