use std::cell::RefCell;
use hook_raft::config::Settings;
use hook_raft::error::Error;
use hook_raft::hook::Hook;
use hook_raft::hook::TestHook;
use hook_raft::io_msg::AppendTermInput;
use hook_raft::io_msg::AppendTermResult;
use hook_raft::log_entry::Term;
use hook_raft::node::Node;
use hook_raft::node::NextIndex;
use hook_raft::status::EStatus;
use hook_raft::status::Status;
use hook_raft::url::Url;

fn entry(id: usize, content: &str) -> Term {
    Term { id, timestamp: String::new(), content: content.to_string() }
}

fn get_simple_follower(leader_url: String) -> Node<TestHook> {
    let settings = Settings {
        follower: false,
        nodes: vec![leader_url.clone()],
        ..Settings::default()
    };
    let mut node = Node::new_with_settings(settings, TestHook { pre_append_terms: vec![1] });
    node.p_status = Status::follower(Url::new(leader_url));
    node
}

#[test]
fn tests_append_term() {
    let leader_url = String::from("10.10.10.10:1212");
    let mut node = get_simple_follower(leader_url.clone());
    let _ = node
        .receive_append_term(AppendTermInput {
            term: entry(1, "1st term"),
            leader_id: leader_url,
            prev_term: entry(1, "1st term"),
            entries: vec![],
            leader_commit_index: 0,
        })
        .unwrap();

    let curr_term: Term = node.logs.current_term();

    // the node is a follower so it should have accepted the term
    // and current term id is 1
    assert_eq!(curr_term.id, 1)
}

#[test]
fn case_one_false() {
    let leader_url = String::from("10.10.10.10:1212");
    let mut node = get_simple_follower(leader_url.clone());

    let res1 = node
        .receive_append_term(AppendTermInput {
            term: entry(3, "3rd term"),
            leader_id: leader_url.clone(),
            prev_term: entry(1, "1st term"),
            entries: vec![entry(2, "2nd term")],
            leader_commit_index: 0,
        })
        .unwrap();

    assert!(res1.success);
}

#[test]
fn case_one_false_setup_failure() {
    // a gap between term 1 and 3: the entry-count check must refuse
    let leader_url = String::from("10.10.10.10:1212");
    let mut node = get_simple_follower(leader_url.clone());

    let res1 = node
        .receive_append_term(AppendTermInput {
            term: entry(3, "3rd term"),
            leader_id: leader_url.clone(),
            prev_term: entry(1, "1st term"),
            entries: vec![/* missing term 2 */],
            leader_commit_index: 0,
        })
        .unwrap();

    assert!(!res1.success)
}

#[test]
fn follower_accepts_first_entry() {
    let leader_url = String::from("10.10.10.10:1212");
    let mut node = get_simple_follower(leader_url.clone());
    let res = node
        .receive_append_term(AppendTermInput {
            term: entry(1, "a"),
            leader_id: leader_url,
            prev_term: entry(1, "a"),
            entries: vec![],
            leader_commit_index: 0,
        })
        .unwrap();
    assert!(res.success);
    assert_eq!(node.logs.current_term().id, 1);
}

#[test]
fn log_inconsistency_rejection() {
    // an empty log offered term 3 over prev 1 with no entries in
    // between: one entry was expected, none came
    let leader_url = String::from("10.10.10.10:1212");
    let mut node = get_simple_follower(leader_url.clone());
    let res = node
        .receive_append_term(AppendTermInput {
            term: entry(3, "c"),
            leader_id: leader_url,
            prev_term: entry(1, "a"),
            entries: vec![],
            leader_commit_index: 0,
        })
        .unwrap();
    assert!(!res.success);
}

#[test]
fn unsorted_entries_are_normalized() {
    let leader_url = String::from("10.10.10.10:1212");
    let settings = Settings { nodes: vec![leader_url.clone()], ..Settings::default() };
    let mut node = Node::new_with_settings(settings, TestHook { pre_append_terms: vec![100] });
    node.p_status = Status::follower(Url::new(leader_url.clone()));
    let prev = entry(2, "two");
    node.logs.insert(&entry(1, "one"));
    node.logs.insert(&prev);
    let res = node
        .receive_append_term(AppendTermInput {
            term: entry(5, "five"),
            leader_id: leader_url,
            prev_term: prev,
            entries: vec![entry(4, "four"), entry(3, "three")],
            leader_commit_index: 0,
        })
        .unwrap();
    assert!(res.success);
    assert_eq!(node.logs.find(3).unwrap().content, "three");
    assert_eq!(node.logs.find(4).unwrap().content, "four");
    assert_eq!(node.logs.find(5).unwrap().content, "five");
}

#[test]
fn stale_term_is_rejected() {
    let leader_url = String::from("10.10.10.10:1212");
    let mut node = get_simple_follower(leader_url.clone());
    node.logs.insert(&entry(1, "one"));
    node.logs.insert(&entry(2, "two"));
    let res = node
        .receive_append_term(AppendTermInput {
            term: entry(1, "one"),
            leader_id: leader_url,
            prev_term: entry(1, "one"),
            entries: vec![],
            leader_commit_index: 0,
        })
        .unwrap();
    assert!(!res.success);
    assert_eq!(res.current_term.id, 2);
}

struct RecordingHook {
    committed: RefCell<Vec<usize>>,
}

impl Hook for RecordingHook {
    fn update_node(&self) -> bool {
        true
    }
    fn pre_append_term(&self, term: &Term) -> Option<usize> {
        Some(term.id)
    }
    fn append_term(&self, _term: &Term) -> bool {
        true
    }
    fn commit_term(&self, term: &Term) -> bool {
        self.committed.borrow_mut().push(term.id);
        true
    }
    fn prepare_term(&self) -> String {
        "default".to_string()
    }
    fn retreive_term(&self, _index: usize) -> Option<Term> {
        None
    }
    fn retreive_terms(&self, _from: usize, _to: usize) -> Option<Vec<Term>> {
        None
    }
    fn switch_status(&self, _status: EStatus) {}
}

#[test]
fn quorum_commit() {
    // a leader with three peers, each confirming term 5: the commit
    // index advances to 5 and the hook commits entries 1..=5 in order
    let peers =
        vec!["10.0.0.1:3000".to_string(), "10.0.0.2:3000".to_string(), "10.0.0.3:3000".to_string()];
    let settings = Settings { nodes: peers.clone(), ..Settings::default() };
    let hook = RecordingHook { committed: RefCell::new(Vec::new()) };
    let mut node = Node::new_with_settings(settings, hook);
    node.p_status = Status::leader();
    for i in 1..=5usize {
        node.logs.insert(&entry(i, "payload"));
    }
    for peer in &peers {
        let reply = AppendTermResult { current_term: node.logs.find(5).unwrap(), success: true };
        let react = node.manage_append_term_result(Url::new(peer.clone()), reply).unwrap();
        assert!(matches!(react, hook_raft::leader::ReactResult::Continue));
    }
    node.increment_commit_term();
    assert_eq!(node.logs.commit_index(), 5);
    assert_eq!(*node.hook.committed.borrow(), vec![1, 2, 3, 4, 5]);
}

#[test]
fn quorum_target_takes_the_largest_majority_id() {
    let peers =
        vec!["10.0.0.1:3000".to_string(), "10.0.0.2:3000".to_string(), "10.0.0.3:3000".to_string()];
    let settings = Settings { nodes: peers.clone(), ..Settings::default() };
    let mut node = Node::new_with_settings(settings, TestHook::default());
    node.next_indexes.set(Url::new(peers[0].clone()), NextIndex::Validated(5));
    node.next_indexes.set(Url::new(peers[1].clone()), NextIndex::Validated(3));
    node.next_indexes.set(Url::new(peers[2].clone()), NextIndex::Pending(9));
    // ids vouched for: 5, 3, 1; only 3 and 1 have a strict majority
    assert_eq!(node.quorum_commit_target(), 3);
}

#[test]
fn reply_from_a_peer_ahead_makes_us_follow_it() {
    let peers = vec!["10.0.0.1:3000".to_string()];
    let settings = Settings { nodes: peers.clone(), ..Settings::default() };
    let mut node = Node::new_with_settings(settings, TestHook::default());
    node.p_status = Status::leader();
    node.logs.insert(&entry(1, "one"));
    let reply = AppendTermResult { current_term: entry(9, "ahead"), success: false };
    let react = node.manage_append_term_result(Url::new(peers[0].clone()), reply).unwrap();
    assert!(matches!(react, hook_raft::leader::ReactResult::Break));
    assert!(node.p_status.is_follower());
    assert_eq!(node.p_status.get_leader().unwrap().as_string(), "10.0.0.1:3000");
}

#[test]
fn failed_reply_asks_for_a_retry() {
    let peers = vec!["10.0.0.1:3000".to_string()];
    let settings = Settings { nodes: peers.clone(), ..Settings::default() };
    let mut node = Node::new_with_settings(settings, TestHook::default());
    node.p_status = Status::leader();
    node.logs.insert(&entry(1, "one"));
    node.logs.insert(&entry(2, "two"));
    let reply = AppendTermResult { current_term: node.logs.find(1).unwrap(), success: false };
    let react = node.manage_append_term_result(Url::new(peers[0].clone()), reply).unwrap();
    assert!(matches!(react, hook_raft::leader::ReactResult::Retry));
    assert_eq!(node.next_indexes.get(&Url::new(peers[0].clone())), Some(NextIndex::Validated(1)));
}

#[test]
fn create_term_input_sends_the_next_entry() {
    let peer = "10.0.0.1:3000".to_string();
    let settings = Settings { nodes: vec![peer.clone()], ..Settings::default() };
    let mut node = Node::new_with_settings(settings, TestHook::default());
    node.p_status = Status::leader();
    for i in 1..=4usize {
        node.logs.insert(&entry(i, "payload"));
    }
    node.next_indexes.set(Url::new(peer.clone()), NextIndex::Validated(2));
    let input = node.create_term_input(&Url::new(peer)).unwrap();
    assert_eq!(input.prev_term.id, 2);
    assert_eq!(input.term.id, 3);
    assert_eq!(input.entries.len(), 0);
    assert_eq!(input.leader_commit_index, 0);
}

#[test]
fn create_term_input_heartbeat_when_up_to_date() {
    let peer = "10.0.0.1:3000".to_string();
    let settings = Settings { nodes: vec![peer.clone()], ..Settings::default() };
    let mut node = Node::new_with_settings(settings, TestHook::default());
    node.p_status = Status::leader();
    for i in 1..=4usize {
        node.logs.insert(&entry(i, "payload"));
    }
    node.next_indexes.set(Url::new(peer.clone()), NextIndex::Validated(4));
    let input = node.create_term_input(&Url::new(peer)).unwrap();
    assert_eq!(input.prev_term.id, 4);
    assert_eq!(input.term.id, 4);
    assert_eq!(input.entries.len(), 0);
}

#[test]
fn create_term_input_fails_without_a_source() {
    // the cursor names id 7, the log is empty and the hook retrieves
    // nothing: the hook broke its contract
    let peer = "10.0.0.1:3000".to_string();
    let settings = Settings { nodes: vec![peer.clone()], ..Settings::default() };
    let mut node = Node::new_with_settings(settings, TestHook::default());
    node.p_status = Status::leader();
    node.next_indexes.set(Url::new(peer.clone()), NextIndex::Validated(7));
    let res = node.create_term_input(&Url::new(peer));
    assert!(matches!(res, Err(Error::HookContractViolation(_))));
}

#[test]
fn committed_conn_entry_admits_the_peer() {
    let settings = Settings::default();
    let mut node = Node::new_with_settings(settings, TestHook::default());
    node.logs.insert(&entry(1, "conn:10.9.9.9:4000"));
    node.commit_entries(1);
    assert_eq!(node.logs.commit_index(), 1);
    assert!(node.node_list.contains(&"10.9.9.9:4000".to_string()));
}

#[test]
fn committed_conn_entry_skips_the_node_itself() {
    let settings = Settings::default();
    let mut node = Node::new_with_settings(settings, TestHook::default());
    // the default node is 127.0.0.1:3000
    node.logs.insert(&entry(1, "conn:127.0.0.1:3000"));
    node.commit_entries(1);
    assert_eq!(node.logs.commit_index(), 1);
    assert!(node.node_list.is_empty());
}

#[test]
fn term_preparation_builds_conn_entries_first() {
    let peer = "10.0.0.1:3000".to_string();
    let settings = Settings { nodes: vec![peer], ..Settings::default() };
    let mut node = Node::new_with_settings(settings, TestHook::default());
    node.p_status = Status::leader();
    node.waiting_nodes.push("10.9.9.9:4000".to_string());
    let stop = node.term_preparation();
    assert!(!stop);
    assert!(node.waiting_nodes.is_empty());
    assert_eq!(node.logs.find(1).unwrap().content, "conn:10.9.9.9:4000");
    // a follower's tick stops the loop
    node.p_status = Status::follower(Url::new("10.0.0.1:3000".to_string()));
    assert!(node.term_preparation());
}

#[test]
fn a_second_reply_updates_the_peer_cursor_in_place() {
    let peer = "10.0.0.1:3000".to_string();
    let settings = Settings { nodes: vec![peer.clone()], ..Settings::default() };
    let mut node = Node::new_with_settings(settings, TestHook::default());
    node.p_status = Status::leader();
    for i in 1..=3usize {
        node.logs.insert(&entry(i, "payload"));
    }
    let target = Url::new(peer.clone());
    let r1 = AppendTermResult { current_term: node.logs.find(2).unwrap(), success: true };
    node.manage_append_term_result(target, r1).unwrap();
    assert_eq!(node.next_indexes.len(), 1);
    assert_eq!(node.next_indexes.get(&Url::new(peer.clone())), Some(NextIndex::Validated(2)));
    let target = Url::new(peer.clone());
    let r2 = AppendTermResult { current_term: node.logs.find(3).unwrap(), success: true };
    node.manage_append_term_result(target, r2).unwrap();
    assert_eq!(node.next_indexes.len(), 1);
    assert_eq!(node.next_indexes.get(&Url::new(peer)), Some(NextIndex::Validated(3)));
}

#[test]
fn a_mismatched_reply_steps_the_cursor_back() {
    let peer = "10.0.0.1:3000".to_string();
    let settings = Settings { nodes: vec![peer.clone()], ..Settings::default() };
    let mut node = Node::new_with_settings(settings, TestHook::default());
    node.p_status = Status::leader();
    for i in 1..=3usize {
        node.logs.insert(&entry(i, "payload"));
    }
    let reply = AppendTermResult { current_term: entry(2, "divergent"), success: false };
    let react = node.manage_append_term_result(Url::new(peer.clone()), reply).unwrap();
    assert!(matches!(react, hook_raft::leader::ReactResult::Retry));
    assert_eq!(node.next_indexes.get(&Url::new(peer)), Some(NextIndex::Pending(1)));
}


#[test]
fn hook_rejection_still_turns_the_node_into_a_follower() {
    // the input checks pass, then the hook reports missing entries:
    // the reply refuses, but the node already follows the sender and
    // asked for a fresh heartbeat countdown
    let leader_url = String::from("10.10.10.10:1212");
    let settings = Settings { nodes: vec![leader_url.clone()], ..Settings::default() };
    let mut node = Node::new_with_settings(settings, TestHook { pre_append_terms: vec![0] });
    node.p_status = Status::candidate();
    let res = node
        .receive_append_term(AppendTermInput {
            term: entry(1, "a"),
            leader_id: leader_url.clone(),
            prev_term: entry(1, "a"),
            entries: vec![],
            leader_commit_index: 0,
        })
        .unwrap();
    assert!(!res.success);
    assert!(node.p_status.is_follower());
    assert_eq!(node.p_status.get_leader().unwrap().as_string(), leader_url);
    assert!(node.heartbeat_reset);
}

#[test]
fn commit_stops_at_the_first_gap() {
    let settings = Settings::default();
    let mut node = Node::new_with_settings(settings, TestHook::default());
    node.logs.insert(&entry(1, "one"));
    node.logs.insert(&entry(3, "three"));
    node.commit_entries(3);
    assert_eq!(node.logs.commit_index(), 1);
    assert!(node.logs.find(3).is_some());
}
