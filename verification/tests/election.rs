use hook_raft::config::Settings;
use hook_raft::error::Error;
use hook_raft::hook::TestHook;
use hook_raft::io_msg::RequestVoteInput;
use hook_raft::io_msg::UpdateNodeResult;
use hook_raft::log_entry::Term;
use hook_raft::node::Node;
use hook_raft::node::NodeInfo;
use hook_raft::status::Status;
use hook_raft::url::Url;

fn entry(id: usize, content: &str) -> Term {
    Term { id, timestamp: String::new(), content: content.to_string() }
}

fn vote_input(candidate: &str, term_id: usize, last_term: usize) -> RequestVoteInput {
    RequestVoteInput {
        candidate_id: candidate.to_string(),
        term: entry(term_id, "candidature"),
        last_term,
    }
}

#[test]
fn vote_once_per_election() {
    // two candidates with the same last term: the first is granted,
    // the second refused, and the first is granted again on re-request
    let mut node = Node::new_with_settings(Settings::default(), TestHook::default());
    let first = node.receive_request_vote(vote_input("10.0.0.1:3000", 1, 0));
    assert!(first.vote_granted);
    let second = node.receive_request_vote(vote_input("10.0.0.2:3000", 1, 0));
    assert!(!second.vote_granted);
    let again = node.receive_request_vote(vote_input("10.0.0.1:3000", 1, 0));
    assert!(again.vote_granted);
}

#[test]
fn vote_for_a_longer_log_wins_over_a_recorded_vote() {
    let mut node = Node::new_with_settings(Settings::default(), TestHook::default());
    let first = node.receive_request_vote(vote_input("10.0.0.1:3000", 1, 0));
    assert!(first.vote_granted);
    let longer = node.receive_request_vote(vote_input("10.0.0.2:3000", 1, 3));
    assert!(longer.vote_granted);
}

#[test]
fn stale_candidature_is_refused() {
    let mut node = Node::new_with_settings(Settings::default(), TestHook::default());
    node.logs.insert(&entry(1, "one"));
    node.logs.insert(&entry(2, "two"));
    let res = node.receive_request_vote(vote_input("10.0.0.1:3000", 1, 9));
    assert!(!res.vote_granted);
    assert_eq!(res.current_term.id, 2);
}

#[test]
fn first_vote_requires_the_commit_index() {
    let mut node = Node::new_with_settings(Settings::default(), TestHook::default());
    for i in 1..=3usize {
        node.logs.insert(&entry(i, "x"));
    }
    node.logs.set_commit(1);
    node.logs.set_commit(2);
    let behind = node.receive_request_vote(vote_input("10.0.0.1:3000", 5, 1));
    assert!(!behind.vote_granted);
    let level = node.receive_request_vote(vote_input("10.0.0.1:3000", 5, 2));
    assert!(level.vote_granted);
}

#[test]
fn role_transition_table() {
    // pending -> leader is not in the table
    let mut s = Status::connection_pending();
    assert!(matches!(s.switch_to_leader(), Err(Error::WrongStatus)));
    // pending -> candidate -> leader -> follower walks the table
    assert!(s.switch_to_candidate().is_ok());
    assert!(s.switch_to_leader().is_ok());
    assert!(s.switch_to_follower(Url::new("10.0.0.1:3000".to_string())).is_ok());
    // follower -> leader is not in the table
    assert!(matches!(s.switch_to_leader(), Err(Error::WrongStatus)));
    // follower -> follower is not in the table either
    assert!(matches!(
        s.switch_to_follower(Url::new("10.0.0.2:3000".to_string())),
        Err(Error::WrongStatus)
    ));
    // follower -> candidate -> follower is
    assert!(s.switch_to_candidate().is_ok());
    assert!(s.switch_to_follower(Url::new("10.0.0.1:3000".to_string())).is_ok());
    assert!(s.is_follower());
    assert_eq!(s.get_leader().unwrap().as_string(), "10.0.0.1:3000");
}

#[test]
fn leader_may_step_down_to_candidate() {
    let mut s = Status::leader();
    assert!(s.switch_to_candidate().is_ok());
    assert!(s.is_candidate());
    // candidate -> candidate is refused
    assert!(matches!(s.switch_to_candidate(), Err(Error::WrongStatus)));
}

#[test]
fn single_node_leader_bootstrap() {
    // a node with no seeds and follower = false walks
    // pending -> candidate -> leader and then produces entries
    let settings = Settings { nodes: vec![], follower: false, ..Settings::default() };
    let mut node = Node::new_with_settings(settings, TestHook::default());
    assert!(node.check_initial_status().is_ok());
    node.after_connect(false).unwrap();
    assert!(node.p_status.is_candidate());
    let (commit_index, candidature) = node.begin_candidature().expect("a fresh node campaigns");
    assert_eq!(commit_index, 0);
    assert_eq!(candidature.id, 1);
    assert_eq!(candidature.content, "candidature");
    let won = node.candidature_won(0);
    assert!(won);
    let rerun = node.finish_candidature(won).unwrap();
    assert!(!rerun);
    assert!(node.p_status.is_leader());
    // the term-preparation loop produces entries
    assert!(!node.term_preparation());
    assert!(!node.term_preparation());
    assert_eq!(node.logs.last_index(), 3);
}

#[test]
fn candidature_abstains_behind_a_recorded_vote() {
    let mut node = Node::new_with_settings(Settings::default(), TestHook::default());
    node.vote_for = Some(("10.0.0.9:3000".to_string(), 4));
    assert!(node.begin_candidature().is_none());
}

#[test]
fn lost_round_runs_again_unless_following() {
    let settings = Settings { nodes: vec!["10.0.0.1:3000".to_string()], ..Settings::default() };
    let mut node = Node::new_with_settings(settings, TestHook::default());
    node.p_status = Status::candidate();
    let rerun = node.finish_candidature(false).unwrap();
    assert!(rerun);
    assert!(node.vote_for.is_none());
    node.p_status = Status::follower(Url::new("10.0.0.1:3000".to_string()));
    let rerun2 = node.finish_candidature(false).unwrap();
    assert!(!rerun2);
}

#[test]
fn test_initialize_success() {
    let settings = Settings {
        follower: false,
        nodes: vec!["10.10.10.10:1212".to_string()],
        ..Settings::default()
    };
    let mut node = Node::new_with_settings(settings, TestHook::default());
    assert!(node.check_initial_status().is_ok());
    // the seed answered and named itself leader
    let res = node.update(UpdateNodeResult {
        leader_id: "10.10.10.10:1212".to_string(),
        node_list: vec![],
    });
    assert!(res.is_ok());
    assert!(node.p_status.is_follower());
    // initialization may only run while pending
    assert!(matches!(node.check_initial_status(), Err(Error::WrongStatus)));
}

#[test]
fn leader_queues_joiners() {
    let settings = Settings { nodes: vec!["10.0.0.1:3000".to_string()], ..Settings::default() };
    let mut node = Node::new_with_settings(settings, TestHook::default());
    node.p_status = Status::leader();
    let res = node
        .receive_connection_request(NodeInfo { hash: [7u8; 16], addr: "10.9.9.9:4000".to_string() })
        .expect("the test hook admits joiners");
    assert_eq!(res.leader_id, "127.0.0.1:3000");
    assert_eq!(res.node_list, vec!["10.0.0.1:3000".to_string()]);
    assert_eq!(node.waiting_nodes, vec!["10.9.9.9:4000".to_string()]);
}

#[test]
fn follower_names_its_leader_to_joiners() {
    let mut node = Node::new_with_settings(Settings::default(), TestHook::default());
    node.p_status = Status::follower(Url::new("10.0.0.1:3000".to_string()));
    let res = node
        .receive_connection_request(NodeInfo { hash: [7u8; 16], addr: "10.9.9.9:4000".to_string() })
        .expect("the test hook admits joiners");
    assert_eq!(res.leader_id, "10.0.0.1:3000");
    assert!(node.waiting_nodes.is_empty());
}

#[test]
fn quorum_loss_ends_the_lead() {
    let peers = vec![
        "10.0.0.1:3000".to_string(),
        "10.0.0.2:3000".to_string(),
        "10.0.0.3:3000".to_string(),
    ];
    let settings = Settings { nodes: peers, ..Settings::default() };
    let mut node = Node::new_with_settings(settings, TestHook::default());
    node.p_status = Status::leader();
    let stop = node.leader_round_end(2).unwrap();
    assert!(stop);
    assert!(node.p_status.is_candidate());
    // one failure out of three is tolerated
    let mut node2 = Node::new_with_settings(
        Settings {
            nodes: vec![
                "10.0.0.1:3000".to_string(),
                "10.0.0.2:3000".to_string(),
                "10.0.0.3:3000".to_string(),
            ],
            ..Settings::default()
        },
        TestHook::default(),
    );
    node2.p_status = Status::leader();
    let stop2 = node2.leader_round_end(1).unwrap();
    assert!(!stop2);
    assert!(node2.p_status.is_leader());
}
