//! The node aggregate: settings, role cell, log store, peer bookkeeping,
//! vote record and joiner queue.  The asynchronous shell around the
//! library owns the timers and the transport and drives these methods.

use vstd::prelude::*;
use vstd::string::StrSliceExecFns;
use vstd::string::StringExecFns;
use crate::config::random_byte;
use crate::config::Settings;
use crate::hook::Hook;
use crate::log_entry::entries_wf;
use crate::log_entry::Entries;
use crate::status::EStatus;
use crate::status::Status;
use crate::status::transition_allowed;
use crate::url::Url;
use crate::error::Error;
use crate::error::ErrorResult;

verus! {

/// The leader's per-peer cursor into its own log.  `Validated` ids were
/// confirmed by the peer; `Pending` ids are a best guess.
#[derive(Clone, Copy, PartialEq, Eq, Structural, Debug)]
pub enum NextIndex {
    Validated(usize),
    Pending(usize),
}

/// The id a cursor points at, confirmed or not.
pub open spec fn next_index_of(ni: NextIndex) -> int {
    match ni {
        NextIndex::Validated(v) => v as int,
        NextIndex::Pending(v) => v as int,
    }
}

/// The id a cursor vouches for: a pending cursor vouches only for the
/// minimum.
pub open spec fn validated_of(ni: NextIndex) -> int {
    match ni {
        NextIndex::Validated(v) => v as int,
        NextIndex::Pending(_) => 1,
    }
}

impl NextIndex {
    /// The id the cursor points at, whether confirmed or pending.
    pub fn unwrap(&self) -> (r: usize)
        ensures
            r == next_index_of(*self),
    {
        match self {
            NextIndex::Validated(val) => *val,
            NextIndex::Pending(val) => *val,
        }
    }

    /// The id the peer confirmed, or the minimum 1 for a pending cursor.
    pub fn validated(&self) -> (r: usize)
        ensures
            r == validated_of(*self),
    {
        match self {
            NextIndex::Validated(val) => *val,
            NextIndex::Pending(_) => 1,
        }
    }
}

/// The per-peer cursor table, an association list with distinct keys.
pub struct NextIndexes {
    inner: Vec<(Url, NextIndex)>,
}

impl View for NextIndexes {
    type V = Seq<(Seq<char>, NextIndex)>;

    closed spec fn view(&self) -> Seq<(Seq<char>, NextIndex)> {
        self.inner@.map_values(|p: (Url, NextIndex)| (p.0@, p.1))
    }
}

/// Whether the table holds a cursor for the peer.
pub open spec fn ni_has_key(s: Seq<(Seq<char>, NextIndex)>, k: Seq<char>) -> bool {
    exists|i: int| 0 <= i < s.len() && s[i].0 == k
}

/// The table records `v` for the peer `k`.
pub open spec fn ni_maps_to(s: Seq<(Seq<char>, NextIndex)>, k: Seq<char>, v: NextIndex) -> bool {
    exists|i: int| 0 <= i < s.len() && s[i] == (k, v)
}

impl NextIndexes {
    /// Keys are distinct.
    pub open spec fn wf(&self) -> bool {
        forall|i: int, j: int|
            #![trigger self@[i].0, self@[j].0]
            0 <= i < j < self@.len() ==> self@[i].0 != self@[j].0
    }

    /// An empty table.
    pub fn new() -> (r: NextIndexes)
        ensures
            r@.len() == 0,
            r.wf(),
    {
        NextIndexes { inner: Vec::new() }
    }

    pub fn len(&self) -> (r: usize)
        ensures
            r == self@.len(),
    {
        self.inner.len()
    }

    /// The cursor at a position of the table.
    pub fn value_at(&self, i: usize) -> (r: NextIndex)
        requires
            i < self@.len(),
        ensures
            r == self@[i as int].1,
    {
        self.inner[i].1
    }

    /// The cursor recorded for the peer, if any.
    pub fn get(&self, url: &Url) -> (r: Option<NextIndex>)
        ensures
            match r {
                Some(ni) => exists|i: int|
                    0 <= i < self@.len() && self@[i].0 == url@ && self@[i].1 == ni,
                None => !ni_has_key(self@, url@),
            },
    {
        let n = self.inner.len();
        let mut i: usize = 0;
        while i < n
            invariant
                0 <= i <= n,
                n == self@.len(),
                forall|j: int| 0 <= j < i ==> self@[j].0 != url@,
            decreases n - i,
        {
            if self.inner[i].0 == *url {
                let r = self.inner[i].1;
                proof {
                    assert(self@[i as int] == (self.inner@[i as int].0@, self.inner@[i as int].1));
                }
                return Some(r);
            }
            i = i + 1;
        }
        None
    }

    /// Record a cursor for the peer, replacing an earlier one.
    pub fn set(&mut self, url: Url, ni: NextIndex)
        requires
            old(self).wf(),
        ensures
            final(self).wf(),
            ni_has_key(old(self)@, url@) ==> exists|i: int|
                #![auto]
                0 <= i < old(self)@.len() && old(self)@[i].0 == url@ && final(self)@ == old(
                    self)@.update(i, (url@, ni)),
            !ni_has_key(old(self)@, url@) ==> final(self)@ == old(self)@.push((url@, ni)),
            ni_maps_to(final(self)@, url@, ni),
    {
        let n = self.inner.len();
        let mut i: usize = 0;
        while i < n
            invariant
                0 <= i <= n,
                n == self@.len(),
                old(self).wf(),
                self.inner@ == old(self).inner@,
                forall|j: int| 0 <= j < i ==> self@[j].0 != url@,
            decreases n - i,
        {
            if self.inner[i].0 == url {
                proof {
                    assert(old(self)@[i as int].0 == url@);
                }
                self.inner[i] = (url, ni);
                proof {
                    assert(self@ =~= old(self)@.update(i as int, (url@, ni)));
                    assert forall|a: int| 0 <= a < self@.len() implies self@[a].0 == old(
                        self)@[a].0 by {
                        if a == i {
                            assert(self@[a].0 == url@);
                        }
                    }
                    assert forall|a: int, b: int|
                        0 <= a < b < self@.len() implies self@[a].0 != self@[b].0 by {
                        assert(self@[a].0 == old(self)@[a].0);
                        assert(self@[b].0 == old(self)@[b].0);
                        assert(old(self)@[a].0 != old(self)@[b].0);
                    }
                    assert(self@[i as int] == (url@, ni));
                }
                return ;
            }
            i = i + 1;
        }
        self.inner.push((url, ni));
        proof {
            assert(self@ =~= old(self)@.push((url@, ni)));
            assert(self@[self@.len() - 1] == (url@, ni));
        }
    }

    /// Forget every cursor.
    pub fn clear(&mut self)
        ensures
            final(self)@.len() == 0,
            final(self).wf(),
    {
        self.inner = Vec::new();
    }
}

/// A container for prepared return values in unit tests.
pub struct UTestData {
    pub error_result_bool: Option<ErrorResult<bool>>,
}

/// A joiner: its 16-byte identity and its `addr:port`.
pub struct NodeInfo {
    pub hash: [u8; 16],
    pub addr: String,
}

/// Whether a log entry's content is a membership (`conn:`) entry.
pub open spec fn is_conn_content(s: Seq<char>) -> bool {
    s.len() >= 5 && s.subrange(0, 5) == "conn:"@
}

/// The peer address a membership entry carries.
pub open spec fn conn_addr_of(s: Seq<char>) -> Seq<char> {
    s.subrange(5, s.len() as int)
}

/// Build the content of a membership entry for the joiner address.
pub fn encode_conn_entry(addr: &String) -> (r: String)
    ensures
        r@ == "conn:"@ + addr@,
        is_conn_content(r@),
        conn_addr_of(r@) == addr@,
{
    proof {
        reveal_strlit("conn:");
    }
    let mut s: String = "conn:".to_owned();
    s.append(addr.as_str());
    proof {
        assert(s@.subrange(0, 5) =~= "conn:"@);
        assert(conn_addr_of(s@) =~= addr@);
    }
    s
}

/// Read the peer address out of a membership entry, or nothing when the
/// content is no such entry.
pub fn decode_conn_entry(content: &String) -> (r: Option<String>)
    ensures
        match r {
            Some(a) => is_conn_content(content@) && a@ == conn_addr_of(content@),
            None => !is_conn_content(content@),
        },
{
    proof {
        reveal_strlit("conn:");
    }
    let s = content.as_str();
    let len = s.unicode_len();
    if len < 5 {
        proof {
            assert(!is_conn_content(content@));
        }
        return None;
    }
    let marker: &str = "conn:";
    let mut i: usize = 0;
    while i < 5
        invariant
            0 <= i <= 5,
            s@ == content@,
            content@.len() >= 5,
            marker@ == "conn:"@,
            "conn:"@.len() == 5,
            forall|j: int| 0 <= j < i ==> content@[j] == "conn:"@[j],
        decreases 5 - i,
    {
        proof {
            reveal_strlit("conn:");
        }
        if s.get_char(i) != marker.get_char(i) {
            proof {
                assert(content@.subrange(0, 5)[i as int] == content@[i as int]);
                assert(content@.subrange(0, 5) != "conn:"@);
            }
            return None;
        }
        i = i + 1;
    }
    let addr = s.substring_char(5, len);
    proof {
        assert(content@.subrange(0, 5) =~= "conn:"@);
    }
    Some(addr.to_owned())
}

/// Every address stored in a joiner record comes out of its own entry:
/// decoding what `encode_conn_entry` built gives the address back.
pub proof fn lemma_conn_entry_round_trip(addr: Seq<char>)
    ensures
        is_conn_content("conn:"@ + addr),
        conn_addr_of("conn:"@ + addr) == addr,
{
    reveal_strlit("conn:");
    assert(("conn:"@ + addr).subrange(0, 5) =~= "conn:"@);
    assert(conn_addr_of("conn:"@ + addr) =~= addr);
}

/// A 16-byte random identity.
pub fn generate_uuid() -> (r: [u8; 16]) {
    let mut ret = [0u8; 16];
    let mut i: usize = 0;
    while i < 16
        invariant
            0 <= i <= 16,
        decreases 16 - i,
    {
        ret[i] = random_byte();
        i = i + 1;
    }
    ret
}

/// The node: the whole protocol state of one process.
pub struct Node<H: Hook> {
    /// Current role of the local node and the leader it knows.
    pub p_status: Status,
    /// Settings of the node.
    pub settings: Settings,
    /// Model of the heartbeat timer command: set when the verified core
    /// asks for a fresh countdown; the shell acts on it and clears it.
    pub heartbeat_reset: bool,
    /// Log entries; terms are stored here until they are committed.
    pub logs: Entries,
    /// Next indexes by known nodes.
    pub next_indexes: NextIndexes,
    /// Joiner addresses waiting for a membership entry, oldest first.
    pub waiting_nodes: Vec<String>,
    /// Peers that vote and can lead.
    pub node_list: Vec<String>,
    /// Last vote: `Some((node id, last log term))` if voted.
    pub vote_for: Option<(String, usize)>,
    /// The hook interface.
    pub hook: H,
    /// Unique node id, a temporary identifier in the network.
    pub uuid: [u8; 16],
}

/// Well-formedness of the node state.
pub open spec fn node_wf<H: Hook>(n: &Node<H>) -> bool {
    &&& entries_wf(n.logs@)
    &&& n.settings.wf()
    &&& n.next_indexes.wf()
    &&& forall|i: int, j: int|
        0 <= i < j < n.node_list@.len() ==> n.node_list@[i]@ != n.node_list@[j]@
}

/// Everything but the role cell and the heartbeat command is the same.
pub open spec fn same_but_status<H: Hook>(pre: &Node<H>, post: &Node<H>) -> bool {
    &&& pre.settings == post.settings
    &&& pre.logs == post.logs
    &&& pre.next_indexes == post.next_indexes
    &&& pre.waiting_nodes == post.waiting_nodes
    &&& pre.node_list == post.node_list
    &&& pre.vote_for == post.vote_for
    &&& pre.hook == post.hook
    &&& pre.uuid == post.uuid
}

impl<H: Hook> Node<H> {
    /// A fresh node in the pending role, its peer list taken from the
    /// settings with duplicates dropped.
    pub fn new_with_settings(settings: Settings, hook: H) -> (r: Node<H>)
        requires
            settings.wf(),
        ensures
            node_wf(&r),
            r.p_status@.role == EStatus::ConnectionPending,
            r.settings == settings,
            r.logs@.last_index == 0,
            r.logs@.commit_index == 0,
            r.logs@.store.len() == 0,
            r.logs@.current.id == 0,
            r.next_indexes@.len() == 0,
            r.waiting_nodes@.len() == 0,
            r.vote_for is None,
            r.heartbeat_reset == false,
            forall|i: int|
                #![auto]
                0 <= i < r.node_list@.len() ==> seq_contains_str(settings.nodes@, r.node_list@[i]@),
            forall|i: int|
                #![auto]
                0 <= i < settings.nodes@.len() ==> seq_contains_str(r.node_list@, settings.nodes@[i]@),
    {
        let mut node_list: Vec<String> = Vec::new();
        let n = settings.nodes.len();
        let mut i: usize = 0;
        while i < n
            invariant
                0 <= i <= n,
                n == settings.nodes@.len(),
                forall|a: int, b: int|
                    0 <= a < b < node_list@.len() ==> node_list@[a]@ != node_list@[b]@,
                forall|a: int|
                    #![auto]
                    0 <= a < node_list@.len() ==> seq_contains_str(settings.nodes@, node_list@[a]@),
                forall|a: int|
                    #![auto]
                    0 <= a < i ==> seq_contains_str(node_list@, settings.nodes@[a]@),
            decreases n - i,
        {
            let candidate = settings.nodes[i].clone();
            let ghost pre = node_list@;
            let dup = vec_contains_string(&node_list, &candidate);
            if !dup {
                node_list.push(candidate);
            }
            proof {
                assert(seq_contains_str(node_list@, settings.nodes@[i as int]@)) by {
                    if dup {
                        let w = choose|w: int| 0 <= w < pre.len() && pre[w]@ == candidate@;
                        assert(node_list@[w]@ == settings.nodes@[i as int]@);
                    } else {
                        assert(node_list@[pre.len() as int]@ == settings.nodes@[i as int]@);
                    }
                }
                assert forall|a: int| #![auto] 0 <= a < i + 1 implies seq_contains_str(
                    node_list@,
                    settings.nodes@[a]@,
                ) by {
                    if a < i {
                        let w = choose|w: int| 0 <= w < pre.len() && pre[w]@
                            == settings.nodes@[a]@;
                        assert(node_list@[w]@ == settings.nodes@[a]@);
                    }
                }
            }
            i = i + 1;
        }
        let r = Node {
            p_status: Status::connection_pending(),
            settings,
            heartbeat_reset: false,
            logs: Entries::new(),
            next_indexes: NextIndexes::new(),
            waiting_nodes: Vec::new(),
            node_list,
            vote_for: None,
            hook,
            uuid: generate_uuid(),
        };
        r
    }

    /// Ask the shell for a fresh randomized heartbeat countdown.
    pub fn reset_timeout(&mut self)
        ensures
            final(self).heartbeat_reset == true,
            same_but_status(old(self), final(self)),
            final(self).p_status == old(self).p_status,
    {
        self.heartbeat_reset = true;
    }

    /// Become a candidate and tell the hook, when the transition table
    /// allows it.
    pub fn switch_to_candidate(&mut self) -> (r: ErrorResult<()>)
        ensures
            same_but_status(old(self), final(self)),
            final(self).heartbeat_reset == old(self).heartbeat_reset,
            r is Ok <==> transition_allowed(old(self).p_status@.role, EStatus::Candidate),
            r is Ok ==> final(self).p_status@.role == EStatus::Candidate,
            r is Err ==> final(self).p_status@ == old(self).p_status@ && r == Err::<(), Error>(
                Error::WrongStatus),
    {
        let res = self.p_status.switch_to_candidate();
        match res {
            Ok(_) => {
                self.hook.switch_status(EStatus::Candidate);
                Ok(())
            },
            Err(e) => Err(e),
        }
    }

    /// Become the leader and tell the hook, when the transition table
    /// allows it.
    pub fn switch_to_leader(&mut self) -> (r: ErrorResult<()>)
        ensures
            same_but_status(old(self), final(self)),
            final(self).heartbeat_reset == old(self).heartbeat_reset,
            r is Ok <==> transition_allowed(old(self).p_status@.role, EStatus::Leader),
            r is Ok ==> final(self).p_status@.role == EStatus::Leader,
            r is Err ==> final(self).p_status@ == old(self).p_status@ && r == Err::<(), Error>(
                Error::WrongStatus),
    {
        let res = self.p_status.switch_to_leader();
        match res {
            Ok(_) => {
                self.hook.switch_status(EStatus::Leader);
                Ok(())
            },
            Err(e) => Err(e),
        }
    }

    /// Become a follower of the given leader and tell the hook; a node
    /// that already follows keeps its leader and nothing happens.
    pub fn switch_to_follower(&mut self, leader: Url) -> (r: ErrorResult<()>)
        ensures
            same_but_status(old(self), final(self)),
            final(self).heartbeat_reset == old(self).heartbeat_reset,
            r is Ok,
            old(self).p_status@.role == EStatus::Follower ==> final(self).p_status == old(
                self).p_status,
            old(self).p_status@.role != EStatus::Follower ==> final(self).p_status@.role
                == EStatus::Follower && final(self).p_status@.leader == Some(leader@),
    {
        if !self.p_status.is_follower() {
            let res = self.p_status.switch_to_follower(leader);
            match res {
                Ok(_) => {
                    self.hook.switch_status(EStatus::Follower);
                },
                Err(_) => {
                    proof {
                        assert(false);
                    }
                },
            }
        }
        Ok(())
    }

    /// A copy of the peer list.
    pub fn get_node_list(&self) -> (r: Vec<String>)
        ensures
            r@.len() == self.node_list@.len(),
            forall|i: int| #![auto] 0 <= i < r@.len() ==> r@[i]@ == self.node_list@[i]@,
    {
        let mut r: Vec<String> = Vec::new();
        let n = self.node_list.len();
        let mut i: usize = 0;
        while i < n
            invariant
                0 <= i <= n,
                n == self.node_list@.len(),
                r@.len() == i,
                forall|j: int| #![auto] 0 <= j < i ==> r@[j]@ == self.node_list@[j]@,
            decreases n - i,
        {
            r.push(self.node_list[i].clone());
            i = i + 1;
        }
        r
    }
}


/// Whether the vector of strings holds one with exactly these characters.
pub open spec fn seq_contains_str(v: Seq<String>, s: Seq<char>) -> bool {
    exists|i: int| 0 <= i < v.len() && v[i]@ == s
}

/// Whether the vector holds a string with the same characters.
pub fn vec_contains_string(v: &Vec<String>, s: &String) -> (r: bool)
    ensures
        r == seq_contains_str(v@, s@),
{
    let n = v.len();
    let mut i: usize = 0;
    while i < n
        invariant
            0 <= i <= n,
            n == v@.len(),
            forall|j: int| 0 <= j < i ==> v@[j]@ != s@,
        decreases n - i,
    {
        if v[i].eq(s) {
            proof {
                assert(seq_contains_str(v@, s@));
            }
            return true;
        }
        i = i + 1;
    }
    false
}

} // verus!
