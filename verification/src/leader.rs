//! The leader side: building `AppendEntries` messages for each peer,
//! reading their replies into the cursor table, advancing the commit
//! pointer on quorum, and preparing new terms.

use vstd::prelude::*;
use vstd::string::StringExecFns;
use crate::append_term::entries_match_range;
use crate::append_term::term_views;
use crate::error::Error;
use crate::error::ErrorResult;
use crate::hook::Hook;
use crate::io_msg::AppendTermInput;
use crate::io_msg::AppendTermResult;
use crate::log_entry::Term;
use crate::node::encode_conn_entry;
use crate::node::is_conn_content;
use crate::node::conn_addr_of;
use crate::node::next_index_of;
use crate::node::ni_has_key;
use crate::node::ni_maps_to;
use crate::node::node_wf;
use crate::node::validated_of;
use crate::node::NextIndex;
use crate::node::Node;
use crate::status::EStatus;
use crate::status::transition_allowed;
use crate::url::Url;

verus! {

/// How a reply to `post_append_term` steers the per-peer loop.
pub enum ReactResult {
    /// Retry the latest call.
    Retry,
    /// Stop leading: break the call loop.
    Break,
    /// All well: continue with the next peer.
    Continue,
}

/// How many cursors vouch for at least id `k`.
pub open spec fn count_vgeq(s: Seq<(Seq<char>, NextIndex)>, k: int) -> int
    decreases s.len(),
{
    if s.len() == 0 {
        0
    } else {
        count_vgeq(s.drop_last(), k) + if validated_of(s.last().1) >= k {
            1int
        } else {
            0int
        }
    }
}

/// `t` is the id the quorum rule elects: the largest id vouched for by a
/// strict majority of the `n` peers, or 0 where no id is.
pub open spec fn is_quorum_target(s: Seq<(Seq<char>, NextIndex)>, n: int, t: int) -> bool {
    &&& (t == 0 || exists|i: int|
        0 <= i < s.len() && validated_of(#[trigger] s[i].1) == t && 2 * count_vgeq(s, t) > n)
    &&& forall|i: int|
        0 <= i < s.len() && 2 * count_vgeq(s, validated_of(#[trigger] s[i].1)) > n ==> validated_of(
            s[i].1,
        ) <= t
}

/// The id the leader guesses for a peer it has no cursor for: a little
/// under the commit index, at least 1.
pub open spec fn fallback_index(commit_index: int) -> int {
    if commit_index > 11 {
        commit_index - 10
    } else {
        1
    }
}

proof fn lemma_count_vgeq_bound(s: Seq<(Seq<char>, NextIndex)>, k: int)
    ensures
        0 <= count_vgeq(s, k) <= s.len(),
    decreases s.len(),
{
    if s.len() > 0 {
        lemma_count_vgeq_bound(s.drop_last(), k);
    }
}

impl<H: Hook> Node<H> {
    /// An entry by id, from the log or failing that from the hook.
    pub fn leader_retreive_term(&self, index: usize) -> (r: Option<Term>)
        ensures
            match r {
                Some(t) => self.logs@.store.contains_key(index as int) ==> t@ == self.logs@.store[
                    index as int],
                None => !self.logs@.store.contains_key(index as int),
            },
    {
        if let Some(term) = self.logs.find(index) {
            return Some(term);
        }
        if let Some(term) = self.hook.retreive_term(index) {
            return Some(term);
        }
        None
    }

    /// An entry by id, from the log or the hook, whose id is checked: a
    /// hook that answers with the wrong id has broken its contract.
    fn retrieve_checked(&self, index: usize) -> (r: ErrorResult<Term>)
        requires
            node_wf(self),
        ensures
            match r {
                Ok(t) => t@.id == index && (self.logs@.store.contains_key(index as int) ==> t@
                    == self.logs@.store[index as int]),
                Err(e) => e is HookContractViolation,
            },
    {
        if let Some(term) = self.logs.find(index) {
            return Ok(term);
        }
        match self.hook.retreive_term(index) {
            Some(term) => {
                if term.id != index {
                    return Err(Error::HookContractViolation("retreive_term answered another id"));
                }
                Ok(term)
            },
            None => Err(Error::HookContractViolation("retreive_term found nothing as leader")),
        }
    }

    /// The entry the target peer is believed to hold last: the recorded
    /// cursor's entry, or a guess a little under the commit index.
    fn get_target_term(&self, target_node: &Url) -> (r: ErrorResult<Term>)
        requires
            node_wf(self),
        ensures
            match r {
                Ok(t) => {
                    &&& (forall|i: int|
                        0 <= i < self.next_indexes@.len() && (#[trigger] self.next_indexes@[
                            i]).0 == target_node@ ==> t@.id == next_index_of(
                            self.next_indexes@[i].1,
                        ))
                    &&& (!ni_has_key(self.next_indexes@, target_node@) ==> t@.id == fallback_index(
                        self.logs@.commit_index,
                    ))
                    &&& (self.logs@.store.contains_key(t@.id) ==> t@ == self.logs@.store[t@.id])
                },
                Err(e) => e is HookContractViolation,
            },
    {
        match self.next_indexes.get(target_node) {
            Some(node_index) => {
                let id = node_index.unwrap();
                self.retrieve_checked(id)
            },
            None => {
                // suppose the peer's last term sits under the latest
                // leader commit; the minimum index is 1
                let commit = self.logs.commit_index();
                let index: usize = if commit > 11 {
                    commit - 10
                } else {
                    1
                };
                self.retrieve_checked(index)
            },
        }
    }

    /// Build the `AppendEntries` message for the target peer: a heartbeat
    /// when the peer is up to date, else up to ten entries following the
    /// peer's cursor.  Whatever the hook answered, the message carries
    /// exactly the ids between its `prev_term` and its `term`, so it
    /// passes the shape checks of the receive path.
    pub fn create_term_input(&mut self, target_node: &Url) -> (r: ErrorResult<AppendTermInput>)
        requires
            node_wf(old(self)),
            old(self).logs@.last_index < usize::MAX,
        ensures
            node_wf(final(self)),
            final(self).p_status == old(self).p_status,
            final(self).settings == old(self).settings,
            final(self).next_indexes == old(self).next_indexes,
            final(self).waiting_nodes == old(self).waiting_nodes,
            final(self).node_list == old(self).node_list,
            final(self).vote_for == old(self).vote_for,
            final(self).hook == old(self).hook,
            final(self).uuid == old(self).uuid,
            final(self).heartbeat_reset == old(self).heartbeat_reset,
            final(self).logs@.commit_index == old(self).logs@.commit_index,
            final(self).logs@.last_index >= old(self).logs@.last_index,
            match r {
                Ok(input) => {
                    &&& input.leader_id@ == old(self).settings.node_id@
                    &&& input.leader_commit_index == old(self).logs@.commit_index
                    &&& input.prev_term@.id <= input.term@.id
                    &&& entries_match_range(
                        input.prev_term@.id,
                        input.term@.id,
                        term_views(input.entries@),
                    )
                    &&& input.entries@.len() <= 10
                },
                Err(e) => e is HookContractViolation,
            },
    {
        let prev_term = match self.get_target_term(target_node) {
            Ok(t) => t,
            Err(e) => {
                return Err(e);
            },
        };
        let (created, local_latest_term) = self.logs.latest();
        if created {
            let _persisted = self.hook.append_term(&local_latest_term);
        }
        let leader_id = self.settings.node_id.clone();
        let leader_commit_index = self.logs.commit_index();

        // Case 1: the latest term the peer has is also ours, or just
        // one behind: send a plain heartbeat.
        if prev_term == local_latest_term || prev_term.id >= local_latest_term.id - 1 {
            let term = local_latest_term.clone();
            return Ok(
                AppendTermInput {
                    term,
                    leader_id,
                    prev_term: local_latest_term,
                    entries: Vec::new(),
                    leader_commit_index,
                },
            );
        }

        // Case 2: the peer is behind: batch up to ten entries after its
        // cursor, and cap the message's term at the batch's end.
        let mut pos: usize = prev_term.id + 1;
        let mut entries: Vec<Term> = Vec::new();
        let ghost prev_id = prev_term@.id;
        while entries.len() < 10 && pos < local_latest_term.id - 1
            invariant
                node_wf(self),
                self.p_status == old(self).p_status,
                self.settings == old(self).settings,
                self.next_indexes == old(self).next_indexes,
                self.waiting_nodes == old(self).waiting_nodes,
                self.node_list == old(self).node_list,
                self.vote_for == old(self).vote_for,
                self.hook == old(self).hook,
                self.uuid == old(self).uuid,
                self.heartbeat_reset == old(self).heartbeat_reset,
                self.logs@.commit_index == old(self).logs@.commit_index,
                self.logs@.last_index >= old(self).logs@.last_index,
                leader_commit_index == old(self).logs@.commit_index,
                leader_id@ == old(self).settings.node_id@,
                prev_id == prev_term@.id,
                prev_id + 1 <= pos <= local_latest_term@.id - 1,
                local_latest_term@.id <= usize::MAX,
                pos == prev_id + 1 + entries@.len(),
                entries@.len() <= 10,
                forall|j: int|
                    0 <= j < entries@.len() ==> (#[trigger] entries@[j])@.id == prev_id + 1 + j,
            decreases local_latest_term@.id - pos,
        {
            let t = match self.retrieve_checked(pos) {
                Ok(t) => t,
                Err(e) => {
                    return Err(e);
                },
            };
            let ghost pre_entries = entries@;
            entries.push(t);
            proof {
                assert forall|j: int|
                    0 <= j < entries@.len() implies (#[trigger] entries@[j])@.id == prev_id + 1
                    + j by {
                    if j < pre_entries.len() {
                        assert(entries@[j] == pre_entries[j]);
                    } else {
                        assert(entries@[j] == t);
                    }
                }
            }
            pos = pos + 1;
        }
        let term = match self.retrieve_checked(pos) {
            Ok(t) => t,
            Err(e) => {
                return Err(e);
            },
        };
        proof {
            assert forall|i: int|
                0 <= i < term_views(entries@).len() implies #[trigger] term_views(entries@)[i].id
                == prev_term@.id + 1 + i by {
                assert(entries@[i]@.id == prev_id + 1 + i);
            }
        }
        Ok(AppendTermInput { term, leader_id, prev_term, entries, leader_commit_index })
    }

    /// Read one peer's reply.  A peer ahead of our log makes us its
    /// follower; otherwise its cursor is updated: confirmed where the
    /// reported term matches one of ours, a step back where it differs.
    pub fn manage_append_term_result(&mut self, target: Url, result: AppendTermResult) -> (r:
        ErrorResult<ReactResult>)
        requires
            node_wf(old(self)),
        ensures
            node_wf(final(self)),
            final(self).logs == old(self).logs,
            final(self).settings == old(self).settings,
            final(self).waiting_nodes == old(self).waiting_nodes,
            final(self).node_list == old(self).node_list,
            final(self).vote_for == old(self).vote_for,
            final(self).hook == old(self).hook,
            final(self).uuid == old(self).uuid,
            final(self).heartbeat_reset == old(self).heartbeat_reset,
            r is Ok,
            // a peer ahead of us takes the lead
            (r == Ok::<ReactResult, Error>(ReactResult::Break)) <==> result.current_term@.id > old(
                self).logs@.last_index,
            r == Ok::<ReactResult, Error>(ReactResult::Break) ==> final(self).p_status@.role
                == EStatus::Follower && final(self).next_indexes == old(self).next_indexes && (old(
                self).p_status@.role != EStatus::Follower ==> final(self).p_status@.leader == Some(
                target@,
            )),
            r != Ok::<ReactResult, Error>(ReactResult::Break) ==> {
                &&& final(self).p_status == old(self).p_status
                &&& (result.current_term@.id == 0 ==> ni_maps_to(
                    final(self).next_indexes@,
                    target@,
                    NextIndex::Validated(1),
                ))
                &&& ((result.current_term@.id > 0 && old(self).logs@.store.contains_key(
                    result.current_term@.id,
                ) && old(self).logs@.store[result.current_term@.id] == result.current_term@)
                    ==> ni_maps_to(
                    final(self).next_indexes@,
                    target@,
                    NextIndex::Validated(result.current_term.id),
                ))
                &&& ((result.current_term@.id > 0 && old(self).logs@.store.contains_key(
                    result.current_term@.id,
                ) && old(self).logs@.store[result.current_term@.id] != result.current_term@)
                    ==> ni_maps_to(
                    final(self).next_indexes@,
                    target@,
                    NextIndex::Pending((result.current_term.id - 1) as usize),
                ))
                &&& ((result.current_term@.id > 0 && !old(self).logs@.store.contains_key(
                    result.current_term@.id,
                )) ==> (ni_maps_to(
                    final(self).next_indexes@,
                    target@,
                    NextIndex::Validated(result.current_term.id),
                ) || ni_maps_to(
                    final(self).next_indexes@,
                    target@,
                    NextIndex::Pending((result.current_term.id - 1) as usize),
                ) || final(self).next_indexes == old(self).next_indexes))
            },
            (r == Ok::<ReactResult, Error>(ReactResult::Continue)) <==> (result.current_term@.id
                <= old(self).logs@.last_index && result.success),
            (r == Ok::<ReactResult, Error>(ReactResult::Retry)) <==> (result.current_term@.id
                <= old(self).logs@.last_index && !result.success),
    {
        if result.current_term.id > self.logs.last_index() {
            let res = self.switch_to_follower(target);
            proof {
                assert(res is Ok);
            }
            return Ok(ReactResult::Break);
        }
        if result.current_term.id > 0 {
            match self.leader_retreive_term(result.current_term.id) {
                Some(local_term) => {
                    if local_term == result.current_term {
                        self.next_indexes.set(
                            target,
                            NextIndex::Validated(result.current_term.id),
                        );
                    } else {
                        self.next_indexes.set(
                            target,
                            NextIndex::Pending(result.current_term.id - 1),
                        );
                    }
                },
                None => {
                    // the leader cannot find the term: leave the cursor be
                },
            }
        } else {
            self.next_indexes.set(target, NextIndex::Validated(1));
        }
        if result.success {
            Ok(ReactResult::Continue)
        } else {
            Ok(ReactResult::Retry)
        }
    }

    /// The largest id a strict majority of peers vouches for, or 0.
    pub fn quorum_commit_target(&self) -> (r: usize)
        requires
            node_wf(self),
        ensures
            is_quorum_target(self.next_indexes@, self.node_list@.len() as int, r as int),
    {
        let peers = self.node_list.len();
        let n = self.next_indexes.len();
        let mut best: usize = 0;
        let mut i: usize = 0;
        proof {
            lemma_count_vgeq_bound(self.next_indexes@, 0);
        }
        while i < n
            invariant
                0 <= i <= n,
                n == self.next_indexes@.len(),
                peers == self.node_list@.len(),
                best == 0 || exists|w: int|
                    0 <= w < n && validated_of(#[trigger] self.next_indexes@[w].1) == best && 2
                        * count_vgeq(self.next_indexes@, best as int) > peers,
                forall|w: int|
                    0 <= w < i && 2 * count_vgeq(
                        self.next_indexes@,
                        validated_of(#[trigger] self.next_indexes@[w].1),
                    ) > peers ==> validated_of(self.next_indexes@[w].1) <= best,
            decreases n - i,
        {
            let v = self.next_indexes.value_at(i).validated();
            let mut c: usize = 0;
            let mut j: usize = 0;
            while j < n
                invariant
                    0 <= j <= n,
                    n == self.next_indexes@.len(),
                    0 <= c <= j,
                    v == validated_of(self.next_indexes@[i as int].1),
                    i < n,
                    c == count_vgeq(self.next_indexes@.subrange(0, j as int), v as int),
                decreases n - j,
            {
                let w = self.next_indexes.value_at(j).validated();
                if w >= v {
                    c = c + 1;
                }
                j = j + 1;
                proof {
                    assert(self.next_indexes@.subrange(0, j as int).drop_last()
                        =~= self.next_indexes@.subrange(0, j - 1));
                    assert(self.next_indexes@.subrange(0, j as int).last() == self.next_indexes@[j
                        - 1]);
                }
            }
            proof {
                assert(self.next_indexes@.subrange(0, n as int) =~= self.next_indexes@);
            }
            if c > peers / 2 && v > best {
                best = v;
            }
            i = i + 1;
        }
        best
    }

    /// Quorum commit advancement: elect the largest id a strict majority
    /// of peers vouches for and commit up to it.  With no peers at all the
    /// commit phase is skipped.
    pub fn increment_commit_term(&mut self)
        requires
            node_wf(old(self)),
        ensures
            node_wf(final(self)),
            final(self).logs@.commit_index >= old(self).logs@.commit_index,
            final(self).logs@.last_index == old(self).logs@.last_index,
            final(self).logs@.current == old(self).logs@.current,
            final(self).p_status == old(self).p_status,
            final(self).settings == old(self).settings,
            final(self).next_indexes == old(self).next_indexes,
            final(self).waiting_nodes == old(self).waiting_nodes,
            final(self).vote_for == old(self).vote_for,
            final(self).hook == old(self).hook,
            final(self).uuid == old(self).uuid,
            final(self).heartbeat_reset == old(self).heartbeat_reset,
            old(self).node_list@.len() == 0 ==> *final(self) == *old(self),
            old(self).node_list@.len() > 0 ==> exists|t: int|
                {
                    &&& #[trigger] is_quorum_target(
                        old(self).next_indexes@,
                        old(self).node_list@.len() as int,
                        t,
                    )
                    &&& final(self).logs@.commit_index <= t || final(self).logs@.commit_index
                        == old(self).logs@.commit_index
                    &&& ((old(self).logs@.commit_index < t <= old(self).logs@.last_index && (
                    forall|k: int|
                        old(self).logs@.commit_index < k <= t ==> old(
                            self).logs@.store.contains_key(k))) ==> final(self).logs@.commit_index
                        == t)
                },
    {
        if self.node_list.len() == 0 {
            // pass the commit phase with no nodes
            return ;
        }
        let max_term_id = self.quorum_commit_target();
        let ghost t = max_term_id as int;
        self.commit_entries(max_term_id);
        proof {
            assert(is_quorum_target(
                old(self).next_indexes@,
                old(self).node_list@.len() as int,
                t,
            ));
        }
    }

    /// End of one replication round: advance the commit on quorum, and
    /// give the lead up when a majority of peers could not be reached.
    /// Returns true when the node stopped leading.
    pub fn leader_round_end(&mut self, fail_count: usize) -> (r: ErrorResult<bool>)
        requires
            node_wf(old(self)),
        ensures
            node_wf(final(self)),
            final(self).logs@.commit_index >= old(self).logs@.commit_index,
            final(self).settings == old(self).settings,
            final(self).next_indexes == old(self).next_indexes,
            final(self).waiting_nodes == old(self).waiting_nodes,
            final(self).vote_for == old(self).vote_for,
            final(self).hook == old(self).hook,
            final(self).uuid == old(self).uuid,
            // the quorum commit advancement always runs first
            final(self).logs@.last_index == old(self).logs@.last_index,
            old(self).node_list@.len() == 0 ==> final(self).logs@.commit_index == old(
                self).logs@.commit_index && final(self).logs@.store == old(self).logs@.store,
            old(self).node_list@.len() > 0 ==> exists|t: int|
                {
                    &&& #[trigger] is_quorum_target(
                        old(self).next_indexes@,
                        old(self).node_list@.len() as int,
                        t,
                    )
                    &&& final(self).logs@.commit_index <= t || final(self).logs@.commit_index
                        == old(self).logs@.commit_index
                    &&& ((old(self).logs@.commit_index < t <= old(self).logs@.last_index && (
                    forall|k: int|
                        old(self).logs@.commit_index < k <= t ==> old(
                            self).logs@.store.contains_key(k))) ==> final(self).logs@.commit_index
                        == t)
                },
            // the step-down decision, if and only if; the peer set may
            // have grown through committed membership entries, so the
            // quorum test runs against the current set
            r == Ok::<bool, Error>(true) <==> (2 * fail_count > final(self).node_list@.len()
                && transition_allowed(old(self).p_status@.role, EStatus::Candidate)),
            r == Ok::<bool, Error>(false) ==> final(self).p_status == old(self).p_status && 2
                * fail_count <= final(self).node_list@.len(),
            r == Ok::<bool, Error>(true) ==> final(self).p_status@.role == EStatus::Candidate,
            r is Err ==> r == Err::<bool, Error>(Error::WrongStatus) && !transition_allowed(
                old(self).p_status@.role,
                EStatus::Candidate,
            ) && 2 * fail_count > final(self).node_list@.len(),
    {
        self.increment_commit_term();
        if fail_count > self.node_list.len() / 2 {
            // quorum is unreachable: give the lead up
            match self.switch_to_candidate() {
                Ok(_) => {
                    return Ok(true);
                },
                Err(e) => {
                    return Err(e);
                },
            }
        }
        Ok(false)
    }

    /// Pop the oldest waiting joiner and build its membership entry; with
    /// nobody waiting, fall back to the hook's content.
    pub fn conn_term_preparation(&mut self) -> (r: String)
        ensures
            final(self).p_status == old(self).p_status,
            final(self).settings == old(self).settings,
            final(self).logs == old(self).logs,
            final(self).next_indexes == old(self).next_indexes,
            final(self).node_list == old(self).node_list,
            final(self).vote_for == old(self).vote_for,
            final(self).hook == old(self).hook,
            final(self).uuid == old(self).uuid,
            final(self).heartbeat_reset == old(self).heartbeat_reset,
            old(self).waiting_nodes@.len() > 0 ==> {
                &&& final(self).waiting_nodes@ == old(self).waiting_nodes@.remove(0)
                &&& r@ == "conn:"@ + old(self).waiting_nodes@[0]@
                &&& is_conn_content(r@)
                &&& conn_addr_of(r@) == old(self).waiting_nodes@[0]@
            },
            old(self).waiting_nodes@.len() == 0 ==> final(self).waiting_nodes == old(
                self).waiting_nodes,
    {
        if self.waiting_nodes.len() > 0 {
            let n = self.waiting_nodes.remove(0);
            encode_conn_entry(&n)
        } else {
            // nobody is actually waiting: hand the decision to the hook
            self.hook.prepare_term()
        }
    }

    /// One tick of the term-preparation loop.  A node that stopped
    /// leading asks the loop to stop.  A leader appends one entry per
    /// tick: a membership entry for the oldest waiting joiner, else
    /// whatever content the hook prepares.
    pub fn term_preparation(&mut self) -> (r: bool)
        requires
            node_wf(old(self)),
            old(self).logs@.last_index < usize::MAX,
        ensures
            node_wf(final(self)),
            final(self).logs@.commit_index == old(self).logs@.commit_index,
            final(self).p_status == old(self).p_status,
            final(self).settings == old(self).settings,
            final(self).next_indexes == old(self).next_indexes,
            final(self).node_list == old(self).node_list,
            final(self).vote_for == old(self).vote_for,
            final(self).hook == old(self).hook,
            final(self).uuid == old(self).uuid,
            final(self).heartbeat_reset == old(self).heartbeat_reset,
            r == (old(self).p_status@.role != EStatus::Leader),
            old(self).p_status@.role != EStatus::Leader ==> *final(self) == *old(self),
            old(self).p_status@.role == EStatus::Leader ==> {
                &&& final(self).logs@.last_index == old(self).logs@.last_index + 1
                &&& final(self).logs@.store.contains_key(old(self).logs@.last_index + 1)
                &&& (old(self).waiting_nodes@.len() > 0 ==> final(self).waiting_nodes@ == old(
                    self).waiting_nodes@.remove(0) && final(self).logs@.store[old(
                    self).logs@.last_index + 1].content == "conn:"@ + old(self).waiting_nodes@[
                    0]@)
                &&& (old(self).waiting_nodes@.len() == 0 ==> final(self).waiting_nodes == old(
                    self).waiting_nodes)
            },
    {
        if !self.p_status.is_leader() {
            // prepare terms only while leading
            return true;
        }
        let content = if self.waiting_nodes.len() == 0 {
            self.hook.prepare_term()
        } else {
            self.conn_term_preparation()
        };
        let term = self.logs.append(content);
        let _persisted = self.hook.append_term(&term);
        false
    }
}

} // verus!
