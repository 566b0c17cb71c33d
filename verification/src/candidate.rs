//! The candidate workflow decisions: opening a candidature, counting the
//! votes, and closing the round.  The shell sends the `RequestVote` calls
//! and sleeps between rounds.

use vstd::prelude::*;
use crate::error::Error;
use crate::error::ErrorResult;
use crate::hook::Hook;
use crate::io_msg::RequestVoteInput;
use crate::log_entry::Term;
use crate::node::node_wf;
use crate::node::Node;
use crate::status::EStatus;
use crate::status::transition_allowed;

verus! {

/// The election quorum: the votes received plus the candidate's own must
/// be a strict majority of the peers; a node alone wins outright.
pub open spec fn election_won(n_peers: int, granted: int) -> bool {
    n_peers == 0 || 2 * (granted + 1) > n_peers
}

impl<H: Hook> Node<H> {
    /// Open a candidature: snapshot the commit index, append a
    /// `"candidature"` entry, clear the cursor table and vote for
    /// ourselves.  A node that already granted its vote to a candidature
    /// at least as far along abstains and returns nothing.
    pub fn begin_candidature(&mut self) -> (r: Option<(usize, Term)>)
        requires
            node_wf(old(self)),
            old(self).logs@.last_index < usize::MAX,
        ensures
            node_wf(final(self)),
            final(self).p_status == old(self).p_status,
            final(self).settings == old(self).settings,
            final(self).waiting_nodes == old(self).waiting_nodes,
            final(self).node_list == old(self).node_list,
            final(self).hook == old(self).hook,
            final(self).uuid == old(self).uuid,
            final(self).heartbeat_reset == old(self).heartbeat_reset,
            final(self).logs@.commit_index == old(self).logs@.commit_index,
            r is None <==> (match old(self).vote_for {
                Some(v) => old(self).logs@.commit_index <= v.1,
                None => false,
            }),
            r is None ==> *final(self) == *old(self),
            (match r {
                Some(p) => {
                    &&& p.0 == old(self).logs@.commit_index
                    &&& p.1@.id == old(self).logs@.last_index + 1
                    &&& p.1@.content == "candidature"@
                    &&& final(self).logs@.store == old(self).logs@.store.insert(p.1@.id, p.1@)
                    &&& final(self).logs@.last_index == p.1@.id
                    &&& final(self).logs@.current == p.1@
                    &&& final(self).next_indexes@.len() == 0
                    &&& (match final(self).vote_for {
                        Some(v) => v.0@ == old(self).settings.node_id@ && v.1 == p.0,
                        None => false,
                    })
                },
                None => true,
            }),
    {
        let commit_index = self.logs.commit_index();
        if let Some(v) = &self.vote_for {
            if commit_index <= v.1 {
                return None;
            }
        }
        let last_term = self.logs.append("candidature".to_owned());
        self.next_indexes.clear();
        let _persisted = self.hook.append_term(&last_term);
        self.vote_for = Some((self.settings.node_id.clone(), commit_index));
        Some((commit_index, last_term))
    }

    /// The `RequestVote` message of this candidature for the peers.
    pub fn candidature_input(&self, commit_index: usize, last_term: &Term) -> (r: RequestVoteInput)
        ensures
            r.candidate_id@ == self.settings.node_id@,
            r.term@ == last_term@,
            r.last_term == commit_index,
    {
        RequestVoteInput {
            candidate_id: self.settings.node_id.clone(),
            term: last_term.clone(),
            last_term: commit_index,
        }
    }

    /// Whether the round was won: the granted votes plus our own are a
    /// strict majority of the peers, or there are no peers at all.
    pub fn candidature_won(&self, granted_vote_count: usize) -> (r: bool)
        requires
            granted_vote_count <= self.node_list@.len(),
        ensures
            r == election_won(self.node_list@.len() as int, granted_vote_count as int),
    {
        let len = self.node_list.len();
        if len == 0 {
            return true;
        }
        granted_vote_count >= len / 2
    }

    /// Close a round: the vote record is cleared.  A won election makes
    /// the node the leader; a node that meanwhile became a follower stops
    /// campaigning; otherwise the shell waits a randomized moment and
    /// opens the next round.  Returns whether another round should run.
    pub fn finish_candidature(&mut self, won: bool) -> (r: ErrorResult<bool>)
        requires
            node_wf(old(self)),
        ensures
            node_wf(final(self)),
            final(self).vote_for is None,
            final(self).logs == old(self).logs,
            final(self).settings == old(self).settings,
            final(self).next_indexes == old(self).next_indexes,
            final(self).waiting_nodes == old(self).waiting_nodes,
            final(self).node_list == old(self).node_list,
            final(self).hook == old(self).hook,
            final(self).uuid == old(self).uuid,
            final(self).heartbeat_reset == old(self).heartbeat_reset,
            won ==> (if transition_allowed(old(self).p_status@.role, EStatus::Leader) {
                r == Ok::<bool, Error>(false) && final(self).p_status@.role == EStatus::Leader
            } else {
                r == Err::<bool, Error>(Error::WrongStatus) && final(self).p_status@ == old(
                    self).p_status@
            }),
            !won ==> final(self).p_status == old(self).p_status && (r == Ok::<bool, Error>(
                old(self).p_status@.role != EStatus::Follower,
            )),
    {
        self.vote_for = None;
        if won {
            match self.switch_to_leader() {
                Ok(_) => Ok(false),
                Err(e) => Err(e),
            }
        } else if self.p_status.is_follower() {
            Ok(false)
        } else {
            Ok(true)
        }
    }
}

} // verus!
