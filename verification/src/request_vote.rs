//! The follower receive path for `RequestVote`: one vote per election
//! cycle, re-granted only to the same candidate or to one with a longer
//! log.

use vstd::prelude::*;
use crate::hook::Hook;
use crate::io_msg::RequestVoteInput;
use crate::io_msg::RequestVoteResult;
use crate::node::node_wf;
use crate::node::Node;

verus! {

/// The grant rule: a first vote goes to any candidate at least as far
/// along as the local commit index; after that, only the same candidate
/// hears yes again, unless a newer candidature outruns the recorded one.
pub open spec fn vote_grant_rule(
    vote_for: Option<(String, usize)>,
    commit_index: int,
    candidate_id: Seq<char>,
    last_term: int,
) -> bool {
    match vote_for {
        Some(v) => last_term > v.1 || candidate_id == v.0@,
        None => last_term >= commit_index,
    }
}

impl<H: Hook> Node<H> {
    /// Node reaction on receiving a vote request.
    pub fn receive_request_vote(&mut self, input: RequestVoteInput) -> (r: RequestVoteResult)
        requires
            node_wf(old(self)),
        ensures
            node_wf(final(self)),
            final(self).logs == old(self).logs,
            final(self).p_status == old(self).p_status,
            final(self).settings == old(self).settings,
            final(self).next_indexes == old(self).next_indexes,
            final(self).waiting_nodes == old(self).waiting_nodes,
            final(self).node_list == old(self).node_list,
            final(self).hook == old(self).hook,
            final(self).uuid == old(self).uuid,
            r.current_term@ == old(self).logs@.current,
            // a candidature older than the local log is refused outright
            input.term@.id < old(self).logs@.current.id ==> !r.vote_granted && *final(self)
                == *old(self),
            // otherwise the grant rule decides, if and only if
            input.term@.id >= old(self).logs@.current.id ==> (r.vote_granted <==> vote_grant_rule(
                old(self).vote_for,
                old(self).logs@.commit_index,
                input.candidate_id@,
                input.last_term as int,
            )),
            // a granted vote is recorded and restarts the heartbeat countdown
            r.vote_granted ==> (match final(self).vote_for {
                Some(v) => v.0@ == input.candidate_id@ && v.1 == input.last_term,
                None => false,
            }) && final(self).heartbeat_reset,
            // a refused one changes nothing
            !r.vote_granted ==> *final(self) == *old(self),
            // granted means: no prior vote, or the same candidate again,
            // or a candidature whose last term outruns the recorded one
            r.vote_granted ==> (match old(self).vote_for {
                Some(v) => v.0@ == input.candidate_id@ || input.last_term > v.1,
                None => true,
            }),
    {
        let current_term = self.logs.current_term();
        if input.term.id < current_term.id {
            return RequestVoteResult { current_term, vote_granted: false };
        }
        let vote_granted = match &self.vote_for {
            Some(v) => input.last_term > v.1 || input.candidate_id == v.0,
            None => input.last_term >= self.logs.commit_index(),
        };
        if vote_granted {
            self.vote_for = Some((input.candidate_id, input.last_term));
            self.reset_timeout();
        }
        RequestVoteResult { current_term: self.logs.current_term(), vote_granted }
    }
}

} // verus!
