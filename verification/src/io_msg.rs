//! The value shapes of the three RPCs.

use vstd::prelude::*;
use crate::error::HttpErrorResult;
use crate::log_entry::Term;

verus! {

/// Any RPC response body.
pub enum HttpResult {
    RequestVote(RequestVoteResult),
    UpdateNode(UpdateNodeResult),
    AppendTerm(AppendTermResult),
    Error(HttpErrorResult),
}

/// A candidate asking for a vote.  `last_term` is the candidate's commit
/// index at candidature.
pub struct RequestVoteInput {
    pub candidate_id: String,
    pub term: Term,
    pub last_term: usize,
}

pub struct RequestVoteResult {
    pub current_term: Term,
    pub vote_granted: bool,
}

/// A leader replicating entries between `prev_term` and `term`.
pub struct AppendTermInput {
    pub term: Term,
    pub leader_id: String,
    pub prev_term: Term,
    pub entries: Vec<Term>,
    pub leader_commit_index: usize,
}

pub struct AppendTermResult {
    pub current_term: Term,
    pub success: bool,
}

/// A joiner announcing itself: its 16-byte identity and its server port.
pub struct UpdateNodeInput {
    pub hash: [u8; 16],
    pub port: String,
}

impl PartialEq for UpdateNodeInput {
    fn eq(&self, other: &Self) -> (r: bool) {
        let mut i: usize = 0;
        while i < 16
            invariant
                0 <= i <= 16,
                forall|j: int| 0 <= j < i ==> self.hash@[j] == other.hash@[j],
            decreases 16 - i,
        {
            if self.hash[i] != other.hash[i] {
                return false;
            }
            i = i + 1;
        }
        proof {
            assert(self.hash@ =~= other.hash@);
        }
        true
    }
}

impl vstd::std_specs::cmp::PartialEqSpecImpl for UpdateNodeInput {
    open spec fn obeys_eq_spec() -> bool {
        true
    }

    open spec fn eq_spec(&self, other: &UpdateNodeInput) -> bool {
        self.hash@ == other.hash@
    }
}

pub struct UpdateNodeResult {
    pub leader_id: String,
    pub node_list: Vec<String>,
}

} // verus!
