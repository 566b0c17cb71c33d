//! The role cell: the node's current role plus the leader it knows, with
//! guarded transitions.

use vstd::prelude::*;
use crate::error::Error;
use crate::error::ErrorResult;
use crate::url::Url;

verus! {

/// The four roles a node can have.
#[derive(Clone, Copy, PartialEq, Eq, Structural, Debug)]
pub enum EStatus {
    ConnectionPending,
    Follower,
    Candidate,
    Leader,
}

/// The role transition table.  Every other pair is an illegal transition
/// and fails with `WrongStatus`.
pub open spec fn transition_allowed(from: EStatus, to: EStatus) -> bool {
    match (from, to) {
        (EStatus::ConnectionPending, EStatus::Follower) => true,
        (EStatus::ConnectionPending, EStatus::Candidate) => true,
        (EStatus::Follower, EStatus::Candidate) => true,
        (EStatus::Candidate, EStatus::Leader) => true,
        (EStatus::Candidate, EStatus::Follower) => true,
        (EStatus::Leader, EStatus::Follower) => true,
        (EStatus::Leader, EStatus::Candidate) => true,
        _ => false,
    }
}

/// Mathematical image of the role cell.
pub ghost struct StatusView {
    pub role: EStatus,
    pub leader: Option<Seq<char>>,
}

/// The role cell.  Its fields change only through the guarded transition
/// methods below.
pub struct Status {
    role: EStatus,
    leader: Option<Url>,
}

impl View for Status {
    type V = StatusView;

    closed spec fn view(&self) -> StatusView {
        StatusView {
            role: self.role,
            leader: match self.leader {
                Some(u) => Some(u@),
                None => None,
            },
        }
    }
}

impl Status {
    /// The initial role cell: connection pending, no leader known.
    pub fn connection_pending() -> (r: Status)
        ensures
            r@.role == EStatus::ConnectionPending,
            r@.leader is None,
    {
        Status { role: EStatus::ConnectionPending, leader: None }
    }

    /// A cell already in the leader role.
    pub fn leader() -> (r: Status)
        ensures
            r@.role == EStatus::Leader,
            r@.leader is None,
    {
        Status { role: EStatus::Leader, leader: None }
    }

    /// A cell already following the given leader.
    pub fn follower(leader: Url) -> (r: Status)
        ensures
            r@.role == EStatus::Follower,
            r@.leader == Some(leader@),
    {
        Status { role: EStatus::Follower, leader: Some(leader) }
    }

    /// A cell already in the candidate role.
    pub fn candidate() -> (r: Status)
        ensures
            r@.role == EStatus::Candidate,
            r@.leader is None,
    {
        Status { role: EStatus::Candidate, leader: None }
    }

    /// The current role.
    pub fn status(&self) -> (r: EStatus)
        ensures
            r == self@.role,
    {
        self.role
    }

    /// Follower or ConnectionPending or Leader may become Candidate; the
    /// known leader is forgotten.  Any other start role is refused.
    pub fn switch_to_candidate(&mut self) -> (r: ErrorResult<()>)
        ensures
            r is Ok <==> transition_allowed(old(self)@.role, EStatus::Candidate),
            r is Ok ==> final(self)@.role == EStatus::Candidate && final(self)@.leader is None,
            r is Err ==> final(self)@ == old(self)@ && r == Err::<(), Error>(Error::WrongStatus),
    {
        match self.role {
            EStatus::Follower => {},
            EStatus::ConnectionPending => {},
            EStatus::Leader => {},
            _ => {
                return Err(Error::WrongStatus);
            },
        }
        self.role = EStatus::Candidate;
        self.leader = None;
        Ok(())
    }

    /// Only a Candidate may become Leader.
    pub fn switch_to_leader(&mut self) -> (r: ErrorResult<()>)
        ensures
            r is Ok <==> transition_allowed(old(self)@.role, EStatus::Leader),
            r is Ok ==> final(self)@.role == EStatus::Leader && final(self)@.leader is None,
            r is Err ==> final(self)@ == old(self)@ && r == Err::<(), Error>(Error::WrongStatus),
    {
        match self.role {
            EStatus::Candidate => {},
            _ => {
                return Err(Error::WrongStatus);
            },
        }
        self.role = EStatus::Leader;
        self.leader = None;
        Ok(())
    }

    /// Every role but Follower itself may become Follower of the given
    /// leader.
    pub fn switch_to_follower(&mut self, leader: Url) -> (r: ErrorResult<()>)
        ensures
            r is Ok <==> transition_allowed(old(self)@.role, EStatus::Follower),
            r is Ok ==> final(self)@.role == EStatus::Follower && final(self)@.leader == Some(
                leader@,
            ),
            r is Err ==> final(self)@ == old(self)@ && r == Err::<(), Error>(Error::WrongStatus),
    {
        match self.role {
            EStatus::Follower => {
                return Err(Error::WrongStatus);
            },
            _ => {},
        }
        self.role = EStatus::Follower;
        self.leader = Some(leader);
        Ok(())
    }

    /// The leader this node currently knows, if any.
    pub fn get_leader(&self) -> (r: Option<Url>)
        ensures
            match r {
                Some(u) => self@.leader == Some(u@),
                None => self@.leader is None,
            },
    {
        match &self.leader {
            Some(u) => Some(u.clone()),
            None => None,
        }
    }

    pub fn is_pending(&self) -> (r: bool)
        ensures
            r == (self@.role == EStatus::ConnectionPending),
    {
        matches!(self.role, EStatus::ConnectionPending)
    }

    pub fn is_candidate(&self) -> (r: bool)
        ensures
            r == (self@.role == EStatus::Candidate),
    {
        matches!(self.role, EStatus::Candidate)
    }

    pub fn is_leader(&self) -> (r: bool)
        ensures
            r == (self@.role == EStatus::Leader),
    {
        matches!(self.role, EStatus::Leader)
    }

    pub fn is_follower(&self) -> (r: bool)
        ensures
            r == (self@.role == EStatus::Follower),
    {
        matches!(self.role, EStatus::Follower)
    }
}

} // verus!
