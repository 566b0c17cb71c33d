//! The join workflow decisions: what a starting node does around its
//! first contacts, and how a running node answers a joiner.

use vstd::prelude::*;
use crate::commit::own_addr_spec;
use crate::error::Error;
use crate::error::ErrorResult;
use crate::hook::Hook;
use crate::io_msg::UpdateNodeResult;
use crate::node::node_wf;
use crate::node::Node;
use crate::node::NodeInfo;
use crate::status::EStatus;
use crate::url::Url;

verus! {

impl<H: Hook> Node<H> {
    /// A node may only run its initialization while its connection is
    /// pending.
    pub fn check_initial_status(&self) -> (r: ErrorResult<()>)
        ensures
            r is Ok <==> self.p_status@.role == EStatus::ConnectionPending,
            r is Err ==> r == Err::<(), Error>(Error::WrongStatus),
    {
        if !self.p_status.is_pending() {
            return Err(Error::WrongStatus);
        }
        Ok(())
    }

    /// What to do once every seed peer was tried: a connected node stays
    /// as it is (a follower by now); one that reached nobody becomes a
    /// candidate, unless it is configured as a pure follower.
    pub fn after_connect(&mut self, connected: bool) -> (r: ErrorResult<()>)
        requires
            node_wf(old(self)),
        ensures
            node_wf(final(self)),
            final(self).settings == old(self).settings,
            final(self).logs == old(self).logs,
            final(self).next_indexes == old(self).next_indexes,
            final(self).waiting_nodes == old(self).waiting_nodes,
            final(self).node_list == old(self).node_list,
            final(self).vote_for == old(self).vote_for,
            final(self).hook == old(self).hook,
            final(self).uuid == old(self).uuid,
            final(self).heartbeat_reset == old(self).heartbeat_reset,
            (connected || old(self).settings.follower) ==> r == Ok::<(), Error>(()) && *final(self)
                == *old(self),
            (!connected && !old(self).settings.follower) ==> (
            if crate::status::transition_allowed(old(self).p_status@.role, EStatus::Candidate) {
                r == Ok::<(), Error>(()) && final(self).p_status@.role == EStatus::Candidate
            } else {
                r == Err::<(), Error>(Error::WrongStatus) && final(self).p_status@ == old(
                    self).p_status@
            }),
    {
        if !connected {
            if !self.settings.follower {
                match self.switch_to_candidate() {
                    Ok(_) => {},
                    Err(e) => {
                        return Err(e);
                    },
                }
            }
        }
        Ok(())
    }

    /// A successful `update_node` answer names the leader: follow it.
    pub fn update(&mut self, result: UpdateNodeResult) -> (r: ErrorResult<()>)
        requires
            node_wf(old(self)),
        ensures
            node_wf(final(self)),
            r is Ok,
            final(self).settings == old(self).settings,
            final(self).logs == old(self).logs,
            final(self).next_indexes == old(self).next_indexes,
            final(self).waiting_nodes == old(self).waiting_nodes,
            final(self).node_list == old(self).node_list,
            final(self).vote_for == old(self).vote_for,
            final(self).hook == old(self).hook,
            final(self).uuid == old(self).uuid,
            final(self).heartbeat_reset == old(self).heartbeat_reset,
            old(self).p_status@.role != EStatus::Follower ==> final(self).p_status@.role
                == EStatus::Follower && final(self).p_status@.leader == Some(result.leader_id@),
            old(self).p_status@.role == EStatus::Follower ==> final(self).p_status == old(
                self).p_status,
    {
        self.switch_to_follower(Url::new(result.leader_id))
    }

    /// Answer a joiner's `update_node`.  The hook may refuse it.  A
    /// leader queues the joiner for a membership entry and names itself;
    /// any other node names the leader it knows, or nobody.
    pub fn receive_connection_request(&mut self, input: NodeInfo) -> (r: Option<UpdateNodeResult>)
        requires
            node_wf(old(self)),
        ensures
            node_wf(final(self)),
            final(self).p_status == old(self).p_status,
            final(self).settings == old(self).settings,
            final(self).logs == old(self).logs,
            final(self).next_indexes == old(self).next_indexes,
            final(self).node_list == old(self).node_list,
            final(self).vote_for == old(self).vote_for,
            final(self).hook == old(self).hook,
            final(self).uuid == old(self).uuid,
            final(self).heartbeat_reset == old(self).heartbeat_reset,
            r is None ==> final(self).waiting_nodes == old(self).waiting_nodes,
            match r {
                Some(res) => {
                    &&& res.node_list@.len() == old(self).node_list@.len()
                    &&& (forall|i: int|
                        #![auto]
                        0 <= i < res.node_list@.len() ==> res.node_list@[i]@ == old(
                            self).node_list@[i]@)
                    &&& (old(self).p_status@.role == EStatus::Leader ==> res.leader_id@
                        == own_addr_spec(&old(self).settings) && final(self).waiting_nodes@ == old(
                        self).waiting_nodes@.push(input.addr))
                    &&& (old(self).p_status@.role != EStatus::Leader ==> final(
                        self).waiting_nodes == old(self).waiting_nodes && (match old(
                        self).p_status@.leader {
                        Some(l) => res.leader_id@ == l,
                        None => res.leader_id@.len() == 0,
                    }))
                },
                None => true,
            },
    {
        if !self.hook.update_node() {
            return None;
        }
        if self.p_status.is_leader() {
            // queue the joiner: its admission is replicated through a
            // membership entry the term-preparation loop will build
            let node_list = self.get_node_list();
            let leader_id = self.own_addr();
            self.waiting_nodes.push(input.addr);
            return Some(UpdateNodeResult { leader_id, node_list });
        }
        let leader_id = match self.p_status.get_leader() {
            Some(leader) => leader.as_string(),
            None => String::new(),
        };
        Some(UpdateNodeResult { leader_id, node_list: self.get_node_list() })
    }
}

} // verus!
