//! Commit advancement: move the commit pointer forward one id at a time,
//! fire the hook for each committed entry, and register the peers that
//! committed membership entries announce.

use vstd::prelude::*;
use vstd::string::StringExecFns;
use crate::config::Settings;
use crate::hook::Hook;
use crate::node::decode_conn_entry;
use crate::node::is_conn_content;
use crate::node::conn_addr_of;
use crate::node::node_wf;
use crate::node::seq_contains_str;
use crate::node::vec_contains_string;
use crate::node::Node;

verus! {

/// The node's own `addr:port` string.
pub open spec fn own_addr_spec(s: &Settings) -> Seq<char> {
    s.addr@ + ":"@ + s.port@
}

/// A peer address taken out of an entry that was committed in the window
/// `(from, to]` of the store, and that is not the node's own address.
pub open spec fn conn_peer_committed(
    store: Map<int, crate::log_entry::LogEntryView>,
    from: int,
    to: int,
    settings: &Settings,
    addr: Seq<char>,
) -> bool {
    exists|k: int|
        #![auto]
        from < k <= to && store.contains_key(k) && is_conn_content(store[k].content) && addr
            == conn_addr_of(store[k].content) && addr != own_addr_spec(settings)
}

impl<H: Hook> Node<H> {
    /// The node's own `addr:port`.
    pub fn own_addr(&self) -> (r: String)
        ensures
            r@ == own_addr_spec(&self.settings),
    {
        let mut s = self.settings.addr.clone();
        s.append(":");
        s.append(self.settings.port.as_str());
        s
    }

    /// Put a freshly announced peer into the voting set, unless it is the
    /// node itself or already present.
    fn register_peer(&mut self, addr: String)
        ensures
            final(self).p_status == old(self).p_status,
            final(self).settings == old(self).settings,
            final(self).logs == old(self).logs,
            final(self).next_indexes == old(self).next_indexes,
            final(self).waiting_nodes == old(self).waiting_nodes,
            final(self).vote_for == old(self).vote_for,
            final(self).hook == old(self).hook,
            final(self).uuid == old(self).uuid,
            final(self).heartbeat_reset == old(self).heartbeat_reset,
            (addr@ == own_addr_spec(&old(self).settings) || seq_contains_str(
                old(self).node_list@,
                addr@,
            )) ==> final(self).node_list == old(self).node_list,
            !(addr@ == own_addr_spec(&old(self).settings) || seq_contains_str(
                old(self).node_list@,
                addr@,
            )) ==> final(self).node_list@ == old(self).node_list@.push(addr),
            (forall|i: int, j: int|
                #![trigger old(self).node_list@[i]@, old(self).node_list@[j]@]
                0 <= i < j < old(self).node_list@.len() ==> old(self).node_list@[i]@ != old(
                    self).node_list@[j]@) ==> (forall|i: int, j: int|
                #![trigger final(self).node_list@[i]@, final(self).node_list@[j]@]
                0 <= i < j < final(self).node_list@.len() ==> final(self).node_list@[i]@ != final(
                    self).node_list@[j]@),
    {
        let own = self.own_addr();
        if addr.eq(&own) {
            return ;
        }
        if vec_contains_string(&self.node_list, &addr) {
            return ;
        }
        let ghost pre = self.node_list@;
        self.node_list.push(addr);
        proof {
            assert forall|i: int, j: int|
                #![trigger self.node_list@[i]@, self.node_list@[j]@]
                0 <= i < j < self.node_list@.len() && (forall|a: int, b: int|
                    #![trigger pre[a]@, pre[b]@]
                    0 <= a < b < pre.len() ==> pre[a]@ != pre[b]@) implies self.node_list@[i]@
                != self.node_list@[j]@ by {
                if j == pre.len() {
                    assert(!seq_contains_str(pre, self.node_list@[j]@));
                    assert(pre[i]@ == self.node_list@[i]@);
                }
            }
        }
    }

    /// Commit up to `new_commit_index` included, stopping early where the
    /// next id is not in the store.  Each committed entry is handed to the
    /// hook, and a committed membership entry admits its peer.  The commit
    /// pointer never retreats.
    pub fn commit_entries(&mut self, new_commit_index: usize)
        requires
            node_wf(old(self)),
        ensures
            node_wf(final(self)),
            final(self).logs@.commit_index >= old(self).logs@.commit_index,
            final(self).logs@.commit_index <= new_commit_index || final(self).logs@.commit_index
                == old(self).logs@.commit_index,
            final(self).logs@.last_index == old(self).logs@.last_index,
            final(self).logs@.current == old(self).logs@.current,
            final(self).logs@.store == old(self).logs@.store.remove_keys(
                Set::new(
                    |k: int|
                        old(self).logs@.commit_index < k <= final(self).logs@.commit_index,
                ),
            ),
            final(self).p_status == old(self).p_status,
            final(self).settings == old(self).settings,
            final(self).next_indexes == old(self).next_indexes,
            final(self).waiting_nodes == old(self).waiting_nodes,
            final(self).vote_for == old(self).vote_for,
            final(self).hook == old(self).hook,
            final(self).uuid == old(self).uuid,
            final(self).heartbeat_reset == old(self).heartbeat_reset,
            // where every id of the window is stored, the pointer reaches the target
            (old(self).logs@.commit_index < new_commit_index <= old(self).logs@.last_index && (
            forall|k: int|
                old(self).logs@.commit_index < k <= new_commit_index ==> old(
                    self).logs@.store.contains_key(k))) ==> final(self).logs@.commit_index
                == new_commit_index,
            // and it stops exactly at the first gap: short of the target,
            // the next id is missing or beyond the last index
            old(self).logs@.commit_index < new_commit_index ==> (final(self).logs@.commit_index
                == new_commit_index || final(self).logs@.commit_index + 1 > old(
                self).logs@.last_index || !old(self).logs@.store.contains_key(
                final(self).logs@.commit_index + 1,
            )),
            // no peer is lost
            forall|i: int|
                #![auto]
                0 <= i < old(self).node_list@.len() ==> seq_contains_str(
                    final(self).node_list@,
                    old(self).node_list@[i]@,
                ),
            // every new peer was announced by an entry committed here
            forall|i: int|
                #![auto]
                0 <= i < final(self).node_list@.len() ==> seq_contains_str(
                    old(self).node_list@,
                    final(self).node_list@[i]@,
                ) || conn_peer_committed(
                    old(self).logs@.store,
                    old(self).logs@.commit_index,
                    final(self).logs@.commit_index,
                    &old(self).settings,
                    final(self).node_list@[i]@,
                ),
    {
        let commit_now = self.logs.commit_index();
        if commit_now >= new_commit_index {
            proof {
                assert(self.logs@.store =~= old(self).logs@.store.remove_keys(
                    Set::new(
                        |k: int|
                            old(self).logs@.commit_index < k <= final(self).logs@.commit_index,
                    ),
                ));
            }
            return ;
        }
        let mut index = commit_now + 1;
        while index <= new_commit_index
            invariant_except_break
                node_wf(self),
                old(self).logs@.commit_index < index <= new_commit_index,
                self.logs@.commit_index == index - 1,
            invariant
                new_commit_index <= usize::MAX,
                self.logs@.commit_index >= old(self).logs@.commit_index,
                self.logs@.commit_index <= new_commit_index,
                self.logs@.last_index == old(self).logs@.last_index,
                self.logs@.current == old(self).logs@.current,
                self.logs@.store == old(self).logs@.store.remove_keys(
                    Set::new(
                        |k: int| old(self).logs@.commit_index < k <= self.logs@.commit_index,
                    ),
                ),
                self.p_status == old(self).p_status,
                self.settings == old(self).settings,
                self.next_indexes == old(self).next_indexes,
                self.waiting_nodes == old(self).waiting_nodes,
                self.vote_for == old(self).vote_for,
                self.hook == old(self).hook,
                self.uuid == old(self).uuid,
                self.heartbeat_reset == old(self).heartbeat_reset,
                node_wf(self),
                forall|i: int|
                    #![auto]
                    0 <= i < old(self).node_list@.len() ==> seq_contains_str(
                        self.node_list@,
                        old(self).node_list@[i]@,
                    ),
                forall|i: int|
                    #![auto]
                    0 <= i < self.node_list@.len() ==> seq_contains_str(
                        old(self).node_list@,
                        self.node_list@[i]@,
                    ) || conn_peer_committed(
                        old(self).logs@.store,
                        old(self).logs@.commit_index,
                        self.logs@.commit_index,
                        &old(self).settings,
                        self.node_list@[i]@,
                    ),
            ensures
                self.logs@.commit_index == new_commit_index || self.logs@.commit_index + 1 > old(
                    self).logs@.last_index || !old(self).logs@.store.contains_key(
                    self.logs@.commit_index + 1,
                ),
            decreases new_commit_index - index,
        {
            if !self.logs.check_commit(index) {
                proof {
                    assert(index > self.logs@.last_index);
                }
                break ;
            }
            let term = match self.logs.find(index) {
                Some(t) => t,
                None => {
                    proof {
                        assert(!old(self).logs@.store.contains_key(index as int));
                    }
                    break ;
                },
            };
            let ghost pre_commit = self.logs@.commit_index;
            self.logs.set_commit(index);
            proof {
                assert(self.logs@.store =~= old(self).logs@.store.remove_keys(
                    Set::new(
                        |k: int| old(self).logs@.commit_index < k <= self.logs@.commit_index,
                    ),
                ));
            }
            let _applied = self.hook.commit_term(&term);
            let ghost pre_nl = self.node_list@;
            match decode_conn_entry(&term.content) {
                Some(addr) => {
                    proof {
                        assert(old(self).logs@.store.contains_key(index as int));
                        assert(old(self).logs@.store[index as int].content == term.content@);
                    }
                    self.register_peer(addr);
                },
                None => {},
            }
            proof {
                assert forall|i: int|
                    #![auto]
                    0 <= i < old(self).node_list@.len() implies seq_contains_str(
                    self.node_list@,
                    old(self).node_list@[i]@,
                ) by {
                    let w = choose|w: int|
                        0 <= w < pre_nl.len() && pre_nl[w]@ == old(self).node_list@[i]@;
                    assert(self.node_list@[w]@ == old(self).node_list@[i]@);
                }
                assert forall|i: int|
                    #![auto]
                    0 <= i < self.node_list@.len() implies (seq_contains_str(
                    old(self).node_list@,
                    self.node_list@[i]@,
                ) || conn_peer_committed(
                    old(self).logs@.store,
                    old(self).logs@.commit_index,
                    self.logs@.commit_index,
                    &old(self).settings,
                    self.node_list@[i]@,
                )) by {
                    if i < pre_nl.len() {
                        assert(self.node_list@[i]@ == pre_nl[i]@);
                        if !seq_contains_str(old(self).node_list@, pre_nl[i]@)
                            && conn_peer_committed(
                            old(self).logs@.store,
                            old(self).logs@.commit_index,
                            pre_commit,
                            &old(self).settings,
                            pre_nl[i]@,
                        ) {
                            let k = choose|k: int|
                                #![auto]
                                old(self).logs@.commit_index < k <= pre_commit && old(
                                    self).logs@.store.contains_key(k) && is_conn_content(
                                    old(self).logs@.store[k].content,
                                ) && pre_nl[i]@ == conn_addr_of(old(self).logs@.store[k].content)
                                    && pre_nl[i]@ != own_addr_spec(&old(self).settings);
                            assert(old(self).logs@.commit_index < k <= self.logs@.commit_index);
                        }
                    } else {
                        assert(old(self).logs@.store.contains_key(index as int));
                    }
                }
            }
            if index == new_commit_index {
                break ;
            }
            index = index + 1;
        }
    }
}

} // verus!
