//! The follower receive path for `AppendEntries`: normalize the input,
//! check it against the local log, apply the entries under the hook's
//! supervision, and advance the commit pointer.

use vstd::prelude::*;
use vstd::seq_lib::lemma_sorted_unique;
use vstd::relations::sorted_by;
use vstd::relations::total_ordering;
use crate::error::Error;
use crate::error::ErrorResult;
use crate::hook::Hook;
use crate::io_msg::AppendTermInput;
use crate::io_msg::AppendTermResult;
use crate::log_entry::EntriesView;
use crate::log_entry::LogEntry;
use crate::log_entry::LogEntryView;
use crate::log_entry::Term;
use crate::node::node_wf;
use crate::node::Node;
use crate::status::EStatus;
use crate::url::Url;

verus! {

broadcast use vstd::seq_lib::group_to_multiset_ensures;

/// The views of a sequence of entries.
pub open spec fn term_views(s: Seq<LogEntry>) -> Seq<LogEntryView> {
    s.map_values(|t: LogEntry| t@)
}

/// The ids of a sequence of entries.
pub open spec fn ids_of_terms(s: Seq<LogEntry>) -> Seq<int> {
    s.map_values(|t: LogEntry| t@.id)
}

/// The ids a correct message must carry between `prev_id` and `term_id`:
/// `prev_id + 1, ..., term_id - 1`.
pub open spec fn range_seq(prev_id: int, term_id: int) -> Seq<int> {
    Seq::new(
        if term_id > prev_id {
            (term_id - prev_id - 1) as nat
        } else {
            0
        },
        |i: int| prev_id + 1 + i,
    )
}

/// The entry-count and contiguity demand on a message, for entries taken
/// in the given order: either nothing stands between `prev` and `term`, or
/// the entries carry exactly the ids in between, ascending.
pub open spec fn entries_match_range(
    prev_id: int,
    term_id: int,
    entries: Seq<LogEntryView>,
) -> bool {
    &&& if term_id == prev_id {
        entries.len() == 0
    } else {
        entries.len() == term_id - prev_id - 1
    }
    &&& forall|i: int| 0 <= i < entries.len() ==> #[trigger] entries[i].id == prev_id + 1 + i
}

/// The previous-term demand: a stored entry at that id is either the same
/// entry or one that may still be rolled back; an absent one must be
/// already committed or the root id 1.
pub open spec fn prev_term_ok(log: EntriesView, prev: LogEntryView) -> bool {
    if log.store.contains_key(prev.id) {
        log.store[prev.id] == prev || prev.id > log.commit_index
    } else {
        prev.id <= log.commit_index || prev.id == 1
    }
}

/// The whole input check, for entries taken in the given order.
pub open spec fn input_checks(
    log: EntriesView,
    term: LogEntryView,
    prev: LogEntryView,
    entries: Seq<LogEntryView>,
    leader_commit: int,
) -> bool {
    &&& term.id >= log.current.id
    &&& leader_commit >= log.commit_index
    &&& prev.id <= term.id
    &&& entries_match_range(prev.id, term.id, entries)
    &&& prev_term_ok(log, prev)
}

/// The order-free acceptance predicate: what the checks demand of the raw
/// message, before its entries are sorted.  The multiset of entry ids must
/// be exactly the ids between `prev` and `term`.
pub open spec fn accepts(
    log: EntriesView,
    term: LogEntryView,
    prev: LogEntryView,
    entries: Seq<LogEntry>,
    leader_commit: int,
) -> bool {
    &&& term.id >= log.current.id
    &&& leader_commit >= log.commit_index
    &&& prev.id <= term.id
    &&& ids_of_terms(entries).to_multiset() == range_seq(prev.id, term.id).to_multiset()
    &&& prev_term_ok(log, prev)
}

/// Mapping two sequences with the same elements gives two sequences with
/// the same elements.
proof fn lemma_multiset_map<A, B>(s1: Seq<A>, s2: Seq<A>, f: spec_fn(A) -> B)
    requires
        s1.to_multiset() == s2.to_multiset(),
    ensures
        s1.map_values(f).to_multiset() == s2.map_values(f).to_multiset(),
    decreases s1.len(),
{
    if s1.len() == 0 {
        assert(s2.to_multiset().len() == 0);
        assert(s2.len() == 0);
        assert(s1.map_values(f) =~= s2.map_values(f));
    } else {
        let x = s1[0];
        assert(s1.to_multiset().contains(x));
        assert(s2.to_multiset().contains(x));
        let j = choose|j: int| 0 <= j < s2.len() && s2[j] == x;
        let s1r = s1.remove(0);
        let s2r = s2.remove(j);
        assert(s1r.to_multiset() =~= s2r.to_multiset()) by {
            assert(s1r.to_multiset() =~= s1.to_multiset().remove(x));
            assert(s2r.to_multiset() =~= s2.to_multiset().remove(x));
        }
        lemma_multiset_map(s1r, s2r, f);
        assert(s1r.map_values(f) =~= s1.map_values(f).remove(0));
        assert(s2r.map_values(f) =~= s2.map_values(f).remove(j));
        assert(s1.map_values(f).remove(0).to_multiset() =~= s1.map_values(f).to_multiset().remove(
            f(x),
        )) by {
            assert(s1.map_values(f)[0] == f(x));
        }
        assert(s2.map_values(f).remove(j).to_multiset() =~= s2.map_values(f).to_multiset().remove(
            f(x),
        )) by {
            assert(s2.map_values(f)[j] == f(x));
        }
        assert(s1.map_values(f).to_multiset() =~= s2.map_values(f).to_multiset()) by {
            let m1 = s1.map_values(f).to_multiset();
            let m2 = s2.map_values(f).to_multiset();
            assert(m1.remove(f(x)) =~= m2.remove(f(x)));
            assert(m1.contains(f(x))) by {
                assert(s1.map_values(f)[0] == f(x));
            }
            assert(m2.contains(f(x))) by {
                assert(s2.map_values(f)[j] == f(x));
            }
            assert forall|e: B| true implies m1.count(e) == m2.count(e) by {
                if e == f(x) {
                    assert(m1.count(e) == m1.remove(f(x)).count(e) + 1);
                    assert(m2.count(e) == m2.remove(f(x)).count(e) + 1);
                } else {
                    assert(m1.count(e) == m1.remove(f(x)).count(e));
                    assert(m2.count(e) == m2.remove(f(x)).count(e));
                }
            }
        }
    }
}

/// A sequence of entries sorted by id whose id multiset is exactly the
/// range between `prev` and `term` carries those ids ascending.
proof fn lemma_sorted_ids_are_range(prev_id: int, term_id: int, sorted: Seq<LogEntry>)
    requires
        prev_id <= term_id,
        forall|a: int, b: int|
            #![trigger sorted[a], sorted[b]]
            0 <= a < b < sorted.len() ==> sorted[a]@.id <= sorted[b]@.id,
        ids_of_terms(sorted).to_multiset() == range_seq(prev_id, term_id).to_multiset(),
    ensures
        entries_match_range(prev_id, term_id, term_views(sorted)),
{
    let leq = |x: int, y: int| x <= y;
    let ids = ids_of_terms(sorted);
    let range = range_seq(prev_id, term_id);
    assert(total_ordering(leq));
    assert(sorted_by(ids, leq)) by {
        assert forall|a: int, b: int| 0 <= a <= b < ids.len() implies leq(ids[a], ids[b]) by {
            if a < b {
                assert(sorted[a]@.id <= sorted[b]@.id);
            }
        }
    }
    assert(sorted_by(range, leq));
    lemma_sorted_unique(ids, range, leq);
    assert(ids =~= range);
    assert(ids.len() == sorted.len());
    assert forall|i: int| 0 <= i < term_views(sorted).len() implies #[trigger] term_views(
        sorted,
    )[i].id == prev_id + 1 + i by {
        assert(ids[i] == prev_id + 1 + i);
    }
}

/// The converse: entries carrying exactly the range, ascending, have the
/// range as their id multiset.
proof fn lemma_range_ids_multiset(prev_id: int, term_id: int, entries: Seq<LogEntry>)
    requires
        prev_id <= term_id,
        entries_match_range(prev_id, term_id, term_views(entries)),
    ensures
        ids_of_terms(entries).to_multiset() == range_seq(prev_id, term_id).to_multiset(),
{
    assert(ids_of_terms(entries) =~= range_seq(prev_id, term_id)) by {
        assert forall|i: int| 0 <= i < entries.len() implies ids_of_terms(entries)[i] == prev_id + 1
            + i by {
            assert(term_views(entries)[i].id == prev_id + 1 + i);
        }
    }
}

/// Whether some entry of the sequence carries the id.
pub open spec fn has_entry_with_id(entries: Seq<LogEntry>, id: int) -> bool {
    exists|i: int| 0 <= i < entries.len() && entries[i]@.id == id
}

/// An accepted `AppendEntries` message with entries carries exactly the
/// ids between `prev_term` and `term`: each id in between appears among
/// the entries, and every entry's id lies in between.
pub proof fn lemma_accepted_entry_ids(
    log: EntriesView,
    term: LogEntryView,
    prev: LogEntryView,
    entries: Seq<LogEntry>,
    leader_commit: int,
)
    requires
        accepts(log, term, prev, entries, leader_commit),
    ensures
        entries.len() == (if term.id == prev.id {
            0int
        } else {
            term.id - prev.id - 1
        }),
        forall|id: int| prev.id < id < term.id ==> #[trigger] has_entry_with_id(entries, id),
        forall|i: int| 0 <= i < entries.len() ==> prev.id < (#[trigger] entries[i])@.id < term.id,
{
    let ids = ids_of_terms(entries);
    let range = range_seq(prev.id, term.id);
    assert(ids.len() == ids.to_multiset().len());
    assert(range.len() == range.to_multiset().len());
    assert(ids.len() == entries.len());
    assert forall|id: int| prev.id < id < term.id implies #[trigger] has_entry_with_id(
        entries,
        id,
    ) by {
        let j = id - prev.id - 1;
        assert(range[j] == id);
        assert(range.to_multiset().contains(id)) by {
            assert(range.contains(id));
        }
        assert(ids.to_multiset().contains(id));
        assert(ids.contains(id));
        let i = choose|i: int| 0 <= i < ids.len() && ids[i] == id;
        assert(entries[i]@.id == id);
    }
    assert forall|i: int|
        0 <= i < entries.len() implies prev.id < (#[trigger] entries[i])@.id < term.id by {
        let id = entries[i]@.id;
        assert(ids[i] == id);
        assert(ids.to_multiset().contains(id)) by {
            assert(ids.contains(id));
        }
        assert(range.to_multiset().contains(id));
        assert(range.contains(id));
        let j = choose|j: int| 0 <= j < range.len() && range[j] == id;
        assert(range[j] == prev.id + 1 + j);
    }
}

/// Sort entries ascending by id.  The result holds exactly the given
/// entries.
pub fn sort_entries_by_id(entries: Vec<Term>) -> (r: Vec<Term>)
    ensures
        r@.len() == entries@.len(),
        forall|a: int, b: int|
            #![trigger r@[a], r@[b]]
            0 <= a < b < r@.len() ==> r@[a]@.id <= r@[b]@.id,
        r@.to_multiset() == entries@.to_multiset(),
{
    let mut src = entries;
    let mut out: Vec<Term> = Vec::new();
    proof {
        assert(out@.to_multiset().add(src@.to_multiset()) =~= src@.to_multiset());
    }
    while src.len() > 0
        invariant
            out@.to_multiset().add(src@.to_multiset()) == entries@.to_multiset(),
            out@.len() + src@.len() == entries@.len(),
            forall|a: int, b: int|
                #![trigger out@[a], out@[b]]
                0 <= a < b < out@.len() ==> out@[a]@.id <= out@[b]@.id,
            forall|a: int, j: int|
                #![trigger out@[a], src@[j]]
                0 <= a < out@.len() && 0 <= j < src@.len() ==> out@[a]@.id <= src@[j]@.id,
        decreases src@.len(),
    {
        let n = src.len();
        let mut m: usize = 0;
        let mut j: usize = 1;
        while j < n
            invariant
                0 <= m < n,
                1 <= j <= n,
                n == src@.len(),
                forall|k: int| 0 <= k < j ==> src@[m as int]@.id <= #[trigger] src@[k]@.id,
            decreases n - j,
        {
            if src[j].id < src[m].id {
                m = j;
            }
            j = j + 1;
        }
        let ghost pre_src = src@;
        let ghost pre_out = out@;
        let x = src.remove(m);
        out.push(x);
        proof {
            assert(pre_src[m as int] == x);
            assert(src@.to_multiset() =~= pre_src.to_multiset().remove(x));
            assert(out@.to_multiset() =~= pre_out.to_multiset().insert(x));
            assert(out@.to_multiset().add(src@.to_multiset()) =~= entries@.to_multiset()) by {
                let mo = pre_out.to_multiset();
                let ms = pre_src.to_multiset();
                assert(ms.contains(x));
                assert forall|e: LogEntry| true implies mo.insert(x).add(ms.remove(x)).count(e)
                    == mo.add(ms).count(e) by {}
            }
            assert forall|a: int, jj: int|
                #![trigger out@[a], src@[jj]]
                0 <= a < out@.len() && 0 <= jj < src@.len() implies out@[a]@.id
                <= src@[jj]@.id by {
                assert(src@[jj] == if jj < m { pre_src[jj] } else { pre_src[jj + 1] });
                if a < pre_out.len() {
                    assert(out@[a] == pre_out[a]);
                } else {
                    assert(out@[a] == x);
                }
            }
            assert forall|a: int, b: int|
                #![trigger out@[a], out@[b]]
                0 <= a < b < out@.len() implies out@[a]@.id <= out@[b]@.id by {
                if b == pre_out.len() as int {
                    assert(out@[b] == x);
                    assert(pre_src[m as int] == x);
                }
            }
        }
    }
    out
}

/// What became of one entry offered to the hook.
pub enum ApplyOutcome {
    /// The hook accepted it; it is stored (unless already committed).
    Accepted,
    /// The hook reported missing earlier entries; the message is refused.
    Rejected,
    /// The hook broke its contract.
    Fatal,
}

impl<H: Hook> Node<H> {
    /// Interpret the hook's `pre_append_term` answer for one entry and
    /// store the entry when the hook accepts it.  An entry at or under
    /// the commit pointer is never written again.
    fn apply_entry(&mut self, entry: &Term, pre: Option<usize>) -> (r: ApplyOutcome)
        requires
            node_wf(old(self)),
        ensures
            node_wf(final(self)),
            final(self).p_status == old(self).p_status,
            final(self).settings == old(self).settings,
            final(self).next_indexes == old(self).next_indexes,
            final(self).waiting_nodes == old(self).waiting_nodes,
            final(self).node_list == old(self).node_list,
            final(self).vote_for == old(self).vote_for,
            final(self).hook == old(self).hook,
            final(self).uuid == old(self).uuid,
            final(self).heartbeat_reset == old(self).heartbeat_reset,
            final(self).logs@.commit_index == old(self).logs@.commit_index,
            (pre is None) <==> r is Fatal,
            (match pre {
                Some(idx) => idx < entry@.id,
                None => false,
            }) <==> r is Rejected,
            (match pre {
                Some(idx) => idx >= entry@.id,
                None => false,
            }) <==> r is Accepted,
            (r is Fatal || r is Rejected) ==> *final(self) == *old(self),
            r is Accepted ==> (if entry@.id > old(self).logs@.commit_index {
                &&& final(self).logs@.store == old(self).logs@.store.remove_keys(
                    Set::new(|k: int| entry@.id <= k),
                ).insert(entry@.id, entry@)
                &&& final(self).logs@.last_index == entry@.id
                &&& final(self).logs@.current == entry@
            } else {
                *final(self) == *old(self)
            }),
    {
        match pre {
            Some(index) => {
                if index < entry.id {
                    ApplyOutcome::Rejected
                } else {
                    let commit = self.logs.commit_index();
                    if entry.id > commit {
                        self.logs.insert(entry);
                    }
                    let _persisted = self.hook.append_term(entry);
                    ApplyOutcome::Accepted
                }
            },
            None => ApplyOutcome::Fatal,
        }
    }

    /// Check an incoming message against the local log.  On failure the
    /// reply carries the current term and refuses; on success the node
    /// becomes (or stays) a follower of the sender, after rolling back a
    /// conflicting uncommitted entry at the previous id.
    fn check_input(&mut self, input: &AppendTermInput) -> (r: Result<(), AppendTermResult>)
        requires
            node_wf(old(self)),
        ensures
            node_wf(final(self)),
            final(self).settings == old(self).settings,
            final(self).next_indexes == old(self).next_indexes,
            final(self).waiting_nodes == old(self).waiting_nodes,
            final(self).node_list == old(self).node_list,
            final(self).vote_for == old(self).vote_for,
            final(self).hook == old(self).hook,
            final(self).uuid == old(self).uuid,
            final(self).heartbeat_reset == old(self).heartbeat_reset,
            final(self).logs@.commit_index == old(self).logs@.commit_index,
            r is Ok <==> input_checks(
                old(self).logs@,
                input.term@,
                input.prev_term@,
                term_views(input.entries@),
                input.leader_commit_index as int,
            ),
            r matches Err(res) ==> *final(self) == *old(self) && res.current_term@ == old(
                self).logs@.current && !res.success,
            r is Ok ==> {
                &&& (if old(self).logs@.store.contains_key(input.prev_term@.id) && old(
                    self).logs@.store[input.prev_term@.id] != input.prev_term@ {
                    &&& final(self).logs@.store == old(self).logs@.store.remove_keys(
                        Set::new(|k: int| input.prev_term@.id <= k),
                    ).insert(input.prev_term@.id, input.prev_term@)
                    &&& final(self).logs@.last_index == input.prev_term@.id
                    &&& final(self).logs@.current == input.prev_term@
                } else {
                    final(self).logs == old(self).logs
                })
                &&& final(self).p_status@.role == EStatus::Follower
                &&& (old(self).p_status@.role != EStatus::Follower ==> final(
                    self).p_status@.leader == Some(input.leader_id@))
                &&& (old(self).p_status@.role == EStatus::Follower ==> final(self).p_status == old(
                    self).p_status)
            },
    {
        let current = self.logs.current_term();
        if input.term.id < current.id {
            return Err(AppendTermResult { current_term: current, success: false });
        }
        if input.leader_commit_index < self.logs.commit_index() {
            return Err(AppendTermResult { current_term: current, success: false });
        }
        let term_id = input.term.id;
        let prev_id = input.prev_term.id;
        if prev_id > term_id {
            return Err(AppendTermResult { current_term: current, success: false });
        }
        if term_id == prev_id {
            if input.entries.len() != 0 {
                return Err(AppendTermResult { current_term: current, success: false });
            }
        } else {
            let expected: usize = term_id - prev_id - 1;
            if input.entries.len() != expected {
                return Err(AppendTermResult { current_term: current, success: false });
            }
            let n = input.entries.len();
            let mut i: usize = 0;
            while i < n
                invariant
                    0 <= i <= n,
                    n == input.entries@.len(),
                    prev_id == input.prev_term@.id,
                    term_id == input.term@.id,
                    prev_id < term_id,
                    n == term_id - prev_id - 1,
                    *self == *old(self),
                    node_wf(self),
                    current@ == old(self).logs@.current,
                    forall|j: int|
                        0 <= j < i ==> #[trigger] term_views(input.entries@)[j].id == prev_id + 1
                            + j,
                decreases n - i,
            {
                proof {
                    assert(prev_id + 1 + i <= term_id <= usize::MAX);
                }
                let expected_id: usize = prev_id + 1 + i;
                if input.entries[i].id != expected_id {
                    proof {
                        assert(term_views(input.entries@)[i as int].id == input.entries@[
                            i as int]@.id);
                    }
                    return Err(AppendTermResult { current_term: current, success: false });
                }
                i = i + 1;
            }
        }
        match self.logs.find(prev_id) {
            Some(local) => {
                if local != input.prev_term {
                    if prev_id > self.logs.commit_index() {
                        self.logs.insert(&input.prev_term);
                        let _persisted = self.hook.append_term(&input.prev_term);
                    } else {
                        // an entry at a committed id that differs cannot be
                        // rolled back: refuse the message
                        return Err(AppendTermResult { current_term: current, success: false });
                    }
                }
            },
            None => {
                let commit = self.logs.commit_index();
                if prev_id <= commit {
                    // already committed and evicted
                } else if prev_id == 1 {
                    // the root entry may arrive once
                } else {
                    return Err(AppendTermResult { current_term: current, success: false });
                }
            },
        }
        let res = self.switch_to_follower(Url::new(input.leader_id.clone()));
        proof {
            assert(res is Ok);
        }
        Ok(())
    }

    /// Reception of an `append_term` request.
    ///
    /// The entries are first put in id order.  A message that fails the
    /// input checks is refused with the pre-call current term and leaves
    /// the node unchanged.  An accepted message makes the node a follower
    /// of the sender, asks for a fresh heartbeat countdown, stores the
    /// offered entries as far as the hook accepts them, and advances the
    /// commit pointer no further than the leader's.  The commit pointer
    /// never retreats, and a successful reply means every check held:
    /// in particular the entry ids were exactly the ids between
    /// `prev_term` and `term`.
    pub fn receive_append_term(&mut self, input: AppendTermInput) -> (r: ErrorResult<
        AppendTermResult,
    >)
        requires
            node_wf(old(self)),
        ensures
            node_wf(final(self)),
            final(self).logs@.commit_index >= old(self).logs@.commit_index,
            final(self).logs@.commit_index <= old(self).logs@.commit_index || final(
                self).logs@.commit_index <= input.leader_commit_index,
            final(self).settings == old(self).settings,
            final(self).next_indexes == old(self).next_indexes,
            final(self).vote_for == old(self).vote_for,
            final(self).waiting_nodes == old(self).waiting_nodes,
            final(self).uuid == old(self).uuid,
            final(self).hook == old(self).hook,
            !accepts(
                old(self).logs@,
                input.term@,
                input.prev_term@,
                input.entries@,
                input.leader_commit_index as int,
            ) ==> *final(self) == *old(self) && (match r {
                Ok(res) => res.current_term@ == old(self).logs@.current && !res.success,
                Err(_) => false,
            }),
            (match r {
                Ok(res) => res.current_term@ == final(self).logs@.current,
                Err(e) => e is HookContractViolation,
            }),
            // a message that passes the input checks makes the node a
            // follower of the sender and restarts the heartbeat countdown,
            // whatever the hook then answers; a node already following
            // keeps its leader
            accepts(
                old(self).logs@,
                input.term@,
                input.prev_term@,
                input.entries@,
                input.leader_commit_index as int,
            ) ==> {
                &&& final(self).p_status@.role == EStatus::Follower
                &&& final(self).heartbeat_reset
                &&& (old(self).p_status@.role != EStatus::Follower ==> final(
                    self).p_status@.leader == Some(input.leader_id@))
            },
            (match r {
                Ok(res) => res.success ==> {
                    &&& accepts(
                        old(self).logs@,
                        input.term@,
                        input.prev_term@,
                        input.entries@,
                        input.leader_commit_index as int,
                    )
                    &&& final(self).logs@.current.id <= input.term@.id
                    &&& final(self).p_status@.role == EStatus::Follower
                    &&& final(self).heartbeat_reset
                },
                Err(_) => true,
            }),
    {
        let AppendTermInput { term, leader_id, prev_term, entries, leader_commit_index } = input;
        let entries = sort_entries_by_id(entries);
        let sorted = AppendTermInput { term, leader_id, prev_term, entries, leader_commit_index };
        let ghost sorted_snap = sorted.entries@;
        let checks = self.check_input(&sorted);
        match checks {
            Err(res) => {
                proof {
                    if accepts(
                        old(self).logs@,
                        input.term@,
                        input.prev_term@,
                        input.entries@,
                        input.leader_commit_index as int,
                    ) {
                        lemma_multiset_map(
                            input.entries@,
                            sorted_snap,
                            |t: LogEntry| t@.id,
                        );
                        lemma_sorted_ids_are_range(
                            input.prev_term@.id,
                            input.term@.id,
                            sorted_snap,
                        );
                        assert(false);
                    }
                }
                return Ok(res);
            },
            Ok(_) => {},
        }
        proof {
            lemma_range_ids_multiset(input.prev_term@.id, input.term@.id, sorted_snap);
            lemma_multiset_map(sorted_snap, input.entries@, |t: LogEntry| t@.id);
            assert(accepts(
                old(self).logs@,
                input.term@,
                input.prev_term@,
                input.entries@,
                input.leader_commit_index as int,
            ));
        }
        self.reset_timeout();
        if sorted.prev_term.id == 1 {
            let pre = self.hook.pre_append_term(&sorted.prev_term);
            match self.apply_entry(&sorted.prev_term, pre) {
                ApplyOutcome::Rejected => {
                    let current_term = self.logs.current_term();
                    return Ok(AppendTermResult { current_term, success: false });
                },
                ApplyOutcome::Fatal => {
                    return Err(Error::HookContractViolation("pre_append_term returned nothing"));
                },
                ApplyOutcome::Accepted => {},
            }
        } else {
            let n = sorted.entries.len();
            let mut i: usize = 0;
            while i < n
                invariant
                    0 <= i <= n,
                    n == sorted.entries@.len(),
                    node_wf(self),
                    self.logs@.commit_index == old(self).logs@.commit_index,
                    self.p_status@.role == EStatus::Follower,
                    old(self).p_status@.role != EStatus::Follower ==> self.p_status@.leader
                        == Some(input.leader_id@),
                    self.settings == old(self).settings,
                    self.next_indexes == old(self).next_indexes,
                    self.waiting_nodes == old(self).waiting_nodes,
                    self.vote_for == old(self).vote_for,
                    self.hook == old(self).hook,
                    self.uuid == old(self).uuid,
                    self.heartbeat_reset,
                    accepts(
                        old(self).logs@,
                        input.term@,
                        input.prev_term@,
                        input.entries@,
                        input.leader_commit_index as int,
                    ),
                decreases n - i,
            {
                let entry = &sorted.entries[i];
                if entry.id <= self.logs.commit_index() {
                    i = i + 1;
                    continue ;
                }
                let pre = self.hook.pre_append_term(entry);
                match self.apply_entry(entry, pre) {
                    ApplyOutcome::Rejected => {
                        let current_term = self.logs.current_term();
                        return Ok(AppendTermResult { current_term, success: false });
                    },
                    ApplyOutcome::Fatal => {
                        return Err(
                            Error::HookContractViolation("pre_append_term returned nothing"),
                        );
                    },
                    ApplyOutcome::Accepted => {},
                }
                i = i + 1;
            }
            let pre = self.hook.pre_append_term(&sorted.term);
            match self.apply_entry(&sorted.term, pre) {
                ApplyOutcome::Rejected => {
                    let current_term = self.logs.current_term();
                    return Ok(AppendTermResult { current_term, success: false });
                },
                ApplyOutcome::Fatal => {
                    return Err(Error::HookContractViolation("pre_append_term returned nothing"));
                },
                ApplyOutcome::Accepted => {},
            }
        }
        self.commit_entries(leader_commit_index);
        let current_term = self.logs.current_term();
        let current_term_id = current_term.id;
        Ok(AppendTermResult { current_term, success: current_term_id <= sorted.term.id })
    }
}

} // verus!
