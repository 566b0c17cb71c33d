//! The replicated log store: entries keyed by id, a last-index pointer, a
//! commit pointer and the current (most recently inserted) entry.

use vstd::prelude::*;
use std::collections::HashMap;

verus! {

broadcast use vstd::std_specs::hash::group_hash_axioms;

/// One replicated record: its position in the log, its creation time and
/// its opaque payload.
#[derive(Debug)]
pub struct LogEntry {
    pub id: usize,
    pub timestamp: String,
    pub content: String,
}

/// Raft's name for a log entry in this code base.
pub type Term = LogEntry;

/// Mathematical image of a log entry.
pub ghost struct LogEntryView {
    pub id: int,
    pub timestamp: Seq<char>,
    pub content: Seq<char>,
}

impl View for LogEntry {
    type V = LogEntryView;

    open spec fn view(&self) -> LogEntryView {
        LogEntryView { id: self.id as int, timestamp: self.timestamp@, content: self.content@ }
    }
}

impl Clone for LogEntry {
    fn clone(&self) -> (r: Self)
        ensures
            r@ == self@,
    {
        LogEntry {
            id: self.id,
            timestamp: self.timestamp.clone(),
            content: self.content.clone(),
        }
    }
}

impl PartialEq for LogEntry {
    fn eq(&self, other: &Self) -> (r: bool) {
        self.id == other.id && self.content == other.content && self.timestamp == other.timestamp
    }
}

impl vstd::std_specs::cmp::PartialEqSpecImpl for LogEntry {
    open spec fn obeys_eq_spec() -> bool {
        true
    }

    open spec fn eq_spec(&self, other: &LogEntry) -> bool {
        self@ == other@
    }
}

/// Relies on chrono's `Utc::now().to_rfc3339_opts(SecondsFormat::Nanos, false)`:
/// the wall-clock creation time rendered as an RFC 3339 string.  The clock
/// decides the value, so nothing is promised of it.
#[verifier::external_body]
pub(crate) fn now_timestamp() -> String {
    chrono::Utc::now().to_rfc3339_opts(chrono::SecondsFormat::Nanos, false)
}

/// The log store.  Committed entries are evicted from `inner`; the hook is
/// the place to retrieve them again.
pub struct Entries {
    inner: HashMap<usize, LogEntry>,
    latest: usize,
    commit_index: usize,
    current: LogEntry,
}

/// Mathematical image of the log store.
pub ghost struct EntriesView {
    pub store: Map<int, LogEntryView>,
    pub last_index: int,
    pub commit_index: int,
    pub current: LogEntryView,
}

/// Well-formedness of the store: the commit pointer never passes the last
/// index, and every stored entry sits under the last index, at the key that
/// equals its own id.
pub open spec fn entries_wf(v: EntriesView) -> bool {
    &&& 0 <= v.commit_index <= v.last_index <= usize::MAX
    &&& forall|k: int|
        #[trigger] v.store.contains_key(k) ==> 0 < k <= v.last_index && v.store[k].id == k
}

impl View for Entries {
    type V = EntriesView;

    closed spec fn view(&self) -> EntriesView {
        EntriesView {
            store: Map::new(
                |k: int| 0 <= k <= usize::MAX && self.inner@.contains_key(k as usize),
                |k: int| self.inner@[k as usize]@,
            ),
            last_index: self.latest as int,
            commit_index: self.commit_index as int,
            current: self.current@,
        }
    }
}

impl Entries {
    /// An empty store: no entries, both pointers at zero, and the implicit
    /// empty root as the current entry.
    pub fn new() -> (r: Entries)
        ensures
            r@.store == Map::<int, LogEntryView>::empty(),
            r@.last_index == 0,
            r@.commit_index == 0,
            r@.current.id == 0,
            r@.current.timestamp.len() == 0,
            r@.current.content.len() == 0,
            entries_wf(r@),
    {
        let r = Entries {
            inner: HashMap::new(),
            latest: 0,
            commit_index: 0,
            current: LogEntry { id: 0, timestamp: String::new(), content: String::new() },
        };
        proof {
            assert(r@.store =~= Map::<int, LogEntryView>::empty());
        }
        r
    }

    /// Whether an entry with the id of `term` is stored.
    pub fn contains(&self, term: &Term) -> (r: bool)
        ensures
            r == self@.store.contains_key(term@.id),
    {
        self.inner.contains_key(&term.id)
    }

    /// Insert or replace a term.  Inserting at an id not above the last
    /// index first deletes every id from there on (rollback on conflict);
    /// inserting at a committed id is a caller error and is ruled out.
    pub fn insert(&mut self, term: &Term)
        requires
            entries_wf(old(self)@),
            term@.id > old(self)@.commit_index,
        ensures
            entries_wf(final(self)@),
            final(self)@.store == old(self)@.store.remove_keys(
                Set::new(|k: int| term@.id <= k),
            ).insert(term@.id, term@),
            final(self)@.last_index == term@.id,
            final(self)@.current == term@,
            final(self)@.commit_index == old(self)@.commit_index,
            final(self)@.store.contains_key(term@.id) && final(self)@.store[term@.id] == term@,
            forall|k: int| k > term@.id ==> !final(self)@.store.contains_key(k),
            forall|k: int|
                k < term@.id ==> final(self)@.store.contains_key(k) == old(
                    self)@.store.contains_key(k) && (old(self)@.store.contains_key(k) ==> final(
                    self)@.store[k] == old(self)@.store[k]),
    {
        if term.id <= self.latest {
            let ghost start = self.inner@;
            let mut i: usize = term.id;
            while i < self.latest
                invariant
                    term.id <= i <= self.latest,
                    self.latest == old(self).latest,
                    self.commit_index == old(self).commit_index,
                    self.current == old(self).current,
                    self.inner@ == start.remove_keys(Set::new(|k: usize| term.id <= k < i)),
                decreases self.latest - i,
            {
                self.inner.remove(&i);
                proof {
                    assert(self.inner@ =~= start.remove_keys(
                        Set::new(|k: usize| term.id <= k < i + 1),
                    ));
                }
                i = i + 1;
            }
            let last = self.latest;
            self.inner.remove(&last);
            proof {
                assert(self.inner@ =~= start.remove_keys(
                    Set::new(|k: usize| term.id <= k <= old(self).latest),
                ));
            }
        }
        self.latest = term.id;
        self.current = term.clone();
        let t = term.clone();
        self.inner.insert(t.id, t);
        proof {
            let m1 = self@.store;
            let m2 = old(self)@.store.remove_keys(Set::new(|k: int| term@.id <= k)).insert(
                term@.id,
                term@,
            );
            assert forall|k: int| m1.contains_key(k) implies m2.contains_key(k) by {
                assert(0 <= k <= usize::MAX);
                assert(self.inner@.contains_key(k as usize));
                if k != term@.id {
                    assert(old(self).inner@.contains_key(k as usize));
                    assert(old(self)@.store.contains_key(k));
                    assert(k <= old(self)@.last_index);
                    assert(k < term@.id);
                }
            }
            assert forall|k: int| m2.contains_key(k) implies m1.contains_key(k) by {
                if k == term@.id {
                    assert(self.inner@.contains_key(k as usize));
                } else {
                    assert(old(self)@.store.contains_key(k) && k < term@.id);
                    assert(old(self).inner@.contains_key(k as usize));
                    assert(self.inner@.contains_key(k as usize));
                }
            }
            assert forall|k: int| m1.contains_key(k) implies m1[k] == m2[k] by {
                assert(m2.contains_key(k));
            }
            assert(m1 =~= m2);
        }
    }

    /// Create and store a new term with the given content at the next id,
    /// stamped with the wall-clock time.  Returns the created term.
    pub fn append(&mut self, content: String) -> (r: Term)
        requires
            entries_wf(old(self)@),
            old(self)@.last_index < usize::MAX,
        ensures
            entries_wf(final(self)@),
            r@.id == old(self)@.last_index + 1,
            r@.content == content@,
            final(self)@.store == old(self)@.store.insert(r@.id, r@),
            final(self)@.last_index == r@.id,
            final(self)@.current == r@,
            final(self)@.commit_index == old(self)@.commit_index,
    {
        let id = self.latest + 1;
        let timestamp = now_timestamp();
        let t = Term { id, timestamp, content };
        self.insert(&t);
        proof {
            assert(self@.store =~= old(self)@.store.insert(t@.id, t@));
        }
        t
    }

    /// Look an entry up by id.
    pub fn find(&self, index: usize) -> (r: Option<Term>)
        ensures
            match r {
                Some(t) => self@.store.contains_key(index as int) && t@ == self@.store[
                    index as int],
                None => !self@.store.contains_key(index as int),
            },
    {
        match self.inner.get(&index) {
            Some(t) => Some(t.clone()),
            None => None,
        }
    }

    /// Whether `index` may become the commit index: above the current
    /// commit pointer and not beyond the last index.
    pub fn check_commit(&self, index: usize) -> (r: bool)
        ensures
            r == (self@.commit_index < index && index <= self@.last_index),
    {
        if index <= self.commit_index {
            return false;
        }
        if index > self.latest {
            return false;
        }
        true
    }

    /// Advance the commit pointer to `index` and evict that entry, or do
    /// nothing when `index` is not commitable.  The commit pointer never
    /// moves backwards.
    pub fn set_commit(&mut self, index: usize)
        ensures
            final(self)@.commit_index >= old(self)@.commit_index,
            (old(self)@.commit_index < index && index <= old(self)@.last_index) ==> {
                &&& final(self)@.store == old(self)@.store.remove(index as int)
                &&& final(self)@.commit_index == index
                &&& final(self)@.last_index == old(self)@.last_index
                &&& final(self)@.current == old(self)@.current
            },
            !(old(self)@.commit_index < index && index <= old(self)@.last_index) ==> final(
                self)@ == old(self)@,
            entries_wf(old(self)@) ==> entries_wf(final(self)@),
    {
        if self.check_commit(index) {
            self.inner.remove(&index);
            self.commit_index = index;
            proof {
                assert(self@.store =~= old(self)@.store.remove(index as int));
            }
        }
    }

    /// The latest entry, or a freshly appended `"default"` entry when the
    /// store holds nothing at the last index.  The flag says whether the
    /// returned entry was created by this call.
    pub fn latest(&mut self) -> (r: (bool, Term))
        requires
            entries_wf(old(self)@),
            old(self)@.last_index < usize::MAX,
        ensures
            entries_wf(final(self)@),
            final(self)@.commit_index == old(self)@.commit_index,
            old(self)@.store.contains_key(old(self)@.last_index) ==> {
                &&& !r.0
                &&& r.1@ == old(self)@.store[old(self)@.last_index]
                &&& final(self)@ == old(self)@
            },
            !old(self)@.store.contains_key(old(self)@.last_index) ==> {
                &&& r.0
                &&& r.1@.id == old(self)@.last_index + 1
                &&& r.1@.content == "default"@
                &&& final(self)@.store == old(self)@.store.insert(r.1@.id, r.1@)
                &&& final(self)@.last_index == r.1@.id
                &&& final(self)@.current == r.1@
            },
    {
        let last = self.latest;
        match self.inner.get(&last) {
            Some(t) => {
                let t = t.clone();
                (false, t)
            },
            None => {
                let t = self.append("default".to_owned());
                (true, t)
            },
        }
    }

    /// The largest inserted id.
    pub fn last_index(&self) -> (r: usize)
        ensures
            r == self@.last_index,
    {
        self.latest
    }

    /// Overwrite the last-index pointer.  The pointer may not drop under
    /// the commit index nor under a stored entry.
    pub fn set_last_index(&mut self, index: usize)
        requires
            old(self)@.commit_index <= index,
            forall|k: int| old(self)@.store.contains_key(k) ==> k <= index,
        ensures
            final(self)@.last_index == index,
            final(self)@.store == old(self)@.store,
            final(self)@.commit_index == old(self)@.commit_index,
            final(self)@.current == old(self)@.current,
            entries_wf(old(self)@) ==> entries_wf(final(self)@),
    {
        self.latest = index;
    }

    /// The largest committed id.
    pub fn commit_index(&self) -> (r: usize)
        ensures
            r == self@.commit_index,
    {
        self.commit_index
    }

    /// A copy of the current (most recently inserted) entry.
    pub fn current_term(&self) -> (r: Term)
        ensures
            r@ == self@.current,
    {
        self.current.clone()
    }
}

} // verus!
