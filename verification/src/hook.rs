//! The hook: the one extension point.  The protocol calls these methods
//! and assumes nothing of what they return; every verified guarantee holds
//! for any implementation.

use vstd::prelude::*;
use crate::log_entry::now_timestamp;
use crate::log_entry::Term;
use crate::status::EStatus;

verus! {

/// The pluggable capability object that mediates between the protocol and
/// application state.
///
/// `pre_append_term` answers with the highest id the node already holds up
/// to (inclusive): `Some(idx)` with `idx >= term.id` means accept,
/// `idx < term.id` means entries before this one are missing, and `None`
/// is a contract violation the protocol treats as fatal.
pub trait Hook {
    fn update_node(&self) -> bool;

    fn pre_append_term(&self, term: &Term) -> Option<usize>;

    fn append_term(&self, term: &Term) -> bool;

    fn commit_term(&self, term: &Term) -> bool;

    fn prepare_term(&self) -> String;

    fn retreive_term(&self, index: usize) -> Option<Term>;

    fn retreive_terms(&self, from: usize, to: usize) -> Option<Vec<Term>>;

    fn switch_status(&self, status: EStatus);
}

/// The built-in hook: it admits every joiner, accepts every entry, offers
/// `"default"` content, and answers retrievals with `"default"` entries
/// stamped at the moment of the call.
pub struct DefaultHook;

impl Hook for DefaultHook {
    fn update_node(&self) -> bool {
        true
    }

    fn pre_append_term(&self, term: &Term) -> Option<usize> {
        Some(term.id)
    }

    fn append_term(&self, _term: &Term) -> bool {
        true
    }

    fn commit_term(&self, _term: &Term) -> bool {
        true
    }

    fn prepare_term(&self) -> String {
        "default".to_owned()
    }

    fn retreive_term(&self, index: usize) -> Option<Term> {
        Some(Term { id: index, timestamp: now_timestamp(), content: "default".to_owned() })
    }

    fn retreive_terms(&self, from: usize, to: usize) -> Option<Vec<Term>> {
        let mut terms: Vec<Term> = Vec::new();
        if from > to {
            return Some(terms);
        }
        let mut i: usize = from;
        while i < to
            invariant
                from <= i <= to,
            decreases to - i,
        {
            terms.push(Term { id: i, timestamp: now_timestamp(), content: "default".to_owned() });
            i = i + 1;
        }
        terms.push(Term { id: to, timestamp: now_timestamp(), content: "default".to_owned() });
        Some(terms)
    }

    fn switch_status(&self, _status: EStatus) {
    }
}

/// A deterministic hook for tests: `pre_append_term` answers with the last
/// queued index, whatever the term, and everything else accepts.
pub struct TestHook {
    pub pre_append_terms: Vec<usize>,
}

impl Default for TestHook {
    fn default() -> (r: Self)
        ensures
            r.pre_append_terms@.len() == 0,
    {
        TestHook { pre_append_terms: Vec::new() }
    }
}

impl Hook for TestHook {
    fn update_node(&self) -> bool {
        true
    }

    fn pre_append_term(&self, _term: &Term) -> Option<usize> {
        let n = self.pre_append_terms.len();
        if n > 0 {
            Some(self.pre_append_terms[n - 1])
        } else {
            None
        }
    }

    fn append_term(&self, _term: &Term) -> bool {
        true
    }

    fn commit_term(&self, _term: &Term) -> bool {
        true
    }

    fn prepare_term(&self) -> String {
        String::new()
    }

    fn retreive_term(&self, _index: usize) -> Option<Term> {
        None
    }

    fn retreive_terms(&self, _from: usize, _to: usize) -> Option<Vec<Term>> {
        None
    }

    fn switch_status(&self, _status: EStatus) {
    }
}

} // verus!
