//! The `addr:port` strings that name peers.

use vstd::prelude::*;
use vstd::string::StrSliceExecFns;
use vstd::string::StringExecFns;

verus! {

/// A peer address in `addr:port` form.
pub struct Url(String);

/// Whether the character sequence holds a `':'` somewhere.
pub open spec fn has_colon(s: Seq<char>) -> bool {
    exists|i: int| 0 <= i < s.len() && s[i] == ':'
}

/// Positions `i < j` delimit the port of `s`: the first colon stands at
/// `i`, the next colon or the end at `j`, and `r` is what lies between.
pub open spec fn port_segment(s: Seq<char>, i: int, j: int, r: Seq<char>) -> bool {
    &&& 0 <= i < j <= s.len()
    &&& s[i] == ':'
    &&& (forall|k: int| 0 <= k < i ==> s[k] != ':')
    &&& (j == s.len() || s[j] == ':')
    &&& (forall|k: int| i < k < j ==> s[k] != ':')
    &&& r == s.subrange(i + 1, j)
}

impl View for Url {
    type V = Seq<char>;

    closed spec fn view(&self) -> Seq<char> {
        self.0@
    }
}

impl Clone for Url {
    fn clone(&self) -> (r: Self)
        ensures
            r@ == self@,
    {
        Url(self.0.clone())
    }
}

impl PartialEq for Url {
    fn eq(&self, other: &Self) -> (r: bool) {
        self.0 == other.0
    }
}

impl vstd::std_specs::cmp::PartialEqSpecImpl for Url {
    open spec fn obeys_eq_spec() -> bool {
        true
    }

    open spec fn eq_spec(&self, other: &Url) -> bool {
        self@ == other@
    }
}

impl Url {
    /// Wrap an address string.
    pub fn new(url: String) -> (r: Url)
        ensures
            r@ == url@,
    {
        Url(url)
    }

    /// A copy of the whole `addr:port` string.
    pub fn as_string(&self) -> (r: String)
        ensures
            r@ == self@,
    {
        self.0.clone()
    }

    /// The segment between the first `':'` and the next `':'` or the
    /// end: the port of an `addr:port` string.
    pub fn get_port(&self) -> (r: String)
        requires
            has_colon(self@),
        ensures
            exists|i: int, j: int| #[trigger] port_segment(self@, i, j, r@),
    {
        let s = self.0.as_str();
        let len = s.unicode_len();
        let mut i: usize = 0;
        while i < len
            invariant
                0 <= i <= len,
                len == self@.len(),
                s@ == self@,
                forall|k: int| 0 <= k < i ==> self@[k] != ':',
            decreases len - i,
        {
            if s.get_char(i) == ':' {
                let mut j: usize = i + 1;
                while j < len
                    invariant
                        i < j <= len,
                        len == self@.len(),
                        s@ == self@,
                        self@[i as int] == ':',
                        forall|k: int| 0 <= k < i ==> self@[k] != ':',
                        forall|k: int| i < k < j ==> self@[k] != ':',
                    decreases len - j,
                {
                    if s.get_char(j) == ':' {
                        let port = s.substring_char(i + 1, j);
                        let r = port.to_owned();
                        proof {
                            assert(port_segment(self@, i as int, j as int, r@));
                        }
                        return r;
                    }
                    j = j + 1;
                }
                let port = s.substring_char(i + 1, len);
                let r = port.to_owned();
                proof {
                    assert(port_segment(self@, i as int, len as int, r@));
                }
                return r;
            }
            i = i + 1;
        }
        proof {
            assert(false);
        }
        String::new()
    }
}

} // verus!
