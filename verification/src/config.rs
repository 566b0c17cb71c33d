//! The node settings and their defaults.

use vstd::prelude::*;

verus! {

pub fn default_addr() -> (r: String)
    ensures
        r@ == "127.0.0.1"@,
{
    "127.0.0.1".to_owned()
}

pub fn default_port() -> (r: String)
    ensures
        r@ == "3000"@,
{
    "3000".to_owned()
}

pub fn default_follower() -> (r: bool)
    ensures
        r == false,
{
    false
}

pub fn default_response_timeout() -> (r: usize)
    ensures
        r == 20,
{
    20
}

pub fn default_nodes() -> (r: Vec<String>)
    ensures
        r@.len() == 0,
{
    Vec::new()
}

pub fn default_timeout_min() -> (r: usize)
    ensures
        r == 150,
{
    150
}

pub fn default_timeout_max() -> (r: usize)
    ensures
        r == 300,
{
    300
}

pub fn default_prepare_term_period() -> (r: u64)
    ensures
        r == 80,
{
    80
}

pub fn default_node_id() -> (r: String)
    ensures
        r@.len() == 0,
{
    String::new()
}

/// The user settings.
#[derive(Clone)]
pub struct Settings {
    pub timeout_min: usize,
    pub timeout_max: usize,
    pub nodes: Vec<String>,
    pub addr: String,
    pub port: String,
    pub follower: bool,
    pub response_timeout: usize,
    pub prepare_term_period: u64,
    pub node_id: String,
}

impl Settings {
    /// The documented invariant on the heartbeat randomization window.
    pub open spec fn wf(&self) -> bool {
        self.timeout_min <= self.timeout_max
    }

    /// A fresh uniform sample in `[timeout_min, timeout_max]`, in
    /// milliseconds.
    pub fn get_randomized_timeout(&self) -> (r: u64)
        requires
            self.wf(),
        ensures
            self.timeout_min <= r <= self.timeout_max,
    {
        random_in_range(self.timeout_min, self.timeout_max) as u64
    }

    /// The leader's term-preparation period, in milliseconds.
    pub fn get_prepare_term_sleep_duration(&self) -> (r: u64)
        ensures
            r == self.prepare_term_period,
    {
        self.prepare_term_period
    }
}

impl Default for Settings {
    fn default() -> (r: Self)
        ensures
            r.timeout_min == 150,
            r.timeout_max == 300,
            r.nodes@.len() == 0,
            r.addr@ == "127.0.0.1"@,
            r.port@ == "3000"@,
            r.follower == false,
            r.response_timeout == 20,
            r.prepare_term_period == 80,
            r.node_id@.len() == 0,
            r.wf(),
    {
        Settings {
            timeout_min: default_timeout_min(),
            timeout_max: default_timeout_max(),
            nodes: default_nodes(),
            addr: default_addr(),
            port: default_port(),
            follower: default_follower(),
            response_timeout: default_response_timeout(),
            prepare_term_period: default_prepare_term_period(),
            node_id: default_node_id(),
        }
    }
}

/// Relies on rand's `thread_rng().gen_range(min..=max)`: a uniform sample
/// in the inclusive range.  The panic on an empty range is ruled out by the
/// precondition; which value comes back is chance, so only the bounds are
/// promised.
#[verifier::external_body]
fn random_in_range(min: usize, max: usize) -> (r: usize)
    requires
        min <= max,
    ensures
        min <= r <= max,
{
    rand::Rng::gen_range(&mut rand::thread_rng(), min..=max)
}

/// Relies on rand's `random::<u8>()`: one byte of chance, so nothing is
/// promised of the value.
#[verifier::external_body]
pub(crate) fn random_byte() -> u8 {
    rand::random()
}

} // verus!
