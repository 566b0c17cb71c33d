//! A single-node runtime of a Raft-style leader-based replication protocol.
//!
//! The verified core holds the log store, the role state machine, the
//! follower receive paths for `AppendEntries` and `RequestVote`, the
//! leader-side message construction and quorum commit rules, and the
//! election bookkeeping.  Transport, timers and the script-driven hook
//! live outside the library and drive it through plain values.

pub mod append_term;
pub mod commit;
pub mod config;
pub mod candidate;
pub mod error;
pub mod hook;
pub mod init;
pub mod io_msg;
pub mod leader;
pub mod log_entry;
pub mod node;
pub mod request_vote;
pub mod status;
pub mod url;
