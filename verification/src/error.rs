//! Error taxonomy: fatal errors stop the node, warnings are handled at the
//! caller and never terminate it.

use vstd::prelude::*;

verus! {

/// Error body of an RPC response.
#[derive(Debug)]
pub struct HttpErrorResult {
    pub err_id: String,
    pub message: String,
}

/// Fatal errors: the main loop prints them and exits.
#[derive(Debug)]
pub enum Error {
    CannotReadSettings(String),
    CannotStartRpcServer(String),
    InitializationFail(&'static str),
    ImpossibleToBootstrap,
    /// An illegal role transition was attempted.
    WrongStatus,
    /// The hook broke its interface contract, e.g. `pre_append_term`
    /// returned nothing, or a retrieved term carried the wrong id.
    HookContractViolation(&'static str),
}

/// Errors of the RPC server when a request body cannot be read.
#[derive(Debug)]
pub enum ServerError {
    CannotDeserializeBody(String),
}

/// Recoverable troubles of outbound calls; they cause per-peer backoff.
#[derive(Debug)]
pub enum Warning {
    CommandFail(String),
    Timeout(&'static str),
    BadResult(HttpErrorResult),
    WrongResult(&'static str),
}

pub type ErrorResult<T> = Result<T, Error>;

pub type WarnResult<T> = Result<T, Warning>;

} // verus!
