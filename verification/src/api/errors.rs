//! The errors that a client sees.

use crate::domain::{PlayerId, TableId};
use crate::engine::errors::EngineError;
use vstd::prelude::*;
use vstd::std_specs::convert::FromSpecImpl;

verus! {

/// An error of the API.
#[derive(Clone, Debug, PartialEq, Eq)]
pub enum ApiError {
    /// The request could not be read.
    BadRequest(String),
    TableNotFound(TableId),
    PlayerNotAtTable(PlayerId),
    /// The command is not possible in the current state.
    InvalidCommand(String),
    /// The engine refused; the message is the engine's.
    EngineError(String),
    Internal(String),
}

impl ApiError {
    /// Wraps an error of the engine: its message is kept.
    pub fn from_engine(err: EngineError) -> (e: ApiError)
        ensures
            e matches ApiError::EngineError(msg) && msg@ == err.message(),
    {
        ApiError::EngineError(err.to_string())
    }
}

impl From<EngineError> for ApiError {
    fn from(err: EngineError) -> (e: ApiError)
        ensures
            e matches ApiError::EngineError(msg) && msg@ == err.message(),
    {
        ApiError::from_engine(err)
    }
}

impl FromSpecImpl<EngineError> for ApiError {
    open spec fn obeys_from_spec() -> bool {
        false
    }

    /// Not the conversion: a string has no value to write down here. What
    /// `from` returns is said in its own contract.
    open spec fn from_spec(err: EngineError) -> ApiError {
        arbitrary()
    }
}

} // verus!
