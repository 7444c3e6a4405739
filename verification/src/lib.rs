//! A deterministic engine for No-Limit Texas Hold'em: the hand state machine,
//! the hand evaluator, the tournament controller, the shot clock and the
//! seeded shuffle.

pub mod api;
pub mod bots;
pub mod domain;
pub mod engine;
pub mod eval;
pub mod infra;
pub mod seq_util;
pub mod sorting;
pub mod state;
pub mod text;
pub mod time_ctrl;
pub mod tournament;

use vstd::prelude::*;

verus! {

/// An operation on the engine: a command.
#[derive(Clone, Debug)]
pub enum PokerOperation {
    Command(api::commands::Command),
}

/// A query to the engine.
pub type PokerQuery = api::queries::Query;

/// The answer to a query.
pub type PokerResponse = api::queries::QueryResponse;

/// The interface of the engine: its operations, queries and answers.
#[derive(Clone, Copy, Debug)]
pub struct PokerAbi;

} // verus!
