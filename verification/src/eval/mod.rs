//! Hand strength: rank masks, the encoding of a hand's rank, and the
//! evaluator that finds the best five cards out of five to seven.

pub mod evaluator;
pub mod hand_rank;
pub mod lookup_tables;
pub mod order;

pub use evaluator::evaluate_best_hand;
pub use hand_rank::{describe_hand, hand_category, HandCategory};
