//! Monte Carlo estimation of outcome probabilities for a pity-based reward draw: a seeded
//! random stream, the per-pull state machine, predicates over a trial's counters, and the
//! aggregation of many trials into a result matrix.

pub mod rng;
pub mod pull;
pub mod expr;
pub mod trial;
pub mod parse;
pub mod run;
pub mod preset;
