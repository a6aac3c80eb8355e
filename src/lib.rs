//! Validator-registry state-transition core of a beacon chain: epoch and seed
//! queries, proposer and committee selection, balance primitives, the exit
//! queue, slashing, and participation / inactivity accounting.
pub mod beacon_state;
pub mod bytes;
pub mod constants;
pub mod hashing;
pub mod misc;
pub mod types;
pub mod lemmas;
