//! An event-sourced record of game playthroughs: a gapless per-playthrough event log,
//! typed event payloads, a change stream of roster deltas, and the projection that folds
//! those deltas into a roster member's state at any point of its history.
pub mod records;
pub mod store;
pub mod log;
pub mod registry;
pub mod projection;
pub mod mutation;
