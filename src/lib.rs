//! Core of an anonymous ballot service: proposal lifecycle, nullifier-checked
//! ballot submission and quorum-gated tallying, with their contracts.
pub mod model;
pub mod lifecycle;
pub mod order;
pub mod tally;
pub mod submission;
pub mod ledger;
pub mod auth;
pub mod sources;
