//! Pairwise-comparison ranking: the polling and scheduling engine.
//!
//! Items ("things") are grouped in categories. Each thing has a [`rank::Rank`]
//! in each category it belongs to; an account is shown two things of a
//! category at a time and states which one it prefers.

pub mod account;
pub mod config;
pub mod error;
pub mod fairness;
pub mod file;
pub mod poll;
pub mod rank;
pub mod store;
pub mod thing;
