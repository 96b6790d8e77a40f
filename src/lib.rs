//! Observation of a blockchain's head state: the decisions that choose when to
//! fetch, how to classify what a backend answered, and how observations are
//! stored, each with a contract proved by Verus. Network, database and timer
//! work is done by the caller, which hands the results to these functions.

pub mod decimal;
pub mod json;
pub mod bitcoin_api;
pub mod retry;
pub mod rate_limiter;
pub mod bitcoin_rpc;
pub mod data_provider;
pub mod config;
pub mod db;
pub mod metrics;
