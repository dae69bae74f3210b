pub mod types;
pub mod job;
pub mod graph;
pub mod jobstate;
pub mod ledger;
pub mod stats;
pub mod names;
pub mod text;
pub mod config;
