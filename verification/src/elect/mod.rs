//! Participation in validator elections.
pub mod config;
pub mod run;
pub mod stake;
pub mod wallet;
