//! Configuration of the mempool.
pub mod config;
