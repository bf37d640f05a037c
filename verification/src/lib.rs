//! A verified core for a block-producing node: identifiers, the binary
//! formats of the message queue and of consensus points, the consensus DAG
//! rules, the collation manager's decisions, block signature collection and
//! the validator election schedule.
pub mod block;
pub mod bytes;
pub mod cells;
pub mod config_action;
pub mod dag;
pub mod elect;
pub mod engine;
pub mod ids;
pub mod intercom;
pub mod manager;
pub mod mempool;
pub mod models;
pub mod outside;
pub mod prepare;
pub mod queue;
pub mod shard_map;
pub mod starter;
pub mod state_node;
pub mod test_utils;
pub mod text;
pub mod tl;
pub mod tl_bytes;
pub mod tl_list;
pub mod types;
pub mod validator;
