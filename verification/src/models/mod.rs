//! Consensus points and their parts.
pub mod link;
pub mod parts;
pub mod peer_map;
pub mod point;
pub mod point_info;
