//! Who takes part in the consensus.
pub mod peer_schedule;
