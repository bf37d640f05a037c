//! The internal message queue: its keys, its diffs and their binary form.
pub mod addr;
pub mod diff;
pub mod key;
pub mod state;
