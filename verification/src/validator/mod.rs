//! Collecting the signatures of validators under master blocks.
pub mod collect;
pub mod seqno_map;
pub mod session;
