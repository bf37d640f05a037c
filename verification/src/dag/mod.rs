//! The DAG of points.
pub mod location;
pub mod round;
pub mod threshold;
