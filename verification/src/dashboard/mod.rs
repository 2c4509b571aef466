//! The computations of the container dashboard: readable sizes, the
//! selection in the container table, the bounded history behind the charts,
//! and the numbers taken from one statistics sample.
pub mod format;
pub mod selection;
pub mod history;
pub mod containers;
pub mod stats;
