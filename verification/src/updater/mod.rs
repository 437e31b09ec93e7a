//! Updates of okena itself: what state an update is in, whether a release is
//! newer, and what the status bar shows.

pub mod checker;
pub mod orchestrator;
pub mod status;
