//! Detection of schedule entries that fell due without being marked complete,
//! together with the decisions of the clock-aligned poller that drives it.

pub mod cell;
pub mod classify;
pub mod clock;
pub mod config;
pub mod detect;
pub mod missing;
pub mod report;
pub mod scheduler;
pub mod text;
