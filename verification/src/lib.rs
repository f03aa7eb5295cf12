//! An offline-first personal task manager built around the Eisenhower
//! urgency/importance matrix: the task domain and its quadrant classifier,
//! the priority notation and assistant command parsers, the audited task
//! store with its score-sorted views, and the interactive session engine
//! with its screen state machine and pending-mutation batch workflow.
//!
//! Everything here is verified. The clock and the identifier generator enter
//! through the narrow trusted wrappers of `outside`; terminal rendering,
//! persistence and the network live with the caller, which drives the engine
//! through plain values and the flags it raises.

pub mod ai;
pub mod ai_commands;
pub mod handlers;
pub mod input;
pub mod log;
pub mod order;
pub mod outside;
pub mod session;
pub mod store;
pub mod task;
pub mod text;
pub mod zen;
