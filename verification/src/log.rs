//! The audit log: one immutable event per store mutation, stamped from the
//! clock and the identifier generator. Persisting the events is a caller's
//! concern; the store only appends them in memory.

use vstd::prelude::*;

use crate::outside;

verus! {

/// What a mutation did to a task.
#[derive(Clone, Copy, PartialEq, Eq, Structural, Debug)]
pub enum EventAction {
    Created,
    Completed,
    Dropped,
    Updated,
    Moved,
}

/// One audit event: which action, on which task, with free-text detail.
#[derive(Clone, Debug)]
pub struct LogEvent {
    pub id: u128,
    pub timestamp: i64,
    pub action: EventAction,
    pub task_id: u128,
    pub details: String,
}

/// The mathematical image of an audit event.
pub struct LogEventModel {
    pub id: u128,
    pub timestamp: i64,
    pub action: EventAction,
    pub task_id: u128,
    pub details: Seq<char>,
}

impl View for LogEvent {
    type V = LogEventModel;

    open spec fn view(&self) -> LogEventModel {
        LogEventModel {
            id: self.id,
            timestamp: self.timestamp,
            action: self.action,
            task_id: self.task_id,
            details: self.details@,
        }
    }
}

impl LogEvent {
    /// A fresh event: action, subject and detail as given, the event's own
    /// identifier and stamp drawn from the generator and the clock.
    pub fn new(action: EventAction, task_id: u128, details: String) -> (e: LogEvent)
        ensures
            e@.action == action,
            e@.task_id == task_id,
            e@.details == details@,
    {
        LogEvent {
            id: outside::fresh_id(),
            timestamp: outside::now_timestamp(),
            action,
            task_id,
            details,
        }
    }
}

} // verus!
