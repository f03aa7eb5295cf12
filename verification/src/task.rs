//! The task domain: the entity itself, its priority score and its
//! Eisenhower quadrant. Pure except for the stamps a fresh task receives.

use vstd::prelude::*;

use crate::outside;

verus! {

/// One of the four Eisenhower classes.
#[derive(Clone, Copy, PartialEq, Eq, Structural, Debug)]
pub enum Quadrant {
    DoFirst,
    Schedule,
    Delegate,
    Drop,
}

impl Quadrant {
    /// The quadrant's display name.
    pub fn label(&self) -> (r: &'static str)
        ensures
            r@ == match *self {
                Quadrant::DoFirst => "DO FIRST"@,
                Quadrant::Schedule => "SCHEDULE"@,
                Quadrant::Delegate => "DELEGATE"@,
                Quadrant::Drop => "DROP"@,
            },
    {
        match self {
            Quadrant::DoFirst => "DO FIRST",
            Quadrant::Schedule => "SCHEDULE",
            Quadrant::Delegate => "DELEGATE",
            Quadrant::Drop => "DROP",
        }
    }
}

/// Lifecycle state of a task. `Dropped` is terminal.
#[derive(Clone, Copy, PartialEq, Eq, Structural, Debug)]
pub enum TaskStatus {
    Pending,
    Completed,
    Dropped,
}

/// A single task. Dates are calendar-day counts, stamps are epoch seconds.
#[derive(Clone, Debug)]
pub struct Task {
    pub id: u128,
    pub title: String,
    pub urgency: u8,
    pub importance: u8,
    pub status: TaskStatus,
    pub date: i64,
    pub created_at: i64,
    pub completed_at: Option<i64>,
}

/// The mathematical image of a task: the title as its character sequence.
#[verifier::ext_equal]
pub struct TaskModel {
    pub id: u128,
    pub title: Seq<char>,
    pub urgency: u8,
    pub importance: u8,
    pub status: TaskStatus,
    pub date: i64,
    pub created_at: i64,
    pub completed_at: Option<i64>,
}

impl View for Task {
    type V = TaskModel;

    open spec fn view(&self) -> TaskModel {
        TaskModel {
            id: self.id,
            title: self.title@,
            urgency: self.urgency,
            importance: self.importance,
            status: self.status,
            date: self.date,
            created_at: self.created_at,
            completed_at: self.completed_at,
        }
    }
}

impl DeepView for Task {
    type V = TaskModel;

    open spec fn deep_view(&self) -> TaskModel {
        self.view()
    }
}

/// Priorities are always held inside `[1, 3]`.
pub open spec fn priority_in_range(x: u8) -> bool {
    1 <= x <= 3
}

impl TaskModel {
    /// Both priority axes are in range.
    pub open spec fn wf(self) -> bool {
        priority_in_range(self.urgency) && priority_in_range(self.importance)
    }
}

/// What `clamp(1, 3)` does to a priority value.
pub open spec fn clamp_priority(x: u8) -> u8 {
    if x < 1 {
        1
    } else if x > 3 {
        3
    } else {
        x
    }
}

/// The derived ranking value: importance weighted over urgency.
pub open spec fn score_of(urgency: u8, importance: u8) -> int {
    importance * 3 + urgency * 2
}

/// The quadrant classifier: a pure function of the two threshold tests
/// `urgency >= 2` and `importance >= 2`.
pub open spec fn quadrant_of(urgency: u8, importance: u8) -> Quadrant {
    if importance >= 2 && urgency >= 2 {
        Quadrant::DoFirst
    } else if importance >= 2 && urgency == 1 {
        Quadrant::Schedule
    } else if importance == 1 && urgency >= 2 {
        Quadrant::Delegate
    } else {
        Quadrant::Drop
    }
}

/// Clamp a priority value into `[1, 3]`.
pub fn clamp13(x: u8) -> (r: u8)
    ensures
        r == clamp_priority(x),
        priority_in_range(r),
{
    if x < 1 {
        1
    } else if x > 3 {
        3
    } else {
        x
    }
}

impl Task {
    /// Construct a fresh `Pending` task: priorities clamped into range, the
    /// identifier and creation stamp drawn from the generator and the clock.
    pub fn new(title: String, urgency: u8, importance: u8, date: i64) -> (t: Task)
        ensures
            t@.title == title@,
            t@.urgency == clamp_priority(urgency),
            t@.importance == clamp_priority(importance),
            t@.status == TaskStatus::Pending,
            t@.date == date,
            t@.completed_at is None,
            t@.wf(),
    {
        Task {
            id: outside::fresh_id(),
            title,
            urgency: clamp13(urgency),
            importance: clamp13(importance),
            status: TaskStatus::Pending,
            date,
            created_at: outside::now_timestamp(),
            completed_at: None,
        }
    }

    /// The ranking value used to order tasks inside a view.
    pub fn score(&self) -> (r: u8)
        requires
            self@.wf(),
        ensures
            r == score_of(self.urgency, self.importance),
    {
        self.importance * 3 + self.urgency * 2
    }

    /// The task's Eisenhower class. Total over every state, `Completed` and
    /// `Dropped` included: a dropped task keeps a nominal quadrant.
    pub fn quadrant(&self) -> (q: Quadrant)
        ensures
            q == quadrant_of(self.urgency, self.importance),
    {
        if self.importance >= 2 && self.urgency >= 2 {
            Quadrant::DoFirst
        } else if self.importance >= 2 && self.urgency == 1 {
            Quadrant::Schedule
        } else if self.importance == 1 && self.urgency >= 2 {
            Quadrant::Delegate
        } else {
            Quadrant::Drop
        }
    }

    /// Mark completed and stamp the completion time from the clock.
    pub fn complete(&mut self)
        ensures
            final(self)@.status == TaskStatus::Completed,
            final(self)@.completed_at is Some,
            final(self)@ == (TaskModel {
                status: TaskStatus::Completed,
                completed_at: final(self)@.completed_at,
                ..old(self)@
            }),
    {
        self.status = TaskStatus::Completed;
        self.completed_at = Some(outside::now_timestamp());
    }

    /// Undo a completion: back to `Pending`, the completion stamp cleared.
    pub fn undo_complete(&mut self)
        ensures
            final(self)@ == (TaskModel {
                status: TaskStatus::Pending,
                completed_at: None,
                ..old(self)@
            }),
    {
        self.status = TaskStatus::Pending;
        self.completed_at = None;
    }

    /// Drop the task. The status is terminal; every other field is kept.
    pub fn drop_task(&mut self)
        ensures
            final(self)@ == (TaskModel { status: TaskStatus::Dropped, ..old(self)@ }),
    {
        self.status = TaskStatus::Dropped;
    }
}

/// Law: over the whole priority grid the classifier is total and is a pure
/// function of the two threshold tests alone — any two cells that agree on
/// `urgency >= 2` and on `importance >= 2` fall in the same quadrant.
pub proof fn lemma_quadrant_pure(u1: u8, i1: u8, u2: u8, i2: u8)
    requires
        priority_in_range(u1),
        priority_in_range(i1),
        priority_in_range(u2),
        priority_in_range(i2),
        (u1 >= 2) == (u2 >= 2),
        (i1 >= 2) == (i2 >= 2),
    ensures
        quadrant_of(u1, i1) == quadrant_of(u2, i2),
        quadrant_of(u1, i1) == (if i1 >= 2 && u1 >= 2 {
            Quadrant::DoFirst
        } else if i1 >= 2 {
            Quadrant::Schedule
        } else if u1 >= 2 {
            Quadrant::Delegate
        } else {
            Quadrant::Drop
        }),
{
}

} // verus!
