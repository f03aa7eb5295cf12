//! The task store: the single in-memory ordered collection of tasks
//! (insertion order is list order), its keyed mutation operations, and the
//! audit events each successful mutation appends. Loading and saving the
//! store is a caller's concern.

use vstd::prelude::*;

use crate::ai_commands::priority_suffix;
use crate::log::{EventAction, LogEvent};
use crate::order::{all_wf, pending_order, task_models};
use crate::outside;
use crate::outside::id_text_of;
use crate::task::{clamp_priority, clamp13, Task, TaskModel, TaskStatus};
use crate::text::{
    chars_to_string, dec_str_i64, i64_dec_chars, parse_usize_chars, parse_usize_spec,
    push_str_chars, push_string_chars, starts_with, starts_with_chars, str_to_chars,
    usize_dec_chars,
};

verus! {

/// The store: tasks in insertion order, and the audit trail of this session.
pub struct TaskStore {
    pub tasks: Vec<Task>,
    pub events: Vec<LogEvent>,
}

/// One persisted conversation turn, as the transcript file stores it.
#[derive(Debug, Clone)]
pub struct ChatMessage {
    pub role: String,
    pub content: String,
}

/// Index of the first task carrying `id`, or the length when none does.
pub open spec fn find_by_id(ts: Seq<TaskModel>, id: u128) -> int
    decreases ts.len(),
{
    if ts.len() == 0 {
        0
    } else if ts[0].id == id {
        0
    } else {
        1 + find_by_id(ts.drop_first(), id)
    }
}

pub proof fn lemma_find_by_id(ts: Seq<TaskModel>, id: u128)
    ensures
        0 <= find_by_id(ts, id) <= ts.len(),
        forall|j: int| 0 <= j < find_by_id(ts, id) ==> (#[trigger] ts[j]).id != id,
        find_by_id(ts, id) < ts.len() ==> ts[find_by_id(ts, id)].id == id,
    decreases ts.len(),
{
    if ts.len() > 0 && ts[0].id != id {
        lemma_find_by_id(ts.drop_first(), id);
        assert(forall|j: int| 1 <= j < ts.len() ==> ts[j] == ts.drop_first()[j - 1]);
    }
}

pub proof fn lemma_find_by_id_is(ts: Seq<TaskModel>, id: u128, k: int)
    requires
        0 <= k <= ts.len(),
        forall|j: int| 0 <= j < k ==> (#[trigger] ts[j]).id != id,
        k == ts.len() || ts[k].id == id,
    ensures
        find_by_id(ts, id) == k,
{
    lemma_find_by_id(ts, id);
    let f = find_by_id(ts, id);
    if f < k {
        assert(ts[f].id == id);
        assert(false);
    }
    if k < f {
        assert(ts[k].id != id);
        assert(false);
    }
}

/// What one completion toggle does to a task: a completed task goes back to
/// pending with the stamp cleared; any other becomes completed, stamped.
pub open spec fn toggled(m: TaskModel, stamp: Option<i64>) -> TaskModel {
    if m.status == TaskStatus::Completed {
        TaskModel { status: TaskStatus::Pending, completed_at: None, ..m }
    } else {
        TaskModel { status: TaskStatus::Completed, completed_at: stamp, ..m }
    }
}

/// What one completion toggle does to the whole list.
pub open spec fn toggle_spec(ts: Seq<TaskModel>, id: u128, stamp: Option<i64>) -> Seq<TaskModel> {
    let k = find_by_id(ts, id);
    if k < ts.len() {
        ts.update(k, toggled(ts[k], stamp))
    } else {
        ts
    }
}

/// One event was appended and nothing else changed in the trail.
pub open spec fn appended_event(
    old_ev: Seq<LogEvent>,
    new_ev: Seq<LogEvent>,
    action: EventAction,
    task_id: u128,
    details: Seq<char>,
) -> bool {
    &&& new_ev.len() == old_ev.len() + 1
    &&& new_ev.subrange(0, old_ev.len() as int) == old_ev
    &&& new_ev.last()@.action == action
    &&& new_ev.last()@.task_id == task_id
    &&& new_ev.last()@.details == details
}

pub open spec fn created_detail(title: Seq<char>) -> Seq<char> {
    "Created task: "@ + title
}

pub open spec fn completed_detail(title: Seq<char>) -> Seq<char> {
    "Completed task: "@ + title
}

pub open spec fn undone_detail(title: Seq<char>) -> Seq<char> {
    "Undone task: "@ + title
}

pub open spec fn dropped_detail(title: Seq<char>) -> Seq<char> {
    "Dropped task: "@ + title
}

/// A task summarised as `title (u2i3)`.
pub open spec fn task_brief(title: Seq<char>, u: u8, i: u8) -> Seq<char> {
    title + priority_suffix(u, i)
}

pub open spec fn updated_detail(before: Seq<char>, after: Seq<char>) -> Seq<char> {
    "Updated: "@ + before + " -> "@ + after
}

pub open spec fn moved_detail(from: int, to: int) -> Seq<char> {
    "Moved: "@ + dec_str_i64(from) + " -> "@ + dec_str_i64(to)
}

proof fn lemma_task_models_push(s: Seq<Task>, t: Task)
    ensures
        task_models(s.push(t)) == task_models(s).push(t@),
{
    assert(task_models(s.push(t)) =~= task_models(s).push(t@));
}

proof fn lemma_task_models_update(s: Seq<Task>, k: int, t: Task)
    requires
        0 <= k < s.len(),
    ensures
        task_models(s.update(k, t)) == task_models(s).update(k, t@),
{
    assert(task_models(s.update(k, t)) =~= task_models(s).update(k, t@));
}

/// Prefix a detail string onto a title.
fn detail_with_title(prefix: &str, title: &String) -> (r: String)
    ensures
        r@ == prefix@ + title@,
{
    let mut out: Vec<char> = Vec::new();
    push_str_chars(&mut out, prefix);
    push_string_chars(&mut out, title);
    chars_to_string(&out)
}

impl TaskStore {
    /// The mathematical image of the task list.
    pub open spec fn tasks_model(&self) -> Seq<TaskModel> {
        task_models(self.tasks@)
    }

    /// Every task's priorities are in range.
    pub open spec fn wf(&self) -> bool {
        all_wf(self.tasks_model())
    }

    /// Find the position of the first task carrying `id`.
    pub(crate) fn find_index(&self, id: u128) -> (r: usize)
        ensures
            r == find_by_id(self.tasks_model(), id),
    {
        let n = self.tasks.len();
        let mut i: usize = 0;
        while i < n && self.tasks[i].id != id
            invariant
                i <= n == self.tasks@.len(),
                forall|j: int| 0 <= j < i ==> (#[trigger] self.tasks_model()[j]).id != id,
            decreases n - i,
        {
            i = i + 1;
        }
        proof {
            lemma_find_by_id_is(self.tasks_model(), id, i as int);
        }
        i
    }

    /// Append a task; its priorities are clamped into range on the way in.
    /// One `Created` event is appended.
    pub fn add_task(&mut self, task: Task)
        ensures
            final(self).tasks_model() == old(self).tasks_model().push(
                TaskModel {
                    urgency: clamp_priority(task@.urgency),
                    importance: clamp_priority(task@.importance),
                    ..task@
                },
            ),
            appended_event(
                old(self).events@,
                final(self).events@,
                EventAction::Created,
                task@.id,
                created_detail(task@.title),
            ),
            old(self).wf() ==> final(self).wf(),
    {
        let detail = detail_with_title("Created task: ", &task.title);
        let event = LogEvent::new(EventAction::Created, task.id, detail);
        let stored = Task {
            urgency: clamp13(task.urgency),
            importance: clamp13(task.importance),
            ..task
        };
        proof {
            lemma_task_models_push(self.tasks@, stored);
        }
        self.tasks.push(stored);
        self.events.push(event);
        proof {
            assert(final(self).events@.subrange(0, old(self).events@.len() as int) =~= old(
                self,
            ).events@);
            assert(final(self).tasks_model() =~= old(self).tasks_model().push(
                TaskModel {
                    urgency: clamp_priority(task@.urgency),
                    importance: clamp_priority(task@.importance),
                    ..task@
                },
            ));
        }
    }

    /// Toggle a task's completion: a completed task is undone, any other is
    /// completed and stamped. True exactly when the identifier matched; one
    /// event is then appended (`Updated` for an undo, `Completed` otherwise).
    pub fn toggle_complete_task(&mut self, id: u128) -> (r: bool)
        ensures
            ({
                let ts = old(self).tasks_model();
                let k = find_by_id(ts, id);
                &&& r == (k < ts.len())
                &&& !r ==> *final(self) == *old(self)
                &&& r ==> {
                    let stamp = final(self).tasks_model()[k].completed_at;
                    &&& final(self).tasks_model() == toggle_spec(ts, id, stamp)
                    &&& (ts[k].status != TaskStatus::Completed ==> stamp is Some)
                    &&& (ts[k].status == TaskStatus::Completed ==> appended_event(
                        old(self).events@,
                        final(self).events@,
                        EventAction::Updated,
                        id,
                        undone_detail(ts[k].title),
                    ))
                    &&& (ts[k].status != TaskStatus::Completed ==> appended_event(
                        old(self).events@,
                        final(self).events@,
                        EventAction::Completed,
                        id,
                        completed_detail(ts[k].title),
                    ))
                }
            }),
            old(self).wf() ==> final(self).wf(),
    {
        let n = self.tasks.len();
        let k = self.find_index(id);
        proof {
            lemma_find_by_id(self.tasks_model(), id);
        }
        if k == n {
            return false;
        }
        let was_completed = self.tasks[k].status == TaskStatus::Completed;
        let detail = if was_completed {
            detail_with_title("Undone task: ", &self.tasks[k].title)
        } else {
            detail_with_title("Completed task: ", &self.tasks[k].title)
        };
        let action = if was_completed {
            EventAction::Updated
        } else {
            EventAction::Completed
        };
        let ghost ts = self.tasks_model();
        if was_completed {
            self.tasks[k].undo_complete();
        } else {
            self.tasks[k].complete();
        }
        proof {
            lemma_task_models_update(old(self).tasks@, k as int, self.tasks@[k as int]);
            assert(self.tasks_model() =~= toggle_spec(
                ts,
                id,
                self.tasks_model()[k as int].completed_at,
            ));
        }
        let event = LogEvent::new(action, id, detail);
        self.events.push(event);
        proof {
            assert(final(self).events@.subrange(0, old(self).events@.len() as int) =~= old(
                self,
            ).events@);
        }
        true
    }

    /// Complete a task that is not yet completed. True exactly when the
    /// identifier matched a not-completed task; one `Completed` event then.
    pub fn complete_task(&mut self, id: u128) -> (r: bool)
        ensures
            ({
                let ts = old(self).tasks_model();
                let k = find_by_id(ts, id);
                &&& r == (k < ts.len() && ts[k].status != TaskStatus::Completed)
                &&& !r ==> *final(self) == *old(self)
                &&& r ==> {
                    let stamp = final(self).tasks_model()[k].completed_at;
                    &&& stamp is Some
                    &&& final(self).tasks_model() == ts.update(
                        k,
                        TaskModel {
                            status: TaskStatus::Completed,
                            completed_at: stamp,
                            ..ts[k]
                        },
                    )
                    &&& appended_event(
                        old(self).events@,
                        final(self).events@,
                        EventAction::Completed,
                        id,
                        completed_detail(ts[k].title),
                    )
                }
            }),
            old(self).wf() ==> final(self).wf(),
    {
        let n = self.tasks.len();
        let k = self.find_index(id);
        proof {
            lemma_find_by_id(self.tasks_model(), id);
        }
        if k == n {
            return false;
        }
        if self.tasks[k].status == TaskStatus::Completed {
            return false;
        }
        let detail = detail_with_title("Completed task: ", &self.tasks[k].title);
        self.tasks[k].complete();
        proof {
            lemma_task_models_update(old(self).tasks@, k as int, self.tasks@[k as int]);
        }
        let event = LogEvent::new(EventAction::Completed, id, detail);
        self.events.push(event);
        proof {
            assert(final(self).events@.subrange(0, old(self).events@.len() as int) =~= old(
                self,
            ).events@);
        }
        true
    }

    /// Drop a pending task. `Dropped` is terminal and is not reachable from
    /// `Completed`, so only a pending task can be dropped. True exactly when
    /// the identifier matched a pending task; one `Dropped` event then, and
    /// a falsy no-op (no event) otherwise.
    pub fn drop_task(&mut self, id: u128) -> (r: bool)
        ensures
            ({
                let ts = old(self).tasks_model();
                let k = find_by_id(ts, id);
                &&& r == (k < ts.len() && ts[k].status == TaskStatus::Pending)
                &&& !r ==> *final(self) == *old(self)
                &&& r ==> {
                    &&& final(self).tasks_model() == ts.update(
                        k,
                        TaskModel { status: TaskStatus::Dropped, ..ts[k] },
                    )
                    &&& appended_event(
                        old(self).events@,
                        final(self).events@,
                        EventAction::Dropped,
                        id,
                        dropped_detail(ts[k].title),
                    )
                }
            }),
            old(self).wf() ==> final(self).wf(),
    {
        let n = self.tasks.len();
        let k = self.find_index(id);
        proof {
            lemma_find_by_id(self.tasks_model(), id);
        }
        if k == n {
            return false;
        }
        if self.tasks[k].status != TaskStatus::Pending {
            return false;
        }
        let detail = detail_with_title("Dropped task: ", &self.tasks[k].title);
        self.tasks[k].drop_task();
        proof {
            lemma_task_models_update(old(self).tasks@, k as int, self.tasks@[k as int]);
        }
        let event = LogEvent::new(EventAction::Dropped, id, detail);
        self.events.push(event);
        proof {
            assert(final(self).events@.subrange(0, old(self).events@.len() as int) =~= old(
                self,
            ).events@);
        }
        true
    }

    /// Rewrite a task's title and priorities; the priorities are clamped
    /// into range. True exactly when the identifier matched; one `Updated`
    /// event then, recording the task before and after.
    pub fn update_task(&mut self, id: u128, title: String, urgency: u8, importance: u8) -> (r:
        bool)
        ensures
            ({
                let ts = old(self).tasks_model();
                let k = find_by_id(ts, id);
                &&& r == (k < ts.len())
                &&& !r ==> *final(self) == *old(self)
                &&& r ==> {
                    &&& final(self).tasks_model() == ts.update(
                        k,
                        TaskModel {
                            title: title@,
                            urgency: clamp_priority(urgency),
                            importance: clamp_priority(importance),
                            ..ts[k]
                        },
                    )
                    &&& appended_event(
                        old(self).events@,
                        final(self).events@,
                        EventAction::Updated,
                        id,
                        updated_detail(
                            task_brief(ts[k].title, ts[k].urgency, ts[k].importance),
                            task_brief(
                                title@,
                                clamp_priority(urgency),
                                clamp_priority(importance),
                            ),
                        ),
                    )
                }
            }),
            old(self).wf() ==> final(self).wf(),
    {
        let n = self.tasks.len();
        let k = self.find_index(id);
        proof {
            lemma_find_by_id(self.tasks_model(), id);
        }
        if k == n {
            return false;
        }
        let u = clamp13(urgency);
        let i = clamp13(importance);
        let mut detail: Vec<char> = Vec::new();
        push_str_chars(&mut detail, "Updated: ");
        push_string_chars(&mut detail, &self.tasks[k].title);
        crate::ai_commands::push_priority_suffix(&mut detail, self.tasks[k].urgency, self.tasks[k].importance);
        push_str_chars(&mut detail, " -> ");
        push_string_chars(&mut detail, &title);
        crate::ai_commands::push_priority_suffix(&mut detail, u, i);
        proof {
            let ts = self.tasks_model();
            assert(detail@ =~= updated_detail(
                task_brief(ts[k as int].title, ts[k as int].urgency, ts[k as int].importance),
                task_brief(title@, clamp_priority(urgency), clamp_priority(importance)),
            ));
        }
        let replacement = Task {
            title,
            urgency: u,
            importance: i,
            ..copy_task_shell(&self.tasks[k])
        };
        self.tasks[k] = replacement;
        proof {
            lemma_task_models_update(old(self).tasks@, k as int, self.tasks@[k as int]);
        }
        let event = LogEvent::new(EventAction::Updated, id, chars_to_string(&detail));
        self.events.push(event);
        proof {
            assert(final(self).events@.subrange(0, old(self).events@.len() as int) =~= old(
                self,
            ).events@);
        }
        true
    }

    /// Reschedule a task onto another date. True exactly when the identifier
    /// matched; one `Moved` event then.
    pub fn move_task_to_date(&mut self, id: u128, date: i64) -> (r: bool)
        ensures
            ({
                let ts = old(self).tasks_model();
                let k = find_by_id(ts, id);
                &&& r == (k < ts.len())
                &&& !r ==> *final(self) == *old(self)
                &&& r ==> {
                    &&& final(self).tasks_model() == ts.update(
                        k,
                        TaskModel { date: date, ..ts[k] },
                    )
                    &&& appended_event(
                        old(self).events@,
                        final(self).events@,
                        EventAction::Moved,
                        id,
                        moved_detail(ts[k].date as int, date as int),
                    )
                }
            }),
            old(self).wf() ==> final(self).wf(),
    {
        let n = self.tasks.len();
        let k = self.find_index(id);
        proof {
            lemma_find_by_id(self.tasks_model(), id);
        }
        if k == n {
            return false;
        }
        let mut detail: Vec<char> = Vec::new();
        push_str_chars(&mut detail, "Moved: ");
        let from = i64_dec_chars(self.tasks[k].date);
        detail.extend_from_slice(from.as_slice());
        push_str_chars(&mut detail, " -> ");
        let to = i64_dec_chars(date);
        detail.extend_from_slice(to.as_slice());
        proof {
            let ts = self.tasks_model();
            assert(detail@ =~= moved_detail(ts[k as int].date as int, date as int));
        }
        let replacement = Task { date, ..copy_task_shell(&self.tasks[k]) };
        self.tasks[k] = replacement;
        proof {
            lemma_task_models_update(old(self).tasks@, k as int, self.tasks@[k as int]);
        }
        let event = LogEvent::new(EventAction::Moved, id, chars_to_string(&detail));
        self.events.push(event);
        proof {
            assert(final(self).events@.subrange(0, old(self).events@.len() as int) =~= old(
                self,
            ).events@);
        }
        true
    }

    /// Resolve a command-line task reference: a 1-based position in the
    /// score-sorted pending view (date-filtered when a date is given), or a
    /// prefix of the identifier's hyphenated text form; the first match wins.
    pub fn find_task_id(&self, id_or_index: &str, filter_date: Option<i64>) -> (r: Option<u128>)
        requires
            self.wf(),
        ensures
            r == find_task_id_spec(self.tasks_model(), id_or_index@, filter_date),
    {
        let ghost ts = self.tasks_model();
        let chars = str_to_chars(id_or_index);
        if let Some(pos) = parse_usize_chars(&chars) {
            let view = crate::order::ordered_pending(&self.tasks, filter_date);
            proof {
                assert(crate::order::idx_views(view@).len() == view@.len());
                assert(pending_order(ts, filter_date).len() == view@.len());
            }
            if pos > 0 && pos <= view.len() {
                let chosen = view[pos - 1];
                proof {
                    assert(crate::order::idx_views(view@)[pos - 1] == chosen as int);
                    assert(ts[chosen as int] == self.tasks@[chosen as int]@);
                }
                return Some(self.tasks[chosen].id);
            }
        }
        // fall back to a prefix match on the identifier text
        let n = self.tasks.len();
        let mut i: usize = 0;
        while i < n
            invariant
                i <= n == self.tasks@.len(),
                ts == self.tasks_model(),
                forall|j: int|
                    0 <= j < i ==> !starts_with(
                        id_text_of((#[trigger] ts[j]).id),
                        id_or_index@,
                    ),
                chars@ == id_or_index@,
                ({
                    let parsed = parse_usize_spec(id_or_index@);
                    let po = pending_order(ts, filter_date);
                    !(parsed is Some && 1 <= parsed->Some_0 <= po.len())
                }),
            decreases n - i,
        {
            let text = outside::id_text(self.tasks[i].id);
            let text_chars = str_to_chars(text.as_str());
            if starts_with_chars(&text_chars, &chars) {
                proof {
                    lemma_uuid_prefix_is(ts, id_or_index@, i as int);
                    assert(ts[i as int] == self.tasks@[i as int]@);
                }
                return Some(self.tasks[i].id);
            }
            i = i + 1;
        }
        proof {
            lemma_uuid_prefix_is(ts, id_or_index@, n as int);
        }
        None
    }
}

impl Default for TaskStore {
    /// An empty store: no tasks, no events.
    fn default() -> (r: TaskStore)
        ensures
            r.tasks_model() == Seq::<TaskModel>::empty(),
            r.events@ == Seq::<LogEvent>::empty(),
            r.wf(),
    {
        let r = TaskStore { tasks: Vec::new(), events: Vec::new() };
        proof {
            assert(r.tasks_model() =~= Seq::<TaskModel>::empty());
        }
        r
    }
}

/// Copy every field of a task but leave the priced ones to a struct update.
fn copy_task_shell(t: &Task) -> (r: Task)
    ensures
        r@ == t@,
{
    Task {
        id: t.id,
        title: t.title.clone(),
        urgency: t.urgency,
        importance: t.importance,
        status: t.status,
        date: t.date,
        created_at: t.created_at,
        completed_at: t.completed_at,
    }
}

/// Index of the first task whose identifier text starts with `s`, or the
/// length when none does.
pub open spec fn uuid_prefix_find(ts: Seq<TaskModel>, s: Seq<char>) -> int
    decreases ts.len(),
{
    if ts.len() == 0 {
        0
    } else if starts_with(id_text_of(ts[0].id), s) {
        0
    } else {
        1 + uuid_prefix_find(ts.drop_first(), s)
    }
}

proof fn lemma_uuid_prefix(ts: Seq<TaskModel>, s: Seq<char>)
    ensures
        0 <= uuid_prefix_find(ts, s) <= ts.len(),
        forall|j: int|
            0 <= j < uuid_prefix_find(ts, s) ==> !starts_with(
                id_text_of((#[trigger] ts[j]).id),
                s,
            ),
        uuid_prefix_find(ts, s) < ts.len() ==> starts_with(
            id_text_of(ts[uuid_prefix_find(ts, s)].id),
            s,
        ),
    decreases ts.len(),
{
    if ts.len() > 0 && !starts_with(id_text_of(ts[0].id), s) {
        lemma_uuid_prefix(ts.drop_first(), s);
        assert(forall|j: int| 1 <= j < ts.len() ==> ts[j] == ts.drop_first()[j - 1]);
    }
}

proof fn lemma_uuid_prefix_is(ts: Seq<TaskModel>, s: Seq<char>, k: int)
    requires
        0 <= k <= ts.len(),
        forall|j: int| 0 <= j < k ==> !starts_with(id_text_of((#[trigger] ts[j]).id), s),
        k == ts.len() || starts_with(id_text_of(ts[k].id), s),
    ensures
        uuid_prefix_find(ts, s) == k,
{
    lemma_uuid_prefix(ts, s);
    let f = uuid_prefix_find(ts, s);
    if f < k {
        assert(starts_with(id_text_of(ts[f].id), s));
        assert(false);
    }
    if k < f {
        assert(!starts_with(id_text_of(ts[k].id), s));
        assert(false);
    }
}

/// What a command-line task reference resolves to: a valid 1-based position
/// in the pending view names that task; otherwise the first task whose
/// identifier text starts with the given string; otherwise nothing.
pub open spec fn find_task_id_spec(
    ts: Seq<TaskModel>,
    s: Seq<char>,
    filter_date: Option<i64>,
) -> Option<u128> {
    let po = pending_order(ts, filter_date);
    let parsed = parse_usize_spec(s);
    if parsed is Some && 1 <= parsed->Some_0 <= po.len() {
        Some(ts[po[parsed->Some_0 - 1]].id)
    } else {
        let k = uuid_prefix_find(ts, s);
        if k < ts.len() {
            Some(ts[k].id)
        } else {
            None
        }
    }
}

/// Law: toggling completion twice is the identity on the task list. A
/// pending task with no completion stamp goes to `Completed` and comes back
/// to exactly its old value, whatever stamps the clock hands out — never to
/// an error state, since the toggled task keeps its identifier and so stays
/// resolvable.
pub proof fn lemma_toggle_twice_round_trip(
    ts: Seq<TaskModel>,
    id: u128,
    stamp1: Option<i64>,
    stamp2: Option<i64>,
)
    requires
        find_by_id(ts, id) < ts.len(),
        ts[find_by_id(ts, id)].status == TaskStatus::Pending,
        ts[find_by_id(ts, id)].completed_at is None,
    ensures
        toggle_spec(toggle_spec(ts, id, stamp1), id, stamp2) == ts,
{
    let k = find_by_id(ts, id);
    lemma_find_by_id(ts, id);
    let ts1 = toggle_spec(ts, id, stamp1);
    assert(ts1 == ts.update(k, toggled(ts[k], stamp1)));
    assert(forall|j: int| 0 <= j < ts1.len() ==> (#[trigger] ts1[j]).id == ts[j].id);
    lemma_find_by_id_is(ts1, id, k);
    assert(toggle_spec(ts1, id, stamp2) == ts1.update(k, toggled(ts1[k], stamp2)));
    assert(toggled(ts1[k], stamp2) == ts[k]);
    assert(ts1.update(k, toggled(ts1[k], stamp2)) =~= ts);
}

} // verus!
