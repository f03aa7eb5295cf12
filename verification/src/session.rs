//! The interactive session engine: the screen state machine's state, the
//! selection and view bookkeeping, the pending-mutation batch and its
//! confirmation workflow. The terminal, the clock and the network stay
//! outside; the engine exposes flags (`request_pending`, `store_dirty`) that
//! the surrounding loop acts on.

use vstd::prelude::*;

use crate::ai::{AIResponse, ChatMessage};
use crate::ai_commands::{
    cmd_views, parse_commands, parse_commands_spec, priority_suffix, AICommand, AICommandModel,
    CommandResults, ParsedTask, ParsedTaskModel, TaskIdentModel, TaskIdentifier,
};
use crate::order::{view_count, view_order};
use crate::outside;
use crate::store::{find_by_id, toggle_spec, TaskStore};
use crate::task::{clamp_priority, Quadrant, Task, TaskModel, TaskStatus};
use crate::text::{
    chars_to_string, contains_chars, dec_str, has_substring, join_with, join_with_chars,
    push_str_chars, push_string_chars, str_to_chars, usize_dec_chars, views_of,
};
use crate::zen::ZenState;

verus! {

/// Which screen the session is on. Transitions form a strict tree:
/// `Main` to and from `Editing`, `Chat` and `Focus`; `Focus` to and from
/// `ZenMode`; `Exiting` only from `Main`.
#[derive(Clone, Copy, PartialEq, Eq, Structural, Debug)]
pub enum CurrentScreen {
    Main,
    Editing,
    Chat,
    Focus,
    ZenMode,
    Exiting,
}

/// A key, as the session understands it.
#[derive(Clone, Copy, PartialEq, Eq, Structural, Debug)]
pub enum Key {
    Char(char),
    Enter,
    Esc,
    Backspace,
    Tab,
    Up,
    Down,
    Left,
    Right,
    PageUp,
    PageDown,
    Home,
    End,
}

/// One key press with its modifiers.
#[derive(Clone, Copy, PartialEq, Eq, Structural, Debug)]
pub struct KeyPress {
    pub code: Key,
    pub ctrl: bool,
    pub alt: bool,
}

/// The whole session state.
pub struct App {
    pub store: TaskStore,
    pub current_screen: CurrentScreen,
    pub selected_quadrant: Quadrant,
    pub selected_task_index: usize,
    pub view_date: i64,
    pub input_buffer: Vec<char>,
    pub input_mode: bool,
    pub editing_task_id: Option<u128>,
    pub show_help: bool,
    pub chat_history: Vec<ChatMessage>,
    pub chat_input: Vec<char>,
    pub ai_available: bool,
    pub request_pending: bool,
    pub is_loading: bool,
    pub chat_scroll: u16,
    pub chat_auto_scroll: bool,
    pub show_chat_help: bool,
    pub spinner_state: u8,
    pub zen_state: Option<ZenState>,
    pub store_dirty: bool,
    pub pending_commands: Vec<AICommand>,
}

/// The selection index is inside the active view, or pinned to zero when the
/// view is empty.
pub open spec fn selection_ok(app: App) -> bool {
    let c = view_count(app.store.tasks_model(), app.view_date, app.selected_quadrant);
    if c == 0 {
        app.selected_task_index == 0
    } else {
        app.selected_task_index < c
    }
}

/// A pending task on the date whose lowercase title contains the lowercase
/// fragment — the case folding is `str::to_lowercase`'s full Unicode mapping
/// (the named `lower_of`).
pub open spec fn title_matches(m: TaskModel, date: i64, frag: Seq<char>) -> bool {
    m.date == date && m.status == TaskStatus::Pending && has_substring(
        crate::outside::lower_of(m.title),
        crate::outside::lower_of(frag),
    )
}

/// Index of the first task matching the fragment; the length when none does.
pub open spec fn title_find(ts: Seq<TaskModel>, date: i64, frag: Seq<char>) -> int
    decreases ts.len(),
{
    if ts.len() == 0 {
        0
    } else if title_matches(ts[0], date, frag) {
        0
    } else {
        1 + title_find(ts.drop_first(), date, frag)
    }
}

proof fn lemma_title_find(ts: Seq<TaskModel>, date: i64, frag: Seq<char>)
    ensures
        0 <= title_find(ts, date, frag) <= ts.len(),
        forall|j: int|
            0 <= j < title_find(ts, date, frag) ==> !title_matches(#[trigger] ts[j], date, frag),
        title_find(ts, date, frag) < ts.len() ==> title_matches(
            ts[title_find(ts, date, frag)],
            date,
            frag,
        ),
    decreases ts.len(),
{
    if ts.len() > 0 && !title_matches(ts[0], date, frag) {
        lemma_title_find(ts.drop_first(), date, frag);
        assert(forall|j: int| 1 <= j < ts.len() ==> ts[j] == ts.drop_first()[j - 1]);
    }
}

proof fn lemma_title_find_is(ts: Seq<TaskModel>, date: i64, frag: Seq<char>, k: int)
    requires
        0 <= k <= ts.len(),
        forall|j: int| 0 <= j < k ==> !title_matches(#[trigger] ts[j], date, frag),
        k == ts.len() || title_matches(ts[k], date, frag),
    ensures
        title_find(ts, date, frag) == k,
{
    lemma_title_find(ts, date, frag);
    let f = title_find(ts, date, frag);
    if f < k {
        assert(title_matches(ts[f], date, frag));
        assert(false);
    }
    if k < f {
        assert(!title_matches(ts[k], date, frag));
        assert(false);
    }
}

/// What a batch target resolves to, against the current state: a 1-based
/// position into the displayed (date- and quadrant-scoped, score-sorted)
/// view, or the first pending task on the date whose title contains the
/// fragment.
pub open spec fn resolve_target(
    ts: Seq<TaskModel>,
    date: i64,
    q: Quadrant,
    ident: TaskIdentModel,
) -> Option<int> {
    match ident {
        TaskIdentModel::Index(idx) => {
            let v = view_order(ts, date, q);
            if 1 <= idx <= v.len() {
                Some(v[idx - 1])
            } else {
                None
            }
        },
        TaskIdentModel::Title(frag) => {
            let k = title_find(ts, date, frag);
            if k < ts.len() {
                Some(k)
            } else {
                None
            }
        },
    }
}

/// An identifier rendered for messages: `#2`, or the fragment in quotes.
pub open spec fn ident_text(ident: TaskIdentModel) -> Seq<char> {
    match ident {
        TaskIdentModel::Index(n) => "#"@ + dec_str(n as int),
        TaskIdentModel::Title(t) => "\""@ + t + "\""@,
    }
}

/// Render an identifier for messages.
pub fn format_identifier(identifier: &TaskIdentifier) -> (r: String)
    ensures
        r@ == ident_text(identifier@),
{
    let mut out: Vec<char> = Vec::new();
    match identifier {
        TaskIdentifier::Index(n) => {
            push_str_chars(&mut out, "#");
            let d = usize_dec_chars(*n);
            out.extend_from_slice(d.as_slice());
            proof {
                assert(out@ =~= ident_text(identifier@));
            }
        },
        TaskIdentifier::Title(t) => {
            push_str_chars(&mut out, "\"");
            push_string_chars(&mut out, t);
            push_str_chars(&mut out, "\"");
            proof {
                assert(out@ =~= ident_text(identifier@));
            }
        },
    }
    chars_to_string(&out)
}

/// Where a re-clamp lands an index: zero on an empty view, capped below the
/// count otherwise.
pub open spec fn clamped_index(c: int, idx: int) -> int {
    if c == 0 {
        0
    } else if idx < c {
        idx
    } else {
        c - 1
    }
}

/// Law: re-clamping can never leave the selection out of range — a mutation
/// that empties the active view pins it to zero, and any other leaves it
/// strictly below the count.
pub proof fn lemma_clamp_never_out_of_range(c: int, idx: int)
    requires
        idx >= 0,
    ensures
        c == 0 ==> clamped_index(c, idx) == 0,
        c > 0 ==> 0 <= clamped_index(c, idx) < c,
{
}

/// Where one date flip lands: from today one day forward, else back to today.
pub open spec fn date_toggled(cur: i64, today: i64) -> int {
    if cur == today {
        today + 1
    } else {
        today as int
    }
}

/// An error entry for a target that resolved to nothing.
pub open spec fn err_line(ident: TaskIdentModel) -> Seq<char> {
    "Could not find task: "@ + ident_text(ident)
}

/// An edited-tasks entry: the old title, the final title and priorities.
pub open spec fn edited_entry(
    old_title: Seq<char>,
    new_title: Seq<char>,
    u: u8,
    i: u8,
) -> Seq<char> {
    old_title + " \u{2192} "@ + new_title + priority_suffix(u, i)
}

/// A task list and a results object partway through a batch.
#[verifier::ext_equal]
pub struct BatchState {
    pub tasks: Seq<TaskModel>,
    pub results: crate::ai_commands::CommandResultsModel,
}

/// A results object with nothing in it.
pub open spec fn empty_results() -> crate::ai_commands::CommandResultsModel {
    crate::ai_commands::CommandResultsModel {
        added: seq![],
        completed: seq![],
        dropped: seq![],
        edited: seq![],
        errors: seq![],
    }
}

/// What one directive does to the state it meets. The oracle triple carries
/// what the outside world hands the step: a fresh identifier, a creation
/// stamp, and a completion stamp; a step that draws none ignores them.
/// Targets resolve against the state *at this step*, not a parse-time
/// snapshot, so directives of one batch are interdependent by design.
pub open spec fn batch_step(
    ts: Seq<TaskModel>,
    res: crate::ai_commands::CommandResultsModel,
    cmd: AICommandModel,
    date: i64,
    q: Quadrant,
    orc: (u128, i64, Option<i64>),
) -> BatchState {
    match cmd {
        AICommandModel::Add(pt) => BatchState {
            tasks: ts.push(
                TaskModel {
                    id: orc.0,
                    title: pt.title,
                    urgency: clamp_priority(pt.urgency),
                    importance: clamp_priority(pt.importance),
                    status: TaskStatus::Pending,
                    date: date,
                    created_at: orc.1,
                    completed_at: None,
                },
            ),
            results: crate::ai_commands::CommandResultsModel { added: res.added.push(pt), ..res },
        },
        AICommandModel::Done(ident) => match resolve_target(ts, date, q, ident) {
            Some(k) => BatchState {
                tasks: toggle_spec(ts, ts[k].id, orc.2),
                results: crate::ai_commands::CommandResultsModel {
                    completed: res.completed.push(ts[k].title),
                    ..res
                },
            },
            None => BatchState {
                tasks: ts,
                results: crate::ai_commands::CommandResultsModel {
                    errors: res.errors.push(err_line(ident)),
                    ..res
                },
            },
        },
        AICommandModel::Drop(ident) => match resolve_target(ts, date, q, ident) {
            Some(k) => {
                let id = ts[k].id;
                let k2 = find_by_id(ts, id);
                let ts2 = if k2 < ts.len() && ts[k2].status == TaskStatus::Pending {
                    ts.update(k2, TaskModel { status: TaskStatus::Dropped, ..ts[k2] })
                } else {
                    ts
                };
                BatchState {
                    tasks: ts2,
                    results: crate::ai_commands::CommandResultsModel {
                        dropped: res.dropped.push(ts[k].title),
                        ..res
                    },
                }
            },
            None => BatchState {
                tasks: ts,
                results: crate::ai_commands::CommandResultsModel {
                    errors: res.errors.push(err_line(ident)),
                    ..res
                },
            },
        },
        AICommandModel::Edit { target, new_title, new_urgency, new_importance } => {
            match resolve_target(ts, date, q, target) {
                Some(k) => {
                    let id = ts[k].id;
                    let k2 = find_by_id(ts, id);
                    if k2 < ts.len() {
                        let cur = ts[k2];
                        let ft = match new_title {
                            Some(t) => t,
                            None => cur.title,
                        };
                        let fu = match new_urgency {
                            Some(u) => u,
                            None => cur.urgency,
                        };
                        let fi = match new_importance {
                            Some(x) => x,
                            None => cur.importance,
                        };
                        BatchState {
                            tasks: ts.update(
                                k2,
                                TaskModel {
                                    title: ft,
                                    urgency: clamp_priority(fu),
                                    importance: clamp_priority(fi),
                                    ..cur
                                },
                            ),
                            results: crate::ai_commands::CommandResultsModel {
                                edited: res.edited.push(edited_entry(ts[k].title, ft, fu, fi)),
                                ..res
                            },
                        }
                    } else {
                        // a resolved target always carries a present identifier
                        BatchState { tasks: ts, results: res }
                    }
                },
                None => BatchState {
                    tasks: ts,
                    results: crate::ai_commands::CommandResultsModel {
                        errors: res.errors.push(err_line(target)),
                        ..res
                    },
                },
            }
        },
    }
}

/// What a whole batch does: the directives applied in order to an initial
/// task list, the results accumulated from an empty results object.
pub open spec fn batch_fold(
    ts0: Seq<TaskModel>,
    cmds: Seq<AICommandModel>,
    date: i64,
    q: Quadrant,
    orc: Seq<(u128, i64, Option<i64>)>,
) -> BatchState
    decreases cmds.len(),
{
    if cmds.len() == 0 {
        BatchState { tasks: ts0, results: empty_results() }
    } else {
        let prev = batch_fold(ts0, cmds.drop_last(), date, q, orc);
        batch_step(prev.tasks, prev.results, cmds.last(), date, q, orc[cmds.len() - 1])
    }
}

/// The fold reads only the oracle entries up to the batch length.
proof fn lemma_fold_orc_agrees(
    ts0: Seq<TaskModel>,
    cmds: Seq<AICommandModel>,
    date: i64,
    q: Quadrant,
    o1: Seq<(u128, i64, Option<i64>)>,
    o2: Seq<(u128, i64, Option<i64>)>,
)
    requires
        forall|j: int| 0 <= j < cmds.len() ==> o1[j] == o2[j],
    ensures
        batch_fold(ts0, cmds, date, q, o1) == batch_fold(ts0, cmds, date, q, o2),
    decreases cmds.len(),
{
    if cmds.len() > 0 {
        lemma_fold_orc_agrees(ts0, cmds.drop_last(), date, q, o1, o2);
    }
}

/// The added list a batch reports is exactly the `Add` payloads, in order,
/// whatever the rest of the batch did.
pub proof fn lemma_fold_added_exact(
    ts0: Seq<TaskModel>,
    cmds: Seq<AICommandModel>,
    date: i64,
    q: Quadrant,
    orc: Seq<(u128, i64, Option<i64>)>,
)
    ensures
        batch_fold(ts0, cmds, date, q, orc).results.added == crate::ai_commands::adds_of(cmds),
    decreases cmds.len(),
{
    if cmds.len() > 0 {
        lemma_fold_added_exact(ts0, cmds.drop_last(), date, q, orc);
        let prev = batch_fold(ts0, cmds.drop_last(), date, q, orc);
        match cmds.last() {
            AICommandModel::Add(pt) => {
                assert(crate::ai_commands::adds_of(cmds) =~= crate::ai_commands::adds_of(
                    cmds.drop_last(),
                ).push(pt));
            },
            _ => {
                assert(crate::ai_commands::adds_of(cmds) =~= crate::ai_commands::adds_of(
                    cmds.drop_last(),
                ));
            },
        }
    } else {
        assert(crate::ai_commands::adds_of(cmds) =~= Seq::<ParsedTaskModel>::empty());
    }
}

/// Did the batch change the store at all? Errors alone do not.
pub open spec fn batch_mutated(res: crate::ai_commands::CommandResultsModel) -> bool {
    res.added.len() > 0 || res.completed.len() > 0 || res.dropped.len() > 0 || res.edited.len()
        > 0
}

/// Everything executing one non-empty batch promises: the final task list
/// and the shown summary are the fold of the directives, in order, under
/// some oracle of fresh identifiers and stamps; earlier audit events are
/// kept; the batch is consumed; when anything mutated, the store is marked
/// for one persist and the selection is re-clamped; nothing else moves.
pub open spec fn batch_post(
    pre: App,
    post: App,
    out: Seq<char>,
    orc: Seq<(u128, i64, Option<i64>)>,
) -> bool {
    let cmds = cmd_views(pre.pending_commands@);
    let fin = batch_fold(pre.store.tasks_model(), cmds, pre.view_date, pre.selected_quadrant, orc);
    &&& orc.len() == cmds.len()
    &&& post.store.tasks_model() == fin.tasks
    &&& out == crate::ai_commands::format_confirmation_spec(fin.results)
    &&& fin.results.added == crate::ai_commands::adds_of(cmds)
    &&& post.pending_commands@.len() == 0
    &&& post.store.events@.len() >= pre.store.events@.len()
    &&& forall|j: int|
        0 <= j < pre.store.events@.len() ==> post.store.events@[j] == pre.store.events@[j]
    &&& (batch_mutated(fin.results) ==> {
        let c = view_count(fin.tasks, pre.view_date, pre.selected_quadrant);
        &&& post.store_dirty
        &&& (c == 0 ==> post.selected_task_index == 0)
        &&& (c > 0 ==> post.selected_task_index as int == (if pre.selected_task_index < c {
            pre.selected_task_index as int
        } else {
            c - 1
        }))
    })
    &&& (!batch_mutated(fin.results) ==> post.selected_task_index == pre.selected_task_index
        && post.store_dirty == pre.store_dirty)
    &&& post == (App {
        store: post.store,
        selected_task_index: post.selected_task_index,
        store_dirty: post.store_dirty,
        pending_commands: post.pending_commands,
        ..pre
    })
}

/// Law: executing `Done` on the same displayed position in two successive
/// single-directive batches is safe — the second batch resolves again (a
/// completed task stays in the displayed view, and toggling changes neither
/// visibility nor score), records a completion and no error, and returns the
/// task list to exactly its old value. The position names the first task
/// carrying its identifier, pending with no completion stamp. The title
/// path is excluded by construction: it matches pending tasks only, so only
/// a position can re-target a completed task.
pub proof fn lemma_done_twice_across_batches(
    ts: Seq<TaskModel>,
    date: i64,
    q: Quadrant,
    p: usize,
    o1: (u128, i64, Option<i64>),
    o2: (u128, i64, Option<i64>),
)
    requires
        ({
            let r = resolve_target(ts, date, q, TaskIdentModel::Index(p));
            &&& r is Some
            &&& 0 <= r->Some_0 < ts.len()
            &&& find_by_id(ts, ts[r->Some_0].id) == r->Some_0
            &&& ts[r->Some_0].status == TaskStatus::Pending
            &&& ts[r->Some_0].completed_at is None
        }),
    ensures
        ({
            let cmd = AICommandModel::Done(TaskIdentModel::Index(p));
            let st1 = batch_fold(ts, seq![cmd], date, q, seq![o1]);
            let st2 = batch_fold(st1.tasks, seq![cmd], date, q, seq![o2]);
            &&& st1.results.completed.len() == 1 && st1.results.errors.len() == 0
            &&& st2.results.completed.len() == 1 && st2.results.errors.len() == 0
            &&& st2.tasks == ts
        }),
{
    let ident = TaskIdentModel::Index(p);
    let cmd = AICommandModel::Done(ident);
    let k = resolve_target(ts, date, q, ident)->Some_0;
    let id = ts[k].id;
    let cmds = seq![cmd];
    assert(cmds.drop_last() =~= Seq::<AICommandModel>::empty());
    assert(cmds.last() == cmd);

    // the first batch completes the task in place
    assert(batch_fold(ts, cmds.drop_last(), date, q, seq![o1]) == (BatchState {
        tasks: ts,
        results: empty_results(),
    }));
    let st1 = batch_fold(ts, cmds, date, q, seq![o1]);
    assert(st1 == batch_step(ts, empty_results(), cmd, date, q, o1));
    assert(st1.tasks == toggle_spec(ts, id, o1.2));
    let ts1 = ts.update(k, crate::store::toggled(ts[k], o1.2));
    assert(st1.tasks == ts1);

    // toggling changes neither visibility nor score, so the view is kept
    assert(forall|i: int|
        0 <= i < ts.len() ==> crate::order::visible_task(#[trigger] ts1[i], date, q)
            == crate::order::visible_task(ts[i], date, q) && crate::task::score_of(
            ts1[i].urgency,
            ts1[i].importance,
        ) == crate::task::score_of(ts[i].urgency, ts[i].importance));
    crate::order::lemma_view_order_congruent(ts1, ts, date, q);
    assert(resolve_target(ts1, date, q, ident) == Some(k));

    // the same identifier is still the first of its value
    crate::store::lemma_find_by_id(ts, id);
    assert(forall|j: int| 0 <= j < k ==> (#[trigger] ts1[j]).id != id);
    crate::store::lemma_find_by_id_is(ts1, id, k);

    // the second batch undoes the completion, restoring the old value
    assert(batch_fold(ts1, cmds.drop_last(), date, q, seq![o2]) == (BatchState {
        tasks: ts1,
        results: empty_results(),
    }));
    let st2 = batch_fold(ts1, cmds, date, q, seq![o2]);
    assert(st2 == batch_step(ts1, empty_results(), cmd, date, q, o2));
    assert(st2.tasks == toggle_spec(ts1, id, o2.2));
    assert(crate::store::toggled(ts1[k], o2.2) =~= ts[k]);
    assert(ts1.update(k, crate::store::toggled(ts1[k], o2.2)) =~= ts);
}

/// Render the error entry for an unresolved target.
fn err_string(ident: &TaskIdentifier) -> (r: String)
    ensures
        r@ == err_line(ident@),
{
    let mut out: Vec<char> = Vec::new();
    push_str_chars(&mut out, "Could not find task: ");
    let t = format_identifier(ident);
    push_string_chars(&mut out, &t);
    chars_to_string(&out)
}

/// Append one numbered preview line for a directive.
fn push_preview_line(out: &mut Vec<char>, pos: usize, cmd: &AICommand)
    ensures
        final(out)@ == old(out)@ + preview_cmd_text(pos as int, cmd@),
{
    push_str_chars(out, "  ");
    let num = usize_dec_chars(pos);
    out.extend_from_slice(num.as_slice());
    push_str_chars(out, ". ");
    match cmd {
        AICommand::Add(pt) => {
            push_str_chars(out, "ADD: ");
            push_string_chars(out, &pt.title);
            crate::ai_commands::push_priority_suffix(out, pt.urgency, pt.importance);
            push_str_chars(out, "\n");
        },
        AICommand::Done(id) => {
            push_str_chars(out, "DONE: ");
            let t = format_identifier(id);
            push_string_chars(out, &t);
            push_str_chars(out, "\n");
        },
        AICommand::Drop(id) => {
            push_str_chars(out, "DROP: ");
            let t = format_identifier(id);
            push_string_chars(out, &t);
            push_str_chars(out, "\n");
        },
        AICommand::Edit { target, new_title, new_urgency, new_importance } => {
            push_str_chars(out, "EDIT: ");
            let t = format_identifier(target);
            push_string_chars(out, &t);
            push_str_chars(out, " \u{2192} ");
            let mut segs: Vec<Vec<char>> = Vec::new();
            proof {
                assert(views_of(segs@) =~= Seq::<Seq<char>>::empty());
            }
            if let Some(nt) = new_title {
                let mut seg: Vec<char> = Vec::new();
                push_str_chars(&mut seg, "title='");
                push_string_chars(&mut seg, nt);
                push_str_chars(&mut seg, "'");
                proof {
                    crate::text::lemma_views_push(segs@, seg);
                    assert(seg@ =~= "title='"@ + nt@ + "'"@);
                }
                segs.push(seg);
            }
            if let Some(nu) = new_urgency {
                let mut seg: Vec<char> = Vec::new();
                push_str_chars(&mut seg, "urgency=");
                let d = usize_dec_chars(*nu as usize);
                seg.extend_from_slice(d.as_slice());
                proof {
                    crate::text::lemma_views_push(segs@, seg);
                    assert(seg@ =~= "urgency="@ + dec_str(*nu as int));
                }
                segs.push(seg);
            }
            if let Some(ni) = new_importance {
                let mut seg: Vec<char> = Vec::new();
                push_str_chars(&mut seg, "importance=");
                let d = usize_dec_chars(*ni as usize);
                seg.extend_from_slice(d.as_slice());
                proof {
                    crate::text::lemma_views_push(segs@, seg);
                    assert(seg@ =~= "importance="@ + dec_str(*ni as int));
                }
                segs.push(seg);
            }
            proof {
                let m = cmd@;
                assert(views_of(segs@) =~= change_segments(
                    m->new_title,
                    m->new_urgency,
                    m->new_importance,
                ));
            }
            let joined = join_with_chars(&segs, ", ");
            out.extend_from_slice(joined.as_slice());
            push_str_chars(out, "\n");
        },
    }
    proof {
        assert(final(out)@ =~= old(out)@ + preview_cmd_text(pos as int, cmd@));
    }
}

/// The change list a preview shows for one edit directive.
pub open spec fn change_segments(
    nt: Option<Seq<char>>,
    nu: Option<u8>,
    ni: Option<u8>,
) -> Seq<Seq<char>> {
    (match nt {
        Some(t) => seq!["title='"@ + t + "'"@],
        None => seq![],
    }) + (match nu {
        Some(u) => seq!["urgency="@ + dec_str(u as int)],
        None => seq![],
    }) + (match ni {
        Some(i) => seq!["importance="@ + dec_str(i as int)],
        None => seq![],
    })
}

/// One numbered line of the pending-batch preview.
pub open spec fn preview_cmd_text(pos: int, cmd: AICommandModel) -> Seq<char> {
    "  "@ + dec_str(pos) + ". "@ + match cmd {
        AICommandModel::Add(pt) => "ADD: "@ + pt.title + priority_suffix(
            pt.urgency,
            pt.importance,
        ) + "\n"@,
        AICommandModel::Done(id) => "DONE: "@ + ident_text(id) + "\n"@,
        AICommandModel::Drop(id) => "DROP: "@ + ident_text(id) + "\n"@,
        AICommandModel::Edit { target, new_title, new_urgency, new_importance } => "EDIT: "@
            + ident_text(target) + " \u{2192} "@ + join_with(
            change_segments(new_title, new_urgency, new_importance),
            ", "@,
        ) + "\n"@,
    }
}

/// The first `k` preview lines, numbered from one.
pub open spec fn preview_lines(cmds: Seq<AICommandModel>, k: int) -> Seq<char>
    decreases k,
{
    if k <= 0 {
        seq![]
    } else {
        preview_lines(cmds, k - 1) + preview_cmd_text(k, cmds[k - 1])
    }
}

/// The whole message shown for a proposed batch: the reply itself, then the
/// numbered preview, then the confirm/cancel prompt.
pub open spec fn preview_of(content: Seq<char>, cmds: Seq<AICommandModel>) -> Seq<char> {
    content + "\n\n\u{2501}\u{2501}\u{2501} Pending Commands \u{2501}\u{2501}\u{2501}\n"@
        + preview_lines(cmds, cmds.len() as int)
        + "\n\u{26a1} Press [y] to execute, [n] to cancel"@
}

impl App {
    /// The store is well-formed.
    pub open spec fn wf(&self) -> bool {
        self.store.wf()
    }

    /// A fresh session over a store: on the main screen, first quadrant, the
    /// view set to the local calendar date, the given transcript restored.
    pub fn new(store: TaskStore, chat_history: Vec<ChatMessage>, ai_available: bool) -> (app: App)
        ensures
            app.store == store,
            app.current_screen == CurrentScreen::Main,
            app.selected_quadrant == Quadrant::DoFirst,
            app.selected_task_index == 0,
            -2147483648 <= app.view_date <= 2147483647,
            app.input_buffer@.len() == 0,
            !app.input_mode,
            app.editing_task_id is None,
            !app.show_help,
            app.chat_history == chat_history,
            app.chat_input@.len() == 0,
            app.ai_available == ai_available,
            !app.request_pending,
            !app.is_loading,
            app.chat_scroll == 0,
            app.chat_auto_scroll,
            !app.show_chat_help,
            app.spinner_state == 0,
            app.zen_state is None,
            !app.store_dirty,
            app.pending_commands@.len() == 0,
            store.wf() ==> app.wf(),
    {
        App {
            store,
            current_screen: CurrentScreen::Main,
            selected_quadrant: Quadrant::DoFirst,
            selected_task_index: 0,
            view_date: outside::today_day_number(),
            input_buffer: Vec::new(),
            input_mode: false,
            editing_task_id: None,
            show_help: false,
            chat_history,
            chat_input: Vec::new(),
            ai_available,
            request_pending: false,
            is_loading: false,
            chat_scroll: 0,
            chat_auto_scroll: true,
            show_chat_help: false,
            spinner_state: 0,
            zen_state: None,
            store_dirty: false,
            pending_commands: Vec::new(),
        }
    }

    /// Flip the viewed date between today and tomorrow: from today one day
    /// forward, from anywhere else back to today.
    pub fn toggle_view_date(&mut self)
        ensures
            exists|today: i64|
                -2147483648 <= today <= 2147483647 && final(self).view_date as int
                    == #[trigger] date_toggled(old(self).view_date, today),
            *final(self) == (App { view_date: final(self).view_date, ..*old(self) }),
    {
        let today = outside::today_day_number();
        if self.view_date == today {
            self.view_date = today + 1;
        } else {
            self.view_date = today;
        }
        proof {
            assert(self.view_date as int == date_toggled(old(self).view_date, today));
        }
    }

    /// How many tasks the active quadrant displays on the viewed date.
    pub fn get_current_task_count(&self) -> (r: usize)
        requires
            self.wf(),
        ensures
            r == view_count(self.store.tasks_model(), self.view_date, self.selected_quadrant),
    {
        crate::order::count_visible(&self.store.tasks, self.view_date, self.selected_quadrant)
    }

    /// Re-clamp the selection into the active view: an empty view pins it to
    /// zero, otherwise it is capped below the count.
    pub fn clamp_selected_index(&mut self)
        requires
            old(self).wf(),
        ensures
            ({
                let c = view_count(
                    old(self).store.tasks_model(),
                    old(self).view_date,
                    old(self).selected_quadrant,
                );
                &&& c == 0 ==> final(self).selected_task_index == 0
                &&& c > 0 ==> final(self).selected_task_index == (if old(self).selected_task_index
                    < c {
                    old(self).selected_task_index as int
                } else {
                    c - 1
                })
            }),
            *final(self) == (App {
                selected_task_index: final(self).selected_task_index,
                ..*old(self)
            }),
            selection_ok(*final(self)),
    {
        let count = self.get_current_task_count();
        if count == 0 {
            self.selected_task_index = 0;
        } else if self.selected_task_index >= count {
            self.selected_task_index = count - 1;
        }
    }

    /// Is a batch awaiting confirmation?
    pub fn has_pending_commands(&self) -> (r: bool)
        ensures
            r == (self.pending_commands@.len() > 0),
    {
        self.pending_commands.len() > 0
    }

    /// Discard the pending batch with no side effects; the message reports
    /// how many directives were dropped.
    pub fn cancel_pending_commands(&mut self) -> (r: String)
        ensures
            final(self).pending_commands@.len() == 0,
            *final(self) == (App { pending_commands: final(self).pending_commands, ..*old(self) }),
            r@ == "\n\n\u{2501}\u{2501}\u{2501} Cancelled "@ + dec_str(
                old(self).pending_commands@.len() as int,
            ) + " command(s) \u{2501}\u{2501}\u{2501}"@,
    {
        let count = self.pending_commands.len();
        self.pending_commands.clear();
        let mut out: Vec<char> = Vec::new();
        push_str_chars(&mut out, "\n\n\u{2501}\u{2501}\u{2501} Cancelled ");
        let d = usize_dec_chars(count);
        out.extend_from_slice(d.as_slice());
        push_str_chars(&mut out, " command(s) \u{2501}\u{2501}\u{2501}");
        proof {
            assert(out@ =~= "\n\n\u{2501}\u{2501}\u{2501} Cancelled "@ + dec_str(count as int)
                + " command(s) \u{2501}\u{2501}\u{2501}"@);
        }
        chars_to_string(&out)
    }

    /// Read one assistant reply: when it holds directives they become the
    /// pending batch (silently replacing any prior batch) and the returned
    /// text is the reply with the numbered preview and the confirm/cancel
    /// prompt appended; a reply without directives is returned unchanged and
    /// nothing else moves.
    pub fn process_ai_response(&mut self, content: String) -> (r: String)
        ensures
            ({
                let cmds = parse_commands_spec(content@);
                &&& cmds.len() == 0 ==> r@ == content@ && *final(self) == *old(self)
                &&& cmds.len() > 0 ==> {
                    &&& cmd_views(final(self).pending_commands@) == cmds
                    &&& r@ == preview_of(content@, cmds)
                    &&& *final(self) == (App {
                        pending_commands: final(self).pending_commands,
                        ..*old(self)
                    })
                }
            }),
    {
        let cmds = parse_commands(content.as_str());
        let n = cmds.len();
        if n == 0 {
            return content;
        }
        let ghost cs = cmd_views(cmds@);
        let mut out: Vec<char> = Vec::new();
        push_string_chars(&mut out, &content);
        push_str_chars(
            &mut out,
            "\n\n\u{2501}\u{2501}\u{2501} Pending Commands \u{2501}\u{2501}\u{2501}\n",
        );
        let ghost head = out@;
        let mut i: usize = 0;
        proof {
            assert(out@ =~= head + preview_lines(cs, 0));
        }
        while i < n
            invariant
                i <= n == cmds@.len(),
                cs == cmd_views(cmds@),
                out@ == head + preview_lines(cs, i as int),
            decreases n - i,
        {
            push_preview_line(&mut out, i + 1, &cmds[i]);
            proof {
                assert(cs[i as int] == cmds@[i as int]@);
                assert(out@ =~= head + preview_lines(cs, i + 1));
            }
            i = i + 1;
        }
        push_str_chars(&mut out, "\n\u{26a1} Press [y] to execute, [n] to cancel");
        self.pending_commands = cmds;
        proof {
            assert(out@ =~= preview_of(content@, cs));
        }
        chars_to_string(&out)
    }

    
    /// Take one assistant outcome off the channel's end: loading stops; a
    /// successful reply is read for directives and appended to the
    /// transcript (with the preview when it proposed a batch); an error is
    /// appended as an assistant-role error line. Never retried.
    pub fn receive_ai_response(&mut self, response: AIResponse)
        ensures
            !final(self).is_loading,
            ({
                match response {
                    AIResponse::Success(content) => {
                        let cmds = parse_commands_spec(content@);
                        let shown = if cmds.len() == 0 {
                            content@
                        } else {
                            preview_of(content@, cmds)
                        };
                        &&& final(self).chat_history@.len() == old(self).chat_history@.len() + 1
                        &&& final(self).chat_history@.subrange(
                            0,
                            old(self).chat_history@.len() as int,
                        ) == old(self).chat_history@
                        &&& final(self).chat_history@.last().role@ == "assistant"@
                        &&& final(self).chat_history@.last().content@ == shown
                        &&& (cmds.len() > 0 ==> cmd_views(final(self).pending_commands@) == cmds)
                        &&& (cmds.len() == 0 ==> final(self).pending_commands == old(
                            self,
                        ).pending_commands)
                        &&& *final(self) == (App {
                            is_loading: false,
                            chat_history: final(self).chat_history,
                            pending_commands: final(self).pending_commands,
                            ..*old(self)
                        })
                    },
                    AIResponse::Error(err) => {
                        &&& final(self).chat_history@.len() == old(self).chat_history@.len() + 1
                        &&& final(self).chat_history@.subrange(
                            0,
                            old(self).chat_history@.len() as int,
                        ) == old(self).chat_history@
                        &&& final(self).chat_history@.last().role@ == "assistant"@
                        &&& final(self).chat_history@.last().content@ == "Error: "@ + err@
                        &&& *final(self) == (App {
                            is_loading: false,
                            chat_history: final(self).chat_history,
                            ..*old(self)
                        })
                    },
                }
            }),
    {
        self.is_loading = false;
        match response {
            AIResponse::Success(content) => {
                let full = self.process_ai_response(content);
                self.chat_history.push(
                    ChatMessage { role: String::from_str("assistant"), content: full },
                );
                proof {
                    assert(final(self).chat_history@.subrange(
                        0,
                        old(self).chat_history@.len() as int,
                    ) =~= old(self).chat_history@);
                }
            },
            AIResponse::Error(err) => {
                let mut out: Vec<char> = Vec::new();
                push_str_chars(&mut out, "Error: ");
                push_string_chars(&mut out, &err);
                self.chat_history.push(
                    ChatMessage {
                        role: String::from_str("assistant"),
                        content: chars_to_string(&out),
                    },
                );
                proof {
                    assert(final(self).chat_history@.subrange(
                        0,
                        old(self).chat_history@.len() as int,
                    ) =~= old(self).chat_history@);
                }
            },
        }
    }

    /// Apply the pending batch, in order, against the live state: `Add`
    /// always inserts; `Done`, `Drop` and `Edit` resolve their target at the
    /// moment they run, so an earlier directive of the same batch can change
    /// what a later position refers to; an unresolved target becomes one
    /// error entry and the rest still runs. When anything mutated, the store
    /// is marked for a single persist and the selection is re-clamped. The
    /// returned text is the structured summary of what happened.
    #[verifier::rlimit(100)]
    pub fn execute_pending_commands(&mut self) -> (r: String)
        requires
            old(self).wf(),
        ensures
            final(self).wf(),
            final(self).pending_commands@.len() == 0,
            ({
                let cmds = cmd_views(old(self).pending_commands@);
                &&& cmds.len() == 0 ==> *final(self) == *old(self) && r@ == Seq::<char>::empty()
                &&& cmds.len() > 0 ==> exists|orc: Seq<(u128, i64, Option<i64>)>|
                    #[trigger] batch_post(*old(self), *final(self), r@, orc)
            }),
    {
        if self.pending_commands.len() == 0 {
            return String::new();
        }
        let ghost pre = *self;
        let ghost ts0 = pre.store.tasks_model();
        let ghost date = pre.view_date;
        let ghost q = pre.selected_quadrant;
        let mut commands: Vec<AICommand> = Vec::new();
        core::mem::swap(&mut commands, &mut self.pending_commands);
        let ghost cs = cmd_views(commands@);
        let mut results = CommandResults::default();
        let ghost mut orc: Seq<(u128, i64, Option<i64>)> = Seq::empty();
        let n = commands.len();
        let mut i: usize = 0;
        proof {
            assert(cs.subrange(0, 0) =~= Seq::<AICommandModel>::empty());
            assert(results@ =~= empty_results());
            assert(batch_fold(ts0, cs.subrange(0, 0), date, q, orc) == (BatchState {
                tasks: ts0,
                results: results@,
            }));
        }
        while i < n
            invariant
                i <= n == commands@.len(),
                self.wf(),
                orc.len() == i,
                cs == cmd_views(commands@),
                self.pending_commands@.len() == 0,
                *self == (App {
                    store: self.store,
                    pending_commands: self.pending_commands,
                    ..pre
                }),
                batch_fold(ts0, cs.subrange(0, i as int), date, q, orc) == (BatchState {
                    tasks: self.store.tasks_model(),
                    results: results@,
                }),
                ts0 == pre.store.tasks_model(),
                date == pre.view_date,
                q == pre.selected_quadrant,
                pre.store.events@.len() <= self.store.events@.len(),
                forall|j: int|
                    0 <= j < pre.store.events@.len() ==> self.store.events@[j]
                        == pre.store.events@[j],
            decreases n - i,
        {
            let ghost ts_cur = self.store.tasks_model();
            let ghost res_cur = results@;
            let ghost orc_old = orc;
            proof {
                assert(cs.subrange(0, i + 1).drop_last() =~= cs.subrange(0, i as int));
                assert(cs.subrange(0, i + 1).last() == commands@[i as int]@);
            }
            match &commands[i] {
                AICommand::Add(pt) => {
                    let task = Task::new(
                        pt.title.clone(),
                        pt.urgency,
                        pt.importance,
                        self.view_date,
                    );
                    let ghost o = (task@.id, task@.created_at, None::<i64>);
                    self.store.add_task(task);
                    let copy = ParsedTask {
                        title: pt.title.clone(),
                        urgency: pt.urgency,
                        importance: pt.importance,
                    };
                    proof {
                        crate::ai_commands::lemma_task_views_push(results.tasks_added@, copy);
                    }
                    results.tasks_added.push(copy);
                    proof {
                        orc = orc.push(o);
                        lemma_fold_orc_agrees(ts0, cs.subrange(0, i as int), date, q, orc_old, orc);
                        let step = batch_step(ts_cur, res_cur, cs[i as int], date, q, o);
                        assert(self.store.tasks_model() =~= step.tasks);
                        assert(results@ =~= step.results);
                        assert(batch_fold(ts0, cs.subrange(0, i + 1), date, q, orc)
                            == (BatchState { tasks: self.store.tasks_model(), results: results@ }));
                    }
                },
                AICommand::Done(ident) => {
                    let resolved = self.find_task_by_identifier(ident);
                    match resolved {
                        Some(found) => {
                            let (task_id, title) = found;
                            let r2 = self.store.toggle_complete_task(task_id);
                            let ghost stamp = if r2 {
                                self.store.tasks_model()[find_by_id(
                                    ts_cur,
                                    task_id,
                                )].completed_at
                            } else {
                                None
                            };
                            let ghost o = (0u128, 0i64, stamp);
                            proof {
                                crate::ai_commands::lemma_string_views_push(
                                    results.tasks_completed@,
                                    title,
                                );
                            }
                            results.tasks_completed.push(title);
                            proof {
                                orc = orc.push(o);
                                lemma_fold_orc_agrees(
                                    ts0,
                                    cs.subrange(0, i as int),
                                    date,
                                    q,
                                    orc_old,
                                    orc,
                                );
                                let step = batch_step(ts_cur, res_cur, cs[i as int], date, q, o);
                                assert(self.store.tasks_model() =~= step.tasks);
                                assert(results@ =~= step.results);
                                assert(batch_fold(ts0, cs.subrange(0, i + 1), date, q, orc)
                                    == (BatchState {
                                    tasks: self.store.tasks_model(),
                                    results: results@,
                                }));
                            }
                        },
                        None => {
                            let msg = err_string(ident);
                            let ghost o = (0u128, 0i64, None::<i64>);
                            proof {
                                crate::ai_commands::lemma_string_views_push(results.errors@, msg);
                            }
                            results.errors.push(msg);
                            proof {
                                orc = orc.push(o);
                                lemma_fold_orc_agrees(
                                    ts0,
                                    cs.subrange(0, i as int),
                                    date,
                                    q,
                                    orc_old,
                                    orc,
                                );
                                let step = batch_step(ts_cur, res_cur, cs[i as int], date, q, o);
                                assert(self.store.tasks_model() =~= step.tasks);
                                assert(results@ =~= step.results);
                                assert(batch_fold(ts0, cs.subrange(0, i + 1), date, q, orc)
                                    == (BatchState {
                                    tasks: self.store.tasks_model(),
                                    results: results@,
                                }));
                            }
                        },
                    }
                },
                AICommand::Drop(ident) => {
                    let resolved = self.find_task_by_identifier(ident);
                    match resolved {
                        Some(found) => {
                            let (task_id, title) = found;
                            self.store.drop_task(task_id);
                            let ghost o = (0u128, 0i64, None::<i64>);
                            proof {
                                crate::ai_commands::lemma_string_views_push(
                                    results.tasks_dropped@,
                                    title,
                                );
                            }
                            results.tasks_dropped.push(title);
                            proof {
                                orc = orc.push(o);
                                lemma_fold_orc_agrees(
                                    ts0,
                                    cs.subrange(0, i as int),
                                    date,
                                    q,
                                    orc_old,
                                    orc,
                                );
                                let step = batch_step(ts_cur, res_cur, cs[i as int], date, q, o);
                                assert(self.store.tasks_model() =~= step.tasks);
                                assert(results@ =~= step.results);
                                assert(batch_fold(ts0, cs.subrange(0, i + 1), date, q, orc)
                                    == (BatchState {
                                    tasks: self.store.tasks_model(),
                                    results: results@,
                                }));
                            }
                        },
                        None => {
                            let msg = err_string(ident);
                            let ghost o = (0u128, 0i64, None::<i64>);
                            proof {
                                crate::ai_commands::lemma_string_views_push(results.errors@, msg);
                            }
                            results.errors.push(msg);
                            proof {
                                orc = orc.push(o);
                                lemma_fold_orc_agrees(
                                    ts0,
                                    cs.subrange(0, i as int),
                                    date,
                                    q,
                                    orc_old,
                                    orc,
                                );
                                let step = batch_step(ts_cur, res_cur, cs[i as int], date, q, o);
                                assert(self.store.tasks_model() =~= step.tasks);
                                assert(results@ =~= step.results);
                                assert(batch_fold(ts0, cs.subrange(0, i + 1), date, q, orc)
                                    == (BatchState {
                                    tasks: self.store.tasks_model(),
                                    results: results@,
                                }));
                            }
                        },
                    }
                },
                AICommand::Edit { target, new_title, new_urgency, new_importance } => {
                    let resolved = self.find_task_by_identifier(target);
                    match resolved {
                        Some(found) => {
                            let (task_id, old_title) = found;
                            let k2 = self.store.find_index(task_id);
                            proof {
                                let ghost rk = resolve_target(
                                    ts_cur,
                                    date,
                                    q,
                                    target@,
                                )->Some_0;
                                crate::store::lemma_find_by_id(ts_cur, task_id);
                                if k2 == self.store.tasks.len() {
                                    assert(ts_cur[rk].id == task_id);
                                    assert(false);
                                }
                            }
                            let cur_title = self.store.tasks[k2].title.clone();
                            let cur_u = self.store.tasks[k2].urgency;
                            let cur_i = self.store.tasks[k2].importance;
                            let ft = match new_title {
                                Some(t) => t.clone(),
                                None => cur_title,
                            };
                            let fu = match new_urgency {
                                Some(u) => *u,
                                None => cur_u,
                            };
                            let fi = match new_importance {
                                Some(x) => *x,
                                None => cur_i,
                            };
                            let mut entry: Vec<char> = Vec::new();
                            push_string_chars(&mut entry, &old_title);
                            push_str_chars(&mut entry, " \u{2192} ");
                            push_string_chars(&mut entry, &ft);
                            crate::ai_commands::push_priority_suffix(&mut entry, fu, fi);
                            self.store.update_task(task_id, ft, fu, fi);
                            let entry_s = chars_to_string(&entry);
                            let ghost o = (0u128, 0i64, None::<i64>);
                            proof {
                                crate::ai_commands::lemma_string_views_push(
                                    results.tasks_edited@,
                                    entry_s,
                                );
                            }
                            results.tasks_edited.push(entry_s);
                            proof {
                                orc = orc.push(o);
                                lemma_fold_orc_agrees(
                                    ts0,
                                    cs.subrange(0, i as int),
                                    date,
                                    q,
                                    orc_old,
                                    orc,
                                );
                                let step = batch_step(ts_cur, res_cur, cs[i as int], date, q, o);
                                assert(entry_s@ =~= edited_entry(
                                    ts_cur[resolve_target(ts_cur, date, q, target@)->Some_0].title,
                                    ft@,
                                    fu,
                                    fi,
                                ));
                                assert(self.store.tasks_model() =~= step.tasks);
                                assert(results@ =~= step.results);
                                assert(batch_fold(ts0, cs.subrange(0, i + 1), date, q, orc)
                                    == (BatchState {
                                    tasks: self.store.tasks_model(),
                                    results: results@,
                                }));
                            }
                        },
                        None => {
                            let msg = err_string(target);
                            let ghost o = (0u128, 0i64, None::<i64>);
                            proof {
                                crate::ai_commands::lemma_string_views_push(results.errors@, msg);
                            }
                            results.errors.push(msg);
                            proof {
                                orc = orc.push(o);
                                lemma_fold_orc_agrees(
                                    ts0,
                                    cs.subrange(0, i as int),
                                    date,
                                    q,
                                    orc_old,
                                    orc,
                                );
                                let step = batch_step(ts_cur, res_cur, cs[i as int], date, q, o);
                                assert(self.store.tasks_model() =~= step.tasks);
                                assert(results@ =~= step.results);
                                assert(batch_fold(ts0, cs.subrange(0, i + 1), date, q, orc)
                                    == (BatchState {
                                    tasks: self.store.tasks_model(),
                                    results: results@,
                                }));
                            }
                        },
                    }
                },
            }
            i = i + 1;
        }
        proof {
            assert(cs.subrange(0, n as int) =~= cs);
        }
        let changed = results.tasks_added.len() > 0 || results.tasks_completed.len() > 0
            || results.tasks_dropped.len() > 0 || results.tasks_edited.len() > 0;
        if changed {
            self.store_dirty = true;
            self.clamp_selected_index();
        }
        let out = results.format_confirmation();
        proof {
            lemma_fold_added_exact(ts0, cs, date, q, orc);
            assert(commands@ == pre.pending_commands@);
            assert(batch_post(pre, *self, out@, orc));
        }
        out
    }

    /// Resolve a batch target against the current displayed view (positional)
    /// or the pending tasks of the viewed date (title fragment, compared
    /// case-insensitively under `str::to_lowercase`'s full Unicode folding):
    /// the first match wins. Returns the matched task's identifier and title.
    pub fn find_task_by_identifier(&self, identifier: &TaskIdentifier) -> (r: Option<
        (u128, String),
    >)
        requires
            self.wf(),
        ensures
            ({
                let ts = self.store.tasks_model();
                match resolve_target(ts, self.view_date, self.selected_quadrant, identifier@) {
                    Some(k) => {
                        &&& 0 <= k < ts.len()
                        &&& r matches Some(p) && p.0 == ts[k].id && p.1@ == ts[k].title
                    },
                    None => r is None,
                }
            }),
    {
        let ghost ts = self.store.tasks_model();
        match identifier {
            TaskIdentifier::Index(idx) => {
                let idx = *idx;
                let view = crate::order::ordered_visible(
                    &self.store.tasks,
                    self.view_date,
                    self.selected_quadrant,
                );
                proof {
                    assert(crate::order::idx_views(view@).len() == view@.len());
                }
                if idx > 0 && idx <= view.len() {
                    let chosen = view[idx - 1];
                    proof {
                        assert(crate::order::idx_views(view@)[idx - 1] == chosen as int);
                        assert(ts[chosen as int] == self.store.tasks@[chosen as int]@);
                    }
                    Some((self.store.tasks[chosen].id, self.store.tasks[chosen].title.clone()))
                } else {
                    None
                }
            },
            TaskIdentifier::Title(fragment) => {
                let folded_frag_s = outside::lowercase(fragment.as_str());
                let folded_frag = str_to_chars(folded_frag_s.as_str());
                let n = self.store.tasks.len();
                let mut i: usize = 0;
                while i < n
                    invariant
                        i <= n == self.store.tasks@.len(),
                        ts == self.store.tasks_model(),
                        folded_frag@ == outside::lower_of(fragment@),
                        identifier@ == TaskIdentModel::Title(fragment@),
                        forall|j: int|
                            0 <= j < i ==> !title_matches(
                                #[trigger] ts[j],
                                self.view_date,
                                fragment@,
                            ),
                    decreases n - i,
                {
                    let t = &self.store.tasks[i];
                    if t.date == self.view_date && t.status == TaskStatus::Pending {
                        let folded_title_s = outside::lowercase(t.title.as_str());
                        let folded_title = str_to_chars(folded_title_s.as_str());
                        if contains_chars(&folded_title, &folded_frag) {
                            proof {
                                lemma_title_find_is(ts, self.view_date, fragment@, i as int);
                                assert(ts[i as int] == self.store.tasks@[i as int]@);
                            }
                            return Some((t.id, t.title.clone()));
                        }
                    }
                    i = i + 1;
                }
                proof {
                    lemma_title_find_is(ts, self.view_date, fragment@, n as int);
                }
                None
            },
        }
    }
}

} // verus!
