//! Key handling: one handler per screen, each returning an explicit
//! continue/exit signal, with the screen transitions held to a strict tree
//! and the selection invariant preserved everywhere. Each handler's whole
//! behaviour is pinned by a step predicate over the state before and after.

use vstd::prelude::*;

use crate::ai::ChatMessage;
use crate::order::{idx_views, ordered_visible, view_count, view_order};
use crate::session::{
    clamped_index, date_toggled, selection_ok, App, CurrentScreen, Key, KeyPress,
};
use crate::store::{find_by_id, toggle_spec};
use crate::task::{clamp_priority, Quadrant, Task, TaskModel, TaskStatus};
use crate::text::{
    chars_to_string, dec_str, join_sp, push_str_chars, split_ws, split_ws_chars, trim_chars,
    trim_end_rec, trimmed,
};
use crate::zen::{Pomodoro, ZenState};

verus! {

/// A task line as the editing screen pre-fills it: the title, then the
/// priorities in shorthand.
pub open spec fn title_text(title: Seq<char>, u: u8, i: u8) -> Seq<char> {
    title + " u"@ + dec_str(u as int) + "i"@ + dec_str(i as int)
}

/// The legal screen transitions: a strict tree around `Main`, plus `ZenMode`
/// under `Focus`; only `Main` may leave for `Exiting`.
pub open spec fn screen_edge(from: CurrentScreen, to: CurrentScreen) -> bool {
    ||| to == from
    ||| (from == CurrentScreen::Main && (to == CurrentScreen::Editing || to == CurrentScreen::Chat
        || to == CurrentScreen::Focus || to == CurrentScreen::Exiting))
    ||| (from == CurrentScreen::Editing && to == CurrentScreen::Main)
    ||| (from == CurrentScreen::Chat && to == CurrentScreen::Main)
    ||| (from == CurrentScreen::Focus && (to == CurrentScreen::Main || to
        == CurrentScreen::ZenMode))
    ||| (from == CurrentScreen::ZenMode && to == CurrentScreen::Focus)
}

/// The identifier of the task the selection rests on, if the selection is
/// inside the displayed view.
pub open spec fn selected_task(app: App) -> Option<u128> {
    let ts = app.store.tasks_model();
    let v = view_order(ts, app.view_date, app.selected_quadrant);
    if app.selected_task_index < v.len() {
        Some(ts[v[app.selected_task_index as int]].id)
    } else {
        None
    }
}

/// Only the screen changed.
pub open spec fn to_screen(pre: App, post: App, s: CurrentScreen) -> bool {
    post == (App { current_screen: s, ..pre })
}

/// Only the selection index changed, to the given value.
pub open spec fn to_index(pre: App, post: App, idx: int) -> bool {
    post.selected_task_index == idx && post == (App {
        selected_task_index: post.selected_task_index,
        ..pre
    })
}

/// One step down a wrapping list of `c` entries.
pub open spec fn index_down(idx: int, c: int) -> int {
    if idx >= c - 1 {
        0
    } else {
        idx + 1
    }
}

/// One step up a wrapping list of `c` entries.
pub open spec fn index_up(idx: int, c: int) -> int {
    if idx == 0 {
        c - 1
    } else {
        idx - 1
    }
}

/// Five steps down, stopping at the end.
pub open spec fn index_page_down(idx: int, c: int) -> int {
    if idx + 5 < c {
        idx + 5
    } else {
        c - 1
    }
}

/// Five steps up, stopping at the start.
pub open spec fn index_page_up(idx: int) -> int {
    if idx >= 5 {
        idx - 5
    } else {
        0
    }
}

pub open spec fn nav_down(pre: App, post: App) -> bool {
    let c = view_count(pre.store.tasks_model(), pre.view_date, pre.selected_quadrant);
    if c > 0 {
        to_index(pre, post, index_down(pre.selected_task_index as int, c))
    } else {
        post == pre
    }
}

pub open spec fn nav_up(pre: App, post: App) -> bool {
    let c = view_count(pre.store.tasks_model(), pre.view_date, pre.selected_quadrant);
    if c > 0 {
        to_index(pre, post, index_up(pre.selected_task_index as int, c))
    } else {
        post == pre
    }
}

pub open spec fn nav_page_down(pre: App, post: App) -> bool {
    let c = view_count(pre.store.tasks_model(), pre.view_date, pre.selected_quadrant);
    if c > 0 {
        to_index(pre, post, index_page_down(pre.selected_task_index as int, c))
    } else {
        post == pre
    }
}

pub open spec fn nav_page_up(pre: App, post: App) -> bool {
    let c = view_count(pre.store.tasks_model(), pre.view_date, pre.selected_quadrant);
    if c > 0 {
        to_index(pre, post, index_page_up(pre.selected_task_index as int))
    } else {
        post == pre
    }
}

/// The quadrant after one `Tab`: the four cycle in reading order.
pub open spec fn quadrant_cycled(q: Quadrant) -> Quadrant {
    match q {
        Quadrant::DoFirst => Quadrant::Schedule,
        Quadrant::Schedule => Quadrant::Delegate,
        Quadrant::Delegate => Quadrant::Drop,
        Quadrant::Drop => Quadrant::DoFirst,
    }
}

/// The quadrant after a step left in the grid.
pub open spec fn quadrant_left(q: Quadrant) -> Quadrant {
    match q {
        Quadrant::Schedule => Quadrant::DoFirst,
        Quadrant::Drop => Quadrant::Delegate,
        _ => q,
    }
}

/// The quadrant after a step right in the grid.
pub open spec fn quadrant_right(q: Quadrant) -> Quadrant {
    match q {
        Quadrant::DoFirst => Quadrant::Schedule,
        Quadrant::Delegate => Quadrant::Drop,
        _ => q,
    }
}

/// Only the quadrant changed, and the selection was reset to the top.
pub open spec fn to_quadrant(pre: App, post: App, q: Quadrant) -> bool {
    post == (App { selected_quadrant: q, selected_task_index: 0, ..pre })
}

/// What dropping a task by identifier does to the list: only a pending task
/// can be dropped — `Dropped` is terminal and not reachable from `Completed`.
pub open spec fn dropped_by_id(ts: Seq<TaskModel>, id: u128) -> Seq<TaskModel> {
    let k = find_by_id(ts, id);
    if k < ts.len() && ts[k].status == TaskStatus::Pending {
        ts.update(k, TaskModel { status: TaskStatus::Dropped, ..ts[k] })
    } else {
        ts
    }
}

/// What rescheduling a task by identifier does to the list.
pub open spec fn moved_by_id(ts: Seq<TaskModel>, id: u128, date: i64) -> Seq<TaskModel> {
    let k = find_by_id(ts, id);
    if k < ts.len() {
        ts.update(k, TaskModel { date: date, ..ts[k] })
    } else {
        ts
    }
}

/// The selected task's completion was toggled, the store marked dirty, the
/// selection re-clamped; with no selection nothing moved.
pub open spec fn toggled_selected(pre: App, post: App) -> bool {
    match selected_task(pre) {
        Some(id) => exists|stamp: Option<i64>|
            {
                &&& post.store.tasks_model() == #[trigger] toggle_spec(
                    pre.store.tasks_model(),
                    id,
                    stamp,
                )
                &&& post.store_dirty
                &&& post.selected_task_index as int == clamped_index(
                    view_count(post.store.tasks_model(), pre.view_date, pre.selected_quadrant),
                    pre.selected_task_index as int,
                )
                &&& post == (App {
                    store: post.store,
                    selected_task_index: post.selected_task_index,
                    store_dirty: true,
                    ..pre
                })
            },
        None => post == pre,
    }
}

/// The selected task was dropped, the store marked dirty, the selection
/// re-clamped; with no selection nothing moved.
pub open spec fn dropped_selected(pre: App, post: App) -> bool {
    match selected_task(pre) {
        Some(id) => {
            &&& post.store.tasks_model() == dropped_by_id(pre.store.tasks_model(), id)
            &&& post.store_dirty
            &&& post.selected_task_index as int == clamped_index(
                view_count(post.store.tasks_model(), pre.view_date, pre.selected_quadrant),
                pre.selected_task_index as int,
            )
            &&& post == (App {
                store: post.store,
                selected_task_index: post.selected_task_index,
                store_dirty: true,
                ..pre
            })
        },
        None => post == pre,
    }
}

/// The selected task was pushed to the next day, the store marked dirty, the
/// selection re-clamped; with no selection nothing moved.
pub open spec fn moved_selected(pre: App, post: App) -> bool {
    match selected_task(pre) {
        Some(id) => {
            &&& post.store.tasks_model() == moved_by_id(
                pre.store.tasks_model(),
                id,
                (pre.view_date + 1) as i64,
            )
            &&& post.store_dirty
            &&& post.selected_task_index as int == clamped_index(
                view_count(post.store.tasks_model(), pre.view_date, pre.selected_quadrant),
                pre.selected_task_index as int,
            )
            &&& post == (App {
                store: post.store,
                selected_task_index: post.selected_task_index,
                store_dirty: true,
                ..pre
            })
        },
        None => post == pre,
    }
}

/// The viewed date flipped between today and tomorrow, and the selection was
/// reset to the top.
pub open spec fn date_flipped(pre: App, post: App) -> bool {
    &&& exists|today: i64|
        -2147483648 <= today <= 2147483647 && post.view_date as int == #[trigger] date_toggled(
            pre.view_date,
            today,
        )
    &&& post == (App { view_date: post.view_date, selected_task_index: 0, ..pre })
}

/// The selected task's title and priorities were loaded into the input line
/// and the editing screen entered; with no selection nothing moved.
pub open spec fn edit_entered(pre: App, post: App) -> bool {
    match selected_task(pre) {
        Some(id) => {
            let ts = pre.store.tasks_model();
            let k = find_by_id(ts, id);
            if k < ts.len() {
                &&& post.input_buffer@ == title_text(
                    ts[k].title,
                    ts[k].urgency,
                    ts[k].importance,
                )
                &&& post == (App {
                    input_buffer: post.input_buffer,
                    editing_task_id: Some(id),
                    current_screen: CurrentScreen::Editing,
                    input_mode: true,
                    ..pre
                })
            } else {
                post == pre
            }
        },
        None => post == pre,
    }
}

/// What one key does on the main screen.
pub open spec fn main_step(pre: App, post: App, key: KeyPress, r: Option<bool>) -> bool {
    match key.code {
        Key::Char(ch) => {
            if ch == 'q' {
                to_screen(pre, post, CurrentScreen::Exiting) && r == Some(true)
            } else if ch == 'z' {
                to_screen(pre, post, CurrentScreen::Focus) && r is None
            } else if ch == 'c' {
                to_screen(pre, post, CurrentScreen::Chat) && r is None
            } else if ch == '?' {
                post == (App { show_help: !pre.show_help, ..pre }) && r is None
            } else if ch == 'a' {
                &&& post.input_buffer@.len() == 0
                &&& post == (App {
                    current_screen: CurrentScreen::Editing,
                    input_mode: true,
                    input_buffer: post.input_buffer,
                    editing_task_id: None,
                    ..pre
                })
                &&& r is None
            } else if ch == 'e' {
                edit_entered(pre, post) && r is None
            } else if ch == 'd' {
                toggled_selected(pre, post) && r is None
            } else if ch == 'x' {
                dropped_selected(pre, post) && r is None
            } else if ch == 't' {
                date_flipped(pre, post) && r is None
            } else if ch == '>' || ch == '.' {
                moved_selected(pre, post) && r is None
            } else if ch == 'j' {
                nav_down(pre, post) && r is None
            } else if ch == 'k' {
                nav_up(pre, post) && r is None
            } else if ch == 'h' {
                to_quadrant(pre, post, quadrant_left(pre.selected_quadrant)) && r is None
            } else if ch == 'l' {
                to_quadrant(pre, post, quadrant_right(pre.selected_quadrant)) && r is None
            } else {
                post == pre && r is None
            }
        },
        Key::Enter => toggled_selected(pre, post) && r is None,
        Key::Tab => to_quadrant(pre, post, quadrant_cycled(pre.selected_quadrant)) && r is None,
        Key::Down => nav_down(pre, post) && r is None,
        Key::Up => nav_up(pre, post) && r is None,
        Key::PageDown => nav_page_down(pre, post) && r is None,
        Key::PageUp => nav_page_up(pre, post) && r is None,
        Key::Left => to_quadrant(pre, post, quadrant_left(pre.selected_quadrant)) && r is None,
        Key::Right => to_quadrant(pre, post, quadrant_right(pre.selected_quadrant)) && r is None,
        _ => post == pre && r is None,
    }
}

/// How many tasks the active view displays.
pub fn get_task_count(app: &App) -> (r: usize)
    requires
        app.wf(),
    ensures
        r == view_count(app.store.tasks_model(), app.view_date, app.selected_quadrant),
        r == view_order(app.store.tasks_model(), app.view_date, app.selected_quadrant).len(),
{
    proof {
        crate::order::lemma_view_order_len(
            app.store.tasks_model(),
            app.view_date,
            app.selected_quadrant,
        );
    }
    crate::order::count_visible(&app.store.tasks, app.view_date, app.selected_quadrant)
}

/// The displayed view of the active date and quadrant, as positions into the
/// store's task list, highest score first.
pub fn get_filtered_tasks(app: &App) -> (r: Vec<usize>)
    requires
        app.wf(),
    ensures
        idx_views(r@) == view_order(app.store.tasks_model(), app.view_date, app.selected_quadrant),
        forall|j: int| 0 <= j < r@.len() ==> (#[trigger] r@[j]) < app.store.tasks@.len(),
{
    ordered_visible(&app.store.tasks, app.view_date, app.selected_quadrant)
}

/// The identifier of the task the selection rests on, if any.
pub fn get_selected_task_id(app: &App) -> (r: Option<u128>)
    requires
        app.wf(),
    ensures
        r == selected_task(*app),
{
    let view = get_filtered_tasks(app);
    if app.selected_task_index < view.len() {
        let chosen = view[app.selected_task_index];
        proof {
            assert(idx_views(view@)[app.selected_task_index as int] == chosen as int);
            assert(app.store.tasks_model()[chosen as int] == app.store.tasks@[chosen as int]@);
        }
        Some(app.store.tasks[chosen].id)
    } else {
        None
    }
}

/// Handle one key on the main screen.
pub fn handle_main_screen(key: KeyPress, app: &mut App) -> (r: Option<bool>)
    requires
        old(app).wf(),
        old(app).current_screen == CurrentScreen::Main,
        old(app).view_date < i64::MAX,
    ensures
        final(app).wf(),
        main_step(*old(app), *final(app), key, r),
        screen_edge(old(app).current_screen, final(app).current_screen),
        selection_ok(*old(app)) ==> selection_ok(*final(app)),
{
    match key.code {
        Key::Char(ch) => {
            if ch == 'q' {
                app.current_screen = CurrentScreen::Exiting;
                return Some(true);
            } else if ch == 'z' {
                app.current_screen = CurrentScreen::Focus;
            } else if ch == 'c' {
                app.current_screen = CurrentScreen::Chat;
            } else if ch == '?' {
                app.show_help = !app.show_help;
            } else if ch == 'a' {
                app.current_screen = CurrentScreen::Editing;
                app.input_mode = true;
                app.input_buffer = Vec::new();
                app.editing_task_id = None;
            } else if ch == 'e' {
                enter_edit_for_selected(app);
            } else if ch == 'd' {
                toggle_selected(app);
            } else if ch == 'x' {
                drop_selected(app);
            } else if ch == 't' {
                flip_view_date(app);
            } else if ch == '>' || ch == '.' {
                move_selected(app);
            } else if ch == 'j' {
                step_down(app);
            } else if ch == 'k' {
                step_up(app);
            } else if ch == 'h' {
                let q = quadrant_left_exec(app.selected_quadrant);
                app.selected_quadrant = q;
                app.selected_task_index = 0;
            } else if ch == 'l' {
                let q = quadrant_right_exec(app.selected_quadrant);
                app.selected_quadrant = q;
                app.selected_task_index = 0;
            }
        },
        Key::Enter => {
            toggle_selected(app);
        },
        Key::Tab => {
            let q = quadrant_cycled_exec(app.selected_quadrant);
            app.selected_quadrant = q;
            app.selected_task_index = 0;
        },
        Key::Down => {
            step_down(app);
        },
        Key::Up => {
            step_up(app);
        },
        Key::PageDown => {
            step_page_down(app);
        },
        Key::PageUp => {
            step_page_up(app);
        },
        Key::Left => {
            let q = quadrant_left_exec(app.selected_quadrant);
            app.selected_quadrant = q;
            app.selected_task_index = 0;
        },
        Key::Right => {
            let q = quadrant_right_exec(app.selected_quadrant);
            app.selected_quadrant = q;
            app.selected_task_index = 0;
        },
        _ => {},
    }
    None
}

fn quadrant_cycled_exec(q: Quadrant) -> (r: Quadrant)
    ensures
        r == quadrant_cycled(q),
{
    match q {
        Quadrant::DoFirst => Quadrant::Schedule,
        Quadrant::Schedule => Quadrant::Delegate,
        Quadrant::Delegate => Quadrant::Drop,
        Quadrant::Drop => Quadrant::DoFirst,
    }
}

fn quadrant_left_exec(q: Quadrant) -> (r: Quadrant)
    ensures
        r == quadrant_left(q),
{
    match q {
        Quadrant::Schedule => Quadrant::DoFirst,
        Quadrant::Drop => Quadrant::Delegate,
        _ => q,
    }
}

fn quadrant_right_exec(q: Quadrant) -> (r: Quadrant)
    ensures
        r == quadrant_right(q),
{
    match q {
        Quadrant::DoFirst => Quadrant::Schedule,
        Quadrant::Delegate => Quadrant::Drop,
        _ => q,
    }
}

/// Toggle the selected task's completion, mark the store for a persist, and
/// re-clamp the selection.
fn toggle_selected(app: &mut App)
    requires
        old(app).wf(),
    ensures
        final(app).wf(),
        toggled_selected(*old(app), *final(app)),
        selection_ok(*old(app)) ==> selection_ok(*final(app)),
{
    match get_selected_task_id(app) {
        Some(id) => {
            let r2 = app.store.toggle_complete_task(id);
            let ghost stamp = if r2 {
                app.store.tasks_model()[find_by_id(
                    old(app).store.tasks_model(),
                    id,
                )].completed_at
            } else {
                None
            };
            app.store_dirty = true;
            app.clamp_selected_index();
            proof {
                assert(final(app).store.tasks_model() == toggle_spec(
                    old(app).store.tasks_model(),
                    id,
                    stamp,
                ));
            }
        },
        None => {},
    }
}

/// Drop the selected task, mark the store for a persist, re-clamp.
fn drop_selected(app: &mut App)
    requires
        old(app).wf(),
    ensures
        final(app).wf(),
        dropped_selected(*old(app), *final(app)),
        selection_ok(*old(app)) ==> selection_ok(*final(app)),
{
    match get_selected_task_id(app) {
        Some(id) => {
            app.store.drop_task(id);
            app.store_dirty = true;
            app.clamp_selected_index();
        },
        None => {},
    }
}

/// Push the selected task one day forward, mark for a persist, re-clamp.
fn move_selected(app: &mut App)
    requires
        old(app).wf(),
        old(app).view_date < i64::MAX,
    ensures
        final(app).wf(),
        moved_selected(*old(app), *final(app)),
        selection_ok(*old(app)) ==> selection_ok(*final(app)),
{
    match get_selected_task_id(app) {
        Some(id) => {
            let tomorrow = app.view_date + 1;
            app.store.move_task_to_date(id, tomorrow);
            app.store_dirty = true;
            app.clamp_selected_index();
        },
        None => {},
    }
}

/// Flip the view between today and tomorrow and reset the selection.
fn flip_view_date(app: &mut App)
    requires
        old(app).wf(),
    ensures
        final(app).wf(),
        date_flipped(*old(app), *final(app)),
        selection_ok(*final(app)),
{
    app.toggle_view_date();
    app.selected_task_index = 0;
    app.clamp_selected_index();
}

/// Load the selected task into the input line for editing in place.
fn enter_edit_for_selected(app: &mut App)
    requires
        old(app).wf(),
    ensures
        final(app).wf(),
        edit_entered(*old(app), *final(app)),
        selection_ok(*old(app)) ==> selection_ok(*final(app)),
{
    match get_selected_task_id(app) {
        Some(id) => {
            let k = app.store.find_index(id);
            if k < app.store.tasks.len() {
                let mut buf: Vec<char> = Vec::new();
                let title_chars = crate::text::str_to_chars(app.store.tasks[k].title.as_str());
                buf.extend_from_slice(title_chars.as_slice());
                push_str_chars(&mut buf, " u");
                let ud = crate::text::usize_dec_chars(app.store.tasks[k].urgency as usize);
                buf.extend_from_slice(ud.as_slice());
                push_str_chars(&mut buf, "i");
                let id_ = crate::text::usize_dec_chars(app.store.tasks[k].importance as usize);
                buf.extend_from_slice(id_.as_slice());
                proof {
                    let ts = app.store.tasks_model();
                    assert(ts[k as int] == app.store.tasks@[k as int]@);
                    assert(buf@ =~= title_text(
                        ts[k as int].title,
                        ts[k as int].urgency,
                        ts[k as int].importance,
                    ));
                }
                app.input_buffer = buf;
                app.editing_task_id = Some(id);
                app.current_screen = CurrentScreen::Editing;
                app.input_mode = true;
            }
        },
        None => {},
    }
}

/// Move the selection one entry down, wrapping.
fn step_down(app: &mut App)
    requires
        old(app).wf(),
    ensures
        final(app).wf(),
        nav_down(*old(app), *final(app)),
        selection_ok(*old(app)) ==> selection_ok(*final(app)),
{
    let count = get_task_count(app);
    if count > 0 {
        if app.selected_task_index >= count - 1 {
            app.selected_task_index = 0;
        } else {
            app.selected_task_index = app.selected_task_index + 1;
        }
    }
}

/// Move the selection one entry up, wrapping.
fn step_up(app: &mut App)
    requires
        old(app).wf(),
    ensures
        final(app).wf(),
        nav_up(*old(app), *final(app)),
        selection_ok(*old(app)) ==> selection_ok(*final(app)),
{
    let count = get_task_count(app);
    if count > 0 {
        if app.selected_task_index == 0 {
            app.selected_task_index = count - 1;
        } else {
            app.selected_task_index = app.selected_task_index - 1;
        }
    }
}

/// Jump the selection five entries down, stopping at the end.
fn step_page_down(app: &mut App)
    requires
        old(app).wf(),
    ensures
        final(app).wf(),
        nav_page_down(*old(app), *final(app)),
        selection_ok(*old(app)) ==> selection_ok(*final(app)),
{
    let count = get_task_count(app);
    if count > 0 {
        let cap = count - 1;
        if app.selected_task_index >= cap {
            app.selected_task_index = cap;
        } else if cap - app.selected_task_index <= 5 {
            app.selected_task_index = cap;
        } else {
            app.selected_task_index = app.selected_task_index + 5;
        }
    }
}

/// What a pending task list looks like after one editing-screen add: the
/// fresh task appended, with whatever identifier and stamp the world gave.
pub open spec fn added_model(
    ts: Seq<TaskModel>,
    title: Seq<char>,
    u: u8,
    i: u8,
    date: i64,
    tid: u128,
    cstamp: i64,
) -> Seq<TaskModel> {
    ts.push(
        TaskModel {
            id: tid,
            title: title,
            urgency: clamp_priority(u),
            importance: clamp_priority(i),
            status: TaskStatus::Pending,
            date: date,
            created_at: cstamp,
            completed_at: None,
        },
    )
}

/// What committing the input line does: an empty line changes no task; a
/// non-empty line is scanned like an `[ADD]` body (the last priority token
/// wins, the rest becomes the title) and either rewrites the task under
/// edit or appends a fresh task on the viewed date; either way the session
/// returns to the main screen with the input cleared and the selection
/// re-clamped.
pub open spec fn commit_skip(pre: App, post: App) -> bool {
    &&& post.input_buffer@.len() == 0
    &&& post.selected_task_index as int == clamped_index(
        view_count(pre.store.tasks_model(), pre.view_date, pre.selected_quadrant),
        pre.selected_task_index as int,
    )
    &&& post == (App {
        input_buffer: post.input_buffer,
        input_mode: false,
        current_screen: CurrentScreen::Main,
        selected_task_index: post.selected_task_index,
        ..pre
    })
}

/// The words of the input line, scanned like an `[ADD]` body.
pub open spec fn commit_words(pre: App) -> Seq<Seq<char>> {
    split_ws(trimmed(pre.input_buffer@))
}

/// The priorities the input line names; both default to one.
pub open spec fn commit_prio(pre: App) -> (u8, u8) {
    match crate::ai_commands::last_priority(commit_words(pre)) {
        Some(p) => p,
        None => (1u8, 1u8),
    }
}

/// The title the input line carries.
pub open spec fn commit_title(pre: App) -> Seq<char> {
    join_sp(crate::ai_commands::title_words(commit_words(pre)))
}

/// The store change a non-empty input line commits.
pub open spec fn commit_store_write(pre: App, post: App) -> bool {
    match pre.editing_task_id {
        Some(eid) => {
            let ts = pre.store.tasks_model();
            let k = find_by_id(ts, eid);
            post.store.tasks_model() == (if k < ts.len() {
                ts.update(
                    k,
                    TaskModel {
                        title: commit_title(pre),
                        urgency: clamp_priority(commit_prio(pre).0),
                        importance: clamp_priority(commit_prio(pre).1),
                        ..ts[k]
                    },
                )
            } else {
                ts
            })
        },
        None => exists|tid: u128, cstamp: i64|
            post.store.tasks_model() == #[trigger] added_model(
                pre.store.tasks_model(),
                commit_title(pre),
                commit_prio(pre).0,
                commit_prio(pre).1,
                pre.view_date,
                tid,
                cstamp,
            ),
    }
}

/// Everything else a non-empty input line commits: back to the main screen,
/// input cleared, the store marked for a persist, the selection re-clamped.
pub open spec fn commit_write(pre: App, post: App) -> bool {
    &&& commit_store_write(pre, post)
    &&& post.input_buffer@.len() == 0
    &&& post.editing_task_id is None
    &&& post.store_dirty
    &&& post.selected_task_index as int == clamped_index(
        view_count(post.store.tasks_model(), pre.view_date, pre.selected_quadrant),
        pre.selected_task_index as int,
    )
    &&& post == (App {
        store: post.store,
        input_buffer: post.input_buffer,
        input_mode: false,
        editing_task_id: None,
        current_screen: CurrentScreen::Main,
        selected_task_index: post.selected_task_index,
        store_dirty: true,
        ..pre
    })
}

pub open spec fn editing_commit(pre: App, post: App) -> bool {
    &&& (trimmed(pre.input_buffer@).len() == 0 ==> commit_skip(pre, post))
    &&& (trimmed(pre.input_buffer@).len() != 0 ==> commit_write(pre, post))
}

/// What one key does on the editing screen.
pub open spec fn editing_step(pre: App, post: App, key: KeyPress, r: Option<bool>) -> bool {
    r is None && match key.code {
        Key::Enter => editing_commit(pre, post),
        Key::Esc => {
            &&& post.input_buffer@.len() == 0
            &&& post == (App {
                input_buffer: post.input_buffer,
                input_mode: false,
                editing_task_id: None,
                current_screen: CurrentScreen::Main,
                ..pre
            })
        },
        Key::Backspace => {
            &&& post.input_buffer@ == (if pre.input_buffer@.len() > 0 {
                pre.input_buffer@.drop_last()
            } else {
                pre.input_buffer@
            })
            &&& post == (App { input_buffer: post.input_buffer, ..pre })
        },
        Key::Char(ch) => {
            &&& post.input_buffer@ == pre.input_buffer@.push(ch)
            &&& post == (App { input_buffer: post.input_buffer, ..pre })
        },
        _ => post == pre,
    }
}

/// Commit the input line: scan it like an `[ADD]` body and apply it to the
/// task under edit or as a fresh task, then return to the main screen.
#[verifier::spinoff_prover]
#[verifier::rlimit(80)]
fn commit_input_line(app: &mut App)
    requires
        old(app).wf(),
    ensures
        final(app).wf(),
        editing_commit(*old(app), *final(app)),
        selection_ok(*final(app)),
{
    let ghost mut g_tid: u128 = 0;
    let ghost mut g_cstamp: i64 = 0;
    let t = trim_chars(&app.input_buffer);
    if t.len() > 0 {
        let words = split_ws_chars(&t);
        let (prio, title_parts) = crate::ai_commands::scan_words(&words);
        let (u, i) = match prio {
            Some(p) => p,
            None => (1u8, 1u8),
        };
        let title_chars = crate::text::join_sp_chars(&title_parts);
        let title = chars_to_string(&title_chars);
        match app.editing_task_id {
            Some(eid) => {
                app.store.update_task(eid, title, u, i);
                app.editing_task_id = None;
            },
            None => {
                let task = Task::new(title, u, i, app.view_date);
                proof {
                    g_tid = task@.id;
                    g_cstamp = task@.created_at;
                }
                app.store.add_task(task);
                proof {
                    assert(app.store.tasks_model() =~= added_model(
                        old(app).store.tasks_model(),
                        join_sp(
                            crate::ai_commands::title_words(
                                split_ws(trimmed(old(app).input_buffer@)),
                            ),
                        ),
                        u,
                        i,
                        old(app).view_date,
                        g_tid,
                        g_cstamp,
                    ));
                }
            },
        }
        app.store_dirty = true;
    }
    app.input_buffer = Vec::new();
    app.input_mode = false;
    app.current_screen = CurrentScreen::Main;
    app.clamp_selected_index();
    proof {
        let t = trimmed(old(app).input_buffer@);
        if t.len() == 0 {
            assert(commit_skip(*old(app), *app));
        } else {
            match old(app).editing_task_id {
                None => {
                    assert(app.store.tasks_model() == added_model(
                        old(app).store.tasks_model(),
                        commit_title(*old(app)),
                        commit_prio(*old(app)).0,
                        commit_prio(*old(app)).1,
                        old(app).view_date,
                        g_tid,
                        g_cstamp,
                    ));
                },
                Some(eid) => {
                    let ts = old(app).store.tasks_model();
                    let k = find_by_id(ts, eid);
                    assert(app.store.tasks_model() == (if k < ts.len() {
                        ts.update(
                            k,
                            TaskModel {
                                title: commit_title(*old(app)),
                                urgency: clamp_priority(commit_prio(*old(app)).0),
                                importance: clamp_priority(commit_prio(*old(app)).1),
                                ..ts[k]
                            },
                        )
                    } else {
                        ts
                    }));
                },
            }
            assert(commit_store_write(*old(app), *app));
            assert(commit_write(*old(app), *app));
        }
    }
}

/// Handle one key on the editing screen.
pub fn handle_editing_screen(key: KeyPress, app: &mut App) -> (r: Option<bool>)
    requires
        old(app).wf(),
        old(app).current_screen == CurrentScreen::Editing,
    ensures
        final(app).wf(),
        editing_step(*old(app), *final(app), key, r),
        screen_edge(old(app).current_screen, final(app).current_screen),
        selection_ok(*old(app)) ==> selection_ok(*final(app)),
{
    match key.code {
        Key::Enter => {
            commit_input_line(app);
        },
        Key::Esc => {
            app.input_buffer = Vec::new();
            app.input_mode = false;
            app.editing_task_id = None;
            app.current_screen = CurrentScreen::Main;
        },
        Key::Backspace => {
            if app.input_buffer.len() > 0 {
                app.input_buffer.pop();
                proof {
                    assert(app.input_buffer@ =~= old(app).input_buffer@.drop_last());
                }
            }
        },
        Key::Char(ch) => {
            app.input_buffer.push(ch);
        },
        _ => {},
    }
    None
}

/// Index of the last plain space in a text, or minus one when there is none.
pub open spec fn last_space_at(s: Seq<char>) -> int
    decreases s.len(),
{
    if s.len() == 0 {
        -1
    } else if s.last() == ' ' {
        s.len() - 1
    } else {
        last_space_at(s.drop_last())
    }
}

proof fn lemma_last_space(s: Seq<char>)
    ensures
        -1 <= last_space_at(s) < s.len(),
        last_space_at(s) >= 0 ==> s[last_space_at(s)] == ' ',
        forall|j: int| last_space_at(s) < j < s.len() ==> s[j] != ' ',
    decreases s.len(),
{
    if s.len() > 0 && s.last() != ' ' {
        lemma_last_space(s.drop_last());
        assert(forall|j: int| 0 <= j < s.len() - 1 ==> s[j] == s.drop_last()[j]);
    }
}

proof fn lemma_last_space_is(s: Seq<char>, k: int)
    requires
        -1 <= k < s.len(),
        k >= 0 ==> s[k] == ' ',
        forall|j: int| k < j < s.len() ==> s[j] != ' ',
    ensures
        last_space_at(s) == k,
{
    lemma_last_space(s);
    let f = last_space_at(s);
    if f < k {
        assert(s[k] != ' ');
        assert(false);
    }
    if k < f {
        assert(s[f] == ' ');
        assert(false);
    }
}

/// What deleting the last word of an input line leaves: everything up to and
/// including the last space before the trailing word, or nothing.
pub open spec fn word_deleted(s: Seq<char>) -> Seq<char> {
    let t = trim_end_rec(s);
    let p = last_space_at(t);
    if p >= 0 {
        s.subrange(0, p + 1)
    } else {
        Seq::empty()
    }
}

/// Delete the trailing word of an input line.
fn delete_word(input: &mut Vec<char>)
    ensures
        final(input)@ == word_deleted(old(input)@),
{
    let n = input.len();
    let mut e: usize = n;
    while e > 0 && crate::text::is_space_char(input[e - 1])
        invariant
            e <= n == input@.len(),
            forall|j: int| e <= j < n ==> crate::text::is_space(input@[j]),
        decreases e,
    {
        e = e - 1;
    }
    proof {
        crate::text::lemma_trim_end_at(input@, e as int);
    }
    let ghost t = trim_end_rec(input@);
    let mut p: usize = e;
    while p > 0 && input[p - 1] != ' '
        invariant
            p <= e <= n == input@.len(),
            t == input@.subrange(0, e as int),
            forall|j: int| p <= j < e ==> input@[j] != ' ',
        decreases p,
    {
        p = p - 1;
    }
    if p > 0 {
        proof {
            assert(forall|j: int| p <= j < t.len() ==> t[j] == input@[j]);
            lemma_last_space_is(t, p - 1);
        }
        input.truncate(p);
        proof {
            assert(final(input)@ =~= word_deleted(old(input)@));
        }
    } else {
        proof {
            assert(forall|j: int| 0 <= j < t.len() ==> t[j] == input@[j]);
            lemma_last_space_is(t, -1);
        }
        input.clear();
        proof {
            assert(final(input)@ =~= word_deleted(old(input)@));
        }
    }
}

/// A scroll offset stepped with saturation.
pub open spec fn sat_add_u16(x: u16, d: u16) -> u16 {
    if x + d > u16::MAX {
        u16::MAX
    } else {
        (x + d) as u16
    }
}

/// What submitting the chat input does. An empty line, or a submission while
/// a request is already in flight, is ignored (one request at a time, so no
/// reply is ever orphaned). Otherwise the trimmed line joins the transcript
/// as a user turn; with a gateway at hand loading starts and a request is
/// handed to the surrounding loop, without one a fixed assistant-role notice
/// follows instead.
pub open spec fn chat_submitted(pre: App, post: App) -> bool {
    let t = trimmed(pre.chat_input@);
    if t.len() == 0 || pre.is_loading {
        post == pre
    } else if pre.ai_available {
        &&& post.chat_history@.len() == pre.chat_history@.len() + 1
        &&& post.chat_history@.subrange(0, pre.chat_history@.len() as int) == pre.chat_history@
        &&& post.chat_history@.last().role@ == "user"@
        &&& post.chat_history@.last().content@ == t
        &&& post.chat_input@.len() == 0
        &&& post == (App {
            chat_history: post.chat_history,
            chat_input: post.chat_input,
            is_loading: true,
            chat_auto_scroll: true,
            request_pending: true,
            ..pre
        })
    } else {
        &&& post.chat_history@.len() == pre.chat_history@.len() + 2
        &&& post.chat_history@.subrange(0, pre.chat_history@.len() as int) == pre.chat_history@
        &&& post.chat_history@[post.chat_history@.len() - 2].role@ == "user"@
        &&& post.chat_history@[post.chat_history@.len() - 2].content@ == t
        &&& post.chat_history@.last().role@ == "assistant"@
        &&& post.chat_history@.last().content@
            == "API Key not found. Please set OPENAI_API_KEY."@
        &&& post.chat_input@.len() == 0
        &&& post == (App { chat_history: post.chat_history, chat_input: post.chat_input, ..pre })
    }
}

/// What one key does on the chat screen.
pub open spec fn chat_step(pre: App, post: App, key: KeyPress, r: Option<bool>) -> bool {
    r is None && match key.code {
        Key::Esc => to_screen(pre, post, CurrentScreen::Main),
        Key::PageUp => post == (App {
            chat_auto_scroll: false,
            chat_scroll: (if pre.chat_scroll > 5 {
                (pre.chat_scroll - 5) as u16
            } else {
                0u16
            }),
            ..pre
        }),
        Key::PageDown => post == (App { chat_scroll: sat_add_u16(pre.chat_scroll, 5), ..pre }),
        Key::End => post == (App { chat_auto_scroll: true, ..pre }),
        Key::Home => post == (App { chat_auto_scroll: false, chat_scroll: 0u16, ..pre }),
        Key::Backspace => if key.alt {
            post.chat_input@ == word_deleted(pre.chat_input@) && post == (App {
                chat_input: post.chat_input,
                ..pre
            })
        } else {
            post.chat_input@ == (if pre.chat_input@.len() > 0 {
                pre.chat_input@.drop_last()
            } else {
                pre.chat_input@
            }) && post == (App { chat_input: post.chat_input, ..pre })
        },
        Key::Enter => chat_submitted(pre, post),
        Key::Char(ch) => {
            if ch == '?' && pre.chat_input@.len() == 0 {
                post == (App { show_chat_help: !pre.show_chat_help, ..pre })
            } else if ch == 'k' && key.ctrl {
                post == (App {
                    chat_auto_scroll: false,
                    chat_scroll: (if pre.chat_scroll > 0 {
                        (pre.chat_scroll - 1) as u16
                    } else {
                        0u16
                    }),
                    ..pre
                })
            } else if ch == 'j' && key.ctrl {
                post == (App { chat_scroll: sat_add_u16(pre.chat_scroll, 1), ..pre })
            } else if ch == 'w' && key.ctrl {
                post.chat_input@ == word_deleted(pre.chat_input@) && post == (App {
                    chat_input: post.chat_input,
                    ..pre
                })
            } else if ch == 'u' && key.ctrl {
                post.chat_input@.len() == 0 && post == (App { chat_input: post.chat_input, ..pre })
            } else if ch == 'l' && key.ctrl {
                post.chat_history@.len() == 0 && post == (App {
                    chat_history: post.chat_history,
                    chat_scroll: 0u16,
                    ..pre
                })
            } else {
                post.chat_input@ == pre.chat_input@.push(ch) && post == (App {
                    chat_input: post.chat_input,
                    ..pre
                })
            }
        },
        _ => post == pre,
    }
}

/// Submit the chat input line.
fn submit_chat(app: &mut App)
    ensures
        chat_submitted(*old(app), *final(app)),
{
    let t = trim_chars(&app.chat_input);
    if t.len() == 0 || app.is_loading {
        return ;
    }
    let content = chars_to_string(&t);
    app.chat_history.push(ChatMessage { role: String::from_str("user"), content });
    if app.ai_available {
        app.is_loading = true;
        app.chat_auto_scroll = true;
        app.request_pending = true;
        proof {
            assert(app.chat_history@.subrange(0, old(app).chat_history@.len() as int) =~= old(
                app,
            ).chat_history@);
        }
    } else {
        app.chat_history.push(
            ChatMessage {
                role: String::from_str("assistant"),
                content: String::from_str("API Key not found. Please set OPENAI_API_KEY."),
            },
        );
        proof {
            assert(app.chat_history@.subrange(0, old(app).chat_history@.len() as int) =~= old(
                app,
            ).chat_history@);
        }
    }
    app.chat_input = Vec::new();
}

/// Handle one key on the chat screen.
#[verifier::rlimit(60)]
pub fn handle_chat_screen(key: KeyPress, app: &mut App) -> (r: Option<bool>)
    requires
        old(app).wf(),
        old(app).current_screen == CurrentScreen::Chat,
    ensures
        final(app).wf(),
        chat_step(*old(app), *final(app), key, r),
        screen_edge(old(app).current_screen, final(app).current_screen),
        selection_ok(*old(app)) ==> selection_ok(*final(app)),
{
    match key.code {
        Key::Esc => {
            app.current_screen = CurrentScreen::Main;
        },
        Key::PageUp => {
            app.chat_auto_scroll = false;
            if app.chat_scroll > 5 {
                app.chat_scroll = app.chat_scroll - 5;
            } else {
                app.chat_scroll = 0;
            }
        },
        Key::PageDown => {
            if app.chat_scroll <= u16::MAX - 5 {
                app.chat_scroll = app.chat_scroll + 5;
            } else {
                app.chat_scroll = u16::MAX;
            }
        },
        Key::End => {
            app.chat_auto_scroll = true;
        },
        Key::Home => {
            app.chat_auto_scroll = false;
            app.chat_scroll = 0;
        },
        Key::Backspace => {
            if key.alt {
                delete_word(&mut app.chat_input);
            } else {
                if app.chat_input.len() > 0 {
                    app.chat_input.pop();
                    proof {
                        assert(app.chat_input@ =~= old(app).chat_input@.drop_last());
                    }
                }
            }
        },
        Key::Enter => {
            submit_chat(app);
        },
        Key::Char(ch) => {
            if ch == '?' && app.chat_input.len() == 0 {
                app.show_chat_help = !app.show_chat_help;
            } else if ch == 'k' && key.ctrl {
                app.chat_auto_scroll = false;
                if app.chat_scroll > 0 {
                    app.chat_scroll = app.chat_scroll - 1;
                }
            } else if ch == 'j' && key.ctrl {
                if app.chat_scroll <= u16::MAX - 1 {
                    app.chat_scroll = app.chat_scroll + 1;
                } else {
                    app.chat_scroll = u16::MAX;
                }
            } else if ch == 'w' && key.ctrl {
                delete_word(&mut app.chat_input);
            } else if ch == 'u' && key.ctrl {
                app.chat_input = Vec::new();
            } else if ch == 'l' && key.ctrl {
                app.chat_history = Vec::new();
                app.chat_scroll = 0;
            } else {
                app.chat_input.push(ch);
            }
        },
        _ => {},
    }
    None
}

/// What one key does on the focus screen.
pub open spec fn focus_step(
    pre: App,
    post: App,
    key: KeyPress,
    now_secs: u64,
    r: Option<bool>,
) -> bool {
    r is None && match key.code {
        Key::Esc => to_screen(pre, post, CurrentScreen::Main),
        Key::Char(ch) => {
            if ch == 'z' {
                // an existing zen state (and its running countdown) is kept
                // across re-entries; only a first entry starts one
                match pre.zen_state {
                    Some(_) => to_screen(pre, post, CurrentScreen::ZenMode),
                    None => {
                        &&& post.zen_state matches Some(z) && z.tick == 0 && z.message@
                            == "Focus on what matters"@ && (z.pomodoro matches Some(p)
                            && p.start_secs == now_secs && p.duration_secs == 1500 && !p.is_break)
                        &&& post == (App {
                            current_screen: CurrentScreen::ZenMode,
                            zen_state: post.zen_state,
                            ..pre
                        })
                    },
                }
            } else if ch == 'd' {
                toggled_selected(pre, post)
            } else if ch == 'x' {
                dropped_selected(pre, post)
            } else if ch == 'j' {
                nav_down(pre, post)
            } else if ch == 'k' {
                nav_up(pre, post)
            } else {
                post == pre
            }
        },
        Key::Enter => toggled_selected(pre, post),
        Key::Down => nav_down(pre, post),
        Key::Up => nav_up(pre, post),
        Key::PageDown => nav_page_down(pre, post),
        Key::PageUp => nav_page_up(pre, post),
        _ => post == pre,
    }
}

/// Handle one key on the focus screen.
pub fn handle_focus_screen(key: KeyPress, app: &mut App, now_secs: u64) -> (r: Option<bool>)
    requires
        old(app).wf(),
        old(app).current_screen == CurrentScreen::Focus,
    ensures
        final(app).wf(),
        focus_step(*old(app), *final(app), key, now_secs, r),
        screen_edge(old(app).current_screen, final(app).current_screen),
        selection_ok(*old(app)) ==> selection_ok(*final(app)),
{
    match key.code {
        Key::Esc => {
            app.current_screen = CurrentScreen::Main;
        },
        Key::Char(ch) => {
            if ch == 'z' {
                if app.zen_state.is_none() {
                    app.zen_state = Some(ZenState::new(25, now_secs));
                }
                app.current_screen = CurrentScreen::ZenMode;
            } else if ch == 'd' {
                toggle_selected(app);
            } else if ch == 'x' {
                drop_selected(app);
            } else if ch == 'j' {
                step_down(app);
            } else if ch == 'k' {
                step_up(app);
            }
        },
        Key::Enter => {
            toggle_selected(app);
        },
        Key::Down => {
            step_down(app);
        },
        Key::Up => {
            step_up(app);
        },
        Key::PageDown => {
            step_page_down(app);
        },
        Key::PageUp => {
            step_page_up(app);
        },
        _ => {},
    }
    None
}

/// The selected task's completion was toggled as on other screens, and the
/// zen screen falls back to the focus screen once its view empties.
pub open spec fn zen_toggled(pre: App, post: App) -> bool {
    match selected_task(pre) {
        Some(id) => exists|stamp: Option<i64>|
            {
                &&& post.store.tasks_model() == #[trigger] toggle_spec(
                    pre.store.tasks_model(),
                    id,
                    stamp,
                )
                &&& post.store_dirty
                &&& post.selected_task_index as int == clamped_index(
                    view_count(post.store.tasks_model(), pre.view_date, pre.selected_quadrant),
                    pre.selected_task_index as int,
                )
                &&& post.current_screen == (if view_count(
                    post.store.tasks_model(),
                    pre.view_date,
                    pre.selected_quadrant,
                ) == 0 {
                    CurrentScreen::Focus
                } else {
                    CurrentScreen::ZenMode
                })
                &&& post == (App {
                    store: post.store,
                    selected_task_index: post.selected_task_index,
                    store_dirty: true,
                    current_screen: post.current_screen,
                    ..pre
                })
            },
        None => post == pre,
    }
}

/// The selected task was dropped as on other screens, and the zen screen
/// falls back to the focus screen once its view empties.
pub open spec fn zen_dropped(pre: App, post: App) -> bool {
    match selected_task(pre) {
        Some(id) => {
            &&& post.store.tasks_model() == dropped_by_id(pre.store.tasks_model(), id)
            &&& post.store_dirty
            &&& post.selected_task_index as int == clamped_index(
                view_count(post.store.tasks_model(), pre.view_date, pre.selected_quadrant),
                pre.selected_task_index as int,
            )
            &&& post.current_screen == (if view_count(
                post.store.tasks_model(),
                pre.view_date,
                pre.selected_quadrant,
            ) == 0 {
                CurrentScreen::Focus
            } else {
                CurrentScreen::ZenMode
            })
            &&& post == (App {
                store: post.store,
                selected_task_index: post.selected_task_index,
                store_dirty: true,
                current_screen: post.current_screen,
                ..pre
            })
        },
        None => post == pre,
    }
}

/// The countdown was restarted and the resting message restored.
pub open spec fn zen_reset(pre: App, post: App, now_secs: u64) -> bool {
    match pre.zen_state {
        Some(z0) => {
            &&& post.zen_state matches Some(z) && z.tick == z0.tick && z.message@
                == "Focus on what matters"@ && (z.pomodoro matches Some(p) && p.start_secs
                == now_secs && p.duration_secs == 1500 && !p.is_break)
            &&& post == (App { zen_state: post.zen_state, ..pre })
        },
        None => post == pre,
    }
}

/// What one key does on the zen screen.
pub open spec fn zen_step(
    pre: App,
    post: App,
    key: KeyPress,
    now_secs: u64,
    r: Option<bool>,
) -> bool {
    r is None && match key.code {
        Key::Esc => to_screen(pre, post, CurrentScreen::Focus),
        Key::Enter => zen_toggled(pre, post),
        Key::Char(ch) => {
            if ch == 'z' {
                to_screen(pre, post, CurrentScreen::Focus)
            } else if ch == 'd' || ch == ' ' {
                zen_toggled(pre, post)
            } else if ch == 's' {
                nav_down(pre, post)
            } else if ch == 'x' {
                zen_dropped(pre, post)
            } else if ch == 'r' {
                zen_reset(pre, post, now_secs)
            } else {
                post == pre
            }
        },
        _ => post == pre,
    }
}

/// Toggle the selected task on the zen screen and leave for the focus
/// screen when nothing visible is left.
fn zen_toggle_selected(app: &mut App)
    requires
        old(app).wf(),
        old(app).current_screen == CurrentScreen::ZenMode,
    ensures
        final(app).wf(),
        zen_toggled(*old(app), *final(app)),
        selection_ok(*old(app)) ==> selection_ok(*final(app)),
        final(app).current_screen == CurrentScreen::ZenMode || final(app).current_screen
            == CurrentScreen::Focus,
{
    match get_selected_task_id(app) {
        Some(id) => {
            let r2 = app.store.toggle_complete_task(id);
            let ghost stamp = if r2 {
                app.store.tasks_model()[find_by_id(
                    old(app).store.tasks_model(),
                    id,
                )].completed_at
            } else {
                None
            };
            app.store_dirty = true;
            app.clamp_selected_index();
            if get_task_count(app) == 0 {
                app.current_screen = CurrentScreen::Focus;
            }
            proof {
                assert(final(app).store.tasks_model() == toggle_spec(
                    old(app).store.tasks_model(),
                    id,
                    stamp,
                ));
            }
        },
        None => {},
    }
}

/// Drop the selected task on the zen screen and leave for the focus screen
/// when nothing visible is left.
fn zen_drop_selected(app: &mut App)
    requires
        old(app).wf(),
        old(app).current_screen == CurrentScreen::ZenMode,
    ensures
        final(app).wf(),
        zen_dropped(*old(app), *final(app)),
        selection_ok(*old(app)) ==> selection_ok(*final(app)),
        final(app).current_screen == CurrentScreen::ZenMode || final(app).current_screen
            == CurrentScreen::Focus,
{
    match get_selected_task_id(app) {
        Some(id) => {
            app.store.drop_task(id);
            app.store_dirty = true;
            app.clamp_selected_index();
            if get_task_count(app) == 0 {
                app.current_screen = CurrentScreen::Focus;
            }
        },
        None => {},
    }
}

/// Handle one key on the zen screen.
pub fn handle_zen_screen(key: KeyPress, app: &mut App, now_secs: u64) -> (r: Option<bool>)
    requires
        old(app).wf(),
        old(app).current_screen == CurrentScreen::ZenMode,
    ensures
        final(app).wf(),
        zen_step(*old(app), *final(app), key, now_secs, r),
        screen_edge(old(app).current_screen, final(app).current_screen),
        selection_ok(*old(app)) ==> selection_ok(*final(app)),
{
    match key.code {
        Key::Esc => {
            app.current_screen = CurrentScreen::Focus;
        },
        Key::Enter => {
            zen_toggle_selected(app);
        },
        Key::Char(ch) => {
            if ch == 'z' {
                app.current_screen = CurrentScreen::Focus;
            } else if ch == 'd' || ch == ' ' {
                zen_toggle_selected(app);
            } else if ch == 's' {
                step_down(app);
            } else if ch == 'x' {
                zen_drop_selected(app);
            } else if ch == 'r' {
                if app.zen_state.is_some() {
                    let tick = match &app.zen_state {
                        Some(z) => z.tick,
                        None => 0,
                    };
                    app.zen_state = Some(
                        ZenState {
                            pomodoro: Some(Pomodoro::new(25, now_secs)),
                            tick,
                            message: String::from_str("Focus on what matters"),
                        },
                    );
                }
            }
        },
        _ => {},
    }
    None
}

/// Dispatch one key press to the active screen's handler. `Some(true)` asks
/// the surrounding loop to stop; it can only arise from `q` on the main
/// screen or from a session already exiting.
pub fn handle_key_events(event: KeyPress, app: &mut App, now_secs: u64) -> (r: Option<bool>)
    requires
        old(app).wf(),
        old(app).view_date < i64::MAX,
    ensures
        final(app).wf(),
        screen_edge(old(app).current_screen, final(app).current_screen),
        selection_ok(*old(app)) ==> selection_ok(*final(app)),
        match old(app).current_screen {
            CurrentScreen::Main => main_step(*old(app), *final(app), event, r),
            CurrentScreen::Editing => editing_step(*old(app), *final(app), event, r),
            CurrentScreen::Chat => chat_step(*old(app), *final(app), event, r),
            CurrentScreen::Focus => focus_step(*old(app), *final(app), event, now_secs, r),
            CurrentScreen::ZenMode => zen_step(*old(app), *final(app), event, now_secs, r),
            CurrentScreen::Exiting => *final(app) == *old(app) && r == Some(true),
        },
        r == Some(true) ==> (old(app).current_screen == CurrentScreen::Main && event.code
            == Key::Char('q')) || old(app).current_screen == CurrentScreen::Exiting,
{
    match app.current_screen {
        CurrentScreen::Main => handle_main_screen(event, app),
        CurrentScreen::Editing => handle_editing_screen(event, app),
        CurrentScreen::Chat => handle_chat_screen(event, app),
        CurrentScreen::Focus => handle_focus_screen(event, app, now_secs),
        CurrentScreen::ZenMode => handle_zen_screen(event, app, now_secs),
        CurrentScreen::Exiting => Some(true),
    }
}

/// Jump the selection five entries up, stopping at the start.
fn step_page_up(app: &mut App)
    requires
        old(app).wf(),
    ensures
        final(app).wf(),
        nav_page_up(*old(app), *final(app)),
        selection_ok(*old(app)) ==> selection_ok(*final(app)),
{
    let count = get_task_count(app);
    if count > 0 {
        if app.selected_task_index >= 5 {
            app.selected_task_index = app.selected_task_index - 5;
        } else {
            app.selected_task_index = 0;
        }
    }
}

} // verus!
