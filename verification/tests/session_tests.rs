use eq::ai::AIResponse;
use eq::handlers::{get_selected_task_id, get_task_count, handle_key_events};
use eq::session::{App, CurrentScreen, Key, KeyPress};
use eq::store::TaskStore;
use eq::task::{Quadrant, Task, TaskStatus};

fn fresh_app() -> App {
    App::new(TaskStore::default(), Vec::new(), false)
}

fn app_with(titles: &[(&str, u8, u8)]) -> App {
    let mut app = fresh_app();
    let date = app.view_date;
    for (t, u, i) in titles {
        app.store.add_task(Task::new((*t).to_string(), *u, *i, date));
    }
    app
}

fn key(code: Key) -> KeyPress {
    KeyPress { code, ctrl: false, alt: false }
}

fn ctrl(c: char) -> KeyPress {
    KeyPress { code: Key::Char(c), ctrl: true, alt: false }
}

fn type_line(app: &mut App, s: &str) {
    for c in s.chars() {
        handle_key_events(key(Key::Char(c)), app, 0);
    }
}

#[test]
fn done_toggled_across_two_batches_returns_to_pending() {
    let mut app = app_with(&[("alpha", 2, 2)]);
    // first batch completes the task
    app.process_ai_response("[DONE] #1".to_string());
    let summary = app.execute_pending_commands();
    assert!(summary.contains("Completed"));
    assert_eq!(app.store.tasks[0].status, TaskStatus::Completed);
    // the completed task stays visible, so a second batch resolves it again
    app.process_ai_response("[DONE] #1".to_string());
    let summary = app.execute_pending_commands();
    assert!(summary.contains("Completed"));
    assert!(!summary.contains("Errors"));
    assert_eq!(app.store.tasks[0].status, TaskStatus::Pending);
    assert!(app.store.tasks[0].completed_at.is_none());
}

#[test]
fn batch_directives_resolve_against_the_live_state() {
    // two Done directives on the same position inside one batch undo each other
    let mut app = app_with(&[("alpha", 2, 2)]);
    app.process_ai_response("[DONE] #1\n[DONE] #1".to_string());
    app.execute_pending_commands();
    assert_eq!(app.store.tasks[0].status, TaskStatus::Pending);
}

#[test]
fn batch_add_is_visible_to_later_directives() {
    let mut app = fresh_app();
    app.process_ai_response("[ADD] New thing u2i2\n[DONE] #1".to_string());
    let summary = app.execute_pending_commands();
    assert_eq!(app.store.tasks.len(), 1);
    assert_eq!(app.store.tasks[0].status, TaskStatus::Completed);
    assert!(summary.contains("Added"));
    assert!(summary.contains("Completed"));
}

#[test]
fn unresolved_targets_become_errors_and_the_rest_runs() {
    let mut app = app_with(&[("alpha", 2, 2)]);
    app.process_ai_response("[DONE] no such task\n[DONE] #1".to_string());
    let summary = app.execute_pending_commands();
    assert!(summary.contains("Could not find task: \"no such task\""));
    assert_eq!(app.store.tasks[0].status, TaskStatus::Completed);
    assert!(!app.has_pending_commands());
}

#[test]
fn removing_the_last_visible_task_pins_the_selection_to_zero() {
    let mut app = app_with(&[("alpha", 2, 2)]);
    app.selected_quadrant = Quadrant::DoFirst;
    app.selected_task_index = 0;
    assert_eq!(get_task_count(&app), 1);
    handle_key_events(key(Key::Char('x')), &mut app, 0);
    assert_eq!(get_task_count(&app), 0);
    assert_eq!(app.selected_task_index, 0);
    assert!(app.store_dirty);
}

#[test]
fn batch_that_empties_the_view_reclamps_to_zero() {
    let mut app = app_with(&[("alpha", 2, 2), ("beta", 3, 3)]);
    app.selected_task_index = 1;
    app.process_ai_response("[DROP] alpha\n[DROP] beta".to_string());
    app.execute_pending_commands();
    assert_eq!(app.selected_task_index, 0);
}

#[test]
fn end_to_end_defaults_and_symbol_priorities() {
    let mut app = fresh_app();
    app.process_ai_response("[ADD] Buy milk\n[ADD] Ship release !!!$$$".to_string());
    app.execute_pending_commands();
    assert_eq!(app.store.tasks.len(), 2);
    let milk = &app.store.tasks[0];
    assert_eq!(milk.title, "Buy milk");
    assert_eq!((milk.urgency, milk.importance), (1, 1));
    assert_eq!(milk.quadrant(), Quadrant::Drop);
    assert_eq!(milk.score(), 5);
    let ship = &app.store.tasks[1];
    assert_eq!(ship.title, "Ship release");
    assert_eq!((ship.urgency, ship.importance), (3, 3));
    assert_eq!(ship.quadrant(), Quadrant::DoFirst);
    assert_eq!(ship.score(), 15);
    // the score-sorted pending view puts the release first
    let first = app.store.find_task_id("1", Some(app.view_date));
    assert_eq!(first, Some(ship.id));
    let second = app.store.find_task_id("2", Some(app.view_date));
    assert_eq!(second, Some(milk.id));
}

#[test]
fn prose_reply_passes_through_unchanged() {
    let mut app = fresh_app();
    let shown = app.process_ai_response("just words, no commands".to_string());
    assert_eq!(shown, "just words, no commands");
    assert!(!app.has_pending_commands());
}

#[test]
fn proposed_batch_shows_a_numbered_preview() {
    let mut app = fresh_app();
    let shown = app.process_ai_response("plan:\n[ADD] Pack u2i1\n[DONE] #1".to_string());
    assert!(shown.starts_with("plan:"));
    assert!(shown.contains("Pending Commands"));
    assert!(shown.contains("  1. ADD: Pack (u2i1)"));
    assert!(shown.contains("  2. DONE: #1"));
    assert!(shown.contains("Press [y] to execute, [n] to cancel"));
    assert!(app.has_pending_commands());
}

#[test]
fn edit_preview_lists_the_changes() {
    let mut app = fresh_app();
    let shown = app.process_ai_response("[EDIT] Old -> New name u3i2".to_string());
    assert!(shown.contains("EDIT: \"Old\""));
    assert!(shown.contains("title='New name', urgency=3, importance=2"));
}

#[test]
fn cancel_reports_the_discarded_count() {
    let mut app = fresh_app();
    app.process_ai_response("[ADD] A u1i1\n[ADD] B u1i1".to_string());
    let msg = app.cancel_pending_commands();
    assert!(msg.contains("Cancelled 2 command(s)"));
    assert!(!app.has_pending_commands());
    assert_eq!(app.store.tasks.len(), 0);
}

#[test]
fn empty_batch_executes_to_nothing() {
    let mut app = app_with(&[("alpha", 2, 2)]);
    let out = app.execute_pending_commands();
    assert_eq!(out, "");
    assert!(!app.store_dirty);
}

#[test]
fn batch_edit_rewrites_title_and_priority() {
    let mut app = app_with(&[("old name", 2, 2)]);
    app.process_ai_response("[EDIT] old -> fresh name u3i3".to_string());
    let summary = app.execute_pending_commands();
    assert_eq!(app.store.tasks[0].title, "fresh name");
    assert_eq!(app.store.tasks[0].urgency, 3);
    assert_eq!(app.store.tasks[0].importance, 3);
    assert!(summary.contains("old name \u{2192} fresh name (u3i3)"));
}

#[test]
fn title_targets_match_case_insensitively() {
    let mut app = app_with(&[("Fix Server Crash", 2, 2)]);
    app.process_ai_response("[DONE] fix server".to_string());
    app.execute_pending_commands();
    assert_eq!(app.store.tasks[0].status, TaskStatus::Completed);
}

#[test]
fn successful_reply_with_commands_lands_in_the_transcript() {
    let mut app = fresh_app();
    app.is_loading = true;
    app.receive_ai_response(AIResponse::Success("[ADD] From chat u1i2".to_string()));
    assert!(!app.is_loading);
    assert!(app.has_pending_commands());
    let last = app.chat_history.last().unwrap();
    assert_eq!(last.role, "assistant");
    assert!(last.content.contains("Pending Commands"));
}

#[test]
fn gateway_errors_become_assistant_error_lines() {
    let mut app = fresh_app();
    app.is_loading = true;
    app.receive_ai_response(AIResponse::Error("connection refused".to_string()));
    assert!(!app.is_loading);
    let last = app.chat_history.last().unwrap();
    assert_eq!(last.role, "assistant");
    assert_eq!(last.content, "Error: connection refused");
}

#[test]
fn quit_exits_only_from_the_main_screen() {
    let mut app = fresh_app();
    app.current_screen = CurrentScreen::Focus;
    assert_eq!(handle_key_events(key(Key::Char('q')), &mut app, 0), None);
    assert_eq!(app.current_screen, CurrentScreen::Focus);
    app.current_screen = CurrentScreen::Main;
    assert_eq!(handle_key_events(key(Key::Char('q')), &mut app, 0), Some(true));
    assert_eq!(app.current_screen, CurrentScreen::Exiting);
}

#[test]
fn screen_transitions_follow_the_tree() {
    let mut app = fresh_app();
    handle_key_events(key(Key::Char('z')), &mut app, 0);
    assert_eq!(app.current_screen, CurrentScreen::Focus);
    handle_key_events(key(Key::Char('z')), &mut app, 7);
    assert_eq!(app.current_screen, CurrentScreen::ZenMode);
    assert!(app.zen_state.is_some());
    handle_key_events(key(Key::Esc), &mut app, 0);
    assert_eq!(app.current_screen, CurrentScreen::Focus);
    handle_key_events(key(Key::Esc), &mut app, 0);
    assert_eq!(app.current_screen, CurrentScreen::Main);
    handle_key_events(key(Key::Char('c')), &mut app, 0);
    assert_eq!(app.current_screen, CurrentScreen::Chat);
    handle_key_events(key(Key::Esc), &mut app, 0);
    assert_eq!(app.current_screen, CurrentScreen::Main);
}

#[test]
fn navigation_wraps_and_tab_cycles_quadrants() {
    let mut app = app_with(&[("a", 2, 2), ("b", 3, 3)]);
    assert_eq!(app.selected_quadrant, Quadrant::DoFirst);
    assert_eq!(get_task_count(&app), 2);
    handle_key_events(key(Key::Down), &mut app, 0);
    assert_eq!(app.selected_task_index, 1);
    handle_key_events(key(Key::Down), &mut app, 0);
    assert_eq!(app.selected_task_index, 0);
    handle_key_events(key(Key::Up), &mut app, 0);
    assert_eq!(app.selected_task_index, 1);
    handle_key_events(key(Key::Tab), &mut app, 0);
    assert_eq!(app.selected_quadrant, Quadrant::Schedule);
    assert_eq!(app.selected_task_index, 0);
}

#[test]
fn selection_follows_descending_score() {
    let mut app = app_with(&[("weak", 2, 2), ("strong", 3, 3)]);
    app.selected_task_index = 0;
    let strong_id = app.store.tasks[1].id;
    assert_eq!(get_selected_task_id(&app), Some(strong_id));
}

#[test]
fn toggling_the_view_date_resets_the_selection() {
    let mut app = app_with(&[("a", 2, 2)]);
    let today = app.view_date;
    app.selected_task_index = 0;
    handle_key_events(key(Key::Char('t')), &mut app, 0);
    assert_eq!(app.view_date, today + 1);
    assert_eq!(app.selected_task_index, 0);
    assert_eq!(get_task_count(&app), 0);
    handle_key_events(key(Key::Char('t')), &mut app, 0);
    assert_eq!(app.view_date, today);
}

#[test]
fn moving_a_task_sends_it_to_tomorrow() {
    let mut app = app_with(&[("a", 2, 2)]);
    let today = app.view_date;
    handle_key_events(key(Key::Char('>')), &mut app, 0);
    assert_eq!(app.store.tasks[0].date, today + 1);
    assert_eq!(get_task_count(&app), 0);
}

#[test]
fn edit_key_prefills_the_input_line() {
    let mut app = app_with(&[("alpha", 2, 3)]);
    handle_key_events(key(Key::Char('e')), &mut app, 0);
    assert_eq!(app.current_screen, CurrentScreen::Editing);
    let buf: String = app.input_buffer.iter().collect();
    assert_eq!(buf, "alpha u2i3");
    assert!(app.editing_task_id.is_some());
}

#[test]
fn editing_screen_adds_a_task_from_typed_input() {
    let mut app = fresh_app();
    handle_key_events(key(Key::Char('a')), &mut app, 0);
    assert_eq!(app.current_screen, CurrentScreen::Editing);
    type_line(&mut app, "Write report u3i2");
    handle_key_events(key(Key::Enter), &mut app, 0);
    assert_eq!(app.current_screen, CurrentScreen::Main);
    assert_eq!(app.store.tasks.len(), 1);
    assert_eq!(app.store.tasks[0].title, "Write report");
    assert_eq!(app.store.tasks[0].urgency, 3);
    assert_eq!(app.store.tasks[0].importance, 2);
    assert!(app.store_dirty);
}

#[test]
fn chat_submission_without_a_gateway_reports_the_missing_key() {
    let mut app = fresh_app();
    app.current_screen = CurrentScreen::Chat;
    type_line(&mut app, "hello there");
    handle_key_events(key(Key::Enter), &mut app, 0);
    assert_eq!(app.chat_history.len(), 2);
    assert_eq!(app.chat_history[0].role, "user");
    assert_eq!(app.chat_history[0].content, "hello there");
    assert_eq!(app.chat_history[1].role, "assistant");
    assert!(app.chat_history[1].content.contains("API Key not found"));
    assert!(!app.request_pending);
}

#[test]
fn chat_submission_with_a_gateway_hands_off_one_request() {
    let mut app = App::new(TaskStore::default(), Vec::new(), true);
    app.current_screen = CurrentScreen::Chat;
    type_line(&mut app, "plan my day");
    handle_key_events(key(Key::Enter), &mut app, 0);
    assert!(app.is_loading);
    assert!(app.request_pending);
    assert_eq!(app.chat_history.len(), 1);
    // a second submission while the reply is outstanding is ignored
    type_line(&mut app, "again");
    handle_key_events(key(Key::Enter), &mut app, 0);
    assert_eq!(app.chat_history.len(), 1);
    let typed: String = app.chat_input.iter().collect();
    assert_eq!(typed, "again");
}

#[test]
fn chat_word_deletion_behaves_like_a_terminal() {
    let mut app = fresh_app();
    app.current_screen = CurrentScreen::Chat;
    type_line(&mut app, "foo bar  ");
    handle_key_events(ctrl('w'), &mut app, 0);
    let typed: String = app.chat_input.iter().collect();
    assert_eq!(typed, "foo ");
    handle_key_events(ctrl('w'), &mut app, 0);
    let typed: String = app.chat_input.iter().collect();
    assert_eq!(typed, "");
}

#[test]
fn chat_scrolling_saturates_at_both_ends() {
    let mut app = fresh_app();
    app.current_screen = CurrentScreen::Chat;
    handle_key_events(ctrl('k'), &mut app, 0);
    assert_eq!(app.chat_scroll, 0);
    assert!(!app.chat_auto_scroll);
    handle_key_events(key(Key::PageDown), &mut app, 0);
    assert_eq!(app.chat_scroll, 5);
    handle_key_events(key(Key::Home), &mut app, 0);
    assert_eq!(app.chat_scroll, 0);
    handle_key_events(key(Key::End), &mut app, 0);
    assert!(app.chat_auto_scroll);
}

#[test]
fn the_view_opens_on_the_local_calendar_date() {
    let app = fresh_app();
    let today = chrono::Datelike::num_days_from_ce(&chrono::Local::now().date_naive()) as i64;
    // allow the clock to tick over midnight between the two readings
    assert!((app.view_date - today).abs() <= 1);
}

#[test]
fn drop_key_leaves_a_completed_task_completed() {
    let mut app = app_with(&[("alpha", 2, 2)]);
    handle_key_events(key(Key::Char('d')), &mut app, 0);
    assert_eq!(app.store.tasks[0].status, TaskStatus::Completed);
    // the completed task is still displayed and selected; dropping it is refused
    handle_key_events(key(Key::Char('x')), &mut app, 0);
    assert_eq!(app.store.tasks[0].status, TaskStatus::Completed);
}

#[test]
fn batch_drop_leaves_a_completed_task_completed() {
    let mut app = app_with(&[("alpha", 2, 2)]);
    app.process_ai_response("[DONE] #1".to_string());
    app.execute_pending_commands();
    app.process_ai_response("[DROP] #1".to_string());
    app.execute_pending_commands();
    assert_eq!(app.store.tasks[0].status, TaskStatus::Completed);
}

#[test]
fn title_matching_folds_the_full_alphabet() {
    let mut app = app_with(&[("Fix CAF\u{c9} Server", 2, 2)]);
    app.process_ai_response("[DONE] caf\u{e9} server".to_string());
    let summary = app.execute_pending_commands();
    assert!(!summary.contains("Errors"));
    assert_eq!(app.store.tasks[0].status, TaskStatus::Completed);
}

#[test]
fn reentering_zen_keeps_the_running_countdown() {
    let mut app = app_with(&[("alpha", 2, 2)]);
    handle_key_events(key(Key::Char('z')), &mut app, 0);
    handle_key_events(key(Key::Char('z')), &mut app, 7);
    let started = match &app.zen_state {
        Some(z) => z.pomodoro.as_ref().unwrap().start_secs,
        None => panic!("zen state expected"),
    };
    assert_eq!(started, 7);
    // leave and come back later: the countdown keeps running
    handle_key_events(key(Key::Esc), &mut app, 100);
    handle_key_events(key(Key::Char('z')), &mut app, 100);
    let kept = match &app.zen_state {
        Some(z) => z.pomodoro.as_ref().unwrap().start_secs,
        None => panic!("zen state expected"),
    };
    assert_eq!(kept, 7);
}
