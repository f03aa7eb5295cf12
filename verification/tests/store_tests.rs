use eq::log::EventAction;
use eq::store::TaskStore;
use eq::task::{Quadrant, Task, TaskStatus};

fn store_with(titles: &[(&str, u8, u8)], date: i64) -> TaskStore {
    let mut store = TaskStore::default();
    for (t, u, i) in titles {
        store.add_task(Task::new((*t).to_string(), *u, *i, date));
    }
    store
}

#[test]
fn quadrant_classification_covers_the_grid() {
    let date = 10;
    let q = |u: u8, i: u8| Task::new("t".to_string(), u, i, date).quadrant();
    assert_eq!(q(1, 1), Quadrant::Drop);
    assert_eq!(q(3, 1), Quadrant::Delegate);
    assert_eq!(q(2, 1), Quadrant::Delegate);
    assert_eq!(q(1, 3), Quadrant::Schedule);
    assert_eq!(q(1, 2), Quadrant::Schedule);
    assert_eq!(q(2, 2), Quadrant::DoFirst);
    assert_eq!(q(3, 3), Quadrant::DoFirst);
    assert_eq!(q(2, 3), Quadrant::DoFirst);
    assert_eq!(q(3, 2), Quadrant::DoFirst);
}

#[test]
fn score_weights_importance_over_urgency() {
    let t = Task::new("a".to_string(), 3, 3, 0);
    assert_eq!(t.score(), 15);
    let t = Task::new("b".to_string(), 1, 1, 0);
    assert_eq!(t.score(), 5);
    let t = Task::new("c".to_string(), 1, 3, 0);
    assert_eq!(t.score(), 11);
    let t = Task::new("d".to_string(), 3, 1, 0);
    assert_eq!(t.score(), 9);
}

#[test]
fn new_task_clamps_priorities_and_starts_pending() {
    let t = Task::new("x".to_string(), 0, 9, 7);
    assert_eq!(t.urgency, 1);
    assert_eq!(t.importance, 3);
    assert_eq!(t.status, TaskStatus::Pending);
    assert_eq!(t.date, 7);
    assert!(t.completed_at.is_none());
}

#[test]
fn toggle_twice_returns_a_task_to_pending() {
    let mut store = store_with(&[("alpha", 2, 2)], 5);
    let id = store.tasks[0].id;
    assert!(store.toggle_complete_task(id));
    assert_eq!(store.tasks[0].status, TaskStatus::Completed);
    assert!(store.tasks[0].completed_at.is_some());
    assert!(store.toggle_complete_task(id));
    assert_eq!(store.tasks[0].status, TaskStatus::Pending);
    assert!(store.tasks[0].completed_at.is_none());
}

#[test]
fn complete_refuses_an_already_completed_task() {
    let mut store = store_with(&[("alpha", 2, 2)], 5);
    let id = store.tasks[0].id;
    assert!(store.complete_task(id));
    assert!(!store.complete_task(id));
    assert!(!store.complete_task(999));
}

#[test]
fn drop_is_terminal_and_idempotent() {
    let mut store = store_with(&[("alpha", 2, 2)], 5);
    let id = store.tasks[0].id;
    assert!(store.drop_task(id));
    assert_eq!(store.tasks[0].status, TaskStatus::Dropped);
    assert!(!store.drop_task(id));
}

#[test]
fn update_task_clamps_and_rewrites() {
    let mut store = store_with(&[("alpha", 2, 2)], 5);
    let id = store.tasks[0].id;
    assert!(store.update_task(id, "beta".to_string(), 9, 0));
    assert_eq!(store.tasks[0].title, "beta");
    assert_eq!(store.tasks[0].urgency, 3);
    assert_eq!(store.tasks[0].importance, 1);
    assert!(!store.update_task(42, "nope".to_string(), 1, 1));
}

#[test]
fn move_task_changes_only_the_date() {
    let mut store = store_with(&[("alpha", 2, 2)], 5);
    let id = store.tasks[0].id;
    assert!(store.move_task_to_date(id, 6));
    assert_eq!(store.tasks[0].date, 6);
    assert_eq!(store.tasks[0].title, "alpha");
}

#[test]
fn every_mutation_appends_one_audit_event() {
    let mut store = store_with(&[("alpha", 2, 2)], 5);
    assert_eq!(store.events.len(), 1);
    assert_eq!(store.events[0].action, EventAction::Created);
    assert_eq!(store.events[0].details, "Created task: alpha");
    let id = store.tasks[0].id;
    store.complete_task(id);
    assert_eq!(store.events.len(), 2);
    assert_eq!(store.events[1].action, EventAction::Completed);
    assert_eq!(store.events[1].task_id, id);
    store.toggle_complete_task(id);
    assert_eq!(store.events[2].action, EventAction::Updated);
    assert_eq!(store.events[2].details, "Undone task: alpha");
    store.drop_task(id);
    assert_eq!(store.events[3].action, EventAction::Dropped);
    // a miss appends nothing
    store.drop_task(id);
    assert_eq!(store.events.len(), 4);
}

#[test]
fn find_task_id_resolves_positions_in_score_order() {
    let mut store = store_with(&[("low", 1, 1), ("high", 3, 3)], 5);
    // position 1 is the highest score, "high"
    let high_id = store.tasks[1].id;
    let low_id = store.tasks[0].id;
    assert_eq!(store.find_task_id("1", Some(5)), Some(high_id));
    assert_eq!(store.find_task_id("2", Some(5)), Some(low_id));
    // a number past the view falls through to the identifier-prefix match,
    // so probe with an out-of-range digit that starts neither identifier
    let heads: Vec<char> = store
        .tasks
        .iter()
        .map(|t| uuid::Uuid::from_u128(t.id).to_string().chars().next().unwrap())
        .collect();
    let probe = ['3', '4', '5', '6', '7', '8', '9']
        .iter()
        .copied()
        .find(|d| !heads.contains(d))
        .unwrap()
        .to_string();
    assert_eq!(store.find_task_id(&probe, Some(5)), None);
    // completed tasks leave the pending view
    store.complete_task(high_id);
    assert_eq!(store.find_task_id("1", Some(5)), Some(low_id));
}

#[test]
fn find_task_id_falls_back_to_identifier_prefix() {
    let store = store_with(&[("alpha", 2, 2)], 5);
    let id = store.tasks[0].id;
    let text = uuid::Uuid::from_u128(id).to_string();
    assert_eq!(store.find_task_id(&text[0..8], Some(5)), Some(id));
    assert_eq!(store.find_task_id(&text, None), Some(id));
    assert_eq!(store.find_task_id("zzzz-not-a-prefix", Some(5)), None);
}

#[test]
fn stamps_come_from_the_real_clock() {
    let t = Task::new("x".to_string(), 1, 1, 0);
    let now = chrono::Utc::now().timestamp();
    assert!((t.created_at - now).abs() <= 5);
    let mut t2 = t.clone();
    t2.complete();
    assert!(t2.completed_at.is_some());
    assert!((t2.completed_at.unwrap() - now).abs() <= 5);
}

#[test]
fn fresh_identifiers_differ() {
    let a = Task::new("a".to_string(), 1, 1, 0);
    let b = Task::new("b".to_string(), 1, 1, 0);
    assert_ne!(a.id, b.id);
}

#[test]
fn quadrant_labels_read_as_displayed() {
    assert_eq!(Quadrant::DoFirst.label(), "DO FIRST");
    assert_eq!(Quadrant::Schedule.label(), "SCHEDULE");
    assert_eq!(Quadrant::Delegate.label(), "DELEGATE");
    assert_eq!(Quadrant::Drop.label(), "DROP");
}

#[test]
fn drop_refuses_a_completed_task() {
    // Dropped is terminal and not reachable from Completed
    let mut store = store_with(&[("alpha", 2, 2)], 5);
    let id = store.tasks[0].id;
    assert!(store.complete_task(id));
    let events_before = store.events.len();
    assert!(!store.drop_task(id));
    assert_eq!(store.tasks[0].status, TaskStatus::Completed);
    assert_eq!(store.events.len(), events_before);
}
