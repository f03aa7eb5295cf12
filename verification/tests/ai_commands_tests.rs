use eq::ai_commands::{
    format_task_confirmation, parse_add_commands, parse_commands, AICommand, CommandResults,
    ParsedTask, TaskIdentifier,
};

#[test]
fn test_parse_add() {
    let cmds = parse_commands("[ADD] Review notes u2i3");
    assert_eq!(cmds.len(), 1);
    match &cmds[0] {
        AICommand::Add(task) => {
            assert_eq!(task.title, "Review notes");
            assert_eq!(task.urgency, 2);
            assert_eq!(task.importance, 3);
        }
        _ => panic!("Expected Add command"),
    }
}

#[test]
fn test_parse_done_by_title() {
    let cmds = parse_commands("[DONE] Fix server crash");
    assert_eq!(cmds.len(), 1);
    match &cmds[0] {
        AICommand::Done(TaskIdentifier::Title(t)) => {
            assert_eq!(t, "Fix server crash");
        }
        _ => panic!("Expected Done with title"),
    }
}

#[test]
fn test_parse_done_by_index() {
    let cmds = parse_commands("[DONE] #1");
    assert_eq!(cmds.len(), 1);
    match &cmds[0] {
        AICommand::Done(TaskIdentifier::Index(1)) => {}
        _ => panic!("Expected Done with index 1"),
    }

    let cmds = parse_commands("[DONE] 2");
    match &cmds[0] {
        AICommand::Done(TaskIdentifier::Index(2)) => {}
        _ => panic!("Expected Done with index 2"),
    }
}

#[test]
fn test_parse_drop() {
    let cmds = parse_commands("[DROP] Scroll Twitter");
    assert_eq!(cmds.len(), 1);
    match &cmds[0] {
        AICommand::Drop(TaskIdentifier::Title(t)) => {
            assert_eq!(t, "Scroll Twitter");
        }
        _ => panic!("Expected Drop command"),
    }
}

#[test]
fn test_parse_edit_with_arrow() {
    let cmds = parse_commands("[EDIT] Old task -> New task name u3i2");
    assert_eq!(cmds.len(), 1);
    match &cmds[0] {
        AICommand::Edit {
            target: TaskIdentifier::Title(t),
            new_title: Some(new),
            new_urgency: Some(3),
            new_importance: Some(2),
        } => {
            assert_eq!(t, "Old task");
            assert_eq!(new, "New task name");
        }
        _ => panic!("Expected Edit command with arrow"),
    }
}

#[test]
fn test_parse_edit_priority_only() {
    let cmds = parse_commands("[EDIT] Some task u1i3");
    assert_eq!(cmds.len(), 1);
    match &cmds[0] {
        AICommand::Edit {
            target: TaskIdentifier::Title(t),
            new_title: None,
            new_urgency: Some(1),
            new_importance: Some(3),
        } => {
            assert_eq!(t, "Some task");
        }
        _ => panic!("Expected Edit command with priority only"),
    }
}

#[test]
fn test_parse_multiple_commands() {
    let response = "Here's what I'll do:\n[ADD] New task u2i2\n[DONE] Old task\n[DROP] Useless task\nDone!";
    let cmds = parse_commands(response);
    assert_eq!(cmds.len(), 3);
    assert!(matches!(cmds[0], AICommand::Add(_)));
    assert!(matches!(cmds[1], AICommand::Done(_)));
    assert!(matches!(cmds[2], AICommand::Drop(_)));
}

#[test]
fn test_command_results_format() {
    let mut results = CommandResults::default();
    results.tasks_added.push(ParsedTask {
        title: "Task A".into(),
        urgency: 2,
        importance: 3,
    });
    results.tasks_completed.push("Task B".into());
    results.tasks_dropped.push("Task C".into());

    let msg = results.format_confirmation();
    assert!(msg.contains("Task A"));
    assert!(msg.contains("Completed"));
    assert!(msg.contains("Task B"));
    assert!(msg.contains("Dropped"));
}

#[test]
fn add_with_only_priority_tokens_is_discarded() {
    assert_eq!(parse_commands("[ADD] u2i3").len(), 0);
    assert_eq!(parse_commands("[ADD]").len(), 0);
}

#[test]
fn add_keeps_last_priority_token() {
    let cmds = parse_commands("[ADD] Pack bags u1i1 !!$$");
    match &cmds[0] {
        AICommand::Add(task) => {
            assert_eq!(task.title, "Pack bags");
            assert_eq!(task.urgency, 2);
            assert_eq!(task.importance, 2);
        }
        _ => panic!("Expected Add command"),
    }
}

#[test]
fn done_hash_with_junk_falls_back_to_title() {
    let cmds = parse_commands("[DONE] #abc");
    match &cmds[0] {
        AICommand::Done(TaskIdentifier::Title(t)) => assert_eq!(t, "#abc"),
        _ => panic!("Expected Done with title"),
    }
}

#[test]
fn done_with_huge_number_is_a_title() {
    // a number too large for a machine word is not a position
    let cmds = parse_commands("[DONE] 99999999999999999999999999");
    assert!(matches!(&cmds[0], AICommand::Done(TaskIdentifier::Title(_))));
}

#[test]
fn edit_with_empty_left_of_arrow_is_dropped() {
    assert_eq!(parse_commands("[EDIT] -> New name").len(), 0);
}

#[test]
fn crlf_lines_parse_like_plain_lines() {
    let cmds = parse_commands("[ADD] One u1i1\r\n[ADD] Two u2i2\r\n");
    assert_eq!(cmds.len(), 2);
}

#[test]
fn prose_lines_yield_nothing() {
    assert_eq!(parse_commands("just chatting\nno commands here").len(), 0);
    assert_eq!(parse_commands("").len(), 0);
}

#[test]
fn legacy_add_extraction_keeps_only_adds() {
    let tasks = parse_add_commands("[ADD] A u1i1\n[DONE] B\n[ADD] C u3i3");
    assert_eq!(tasks.len(), 2);
    assert_eq!(tasks[0].title, "A");
    assert_eq!(tasks[1].title, "C");
}

#[test]
fn legacy_confirmation_is_empty_for_no_tasks() {
    let tasks: Vec<ParsedTask> = Vec::new();
    assert_eq!(format_task_confirmation(&tasks), "");
    let one = vec![ParsedTask { title: "A".into(), urgency: 1, importance: 2 }];
    let msg = format_task_confirmation(&one);
    assert!(msg.contains("Tasks Added"));
    assert!(msg.contains("A (u1i2)"));
}
