use todos::app::{App, ExternalCall, FetchResult, Focus, Followup, InputMode, PendingSync};
use todos::models::todos::{Section, SectionSource, Todo};

fn linked_todo(text: &str, id: &str) -> Todo {
    Todo {
        external_id: Some(id.to_string()),
        ..Todo::new(text.to_string())
    }
}

fn section(name: &str, source: SectionSource, todos: Vec<Todo>) -> Section {
    Section {
        source,
        todos,
        ..Section::new(name.to_string())
    }
}

fn reminders_app() -> App {
    let list = SectionSource::Reminders {
        list: "Errands".to_string(),
    };
    App::with_sections(vec![section(
        "Errands",
        list,
        vec![linked_todo("Milk", "rem-1"), Todo::new("Local".to_string())],
    )])
}

#[test]
fn toggle_on_reminder_waits_for_reminders() {
    let mut app = reminders_app();
    app.focus = Focus::Todos;
    let pending = app.toggle_todo().expect("a reminder needs Reminders to follow");
    match &pending.call {
        ExternalCall::SetReminderCompleted {
            identifier,
            completed,
        } => {
            assert_eq!(identifier, "rem-1");
            assert!(*completed);
        }
        other => panic!("unexpected call {:?}", other),
    }
    // Nothing changes until the call succeeded.
    assert!(!app.sections[0].todos[0].is_done);
    app.complete_sync(pending, Ok(None));
    assert!(app.sections[0].todos[0].is_done);
}

#[test]
fn toggle_on_local_task_of_reminders_list_is_immediate() {
    let mut app = reminders_app();
    app.focus = Focus::Todos;
    app.selected_todo = 1;
    assert!(app.toggle_todo().is_none());
    assert!(app.sections[0].todos[1].is_done);
}

#[test]
fn failed_sync_shows_the_error_and_changes_nothing() {
    let mut app = reminders_app();
    app.focus = Focus::Todos;
    let pending = app.toggle_todo().unwrap();
    app.complete_sync(pending, Err("denied".to_string()));
    assert_eq!(app.message.as_deref(), Some("Error syncing: denied"));
    assert!(!app.sections[0].todos[0].is_done);
}

#[test]
fn calendar_events_cannot_be_marked_done() {
    let cal = SectionSource::Calendar {
        calendar: "Work".to_string(),
    };
    let mut app = App::with_sections(vec![section("Work", cal, vec![linked_todo("Meeting", "ev")])]);
    app.focus = Focus::Todos;
    assert!(app.toggle_todo().is_none());
    assert_eq!(
        app.message.as_deref(),
        Some("Calendar events can't be marked done")
    );
    assert!(!app.sections[0].todos[0].is_done);
}

#[test]
fn toggle_on_kanban_board_asks_to_move_the_card() {
    let mut app = App::new();
    app.focus = Focus::Todos;
    app.sections[0].columns = Some(vec!["A".to_string(), "B".to_string()]);
    assert!(app.toggle_todo().is_none());
    assert_eq!(
        app.message.as_deref(),
        Some("On a kanban board, move the card with H/L to the last column")
    );
}

#[test]
fn moving_a_jira_card_transitions_the_issue_first() {
    let jira = SectionSource::Jira {
        jql: "project = A".to_string(),
    };
    let mut s = section("Jira", jira, vec![linked_todo("A-1 — Fix", "A-1")]);
    s.boards = Some(vec![todos::models::todos::KanbanBoard {
        name: "A".to_string(),
        columns: vec!["To Do".to_string(), "Review".to_string()],
    }]);
    let mut app = App::with_sections(vec![s]);
    app.focus = Focus::Todos;
    let pending = app.move_card(1).expect("Jira must follow the move");
    match &pending.call {
        ExternalCall::SetIssueStatus {
            issue_key,
            status_name,
        } => {
            assert_eq!(issue_key, "A-1");
            assert_eq!(status_name, "Review");
        }
        other => panic!("unexpected call {:?}", other),
    }
    assert_eq!(app.sections[0].todos[0].column, 0);
    app.complete_sync(pending, Ok(None));
    assert_eq!(app.sections[0].todos[0].column, 1);
    assert!(app.sections[0].todos[0].is_done);
    assert_eq!(app.kanban_column, 1);
    assert_eq!(app.message.as_deref(), Some("Moved to \"Review\""));
}

#[test]
fn moving_a_reminder_card_completes_it_only_in_the_last_column() {
    let mut app = reminders_app();
    app.focus = Focus::Todos;
    app.sections[0].columns = Some(vec![
        "Todo".to_string(),
        "Doing".to_string(),
        "Done".to_string(),
    ]);
    let pending = app.move_card(1).unwrap();
    match &pending.call {
        ExternalCall::SetReminderCompleted { completed, .. } => assert!(!*completed),
        other => panic!("unexpected call {:?}", other),
    }
    match &pending.followup {
        Followup::CardMove { todo, column, is_last, column_name } => {
            assert_eq!((*todo, *column, *is_last), (0, 1, false));
            assert_eq!(column_name, "Doing");
        }
        other => panic!("unexpected follow-up {:?}", other),
    }
}

#[test]
fn no_card_in_column_is_reported() {
    let mut app = App::new();
    app.focus = Focus::Todos;
    app.sections[0].columns = Some(vec!["A".to_string(), "B".to_string()]);
    app.kanban_column = 1;
    assert!(app.move_card(1).is_none());
    assert_eq!(app.message.as_deref(), Some("There's no card in this column"));
}

#[test]
fn card_moved_right_then_left_returns_to_its_column() {
    let mut app = App::new();
    app.focus = Focus::Todos;
    app.sections[0].columns = Some(vec!["A".to_string(), "B".to_string(), "C".to_string()]);
    let before: Vec<(usize, bool)> = app.sections[0]
        .todos
        .iter()
        .map(|t| (t.column, t.is_done))
        .collect();
    app.move_card(1);
    assert_eq!(app.kanban_column, 1);
    app.move_card(-1);
    let after: Vec<(usize, bool)> = app.sections[0]
        .todos
        .iter()
        .map(|t| (t.column, t.is_done))
        .collect();
    assert_eq!(before, after);
    assert_eq!(app.kanban_column, 0);
}

#[test]
fn adding_to_a_reminders_list_creates_the_reminder_first() {
    let mut app = reminders_app();
    app.focus = Focus::Todos;
    app.start_adding();
    assert_eq!(app.input_mode, InputMode::AddTodo);
    app.input_buffer = "  Bread  ".to_string();
    let pending = app.confirm_input().expect("the reminder must be created first");
    match &pending.call {
        ExternalCall::CreateReminder { list, title } => {
            assert_eq!(list, "Errands");
            assert_eq!(title, "Bread");
        }
        other => panic!("unexpected call {:?}", other),
    }
    assert_eq!(app.input_mode, InputMode::Normal);
    assert!(app.input_buffer.is_empty());
    assert_eq!(app.sections[0].todos.len(), 2);
    app.complete_sync(pending, Ok(Some("rem-9".to_string())));
    assert_eq!(app.sections[0].todos.len(), 3);
    assert_eq!(app.sections[0].todos[2].text, "Bread");
    assert_eq!(app.sections[0].todos[2].external_id.as_deref(), Some("rem-9"));
    assert_eq!(app.selected_todo, 2);
}

#[test]
fn failed_reminder_creation_is_reported() {
    let mut app = reminders_app();
    let pending = PendingSync {
        call: ExternalCall::CreateReminder {
            list: "Errands".to_string(),
            title: "Bread".to_string(),
        },
        followup: Followup::AddReminder {
            title: "Bread".to_string(),
        },
    };
    app.complete_sync(pending, Err("no access".to_string()));
    assert_eq!(
        app.message.as_deref(),
        Some("Error creating the reminder: no access")
    );
    assert_eq!(app.sections[0].todos.len(), 2);
}

#[test]
fn jira_and_calendar_sections_refuse_new_tasks() {
    let jira = SectionSource::Jira {
        jql: "x".to_string(),
    };
    let mut app = App::with_sections(vec![section("J", jira, vec![])]);
    app.focus = Focus::Todos;
    app.start_adding();
    assert_eq!(app.input_mode, InputMode::Normal);
    assert_eq!(
        app.message.as_deref(),
        Some("Jira issues can't be created from here")
    );
}

#[test]
fn adding_a_task_without_sections_asks_for_one() {
    let mut app = App::with_sections(vec![]);
    app.focus = Focus::Todos;
    app.start_adding();
    assert_eq!(
        app.message.as_deref(),
        Some("Create a section first (Tab, then 'a')")
    );
}

#[test]
fn blank_input_creates_nothing() {
    let mut app = App::new();
    app.start_adding();
    app.input_buffer = "   ".to_string();
    app.confirm_input();
    assert_eq!(app.sections.len(), 1);
    assert_eq!(app.input_mode, InputMode::Normal);
}

#[test]
fn resync_without_links_says_so() {
    let mut app = App::new();
    let sources = app.sync_linked_sections();
    assert!(sources.is_empty());
    assert_eq!(
        app.message.as_deref(),
        Some("No sections are linked to Reminders/Calendar/Jira (use --reminders-list, --calendar, or --jira)")
    );
}

#[test]
fn resync_fetches_reminders_then_calendars_then_jira() {
    let jira = SectionSource::Jira {
        jql: "q".to_string(),
    };
    let cal = SectionSource::Calendar {
        calendar: "c".to_string(),
    };
    let rem = SectionSource::Reminders {
        list: "r".to_string(),
    };
    let mut app = App::with_sections(vec![
        section("J", jira.clone(), vec![]),
        section("C", cal.clone(), vec![]),
        Section::new("Local".to_string()),
        section("R", rem.clone(), vec![]),
    ]);
    let sources = app.sync_linked_sections();
    assert_eq!(sources, vec![rem, cal, jira]);
    assert_eq!(app.message, None);
}

#[test]
fn resync_reports_each_failure() {
    let mut app = reminders_app();
    app.selected_section = 0;
    app.selected_todo = 1;
    let fresh = section(
        "Errands",
        SectionSource::Reminders {
            list: "Errands".to_string(),
        },
        vec![linked_todo("Milk", "rem-1")],
    );
    app.finish_sync(vec![
        FetchResult {
            source: SectionSource::Reminders {
                list: "Errands".to_string(),
            },
            outcome: Ok(fresh),
        },
        FetchResult {
            source: SectionSource::Calendar {
                calendar: "Work".to_string(),
            },
            outcome: Err("offline".to_string()),
        },
        FetchResult {
            source: SectionSource::Jira {
                jql: "q".to_string(),
            },
            outcome: Err("401".to_string()),
        },
    ]);
    assert_eq!(app.sections.len(), 1);
    assert_eq!(app.sections[0].todos.len(), 1);
    assert_eq!(app.selected_todo, 0);
    assert_eq!(
        app.message.as_deref(),
        Some("Synced with errors: Calendar (Work): offline; Jira (q): 401")
    );
}

#[test]
fn resync_without_errors_reports_success_and_clamps_selection() {
    let mut app = App::with_sections(vec![]);
    app.selected_section = 5;
    let fresh = section(
        "Errands",
        SectionSource::Reminders {
            list: "Errands".to_string(),
        },
        vec![],
    );
    app.finish_sync(vec![FetchResult {
        source: fresh.source.clone(),
        outcome: Ok(fresh),
    }]);
    assert_eq!(app.sections.len(), 1);
    assert_eq!(app.selected_section, 0);
    assert_eq!(app.message.as_deref(), Some("Synced Reminders/Calendar/Jira"));
}

#[test]
fn new_identifiers_are_random_uuids() {
    let t = Todo::new("x".to_string());
    assert_eq!((t.id >> 76) & 0xf, 4);
    assert_eq!((t.id >> 62) & 0x3, 2);
    let u = Todo::new("x".to_string());
    assert_ne!(t.id, u.id);
}

#[test]
fn resync_leaves_local_sections_alone() {
    let mut app = reminders_app();
    app.sections.insert(0, Section::new("Mine".to_string()));
    app.sections[0].todos.push(Todo::new("keep me".to_string()));
    let local_id = app.sections[0].id;
    let fresh = section(
        "Errands",
        SectionSource::Reminders {
            list: "Errands".to_string(),
        },
        vec![],
    );
    app.finish_sync(vec![FetchResult {
        source: fresh.source.clone(),
        outcome: Ok(fresh),
    }]);
    assert_eq!(app.sections.len(), 2);
    assert_eq!(app.sections[0].id, local_id);
    assert_eq!(app.sections[0].todos[0].text, "keep me");
    assert!(app.sections[1].todos.is_empty());
}

#[test]
fn card_cursor_next_then_previous_returns() {
    let mut app = App::new();
    app.focus = Focus::Todos;
    app.sections[0].columns = Some(vec!["A".to_string(), "B".to_string()]);
    app.kanban_item = 2;
    app.next();
    assert_eq!(app.kanban_item, 0);
    app.previous();
    assert_eq!(app.kanban_item, 2);
}
