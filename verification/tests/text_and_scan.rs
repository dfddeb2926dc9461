use todos::reminders::{calendar_days, calendar_section, reminders_section, EventEntry, ReminderEntry};
use todos::scanner::{is_skipped_entry, scan_section, scan_text};
use todos::text::{join_strings, split_comma_list, trim};

#[test]
fn trim_removes_unicode_white_space() {
    assert_eq!(trim("\t a b \u{3000}\n"), "a b");
    assert_eq!(trim("   "), "");
}

#[test]
fn comma_lists_split_and_join() {
    assert_eq!(split_comma_list("a, b ,c"), vec!["a", "b", "c"]);
    assert!(split_comma_list("").is_empty());
    assert_eq!(
        join_strings(&vec!["x".to_string(), "y".to_string()], ", "),
        "x, y"
    );
}

#[test]
fn scan_finds_each_todo_line() {
    let todos = scan_text(
        "src/lib.rs",
        "// TODO: Refactor this function\nfn foo() {}\n// TODO Fix bug\n",
    );
    assert_eq!(todos.len(), 2);
    assert_eq!(todos[0].text, "src/lib.rs:1 - Refactor this function");
    assert_eq!(todos[1].text, "src/lib.rs:3 - Fix bug");
}

#[test]
fn scan_keeps_bare_todo_and_strips_repeated_markers() {
    let todos = scan_text("f", "x TODO\r\nTODOTODO::: y \r\nno\nTODO");
    let texts: Vec<&str> = todos.iter().map(|t| t.text.as_str()).collect();
    assert_eq!(texts, vec!["f:1 - TODO", "f:2 - y", "f:4 - TODO"]);
}

#[test]
fn scan_of_empty_text_finds_nothing() {
    assert!(scan_text("f", "").is_empty());
    assert!(scan_text("f", "\n\n").is_empty());
}

#[test]
fn hidden_and_build_entries_are_skipped() {
    assert!(is_skipped_entry(".git"));
    assert!(is_skipped_entry("target"));
    assert!(is_skipped_entry("node_modules"));
    assert!(is_skipped_entry("build"));
    assert!(!is_skipped_entry("src"));
    assert!(!is_skipped_entry("builds"));
}

#[test]
fn scan_section_only_when_something_was_found() {
    assert!(scan_section("dir", vec![]).is_empty());
    let found = scan_text("a", "TODO x");
    let s = scan_section("dir", found);
    assert_eq!(s.len(), 1);
    assert_eq!(s[0].name, "Scan: dir");
    assert_eq!(s[0].todos.len(), 1);
}

#[test]
fn reminders_become_linked_tasks() {
    let s = reminders_section(
        "Errands",
        vec![
            ReminderEntry {
                title: "Milk".to_string(),
                due: Some("2024-05-01 10:00".to_string()),
                completed: true,
                identifier: "r1".to_string(),
            },
            ReminderEntry {
                title: "Eggs".to_string(),
                due: None,
                completed: false,
                identifier: "r2".to_string(),
            },
        ],
    );
    assert_eq!(s.name, "Errands");
    assert_eq!(s.todos[0].text, "Milk (due 2024-05-01 10:00)");
    assert!(s.todos[0].is_done);
    assert_eq!(s.todos[1].text, "Eggs");
    assert_eq!(s.todos[1].external_id.as_deref(), Some("r2"));
}

#[test]
fn events_become_tasks_that_are_not_done() {
    let s = calendar_section(
        "Work",
        vec![EventEntry {
            start: "2024-05-01 09:00".to_string(),
            title: "Standup".to_string(),
            identifier: "e1".to_string(),
        }],
    );
    assert_eq!(s.todos[0].text, "2024-05-01 09:00 — Standup");
    assert!(!s.todos[0].is_done);
}

#[test]
fn at_least_one_day_of_events() {
    assert_eq!(calendar_days(0), 1);
    assert_eq!(calendar_days(-3), 1);
    assert_eq!(calendar_days(7), 7);
}
