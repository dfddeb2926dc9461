use todos::app::{App, Focus};
use todos::cli::startup_save_path;
use todos::config::{app_dir_in, default_path_in, Config};
use todos::models::todos::{KanbanBoard, Section, SectionSource, Todo};

fn reminder(text: &str, id: &str, done: bool) -> Todo {
    Todo {
        external_id: Some(id.to_string()),
        is_done: done,
        ..Todo::new(text.to_string())
    }
}

fn list_section(list: &str, todos: Vec<Todo>) -> Section {
    Section {
        source: SectionSource::Reminders {
            list: list.to_string(),
        },
        todos,
        ..Section::new(list.to_string())
    }
}

#[test]
fn upsert_appends_a_new_source() {
    let mut sections = vec![Section::new("Local".to_string())];
    let fresh = list_section("Errands", vec![reminder("Milk", "r1", false)]);
    let fresh_id = fresh.id;
    App::upsert_synced_section(&mut sections, fresh);
    assert_eq!(sections.len(), 2);
    assert_eq!(sections[1].id, fresh_id);
    assert_eq!(sections[1].todos.len(), 1);
}

#[test]
fn upsert_replaces_in_place_keeping_identifier_and_board() {
    let mut board = list_section(
        "Errands",
        vec![reminder("Milk", "r1", false), reminder("Eggs", "r2", false)],
    );
    board.columns = Some(vec![
        "Todo".to_string(),
        "Doing".to_string(),
        "Done".to_string(),
    ]);
    board.todos[0].column = 1; // Milk in progress
    board.todos[1].column = 1; // Eggs in progress
    let kept_id = board.id;
    let mut sections = vec![Section::new("Local".to_string()), board, Section::new("Other".to_string())];

    let fresh = list_section(
        "Errands",
        vec![
            reminder("Milk", "r1", false),  // unchanged: keeps its column
            reminder("Eggs", "r2", true),   // completed outside: last column
            reminder("Bread", "r3", false), // new: first column
        ],
    );
    App::upsert_synced_section(&mut sections, fresh);

    assert_eq!(sections.len(), 3);
    assert_eq!(sections[0].name, "Local");
    assert_eq!(sections[2].name, "Other");
    let s = &sections[1];
    assert_eq!(s.id, kept_id);
    assert_eq!(s.columns.as_ref().map(|c| c.len()), Some(3));
    let cols: Vec<(usize, bool)> = s.todos.iter().map(|t| (t.column, t.is_done)).collect();
    assert_eq!(cols, vec![(1, false), (2, true), (0, false)]);
}

#[test]
fn upsert_moves_reopened_card_out_of_last_column() {
    let mut board = list_section("Errands", vec![reminder("Milk", "r1", true)]);
    board.columns = Some(vec!["Todo".to_string(), "Done".to_string()]);
    board.todos[0].column = 1;
    let mut sections = vec![board];
    App::upsert_synced_section(&mut sections, list_section("Errands", vec![reminder("Milk", "r1", false)]));
    assert_eq!(sections[0].todos[0].column, 0);
    assert!(!sections[0].todos[0].is_done);
}

#[test]
fn upsert_twice_gives_the_same_sections() {
    let mut board = list_section("Errands", vec![reminder("Milk", "r1", false)]);
    board.columns = Some(vec!["Todo".to_string(), "Doing".to_string(), "Done".to_string()]);
    board.todos[0].column = 1;
    let mut sections = vec![board];
    let fresh = || {
        list_section(
            "Errands",
            vec![reminder("Milk", "r1", false), reminder("Eggs", "r2", true)],
        )
    };
    App::upsert_synced_section(&mut sections, fresh());
    let once: Vec<(String, usize, bool)> = sections[0]
        .todos
        .iter()
        .map(|t| (t.text.clone(), t.column, t.is_done))
        .collect();
    App::upsert_synced_section(&mut sections, fresh());
    let twice: Vec<(String, usize, bool)> = sections[0]
        .todos
        .iter()
        .map(|t| (t.text.clone(), t.column, t.is_done))
        .collect();
    assert_eq!(once, twice);
    assert_eq!(sections.len(), 1);
}

#[test]
fn upsert_rebuilds_multi_board_sections() {
    let jira = SectionSource::Jira {
        jql: "q".to_string(),
    };
    let mut old = Section::new("Jira".to_string());
    old.source = jira.clone();
    old.boards = Some(vec![KanbanBoard {
        name: "Old".to_string(),
        columns: vec!["A".to_string()],
    }]);
    let mut sections = vec![old];
    let mut fresh = Section::new("Jira".to_string());
    fresh.source = jira;
    fresh.boards = Some(vec![KanbanBoard {
        name: "New".to_string(),
        columns: vec!["X".to_string(), "Y".to_string()],
    }]);
    App::upsert_synced_section(&mut sections, fresh);
    assert_eq!(sections[0].boards.as_ref().unwrap()[0].name, "New");
}

#[test]
fn saved_sections_decode_as_they_are() {
    let sections = vec![Section::new("A".to_string()), Section::new("B".to_string())];
    let r = App::sections_from_parsed(Some(sections), None);
    assert_eq!(r.len(), 2);
    assert_eq!(r[1].name, "B");
}

#[test]
fn undecodable_or_empty_save_file_holds_no_section() {
    assert!(App::sections_from_parsed(None, None).is_empty());
    assert!(App::sections_from_parsed(None, Some(vec![])).is_empty());
}

#[test]
fn section_selection_wraps_both_ways() {
    let mut app = App::with_sections(vec![
        Section::new("A".to_string()),
        Section::new("B".to_string()),
        Section::new("C".to_string()),
    ]);
    app.previous();
    assert_eq!(app.selected_section, 2);
    app.next();
    assert_eq!(app.selected_section, 0);
    app.next();
    app.previous();
    assert_eq!(app.selected_section, 0);
}

#[test]
fn toggling_focus_twice_changes_nothing() {
    let mut app = App::new();
    app.toggle_focus();
    assert_eq!(app.focus, Focus::Todos);
    app.toggle_focus();
    assert_eq!(app.focus, Focus::Sections);
}

#[test]
fn editing_columns_prefills_current_ones() {
    let mut app = App::new();
    app.sections[0].columns = Some(vec!["A".to_string(), "B c".to_string()]);
    app.start_editing_columns();
    assert_eq!(app.input_buffer, "A, B c");
}

#[test]
fn multi_board_sections_cannot_be_edited_by_hand() {
    let mut app = App::new();
    app.sections[0].boards = Some(vec![]);
    app.start_editing_columns();
    assert_eq!(
        app.message.as_deref(),
        Some("This section already groups several Jira boards; its columns can't be edited by hand")
    );
}

#[test]
fn column_names_are_trimmed_and_blank_ones_dropped() {
    let mut app = App::new();
    app.start_editing_columns();
    app.input_buffer = " ,A ,, B,".to_string();
    app.confirm_input();
    assert_eq!(
        app.sections[0].columns,
        Some(vec!["A".to_string(), "B".to_string()])
    );
    assert_eq!(
        app.message.as_deref(),
        Some("\"General\" is now a kanban board with 2 columns")
    );
}

#[test]
fn only_commas_is_refused() {
    let mut app = App::new();
    app.start_editing_columns();
    app.input_buffer = " , ".to_string();
    app.confirm_input();
    assert_eq!(app.sections[0].columns, None);
    assert_eq!(app.message.as_deref(), Some("Enter at least one column name"));
}

#[test]
fn emptied_column_list_reports_plain_list() {
    let mut app = App::new();
    app.sections[0].columns = Some(vec!["A".to_string()]);
    app.start_editing_columns();
    app.input_buffer.clear();
    app.confirm_input();
    assert_eq!(
        app.message.as_deref(),
        Some("\"General\" is no longer a kanban board")
    );
}

#[test]
fn quit_sets_the_flag() {
    let mut app = App::new();
    app.quit();
    assert!(app.should_quit);
}

#[test]
fn save_path_is_handed_back() {
    let mut app = App::new();
    app.file_path = Some(vec!["/tmp".to_string(), "t.json".to_string()]);
    let p = app.save_todos();
    assert_eq!(p, Some(vec!["/tmp".to_string(), "t.json".to_string()]));
    assert_eq!(app.message, None);
}

#[test]
fn app_directory_is_below_home_or_current_directory() {
    assert_eq!(
        app_dir_in(Some("/home/u".to_string())),
        vec!["/home/u".to_string(), ".config".to_string(), "todos".to_string()]
    );
    assert_eq!(
        app_dir_in(None),
        vec![".".to_string(), ".config".to_string(), "todos".to_string()]
    );
}

#[test]
fn preferences_file_is_below_home_or_current_directory() {
    assert_eq!(
        default_path_in(Some("/home/u".to_string())),
        vec![
            "/home/u".to_string(),
            ".config".to_string(),
            "todos".to_string(),
            "config.json".to_string()
        ]
    );
    assert_eq!(default_path_in(None)[0], ".");
    assert_eq!(default_path_in(None)[3], "config.json");
}

#[test]
fn default_paths_end_in_their_file_names() {
    let cfg = Config::default_path();
    assert_eq!(cfg.len(), 4);
    assert_eq!(cfg[1], ".config");
    assert_eq!(cfg[3], "config.json");
    let data = App::default_save_path();
    assert_eq!(data[3], "todos.json");
}

#[test]
fn scan_mode_saves_only_to_a_given_file() {
    let default = vec!["home".to_string(), "todos.json".to_string()];
    assert_eq!(startup_save_path(true, None, default.clone()), None);
    assert_eq!(
        startup_save_path(true, Some(vec!["f.json".to_string()]), default.clone()),
        Some(vec!["f.json".to_string()])
    );
    assert_eq!(startup_save_path(false, None, default.clone()), Some(default.clone()));
    assert_eq!(
        startup_save_path(false, Some(vec!["f.json".to_string()]), default),
        Some(vec!["f.json".to_string()])
    );
}

#[test]
fn re_editing_typed_columns_unchanged_keeps_them() {
    let mut app = App::new();
    app.start_editing_columns();
    app.input_buffer = " To do ,, Doing,Done , ".to_string();
    app.confirm_input();
    let typed = app.sections[0].columns.clone();
    app.start_editing_columns();
    assert_eq!(app.input_buffer, "To do, Doing, Done");
    app.confirm_input();
    assert_eq!(app.sections[0].columns, typed);
}
