use todos::app::{App, Focus, InputMode};
use todos::models::todos::{KanbanBoard, Todo};

#[test]
fn test_save_todos_without_file_path() {
    let mut app = App::new();
    app.save_todos();
    assert!(app.message.unwrap().contains("No destination file"));
}

#[test]
fn test_parse_sections_migrates_flat_todo_list() {
    // The older save format: a flat list of tasks, here one task decoded
    // from [{"id":"397fabd8-38c5-4b44-a389-b3db35b1d044","text":"something","is_done":false}].
    let old_format = vec![Todo {
        id: 0x397fabd8_38c5_4b44_a389_b3db35b1d044,
        text: "something".to_string(),
        is_done: false,
        external_id: None,
        column: 0,
        board_index: 0,
    }];
    let sections = App::sections_from_parsed(None, Some(old_format));
    assert_eq!(sections.len(), 1);
    assert_eq!(sections[0].name, "General");
    assert_eq!(sections[0].todos[0].text, "something");
}

#[test]
fn test_add_section_and_todo() {
    let mut app = App::new();
    app.start_adding();
    app.input_buffer = "Work".to_string();
    app.confirm_input();
    assert_eq!(app.sections.len(), 2);
    assert_eq!(app.sections[1].name, "Work");
    assert_eq!(app.selected_section, 1);

    app.toggle_focus();
    app.start_adding();
    app.input_buffer = "New task".to_string();
    app.confirm_input();
    assert_eq!(app.sections[1].todos.len(), 1);
    assert_eq!(app.sections[1].todos[0].text, "New task");
}

#[test]
fn test_apply_kanban_columns_and_back() {
    let mut app = App::new();
    app.sections[0].todos[0].is_done = true; // already done before converting

    app.start_editing_columns();
    assert_eq!(app.input_mode, InputMode::AddKanbanColumns);
    app.input_buffer = "To do, In progress, Done".to_string();
    app.confirm_input();

    let section = &app.sections[0];
    assert_eq!(
        section.columns,
        Some(vec![
            "To do".to_string(),
            "In progress".to_string(),
            "Done".to_string()
        ])
    );
    // The one already done lands in the last column; the rest in the first.
    assert_eq!(section.todos[0].column, 2);
    assert_eq!(section.todos[1].column, 0);

    // Empty text reverts to a plain list.
    app.start_editing_columns();
    app.input_buffer.clear();
    app.confirm_input();
    assert_eq!(app.sections[0].columns, None);
}

#[test]
fn test_move_card_updates_column_and_done_state() {
    let mut app = App::new();
    app.focus = Focus::Todos;
    app.start_editing_columns();
    app.input_buffer = "To do, In progress, Done".to_string();
    app.confirm_input();

    app.move_card(1);
    assert_eq!(app.sections[0].todos[0].column, 1);
    assert!(!app.sections[0].todos[0].is_done);

    app.move_card(1);
    assert_eq!(app.sections[0].todos[0].column, 2);
    assert!(app.sections[0].todos[0].is_done);

    // At the right edge, moving further does nothing.
    app.move_card(1);
    assert_eq!(app.sections[0].todos[0].column, 2);

    app.move_card(-1);
    assert_eq!(app.sections[0].todos[0].column, 1);
    assert!(!app.sections[0].todos[0].is_done);
}

#[test]
fn test_move_card_without_kanban_shows_message() {
    let mut app = App::new();
    app.focus = Focus::Todos;
    app.move_card(1);
    assert!(app.message.unwrap().contains("isn't a kanban board"));
}

#[test]
fn test_next_todo_cycles_items_within_column() {
    let mut app = App::new();
    app.focus = Focus::Todos;
    app.start_editing_columns();
    app.input_buffer = "A, B".to_string();
    app.confirm_input();
    // The 3 default tasks all start in column 0.
    assert_eq!(app.kanban_item, 0);
    app.next(); // item 0 -> 1
    assert_eq!(app.kanban_item, 1);
    app.next(); // item 1 -> 2
    assert_eq!(app.kanban_item, 2);
    app.next(); // wraps 2 -> 0
    assert_eq!(app.kanban_item, 0);
}

#[test]
fn test_next_todo_moves_between_stacked_boards() {
    let mut app = App::new();
    app.focus = Focus::Todos;
    let section = &mut app.sections[0];
    section.columns = None;
    section.boards = Some(vec![
        KanbanBoard {
            name: "Board A".to_string(),
            columns: vec!["Col0".to_string(), "Col1".to_string()],
        },
        KanbanBoard {
            name: "Board B".to_string(),
            columns: vec!["Col0".to_string(), "Col1".to_string()],
        },
    ]);
    section.todos = vec![
        Todo {
            board_index: 0,
            column: 0,
            ..Todo::new("A0".to_string())
        },
        Todo {
            board_index: 0,
            column: 1,
            ..Todo::new("A1".to_string())
        },
        Todo {
            board_index: 1,
            column: 0,
            ..Todo::new("B0".to_string())
        },
    ];
    assert_eq!(app.kanban_board, 0);
    assert_eq!(app.kanban_column, 0);

    // j should move down to the next board, keeping the column (0).
    app.next();
    assert_eq!(app.kanban_board, 1);
    assert_eq!(app.kanban_column, 0);

    // Wraps back to board 0.
    app.next();
    assert_eq!(app.kanban_board, 0);

    app.previous(); // wraps backwards
    assert_eq!(app.kanban_board, 1);
}

#[test]
fn test_on_left_right_move_between_columns_even_when_empty() {
    let mut app = App::new();
    app.focus = Focus::Todos;
    app.start_editing_columns();
    app.input_buffer = "A, B, C".to_string();
    app.confirm_input();
    // No task was "done", so all 3 land in column A; B and C are
    // empty, but the cursor should still be able to rest there.
    assert_eq!(app.kanban_column, 0);

    app.on_right();
    assert_eq!(app.kanban_column, 1); // B, empty

    app.on_right();
    assert_eq!(app.kanban_column, 2); // C, empty

    app.on_right(); // already at the right edge, nothing happens
    assert_eq!(app.kanban_column, 2);

    app.on_left();
    assert_eq!(app.kanban_column, 1);
}

#[test]
fn test_on_left_toggles_focus_outside_kanban() {
    let mut app = App::new(); // local section, no kanban
    app.focus = Focus::Todos;
    app.on_left();
    assert_eq!(app.focus, Focus::Sections);
}

#[test]
fn test_move_card_uses_current_boards_columns() {
    let mut app = App::new();
    app.focus = Focus::Todos;
    let section = &mut app.sections[0];
    section.columns = None;
    section.boards = Some(vec![
        KanbanBoard {
            name: "Board A".to_string(),
            columns: vec!["Col0".to_string(), "Col1".to_string(), "Col2".to_string()],
        },
        KanbanBoard {
            name: "Board B".to_string(),
            columns: vec!["Solo".to_string()],
        },
    ]);
    section.todos = vec![
        Todo {
            board_index: 0,
            column: 0,
            ..Todo::new("A0".to_string())
        },
        Todo {
            board_index: 1,
            column: 0,
            ..Todo::new("B0".to_string())
        },
    ];

    // Cursor on board B (a single column): moving should do nothing.
    app.kanban_board = 1;
    app.move_card(1);
    assert_eq!(app.sections[0].todos[1].column, 0);

    // Cursor on board A (3 columns): moving does advance.
    app.kanban_board = 0;
    app.move_card(1);
    assert_eq!(app.sections[0].todos[0].column, 1);
    assert_eq!(app.kanban_column, 1); // the cursor follows the moved card
}

fn stacked_app() -> App {
    let mut app = App::new();
    app.focus = Focus::Todos;
    let section = &mut app.sections[0];
    section.columns = None;
    section.boards = Some(vec![
        KanbanBoard {
            name: "Board A".to_string(),
            columns: vec!["Col0".to_string()],
        },
        KanbanBoard {
            name: "Board B".to_string(),
            columns: vec!["Col0".to_string()],
        },
    ]);
    section.todos = vec![
        Todo {
            board_index: 0,
            column: 0,
            ..Todo::new("A0".to_string())
        },
        Todo {
            board_index: 0,
            column: 0,
            ..Todo::new("A1".to_string())
        },
        Todo {
            board_index: 1,
            column: 0,
            ..Todo::new("B0".to_string())
        },
    ];
    app
}

#[test]
fn stacked_boards_move_down_the_column_before_changing_board() {
    let mut app = stacked_app();
    app.next();
    assert_eq!((app.kanban_board, app.kanban_item), (0, 1));
    app.next();
    assert_eq!((app.kanban_board, app.kanban_item), (1, 0));
    app.next();
    assert_eq!((app.kanban_board, app.kanban_item), (0, 0));
}

#[test]
fn stacked_boards_move_up_to_the_first_card_of_the_previous_board() {
    let mut app = stacked_app();
    app.kanban_board = 1;
    app.previous();
    assert_eq!((app.kanban_board, app.kanban_item), (0, 0));
    app.previous();
    assert_eq!((app.kanban_board, app.kanban_item), (1, 0));
    app.kanban_board = 0;
    app.kanban_item = 1;
    app.previous();
    assert_eq!((app.kanban_board, app.kanban_item), (0, 0));
}
