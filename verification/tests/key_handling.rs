use todos::app::{App, Focus, InputMode};
use todos::handler::{on_key_event, KeyCode, KeyEvent};

#[test]
fn test_navigation_and_toggle() {
    let mut app = App::new();

    // Initial focus: the Sections panel.
    assert_eq!(app.focus, Focus::Sections);

    // Tab switches focus to the Todos panel.
    on_key_event(&mut app, KeyEvent::from(KeyCode::Tab));
    assert_eq!(app.focus, Focus::Todos);

    // Down / j -> next_todo
    on_key_event(&mut app, KeyEvent::from(KeyCode::Char('j')));
    assert_eq!(app.selected_todo, 1);

    on_key_event(&mut app, KeyEvent::from(KeyCode::Down));
    assert_eq!(app.selected_todo, 2);

    // Up / k -> previous_todo
    on_key_event(&mut app, KeyEvent::from(KeyCode::Char('k')));
    assert_eq!(app.selected_todo, 1);

    on_key_event(&mut app, KeyEvent::from(KeyCode::Up));
    assert_eq!(app.selected_todo, 0);

    // Space -> toggle_todo
    assert!(!app.sections[0].todos[0].is_done);
    on_key_event(&mut app, KeyEvent::from(KeyCode::Char(' ')));
    assert!(app.sections[0].todos[0].is_done);

    // q -> should_quit
    assert!(!app.should_quit);
    on_key_event(&mut app, KeyEvent::from(KeyCode::Char('q')));
    assert!(app.should_quit);
}

#[test]
fn test_add_section_via_keys() {
    let mut app = App::new();

    on_key_event(&mut app, KeyEvent::from(KeyCode::Char('a')));
    assert_eq!(app.input_mode, InputMode::AddSection);

    for c in "Work".chars() {
        on_key_event(&mut app, KeyEvent::from(KeyCode::Char(c)));
    }
    on_key_event(&mut app, KeyEvent::from(KeyCode::Enter));

    assert_eq!(app.input_mode, InputMode::Normal);
    assert_eq!(app.sections.len(), 2);
    assert_eq!(app.sections[1].name, "Work");
}

#[test]
fn test_cancel_add_todo_via_esc() {
    let mut app = App::new();
    app.toggle_focus(); // focus on Todos

    on_key_event(&mut app, KeyEvent::from(KeyCode::Char('a')));
    assert_eq!(app.input_mode, InputMode::AddTodo);
    on_key_event(&mut app, KeyEvent::from(KeyCode::Char('x')));
    on_key_event(&mut app, KeyEvent::from(KeyCode::Esc));

    assert_eq!(app.input_mode, InputMode::Normal);
    assert_eq!(app.sections[0].todos.len(), 3);
    // Esc while capturing input cancels; it must not quit the app.
    assert!(!app.should_quit);
}

#[test]
fn test_kanban_via_keys() {
    let mut app = App::new();

    on_key_event(&mut app, KeyEvent::from(KeyCode::Char('K')));
    assert_eq!(app.input_mode, InputMode::AddKanbanColumns);

    for c in "A,B,C".chars() {
        on_key_event(&mut app, KeyEvent::from(KeyCode::Char(c)));
    }
    assert_eq!(app.input_buffer, "A,B,C");

    on_key_event(&mut app, KeyEvent::from(KeyCode::Enter));

    assert_eq!(app.input_mode, InputMode::Normal);
    assert!(app.sections[0].columns.is_some());
}

#[test]
fn test_kanban_key_without_sections_shows_message() {
    let mut app = App::new();
    app.sections.clear();

    on_key_event(&mut app, KeyEvent::from(KeyCode::Char('K')));

    assert_eq!(app.input_mode, InputMode::Normal);
    assert!(app.message.unwrap().contains("No section is selected"));
}

#[test]
fn backspace_removes_the_last_typed_character() {
    let mut app = App::new();
    on_key_event(&mut app, KeyEvent::from(KeyCode::Char('a')));
    for c in "ab".chars() {
        on_key_event(&mut app, KeyEvent::from(KeyCode::Char(c)));
    }
    on_key_event(&mut app, KeyEvent::from(KeyCode::Backspace));
    assert_eq!(app.input_buffer, "a");
    on_key_event(&mut app, KeyEvent::from(KeyCode::Backspace));
    on_key_event(&mut app, KeyEvent::from(KeyCode::Backspace));
    assert_eq!(app.input_buffer, "");
    assert_eq!(app.input_mode, InputMode::AddSection);
}

#[test]
fn control_c_quits_but_plain_c_does_not() {
    let mut app = App::new();
    on_key_event(&mut app, KeyEvent::from(KeyCode::Char('c')));
    assert!(!app.should_quit);
    on_key_event(
        &mut app,
        KeyEvent {
            code: KeyCode::Char('C'),
            modifiers: todos::handler::CONTROL,
        },
    );
    assert!(app.should_quit);
}

#[test]
fn save_key_hands_back_the_destination() {
    let mut app = App::new();
    assert!(on_key_event(&mut app, KeyEvent::from(KeyCode::Char('s'))).is_none());
    assert!(app.message.as_deref().unwrap().contains("No destination file"));
    app.file_path = Some(vec!["data.json".to_string()]);
    match on_key_event(&mut app, KeyEvent::from(KeyCode::Char('s'))) {
        Some(todos::handler::Effect::Save(p)) => assert_eq!(p, vec!["data.json".to_string()]),
        other => panic!("expected a save, got {:?}", other),
    }
}

#[test]
fn sync_key_without_links_only_reports() {
    let mut app = App::new();
    assert!(on_key_event(&mut app, KeyEvent::from(KeyCode::Char('r'))).is_none());
    assert!(app
        .message
        .as_deref()
        .unwrap()
        .starts_with("No sections are linked"));
}

#[test]
fn capital_h_and_l_move_cards() {
    let mut app = App::new();
    app.focus = Focus::Todos;
    app.sections[0].columns = Some(vec!["A".to_string(), "B".to_string()]);
    on_key_event(&mut app, KeyEvent::from(KeyCode::Char('L')));
    assert_eq!(app.sections[0].todos[0].column, 1);
    assert!(app.sections[0].todos[0].is_done);
    on_key_event(&mut app, KeyEvent::from(KeyCode::Char('H')));
    assert_eq!(app.sections[0].todos[0].column, 0);
    assert!(!app.sections[0].todos[0].is_done);
}

#[test]
fn other_keys_change_nothing() {
    let mut app = App::new();
    on_key_event(&mut app, KeyEvent::from(KeyCode::Other));
    on_key_event(&mut app, KeyEvent::from(KeyCode::Char('z')));
    assert_eq!(app.focus, Focus::Sections);
    assert!(!app.should_quit);
    assert_eq!(app.message, None);
}
