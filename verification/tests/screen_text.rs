use todos::app::InputMode;
use todos::models::todos::{Section, SectionSource, Todo};
use todos::view::{cell_cards, column_cards, input_prompt, list_row, section_label};

fn card(text: &str, board: usize, column: usize, done: bool) -> Todo {
    Todo {
        board_index: board,
        column,
        is_done: done,
        ..Todo::new(text.to_string())
    }
}

#[test]
fn section_labels_show_tags_and_progress() {
    let mut s = Section::new("Errands".to_string());
    s.todos = vec![card("a", 0, 0, true), card("b", 0, 0, false), card("c", 0, 0, true)];
    assert_eq!(section_label(&s), "Errands (2/3)");
    s.source = SectionSource::Reminders {
        list: "Errands".to_string(),
    };
    s.columns = Some(vec!["A".to_string()]);
    assert_eq!(section_label(&s), "[Reminders] [Kanban] Errands (2/3)");
    let mut j = Section::new("Jira".to_string());
    j.source = SectionSource::Jira {
        jql: "q".to_string(),
    };
    j.boards = Some(vec![]);
    assert_eq!(section_label(&j), "[Jira] [Kanban] Jira (0/0)");
}

#[test]
fn list_rows_show_a_check_box() {
    assert_eq!(list_row(&card("Milk", 0, 0, true)), "[✓] Milk");
    assert_eq!(list_row(&card("Eggs", 0, 0, false)), "[ ] Eggs");
}

#[test]
fn columns_and_cells_list_their_cards_in_order() {
    let todos = vec![
        card("a", 0, 1, false),
        card("b", 1, 1, false),
        card("c", 0, 0, false),
        card("d", 0, 1, false),
    ];
    assert_eq!(column_cards(&todos, 1), vec![0, 1, 3]);
    assert_eq!(cell_cards(&todos, 0, 1), vec![0, 3]);
    assert_eq!(cell_cards(&todos, 1, 0), Vec::<usize>::new());
}

#[test]
fn prompts_follow_the_input_mode() {
    assert_eq!(input_prompt(InputMode::Normal), None);
    assert_eq!(input_prompt(InputMode::AddSection), Some("New section"));
    assert_eq!(input_prompt(InputMode::AddTodo), Some("New task"));
    assert_eq!(
        input_prompt(InputMode::AddKanbanColumns),
        Some("Comma-separated columns (empty = remove kanban)")
    );
}
