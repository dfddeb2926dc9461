//! What the screen shows, as text: section labels, list rows, the cards of
//! each kanban column and the input prompts. Drawing it is the
//! application's job.

use vstd::prelude::*;
use crate::app::{cell_of, cell_positions, InputMode};
use crate::models::todos::{todos_view, Section, SectionSource, SectionView, SourceView, Todo, TodoView};
use crate::text::{concat2, usize_to_string, decimal};

verus! {

/// Number of done tasks among `todos`.
pub open spec fn done_count(todos: Seq<TodoView>) -> nat
    decreases todos.len(),
{
    if todos.len() == 0 {
        0
    } else {
        done_count(todos.drop_last()) + if todos.last().is_done {
            1nat
        } else {
            0nat
        }
    }
}

/// The tag naming where a section's data comes from.
pub open spec fn source_tag(s: SourceView) -> Seq<char> {
    match s {
        SourceView::Local => seq![],
        SourceView::Reminders(_) => "[Reminders] "@,
        SourceView::Calendar(_) => "[Calendar] "@,
        SourceView::Jira(_) => "[Jira] "@,
    }
}

/// A section's row in the sections panel: its tags, name, and how many of
/// its tasks are done.
pub open spec fn section_label_of(s: SectionView) -> Seq<char> {
    source_tag(s.source) + (if s.columns is Some || s.boards is Some {
        "[Kanban] "@
    } else {
        seq![]
    }) + s.name + " ("@ + decimal(done_count(s.todos)) + "/"@ + decimal(s.todos.len()) + ")"@
}

/// The row of a section in the sections panel.
pub fn section_label(section: &Section) -> (r: String)
    ensures
        r@ == section_label_of(section@),
{
    let ghost tv = todos_view(section.todos@);
    let mut done: usize = 0;
    let mut i: usize = 0;
    while i < section.todos.len()
        invariant
            0 <= i <= section.todos@.len(),
            tv == todos_view(section.todos@),
            done == done_count(tv.take(i as int)),
            done <= i,
        decreases section.todos@.len() - i,
    {
        assert(tv.take(i + 1).drop_last() =~= tv.take(i as int));
        if section.todos[i].is_done {
            done = done + 1;
        }
        i = i + 1;
    }
    assert(tv.take(section.todos@.len() as int) =~= tv);
    let tag = match &section.source {
        SectionSource::Local => "",
        SectionSource::Reminders { .. } => "[Reminders] ",
        SectionSource::Calendar { .. } => "[Calendar] ",
        SectionSource::Jira { .. } => "[Jira] ",
    };
    let kanban = if section.columns.is_some() || section.boards.is_some() {
        "[Kanban] "
    } else {
        ""
    };
    proof {
        reveal_strlit("");
    }
    let mut r = concat2(tag, kanban);
    r.append(section.name.as_str());
    r.append(" (");
    let d = usize_to_string(done);
    r.append(d.as_str());
    r.append("/");
    let t = usize_to_string(section.todos.len());
    r.append(t.as_str());
    r.append(")");
    assert(r@ =~= section_label_of(section@));
    r
}

/// A task's row in a plain list: a check box, then its text.
pub fn list_row(todo: &Todo) -> (r: String)
    ensures
        r@ == (if todo.is_done {
            "[✓] "@
        } else {
            "[ ] "@
        }) + todo.text@,
{
    let mark = if todo.is_done {
        "[✓] "
    } else {
        "[ ] "
    };
    concat2(mark, todo.text.as_str())
}

/// Indices (in order) of the todos below `n` in column `column`, whatever
/// their board.
pub open spec fn column_positions(todos: Seq<TodoView>, column: usize, n: int) -> Seq<int>
    decreases n,
{
    if n <= 0 {
        seq![]
    } else {
        let prev = column_positions(todos, column, n - 1);
        if todos[n - 1].column == column {
            prev.push(n - 1)
        } else {
            prev
        }
    }
}

pub open spec fn int_view(v: Seq<usize>) -> Seq<int> {
    v.map_values(|i: usize| i as int)
}

/// The cards shown in column `column` of a single board, in order
/// (indices into `todos`).
pub fn column_cards(todos: &Vec<Todo>, column: usize) -> (r: Vec<usize>)
    ensures
        int_view(r@) == column_positions(todos_view(todos@), column, todos@.len() as int),
{
    let ghost tv = todos_view(todos@);
    let mut r: Vec<usize> = Vec::new();
    let mut i: usize = 0;
    while i < todos.len()
        invariant
            0 <= i <= todos@.len(),
            tv == todos_view(todos@),
            int_view(r@) == column_positions(tv, column, i as int),
        decreases todos@.len() - i,
    {
        if todos[i].column == column {
            let ghost before = int_view(r@);
            r.push(i);
            assert(int_view(r@) =~= before.push(i as int));
        }
        i = i + 1;
    }
    r
}

/// The cards shown in cell (`board`, `column`) of a multi-board section, in
/// order (indices into `todos`): the cards the kanban cursor walks through.
pub fn cell_cards(todos: &Vec<Todo>, board: usize, column: usize) -> (r: Vec<usize>)
    ensures
        int_view(r@) == cell_of(todos_view(todos@), board, column),
{
    let ghost tv = todos_view(todos@);
    let mut r: Vec<usize> = Vec::new();
    let mut i: usize = 0;
    while i < todos.len()
        invariant
            0 <= i <= todos@.len(),
            tv == todos_view(todos@),
            int_view(r@) == cell_positions(tv, board, column, i as int),
        decreases todos@.len() - i,
    {
        if todos[i].board_index == board && todos[i].column == column {
            let ghost before = int_view(r@);
            r.push(i);
            assert(int_view(r@) =~= before.push(i as int));
        }
        i = i + 1;
    }
    r
}

/// The prompt shown while text is captured, if it is.
pub fn input_prompt(mode: InputMode) -> (r: Option<&'static str>)
    ensures
        match mode {
            InputMode::Normal => r is None,
            InputMode::AddSection => r == Some("New section"),
            InputMode::AddTodo => r == Some("New task"),
            InputMode::AddKanbanColumns => r == Some("Comma-separated columns (empty = remove kanban)"),
        },
{
    match mode {
        InputMode::Normal => None,
        InputMode::AddSection => Some("New section"),
        InputMode::AddTodo => Some("New task"),
        InputMode::AddKanbanColumns => Some("Comma-separated columns (empty = remove kanban)"),
    }
}

} // verus!
