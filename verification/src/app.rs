//! Application state and behavior: the [`App`] struct holds everything the
//! user interface shows and the key handler changes.
//!
//! Every operation is stated over the plain-value view of the state
//! ([`AppView`]). Operations that need an outside system (Reminders, Jira)
//! to agree before the state may change hand back a [`PendingSync`]; the
//! caller performs the call and reports its outcome to
//! [`App::complete_sync`].

use vstd::prelude::*;
use vstd::string::{StrSliceExecFns, StringExecFns};
use crate::config::{app_dir, app_dir_of, path_view};
use crate::models::todos::{
    is_random_uuid, lemma_same_source_view, new_id, opt_boards_view, sections_view, todos_view,
    Section, SectionSource, SectionView, SourceView, Todo, TodoView,
};
use crate::text::{
    comma_list, concat2, concat3, decimal, join_strings, joined, opt_str_view, split_comma_list,
    strings_view, trim, trimmed, usize_to_string,
};

verus! {

/// Which panel currently has keyboard focus.
#[derive(Debug, Clone, Copy, PartialEq, Eq, Structural)]
pub enum Focus {
    Sections,
    Todos,
}

impl Default for Focus {
    fn default() -> (r: Focus)
        ensures
            r == Focus::Sections,
    {
        Focus::Sections
    }
}

/// Text-input mode: normal navigation, or capturing a new name/value.
#[derive(Debug, Clone, Copy, PartialEq, Eq, Structural)]
pub enum InputMode {
    Normal,
    AddSection,
    AddTodo,
    AddKanbanColumns,
}

impl Default for InputMode {
    fn default() -> (r: InputMode)
        ensures
            r == InputMode::Normal,
    {
        InputMode::Normal
    }
}

/// A call into an outside system that has to succeed before a change is
/// made locally.
#[derive(Debug)]
pub enum ExternalCall {
    /// Mark a reminder completed or not completed.
    SetReminderCompleted { identifier: String, completed: bool },
    /// Transition a Jira issue to the status with this name.
    SetIssueStatus { issue_key: String, status_name: String },
    /// Create a reminder titled `title` in the list `list`; its outcome is
    /// the new reminder's identifier.
    CreateReminder { list: String, title: String },
}

/// What to do locally once an [`ExternalCall`] succeeded.
#[derive(Debug)]
pub enum Followup {
    /// Move card `todo` of the selected section to `column`.
    CardMove { todo: usize, column: usize, is_last: bool, column_name: String },
    /// Set the done state of task `todo` of the selected section.
    Toggle { todo: usize, done: bool },
    /// Add a task titled `title` to the selected section, linked to the
    /// created reminder.
    AddReminder { title: String },
}

/// An outside call to perform, and what follows it.
#[derive(Debug)]
pub struct PendingSync {
    pub call: ExternalCall,
    pub followup: Followup,
}

/// The main application state: everything the user interface shows and the
/// key handler changes.
#[derive(Debug)]
pub struct App {
    pub should_quit: bool,
    pub sections: Vec<Section>,
    pub selected_section: usize,
    /// Selection within a plain-list (non-kanban) section. For kanban
    /// sections, the active card is instead given by `kanban_board`,
    /// `kanban_column` and `kanban_item`.
    pub selected_todo: usize,
    /// Current board (stacked row) within a multi-board (Jira) section.
    /// Always `0` for single-board sections.
    pub kanban_board: usize,
    /// Current column within the board. The cursor can rest on an empty
    /// column: it doesn't depend on any card being there.
    pub kanban_column: usize,
    /// Position of the active card within the current (board, column)
    /// cell, used when that cell holds more than one card.
    pub kanban_item: usize,
    pub focus: Focus,
    /// Where `save_todos` writes, as path components.
    pub file_path: Option<Vec<String>>,
    pub message: Option<String>,
    pub input_mode: InputMode,
    pub input_buffer: String,
}

/// The application state as plain values.
#[verifier::ext_equal]
pub struct AppView {
    pub should_quit: bool,
    pub sections: Seq<SectionView>,
    pub selected_section: usize,
    pub selected_todo: usize,
    pub kanban_board: usize,
    pub kanban_column: usize,
    pub kanban_item: usize,
    pub focus: Focus,
    pub file_path: Option<Seq<Seq<char>>>,
    pub message: Option<Seq<char>>,
    pub input_mode: InputMode,
    pub input_buffer: Seq<char>,
}

impl View for App {
    type V = AppView;

    open spec fn view(&self) -> AppView {
        AppView {
            should_quit: self.should_quit,
            sections: sections_view(self.sections@),
            selected_section: self.selected_section,
            selected_todo: self.selected_todo,
            kanban_board: self.kanban_board,
            kanban_column: self.kanban_column,
            kanban_item: self.kanban_item,
            focus: self.focus,
            file_path: match self.file_path {
                Some(p) => Some(strings_view(p@)),
                None => None,
            },
            message: match self.message {
                Some(m) => Some(m@),
                None => None,
            },
            input_mode: self.input_mode,
            input_buffer: self.input_buffer@,
        }
    }
}

/// The selected section, if the selection is valid.
pub open spec fn selected_of(a: AppView) -> Option<SectionView> {
    if a.selected_section < a.sections.len() {
        Some(a.sections[a.selected_section as int])
    } else {
        None
    }
}

/// The state showing message `m`.
pub open spec fn with_message(a: AppView, m: Seq<char>) -> AppView {
    AppView { message: Some(m), ..a }
}

/// The task cursor (plain-list and kanban) back at its initial position.
pub open spec fn cursor_reset(a: AppView) -> AppView {
    AppView { selected_todo: 0, kanban_board: 0, kanban_column: 0, kanban_item: 0, ..a }
}

/// The other panel.
pub open spec fn other_focus(f: Focus) -> Focus {
    match f {
        Focus::Sections => Focus::Todos,
        Focus::Todos => Focus::Sections,
    }
}

/// Focus switched to the other panel.
pub open spec fn focus_toggled(a: AppView) -> AppView {
    AppView { focus: other_focus(a.focus), ..a }
}

/// The next section selected (wrapping around), the task cursor reset.
pub open spec fn after_next_section(a: AppView) -> AppView {
    if a.sections.len() == 0 {
        a
    } else {
        cursor_reset(
            AppView {
                selected_section: ((a.selected_section + 1) % (a.sections.len() as int)) as usize,
                ..a
            },
        )
    }
}

/// The previous section selected (wrapping around), the task cursor reset.
pub open spec fn after_previous_section(a: AppView) -> AppView {
    if a.sections.len() == 0 {
        a
    } else {
        cursor_reset(
            AppView {
                selected_section: if a.selected_section == 0 {
                    (a.sections.len() - 1) as usize
                } else {
                    (a.selected_section - 1) as usize
                },
                ..a
            },
        )
    }
}

/// Indices (in order) of the todos below `n` sitting in cell (`board`, `column`).
pub open spec fn cell_positions(todos: Seq<TodoView>, board: usize, column: usize, n: int) -> Seq<
    int,
>
    decreases n,
{
    if n <= 0 {
        seq![]
    } else {
        let prev = cell_positions(todos, board, column, n - 1);
        if todos[n - 1].board_index == board && todos[n - 1].column == column {
            prev.push(n - 1)
        } else {
            prev
        }
    }
}

/// Indices (in order) of the todos sitting in cell (`board`, `column`).
pub open spec fn cell_of(todos: Seq<TodoView>, board: usize, column: usize) -> Seq<int> {
    cell_positions(todos, board, column, todos.len() as int)
}

/// `n - 1`, or `0` for `0`.
pub open spec fn saturating_pred(n: nat) -> nat {
    if n == 0 {
        0
    } else {
        (n - 1) as nat
    }
}

/// The smaller of `a` and `b`.
pub open spec fn min_usize(a: usize, b: nat) -> usize {
    if a <= b {
        a
    } else {
        b as usize
    }
}

/// The board cursor moved by `delta` with wraparound, on the first card,
/// the column clamped to the new board.
pub open spec fn after_move_kanban_board(a: AppView, delta: int) -> AppView {
    match selected_of(a) {
        None => a,
        Some(s) => match s.boards {
            None => a,
            Some(b) => if b.len() == 0 {
                a
            } else {
                let kb = (a.kanban_board + delta) % (b.len() as int);
                AppView {
                    kanban_board: kb as usize,
                    kanban_item: 0,
                    kanban_column: min_usize(a.kanban_column, saturating_pred(b[kb].columns.len())),
                    ..a
                }
            },
        },
    }
}

/// The card cursor moved by `delta` within its cell, with wraparound.
pub open spec fn after_move_kanban_item(a: AppView, delta: int) -> AppView {
    match selected_of(a) {
        None => a,
        Some(s) => {
            let c = cell_of(s.todos, a.kanban_board, a.kanban_column).len();
            if c == 0 {
                a
            } else {
                AppView { kanban_item: ((a.kanban_item + delta) % (c as int)) as usize, ..a }
            }
        },
    }
}

/// Number of cards in the cell under the kanban cursor.
pub open spec fn cursor_cell_len(a: AppView) -> nat {
    match selected_of(a) {
        Some(s) => cell_of(s.todos, a.kanban_board, a.kanban_column).len(),
        None => 0,
    }
}

/// Down in a multi-board section: the next card of the cell under the
/// cursor; past its last card (or in an empty cell), the first card of the
/// next board (wrapping around).
pub open spec fn after_board_down(a: AppView) -> AppView {
    if a.kanban_item + 1 < cursor_cell_len(a) {
        AppView { kanban_item: (a.kanban_item + 1) as usize, ..a }
    } else {
        after_move_kanban_board(a, 1)
    }
}

/// Up in a multi-board section: the previous card of the cell under the
/// cursor; at its first card (or in an empty cell), the first card of the
/// previous board (wrapping around).
pub open spec fn after_board_up(a: AppView) -> AppView {
    if 0 < a.kanban_item && a.kanban_item < cursor_cell_len(a) {
        AppView { kanban_item: (a.kanban_item - 1) as usize, ..a }
    } else {
        after_move_kanban_board(a, -1)
    }
}

/// The task cursor moved forward: down through the cards of a multi-board
/// section (on to the next board past the last card), to the next card of
/// the cell on a single board, to the next task (wrapping around) in a
/// list.
pub open spec fn after_next_todo(a: AppView) -> AppView {
    match selected_of(a) {
        None => a,
        Some(s) => if s.boards is Some {
            after_board_down(a)
        } else if s.columns is Some {
            after_move_kanban_item(a, 1)
        } else if s.todos.len() > 0 {
            AppView {
                selected_todo: ((a.selected_todo + 1) % (s.todos.len() as int)) as usize,
                ..a
            }
        } else {
            a
        },
    }
}

/// The task cursor moved back (see `after_next_todo`).
pub open spec fn after_previous_todo(a: AppView) -> AppView {
    match selected_of(a) {
        None => a,
        Some(s) => if s.boards is Some {
            after_board_up(a)
        } else if s.columns is Some {
            after_move_kanban_item(a, -1)
        } else if s.todos.len() > 0 {
            AppView {
                selected_todo: if a.selected_todo == 0 {
                    (s.todos.len() - 1) as usize
                } else {
                    (a.selected_todo - 1) as usize
                },
                ..a
            }
        } else {
            a
        },
    }
}

/// The selection moved forward in the focused panel.
pub open spec fn after_next(a: AppView) -> AppView {
    match a.focus {
        Focus::Sections => after_next_section(a),
        Focus::Todos => after_next_todo(a),
    }
}

/// The selection moved back in the focused panel.
pub open spec fn after_previous(a: AppView) -> AppView {
    match a.focus {
        Focus::Sections => after_previous_section(a),
        Focus::Todos => after_previous_todo(a),
    }
}

/// Number of columns of the current board, when the selected section is a
/// kanban board and the current board exists.
pub open spec fn current_column_count(a: AppView) -> Option<nat> {
    match selected_of(a) {
        None => None,
        Some(s) => match s.boards {
            Some(b) => if a.kanban_board < b.len() {
                Some(b[a.kanban_board as int].columns.len())
            } else {
                None
            },
            None => match s.columns {
                Some(c) => Some(c.len()),
                None => None,
            },
        },
    }
}

/// The column cursor moved by `delta`, staying on the board; the card
/// cursor back on the first card.
pub open spec fn after_move_kanban_column(a: AppView, delta: int) -> AppView {
    match current_column_count(a) {
        None => a,
        Some(n) => {
            let c = a.kanban_column + delta;
            if n == 0 || c < 0 || c >= n {
                a
            } else {
                AppView { kanban_column: c as usize, kanban_item: 0, ..a }
            }
        },
    }
}

/// Whether the selected section is a kanban board.
pub open spec fn current_is_kanban(a: AppView) -> bool {
    match selected_of(a) {
        Some(s) => s.columns is Some || s.boards is Some,
        None => false,
    }
}

/// The `h` key: the column cursor one column left on a kanban board with
/// the tasks focused, else the other panel focused.
pub open spec fn after_on_left(a: AppView) -> AppView {
    if a.focus == Focus::Todos && current_is_kanban(a) {
        after_move_kanban_column(a, -1)
    } else {
        focus_toggled(a)
    }
}

/// The `l` key (see `after_on_left`).
pub open spec fn after_on_right(a: AppView) -> AppView {
    if a.focus == Focus::Todos && current_is_kanban(a) {
        after_move_kanban_column(a, 1)
    } else {
        focus_toggled(a)
    }
}

/// Index, within the selected section's todos, of the card under the
/// kanban cursor (board, column, position within the cell).
pub open spec fn current_card(a: AppView) -> Option<int> {
    match selected_of(a) {
        None => None,
        Some(s) => if s.columns is None && s.boards is None {
            None
        } else {
            let cell = cell_of(s.todos, a.kanban_board, a.kanban_column);
            if a.kanban_item < cell.len() {
                Some(cell[a.kanban_item as int])
            } else {
                None
            }
        },
    }
}

/// The positions of a cell are increasing indices of cards of that cell.
pub proof fn lemma_cell_positions(todos: Seq<TodoView>, board: usize, column: usize, n: int)
    requires
        0 <= n <= todos.len(),
    ensures
        forall|k: int|
            0 <= k < cell_positions(todos, board, column, n).len() ==> {
                let i = #[trigger] cell_positions(todos, board, column, n)[k];
                0 <= i < n && todos[i].board_index == board && todos[i].column == column
            },
        forall|k1: int, k2: int|
            0 <= k1 < k2 < cell_positions(todos, board, column, n).len() ==> cell_positions(
                todos,
                board,
                column,
                n,
            )[k1] < cell_positions(todos, board, column, n)[k2],
    decreases n,
{
    if n > 0 {
        lemma_cell_positions(todos, board, column, n - 1);
    }
}

/// Editing the selected section's columns starts, the input prefilled
/// with its current columns; refused without a selected section or for a
/// multi-board section.
pub open spec fn after_start_editing_columns(a: AppView) -> AppView {
    match selected_of(a) {
        None => with_message(a, "No section is selected"@),
        Some(s) => if s.boards is Some {
            with_message(
                a,
                "This section already groups several Jira boards; its columns can't be edited by hand"@,
            )
        } else {
            AppView {
                input_buffer: match s.columns {
                    Some(c) => joined(c, ", "@),
                    None => seq![],
                },
                input_mode: InputMode::AddKanbanColumns,
                ..a
            }
        },
    }
}

/// The todos placed on a fresh board of `last + 1` columns: done cards in
/// the last column, the others in the first.
pub open spec fn placed_by_done(todos: Seq<TodoView>, last: usize) -> Seq<TodoView> {
    todos.map_values(
        |t: TodoView|
            TodoView {
                column: if t.is_done {
                    last
                } else {
                    0
                },
                ..t
            },
    )
}

/// The kanban cursor back on the first card of the first column.
pub open spec fn kanban_cursor_reset(a: AppView) -> AppView {
    AppView { kanban_board: 0, kanban_column: 0, kanban_item: 0, ..a }
}

/// The typed columns applied to the selected section: empty text turns it
/// back into a plain list; otherwise its columns are the typed names (see
/// `comma_list`) and its cards are placed anew (see `placed_by_done`).
pub open spec fn after_apply_kanban_columns(a: AppView, text: Seq<char>) -> AppView {
    match selected_of(a) {
        None => a,
        Some(s) => if text.len() == 0 {
            kanban_cursor_reset(
                AppView {
                    sections: a.sections.update(
                        a.selected_section as int,
                        SectionView { columns: None, ..s },
                    ),
                    message: Some("\""@ + s.name + "\" is no longer a kanban board"@),
                    ..a
                },
            )
        } else {
            let cols = comma_list(text);
            if cols.len() == 0 {
                with_message(a, "Enter at least one column name"@)
            } else {
                kanban_cursor_reset(
                    AppView {
                        sections: a.sections.update(
                            a.selected_section as int,
                            SectionView {
                                todos: placed_by_done(s.todos, (cols.len() - 1) as usize),
                                columns: Some(cols),
                                ..s
                            },
                        ),
                        message: Some(
                            "\""@ + s.name + "\" is now a kanban board with "@ + decimal(cols.len())
                                + " columns"@,
                        ),
                        ..a
                    },
                )
            }
        },
    }
}

/// Text capture starts for a new section (sections focused) or task
/// (tasks focused); refused without sections, and for calendar and Jira
/// sections.
pub open spec fn after_start_adding(a: AppView) -> AppView {
    if a.focus == Focus::Todos && a.sections.len() == 0 {
        with_message(a, "Create a section first (Tab, then 'a')"@)
    } else if a.focus == Focus::Todos && selected_of(a) is Some && selected_of(a).unwrap().source is Calendar {
        with_message(a, "Calendar events can't be created from here"@)
    } else if a.focus == Focus::Todos && selected_of(a) is Some && selected_of(a).unwrap().source is Jira {
        with_message(a, "Jira issues can't be created from here"@)
    } else {
        AppView {
            input_buffer: seq![],
            input_mode: match a.focus {
                Focus::Sections => InputMode::AddSection,
                Focus::Todos => InputMode::AddTodo,
            },
            ..a
        }
    }
}

/// The save file's path, as text of its components.
pub open spec fn path_components(p: Vec<String>) -> Seq<Seq<char>> {
    strings_view(p@)
}

/// The sections a new save file starts with: one "General" list with three
/// sample tasks.
pub open spec fn is_starter_sections(s: Seq<SectionView>) -> bool {
    &&& s.len() == 1
    &&& s[0].name == "General"@
    &&& s[0].source is Local
    &&& s[0].columns is None
    &&& s[0].boards is None
    &&& is_random_uuid(s[0].id)
    &&& s[0].todos.len() == 3
    &&& s[0].todos[0].text == "Learn Ratatui in depth"@
    &&& s[0].todos[1].text == "Set up persistence with Serde"@
    &&& s[0].todos[2].text == "Exercise in the afternoon"@
    &&& forall|k: int|
        0 <= k < 3 ==> {
            let t = #[trigger] s[0].todos[k];
            &&& !t.is_done
            &&& t.external_id is None
            &&& t.column == 0
            &&& t.board_index == 0
            &&& is_random_uuid(t.id)
        }
}

impl Default for App {
    fn default() -> (r: App)
        ensures
            r@ == fresh_view(seq![]),
    {
        App::with_sections(Vec::new())
    }
}

/// A freshly started application showing `sections`.
pub open spec fn fresh_view(sections: Seq<SectionView>) -> AppView {
    AppView {
        should_quit: false,
        sections,
        selected_section: 0,
        selected_todo: 0,
        kanban_board: 0,
        kanban_column: 0,
        kanban_item: 0,
        focus: Focus::Sections,
        file_path: None,
        message: None,
        input_mode: InputMode::Normal,
        input_buffer: seq![],
    }
}

impl App {
    /// A new application showing `sections`.
    pub fn with_sections(sections: Vec<Section>) -> (r: App)
        ensures
            r@ == fresh_view(sections_view(sections@)),
    {
        let r = App {
            should_quit: false,
            sections,
            selected_section: 0,
            selected_todo: 0,
            kanban_board: 0,
            kanban_column: 0,
            kanban_item: 0,
            focus: Focus::Sections,
            file_path: None,
            message: None,
            input_mode: InputMode::Normal,
            input_buffer: String::new(),
        };
        assert(r@ =~= fresh_view(sections_view(r.sections@)));
        r
    }

    /// Switches focus between the Sections and Todos panels.
    pub fn toggle_focus(&mut self)
        ensures
            final(self)@ == focus_toggled(old(self)@),
    {
        self.focus = match self.focus {
            Focus::Sections => Focus::Todos,
            Focus::Todos => Focus::Sections,
        };
    }

    /// The selected section, if the selection is valid.
    pub fn selected_section(&self) -> (r: Option<&Section>)
        ensures
            match r {
                Some(s) => selected_of(self@) == Some(s@),
                None => selected_of(self@) is None,
            },
    {
        if self.selected_section < self.sections.len() {
            Some(&self.sections[self.selected_section])
        } else {
            None
        }
    }

    /// Resets the task cursor (plain-list or kanban) to its initial position.
    fn reset_todo_cursor(&mut self)
        ensures
            final(self)@ == cursor_reset(old(self)@),
    {
        self.selected_todo = 0;
        self.kanban_board = 0;
        self.kanban_column = 0;
        self.kanban_item = 0;
    }

    fn next_section(&mut self)
        ensures
            final(self)@ == after_next_section(old(self)@),
    {
        if self.sections.len() > 0 {
            let n = self.sections.len();
            let r = self.selected_section % n;
            self.selected_section = if r + 1 == n {
                0
            } else {
                r + 1
            };
            proof {
                lemma_step_mod(old(self).selected_section as int, 1, n as int);
            }
            self.reset_todo_cursor();
        }
    }

    fn previous_section(&mut self)
        ensures
            final(self)@ == after_previous_section(old(self)@),
    {
        if self.sections.len() > 0 {
            self.selected_section = if self.selected_section == 0 {
                self.sections.len() - 1
            } else {
                self.selected_section - 1
            };
            self.reset_todo_cursor();
        }
    }

    /// Switches to another board (stacked row) within a multi-board
    /// section, with wraparound, keeping the current column (clamped if the
    /// new board has fewer columns).
    fn move_kanban_board(&mut self, delta: i32)
        requires
            delta == 1 || delta == -1,
        ensures
            final(self)@ == after_move_kanban_board(old(self)@, delta as int),
    {
        if self.selected_section >= self.sections.len() {
            return ;
        }
        let section = &self.sections[self.selected_section];
        match &section.boards {
            None => {},
            Some(boards) => {
                let len = boards.len();
                if len > 0 {
                    let r = self.kanban_board % len;
                    let kb = if delta > 0 {
                        if r + 1 == len {
                            0
                        } else {
                            r + 1
                        }
                    } else {
                        if r == 0 {
                            len - 1
                        } else {
                            r - 1
                        }
                    };
                    proof {
                        lemma_step_mod(old(self).kanban_board as int, delta as int, len as int);
                    }
                    let ncols = boards[kb].columns.len();
                    let max_col = if ncols == 0 {
                        0
                    } else {
                        ncols - 1
                    };
                    self.kanban_board = kb;
                    self.kanban_item = 0;
                    if self.kanban_column > max_col {
                        self.kanban_column = max_col;
                    }
                }
            },
        }
    }

    /// Number of cards in cell (`board`, `column`) of `todos`.
    fn cell_count(todos: &Vec<Todo>, board: usize, column: usize) -> (r: usize)
        ensures
            r == cell_of(todos_view(todos@), board, column).len(),
    {
        let ghost tv = todos_view(todos@);
        let mut count: usize = 0;
        let mut i: usize = 0;
        while i < todos.len()
            invariant
                0 <= i <= todos@.len(),
                tv == todos_view(todos@),
                count == cell_positions(tv, board, column, i as int).len(),
                count <= i,
            decreases todos@.len() - i,
        {
            if todos[i].board_index == board && todos[i].column == column {
                count = count + 1;
            }
            i = i + 1;
        }
        count
    }

    /// Switches to another card within the current (board, column) cell,
    /// with wraparound. Does nothing if the cell is empty.
    fn move_kanban_item(&mut self, delta: i32)
        requires
            delta == 1 || delta == -1,
        ensures
            final(self)@ == after_move_kanban_item(old(self)@, delta as int),
    {
        if self.selected_section >= self.sections.len() {
            return ;
        }
        let count = Self::cell_count(
            &self.sections[self.selected_section].todos,
            self.kanban_board,
            self.kanban_column,
        );
        if count == 0 {
            return ;
        }
        let r = self.kanban_item % count;
        let item = if delta > 0 {
            if r + 1 == count {
                0
            } else {
                r + 1
            }
        } else {
            if r == 0 {
                count - 1
            } else {
                r - 1
            }
        };
        proof {
            lemma_step_mod(old(self).kanban_item as int, delta as int, count as int);
        }
        self.kanban_item = item;
    }

    fn next_todo(&mut self)
        ensures
            final(self)@ == after_next_todo(old(self)@),
    {
        if self.selected_section >= self.sections.len() {
            return ;
        }
        let section = &self.sections[self.selected_section];
        if section.boards.is_some() {
            let count = Self::cell_count(&section.todos, self.kanban_board, self.kanban_column);
            if count > 0 && self.kanban_item < count - 1 {
                self.kanban_item = self.kanban_item + 1;
            } else {
                self.move_kanban_board(1);
            }
        } else if section.columns.is_some() {
            self.move_kanban_item(1);
        } else if section.todos.len() > 0 {
            let n = section.todos.len();
            let r = self.selected_todo % n;
            proof {
                lemma_step_mod(old(self).selected_todo as int, 1, n as int);
            }
            self.selected_todo = if r + 1 == n {
                0
            } else {
                r + 1
            };
        }
    }

    fn previous_todo(&mut self)
        ensures
            final(self)@ == after_previous_todo(old(self)@),
    {
        if self.selected_section >= self.sections.len() {
            return ;
        }
        let sel = self.selected_section;
        let section = &self.sections[sel];
        if section.boards.is_some() {
            let count = Self::cell_count(&section.todos, self.kanban_board, self.kanban_column);
            if self.kanban_item > 0 && self.kanban_item < count {
                self.kanban_item = self.kanban_item - 1;
            } else {
                self.move_kanban_board(-1);
            }
        } else if section.columns.is_some() {
            self.move_kanban_item(-1);
        } else if section.todos.len() > 0 {
            self.selected_todo = if self.selected_todo == 0 {
                section.todos.len() - 1
            } else {
                self.selected_todo - 1
            };
        }
    }

    /// Advances the selection in the currently focused panel.
    pub fn next(&mut self)
        ensures
            final(self)@ == after_next(old(self)@),
    {
        match self.focus {
            Focus::Sections => self.next_section(),
            Focus::Todos => self.next_todo(),
        }
    }

    /// Moves the selection back in the currently focused panel.
    pub fn previous(&mut self)
        ensures
            final(self)@ == after_previous(old(self)@),
    {
        match self.focus {
            Focus::Sections => self.previous_section(),
            Focus::Todos => self.previous_todo(),
        }
    }

    /// Switches to another column within the current board. Stops at the
    /// edge if there's no column in that direction; lands on empty columns
    /// too.
    fn move_kanban_column(&mut self, delta: i32)
        requires
            delta == 1 || delta == -1,
        ensures
            final(self)@ == after_move_kanban_column(old(self)@, delta as int),
    {
        if self.selected_section >= self.sections.len() {
            return ;
        }
        let section = &self.sections[self.selected_section];
        let num_columns = match &section.boards {
            Some(boards) => {
                if self.kanban_board < boards.len() {
                    boards[self.kanban_board].columns.len()
                } else {
                    return ;
                }
            },
            None => match &section.columns {
                Some(c) => c.len(),
                None => {
                    return ;
                },
            },
        };
        if num_columns == 0 {
            return ;
        }
        if delta < 0 {
            if self.kanban_column == 0 || self.kanban_column - 1 >= num_columns {
                return ;
            }
            self.kanban_column = self.kanban_column - 1;
        } else {
            if self.kanban_column >= num_columns - 1 {
                return ;
            }
            self.kanban_column = self.kanban_column + 1;
        }
        self.kanban_item = 0;
    }

    fn is_current_section_kanban(&self) -> (r: bool)
        ensures
            r == current_is_kanban(self@),
    {
        match self.selected_section() {
            Some(s) => s.columns.is_some() || s.boards.is_some(),
            None => false,
        }
    }

    /// `h`: on a kanban board with focus on Todos, moves the cursor to the
    /// previous column without touching any card. In any other case,
    /// switches panels.
    pub fn on_left(&mut self)
        ensures
            final(self)@ == after_on_left(old(self)@),
    {
        if self.focus == Focus::Todos && self.is_current_section_kanban() {
            self.move_kanban_column(-1);
        } else {
            self.toggle_focus();
        }
    }

    /// Mirrors [`Self::on_left`] but towards the next column.
    pub fn on_right(&mut self)
        ensures
            final(self)@ == after_on_right(old(self)@),
    {
        if self.focus == Focus::Todos && self.is_current_section_kanban() {
            self.move_kanban_column(1);
        } else {
            self.toggle_focus();
        }
    }

    /// Index, within the selected section's todos, of the card under the
    /// current kanban cursor. `None` if the section isn't a kanban board,
    /// or the cell has no card at that position.
    fn current_kanban_todo_index(&self) -> (r: Option<usize>)
        ensures
            match r {
                Some(i) => current_card(self@) == Some(i as int),
                None => current_card(self@) is None,
            },
    {
        if self.selected_section >= self.sections.len() {
            return None;
        }
        let section = &self.sections[self.selected_section];
        if section.columns.is_none() && section.boards.is_none() {
            return None;
        }
        let ghost tv = todos_view(section.todos@);
        let mut seen: usize = 0;
        let mut i: usize = 0;
        while i < section.todos.len()
            invariant
                0 <= i <= section.todos@.len(),
                tv == todos_view(section.todos@),
                self.selected_section < self.sections@.len(),
                *section == self.sections@[self.selected_section as int],
                section.columns is Some || section.boards is Some,
                seen == cell_positions(tv, self.kanban_board, self.kanban_column, i as int).len(),
                seen <= self.kanban_item,
                seen <= i,
            decreases section.todos@.len() - i,
        {
            let t = &section.todos[i];
            if t.board_index == self.kanban_board && t.column == self.kanban_column {
                if seen == self.kanban_item {
                    proof {
                        assert(cell_positions(tv, self.kanban_board, self.kanban_column, i + 1)
                            == cell_positions(
                            tv,
                            self.kanban_board,
                            self.kanban_column,
                            i as int,
                        ).push(i as int));
                        lemma_cell_prefix(tv, self.kanban_board, self.kanban_column, i + 1, tv.len() as int);
                        assert(selected_of(self@) == Some(self.sections@[self.selected_section as int]@));
                        assert(cell_positions(tv, self.kanban_board, self.kanban_column, i + 1)[self.kanban_item as int] == i);
                        assert(cell_of(tv, self.kanban_board, self.kanban_column)[self.kanban_item as int] == i);
                    }
                    return Some(i);
                }
                seen = seen + 1;
            }
            i = i + 1;
        }
        None
    }

    /// Starts editing the selected section's kanban columns. Pre-fills the
    /// input with its current columns (if any) so they can be edited.
    pub fn start_editing_columns(&mut self)
        ensures
            final(self)@ == after_start_editing_columns(old(self)@),
    {
        if self.selected_section >= self.sections.len() {
            self.message = Some(String::from_str("No section is selected"));
            return ;
        }
        let section = &self.sections[self.selected_section];
        if section.boards.is_some() {
            self.message = Some(
                String::from_str(
                    "This section already groups several Jira boards; its columns can't be edited by hand",
                ),
            );
            return ;
        }
        let text = match &section.columns {
            Some(cols) => join_strings(cols, ", "),
            None => String::new(),
        };
        self.input_buffer = text;
        self.input_mode = InputMode::AddKanbanColumns;
        proof {
            assert(selected_of(old(self)@) == Some(old(self).sections@[old(self).selected_section as int]@));
        }
    }

    /// Applies the columns typed by the user to the selected section. Empty
    /// text reverts the section to a plain list. Existing cards land in the
    /// first column, except those already marked done, which go to the
    /// last one.
    fn apply_kanban_columns(&mut self, text: &str)
        ensures
            final(self)@ == after_apply_kanban_columns(old(self)@, text@),
    {
        if self.selected_section >= self.sections.len() {
            return ;
        }
        let sel = self.selected_section;
        let ghost a = self@;
        let ghost sv = self.sections@[sel as int]@;
        assert(selected_of(a) == Some(sv));
        if text.unicode_len() == 0 {
            let mut sec = self.sections.remove(sel);
            let msg = concat3("\"", sec.name.as_str(), "\" is no longer a kanban board");
            sec.columns = None;
            assert(sec@ == (SectionView { columns: None, ..sv }));
            self.sections.insert(sel, sec);
            self.message = Some(msg);
            self.kanban_board = 0;
            self.kanban_column = 0;
            self.kanban_item = 0;
            proof {
                lemma_sections_replace(old(self).sections@, sel as int, self.sections@, sec);
            }
            assert(self@ =~= after_apply_kanban_columns(a, text@));
            return ;
        }
        let columns = split_comma_list(text);
        if columns.len() == 0 {
            self.message = Some(String::from_str("Enter at least one column name"));
            return ;
        }
        let last = columns.len() - 1;
        let mut sec = self.sections.remove(sel);
        let ghost sec0 = sec;
        assert(sec0@ == sv);
        let mut k: usize = 0;
        while k < sec.todos.len()
            invariant
                0 <= k <= sec.todos@.len(),
                sec.id == sec0.id,
                sec.name == sec0.name,
                sec.source == sec0.source,
                sec.columns == sec0.columns,
                sec.boards == sec0.boards,
                sec0@ == sv,
                sec.todos@.len() == sv.todos.len(),
                forall|j: int|
                    0 <= j < k ==> (#[trigger] sec.todos@[j])@ == placed_by_done(sv.todos, last)[j],
                forall|j: int| k <= j < sec.todos@.len() ==> (#[trigger] sec.todos@[j])@ == sv.todos[j],
            decreases sec.todos@.len() - k,
        {
            let t = &sec.todos[k];
            let col = if t.is_done {
                last
            } else {
                0
            };
            let nt = todo_with_column(t, col);
            sec.todos.set(k, nt);
            k = k + 1;
        }
        assert(todos_view(sec.todos@) =~= placed_by_done(sv.todos, last));
        let ghost cols = comma_list(text@);
        assert(strings_view(columns@) == cols);
        assert(columns@.len() == cols.len());
        let count = usize_to_string(columns.len());
        let mut msg = concat3("\"", sec.name.as_str(), "\" is now a kanban board with ");
        msg.append(count.as_str());
        msg.append(" columns");
        assert(msg@ =~= "\""@ + sv.name + "\" is now a kanban board with "@ + decimal(cols.len())
            + " columns"@);
        sec.columns = Some(columns);
        assert(sec@ =~= (SectionView {
            todos: placed_by_done(sv.todos, (cols.len() - 1) as usize),
            columns: Some(cols),
            ..sv
        }));
        self.sections.insert(sel, sec);
        self.message = Some(msg);
        self.kanban_board = 0;
        self.kanban_column = 0;
        self.kanban_item = 0;
        proof {
            lemma_sections_replace(old(self).sections@, sel as int, self.sections@, sec);
        }
        assert(self@ =~= after_apply_kanban_columns(a, text@));
    }

    /// Starts capturing text to add a section or a task, depending on the
    /// focused panel.
    pub fn start_adding(&mut self)
        ensures
            final(self)@ == after_start_adding(old(self)@),
    {
        if self.focus == Focus::Todos && self.sections.len() == 0 {
            self.message = Some(String::from_str("Create a section first (Tab, then 'a')"));
            return ;
        }
        if self.focus == Focus::Todos && self.selected_section < self.sections.len() {
            match &self.sections[self.selected_section].source {
                SectionSource::Calendar { .. } => {
                    self.message = Some(
                        String::from_str("Calendar events can't be created from here"),
                    );
                    return ;
                },
                SectionSource::Jira { .. } => {
                    self.message = Some(String::from_str("Jira issues can't be created from here"));
                    return ;
                },
                _ => {},
            }
        }
        self.input_buffer = String::new();
        self.input_mode = match self.focus {
            Focus::Sections => InputMode::AddSection,
            Focus::Todos => InputMode::AddTodo,
        };
    }

    /// Where to write the sections, or, without a destination file, the
    /// message saying so. Serializing and writing are the caller's job.
    pub fn save_todos(&mut self) -> (r: Option<Vec<String>>)
        ensures
            match old(self)@.file_path {
                None => r is None && final(self)@ == with_message(
                    old(self)@,
                    "No destination file: use `todos <file.json>`"@,
                ),
                Some(p) => r is Some && path_components(r.unwrap()) == p && final(self)@ == old(
                    self,
                )@,
            },
    {
        match &self.file_path {
            None => {
                self.message = Some(String::from_str("No destination file: use `todos <file.json>`"));
                None
            },
            Some(p) => {
                let r = copy_strings(p);
                Some(r)
            },
        }
    }

    /// The sections a new save file starts with.
    pub fn default_sections() -> (r: Vec<Section>)
        ensures
            is_starter_sections(sections_view(r@)),
    {
        let mut todos = Vec::new();
        todos.push(Todo::new(String::from_str("Learn Ratatui in depth")));
        todos.push(Todo::new(String::from_str("Set up persistence with Serde")));
        todos.push(Todo::new(String::from_str("Exercise in the afternoon")));
        let mut r = Vec::new();
        r.push(
            Section {
                id: new_id(),
                name: String::from_str("General"),
                todos,
                source: SectionSource::Local,
                columns: None,
                boards: None,
            },
        );
        r
    }

    /// A new application showing the starter sections.
    pub fn new() -> (r: App)
        ensures
            r@ == fresh_view(r@.sections),
            is_starter_sections(r@.sections),
    {
        Self::with_sections(Self::default_sections())
    }

    /// Cancels the text capture in progress without creating anything.
    pub fn cancel_input(&mut self)
        ensures
            final(self)@ == (AppView { input_mode: InputMode::Normal, input_buffer: seq![], ..old(self)@ }),
    {
        self.input_mode = InputMode::Normal;
        self.input_buffer = String::new();
    }

    /// Sets `should_quit` to quit the application.
    pub fn quit(&mut self)
        ensures
            final(self)@ == (AppView { should_quit: true, ..old(self)@ }),
    {
        self.should_quit = true;
    }
}

/// Stepping a cursor by one, with wraparound over `l` positions.
pub proof fn lemma_step_mod(b: int, d: int, l: int)
    requires
        l > 0,
        b >= 0,
        d == 1 || d == -1,
    ensures
        0 <= b % l < l,
        (b + d) % l == if d == 1 {
            if b % l + 1 == l {
                0
            } else {
                b % l + 1
            }
        } else {
            if b % l == 0 {
                l - 1
            } else {
                b % l - 1
            }
        },
{
    let q = b / l;
    let r = b % l;
    vstd::arithmetic::div_mod::lemma_fundamental_div_mod(b, l);
    vstd::arithmetic::div_mod::lemma_mod_bound(b, l);
    assert(b == l * q + r);
    assert((q + 1) * l == q * l + l) by (nonlinear_arith);
    assert((q - 1) * l == q * l - l) by (nonlinear_arith);
    assert(l * q == q * l) by (nonlinear_arith);
    if d == 1 {
        if r + 1 == l {
            vstd::arithmetic::div_mod::lemma_fundamental_div_mod_converse(b + d, l, q + 1, 0);
        } else {
            vstd::arithmetic::div_mod::lemma_fundamental_div_mod_converse(b + d, l, q, r + 1);
        }
    } else {
        if r == 0 {
            vstd::arithmetic::div_mod::lemma_fundamental_div_mod_converse(b + d, l, q - 1, l - 1);
        } else {
            vstd::arithmetic::div_mod::lemma_fundamental_div_mod_converse(b + d, l, q, r - 1);
        }
    }
}

/// Replacing the section at `i` changes only that section's view.
pub proof fn lemma_sections_replace(old_s: Seq<Section>, i: int, new_s: Seq<Section>, sec: Section)
    requires
        0 <= i < old_s.len(),
        new_s == old_s.remove(i).insert(i, sec),
    ensures
        sections_view(new_s) == sections_view(old_s).update(i, sec@),
{
    assert(sections_view(new_s) =~= sections_view(old_s).update(i, sec@));
}

fn copy_string(s: &String) -> (r: String)
    ensures
        r == *s,
{
    s.clone()
}

fn copy_opt_string(o: &Option<String>) -> (r: Option<String>)
    ensures
        r == *o,
{
    match o {
        Some(s) => Some(s.clone()),
        None => None,
    }
}

fn copy_strings(v: &Vec<String>) -> (r: Vec<String>)
    ensures
        r@ == v@,
{
    let mut r: Vec<String> = Vec::new();
    let mut i: usize = 0;
    while i < v.len()
        invariant
            0 <= i <= v@.len(),
            r@ == v@.take(i as int),
        decreases v@.len() - i,
    {
        r.push(copy_string(&v[i]));
        assert(v@.take(i + 1) =~= v@.take(i as int).push(v@[i as int]));
        i = i + 1;
    }
    assert(v@.take(v@.len() as int) =~= v@);
    r
}

/// A copy of `t` in column `column`.
fn todo_with_column(t: &Todo, column: usize) -> (r: Todo)
    ensures
        r@ == (TodoView { column, ..t@ }),
{
    Todo {
        id: t.id,
        text: copy_string(&t.text),
        is_done: t.is_done,
        external_id: copy_opt_string(&t.external_id),
        column,
        board_index: t.board_index,
    }
}

/// The cells of a prefix are a prefix of the cells of the whole.
pub proof fn lemma_cell_prefix(todos: Seq<TodoView>, board: usize, column: usize, m: int, n: int)
    requires
        0 <= m <= n <= todos.len(),
    ensures
        cell_positions(todos, board, column, m).len() <= cell_positions(todos, board, column, n).len(),
        forall|k: int|
            0 <= k < cell_positions(todos, board, column, m).len() ==> cell_positions(
                todos,
                board,
                column,
                n,
            )[k] == #[trigger] cell_positions(todos, board, column, m)[k],
    decreases n - m,
{
    if m < n {
        lemma_cell_prefix(todos, board, column, m, n - 1);
    }
}


/// An outside call as plain values.
pub enum CallView {
    SetReminderCompleted { identifier: Seq<char>, completed: bool },
    SetIssueStatus { issue_key: Seq<char>, status_name: Seq<char> },
    CreateReminder { list: Seq<char>, title: Seq<char> },
}

impl View for ExternalCall {
    type V = CallView;

    open spec fn view(&self) -> CallView {
        match self {
            ExternalCall::SetReminderCompleted { identifier, completed } => {
                CallView::SetReminderCompleted { identifier: identifier@, completed: *completed }
            },
            ExternalCall::SetIssueStatus { issue_key, status_name } => CallView::SetIssueStatus {
                issue_key: issue_key@,
                status_name: status_name@,
            },
            ExternalCall::CreateReminder { list, title } => CallView::CreateReminder {
                list: list@,
                title: title@,
            },
        }
    }
}

/// What follows a successful outside call, as plain values.
pub enum FollowupView {
    CardMove { todo: usize, column: usize, is_last: bool, column_name: Seq<char> },
    Toggle { todo: usize, done: bool },
    AddReminder { title: Seq<char> },
}

impl View for Followup {
    type V = FollowupView;

    open spec fn view(&self) -> FollowupView {
        match self {
            Followup::CardMove { todo, column, is_last, column_name } => FollowupView::CardMove {
                todo: *todo,
                column: *column,
                is_last: *is_last,
                column_name: column_name@,
            },
            Followup::Toggle { todo, done } => FollowupView::Toggle { todo: *todo, done: *done },
            Followup::AddReminder { title } => FollowupView::AddReminder { title: title@ },
        }
    }
}

/// A pending outside call and its follow-up, as plain values.
pub struct PendingView {
    pub call: CallView,
    pub followup: FollowupView,
}

impl View for PendingSync {
    type V = PendingView;

    open spec fn view(&self) -> PendingView {
        PendingView { call: self.call@, followup: self.followup@ }
    }
}

pub open spec fn pending_view(p: Option<PendingSync>) -> Option<PendingView> {
    match p {
        Some(x) => Some(x@),
        None => None,
    }
}

/// The columns of the board that card `t` of section `s` sits on: its own
/// board's columns in a multi-board section, else the section's columns.
pub open spec fn board_columns_of(s: SectionView, t: TodoView) -> Option<Seq<Seq<char>>> {
    match s.boards {
        Some(b) => if t.board_index < b.len() {
            Some(b[t.board_index as int].columns)
        } else {
            None
        },
        None => match s.columns {
            Some(c) => Some(c),
            None => Some(seq![]),
        },
    }
}

/// The column a card in `column` lands in when moved by `delta` on a board
/// of `n` columns (its column first clamped to the board), if there is one.
pub open spec fn moved_column(n: nat, column: usize, delta: int) -> Option<nat> {
    let cur = if column <= saturating_pred(n) {
        column as int
    } else {
        saturating_pred(n) as int
    };
    let c = cur + delta;
    if c < 0 || c >= n {
        None
    } else {
        Some(c as nat)
    }
}

/// The outside call that reflects a card moving to the column
/// `column_name`: Reminders only know done or not done (done meaning the
/// last column); Jira moves the issue to the status of that name. Nothing
/// for local or calendar sections, or cards not linked to an outside item.
pub open spec fn column_sync_call(
    source: SourceView,
    external_id: Option<Seq<char>>,
    column_name: Seq<char>,
    is_last: bool,
) -> Option<CallView> {
    match external_id {
        None => None,
        Some(id) => match source {
            SourceView::Reminders(_) => Some(
                CallView::SetReminderCompleted { identifier: id, completed: is_last },
            ),
            SourceView::Jira(_) => Some(
                CallView::SetIssueStatus { issue_key: id, status_name: column_name },
            ),
            _ => None,
        },
    }
}

/// The outside call that reflects a task's new done state: only Reminders
/// know it.
pub open spec fn done_sync_call(source: SourceView, external_id: Option<Seq<char>>, done: bool) -> Option<
    CallView,
> {
    match external_id {
        None => None,
        Some(id) => match source {
            SourceView::Reminders(_) => Some(
                CallView::SetReminderCompleted { identifier: id, completed: done },
            ),
            _ => None,
        },
    }
}

/// The sections with task `todo` of the selected section set to `column`
/// and `is_done`, when both exist.
pub open spec fn card_set(a: AppView, todo: usize, column: usize, is_done: bool) -> Seq<SectionView> {
    match selected_of(a) {
        Some(s) => if todo < s.todos.len() {
            a.sections.update(
                a.selected_section as int,
                SectionView {
                    todos: s.todos.update(todo as int, TodoView { column, is_done, ..s.todos[todo as int] }),
                    ..s
                },
            )
        } else {
            a.sections
        },
        None => a.sections,
    }
}

/// The sections with task `todo` of the selected section marked `done`.
pub open spec fn done_set(a: AppView, todo: usize, done: bool) -> Seq<SectionView> {
    match selected_of(a) {
        Some(s) => if todo < s.todos.len() {
            card_set(a, todo, s.todos[todo as int].column, done)
        } else {
            a.sections
        },
        None => a.sections,
    }
}

/// Card `todo` moved to `column` (done exactly when it is the last one);
/// the cursor follows it.
pub open spec fn after_card_move(
    a: AppView,
    todo: usize,
    column: usize,
    is_last: bool,
    column_name: Seq<char>,
) -> AppView {
    AppView {
        sections: card_set(a, todo, column, is_last),
        kanban_column: column,
        kanban_item: 0,
        message: Some("Moved to \""@ + column_name + "\""@),
        ..a
    }
}

/// What `move_card(delta)` does: the new state, and the outside call to
/// make first, if any (then the state is left as it was).
pub open spec fn move_card_outcome(a: AppView, delta: int) -> (AppView, Option<PendingView>) {
    if a.focus != Focus::Todos {
        (a, None)
    } else {
        match selected_of(a) {
            None => (a, None),
            Some(s) => if s.columns is None && s.boards is None {
                (with_message(a, "This section isn't a kanban board (press K to convert it)"@), None)
            } else {
                match current_card(a) {
                    None => (with_message(a, "There's no card in this column"@), None),
                    Some(i) => {
                        let t = s.todos[i];
                        match board_columns_of(s, t) {
                            None => (a, None),
                            Some(cols) => match moved_column(cols.len(), t.column, delta) {
                                None => (a, None),
                                Some(c) => {
                                    let is_last = c == cols.len() - 1;
                                    let name = cols[c as int];
                                    match column_sync_call(s.source, t.external_id, name, is_last) {
                                        None => (
                                            after_card_move(a, i as usize, c as usize, is_last, name),
                                            None,
                                        ),
                                        Some(call) => (
                                            a,
                                            Some(
                                                PendingView {
                                                    call,
                                                    followup: FollowupView::CardMove {
                                                        todo: i as usize,
                                                        column: c as usize,
                                                        is_last,
                                                        column_name: name,
                                                    },
                                                },
                                            ),
                                        ),
                                    }
                                },
                            },
                        }
                    },
                }
            },
        }
    }
}

/// What `toggle_todo` does: the new state, and the outside call to make
/// first, if any.
pub open spec fn toggle_outcome(a: AppView) -> (AppView, Option<PendingView>) {
    if a.focus != Focus::Todos {
        (a, None)
    } else {
        match selected_of(a) {
            None => (a, None),
            Some(s) => if s.source is Calendar {
                (with_message(a, "Calendar events can't be marked done"@), None)
            } else if s.columns is Some || s.boards is Some {
                (with_message(a, "On a kanban board, move the card with H/L to the last column"@), None)
            } else if a.selected_todo >= s.todos.len() {
                (a, None)
            } else {
                let t = s.todos[a.selected_todo as int];
                let d = !t.is_done;
                match done_sync_call(s.source, t.external_id, d) {
                    None => (AppView { sections: done_set(a, a.selected_todo, d), ..a }, None),
                    Some(call) => (
                        a,
                        Some(
                            PendingView {
                                call,
                                followup: FollowupView::Toggle { todo: a.selected_todo, done: d },
                            },
                        ),
                    ),
                }
            },
        }
    }
}

/// Replacing element `i` changes only that element's view.
pub proof fn lemma_todos_replace(old_s: Seq<Todo>, i: int, new_s: Seq<Todo>, t: Todo)
    requires
        0 <= i < old_s.len(),
        new_s == old_s.remove(i).insert(i, t),
    ensures
        todos_view(new_s) == todos_view(old_s).update(i, t@),
{
    assert(todos_view(new_s) =~= todos_view(old_s).update(i, t@));
}

impl App {
    /// Sets the column and done state of task `todo` of the selected
    /// section, when both exist.
    fn set_card(&mut self, todo: usize, column: usize, is_done: bool)
        ensures
            final(self)@ == (AppView { sections: card_set(old(self)@, todo, column, is_done), ..old(self)@ }),
    {
        if self.selected_section >= self.sections.len() {
            return ;
        }
        let sel = self.selected_section;
        if todo >= self.sections[sel].todos.len() {
            return ;
        }
        let ghost a = self@;
        let ghost sv = self.sections@[sel as int]@;
        assert(selected_of(a) == Some(sv));
        let mut sec = self.sections.remove(sel);
        let ghost todos0 = sec.todos@;
        let mut t = sec.todos.remove(todo);
        t.column = column;
        t.is_done = is_done;
        sec.todos.insert(todo, t);
        proof {
            lemma_todos_replace(todos0, todo as int, sec.todos@, t);
        }
        assert(sec@ =~= (SectionView {
            todos: sv.todos.update(todo as int, TodoView { column, is_done, ..sv.todos[todo as int] }),
            ..sv
        }));
        self.sections.insert(sel, sec);
        proof {
            lemma_sections_replace(old(self).sections@, sel as int, self.sections@, sec);
        }
        assert(self@ =~= (AppView { sections: card_set(a, todo, column, is_done), ..a }));
    }
}


impl App {
    /// Moves the card under the kanban cursor `delta` columns (left for a
    /// negative `delta`), within its own board. When the section is linked
    /// to Reminders or Jira and the card to an item there, the move is only
    /// made once the outside system has followed it: the call to make is
    /// handed back, and the caller reports its outcome to `complete_sync`.
    /// Otherwise the card moves at once (done exactly when it lands in the
    /// last column) and the cursor follows it.
    pub fn move_card(&mut self, delta: i32) -> (r: Option<PendingSync>)
        ensures
            (final(self)@, pending_view(r)) == move_card_outcome(old(self)@, delta as int),
    {
        let ghost a = self@;
        if self.focus != Focus::Todos {
            return None;
        }
        if self.selected_section >= self.sections.len() {
            return None;
        }
        let sel = self.selected_section;
        let ghost sv = self.sections@[sel as int]@;
        assert(selected_of(a) == Some(sv));
        if self.sections[sel].columns.is_none() && self.sections[sel].boards.is_none() {
            self.message = Some(
                String::from_str("This section isn't a kanban board (press K to convert it)"),
            );
            return None;
        }
        let idx = match self.current_kanban_todo_index() {
            Some(i) => i,
            None => {
                self.message = Some(String::from_str("There's no card in this column"));
                return None;
            },
        };
        proof {
            lemma_current_card_in_range(a);
        }
        let section = &self.sections[sel];
        let todo = &section.todos[idx];
        assert(todo@ == sv.todos[idx as int]);
        let n: usize = match &section.boards {
            Some(boards) => {
                if todo.board_index < boards.len() {
                    boards[todo.board_index].columns.len()
                } else {
                    return None;
                }
            },
            None => match &section.columns {
                Some(c) => c.len(),
                None => 0,
            },
        };
        let ghost cols = board_columns_of(sv, todo@).unwrap();
        assert(cols.len() == n);
        let cur: usize = if n == 0 {
            0
        } else if todo.column < n - 1 {
            todo.column
        } else {
            n - 1
        };
        let new_col: usize;
        if delta >= 0 {
            let d = delta as usize;
            if n == 0 || d > n - 1 - cur {
                return None;
            }
            new_col = cur + d;
        } else {
            let d = (0i64 - delta as i64) as usize;
            if d > cur {
                return None;
            }
            new_col = cur - d;
        }
        assert(moved_column(n as nat, todo.column, delta as int) == Some(new_col as nat));
        let is_last = new_col == n - 1;
        let column_name = match &section.boards {
            Some(boards) => copy_string(&boards[todo.board_index].columns[new_col]),
            None => match &section.columns {
                Some(c) => copy_string(&c[new_col]),
                None => String::new(),
            },
        };
        assert(column_name@ == cols[new_col as int]);
        let call = match &todo.external_id {
            None => None,
            Some(id) => match &section.source {
                SectionSource::Reminders { .. } => Some(
                    ExternalCall::SetReminderCompleted { identifier: copy_string(id), completed: is_last },
                ),
                SectionSource::Jira { .. } => Some(
                    ExternalCall::SetIssueStatus {
                        issue_key: copy_string(id),
                        status_name: copy_string(&column_name),
                    },
                ),
                _ => None,
            },
        };
        match call {
            None => {
                self.set_card(idx, new_col, is_last);
                self.kanban_column = new_col;
                self.kanban_item = 0;
                let msg = concat3("Moved to \"", column_name.as_str(), "\"");
                self.message = Some(msg);
                assert(self@ =~= after_card_move(a, idx, new_col, is_last, cols[new_col as int]));
                None
            },
            Some(call) => {
                Some(
                    PendingSync {
                        call,
                        followup: Followup::CardMove { todo: idx, column: new_col, is_last, column_name },
                    },
                )
            },
        }
    }

    /// Marks the selected task of a plain-list section done or not done.
    /// When the section is a Reminders list and the task a reminder, the
    /// change is only made once Reminders has followed it: the call to
    /// make is handed back, and the caller reports its outcome to
    /// `complete_sync`.
    pub fn toggle_todo(&mut self) -> (r: Option<PendingSync>)
        ensures
            (final(self)@, pending_view(r)) == toggle_outcome(old(self)@),
    {
        let ghost a = self@;
        if self.focus != Focus::Todos {
            return None;
        }
        if self.selected_section >= self.sections.len() {
            return None;
        }
        let sel = self.selected_section;
        let ghost sv = self.sections@[sel as int]@;
        assert(selected_of(a) == Some(sv));
        let section = &self.sections[sel];
        if let SectionSource::Calendar { .. } = &section.source {
            self.message = Some(String::from_str("Calendar events can't be marked done"));
            return None;
        }
        if section.columns.is_some() || section.boards.is_some() {
            self.message = Some(
                String::from_str("On a kanban board, move the card with H/L to the last column"),
            );
            return None;
        }
        if self.selected_todo >= section.todos.len() {
            return None;
        }
        let ti = self.selected_todo;
        let todo = &section.todos[ti];
        let new_done = !todo.is_done;
        let column = todo.column;
        let call = match &todo.external_id {
            None => None,
            Some(id) => match &section.source {
                SectionSource::Reminders { .. } => Some(
                    ExternalCall::SetReminderCompleted { identifier: copy_string(id), completed: new_done },
                ),
                _ => None,
            },
        };
        match call {
            None => {
                self.set_card(ti, column, new_done);
                None
            },
            Some(call) => Some(PendingSync { call, followup: Followup::Toggle { todo: ti, done: new_done } }),
        }
    }
}

/// The card under the kanban cursor is a task of the selected section.
pub proof fn lemma_current_card_in_range(a: AppView)
    requires
        current_card(a) is Some,
    ensures
        selected_of(a) is Some,
        0 <= current_card(a).unwrap() < selected_of(a).unwrap().todos.len(),
{
    let s = selected_of(a).unwrap();
    lemma_cell_positions(s.todos, a.kanban_board, a.kanban_column, s.todos.len() as int);
    let cell = cell_of(s.todos, a.kanban_board, a.kanban_column);
    assert(cell[a.kanban_item as int] == current_card(a).unwrap());
}


/// Text capture over: back to normal mode with an empty buffer.
pub open spec fn input_closed(a: AppView) -> AppView {
    AppView { input_mode: InputMode::Normal, input_buffer: seq![], ..a }
}

/// Task `t` appended to the selected section, and selected.
pub open spec fn with_todo_added(a: AppView, t: TodoView) -> AppView {
    match selected_of(a) {
        Some(s) => AppView {
            sections: a.sections.update(a.selected_section as int, SectionView { todos: s.todos.push(t), ..s }),
            selected_todo: s.todos.len() as usize,
            ..a
        },
        None => a,
    }
}

/// A new local task with text `text` and identifier `id`.
pub open spec fn fresh_todo(id: u128, text: Seq<char>, external_id: Option<Seq<char>>) -> TodoView {
    TodoView { id, text, is_done: false, external_id, column: 0, board_index: 0 }
}

/// Whether confirming the input creates a section or task locally (which
/// then gets a fresh random identifier).
pub open spec fn confirm_creates(a: AppView) -> bool {
    let text = trimmed(a.input_buffer);
    match a.input_mode {
        InputMode::AddSection => text.len() > 0,
        InputMode::AddTodo => text.len() > 0 && selected_of(a) is Some && !(selected_of(
            a,
        ).unwrap().source is Reminders),
        _ => false,
    }
}

/// What `confirm_input` does, `id` being the identifier of what it creates.
pub open spec fn confirm_outcome(a: AppView, id: u128) -> (AppView, Option<PendingView>) {
    let text = trimmed(a.input_buffer);
    match a.input_mode {
        InputMode::AddSection => if text.len() > 0 {
            (
                input_closed(
                    AppView {
                        sections: a.sections.push(
                            SectionView {
                                id,
                                name: text,
                                todos: seq![],
                                source: SourceView::Local,
                                columns: None,
                                boards: None,
                            },
                        ),
                        selected_section: a.sections.len() as usize,
                        selected_todo: 0,
                        ..a
                    },
                ),
                None,
            )
        } else {
            (input_closed(a), None)
        },
        InputMode::AddTodo => if text.len() > 0 && selected_of(a) is Some {
            match selected_of(a).unwrap().source {
                SourceView::Reminders(list) => (
                    input_closed(a),
                    Some(
                        PendingView {
                            call: CallView::CreateReminder { list, title: text },
                            followup: FollowupView::AddReminder { title: text },
                        },
                    ),
                ),
                _ => (input_closed(with_todo_added(a, fresh_todo(id, text, None))), None),
            }
        } else {
            (input_closed(a), None)
        },
        InputMode::AddKanbanColumns => (input_closed(after_apply_kanban_columns(a, text)), None),
        InputMode::Normal => (input_closed(a), None),
    }
}

/// An outside call's outcome as plain values.
pub open spec fn outcome_view(o: Result<Option<String>, String>) -> Result<Option<Seq<char>>, Seq<char>> {
    match o {
        Ok(c) => Ok(opt_str_view(c)),
        Err(e) => Err(e@),
    }
}

/// Whether completing `p` with `outcome` adds a task (which then gets a
/// fresh random identifier).
pub open spec fn sync_adds_todo(p: PendingView, outcome: Result<Option<Seq<char>>, Seq<char>>) -> bool {
    outcome is Ok && p.followup is AddReminder
}

/// The state once the outside call of `p` came back with `outcome`: on
/// success the follow-up is applied (`id` identifying a task it adds), on
/// failure the error is shown.
pub open spec fn sync_outcome(
    a: AppView,
    p: PendingView,
    outcome: Result<Option<Seq<char>>, Seq<char>>,
    id: u128,
) -> AppView {
    match outcome {
        Err(e) => with_message(
            a,
            match p.followup {
                FollowupView::AddReminder { .. } => "Error creating the reminder: "@ + e,
                _ => "Error syncing: "@ + e,
            },
        ),
        Ok(created) => match p.followup {
            FollowupView::CardMove { todo, column, is_last, column_name } => after_card_move(
                a,
                todo,
                column,
                is_last,
                column_name,
            ),
            FollowupView::Toggle { todo, done } => AppView { sections: done_set(a, todo, done), ..a },
            FollowupView::AddReminder { title } => with_todo_added(a, fresh_todo(id, title, created)),
        },
    }
}

impl App {
    /// Appends `t` to the selected section and selects it, when a section
    /// is selected.
    fn add_todo(&mut self, t: Todo)
        ensures
            final(self)@ == with_todo_added(old(self)@, t@),
    {
        if self.selected_section >= self.sections.len() {
            return ;
        }
        let sel = self.selected_section;
        let ghost a = self@;
        let ghost sv = self.sections@[sel as int]@;
        assert(selected_of(a) == Some(sv));
        let mut sec = self.sections.remove(sel);
        let ghost todos0 = sec.todos@;
        sec.todos.push(t);
        assert(todos_view(sec.todos@) =~= todos_view(todos0).push(t@));
        let n = sec.todos.len();
        assert(sec@ =~= (SectionView { todos: sv.todos.push(t@), ..sv }));
        self.sections.insert(sel, sec);
        proof {
            lemma_sections_replace(old(self).sections@, sel as int, self.sections@, sec);
        }
        self.selected_todo = n - 1;
        assert(self@ =~= with_todo_added(a, t@));
    }

    /// Confirms the captured text (trimmed), creating the corresponding
    /// section or task, or applying the typed kanban columns. A task for a
    /// Reminders list is only added once the reminder exists: the call that
    /// creates it is handed back, and the caller reports its outcome to
    /// `complete_sync`. Text capture ends in every case.
    pub fn confirm_input(&mut self) -> (r: Option<PendingSync>)
        ensures
            confirm_creates(old(self)@) ==> exists|id: u128|
                is_random_uuid(id) && (final(self)@, pending_view(r)) == #[trigger] confirm_outcome(
                    old(self)@,
                    id,
                ),
            !confirm_creates(old(self)@) ==> (final(self)@, pending_view(r)) == confirm_outcome(
                old(self)@,
                0,
            ),
    {
        let ghost a = self@;
        let text = trim(self.input_buffer.as_str());
        let mut r: Option<PendingSync> = None;
        let ghost mut id: u128 = 0;
        match self.input_mode {
            InputMode::AddSection => {
                if text.unicode_len() > 0 {
                    let sec = Section::new(text);
                    proof {
                        id = sec.id;
                    }
                    assert(sec@ =~= (SectionView {
                        id,
                        name: trimmed(a.input_buffer),
                        todos: seq![],
                        source: SourceView::Local,
                        columns: None,
                        boards: None,
                    }));
                    self.sections.push(sec);
                    assert(sections_view(self.sections@) =~= sections_view(old(self).sections@).push(sec@));
                    self.selected_section = self.sections.len() - 1;
                    self.selected_todo = 0;
                }
            },
            InputMode::AddTodo => {
                if text.unicode_len() > 0 && self.selected_section < self.sections.len() {
                    let ghost sv = self.sections@[self.selected_section as int]@;
                    assert(selected_of(a) == Some(sv));
                    let list = match &self.sections[self.selected_section].source {
                        SectionSource::Reminders { list } => Some(copy_string(list)),
                        _ => None,
                    };
                    match list {
                        Some(list) => {
                            let title = copy_string(&text);
                            r = Some(
                                PendingSync {
                                    call: ExternalCall::CreateReminder { list, title },
                                    followup: Followup::AddReminder { title: text },
                                },
                            );
                        },
                        None => {
                            let t = Todo::new(text);
                            proof {
                                id = t.id;
                            }
                            assert(t@ == fresh_todo(id, trimmed(a.input_buffer), None));
                            self.add_todo(t);
                        },
                    }
                }
            },
            InputMode::AddKanbanColumns => {
                self.apply_kanban_columns(text.as_str());
            },
            InputMode::Normal => {},
        }
        self.input_mode = InputMode::Normal;
        self.input_buffer = String::new();
        assert((self@, pending_view(r)) == confirm_outcome(a, id));
        r
    }

    /// Finishes what `move_card`, `toggle_todo` or `confirm_input` handed
    /// back, once its outside call came back with `outcome` (on success,
    /// the identifier the call created, if any; else the error's text).
    pub fn complete_sync(&mut self, pending: PendingSync, outcome: Result<Option<String>, String>)
        ensures
            sync_adds_todo(pending@, outcome_view(outcome)) ==> exists|id: u128|
                is_random_uuid(id) && final(self)@ == #[trigger] sync_outcome(
                    old(self)@,
                    pending@,
                    outcome_view(outcome),
                    id,
                ),
            !sync_adds_todo(pending@, outcome_view(outcome)) ==> final(self)@ == sync_outcome(
                old(self)@,
                pending@,
                outcome_view(outcome),
                0,
            ),
    {
        let ghost a = self@;
        let ghost p = pending@;
        let ghost mut id: u128 = 0;
        match outcome {
            Err(e) => {
                let msg = match &pending.followup {
                    Followup::AddReminder { .. } => concat2("Error creating the reminder: ", e.as_str()),
                    _ => concat2("Error syncing: ", e.as_str()),
                };
                self.message = Some(msg);
            },
            Ok(created) => {
                match pending.followup {
                    Followup::CardMove { todo, column, is_last, column_name } => {
                        self.set_card(todo, column, is_last);
                        self.kanban_column = column;
                        self.kanban_item = 0;
                        let msg = concat3("Moved to \"", column_name.as_str(), "\"");
                        self.message = Some(msg);
                        assert(self@ =~= after_card_move(a, todo, column, is_last, column_name@));
                    },
                    Followup::Toggle { todo, done } => {
                        if self.selected_section < self.sections.len() && todo
                            < self.sections[self.selected_section].todos.len() {
                            let column = self.sections[self.selected_section].todos[todo].column;
                            self.set_card(todo, column, done);
                        }
                    },
                    Followup::AddReminder { title } => {
                        let mut t = Todo::new(title);
                        proof {
                            id = t.id;
                        }
                        t.external_id = created;
                        self.add_todo(t);
                    },
                }
            },
        }
        assert(self@ == sync_outcome(a, p, outcome_view(outcome), id));
    }
}


/// Index of the first section whose source is `src`, or `-1`.
pub open spec fn source_index(secs: Seq<SectionView>, src: SourceView) -> int
    decreases secs.len(),
{
    if secs.len() == 0 {
        -1
    } else if secs[0].source == src {
        0
    } else {
        let r = source_index(secs.drop_first(), src);
        if r < 0 {
            -1
        } else {
            r + 1
        }
    }
}

/// Index of the first task of `olds` linked to the outside item `e`, or `-1`.
pub open spec fn linked_index(olds: Seq<TodoView>, e: Seq<char>) -> int
    decreases olds.len(),
{
    if olds.len() == 0 {
        -1
    } else if olds[0].external_id == Some(e) {
        0
    } else {
        let r = linked_index(olds.drop_first(), e);
        if r < 0 {
            -1
        } else {
            r + 1
        }
    }
}

/// The column a re-fetched task `t` takes over from the task it replaces
/// (the first of `olds` linked to the same outside item), else its own.
pub open spec fn carried_column(olds: Seq<TodoView>, t: TodoView) -> usize {
    match t.external_id {
        Some(e) => {
            let k = linked_index(olds, e);
            if k >= 0 {
                olds[k].column
            } else {
                t.column
            }
        },
        None => t.column,
    }
}

/// The carried-over column, corrected when the task's done state changed
/// outside: a done task goes to the last column `last`, a task that is not
/// done leaves it for the first.
pub open spec fn resync_column(olds: Seq<TodoView>, last: usize, t: TodoView) -> usize {
    let c = carried_column(olds, t);
    if t.is_done && c != last {
        last
    } else if !t.is_done && c == last {
        0
    } else {
        c
    }
}

/// The re-fetched tasks `news`, placed on the existing board of `last + 1`
/// columns.
pub open spec fn resynced(olds: Seq<TodoView>, last: usize, news: Seq<TodoView>) -> Seq<TodoView> {
    news.map_values(|t: TodoView| TodoView { column: resync_column(olds, last, t), ..t })
}

/// The sections once the synced section `new` is inserted: it replaces, in
/// place, the first section with the same source (which keeps its
/// identifier and, if it was a single board, its columns and the cards'
/// columns), or is appended when there is none.
pub open spec fn upserted(secs: Seq<SectionView>, new: SectionView) -> Seq<SectionView> {
    let i = source_index(secs, new.source);
    if i < 0 {
        secs.push(new)
    } else {
        let ex = secs[i];
        secs.update(
            i,
            match ex.columns {
                Some(cols) => SectionView {
                    name: new.name,
                    todos: resynced(ex.todos, saturating_pred(cols.len()) as usize, new.todos),
                    columns: Some(cols),
                    boards: new.boards,
                    ..ex
                },
                None => SectionView {
                    name: new.name,
                    todos: new.todos,
                    columns: new.columns,
                    boards: new.boards,
                    ..ex
                },
            },
        )
    }
}

pub proof fn lemma_source_index(secs: Seq<SectionView>, src: SourceView)
    ensures
        -1 <= source_index(secs, src) < secs.len(),
        source_index(secs, src) == -1 <==> forall|j: int|
            0 <= j < secs.len() ==> (#[trigger] secs[j]).source != src,
        source_index(secs, src) >= 0 ==> secs[source_index(secs, src)].source == src && forall|j: int|
            0 <= j < source_index(secs, src) ==> (#[trigger] secs[j]).source != src,
    decreases secs.len(),
{
    if secs.len() > 0 && secs[0].source != src {
        lemma_source_index(secs.drop_first(), src);
        assert forall|j: int| 0 < j < secs.len() implies secs[j] == secs.drop_first()[j - 1] by {}
    }
}

pub proof fn lemma_linked_index(olds: Seq<TodoView>, e: Seq<char>)
    ensures
        -1 <= linked_index(olds, e) < olds.len(),
        linked_index(olds, e) == -1 <==> forall|j: int|
            0 <= j < olds.len() ==> (#[trigger] olds[j]).external_id != Some(e),
        linked_index(olds, e) >= 0 ==> olds[linked_index(olds, e)].external_id == Some(e) && forall|
            j: int,
        | 0 <= j < linked_index(olds, e) ==> (#[trigger] olds[j]).external_id != Some(e),
    decreases olds.len(),
{
    if olds.len() > 0 && olds[0].external_id != Some(e) {
        lemma_linked_index(olds.drop_first(), e);
        assert forall|j: int| 0 < j < olds.len() implies olds[j] == olds.drop_first()[j - 1] by {}
    }
}

/// The column of the first task of `olds` linked to the outside item `e`.
fn linked_column(olds: &Vec<Todo>, e: &String) -> (r: Option<usize>)
    ensures
        ({
            let k = linked_index(todos_view(olds@), e@);
            match r {
                Some(c) => k >= 0 && c == todos_view(olds@)[k].column,
                None => k == -1,
            }
        }),
{
    let ghost tv = todos_view(olds@);
    proof {
        lemma_linked_index(tv, e@);
    }
    let mut j: usize = 0;
    while j < olds.len()
        invariant
            0 <= j <= olds@.len(),
            tv == todos_view(olds@),
            forall|m: int| 0 <= m < j ==> (#[trigger] tv[m]).external_id != Some(e@),
        decreases olds@.len() - j,
    {
        let linked = match &olds[j].external_id {
            Some(x) => *x == *e,
            None => false,
        };
        if linked {
            proof {
                lemma_linked_index(tv, e@);
            }
            assert(tv[j as int].external_id == Some(e@));
            return Some(olds[j].column);
        }
        j = j + 1;
    }
    None
}

impl App {
    /// Inserts or replaces, within `sections`, the synced section (Reminders,
    /// Calendar or Jira) with the same source as `new_section`, keeping its
    /// position and identifier; if there is none yet, appends it.
    ///
    /// The outside systems know nothing of this app's kanban columns, so if
    /// the existing section was set up as a single board, that set-up is
    /// kept, along with each card's column (matched by `external_id`),
    /// unless its done state changed outside, in which case it moves to the
    /// first or last column accordingly. Otherwise (a plain list, or a
    /// multi-board Jira section) the content is taken from `new_section`.
    pub fn upsert_synced_section(sections: &mut Vec<Section>, new_section: Section)
        ensures
            sections_view(final(sections)@) == upserted(sections_view(old(sections)@), new_section@),
    {
        let ghost olds = sections_view(sections@);
        let ghost nv = new_section@;
        proof {
            lemma_source_index(olds, nv.source);
        }
        let mut i: usize = 0;
        while i < sections.len() && !sections[i].source.same_as(&new_section.source)
            invariant
                0 <= i <= sections@.len(),
                olds == sections_view(sections@),
                nv == new_section@,
                forall|j: int| 0 <= j < i ==> (#[trigger] olds[j]).source != nv.source,
            decreases sections@.len() - i,
        {
            proof {
                lemma_same_source_view(sections@[i as int].source, new_section.source);
            }
            i = i + 1;
        }
        if i == sections.len() {
            sections.push(new_section);
            assert(sections_view(sections@) =~= olds.push(nv));
            return ;
        }
        proof {
            lemma_same_source_view(sections@[i as int].source, new_section.source);
        }
        assert(source_index(olds, nv.source) == i);
        let ghost ex = olds[i as int];
        let mut existing = sections.remove(i);
        assert(existing@ == ex);
        let mut fresh = new_section;
        match &existing.columns {
            Some(c) => {
                let cols = copy_strings(c);
                let last: usize = if cols.len() == 0 {
                    0
                } else {
                    cols.len() - 1
                };
                let ghost news = todos_view(fresh.todos@);
                let mut k: usize = 0;
                while k < fresh.todos.len()
                    invariant
                        0 <= k <= fresh.todos@.len(),
                        fresh.todos@.len() == news.len(),
                        existing@ == ex,
                        ex.columns == Some(strings_view(cols@)),
                        last == saturating_pred(strings_view(cols@).len()),
                        forall|j: int|
                            0 <= j < k ==> (#[trigger] fresh.todos@[j])@ == resynced(
                                ex.todos,
                                last,
                                news,
                            )[j],
                        forall|j: int| k <= j < fresh.todos@.len() ==> (#[trigger] fresh.todos@[j])@ == news[j],
                        fresh.name@ == nv.name,
                        opt_boards_view(fresh.boards) == nv.boards,
                    decreases fresh.todos@.len() - k,
                {
                    let t = &fresh.todos[k];
                    let carried = match &t.external_id {
                        Some(e) => match linked_column(&existing.todos, e) {
                            Some(c) => c,
                            None => t.column,
                        },
                        None => t.column,
                    };
                    let col = if t.is_done && carried != last {
                        last
                    } else if !t.is_done && carried == last {
                        0
                    } else {
                        carried
                    };
                    assert(col == resync_column(ex.todos, last, news[k as int]));
                    let nt = todo_with_column(t, col);
                    fresh.todos.set(k, nt);
                    k = k + 1;
                }
                assert(todos_view(fresh.todos@) =~= resynced(ex.todos, last, news));
                fresh.columns = Some(cols);
            },
            None => {},
        }
        existing.name = fresh.name;
        existing.todos = fresh.todos;
        existing.columns = fresh.columns;
        existing.boards = fresh.boards;
        sections.insert(i, existing);
        assert(sections_view(sections@) =~= upserted(olds, nv));
    }
}


/// The kinds of outside systems a section can be linked to.
#[derive(Debug, Clone, Copy, PartialEq, Eq, Structural)]
pub enum LinkKind {
    Reminders,
    Calendar,
    Jira,
}

pub open spec fn is_link_of(src: SourceView, kind: LinkKind) -> bool {
    match kind {
        LinkKind::Reminders => src is Reminders,
        LinkKind::Calendar => src is Calendar,
        LinkKind::Jira => src is Jira,
    }
}

/// The sources of kind `kind` among `secs`, in order.
pub open spec fn linked_of(secs: Seq<SectionView>, kind: LinkKind) -> Seq<SourceView>
    decreases secs.len(),
{
    if secs.len() == 0 {
        seq![]
    } else {
        let p = linked_of(secs.drop_last(), kind);
        if is_link_of(secs.last().source, kind) {
            p.push(secs.last().source)
        } else {
            p
        }
    }
}

/// What a re-sync fetches, in order: every Reminders list, then every
/// calendar, then every Jira query the sections are linked to.
pub open spec fn linked_sources(secs: Seq<SectionView>) -> Seq<SourceView> {
    linked_of(secs, LinkKind::Reminders) + linked_of(secs, LinkKind::Calendar) + linked_of(
        secs,
        LinkKind::Jira,
    )
}

pub open spec fn sources_view(v: Seq<SectionSource>) -> Seq<SourceView> {
    v.map_values(|s: SectionSource| s@)
}

/// The result of fetching one linked section: the section, or the error's
/// text.
#[derive(Debug)]
pub struct FetchResult {
    pub source: SectionSource,
    pub outcome: Result<Section, String>,
}

/// A fetch result as plain values.
pub struct FetchView {
    pub source: SourceView,
    pub outcome: Result<SectionView, Seq<char>>,
}

impl View for FetchResult {
    type V = FetchView;

    open spec fn view(&self) -> FetchView {
        FetchView {
            source: self.source@,
            outcome: match self.outcome {
                Ok(s) => Ok(s@),
                Err(e) => Err(e@),
            },
        }
    }
}

pub open spec fn fetches_view(v: Seq<FetchResult>) -> Seq<FetchView> {
    v.map_values(|f: FetchResult| f@)
}

/// How a failed fetch of `src` is named in the sync message.
pub open spec fn fetch_label(src: SourceView) -> Seq<char> {
    match src {
        SourceView::Reminders(l) => "Reminders ("@ + l + ")"@,
        SourceView::Calendar(c) => "Calendar ("@ + c + ")"@,
        SourceView::Jira(q) => "Jira ("@ + q + ")"@,
        SourceView::Local => seq![],
    }
}

/// The sections after applying the fetch results in order (each fetched
/// section upserted), and the messages of the failed fetches.
pub open spec fn applied_fetches(secs: Seq<SectionView>, rs: Seq<FetchView>) -> (
    Seq<SectionView>,
    Seq<Seq<char>>,
)
    decreases rs.len(),
{
    if rs.len() == 0 {
        (secs, seq![])
    } else {
        let (s, e) = applied_fetches(secs, rs.drop_last());
        match rs.last().outcome {
            Ok(sec) => (upserted(s, sec), e),
            Err(m) => (s, e.push(fetch_label(rs.last().source) + ": "@ + m)),
        }
    }
}

/// The state after a re-sync whose fetches gave `rs`: the sections
/// updated, the selection clamped to them, the task cursor reset, and a
/// message saying how it went.
pub open spec fn after_finish_sync(a: AppView, rs: Seq<FetchView>) -> AppView {
    let (s, e) = applied_fetches(a.sections, rs);
    with_message(
        cursor_reset(
            AppView {
                sections: s,
                selected_section: min_usize(a.selected_section, saturating_pred(s.len())),
                ..a
            },
        ),
        if e.len() == 0 {
            "Synced Reminders/Calendar/Jira"@
        } else {
            "Synced with errors: "@ + joined(e, "; "@)
        },
    )
}

fn copy_source(s: &SectionSource) -> (r: SectionSource)
    ensures
        r@ == s@,
{
    match s {
        SectionSource::Local => SectionSource::Local,
        SectionSource::Reminders { list } => SectionSource::Reminders { list: copy_string(list) },
        SectionSource::Calendar { calendar } => SectionSource::Calendar {
            calendar: copy_string(calendar),
        },
        SectionSource::Jira { jql } => SectionSource::Jira { jql: copy_string(jql) },
    }
}

/// The sources of kind `kind` among `sections`, appended to `out`.
fn collect_linked(sections: &Vec<Section>, kind: LinkKind, out: &mut Vec<SectionSource>)
    ensures
        sources_view(final(out)@) == sources_view(old(out)@) + linked_of(sections_view(sections@), kind),
{
    let ghost sv = sections_view(sections@);
    let ghost start = sources_view(out@);
    let mut i: usize = 0;
    while i < sections.len()
        invariant
            0 <= i <= sections@.len(),
            sv == sections_view(sections@),
            sources_view(out@) == start + linked_of(sv.take(i as int), kind),
        decreases sections@.len() - i,
    {
        assert(sv.take(i + 1).drop_last() =~= sv.take(i as int));
        let ghost before = sources_view(out@);
        let keep = match &sections[i].source {
            SectionSource::Reminders { .. } => kind == LinkKind::Reminders,
            SectionSource::Calendar { .. } => kind == LinkKind::Calendar,
            SectionSource::Jira { .. } => kind == LinkKind::Jira,
            SectionSource::Local => false,
        };
        if keep {
            out.push(copy_source(&sections[i].source));
            assert(sources_view(out@) =~= before.push(sections@[i as int].source@));
        }
        i = i + 1;
    }
    assert(sv.take(sections@.len() as int) =~= sv);
}

impl App {
    /// Starts re-fetching every linked section (Reminders, Calendar or
    /// Jira): hands back the sources to fetch (see `linked_sources`). With
    /// none, says so in the message. The caller fetches each and hands the
    /// results to `finish_sync`, which overwrites each section's content
    /// with the fetched one.
    pub fn sync_linked_sections(&mut self) -> (r: Vec<SectionSource>)
        ensures
            sources_view(r@) == linked_sources(old(self)@.sections),
            r@.len() == 0 ==> final(self)@ == with_message(
                old(self)@,
                "No sections are linked to Reminders/Calendar/Jira (use --reminders-list, --calendar, or --jira)"@,
            ),
            r@.len() > 0 ==> final(self)@ == old(self)@,
    {
        let mut r: Vec<SectionSource> = Vec::new();
        assert(sources_view(r@) =~= seq![]);
        collect_linked(&self.sections, LinkKind::Reminders, &mut r);
        collect_linked(&self.sections, LinkKind::Calendar, &mut r);
        collect_linked(&self.sections, LinkKind::Jira, &mut r);
        assert(sources_view(r@) =~= linked_sources(self@.sections));
        if r.len() == 0 {
            self.message = Some(
                String::from_str(
                    "No sections are linked to Reminders/Calendar/Jira (use --reminders-list, --calendar, or --jira)",
                ),
            );
        }
        r
    }

    /// Finishes a re-sync: applies the fetch results in order (see
    /// `after_finish_sync`).
    pub fn finish_sync(&mut self, results: Vec<FetchResult>)
        requires
            forall|k: int| 0 <= k < results@.len() ==> !((#[trigger] results@[k]).source is Local),
        ensures
            final(self)@ == after_finish_sync(old(self)@, fetches_view(results@)),
    {
        let ghost a = self@;
        let ghost rv = fetches_view(results@);
        let total = results.len();
        let mut rs = results;
        let mut errors: Vec<String> = Vec::new();
        let mut k: usize = 0;
        assert(rv.take(0) =~= seq![]);
        assert(strings_view(errors@) =~= seq![]);
        while rs.len() > 0
            invariant
                0 <= k <= rv.len(),
                rv.len() == total,
                rs@.len() == rv.len() - k,
                fetches_view(rs@) == rv.subrange(k as int, rv.len() as int),
                forall|m: int| 0 <= m < rv.len() ==> !((#[trigger] rv[m]).source is Local),
                applied_fetches(a.sections, rv.take(k as int)) == (
                    self@.sections,
                    strings_view(errors@),
                ),
                self@ == (AppView { sections: self@.sections, ..a }),
            decreases rs@.len(),
        {
            let ghost before = fetches_view(rs@);
            let ghost secs0 = self@.sections;
            let ghost errs0 = strings_view(errors@);
            let ghost rs0 = rs@;
            let r = rs.remove(0);
            assert(before[0] == rs0[0]@);
            assert(fetches_view(rs@) =~= before.drop_first());
            assert(r@ == rv[k as int]);
            assert(rv.take(k + 1).drop_last() =~= rv.take(k as int));
            match r.outcome {
                Ok(sec) => {
                    Self::upsert_synced_section(&mut self.sections, sec);
                },
                Err(e) => {
                    let label = match &r.source {
                        SectionSource::Reminders { list } => concat3("Reminders (", list.as_str(), ")"),
                        SectionSource::Calendar { calendar } => concat3(
                            "Calendar (",
                            calendar.as_str(),
                            ")",
                        ),
                        SectionSource::Jira { jql } => concat3("Jira (", jql.as_str(), ")"),
                        SectionSource::Local => String::new(),
                    };
                    let msg = concat3(label.as_str(), ": ", e.as_str());
                    errors.push(msg);
                    assert(strings_view(errors@) =~= errs0.push(
                        fetch_label(rv[k as int].source) + ": "@ + rv[k as int].outcome->Err_0,
                    ));
                },
            }
            k = k + 1;
        }
        assert(rv.take(k as int) =~= rv);
        let n = self.sections.len();
        let top = if n == 0 {
            0
        } else {
            n - 1
        };
        if self.selected_section > top {
            self.selected_section = top;
        }
        self.reset_todo_cursor();
        if errors.len() == 0 {
            self.message = Some(String::from_str("Synced Reminders/Calendar/Jira"));
        } else {
            let joined_errors = join_strings(&errors, "; ");
            self.message = Some(concat2("Synced with errors: ", joined_errors.as_str()));
        }
        assert(self@ =~= after_finish_sync(a, rv));
    }
}


/// The sections a save file holds, given how its text decoded: as a list of
/// sections, or else as the older format, a flat list of tasks, which is
/// wrapped in one "General" section with identifier `id` (when it has any
/// task). Text that decodes as neither holds no section.
pub open spec fn migrated_sections(
    as_sections: Option<Seq<SectionView>>,
    as_tasks: Option<Seq<TodoView>>,
    id: u128,
) -> Seq<SectionView> {
    match as_sections {
        Some(s) => s,
        None => match as_tasks {
            Some(t) => if t.len() > 0 {
                seq![
                    SectionView {
                        id,
                        name: "General"@,
                        todos: t,
                        source: SourceView::Local,
                        columns: None,
                        boards: None,
                    },
                ]
            } else {
                seq![]
            },
            None => seq![],
        },
    }
}

pub open spec fn opt_sections_view(o: Option<Vec<Section>>) -> Option<Seq<SectionView>> {
    match o {
        Some(v) => Some(sections_view(v@)),
        None => None,
    }
}

pub open spec fn opt_todos_view(o: Option<Vec<Todo>>) -> Option<Seq<TodoView>> {
    match o {
        Some(v) => Some(todos_view(v@)),
        None => None,
    }
}

/// Whether the older format is migrated (which needs a fresh identifier).
pub open spec fn migrates(as_sections: Option<Seq<SectionView>>, as_tasks: Option<Seq<TodoView>>) -> bool {
    as_sections is None && as_tasks is Some && as_tasks.unwrap().len() > 0
}

impl App {
    /// The sections held by a save file, from its text decoded as a list
    /// of sections (`as_sections`) and, failing that, as the older flat
    /// list of tasks (`as_tasks`); see `migrated_sections`. Decoding the
    /// text is the caller's job.
    pub fn sections_from_parsed(as_sections: Option<Vec<Section>>, as_tasks: Option<Vec<Todo>>) -> (r:
        Vec<Section>)
        ensures
            migrates(opt_sections_view(as_sections), opt_todos_view(as_tasks)) ==> exists|id: u128|
                is_random_uuid(id) && sections_view(r@) == #[trigger] migrated_sections(
                    opt_sections_view(as_sections),
                    opt_todos_view(as_tasks),
                    id,
                ),
            !migrates(opt_sections_view(as_sections), opt_todos_view(as_tasks)) ==> sections_view(r@)
                == migrated_sections(opt_sections_view(as_sections), opt_todos_view(as_tasks), 0),
    {
        match as_sections {
            Some(s) => s,
            None => match as_tasks {
                Some(todos) => {
                    if todos.len() > 0 {
                        let sec = Section {
                            id: new_id(),
                            name: String::from_str("General"),
                            todos,
                            source: SectionSource::Local,
                            columns: None,
                            boards: None,
                        };
                        let mut r = Vec::new();
                        r.push(sec);
                        assert(sections_view(r@) =~= migrated_sections(
                            None,
                            opt_todos_view(Some(sec.todos)),
                            sec.id,
                        ));
                        r
                    } else {
                        let r = Vec::new();
                        assert(sections_view(r@) =~= seq![]);
                        r
                    }
                },
                None => {
                    let r = Vec::new();
                    assert(sections_view(r@) =~= seq![]);
                    r
                },
            },
        }
    }

    /// Default path of the task file, `~/.config/todos/todos.json`.
    pub fn default_save_path() -> (r: Vec<String>)
        ensures
            exists|home: Option<Seq<char>>| path_view(r@) == app_dir_of(home).push("todos.json"@),
    {
        let mut p = app_dir();
        let ghost before = path_view(p@);
        p.push(String::from_str("todos.json"));
        assert(path_view(p@) =~= before.push("todos.json"@));
        p
    }
}

} // verus!
