//! Core data model: a save file is a list of [`Section`]s, each holding a
//! list of [`Todo`]s. A section can be a plain list or a kanban board (one
//! or several stacked boards, for Jira).
//!
//! Identifiers are random version-4 UUIDs, held as their 128-bit value.

use vstd::prelude::*;
use crate::text::strings_view;

verus! {

/// Whether `id` is laid out as a random (version 4, RFC 4122 variant) UUID.
pub open spec fn is_random_uuid(id: u128) -> bool {
    &&& (id >> 76u128) & 0xfu128 == 4
    &&& (id >> 62u128) & 0x3u128 == 2
}

/// Calls `uuid::Uuid::new_v4` and hands back the value of the fresh UUID.
/// The value is random; the crate documents it as a version-4 UUID of the
/// RFC 4122 variant, which is all that is claimed of it.
#[verifier::external_body]
pub(crate) fn new_id() -> (r: u128)
    ensures
        is_random_uuid(r),
{
    uuid::Uuid::new_v4().as_u128()
}

/// A single task.
#[derive(Debug, Clone)]
pub struct Todo {
    pub id: u128,
    pub text: String,
    pub is_done: bool,
    /// Identifier of the underlying item in the external system this todo
    /// was imported from (an EventKit reminder identifier, or a Jira issue
    /// key). `None` for todos created locally in the app.
    pub external_id: Option<String>,
    /// Column index within the relevant column list: `Section::columns` for
    /// a single-board section, or `Section::boards[board_index].columns`
    /// for a multi-board section. Meaningless (and ignored) outside of
    /// kanban sections.
    pub column: usize,
    /// Index into `Section::boards` identifying which stacked board this
    /// card belongs to. Always `0` for single-board sections.
    pub board_index: usize,
}

impl Todo {
    /// A new, not-done, local task in the first column of the first board.
    pub fn new(text: String) -> (r: Todo)
        ensures
            r.text == text,
            !r.is_done,
            r.external_id is None,
            r.column == 0,
            r.board_index == 0,
            is_random_uuid(r.id),
    {
        Todo { id: new_id(), text, is_done: false, external_id: None, column: 0, board_index: 0 }
    }
}

/// Where a section's data comes from: either managed entirely by this app,
/// or synced from an external system (macOS Reminders/Calendar via
/// EventKit, or a Jira Cloud instance).
#[derive(Debug, Clone, Eq)]
pub enum SectionSource {
    Local,
    Reminders { list: String },
    Calendar { calendar: String },
    /// Fed by a JQL query against a Jira instance. A single section groups
    /// every project found among the results as its own stacked board (see
    /// `Section::boards`).
    Jira { jql: String },
}

/// Whether two sources are the same: same kind, same list, calendar or
/// query text.
pub open spec fn same_source(a: SectionSource, b: SectionSource) -> bool {
    match a {
        SectionSource::Local => match b {
            SectionSource::Local => true,
            _ => false,
        },
        SectionSource::Reminders { list: x } => b is Reminders && b->list@ == x@,
        SectionSource::Calendar { calendar: x } => b is Calendar && b->calendar@ == x@,
        SectionSource::Jira { jql: x } => b is Jira && b->jql@ == x@,
    }
}

impl PartialEq for SectionSource {
    fn eq(&self, other: &Self) -> (r: bool) {
        self.same_as(other)
    }
}

impl SectionSource {
    /// Whether `self` and `other` are the same source.
    pub fn same_as(&self, other: &SectionSource) -> (r: bool)
        ensures
            r == same_source(*self, *other),
    {
        match self {
            SectionSource::Local => match other {
                SectionSource::Local => true,
                SectionSource::Reminders { .. } => false,
                SectionSource::Calendar { .. } => false,
                SectionSource::Jira { .. } => false,
            },
            SectionSource::Reminders { list: x } => match other {
                SectionSource::Reminders { list: y } => *x == *y,
                _ => false,
            },
            SectionSource::Calendar { calendar: x } => match other {
                SectionSource::Calendar { calendar: y } => *x == *y,
                _ => false,
            },
            SectionSource::Jira { jql: x } => match other {
                SectionSource::Jira { jql: y } => *x == *y,
                _ => false,
            },
        }
    }
}

impl vstd::std_specs::cmp::PartialEqSpecImpl for SectionSource {
    open spec fn obeys_eq_spec() -> bool {
        true
    }

    open spec fn eq_spec(&self, other: &SectionSource) -> bool {
        same_source(*self, *other)
    }
}

impl Default for SectionSource {
    fn default() -> (r: SectionSource)
        ensures
            r is Local,
    {
        SectionSource::Local
    }
}

/// One board (typically one Jira project) inside a section that groups
/// several (see `Section::boards`). Each card in the section records which
/// board it belongs to via `Todo::board_index`.
#[derive(Debug, Clone)]
pub struct KanbanBoard {
    pub name: String,
    pub columns: Vec<String>,
}

/// A named group of todos. Depending on `columns` and `boards`, it renders
/// as a plain list, a single kanban board, or several kanban boards stacked
/// vertically.
#[derive(Debug, Clone)]
pub struct Section {
    pub id: u128,
    pub name: String,
    pub todos: Vec<Todo>,
    pub source: SectionSource,
    /// `Some(names)` turns the section into a single kanban board with
    /// these columns, in order; the last column always represents "done".
    /// `None` keeps the classic plain-list mode. Mutually exclusive with
    /// `boards`.
    pub columns: Option<Vec<String>>,
    /// `Some(boards)` groups several boards (each with its own columns),
    /// stacked vertically within this one section (used for Jira, when the
    /// fetched issues span multiple projects). Takes rendering priority
    /// over `columns` when both are set.
    pub boards: Option<Vec<KanbanBoard>>,
}

impl Section {
    /// A new, empty, local plain-list section.
    pub fn new(name: String) -> (r: Section)
        ensures
            r.name == name,
            r.todos@.len() == 0,
            r.source is Local,
            r.columns is None,
            r.boards is None,
            is_random_uuid(r.id),
    {
        Section {
            id: new_id(),
            name,
            todos: Vec::new(),
            source: SectionSource::Local,
            columns: None,
            boards: None,
        }
    }
}

} // verus!

verus! {

/// A todo as plain values.
#[verifier::ext_equal]
pub struct TodoView {
    pub id: u128,
    pub text: Seq<char>,
    pub is_done: bool,
    pub external_id: Option<Seq<char>>,
    pub column: usize,
    pub board_index: usize,
}

impl View for Todo {
    type V = TodoView;

    open spec fn view(&self) -> TodoView {
        TodoView {
            id: self.id,
            text: self.text@,
            is_done: self.is_done,
            external_id: match self.external_id {
                Some(e) => Some(e@),
                None => None,
            },
            column: self.column,
            board_index: self.board_index,
        }
    }
}

/// A section source as plain values.
pub enum SourceView {
    Local,
    Reminders(Seq<char>),
    Calendar(Seq<char>),
    Jira(Seq<char>),
}

impl View for SectionSource {
    type V = SourceView;

    open spec fn view(&self) -> SourceView {
        match self {
            SectionSource::Local => SourceView::Local,
            SectionSource::Reminders { list } => SourceView::Reminders(list@),
            SectionSource::Calendar { calendar } => SourceView::Calendar(calendar@),
            SectionSource::Jira { jql } => SourceView::Jira(jql@),
        }
    }
}

/// A kanban board as plain values.
#[verifier::ext_equal]
pub struct BoardView {
    pub name: Seq<char>,
    pub columns: Seq<Seq<char>>,
}

impl View for KanbanBoard {
    type V = BoardView;

    open spec fn view(&self) -> BoardView {
        BoardView { name: self.name@, columns: strings_view(self.columns@) }
    }
}

/// A section as plain values.
#[verifier::ext_equal]
pub struct SectionView {
    pub id: u128,
    pub name: Seq<char>,
    pub todos: Seq<TodoView>,
    pub source: SourceView,
    pub columns: Option<Seq<Seq<char>>>,
    pub boards: Option<Seq<BoardView>>,
}

pub open spec fn todos_view(v: Seq<Todo>) -> Seq<TodoView> {
    v.map_values(|t: Todo| t@)
}

pub open spec fn boards_view(v: Seq<KanbanBoard>) -> Seq<BoardView> {
    v.map_values(|b: KanbanBoard| b@)
}

pub open spec fn sections_view(v: Seq<Section>) -> Seq<SectionView> {
    v.map_values(|s: Section| s@)
}

pub open spec fn columns_view(c: Option<Vec<String>>) -> Option<Seq<Seq<char>>> {
    match c {
        Some(v) => Some(strings_view(v@)),
        None => None,
    }
}

pub open spec fn opt_boards_view(b: Option<Vec<KanbanBoard>>) -> Option<Seq<BoardView>> {
    match b {
        Some(v) => Some(boards_view(v@)),
        None => None,
    }
}

impl View for Section {
    type V = SectionView;

    open spec fn view(&self) -> SectionView {
        SectionView {
            id: self.id,
            name: self.name@,
            todos: todos_view(self.todos@),
            source: self.source@,
            columns: columns_view(self.columns),
            boards: opt_boards_view(self.boards),
        }
    }
}

pub proof fn lemma_same_source_view(a: SectionSource, b: SectionSource)
    ensures
        same_source(a, b) <==> a@ == b@,
{
}

} // verus!
