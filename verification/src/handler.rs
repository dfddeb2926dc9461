//! Translates key presses into [`App`] state changes.
//!
//! A key press is described by the library's own [`KeyEvent`]: the key and
//! the modifier bits held with it (the terminal library's encoding). Reading
//! the terminal is the application's job, and so is the work that some keys
//! ask for (writing the save file, fetching linked sections, calling an
//! outside system): `on_key_event` hands it back as an [`Effect`].

use vstd::prelude::*;
use crate::app::{
    after_next, after_on_left, after_on_right, after_previous, after_start_adding,
    after_start_editing_columns, confirm_creates, confirm_outcome, focus_toggled, linked_sources,
    move_card_outcome, pending_view, sources_view, toggle_outcome, with_message, App, AppView,
    InputMode, PendingSync, PendingView,
};
use crate::models::todos::{is_random_uuid, SectionSource, SourceView};
use crate::text::{pop_char, push_char, strings_view};

verus! {

/// Modifier bit of the Control key.
pub const CONTROL: u8 = 0b0000_0010;

/// The keys the application tells apart.
#[derive(Debug, Clone, Copy, PartialEq, Eq, Structural)]
pub enum KeyCode {
    Backspace,
    Enter,
    Left,
    Right,
    Up,
    Down,
    Tab,
    Esc,
    Char(char),
    /// Any other key.
    Other,
}

/// A key press: the key, and the modifier bits held with it.
#[derive(Debug, Clone, Copy, PartialEq, Eq, Structural)]
pub struct KeyEvent {
    pub code: KeyCode,
    pub modifiers: u8,
}

impl From<KeyCode> for KeyEvent {
    fn from(code: KeyCode) -> (r: KeyEvent) {
        KeyEvent { code, modifiers: 0 }
    }
}

impl vstd::std_specs::convert::FromSpecImpl<KeyCode> for KeyEvent {
    open spec fn obeys_from_spec() -> bool {
        true
    }

    open spec fn from_spec(code: KeyCode) -> KeyEvent {
        KeyEvent { code, modifiers: 0 }
    }
}

/// Work a key asks for that the application performs.
#[derive(Debug)]
pub enum Effect {
    /// Write the sections to the file at this path (its components).
    Save(Vec<String>),
    /// Fetch these linked sections, then hand the results to
    /// `App::finish_sync`.
    Sync(Vec<SectionSource>),
    /// Make this outside call, then hand its outcome to
    /// `App::complete_sync`.
    Call(PendingSync),
}

/// An effect as plain values.
pub enum EffectView {
    Save(Seq<Seq<char>>),
    Sync(Seq<SourceView>),
    Call(PendingView),
}

impl View for Effect {
    type V = EffectView;

    open spec fn view(&self) -> EffectView {
        match self {
            Effect::Save(p) => EffectView::Save(strings_view(p@)),
            Effect::Sync(s) => EffectView::Sync(sources_view(s@)),
            Effect::Call(p) => EffectView::Call(p@),
        }
    }
}

pub open spec fn effect_view(e: Option<Effect>) -> Option<EffectView> {
    match e {
        Some(x) => Some(x@),
        None => None,
    }
}

pub open spec fn call_effect(p: Option<PendingView>) -> Option<EffectView> {
    match p {
        Some(x) => Some(EffectView::Call(x)),
        None => None,
    }
}

pub open spec fn quit_view(a: AppView) -> AppView {
    AppView { should_quit: true, ..a }
}

/// The `s` key: save to the destination file, if there is one.
pub open spec fn save_outcome(a: AppView) -> (AppView, Option<EffectView>) {
    match a.file_path {
        None => (with_message(a, "No destination file: use `todos <file.json>`"@), None),
        Some(p) => (a, Some(EffectView::Save(p))),
    }
}

/// The `r` key: re-fetch every linked section, if there is any.
pub open spec fn sync_key_outcome(a: AppView) -> (AppView, Option<EffectView>) {
    let src = linked_sources(a.sections);
    if src.len() == 0 {
        (
            with_message(
                a,
                "No sections are linked to Reminders/Calendar/Jira (use --reminders-list, --calendar, or --jira)"@,
            ),
            None,
        )
    } else {
        (a, Some(EffectView::Sync(src)))
    }
}

/// A key in normal (navigation) mode.
pub open spec fn normal_key_outcome(a: AppView, k: KeyEvent) -> (AppView, Option<EffectView>) {
    match k.code {
        KeyCode::Esc => (quit_view(a), None),
        KeyCode::Tab | KeyCode::Left | KeyCode::Right => (focus_toggled(a), None),
        KeyCode::Down => (after_next(a), None),
        KeyCode::Up => (after_previous(a), None),
        KeyCode::Char(c) => if c == 'q' {
            (quit_view(a), None)
        } else if (c == 'c' || c == 'C') && k.modifiers == CONTROL {
            (quit_view(a), None)
        } else if c == 'h' {
            (after_on_left(a), None)
        } else if c == 'l' {
            (after_on_right(a), None)
        } else if c == 'j' {
            (after_next(a), None)
        } else if c == 'k' {
            (after_previous(a), None)
        } else if c == ' ' {
            (toggle_outcome(a).0, call_effect(toggle_outcome(a).1))
        } else if c == 'a' {
            (after_start_adding(a), None)
        } else if c == 's' {
            save_outcome(a)
        } else if c == 'r' {
            sync_key_outcome(a)
        } else if c == 'K' {
            (after_start_editing_columns(a), None)
        } else if c == 'H' {
            (move_card_outcome(a, -1).0, call_effect(move_card_outcome(a, -1).1))
        } else if c == 'L' {
            (move_card_outcome(a, 1).0, call_effect(move_card_outcome(a, 1).1))
        } else {
            (a, None)
        },
        _ => (a, None),
    }
}

/// A key while text is being captured; `id` identifies what confirming
/// creates.
pub open spec fn input_key_outcome(a: AppView, k: KeyEvent, id: u128) -> (AppView, Option<EffectView>) {
    match k.code {
        KeyCode::Enter => (confirm_outcome(a, id).0, call_effect(confirm_outcome(a, id).1)),
        KeyCode::Esc => (AppView { input_mode: InputMode::Normal, input_buffer: seq![], ..a }, None),
        KeyCode::Backspace => (
            AppView {
                input_buffer: if a.input_buffer.len() > 0 {
                    a.input_buffer.drop_last()
                } else {
                    a.input_buffer
                },
                ..a
            },
            None,
        ),
        KeyCode::Char(c) => (AppView { input_buffer: a.input_buffer.push(c), ..a }, None),
        _ => (a, None),
    }
}

/// What a key press does: the new state and the work handed back; `id`
/// identifies what it creates, if anything.
pub open spec fn key_outcome(a: AppView, k: KeyEvent, id: u128) -> (AppView, Option<EffectView>) {
    match a.input_mode {
        InputMode::Normal => normal_key_outcome(a, k),
        _ => input_key_outcome(a, k, id),
    }
}

/// Whether the key press creates a section or task (which then gets a
/// fresh random identifier).
pub open spec fn key_creates(a: AppView, k: KeyEvent) -> bool {
    a.input_mode != InputMode::Normal && k.code == KeyCode::Enter && confirm_creates(a)
}

fn call_of(p: Option<PendingSync>) -> (r: Option<Effect>)
    ensures
        effect_view(r) == call_effect(pending_view(p)),
{
    match p {
        Some(x) => Some(Effect::Call(x)),
        None => None,
    }
}

/// Handles a key in normal (navigation) mode.
fn on_key_event_normal(app: &mut App, key: KeyEvent) -> (r: Option<Effect>)
    requires
        old(app)@.input_mode == InputMode::Normal,
    ensures
        (final(app)@, effect_view(r)) == normal_key_outcome(old(app)@, key),
{
    match key.code {
        KeyCode::Esc => {
            app.quit();
            None
        },
        KeyCode::Tab | KeyCode::Left | KeyCode::Right => {
            app.toggle_focus();
            None
        },
        KeyCode::Down => {
            app.next();
            None
        },
        KeyCode::Up => {
            app.previous();
            None
        },
        KeyCode::Char(c) => {
            if c == 'q' || ((c == 'c' || c == 'C') && key.modifiers == CONTROL) {
                app.quit();
                None
            } else if c == 'h' {
                app.on_left();
                None
            } else if c == 'l' {
                app.on_right();
                None
            } else if c == 'j' {
                app.next();
                None
            } else if c == 'k' {
                app.previous();
                None
            } else if c == ' ' {
                call_of(app.toggle_todo())
            } else if c == 'a' {
                app.start_adding();
                None
            } else if c == 's' {
                match app.save_todos() {
                    Some(p) => Some(Effect::Save(p)),
                    None => None,
                }
            } else if c == 'r' {
                let sources = app.sync_linked_sections();
                if sources.len() == 0 {
                    None
                } else {
                    Some(Effect::Sync(sources))
                }
            } else if c == 'K' {
                app.start_editing_columns();
                None
            } else if c == 'H' {
                call_of(app.move_card(-1))
            } else if c == 'L' {
                call_of(app.move_card(1))
            } else {
                None
            }
        },
        _ => None,
    }
}

/// Handles a key while text is being captured.
fn on_key_event_input(app: &mut App, key: KeyEvent) -> (r: Option<Effect>)
    requires
        old(app)@.input_mode != InputMode::Normal,
    ensures
        key_creates(old(app)@, key) ==> exists|id: u128|
            is_random_uuid(id) && (final(app)@, effect_view(r)) == #[trigger] key_outcome(
                old(app)@,
                key,
                id,
            ),
        !key_creates(old(app)@, key) ==> (final(app)@, effect_view(r)) == key_outcome(
            old(app)@,
            key,
            0,
        ),
{
    let ghost a = app@;
    match key.code {
        KeyCode::Enter => {
            let p = app.confirm_input();
            let r = call_of(p);
            proof {
                if confirm_creates(a) {
                    let id = choose|id: u128|
                        is_random_uuid(id) && (app@, pending_view(p)) == #[trigger] confirm_outcome(
                            a,
                            id,
                        );
                    assert((app@, effect_view(r)) == key_outcome(a, key, id));
                }
            }
            r
        },
        KeyCode::Esc => {
            app.cancel_input();
            None
        },
        KeyCode::Backspace => {
            let _ = pop_char(&mut app.input_buffer);
            assert(app@ =~= input_key_outcome(a, key, 0).0);
            None
        },
        KeyCode::Char(c) => {
            push_char(&mut app.input_buffer, c);
            assert(app@ =~= input_key_outcome(a, key, 0).0);
            None
        },
        _ => None,
    }
}

/// Handles a key press: changes the state as the key asks, and hands back
/// the work it asks of the application, if any (see `key_outcome`).
pub fn on_key_event(app: &mut App, key: KeyEvent) -> (r: Option<Effect>)
    ensures
        key_creates(old(app)@, key) ==> exists|id: u128|
            is_random_uuid(id) && (final(app)@, effect_view(r)) == #[trigger] key_outcome(
                old(app)@,
                key,
                id,
            ),
        !key_creates(old(app)@, key) ==> (final(app)@, effect_view(r)) == key_outcome(
            old(app)@,
            key,
            0,
        ),
{
    match app.input_mode {
        InputMode::Normal => on_key_event_normal(app, key),
        _ => on_key_event_input(app, key),
    }
}

} // verus!
