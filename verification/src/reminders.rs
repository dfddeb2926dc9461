//! Sections fed by Reminders lists and calendars: how the items an outside
//! calendar service returns become tasks. Talking to the service, and
//! formatting its dates, is the application's job.

use vstd::prelude::*;
use crate::models::todos::{is_random_uuid, new_id, Section, SectionSource, SourceView, Todo, TodoView};
use crate::text::concat3;

verus! {

/// A reminder as the service returns it (its due date already formatted).
#[derive(Debug)]
pub struct ReminderEntry {
    pub title: String,
    pub due: Option<String>,
    pub completed: bool,
    pub identifier: String,
}

/// A calendar event as the service returns it (its start already
/// formatted).
#[derive(Debug)]
pub struct EventEntry {
    pub start: String,
    pub title: String,
    pub identifier: String,
}

/// The task text of a reminder: its title, and its due date when it has
/// one.
pub open spec fn reminder_text(r: ReminderEntry) -> Seq<char> {
    match r.due {
        Some(d) => r.title@ + " (due "@ + d@ + ")"@,
        None => r.title@,
    }
}

/// The task text of an event: its start, then its title.
pub open spec fn event_text(e: EventEntry) -> Seq<char> {
    e.start@ + " — "@ + e.title@
}

/// A task linked to the outside item `identifier`, in the first column.
pub open spec fn linked_task(id: u128, text: Seq<char>, is_done: bool, identifier: Seq<char>) -> TodoView {
    TodoView { id, text, is_done, external_id: Some(identifier), column: 0, board_index: 0 }
}

/// The section linked to the Reminders list `list`, holding one task per
/// reminder of `items`, in order, done when the reminder is completed.
pub fn reminders_section(list: &str, items: Vec<ReminderEntry>) -> (r: Section)
    ensures
        r@.name == list@,
        r@.source == SourceView::Reminders(list@),
        r@.columns is None,
        r@.boards is None,
        is_random_uuid(r.id),
        r.todos@.len() == items@.len(),
        forall|k: int|
            0 <= k < items@.len() ==> (#[trigger] r.todos@[k])@ == linked_task(
                r.todos@[k].id,
                reminder_text(items@[k]),
                items@[k].completed,
                items@[k].identifier@,
            ),
        forall|k: int| 0 <= k < items@.len() ==> is_random_uuid((#[trigger] r.todos@[k]).id),
{
    let mut todos: Vec<Todo> = Vec::new();
    for k in 0..items.len()
        invariant
            todos@.len() == k,
            forall|m: int|
                0 <= m < k ==> (#[trigger] todos@[m])@ == linked_task(
                    todos@[m].id,
                    reminder_text(items@[m]),
                    items@[m].completed,
                    items@[m].identifier@,
                ),
            forall|m: int| 0 <= m < k ==> is_random_uuid((#[trigger] todos@[m]).id),
    {
        let item = &items[k];
        let text = match &item.due {
            Some(d) => {
                let mut t = concat3(item.title.as_str(), " (due ", d.as_str());
                t.append(")");
                t
            },
            None => item.title.clone(),
        };
        todos.push(
            Todo {
                id: new_id(),
                text,
                is_done: item.completed,
                external_id: Some(item.identifier.clone()),
                column: 0,
                board_index: 0,
            },
        );
    }
    Section {
        id: new_id(),
        name: list.to_owned(),
        todos,
        source: SectionSource::Reminders { list: list.to_owned() },
        columns: None,
        boards: None,
    }
}

/// The section linked to the calendar `calendar`, holding one task per
/// event of `events`, in order, none of them done.
pub fn calendar_section(calendar: &str, events: Vec<EventEntry>) -> (r: Section)
    ensures
        r@.name == calendar@,
        r@.source == SourceView::Calendar(calendar@),
        r@.columns is None,
        r@.boards is None,
        is_random_uuid(r.id),
        r.todos@.len() == events@.len(),
        forall|k: int|
            0 <= k < events@.len() ==> (#[trigger] r.todos@[k])@ == linked_task(
                r.todos@[k].id,
                event_text(events@[k]),
                false,
                events@[k].identifier@,
            ),
        forall|k: int| 0 <= k < events@.len() ==> is_random_uuid((#[trigger] r.todos@[k]).id),
{
    let mut todos: Vec<Todo> = Vec::new();
    for k in 0..events.len()
        invariant
            todos@.len() == k,
            forall|m: int|
                0 <= m < k ==> (#[trigger] todos@[m])@ == linked_task(
                    todos@[m].id,
                    event_text(events@[m]),
                    false,
                    events@[m].identifier@,
                ),
            forall|m: int| 0 <= m < k ==> is_random_uuid((#[trigger] todos@[m]).id),
    {
        let event = &events[k];
        todos.push(
            Todo {
                id: new_id(),
                text: concat3(event.start.as_str(), " — ", event.title.as_str()),
                is_done: false,
                external_id: Some(event.identifier.clone()),
                column: 0,
                board_index: 0,
            },
        );
    }
    Section {
        id: new_id(),
        name: calendar.to_owned(),
        todos,
        source: SectionSource::Calendar { calendar: calendar.to_owned() },
        columns: None,
        boards: None,
    }
}

/// Number of days of events to import for a requested `days`: at least one.
pub fn calendar_days(days: i64) -> (r: i64)
    ensures
        r == if days < 1 {
            1
        } else {
            days
        },
{
    if days < 1 {
        1
    } else {
        days
    }
}

} // verus!
