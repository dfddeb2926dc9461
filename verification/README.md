# todos

A terminal task manager: sections of tasks shown as plain lists or kanban
boards, optionally linked to macOS Reminders and Calendar or to Jira Cloud.

The library (`src/`) holds the application's state and every rule that
changes it, each function with a contract proved by Verus:

- `app` — the application state, navigation, kanban columns and cards,
  text input, and synchronisation with linked sections. Changes that need an
  outside system to agree first hand back the call to make; its outcome is
  reported to `App::complete_sync`.
- `handler` — what each key press does.
- `jira` — a Jira board's columns (order, exclusions, one column per
  status), grouping issues by project, and choosing workflow transitions.
- `scanner` — `TODO` comments found in source text.
- `reminders` — sections built from reminders and calendar events.
- `view` — the text the screen shows.
- `config`, `cli` — preferences and start-up paths.
- `text`, `models` — string helpers and the data model.
- `laws` — properties relating several functions, proved.

The program (`app/`) does the input and output: the terminal, files, HTTP
requests to Jira, and EventKit (macOS only; elsewhere Reminders and Calendar
report that they are unavailable).
