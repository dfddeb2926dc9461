//! Command-line arguments, and the start-up decisions they drive. Parsing
//! the command line is the application's job.

use vstd::prelude::*;
use crate::text::strings_view;

verus! {

/// The command-line arguments.
#[derive(Debug, Clone)]
pub struct Cli {
    /// Directory to scan for TODO comments.
    pub scan: Option<String>,
    /// JSON task file to load and save (defaults to the user's data file).
    pub file: Option<String>,
    /// Reminders lists to import as linked sections.
    pub reminders_lists: Vec<String>,
    /// Calendars to import as linked sections.
    pub calendars: Vec<String>,
    /// Number of days ahead to import for each calendar.
    pub calendar_days: i64,
    /// Import the user's assigned, unfinished Jira issues as a "Jira" section.
    pub jira: bool,
    /// Additional Jira JQL queries, each imported as its own section.
    pub jira_jql: Vec<String>,
}

pub open spec fn opt_path_view(p: Option<Vec<String>>) -> Option<Seq<Seq<char>>> {
    match p {
        Some(v) => Some(strings_view(v@)),
        None => None,
    }
}

/// Where the tasks are saved: without a scan, the given file or else the
/// user's data file; when scanning, only the given file, so that a scan's
/// results never overwrite the user's task data.
pub fn startup_save_path(scanning: bool, file: Option<Vec<String>>, default_path: Vec<String>) -> (r:
    Option<Vec<String>>)
    ensures
        opt_path_view(r) == if scanning {
            opt_path_view(file)
        } else {
            match file {
                Some(f) => Some(strings_view(f@)),
                None => Some(strings_view(default_path@)),
            }
        },
{
    if scanning {
        file
    } else {
        match file {
            Some(f) => Some(f),
            None => Some(default_path),
        }
    }
}

} // verus!
