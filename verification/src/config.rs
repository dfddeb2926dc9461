//! User preferences, kept apart from the task data and from credentials.
//! They live at `~/.config/todos/config.json` and are entirely optional:
//! without a readable file the defaults apply (no exclusions, no explicit
//! order). Reading and decoding the file is the application's job; this
//! module holds the values and the paths.
//!
//! A path is represented by its components, in order (the path obtained by
//! joining them one after the other).

use vstd::prelude::*;
use crate::text::{opt_str_view, strings_view};

verus! {

/// Preferences of the whole application.
#[derive(Debug, Clone)]
pub struct Config {
    pub jira: JiraConfig,
}

/// Preferences for the Jira boards.
#[derive(Debug, Clone)]
pub struct JiraConfig {
    /// Column names (Jira status names) to hide whenever they have no
    /// ticket in them. Matched case-insensitively. A column that currently
    /// holds a ticket is never hidden, even if its name is listed here.
    pub excluded_columns: Vec<String>,
    /// Explicit display order for visible columns (case-insensitive match).
    /// Columns listed here come first, in this order; any other column that
    /// remains visible is appended afterwards, ordered by status category
    /// (new, then in progress, then done).
    pub column_order: Vec<String>,
}

impl Default for JiraConfig {
    fn default() -> (r: JiraConfig)
        ensures
            r.excluded_columns@.len() == 0,
            r.column_order@.len() == 0,
    {
        JiraConfig { excluded_columns: Vec::new(), column_order: Vec::new() }
    }
}

impl Default for Config {
    fn default() -> (r: Config)
        ensures
            r.jira.excluded_columns@.len() == 0,
            r.jira.column_order@.len() == 0,
    {
        Config { jira: JiraConfig::default() }
    }
}

/// The characters of each component of a path.
pub open spec fn path_view(p: Seq<String>) -> Seq<Seq<char>> {
    strings_view(p)
}

/// The application directory below a home directory: `home/.config/todos`,
/// with `.` standing for an unknown home.
pub open spec fn app_dir_of(home: Option<Seq<char>>) -> Seq<Seq<char>> {
    let base = match home {
        Some(h) => h,
        None => "."@,
    };
    seq![base, ".config"@, "todos"@]
}

/// Calls `dirs::home_dir`, handing back the home directory as text.
/// The result depends on the environment; nothing is claimed of it. The
/// library holds paths as text, so a home directory whose path is not
/// valid Unicode comes back with replacement characters in place of the
/// invalid parts.
#[verifier::external_body]
fn home_dir() -> (r: Option<String>) {
    dirs::home_dir().map(|p| p.to_string_lossy().into_owned())
}

/// The application directory below `home` (the current directory when the
/// home directory is unknown): `home/.config/todos`. Deliberately `.config`
/// on every platform, so that the same layout works for dotfiles shared
/// across machines.
pub fn app_dir_in(home: Option<String>) -> (r: Vec<String>)
    ensures
        path_view(r@) == app_dir_of(opt_str_view(home)),
{
    let base = match home {
        Some(h) => h,
        None => String::from_str("."),
    };
    let mut r = Vec::new();
    r.push(base);
    r.push(String::from_str(".config"));
    r.push(String::from_str("todos"));
    assert(path_view(r@) =~= seq![r@[0]@, ".config"@, "todos"@]);
    r
}

/// The application directory, `~/.config/todos`, below the home directory
/// of the current user (or below `.` when it cannot be determined).
pub fn app_dir() -> (r: Vec<String>)
    ensures
        exists|home: Option<Seq<char>>| path_view(r@) == app_dir_of(home),
{
    app_dir_in(home_dir())
}

/// Path of the preferences file below `home` (see `app_dir_in`):
/// `home/.config/todos/config.json`.
pub fn default_path_in(home: Option<String>) -> (r: Vec<String>)
    ensures
        path_view(r@) == app_dir_of(opt_str_view(home)).push("config.json"@),
{
    let mut p = app_dir_in(home);
    let ghost before = path_view(p@);
    p.push(String::from_str("config.json"));
    assert(path_view(p@) =~= before.push("config.json"@));
    p
}

impl Config {
    /// Path of the preferences file, `~/.config/todos/config.json`.
    pub fn default_path() -> (r: Vec<String>)
        ensures
            exists|home: Option<Seq<char>>|
                path_view(r@) == app_dir_of(home).push("config.json"@),
    {
        let home = home_dir();
        let ghost hv = opt_str_view(home);
        let r = default_path_in(home);
        assert(path_view(r@) == app_dir_of(hv).push("config.json"@));
        r
    }
}

} // verus!
