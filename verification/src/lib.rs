//! A terminal task manager's core: sections of todos, kanban boards, and the
//! rules that keep them consistent with Reminders and Jira.

pub mod text;
pub mod config;
pub mod jira;
pub mod models;
pub mod app;
pub mod handler;
pub mod scanner;
pub mod reminders;
pub mod cli;
pub mod view;
pub mod laws;
