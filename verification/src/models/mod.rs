//! The data model of a save file.

pub mod todos;
