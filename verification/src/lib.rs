//! Colour settings of a task list, read from the text of a configuration dump.

pub mod color;
pub mod config;
pub mod text;
