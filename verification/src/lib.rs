//! Builds git repositories from a declarative script of commands.

pub mod format;
pub mod labels;
pub mod laws;
pub mod model;
pub mod runner;
pub mod text;

pub use model::{Branch, Command, FileContent, Label, Merge, Tag, TodoList, Tree};
