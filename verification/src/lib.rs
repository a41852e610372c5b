//! `todo_ratatui`: the verified core of a TODO list — tasks, a trash that
//! keeps removed tasks for undo, categories, queries, import and export — and
//! the decisions of its terminal front end that do not need a terminal.

pub mod dominio;
pub mod tui;
