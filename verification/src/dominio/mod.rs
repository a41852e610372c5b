//! Domain and persistence logic. Nothing here knows about the terminal.

pub mod atomic;
pub mod config;
pub mod import_export;
pub mod importacao;
pub mod json;
pub mod model;
pub mod ops;
pub mod query;
pub mod store;
pub mod tempo;
pub mod texto;
