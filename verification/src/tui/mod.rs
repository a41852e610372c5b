//! The terminal side: themes, keys, the start-up decisions and the texts the
//! screen shows. Nothing here draws; the drawing lives outside the library.

pub mod theme;
pub mod arranque;
pub mod event;
pub mod ui;
pub mod grelha;
pub mod app;
