//! The interaction core of a terminal text editor: keybindings, cursor
//! motion, viewport scrolling, undo history, search highlights and the
//! input-mode dispatcher, with their contracts.

pub mod config;
pub mod engine;
pub mod field;
pub mod grapheme;
pub mod history;
pub mod key_shortcut;
pub mod navigation;
pub mod operations;
pub mod pike;
pub mod position;
pub mod session;
pub mod text;
pub mod ui;
