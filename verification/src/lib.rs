//! Core of a clipboard-history manager: fuzzy matching, the history browser's
//! state machine, the daemon's debounce state machine and the history store.

pub mod clipboard;
pub mod commands;
pub mod config;
pub mod daemon;
pub mod db;
pub mod error;
pub mod text;
pub mod tui;
