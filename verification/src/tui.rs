//! The history browser: matching, state and event handling.

pub mod app;
pub mod components;
pub mod events;
pub mod fuzzy;
pub mod handlers;
pub mod mode;
pub mod patterns;
