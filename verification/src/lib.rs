//! Context-aware key-binding hints for a terminal multiplexer status bar.
pub mod actions;
pub mod ansi;
pub mod hints;
pub mod keys;
pub mod plugin;
pub mod style;
pub mod text;
