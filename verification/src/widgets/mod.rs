//! The three widgets: each owns its own state and answers to key presses.

pub mod file_browser;
pub mod list_state;
pub mod options;
pub mod prompt_editor;
pub mod tree_model;
