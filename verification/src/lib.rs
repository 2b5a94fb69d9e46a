//! Core of a terminal tool that lets a user browse a file tree, pick files,
//! write a prompt, and send both to a text-completion service.
//!
//! The crate holds the widget states, the focus router that dispatches key
//! presses to them, the visibility model of the collapsible file tree, and the
//! composer that assembles the outgoing query. Every function carries a
//! contract that the verifier proves.

pub mod app;
pub mod input;
pub mod openai;
pub mod prompt;
pub mod widgets;
