//! The interface state, its reactions to events and keys, and the text it shows.

pub mod chat;
pub mod commands;
pub mod composer;
pub mod entry;
pub mod input;
pub mod keys;
pub mod laws;
pub mod layout;
pub mod mcp;
pub mod mouse;
pub mod notes;
pub mod panels;
pub mod pickers;
pub mod preferences;
pub mod prompts;
pub mod reduce;
pub mod requests;
pub mod run;
pub mod state;
pub mod submission;
pub mod terminal;
pub mod transcript;
pub mod view;
pub mod wrap;
