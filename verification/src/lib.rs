//! The logic of a terminal coding agent: its tools, its self-updater and its interface state,
//! stated as contracts and proved.

pub mod protocol;
pub mod sorting;
pub mod text;
pub mod text_laws;
pub mod tools;
pub mod tui;
pub mod updater;
