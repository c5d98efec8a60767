//! The tools through which the agent reads and changes a project, and the rules that bound them.

pub mod builtin;
pub mod contract;
pub mod files;
pub mod patch;
pub mod path;
pub mod permissions;
pub mod process;
pub mod redact;
pub mod registry;
pub mod undo;
pub mod workspace;
pub mod worktree;
