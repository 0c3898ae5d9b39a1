//! Annotates a stream of paths with the status that a change summary
//! (the `create mode` / `delete mode` / `rename` lines of a commit summary)
//! gives them.

pub mod text;
pub mod tables;
pub mod report;
pub mod classify;
pub mod laws;
