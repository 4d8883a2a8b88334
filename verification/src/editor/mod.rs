//! The state of the agent editor and the changes its commands make: the open file,
//! its tags and dependencies, the selected tag, and the undo history.
pub mod file;
pub mod history;
pub mod dependency;
pub mod tag_info;
pub mod tag;
pub mod config;
