//! Theist sources: the text that describes agents, eggs and free blocks, line by line.
pub mod decode;
pub mod free_tag;
pub mod file;
pub mod agent_tag;
pub mod egg_tag;
pub mod encode;
