//! Compiling tags and files to a PRAY file, and reading tags and files back from one.
pub mod helper;
pub mod info_block;
pub mod free_block;
pub mod file_block;
pub mod agent_block;
pub mod egg_block;
pub mod compile;
pub mod decompile;
pub mod read_back;
