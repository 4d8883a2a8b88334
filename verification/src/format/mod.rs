//! The PRAY agent file format, block by block.
pub mod pray;
pub mod file_block;
pub mod generic_block;
pub mod agent_block;
pub mod read_back;
pub mod egg_block;
pub mod gb_block;
