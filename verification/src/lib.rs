use vstd::prelude::*;

pub mod error;
pub mod text;
pub mod format;
pub mod buffer;
pub mod compression;
pub mod file_helper;
pub mod reorder;
pub mod pattern;
pub mod agent;
pub mod source;
pub mod editor;
pub mod sprite;
pub mod pray;
pub mod ui;

verus! {
} // verus!
