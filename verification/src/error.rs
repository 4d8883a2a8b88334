//! The errors that reading and writing agent files and sources can give.
use vstd::prelude::*;
use crate::text::to_owned;

verus! {

/// What went wrong.
#[derive(Debug)]
pub enum Error {
    /// The data ends in the middle of a four-byte integer.
    IntegerCut,
    /// The data ends in the middle of a fixed-length string.
    StringCut,
    /// The data ends in the middle of a block's contents.
    BlockContentsCut,
    /// Compressed block contents could not be inflated.
    Decompression,
    /// Block contents could not be compressed.
    Compression,
    /// Text that must be UTF-8 is not.
    InvalidUtf8,
    /// An image's data is not a valid sprite.
    InvalidSprite,
    /// Any other failure, with its message.
    Other(String),
}

/// An error that carries the given message.
pub fn create_error(error_string: &str) -> (r: Error)
    ensures
        r matches Error::Other(m) && m@ == error_string@,
{
    Error::Other(to_owned(error_string))
}

} // verus!
