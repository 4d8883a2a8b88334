//! Free blocks: a block of any type whose contents are the tag's text.
use vstd::prelude::*;
use vstd::string::*;
use vstd::utf8::*;
use crate::agent::tag::Tag;
use crate::agent::free_tag::FreeTag;
use crate::agent::file::CreaturesFile;
use crate::buffer::put_slice;
use crate::error::Error;
use crate::text::{to_uppercase, unicode_uppercase, utf8_to_string, to_owned};
use super::helper::{write_block_header, compiled_header_bytes};

verus! {

/// Writes a free tag's block.
pub fn write_free_block(tag: &FreeTag, _files: &[CreaturesFile]) -> (r: Result<Vec<u8>, Error>)
    ensures
        r matches Ok(b) && b@ == compiled_header_bytes(unicode_uppercase(tag.block_type@), tag.name@,
            #[verifier::truncate] ((encode_utf8(tag.contents@).len() as usize) as u32)) + encode_utf8(tag.contents@),
{
    let block_type = to_uppercase(tag.block_type.as_str());
    let contents = tag.contents.as_str().as_bytes();
    let size = #[verifier::truncate] (contents.len() as u32);
    let mut buffer = write_block_header(block_type.as_str(), tag.name.as_str(), size);
    put_slice(&mut buffer, contents);
    Ok(buffer)
}

/// Reads a free block: a free tag of the block's type and name holding the block's
/// text; an error where the contents are not UTF-8.
pub fn read_free_block(contents: &[u8], block_type: &String, block_name: &String) -> (r: Result<Tag, Error>)
    ensures
        if valid_utf8(contents@) {
            r matches Ok(Tag::Free(t)) && t.name@ == block_name@ && t.version@ == Seq::<char>::empty()
                && t.block_type@ == block_type@ && t.contents@ == decode_utf8(contents@)
        } else {
            r matches Err(Error::InvalidUtf8)
        },
{
    match utf8_to_string(contents) {
        Some(text) => Ok(Tag::Free(FreeTag {
            name: to_owned(block_name.as_str()),
            version: String::new(),
            block_type: to_owned(block_type.as_str()),
            contents: text,
        })),
        None => Err(Error::InvalidUtf8),
    }
}

} // verus!
