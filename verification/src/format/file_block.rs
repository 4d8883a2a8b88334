//! FILE blocks: a dependency's bytes, stored zlib-compressed.
use vstd::prelude::*;
use crate::error::Error;
use crate::text::{push_char, push_str, to_owned};
use crate::buffer::put_slice;
use crate::compression::{zlib_deflated, zlib_inflated};
use super::pray::{BlockHeader, BlockHeaderView, block_header_bytes, write_block_header, compress_block_contents};

verus! {

/// A dependency: a file with a name, an extension and its bytes.
pub struct File {
    pub name: String,
    pub extension: String,
    pub data: Vec<u8>,
    pub is_checked: bool,
}

/// A dependency's value.
pub struct FileView {
    pub name: Seq<char>,
    pub extension: Seq<char>,
    pub data: Seq<u8>,
    pub is_checked: bool,
}

impl View for File {
    type V = FileView;

    open spec fn view(&self) -> FileView {
        FileView { name: self.name@, extension: self.extension@, data: self.data@, is_checked: self.is_checked }
    }
}

/// `name.extension`.
pub open spec fn full_name(name: Seq<char>, extension: Seq<char>) -> Seq<char> {
    name.push('.') + extension
}

impl File {
    /// The file's name with its extension, `name.extension`.
    pub fn filename(&self) -> (r: String)
        ensures
            r@ == full_name(self.name@, self.extension@),
    {
        let mut r = to_owned(self.name.as_str());
        push_char(&mut r, '.');
        push_str(&mut r, self.extension.as_str());
        r
    }

    /// A copy of the file.
    pub fn copy(&self) -> (r: File)
        ensures
            r@ == self@,
    {
        let mut data: Vec<u8> = Vec::new();
        put_slice(&mut data, self.data.as_slice());
        File {
            name: to_owned(self.name.as_str()),
            extension: to_owned(self.extension.as_str()),
            data,
            is_checked: self.is_checked,
        }
    }
}

/// The header of a FILE block for `f`, whose compressed data has length `stored`.
pub open spec fn file_block_header(f: FileView, stored: nat) -> BlockHeaderView {
    BlockHeaderView {
        id: "FILE"@,
        name: full_name(f.name, f.extension),
        size_compressed: stored as usize,
        size_uncompressed: f.data.len() as usize,
        is_compressed: true,
    }
}

/// The bytes of a FILE block: its header, then the zlib-compressed data.
pub open spec fn file_block_bytes(f: FileView) -> Seq<u8> {
    let c = zlib_deflated(f.data);
    block_header_bytes(file_block_header(f, c.len())) + c
}

/// The bytes of a FILE block for `file_block`.
pub fn write_file_block(file_block: &File) -> (r: Result<Vec<u8>, Error>)
    ensures
        r is Ok,
        match r {
            Ok(b) => b@ == file_block_bytes(file_block@) && zlib_inflated(zlib_deflated(file_block.data@)) == Some(file_block.data@),
            Err(e) => e == Error::Compression,
        },
{
    let compressed_data = compress_block_contents(file_block.data.as_slice())?;
    let block_header = BlockHeader {
        id: to_owned("FILE"),
        name: file_block.filename(),
        size_compressed: compressed_data.len(),
        size_uncompressed: file_block.data.len(),
        is_compressed: true,
    };
    let mut buffer = write_block_header(block_header);
    put_slice(&mut buffer, compressed_data.as_slice());
    Ok(buffer)
}

} // verus!
