//! Strings and block headers as the compiler writes and reads them.
use vstd::prelude::*;
use vstd::string::*;
use crate::buffer::{ByteReader, seq_le_u32};
use crate::format::pray::{block_header_bytes, BlockHeaderView, read_u32, padded, lemma_read_write_block_header, lemma_read_write_string};
use crate::buffer::{u32_le_bytes, lemma_u32_le_roundtrip};
use vstd::utf8::*;
use crate::text::{ascii_text, to_owned, is_plain_ascii};
pub use crate::format::pray::write_string;

verus! {

/// A block header as the compiler reads it: the type id as written, the name, the
/// stored size, the uncompressed size and the compression flag.
pub struct BlockHeader {
    pub block_type: String,
    pub name: String,
    pub size: usize,
    pub size_uncompressed: usize,
    pub is_compressed: bool,
}

/// The header read from the first 144 bytes of `s`.
pub open spec fn header_of(s: Seq<u8>) -> (Seq<char>, Seq<char>, u32, u32, u32) {
    (
        ascii_text(s.take(4)),
        ascii_text(s.subrange(4, 132)),
        seq_le_u32(s.subrange(132, 136)),
        seq_le_u32(s.subrange(136, 140)),
        seq_le_u32(s.subrange(140, 144)),
    )
}

/// The header that the compiler writes for a block: the type id, the name ended by a
/// NUL, the size twice, and no compression.
pub open spec fn compiled_header_bytes(block_type: Seq<char>, name: Seq<char>, size: u32) -> Seq<u8> {
    block_header_bytes(
        BlockHeaderView { id: block_type, name, size_compressed: size as usize, size_uncompressed: size as usize, is_compressed: false },
    )
}

/// Reads `num_bytes` bytes as a string, keeping the ASCII bytes that are not NUL.
pub fn read_string(buffer: &mut ByteReader, num_bytes: usize) -> (r: String)
    requires
        old(buffer)@.len() >= num_bytes,
    ensures
        r@ == ascii_text(old(buffer)@.take(num_bytes as int)),
        final(buffer)@ == old(buffer)@.skip(num_bytes as int),
{
    match crate::format::pray::read_string(buffer, num_bytes) {
        Ok(s) => s,
        Err(_) => String::new(),
    }
}

/// The header bytes of a block of the given type, name and size, stored uncompressed.
pub fn write_block_header(block_type: &str, block_name: &str, block_size: u32) -> (r: Vec<u8>)
    ensures
        r@ == compiled_header_bytes(block_type@, block_name@, block_size),
{
    crate::format::pray::write_block_header(crate::format::pray::BlockHeader {
        id: to_owned(block_type),
        name: to_owned(block_name),
        size_compressed: block_size as usize,
        size_uncompressed: block_size as usize,
        is_compressed: false,
    })
}

fn read_u32_le(buffer: &mut ByteReader) -> (r: u32)
    requires
        old(buffer)@.len() >= 4,
    ensures
        r == seq_le_u32(old(buffer)@.take(4)),
        final(buffer)@ == old(buffer)@.skip(4),
{
    match read_u32(buffer) {
        Ok(v) => {
            v
        },
        Err(_) => 0,
    }
}

/// Reads a block header from the next 144 bytes.
pub fn read_block_header(buffer: &mut ByteReader) -> (r: BlockHeader)
    requires
        old(buffer)@.len() >= 144,
    ensures
        r.block_type@ == header_of(old(buffer)@).0,
        r.name@ == header_of(old(buffer)@).1,
        r.size == header_of(old(buffer)@).2 as usize,
        r.size_uncompressed == header_of(old(buffer)@).3 as usize,
        r.is_compressed == (header_of(old(buffer)@).4 == 1),
        final(buffer)@ == old(buffer)@.skip(144),
{
    let ghost s = buffer@;
    let block_type = read_string(buffer, 4);
    let name = read_string(buffer, 128);
    let size = read_u32_le(buffer) as usize;
    let size_uncompressed = read_u32_le(buffer) as usize;
    let flag = read_u32_le(buffer);
    proof {
        assert(s.skip(4).take(128) =~= s.subrange(4, 132));
        assert(s.skip(4).skip(128).take(4) =~= s.subrange(132, 136));
        assert(s.skip(4).skip(128).skip(4).take(4) =~= s.subrange(136, 140));
        assert(s.skip(4).skip(128).skip(4).skip(4).take(4) =~= s.subrange(140, 144));
        assert(s.skip(4).skip(128).skip(4).skip(4).skip(4) =~= s.skip(144));
    }
    BlockHeader { block_type, name, size, size_uncompressed, is_compressed: flag == 1 }
}

/// A header that the compiler writes reads back as the type, name and size written,
/// with no compression, and 144 bytes long, when the type and name are ASCII without NUL
/// and fit (a type of at most 4 characters, a name of at most 128).
pub proof fn lemma_compiled_header_read(block_type: Seq<char>, name: Seq<char>, size: u32, rest: Seq<u8>)
    requires
        is_plain_ascii(block_type),
        block_type.len() <= 4,
        is_plain_ascii(name),
        name.len() <= 128,
    ensures
        ({
            let s = compiled_header_bytes(block_type, name, size) + rest;
            &&& s.len() >= 144
            &&& header_of(s) == (block_type, name, size, size, 0u32)
            &&& s.skip(144) == rest
        }),
{
    let h = BlockHeaderView { id: block_type, name, size_compressed: size as usize, size_uncompressed: size as usize, is_compressed: false };
    let s = compiled_header_bytes(block_type, name, size) + rest;
    lemma_read_write_block_header(h, rest);
    let b = padded(encode_utf8(name.push('\0')), 128);
    let c = u32_le_bytes(size);
    let f = u32_le_bytes(0u32);
    let a = padded(encode_utf8(block_type), 4);
    assert(s =~= a + (b + (c + (c + (f + rest)))));
    lemma_read_write_string(block_type, 4, b + (c + (c + (f + rest))));
    assert(s.take(4) =~= a);
    assert(s.skip(4).take(128) =~= s.subrange(4, 132));
    assert(s.skip(4).skip(128).take(4) =~= s.subrange(132, 136));
    assert(s.skip(4).skip(128).skip(4).take(4) =~= s.subrange(136, 140));
    assert(s.skip(4).skip(128).skip(4).skip(4).take(4) =~= s.subrange(140, 144));
    assert(s.skip(4).skip(128).skip(4).skip(4).skip(4) =~= s.skip(144));
    lemma_u32_le_roundtrip(size);
    lemma_u32_le_roundtrip(0u32);
    assert(s.subrange(132, 136) =~= c);
    assert(s.subrange(136, 140) =~= c);
    assert(s.subrange(140, 144) =~= f);
}

} // verus!
