//! PRAY files: a `PRAY` marker followed by blocks, each a 144-byte header and its
//! contents; tag blocks hold named integers and named strings.
use vstd::prelude::*;
use vstd::string::*;
use vstd::utf8::*;
use crate::buffer::{ByteReader, put_slice, put_u32_le, seq_le_u32, u32_le_bytes, lemma_u32_le_roundtrip};
use crate::error::Error;
use super::file_block::{File, FileView, full_name, write_file_block, file_block_bytes, file_block_header};
use super::generic_block::{GenericBlock, GenericBlockView, write_generic_block, generic_block_bytes};
use super::agent_block::{Agent, AgentView};
use super::egg_block::{Egg, EggView};
use super::gb_block::{GardenBox, GardenBoxView};
use crate::file_helper::{or_empty, path_file_stem, path_extension};
use super::agent_block::{GameSupport, read_agent_block, spec_agent_blocks, write_agent_block, agent_block_bytes, selected_files, scripts_are_text};
use super::egg_block::{read_egg_block, spec_egg, write_egg_block, egg_block_bytes};
use super::gb_block::{read_gb_block, spec_gb_blocks, write_gb_block, gb_block_bytes};
use crate::compression::{zlib_inflated, zlib_deflated, zlib_decompress, zlib_compress};
use crate::text::{decimal, decimal_string, push_str, strings_view, str_eq, to_owned, ascii_text, ascii_bytes, ascii_uppercase, is_plain_ascii, push_char, to_ascii_uppercase, lemma_ascii_encode, lemma_ascii_text_zeros, lemma_ascii_text_of_ascii_bytes};

verus! {

// ---------------------------------------------------------------- integers and strings

/// Reading a little-endian `u32` from the front of `s`.
pub open spec fn spec_read_u32(s: Seq<u8>) -> Result<(u32, Seq<u8>), Error> {
    if s.len() >= 4 {
        Ok((seq_le_u32(s), s.skip(4)))
    } else {
        Err(Error::IntegerCut)
    }
}

/// Reading a string of `n` bytes from the front of `s`: NUL bytes and bytes above
/// ASCII are left out.
pub open spec fn spec_read_string(s: Seq<u8>, n: nat) -> Result<(Seq<char>, Seq<u8>), Error> {
    if s.len() >= n {
        Ok((ascii_text(s.take(n as int)), s.skip(n as int)))
    } else {
        Err(Error::StringCut)
    }
}

/// The first `n` bytes of `bytes`, padded with NUL bytes to length `n`.
pub open spec fn padded(bytes: Seq<u8>, n: nat) -> Seq<u8> {
    Seq::new(n, |i: int| if i < bytes.len() { bytes[i] } else { 0u8 })
}

/// Reads a little-endian `u32`; an error where fewer than four bytes are left.
pub fn read_u32(buffer: &mut ByteReader) -> (r: Result<u32, Error>)
    ensures
        match r {
            Ok(v) => spec_read_u32(old(buffer)@) == Ok::<(u32, Seq<u8>), Error>((v, final(buffer)@)),
            Err(e) => spec_read_u32(old(buffer)@) == Err::<(u32, Seq<u8>), Error>(e)
                && final(buffer)@ == old(buffer)@,
        },
{
    if buffer.len() >= 4 {
        Ok(buffer.get_u32_le())
    } else {
        Err(Error::IntegerCut)
    }
}

/// Reads a string of `str_len` bytes, keeping the ASCII bytes that are not NUL; an
/// error where fewer than `str_len` bytes are left.
pub fn read_string(buffer: &mut ByteReader, str_len: usize) -> (r: Result<String, Error>)
    ensures
        match r {
            Ok(s) => spec_read_string(old(buffer)@, str_len as nat) == Ok::<(Seq<char>, Seq<u8>), Error>((s@, final(buffer)@)),
            Err(e) => spec_read_string(old(buffer)@, str_len as nat) == Err::<(Seq<char>, Seq<u8>), Error>(e)
                && final(buffer)@ == old(buffer)@,
        },
{
    if buffer.len() >= str_len {
        let ghost start = buffer@;
        let mut string = String::new();
        let mut i: usize = 0;
        while i < str_len
            invariant
                i <= str_len <= start.len(),
                buffer@ == start.skip(i as int),
                string@ == ascii_text(start.take(i as int)),
            decreases str_len - i,
        {
            let byte = buffer.get_u8();
            assert(start.take(i + 1).drop_last() =~= start.take(i as int));
            assert(start.skip(i as int)[0] == start[i as int]);
            if byte != 0 && byte < 128 {
                push_char(&mut string, byte as char);
            }
            i = i + 1;
            assert(buffer@ =~= start.skip(i as int));
        }
        Ok(string)
    } else {
        Err(Error::StringCut)
    }
}

/// The UTF-8 bytes of `string`, cut or padded with NUL bytes to `num_bytes`.
pub fn write_string(string: &str, num_bytes: usize) -> (r: Vec<u8>)
    ensures
        r@ == padded(string.spec_bytes(), num_bytes as nat),
{
    let bytes = string.as_bytes();
    let mut buffer: Vec<u8> = Vec::new();
    let mut i: usize = 0;
    while i < num_bytes
        invariant
            i <= num_bytes,
            bytes@ == string.spec_bytes(),
            buffer@ == padded(bytes@, i as nat),
        decreases num_bytes - i,
    {
        if i >= bytes.len() {
            buffer.push(0);
        } else {
            buffer.push(bytes[i]);
        }
        i = i + 1;
        assert(buffer@ =~= padded(bytes@, i as nat));
    }
    buffer
}

/// Reading back a written string gives the string, when its characters are ASCII
/// without NUL and they fit.
pub proof fn lemma_read_write_string(s: Seq<char>, n: nat, rest: Seq<u8>)
    requires
        is_plain_ascii(s),
        s.len() <= n,
    ensures
        spec_read_string(padded(encode_utf8(s), n) + rest, n) == Ok::<(Seq<char>, Seq<u8>), Error>((s, rest)),
{
    lemma_ascii_encode(s);
    let z = Seq::new((n - s.len()) as nat, |i: int| 0u8);
    let w = padded(encode_utf8(s), n);
    assert(w =~= ascii_bytes(s) + z);
    lemma_ascii_text_zeros(ascii_bytes(s), (n - s.len()) as nat);
    lemma_ascii_text_of_ascii_bytes(s);
    assert((w + rest).take(n as int) =~= w);
    assert((w + rest).skip(n as int) =~= rest);
}

// ---------------------------------------------------------------- block headers

/// A block header: the block's type id, name, sizes and compression flag.
pub struct BlockHeader {
    pub id: String,
    pub name: String,
    pub size_compressed: usize,
    pub size_uncompressed: usize,
    pub is_compressed: bool,
}

/// A block header's value.
pub struct BlockHeaderView {
    pub id: Seq<char>,
    pub name: Seq<char>,
    pub size_compressed: usize,
    pub size_uncompressed: usize,
    pub is_compressed: bool,
}

impl View for BlockHeader {
    type V = BlockHeaderView;

    open spec fn view(&self) -> BlockHeaderView {
        BlockHeaderView {
            id: self.id@,
            name: self.name@,
            size_compressed: self.size_compressed,
            size_uncompressed: self.size_uncompressed,
            is_compressed: self.is_compressed,
        }
    }
}

/// Reading a block header: a 4-byte type id (in upper case), a 128-byte name, the
/// stored size, the uncompressed size, and the compression flag (set when it is 1).
pub open spec fn spec_read_block_header(s: Seq<u8>) -> Result<(BlockHeaderView, Seq<u8>), Error> {
    match spec_read_string(s, 4) {
        Err(e) => Err(e),
        Ok((id, s1)) => match spec_read_string(s1, 128) {
            Err(e) => Err(e),
            Ok((name, s2)) => match spec_read_u32(s2) {
                Err(e) => Err(e),
                Ok((size_compressed, s3)) => match spec_read_u32(s3) {
                    Err(e) => Err(e),
                    Ok((size_uncompressed, s4)) => match spec_read_u32(s4) {
                        Err(e) => Err(e),
                        Ok((flag, s5)) => Ok(
                            (
                                BlockHeaderView {
                                    id: ascii_uppercase(id),
                                    name,
                                    size_compressed: size_compressed as usize,
                                    size_uncompressed: size_uncompressed as usize,
                                    is_compressed: flag == 1,
                                },
                                s5,
                            ),
                        ),
                    },
                },
            },
        },
    }
}

/// The 144 bytes of a block header.
pub open spec fn block_header_bytes(h: BlockHeaderView) -> Seq<u8> {
    padded(encode_utf8(h.id), 4) + padded(encode_utf8(h.name.push('\0')), 128) + u32_le_bytes(
        h.size_compressed as u32,
    ) + u32_le_bytes(h.size_uncompressed as u32) + u32_le_bytes(
        if h.is_compressed {
            1u32
        } else {
            0u32
        },
    )
}

/// Reads a block header.
pub fn read_block_header(buffer: &mut ByteReader) -> (r: Result<BlockHeader, Error>)
    ensures
        match r {
            Ok(h) => spec_read_block_header(old(buffer)@) == Ok::<(BlockHeaderView, Seq<u8>), Error>((h@, final(buffer)@)),
            Err(e) => spec_read_block_header(old(buffer)@) == Err::<(BlockHeaderView, Seq<u8>), Error>(e),
        },
{
    let raw_id = read_string(buffer, 4)?;
    let id = to_ascii_uppercase(raw_id.as_str());
    let name = read_string(buffer, 128)?;
    let size_compressed = read_u32(buffer)? as usize;
    let size_uncompressed = read_u32(buffer)? as usize;
    let is_compressed = read_u32(buffer)? == 1;
    Ok(BlockHeader { id, name, size_compressed, size_uncompressed, is_compressed })
}

/// The bytes of a block header.
pub fn write_block_header(block_header: BlockHeader) -> (r: Vec<u8>)
    ensures
        r@ == block_header_bytes(block_header@),
{
    let mut buffer: Vec<u8> = Vec::new();
    let id_bytes = write_string(block_header.id.as_str(), 4);
    put_slice(&mut buffer, id_bytes.as_slice());
    let mut name = block_header.name;
    push_char(&mut name, '\0');
    let name_bytes = write_string(name.as_str(), 128);
    put_slice(&mut buffer, name_bytes.as_slice());
    put_u32_le(&mut buffer, block_header.size_compressed as u32);
    put_u32_le(&mut buffer, block_header.size_uncompressed as u32);
    put_u32_le(&mut buffer, if block_header.is_compressed { 1 } else { 0 });
    buffer
}

/// Reading back a written block header gives the header, with its id in upper case,
/// when its id and name are ASCII without NUL, the id has at most 4 characters, the
/// name at most 128, and the sizes fit in 32 bits.
#[verifier::spinoff_prover]
#[verifier::rlimit(40)]
pub proof fn lemma_read_write_block_header(h: BlockHeaderView, rest: Seq<u8>)
    requires
        is_plain_ascii(h.id),
        h.id.len() <= 4,
        is_plain_ascii(h.name),
        h.name.len() <= 128,
        h.size_compressed <= u32::MAX,
        h.size_uncompressed <= u32::MAX,
    ensures
        spec_read_block_header(block_header_bytes(h) + rest) == Ok::<(BlockHeaderView, Seq<u8>), Error>(
            (BlockHeaderView { id: ascii_uppercase(h.id), ..h }, rest),
        ),
{
    let a = padded(encode_utf8(h.id), 4);
    let b = padded(encode_utf8(h.name.push('\0')), 128);
    let c = u32_le_bytes(h.size_compressed as u32);
    let d = u32_le_bytes(h.size_uncompressed as u32);
    let f = u32_le_bytes(if h.is_compressed { 1u32 } else { 0u32 });
    assert(block_header_bytes(h) + rest =~= a + (b + (c + (d + (f + rest)))));
    lemma_read_write_string(h.id, 4, b + (c + (d + (f + rest))));
    // the NUL that ends the name is dropped on reading
    lemma_ascii_encode(h.name);
    let z = Seq::new((128 - h.name.len()) as nat, |i: int| 0u8);
    assert(encode_utf8(h.name.push('\0')) =~= encode_utf8(h.name) + encode_utf8(seq!['\0'])) by {
        vstd::utf8::encode_utf8_first_scalar(seq!['\0']);
        assert(h.name.push('\0') =~= h.name + seq!['\0']);
        lemma_encode_utf8_concat(h.name, seq!['\0']);
    }
    assert(encode_utf8(seq!['\0']) =~= seq![0u8]) by {
        assert(('\0' as u32) == 0u32);
        assert((0u32 & 0x7f) == 0u32) by (bit_vector);
        assert(encode_scalar(0u32) == seq![0u8]);
        let q = seq!['\0'];
        assert(q[0] as u32 == 0u32);
        assert(q.drop_first() =~= Seq::<char>::empty());
        assert(encode_utf8(q.drop_first()) =~= Seq::<u8>::empty());
        assert(encode_utf8(q) == encode_scalar(q[0] as u32) + encode_utf8(q.drop_first()));
    }
    assert(b =~= ascii_bytes(h.name) + z);
    lemma_ascii_text_zeros(ascii_bytes(h.name), (128 - h.name.len()) as nat);
    lemma_ascii_text_of_ascii_bytes(h.name);
    let r1 = c + (d + (f + rest));
    assert((b + r1).take(128) =~= b);
    assert((b + r1).skip(128) =~= r1);
    lemma_u32_le_roundtrip(h.size_compressed as u32);
    lemma_u32_le_roundtrip(h.size_uncompressed as u32);
    lemma_u32_le_roundtrip(if h.is_compressed { 1u32 } else { 0u32 });
    assert(r1.skip(4) =~= d + (f + rest));
    assert((d + (f + rest)).skip(4) =~= f + rest);
    assert((f + rest).skip(4) =~= rest);
    assert(r1.take(4) =~= c);
    assert(seq_le_u32(r1) == seq_le_u32(c));
    assert(seq_le_u32(d + (f + rest)) == seq_le_u32(d));
    assert(seq_le_u32(f + rest) == seq_le_u32(f));
}

/// The UTF-8 encoding of joined characters joins their encodings.
pub proof fn lemma_encode_utf8_concat(a: Seq<char>, b: Seq<char>)
    ensures
        encode_utf8(a + b) == encode_utf8(a) + encode_utf8(b),
    decreases a.len(),
{
    if a.len() == 0 {
        assert(a + b =~= b);
    } else {
        lemma_encode_utf8_concat(a.drop_first(), b);
        assert((a + b).drop_first() =~= a.drop_first() + b);
        assert((a + b)[0] == a[0]);
    }
}


// ---------------------------------------------------------------- tag blocks

/// The named integers and named strings of a tag block, in the order they were read;
/// where a name occurs twice, the later value is the one that counts.
pub struct Tag {
    pub int_values: Vec<(String, u32)>,
    pub str_values: Vec<(String, String)>,
}

/// The value of a tag block: its integer entries and its string entries.
pub struct TagView {
    pub ints: Seq<(Seq<char>, u32)>,
    pub strs: Seq<(Seq<char>, Seq<char>)>,
}

/// The characters of named integers.
pub open spec fn int_entries_view(v: Seq<(String, u32)>) -> Seq<(Seq<char>, u32)> {
    Seq::new(v.len(), |i: int| (v[i].0@, v[i].1))
}

/// The characters of named strings.
pub open spec fn str_entries_view(v: Seq<(String, String)>) -> Seq<(Seq<char>, Seq<char>)> {
    Seq::new(v.len(), |i: int| (v[i].0@, v[i].1@))
}

impl View for Tag {
    type V = TagView;

    open spec fn view(&self) -> TagView {
        TagView { ints: int_entries_view(self.int_values@), strs: str_entries_view(self.str_values@) }
    }
}

/// The value of the last integer entry named `key`.
pub open spec fn lookup_int(ints: Seq<(Seq<char>, u32)>, key: Seq<char>) -> Option<u32>
    decreases ints.len(),
{
    if ints.len() == 0 {
        None
    } else if ints.last().0 == key {
        Some(ints.last().1)
    } else {
        lookup_int(ints.drop_last(), key)
    }
}

/// The value of the last string entry named `key`.
pub open spec fn lookup_str(strs: Seq<(Seq<char>, Seq<char>)>, key: Seq<char>) -> Option<Seq<char>>
    decreases strs.len(),
{
    if strs.len() == 0 {
        None
    } else if strs.last().0 == key {
        Some(strs.last().1)
    } else {
        lookup_str(strs.drop_last(), key)
    }
}

impl Tag {
    /// The value of the integer named `key`.
    pub fn get_int(&self, key: &str) -> (r: Option<u32>)
        ensures
            r == lookup_int(self@.ints, key@),
    {
        let mut i = self.int_values.len();
        assert(self@.ints.take(i as int) =~= self@.ints);
        while i > 0
            invariant
                i <= self.int_values@.len(),
                lookup_int(self@.ints, key@) == lookup_int(self@.ints.take(i as int), key@),
            decreases i,
        {
            let ghost t = self@.ints.take(i as int);
            assert(t.drop_last() =~= self@.ints.take(i - 1));
            if str_eq(self.int_values[i - 1].0.as_str(), key) {
                return Some(self.int_values[i - 1].1);
            }
            i = i - 1;
        }
        None
    }

    /// The value of the string named `key`.
    pub fn get_str(&self, key: &str) -> (r: Option<String>)
        ensures
            match r {
                Some(v) => lookup_str(self@.strs, key@) == Some(v@),
                None => lookup_str(self@.strs, key@) is None,
            },
    {
        let mut i = self.str_values.len();
        assert(self@.strs.take(i as int) =~= self@.strs);
        while i > 0
            invariant
                i <= self.str_values@.len(),
                lookup_str(self@.strs, key@) == lookup_str(self@.strs.take(i as int), key@),
            decreases i,
        {
            let ghost t = self@.strs.take(i as int);
            assert(t.drop_last() =~= self@.strs.take(i - 1));
            if str_eq(self.str_values[i - 1].0.as_str(), key) {
                return Some(to_owned(self.str_values[i - 1].1.as_str()));
            }
            i = i - 1;
        }
        None
    }
}

/// Reading one integer entry: the name's length, the name, the value.
pub open spec fn spec_read_int_entry(s: Seq<u8>) -> Result<((Seq<char>, u32), Seq<u8>), Error> {
    match spec_read_u32(s) {
        Err(e) => Err(e),
        Ok((name_len, s1)) => match spec_read_string(s1, name_len as nat) {
            Err(e) => Err(e),
            Ok((name, s2)) => match spec_read_u32(s2) {
                Err(e) => Err(e),
                Ok((value, s3)) => Ok(((name, value), s3)),
            },
        },
    }
}

/// Reading one string entry: the name's length, the name, the value's length, the value.
pub open spec fn spec_read_str_entry(s: Seq<u8>) -> Result<((Seq<char>, Seq<char>), Seq<u8>), Error> {
    match spec_read_u32(s) {
        Err(e) => Err(e),
        Ok((name_len, s1)) => match spec_read_string(s1, name_len as nat) {
            Err(e) => Err(e),
            Ok((name, s2)) => match spec_read_u32(s2) {
                Err(e) => Err(e),
                Ok((value_len, s3)) => match spec_read_string(s3, value_len as nat) {
                    Err(e) => Err(e),
                    Ok((value, s4)) => Ok(((name, value), s4)),
                },
            },
        },
    }
}

/// Reading `count` integer entries in a row.
pub open spec fn spec_read_int_entries(s: Seq<u8>, count: nat) -> Result<(Seq<(Seq<char>, u32)>, Seq<u8>), Error>
    decreases count,
{
    if count == 0 {
        Ok((Seq::empty(), s))
    } else {
        match spec_read_int_entries(s, (count - 1) as nat) {
            Err(e) => Err(e),
            Ok((entries, s1)) => match spec_read_int_entry(s1) {
                Err(e) => Err(e),
                Ok((entry, s2)) => Ok((entries.push(entry), s2)),
            },
        }
    }
}

/// Reading `count` string entries in a row.
pub open spec fn spec_read_str_entries(s: Seq<u8>, count: nat) -> Result<(Seq<(Seq<char>, Seq<char>)>, Seq<u8>), Error>
    decreases count,
{
    if count == 0 {
        Ok((Seq::empty(), s))
    } else {
        match spec_read_str_entries(s, (count - 1) as nat) {
            Err(e) => Err(e),
            Ok((entries, s1)) => match spec_read_str_entry(s1) {
                Err(e) => Err(e),
                Ok((entry, s2)) => Ok((entries.push(entry), s2)),
            },
        }
    }
}

/// Reading a tag block: the number of integer entries and the entries, then the number
/// of string entries and the entries.
pub open spec fn spec_read_tag_block(s: Seq<u8>) -> Result<(TagView, Seq<u8>), Error> {
    match spec_read_u32(s) {
        Err(e) => Err(e),
        Ok((num_ints, s1)) => match spec_read_int_entries(s1, num_ints as nat) {
            Err(e) => Err(e),
            Ok((ints, s2)) => match spec_read_u32(s2) {
                Err(e) => Err(e),
                Ok((num_strs, s3)) => match spec_read_str_entries(s3, num_strs as nat) {
                    Err(e) => Err(e),
                    Ok((strs, s4)) => Ok((TagView { ints, strs }, s4)),
                },
            },
        },
    }
}

/// Once reading entries fails, reading more of them fails the same way.
pub proof fn lemma_int_entries_err(s: Seq<u8>, i: nat, n: nat)
    requires
        i <= n,
        spec_read_int_entries(s, i) is Err,
    ensures
        spec_read_int_entries(s, n) == spec_read_int_entries(s, i),
    decreases n - i,
{
    if i < n {
        lemma_int_entries_err(s, i, (n - 1) as nat);
    }
}

/// Once reading entries fails, reading more of them fails the same way.
pub proof fn lemma_str_entries_err(s: Seq<u8>, i: nat, n: nat)
    requires
        i <= n,
        spec_read_str_entries(s, i) is Err,
    ensures
        spec_read_str_entries(s, n) == spec_read_str_entries(s, i),
    decreases n - i,
{
    if i < n {
        lemma_str_entries_err(s, i, (n - 1) as nat);
    }
}

/// Reads one integer entry.
fn read_int_entry(buffer: &mut ByteReader) -> (r: Result<(String, u32), Error>)
    ensures
        match r {
            Ok(e) => spec_read_int_entry(old(buffer)@) == Ok::<((Seq<char>, u32), Seq<u8>), Error>(((e.0@, e.1), final(buffer)@)),
            Err(e) => spec_read_int_entry(old(buffer)@) == Err::<((Seq<char>, u32), Seq<u8>), Error>(e),
        },
{
    let name_len = read_u32(buffer)?;
    let name = read_string(buffer, name_len as usize)?;
    let value = read_u32(buffer)?;
    Ok((name, value))
}

/// Reads one string entry.
fn read_str_entry(buffer: &mut ByteReader) -> (r: Result<(String, String), Error>)
    ensures
        match r {
            Ok(e) => spec_read_str_entry(old(buffer)@) == Ok::<((Seq<char>, Seq<char>), Seq<u8>), Error>(((e.0@, e.1@), final(buffer)@)),
            Err(e) => spec_read_str_entry(old(buffer)@) == Err::<((Seq<char>, Seq<char>), Seq<u8>), Error>(e),
        },
{
    let name_len = read_u32(buffer)?;
    let name = read_string(buffer, name_len as usize)?;
    let value_len = read_u32(buffer)?;
    let value = read_string(buffer, value_len as usize)?;
    Ok((name, value))
}

/// Reads a tag block.
pub fn read_tag_block(buffer: &mut ByteReader) -> (r: Result<Tag, Error>)
    ensures
        match r {
            Ok(t) => spec_read_tag_block(old(buffer)@) == Ok::<(TagView, Seq<u8>), Error>((t@, final(buffer)@)),
            Err(e) => spec_read_tag_block(old(buffer)@) == Err::<(TagView, Seq<u8>), Error>(e),
        },
{
    let mut int_values: Vec<(String, u32)> = Vec::new();
    let num_int_values = read_u32(buffer)?;
    let ghost s1 = buffer@;
    let mut i: u32 = 0;
    assert(int_entries_view(int_values@) =~= Seq::<(Seq<char>, u32)>::empty());
    while i < num_int_values
        invariant
            i <= num_int_values,
            spec_read_u32(old(buffer)@) == Ok::<(u32, Seq<u8>), Error>((num_int_values, s1)),
            spec_read_int_entries(s1, i as nat) == Ok::<(Seq<(Seq<char>, u32)>, Seq<u8>), Error>((int_entries_view(int_values@), buffer@)),
        decreases num_int_values - i,
    {
        let ghost before = int_values@;
        match read_int_entry(buffer) {
            Ok(entry) => {
                let ghost ev = (entry.0@, entry.1);
                int_values.push(entry);
                assert(int_entries_view(int_values@) =~= int_entries_view(before).push(ev));
            },
            Err(e) => {
                proof {
                    lemma_int_entries_err(s1, (i + 1) as nat, num_int_values as nat);
                }
                return Err(e);
            },
        }
        i = i + 1;
    }
    let mut str_values: Vec<(String, String)> = Vec::new();
    let ghost s2 = buffer@;
    let num_str_values = read_u32(buffer)?;
    let ghost s3 = buffer@;
    let mut j: u32 = 0;
    assert(str_entries_view(str_values@) =~= Seq::<(Seq<char>, Seq<char>)>::empty());
    while j < num_str_values
        invariant
            j <= num_str_values,
            spec_read_u32(old(buffer)@) == Ok::<(u32, Seq<u8>), Error>((num_int_values, s1)),
            spec_read_int_entries(s1, num_int_values as nat) == Ok::<(Seq<(Seq<char>, u32)>, Seq<u8>), Error>((int_entries_view(int_values@), s2)),
            spec_read_u32(s2) == Ok::<(u32, Seq<u8>), Error>((num_str_values, s3)),
            spec_read_str_entries(s3, j as nat) == Ok::<(Seq<(Seq<char>, Seq<char>)>, Seq<u8>), Error>((str_entries_view(str_values@), buffer@)),
        decreases num_str_values - j,
    {
        let ghost before = str_values@;
        match read_str_entry(buffer) {
            Ok(entry) => {
                let ghost ev = (entry.0@, entry.1@);
                str_values.push(entry);
                assert(str_entries_view(str_values@) =~= str_entries_view(before).push(ev));
            },
            Err(e) => {
                proof {
                    lemma_str_entries_err(s3, (j + 1) as nat, num_str_values as nat);
                }
                return Err(e);
            },
        }
        j = j + 1;
    }
    Ok(Tag { int_values, str_values })
}


/// The bytes of one integer entry.
pub open spec fn int_entry_bytes(e: (Seq<char>, u32)) -> Seq<u8> {
    u32_le_bytes(#[verifier::truncate] ((encode_utf8(e.0).len() as usize) as u32)) + encode_utf8(e.0) + u32_le_bytes(e.1)
}

/// The bytes of one string entry.
pub open spec fn str_entry_bytes(e: (Seq<char>, Seq<char>)) -> Seq<u8> {
    u32_le_bytes(#[verifier::truncate] ((encode_utf8(e.0).len() as usize) as u32)) + encode_utf8(e.0) + u32_le_bytes(
        #[verifier::truncate] ((encode_utf8(e.1).len() as usize) as u32),
    ) + encode_utf8(e.1)
}

/// The bytes of integer entries, one after another.
pub open spec fn int_entries_bytes(es: Seq<(Seq<char>, u32)>) -> Seq<u8>
    decreases es.len(),
{
    if es.len() == 0 {
        Seq::empty()
    } else {
        int_entries_bytes(es.drop_last()) + int_entry_bytes(es.last())
    }
}

/// The bytes of string entries, one after another.
pub open spec fn str_entries_bytes(es: Seq<(Seq<char>, Seq<char>)>) -> Seq<u8>
    decreases es.len(),
{
    if es.len() == 0 {
        Seq::empty()
    } else {
        str_entries_bytes(es.drop_last()) + str_entry_bytes(es.last())
    }
}

/// The bytes of a tag block.
pub open spec fn tag_block_bytes(t: TagView) -> Seq<u8> {
    u32_le_bytes(t.ints.len() as u32) + int_entries_bytes(t.ints) + u32_le_bytes(t.strs.len() as u32)
        + str_entries_bytes(t.strs)
}

/// Padding bytes to their own length changes nothing.
pub proof fn lemma_padded_self(b: Seq<u8>)
    ensures
        padded(b, b.len()) == b,
{
    assert(padded(b, b.len()) =~= b);
}

/// Appends the bytes of one integer entry.
fn write_int_entry(buffer: &mut Vec<u8>, name: &str, value: u32)
    ensures
        final(buffer)@ == old(buffer)@ + int_entry_bytes((name@, value)),
{
    proof {
        lemma_padded_self(name.spec_bytes());
    }
    let name_byte_len = name.as_bytes().len();
    let name_len = #[verifier::truncate] (name_byte_len as u32);
    put_u32_le(buffer, name_len);
    let name_bytes = write_string(name, name_byte_len);
    put_slice(buffer, name_bytes.as_slice());
    put_u32_le(buffer, value);
    assert(buffer@ =~= old(buffer)@ + int_entry_bytes((name@, value)));
}

/// Appends the bytes of one string entry.
fn write_str_entry(buffer: &mut Vec<u8>, name: &str, value: &str)
    ensures
        final(buffer)@ == old(buffer)@ + str_entry_bytes((name@, value@)),
{
    proof {
        lemma_padded_self(name.spec_bytes());
        lemma_padded_self(value.spec_bytes());
    }
    let name_byte_len = name.as_bytes().len();
    let name_len = #[verifier::truncate] (name_byte_len as u32);
    put_u32_le(buffer, name_len);
    let name_bytes = write_string(name, name_byte_len);
    put_slice(buffer, name_bytes.as_slice());
    let value_byte_len = value.as_bytes().len();
    let value_len = #[verifier::truncate] (value_byte_len as u32);
    put_u32_le(buffer, value_len);
    let value_bytes = write_string(value, value_byte_len);
    put_slice(buffer, value_bytes.as_slice());
    assert(buffer@ =~= old(buffer)@ + str_entry_bytes((name@, value@)));
}

/// The bytes of a tag block holding the given named integers and named strings.
pub fn write_tag_block(int_values: &[(String, u32)], str_values: &[(String, String)]) -> (r: Vec<u8>)
    ensures
        r@ == tag_block_bytes(TagView { ints: int_entries_view(int_values@), strs: str_entries_view(str_values@) }),
{
    let ghost ints = int_entries_view(int_values@);
    let ghost strs = str_entries_view(str_values@);
    let mut buffer: Vec<u8> = Vec::new();
    put_u32_le(&mut buffer, int_values.len() as u32);
    let ghost head = buffer@;
    let mut i: usize = 0;
    while i < int_values.len()
        invariant
            i <= int_values@.len(),
            ints == int_entries_view(int_values@),
            buffer@ == head + int_entries_bytes(ints.take(i as int)),
        decreases int_values@.len() - i,
    {
        write_int_entry(&mut buffer, int_values[i].0.as_str(), int_values[i].1);
        assert(ints.take(i + 1).drop_last() =~= ints.take(i as int));
        i = i + 1;
    }
    assert(ints.take(ints.len() as int) =~= ints);
    put_u32_le(&mut buffer, str_values.len() as u32);
    let ghost head2 = buffer@;
    let mut j: usize = 0;
    while j < str_values.len()
        invariant
            j <= str_values@.len(),
            strs == str_entries_view(str_values@),
            buffer@ == head2 + str_entries_bytes(strs.take(j as int)),
        decreases str_values@.len() - j,
    {
        write_str_entry(&mut buffer, str_values[j].0.as_str(), str_values[j].1.as_str());
        assert(strs.take(j + 1).drop_last() =~= strs.take(j as int));
        j = j + 1;
    }
    assert(strs.take(strs.len() as int) =~= strs);
    assert(buffer@ =~= tag_block_bytes(TagView { ints, strs }));
    buffer
}

/// Text that reads back whole: ASCII without NUL, short enough for a 32-bit length.
pub open spec fn is_storable(s: Seq<char>) -> bool {
    is_plain_ascii(s) && s.len() <= u32::MAX
}

/// Tag block entries that read back whole.
pub open spec fn tag_is_storable(t: TagView) -> bool {
    &&& t.ints.len() <= u32::MAX
    &&& t.strs.len() <= u32::MAX
    &&& forall|i: int| 0 <= i < t.ints.len() ==> is_storable(#[trigger] t.ints[i].0)
    &&& forall|i: int| 0 <= i < t.strs.len() ==> is_storable(#[trigger] t.strs[i].0) && is_storable(t.strs[i].1)
}

/// Reading a `u32` back from its bytes.
pub proof fn lemma_read_u32_bytes(v: u32, rest: Seq<u8>)
    ensures
        spec_read_u32(u32_le_bytes(v) + rest) == Ok::<(u32, Seq<u8>), Error>((v, rest)),
{
    lemma_u32_le_roundtrip(v);
    let b = u32_le_bytes(v);
    assert((b + rest).skip(4) =~= rest);
    assert(seq_le_u32(b + rest) == seq_le_u32(b));
}

/// Reading a storable string back from its bytes, at its own length.
pub proof fn lemma_read_text_bytes(s: Seq<char>, rest: Seq<u8>)
    requires
        is_storable(s),
    ensures
        encode_utf8(s).len() == s.len(),
        spec_read_string(encode_utf8(s) + rest, s.len()) == Ok::<(Seq<char>, Seq<u8>), Error>((s, rest)),
{
    lemma_ascii_encode(s);
    lemma_padded_self(encode_utf8(s));
    lemma_read_write_string(s, s.len(), rest);
}

#[verifier::spinoff_prover]
#[verifier::rlimit(40)]
pub proof fn lemma_read_int_entry_bytes(e: (Seq<char>, u32), rest: Seq<u8>)
    requires
        is_storable(e.0),
    ensures
        spec_read_int_entry(int_entry_bytes(e) + rest) == Ok::<((Seq<char>, u32), Seq<u8>), Error>((e, rest)),
{
    let n = encode_utf8(e.0);
    let r3 = u32_le_bytes(e.1) + rest;
    let r2 = n + r3;
    lemma_read_text_bytes(e.0, r3);
    lemma_read_u32_bytes(n.len() as u32, r2);
    lemma_read_u32_bytes(e.1, rest);
    assert(int_entry_bytes(e) + rest =~= u32_le_bytes(n.len() as u32) + r2);
    assert(spec_read_u32(u32_le_bytes(n.len() as u32) + r2) == Ok::<(u32, Seq<u8>), Error>((n.len() as u32, r2)));
    assert(spec_read_string(r2, n.len()) == Ok::<(Seq<char>, Seq<u8>), Error>((e.0, r3)));
}

#[verifier::spinoff_prover]
#[verifier::rlimit(40)]
pub proof fn lemma_read_str_entry_bytes(e: (Seq<char>, Seq<char>), rest: Seq<u8>)
    requires
        is_storable(e.0),
        is_storable(e.1),
    ensures
        spec_read_str_entry(str_entry_bytes(e) + rest) == Ok::<((Seq<char>, Seq<char>), Seq<u8>), Error>((e, rest)),
{
    let n = encode_utf8(e.0);
    let v = encode_utf8(e.1);
    let r4 = v + rest;
    let r3 = u32_le_bytes(v.len() as u32) + r4;
    let r2 = n + r3;
    lemma_read_text_bytes(e.1, rest);
    lemma_read_u32_bytes(v.len() as u32, r4);
    lemma_read_text_bytes(e.0, r3);
    lemma_read_u32_bytes(n.len() as u32, r2);
    assert(str_entry_bytes(e) + rest =~= u32_le_bytes(n.len() as u32) + r2);
    assert(spec_read_u32(u32_le_bytes(n.len() as u32) + r2) == Ok::<(u32, Seq<u8>), Error>((n.len() as u32, r2)));
    assert(spec_read_string(r2, n.len()) == Ok::<(Seq<char>, Seq<u8>), Error>((e.0, r3)));
    assert(spec_read_u32(r3) == Ok::<(u32, Seq<u8>), Error>((v.len() as u32, r4)));
    assert(spec_read_string(r4, v.len()) == Ok::<(Seq<char>, Seq<u8>), Error>((e.1, rest)));
}

#[verifier::spinoff_prover]
#[verifier::rlimit(40)]
pub proof fn lemma_read_int_entries_bytes(es: Seq<(Seq<char>, u32)>, rest: Seq<u8>)
    requires
        forall|i: int| 0 <= i < es.len() ==> is_storable(#[trigger] es[i].0),
    ensures
        spec_read_int_entries(int_entries_bytes(es) + rest, es.len()) == Ok::<(Seq<(Seq<char>, u32)>, Seq<u8>), Error>((es, rest)),
    decreases es.len(),
{
    if es.len() == 0 {
        assert(int_entries_bytes(es) + rest =~= rest);
        assert(es =~= Seq::empty());
    } else {
        let init = es.drop_last();
        let tail = int_entry_bytes(es.last()) + rest;
        assert(int_entries_bytes(es) + rest =~= int_entries_bytes(init) + tail);
        assert forall|i: int| 0 <= i < init.len() implies is_storable(#[trigger] init[i].0) by {
            assert(init[i] == es[i]);
        }
        lemma_read_int_entries_bytes(init, tail);
        assert(is_storable(es[es.len() - 1].0));
        lemma_read_int_entry_bytes(es.last(), rest);
        assert(init.push(es.last()) =~= es);
        assert(spec_read_int_entries(int_entries_bytes(init) + tail, init.len()) == Ok::<(Seq<(Seq<char>, u32)>, Seq<u8>), Error>((init, tail)));
        assert(spec_read_int_entry(tail) == Ok::<((Seq<char>, u32), Seq<u8>), Error>((es.last(), rest)));
    }
}

#[verifier::spinoff_prover]
#[verifier::rlimit(40)]
pub proof fn lemma_read_str_entries_bytes(es: Seq<(Seq<char>, Seq<char>)>, rest: Seq<u8>)
    requires
        forall|i: int| 0 <= i < es.len() ==> is_storable(#[trigger] es[i].0) && is_storable(es[i].1),
    ensures
        spec_read_str_entries(str_entries_bytes(es) + rest, es.len()) == Ok::<(Seq<(Seq<char>, Seq<char>)>, Seq<u8>), Error>((es, rest)),
    decreases es.len(),
{
    if es.len() == 0 {
        assert(str_entries_bytes(es) + rest =~= rest);
        assert(es =~= Seq::empty());
    } else {
        let init = es.drop_last();
        let tail = str_entry_bytes(es.last()) + rest;
        assert(str_entries_bytes(es) + rest =~= str_entries_bytes(init) + tail);
        assert forall|i: int| 0 <= i < init.len() implies is_storable(#[trigger] init[i].0) && is_storable(init[i].1) by {
            assert(init[i] == es[i]);
        }
        lemma_read_str_entries_bytes(init, tail);
        assert(is_storable(es[es.len() - 1].0));
        lemma_read_str_entry_bytes(es.last(), rest);
        assert(init.push(es.last()) =~= es);
        assert(spec_read_str_entries(str_entries_bytes(init) + tail, init.len()) == Ok::<(Seq<(Seq<char>, Seq<char>)>, Seq<u8>), Error>((init, tail)));
        assert(spec_read_str_entry(tail) == Ok::<((Seq<char>, Seq<char>), Seq<u8>), Error>((es.last(), rest)));
    }
}

/// Reading back a written tag block gives its entries, in order, when every name and
/// string value is ASCII without NUL and everything fits a 32-bit length.
#[verifier::spinoff_prover]
#[verifier::rlimit(40)]
pub proof fn lemma_read_write_tag_block(t: TagView, rest: Seq<u8>)
    requires
        tag_is_storable(t),
    ensures
        spec_read_tag_block(tag_block_bytes(t) + rest) == Ok::<(TagView, Seq<u8>), Error>((t, rest)),
{
    let b_ints = int_entries_bytes(t.ints);
    let b_strs = str_entries_bytes(t.strs);
    let r3 = b_strs + rest;
    let r2 = u32_le_bytes(t.strs.len() as u32) + r3;
    assert(tag_block_bytes(t) + rest =~= u32_le_bytes(t.ints.len() as u32) + (b_ints + r2));
    lemma_read_u32_bytes(t.ints.len() as u32, b_ints + r2);
    lemma_read_int_entries_bytes(t.ints, r2);
    lemma_read_u32_bytes(t.strs.len() as u32, r3);
    lemma_read_str_entries_bytes(t.strs, rest);
}


// ---------------------------------------------------------------- block contents

/// Reading a block's contents: the stored bytes, inflated where the header says they
/// are compressed.
pub open spec fn spec_read_block_contents(s: Seq<u8>, h: BlockHeaderView) -> Result<(Seq<u8>, Seq<u8>), Error> {
    if s.len() >= h.size_compressed {
        let raw = s.take(h.size_compressed as int);
        let rest = s.skip(h.size_compressed as int);
        if h.is_compressed {
            match zlib_inflated(raw) {
                Some(d) => Ok((d, rest)),
                None => Err(Error::Decompression),
            }
        } else {
            Ok((raw, rest))
        }
    } else {
        Err(Error::BlockContentsCut)
    }
}

/// Reads a block's contents.
pub fn read_block_contents(buffer: &mut ByteReader, block_header: &BlockHeader) -> (r: Result<Vec<u8>, Error>)
    ensures
        match r {
            Ok(c) => spec_read_block_contents(old(buffer)@, block_header@) == Ok::<(Seq<u8>, Seq<u8>), Error>((c@, final(buffer)@)),
            Err(e) => spec_read_block_contents(old(buffer)@, block_header@) == Err::<(Seq<u8>, Seq<u8>), Error>(e),
        },
{
    if buffer.len() >= block_header.size_compressed {
        let block_contents = buffer.copy_to_bytes(block_header.size_compressed);
        if block_header.is_compressed {
            match zlib_decompress(block_contents.as_slice()) {
                Some(decoded_data) => Ok(decoded_data),
                None => Err(Error::Decompression),
            }
        } else {
            Ok(block_contents)
        }
    } else {
        Err(Error::BlockContentsCut)
    }
}

/// Compresses block contents with zlib.
pub fn compress_block_contents(block_contents: &[u8]) -> (r: Result<Vec<u8>, Error>)
    ensures
        r is Ok,
        match r {
            Ok(c) => c@ == zlib_deflated(block_contents@) && zlib_inflated(c@) == Some(block_contents@),
            Err(e) => e == Error::Compression,
        },
{
    match zlib_compress(block_contents) {
        Some(compressed_data) => Ok(compressed_data),
        None => Err(Error::Compression),
    }
}


// ---------------------------------------------------------------- blocks

/// A block of a PRAY file.
pub enum Block {
    File(File),
    Agent(Agent),
    Egg(Egg),
    GardenBox(GardenBox),
    Generic(GenericBlock),
}

/// A block's value.
pub enum BlockView {
    File(FileView),
    Agent(AgentView),
    Egg(EggView),
    GardenBox(GardenBoxView),
    Generic(GenericBlockView),
}

impl View for Block {
    type V = BlockView;

    open spec fn view(&self) -> BlockView {
        match self {
            Block::File(f) => BlockView::File(f@),
            Block::Agent(a) => BlockView::Agent(a@),
            Block::Egg(e) => BlockView::Egg(e@),
            Block::GardenBox(g) => BlockView::GardenBox(g@),
            Block::Generic(g) => BlockView::Generic(g@),
        }
    }
}

/// The values of blocks.
pub open spec fn blocks_view(v: Seq<Block>) -> Seq<BlockView> {
    Seq::new(v.len(), |i: int| v[i]@)
}

/// The values of dependencies.
pub open spec fn files_view(v: Seq<File>) -> Seq<FileView> {
    Seq::new(v.len(), |i: int| v[i]@)
}

/// The integer named `key`, or 0.
pub open spec fn int_or_zero(t: TagView, key: Seq<char>) -> u32 {
    match lookup_int(t.ints, key) {
        Some(v) => v,
        None => 0,
    }
}

/// The string named `key`, or an empty one.
pub open spec fn str_or_empty(t: TagView, key: Seq<char>) -> Seq<char> {
    match lookup_str(t.strs, key) {
        Some(v) => v,
        None => Seq::empty(),
    }
}

/// `Dependency i`.
pub open spec fn dependency_key(i: nat) -> Seq<char> {
    "Dependency "@ + decimal(i)
}

/// `Dependency Category i`.
pub open spec fn dependency_category_key(i: nat) -> Seq<char> {
    "Dependency Category "@ + decimal(i)
}

/// The dependencies `Dependency 1` to `Dependency k` that the tag names, in order,
/// leaving out the numbers it lacks.
pub open spec fn dependencies_upto(t: TagView, k: nat) -> Seq<Seq<char>>
    decreases k,
{
    if k == 0 {
        Seq::empty()
    } else {
        dependencies_upto(t, (k - 1) as nat) + match lookup_str(t.strs, dependency_key(k)) {
            Some(d) => seq![d],
            None => Seq::<Seq<char>>::empty(),
        }
    }
}

/// The dependencies a tag names: `Dependency 1` up to `Dependency Count`.
pub open spec fn spec_get_dependencies(t: TagView) -> Seq<Seq<char>> {
    dependencies_upto(t, int_or_zero(t, "Dependency Count"@) as nat)
}

/// The string `prefix` followed by the decimal digits of `i`.
pub fn numbered_key(prefix: &str, i: u64) -> (r: String)
    ensures
        r@ == prefix@ + decimal(i as nat),
{
    let mut r = to_owned(prefix);
    let digits = decimal_string(i);
    push_str(&mut r, digits.as_str());
    r
}

impl Tag {
    /// The integer named `key`, or 0.
    pub fn int_value(&self, key: &str) -> (r: u32)
        ensures
            r == int_or_zero(self@, key@),
    {
        match self.get_int(key) {
            Some(v) => v,
            None => 0,
        }
    }

    /// The string named `key`, or an empty one.
    pub fn str_value(&self, key: &str) -> (r: String)
        ensures
            r@ == str_or_empty(self@, key@),
    {
        match self.get_str(key) {
            Some(v) => v,
            None => String::new(),
        }
    }
}

/// The names of the dependencies that a tag lists.
pub fn get_dependencies(tag: &Tag) -> (r: Vec<String>)
    ensures
        strings_view(r@) == spec_get_dependencies(tag@),
{
    let mut dependencies: Vec<String> = Vec::new();
    let num_dependencies = match tag.get_int("Dependency Count") {
        Some(v) => v,
        None => 0,
    };
    let mut i: u64 = 1;
    while i <= num_dependencies as u64
        invariant
            1 <= i <= num_dependencies as u64 + 1,
            num_dependencies == int_or_zero(tag@, "Dependency Count"@),
            strings_view(dependencies@) == dependencies_upto(tag@, (i - 1) as nat),
        decreases num_dependencies as u64 + 1 - i,
    {
        let key = numbered_key("Dependency ", i);
        let ghost before = dependencies@;
        match tag.get_str(key.as_str()) {
            Some(d) => {
                dependencies.push(d);
                assert(strings_view(dependencies@) =~= strings_view(before).push(d@));
            },
            None => {},
        }
        assert(dependencies_upto(tag@, i as nat) == dependencies_upto(tag@, (i - 1) as nat) + match lookup_str(tag@.strs, dependency_key(i as nat)) {
            Some(d) => seq![d],
            None => Seq::<Seq<char>>::empty(),
        });
        i = i + 1;
    }
    dependencies
}


/// The values of referenced dependencies.
pub open spec fn file_refs_view(v: Seq<&File>) -> Seq<FileView> {
    Seq::new(v.len(), |i: int| v[i]@)
}

/// The category number under which a dependency with extension `ext` is installed.
pub open spec fn dependency_category(ext: Seq<char>) -> u32 {
    if ext == "wav"@ || ext == "mng"@ {
        1
    } else if ext == "c16"@ || ext == "s16"@ {
        2
    } else if ext == "gen"@ || ext == "gno"@ {
        3
    } else if ext == "att"@ {
        4
    } else if ext == "blk"@ {
        6
    } else if ext == "catalogue"@ {
        7
    } else {
        0
    }
}

/// `Dependency i` naming the `i`th dependency, for each.
pub open spec fn dependency_name_entries(deps: Seq<FileView>) -> Seq<(Seq<char>, Seq<char>)> {
    Seq::new(deps.len(), |i: int| (dependency_key((i + 1) as nat), full_name(deps[i].name, deps[i].extension)))
}

/// `Dependency Category i` giving the `i`th dependency's category, for each.
pub open spec fn dependency_category_entries(deps: Seq<FileView>) -> Seq<(Seq<char>, u32)> {
    Seq::new(deps.len(), |i: int| (dependency_category_key((i + 1) as nat), dependency_category(deps[i].extension)))
}

/// The category number of a dependency extension.
pub fn category_of(ext: &str) -> (r: u32)
    ensures
        r == dependency_category(ext@),
{
    if str_eq(ext, "wav") || str_eq(ext, "mng") {
        1
    } else if str_eq(ext, "c16") || str_eq(ext, "s16") {
        2
    } else if str_eq(ext, "gen") || str_eq(ext, "gno") {
        3
    } else if str_eq(ext, "att") {
        4
    } else if str_eq(ext, "blk") {
        6
    } else if str_eq(ext, "catalogue") {
        7
    } else {
        0
    }
}

/// Appends the dependency entries of a tag: the count, then each dependency's name and
/// category, numbered from 1.
pub fn write_dependencies(int_values: &mut Vec<(String, u32)>, str_values: &mut Vec<(String, String)>, tag_dependencies: &[&File])
    ensures
        int_entries_view(final(int_values)@) == int_entries_view(old(int_values)@).push(
            ("Dependency Count"@, tag_dependencies@.len() as u32),
        ) + dependency_category_entries(file_refs_view(tag_dependencies@)),
        str_entries_view(final(str_values)@) == str_entries_view(old(str_values)@) + dependency_name_entries(
            file_refs_view(tag_dependencies@),
        ),
{
    let ghost deps = file_refs_view(tag_dependencies@);
    int_values.push((to_owned("Dependency Count"), tag_dependencies.len() as u32));
    let ghost ints0 = int_entries_view(int_values@);
    let ghost strs0 = str_entries_view(str_values@);
    assert(ints0 =~= int_entries_view(old(int_values)@).push(("Dependency Count"@, tag_dependencies@.len() as u32)));
    let mut i: usize = 0;
    while i < tag_dependencies.len()
        invariant
            i <= tag_dependencies@.len(),
            deps == file_refs_view(tag_dependencies@),
            int_entries_view(int_values@) == ints0 + dependency_category_entries(deps.take(i as int)),
            str_entries_view(str_values@) == strs0 + dependency_name_entries(deps.take(i as int)),
        decreases tag_dependencies@.len() - i,
    {
        let dependency = tag_dependencies[i];
        let ghost bi = int_values@;
        let ghost bs = str_values@;
        let name_key = numbered_key("Dependency ", (i + 1) as u64);
        let category_key = numbered_key("Dependency Category ", (i + 1) as u64);
        let name = dependency.filename();
        let category = category_of(dependency.extension.as_str());
        let ghost sv = (name_key@, name@);
        let ghost iv = (category_key@, category);
        str_values.push((name_key, name));
        int_values.push((category_key, category));
        assert(str_entries_view(str_values@) =~= str_entries_view(bs).push(sv));
        assert(int_entries_view(int_values@) =~= int_entries_view(bi).push(iv));
        assert(deps.take(i + 1) =~= deps.take(i as int).push(deps[i as int]));
        assert(dependency_name_entries(deps.take(i + 1)) =~= dependency_name_entries(deps.take(i as int)).push(sv));
        assert(dependency_category_entries(deps.take(i + 1)) =~= dependency_category_entries(deps.take(i as int)).push(iv));
        i = i + 1;
    }
    assert(deps.take(deps.len() as int) =~= deps);
}


/// The stem of a file name: its name up to the last `.`.
pub fn file_stem(file_name: &str) -> (r: String)
    ensures
        r@ == or_empty(path_file_stem(file_name@)),
{
    crate::file_helper::title(file_name)
}


// ---------------------------------------------------------------- whole files

/// Reading one block: its header, its contents, and what the contents hold by the
/// header's id. A `FILE` block is a file named by the header's name; `AGNT` and
/// `DSAG` blocks are agents (for Creatures 3 and Docking Station), `EGGS` blocks eggs
/// and `DSGB` blocks garden box items, each read from a tag and preceded by the
/// script files it holds; any other id is a generic block.
pub open spec fn spec_read_block(s: Seq<u8>) -> Result<(Seq<BlockView>, Seq<u8>), Error> {
    match spec_read_block_header(s) {
        Err(e) => Err(e),
        Ok((h, s1)) => match spec_read_block_contents(s1, h) {
            Err(e) => Err(e),
            Ok((c, rest)) => if h.id == "FILE"@ {
                Ok((seq![BlockView::File(FileView {
                    name: or_empty(path_file_stem(h.name)),
                    extension: or_empty(path_extension(h.name)),
                    data: c,
                    is_checked: false,
                })], rest))
            } else if h.id == "AGNT"@ || h.id == "DSAG"@ || h.id == "EGGS"@ || h.id == "DSGB"@ {
                match spec_read_tag_block(c) {
                    Err(e) => Err(e),
                    Ok((t, _)) => Ok((
                        if h.id == "AGNT"@ {
                            spec_agent_blocks(t, h.name, GameSupport::Creatures3)
                        } else if h.id == "DSAG"@ {
                            spec_agent_blocks(t, h.name, GameSupport::DockingStation)
                        } else if h.id == "EGGS"@ {
                            seq![BlockView::Egg(spec_egg(t, h.name))]
                        } else {
                            spec_gb_blocks(t, h.name)
                        },
                        rest,
                    )),
                }
            } else {
                Ok((seq![BlockView::Generic(GenericBlockView { id: h.id, name: h.name, data: c })], rest))
            },
        },
    }
}

/// A block that is read takes at least its 144-byte header off the data.
pub proof fn lemma_read_block_consumes(s: Seq<u8>)
    ensures
        spec_read_block(s) matches Ok((_, rest)) ==> rest.len() + 144 <= s.len(),
{
}

/// Reading blocks until the data is used up.
pub open spec fn spec_read_blocks(s: Seq<u8>) -> Result<Seq<BlockView>, Error>
    decreases s.len(),
{
    if s.len() == 0 {
        Ok(Seq::empty())
    } else {
        match spec_read_block(s) {
            Err(e) => Err(e),
            Ok((bs, rest)) => {
                proof {
                    lemma_read_block_consumes(s);
                }
                match spec_read_blocks(rest) {
                    Err(e) => Err(e),
                    Ok(more) => Ok(bs + more),
                }
            },
        }
    }
}

/// Decoding a PRAY file: a 4-byte marker, then blocks until the data is used up.
pub open spec fn spec_decode(s: Seq<u8>) -> Result<Seq<BlockView>, Error> {
    match spec_read_string(s, 4) {
        Err(e) => Err(e),
        Ok((_, rest)) => spec_read_blocks(rest),
    }
}

/// `bs` put in front of what a read gave, or its error.
pub open spec fn prepend_blocks(bs: Seq<BlockView>, r: Result<Seq<BlockView>, Error>) -> Result<Seq<BlockView>, Error> {
    match r {
        Ok(more) => Ok(bs + more),
        Err(e) => Err(e),
    }
}

/// Reads one block, with the script files it holds.
pub fn read_block(buffer: &mut ByteReader) -> (r: Result<Vec<Block>, Error>)
    ensures
        match r {
            Ok(bs) => spec_read_block(old(buffer)@) == Ok::<(Seq<BlockView>, Seq<u8>), Error>((blocks_view(bs@), final(buffer)@)),
            Err(e) => spec_read_block(old(buffer)@) == Err::<(Seq<BlockView>, Seq<u8>), Error>(e),
        },
{
    let block_header = read_block_header(buffer)?;
    let block_contents = read_block_contents(buffer, &block_header)?;
    let mut contents = ByteReader::new(block_contents.as_slice());
    let id = block_header.id.as_str();
    let name = block_header.name.as_str();
    proof {
        reveal_strlit("FILE");
        reveal_strlit("AGNT");
        reveal_strlit("DSAG");
        reveal_strlit("EGGS");
        reveal_strlit("DSGB");
    }
    if str_eq(id, "FILE") {
        let mut v: Vec<Block> = Vec::new();
        v.push(Block::File(File {
            name: file_stem(name),
            extension: crate::file_helper::extension(name),
            data: block_contents,
            is_checked: false,
        }));
        assert(blocks_view(v@) =~= seq![v@[0]@]);
        Ok(v)
    } else if str_eq(id, "AGNT") {
        read_agent_block(&mut contents, name, GameSupport::Creatures3)
    } else if str_eq(id, "DSAG") {
        read_agent_block(&mut contents, name, GameSupport::DockingStation)
    } else if str_eq(id, "EGGS") {
        read_egg_block(&mut contents, name)
    } else if str_eq(id, "DSGB") {
        read_gb_block(&mut contents, name)
    } else {
        let mut v: Vec<Block> = Vec::new();
        v.push(Block::Generic(GenericBlock {
            id: to_owned(id),
            name: to_owned(name),
            data: block_contents,
        }));
        assert(blocks_view(v@) =~= seq![v@[0]@]);
        Ok(v)
    }
}

/// Decodes a PRAY file into its blocks; the first error met where the data is cut
/// short or a block cannot be read.
pub fn decode(bytes: &[u8]) -> (r: Result<Vec<Block>, Error>)
    ensures
        match r {
            Ok(bs) => spec_decode(bytes@) == Ok::<Seq<BlockView>, Error>(blocks_view(bs@)),
            Err(e) => spec_decode(bytes@) == Err::<Seq<BlockView>, Error>(e),
        },
{
    let mut blocks: Vec<Block> = Vec::new();
    let mut buffer = ByteReader::new(bytes);
    let _file_id = read_string(&mut buffer, 4)?;
    proof {
        match spec_read_blocks(buffer@) {
            Ok(more) => assert(blocks_view(blocks@) + more =~= more),
            Err(_) => {},
        }
    }
    while !buffer.is_empty()
        invariant
            spec_decode(bytes@) == prepend_blocks(blocks_view(blocks@), spec_read_blocks(buffer@)),
        decreases buffer@.len(),
    {
        let ghost before = buffer@;
        let ghost done = blocks_view(blocks@);
        proof {
            lemma_read_block_consumes(before);
        }
        let mut read = read_block(&mut buffer)?;
        let ghost read_v = blocks_view(read@);
        blocks.append(&mut read);
        assert(blocks_view(blocks@) =~= done + read_v);
        proof {
            match spec_read_blocks(buffer@) {
                Ok(more) => assert(done + read_v + more =~= done + (read_v + more)),
                Err(_) => {},
            }
        }
    }
    Ok(blocks)
}

/// Whether a block can be written against the given dependencies: the scripts that an
/// agent or a garden box item names must be UTF-8 text.
pub open spec fn block_writable(b: BlockView, deps: Seq<FileView>) -> bool {
    match b {
        BlockView::Agent(a) => scripts_are_text(selected_files(a.dependencies, deps, true)),
        BlockView::GardenBox(g) => scripts_are_text(selected_files(g.dependencies, deps, true)),
        _ => true,
    }
}

/// The bytes written for one block.
pub open spec fn block_bytes(b: BlockView, deps: Seq<FileView>) -> Seq<u8> {
    match b {
        BlockView::File(f) => file_block_bytes(f),
        BlockView::Agent(a) => agent_block_bytes(a, deps),
        BlockView::Egg(e) => egg_block_bytes(e, deps),
        BlockView::GardenBox(g) => gb_block_bytes(g, deps),
        BlockView::Generic(g) => generic_block_bytes(g),
    }
}

/// The bytes written for blocks, one after the other.
pub open spec fn blocks_bytes(bs: Seq<BlockView>, deps: Seq<FileView>) -> Seq<u8>
    decreases bs.len(),
{
    if bs.len() == 0 {
        Seq::empty()
    } else {
        blocks_bytes(bs.drop_last(), deps) + block_bytes(bs.last(), deps)
    }
}

/// The `FILE` blocks written for the dependencies, leaving out those with the
/// extension `cos` (scripts, which go inside the blocks that name them).
pub open spec fn dependency_blocks_bytes(deps: Seq<FileView>) -> Seq<u8>
    decreases deps.len(),
{
    if deps.len() == 0 {
        Seq::empty()
    } else {
        dependency_blocks_bytes(deps.drop_last()) + if deps.last().extension == "cos"@ {
            Seq::empty()
        } else {
            file_block_bytes(deps.last())
        }
    }
}

/// The bytes of a PRAY file: the marker, the blocks, then the dependencies' files.
pub open spec fn pray_bytes(bs: Seq<BlockView>, deps: Seq<FileView>) -> Seq<u8> {
    padded(encode_utf8("PRAY"@), 4) + blocks_bytes(bs, deps) + dependency_blocks_bytes(deps)
}

/// Encodes blocks and their dependencies as a PRAY file; an error exactly where a script
/// that a block names is not UTF-8.
pub fn encode(tags: &Vec<Block>, dependencies: &Vec<File>) -> (r: Result<Vec<u8>, Error>)
    ensures
        ({
            let bs = blocks_view(tags@);
            let deps = files_view(dependencies@);
            match r {
                Ok(b) => (forall|i: int| 0 <= i < bs.len() ==> block_writable(#[trigger] bs[i], deps))
                    && b@ == pray_bytes(bs, deps),
                Err(e) => e == Error::InvalidUtf8 && exists|i: int| 0 <= i < bs.len() && !block_writable(#[trigger] bs[i], deps),
            }
        }),
{
    let ghost bs = blocks_view(tags@);
    let ghost deps = files_view(dependencies@);
    let mut buffer = write_string("PRAY", 4);
    let mut i: usize = 0;
    while i < tags.len()
        invariant
            i <= tags.len(),
            bs == blocks_view(tags@),
            deps == files_view(dependencies@),
            buffer@ == padded(encode_utf8("PRAY"@), 4) + blocks_bytes(bs.take(i as int), deps),
            forall|j: int| 0 <= j < i ==> block_writable(#[trigger] bs[j], deps),
        decreases tags.len() - i,
    {
        let ghost b = bs[i as int];
        let bytes = match &tags[i] {
            Block::File(file_block) => write_file_block(file_block),
            Block::Agent(agent_block) => write_agent_block(agent_block, dependencies),
            Block::Egg(egg_block) => write_egg_block(egg_block, dependencies),
            Block::GardenBox(gb_block) => write_gb_block(gb_block, dependencies),
            Block::Generic(generic_block) => write_generic_block(generic_block),
        };
        let bytes = match bytes {
            Ok(v) => v,
            Err(e) => {
                assert(!block_writable(bs[i as int], deps) && e == Error::InvalidUtf8);
                return Err(e);
            },
        };
        assert(bytes@ == block_bytes(b, deps) && block_writable(b, deps));
        put_slice(&mut buffer, bytes.as_slice());
        assert(bs.take(i + 1).drop_last() =~= bs.take(i as int));
        i = i + 1;
    }
    assert(bs.take(i as int) =~= bs);
    let ghost head = buffer@;
    let mut k: usize = 0;
    while k < dependencies.len()
        invariant
            k <= dependencies.len(),
            deps == files_view(dependencies@),
            buffer@ == head + dependency_blocks_bytes(deps.take(k as int)),
        decreases dependencies.len() - k,
    {
        let dependency = &dependencies[k];
        assert(deps.take(k + 1).drop_last() =~= deps.take(k as int));
        assert(deps.take(k + 1).last() == dependency@);
        if !str_eq(dependency.extension.as_str(), "cos") {
            let bytes = write_file_block(dependency)?;
            put_slice(&mut buffer, bytes.as_slice());
        } else {
            assert(dependency_blocks_bytes(deps.take(k + 1)) =~= dependency_blocks_bytes(deps.take(k as int)));
        }
        k = k + 1;
    }
    assert(deps.take(k as int) =~= deps);
    Ok(buffer)
}


impl Block {
    /// A copy of the block.
    pub fn copy(&self) -> (r: Block)
        ensures
            r@ == self@,
    {
        match self {
            Block::File(f) => Block::File(f.copy()),
            Block::Agent(a) => Block::Agent(a.copy()),
            Block::Egg(e) => Block::Egg(e.copy()),
            Block::GardenBox(g) => Block::GardenBox(g.copy()),
            Block::Generic(g) => Block::Generic(g.copy()),
        }
    }
}

/// Copies of blocks.
pub fn copy_blocks(v: &Vec<Block>) -> (r: Vec<Block>)
    ensures
        blocks_view(r@) == blocks_view(v@),
{
    let mut r: Vec<Block> = Vec::new();
    let mut i: usize = 0;
    while i < v.len()
        invariant
            i <= v@.len(),
            r@.len() == i,
            forall|j: int| 0 <= j < i ==> #[trigger] r@[j]@ == v@[j]@,
        decreases v@.len() - i,
    {
        r.push(v[i].copy());
        i = i + 1;
    }
    assert(blocks_view(r@) =~= blocks_view(v@));
    r
}

/// Copies of files.
pub fn copy_files(v: &Vec<File>) -> (r: Vec<File>)
    ensures
        files_view(r@) == files_view(v@),
{
    let mut r: Vec<File> = Vec::new();
    let mut i: usize = 0;
    while i < v.len()
        invariant
            i <= v@.len(),
            r@.len() == i,
            forall|j: int| 0 <= j < i ==> #[trigger] r@[j]@ == v@[j]@,
        decreases v@.len() - i,
    {
        r.push(v[i].copy());
        i = i + 1;
    }
    assert(files_view(r@) =~= files_view(v@));
    r
}

/// Reading back a written file block gives the file (unchecked), when its name and
/// extension are ASCII without NUL or `/`, the name is not empty, the extension holds
/// no `.`, the file name fits the 128-byte name field with its NUL, the data and its
/// compressed form have 32-bit lengths, and the compressed form inflates back to the
/// data (as it does for every stream the compressor writes).
#[verifier::spinoff_prover]
#[verifier::rlimit(80)]
pub proof fn lemma_read_written_file_block(f: FileView, rest: Seq<u8>)
    requires
        is_plain_ascii(f.name),
        is_plain_ascii(f.extension),
        f.name.len() > 0,
        !f.name.contains('/'),
        !f.extension.contains('/'),
        !f.extension.contains('.'),
        !(f.name == seq!['.'] && f.extension.len() == 0),
        f.name.len() + f.extension.len() + 1 <= 127,
        f.data.len() <= u32::MAX,
        zlib_deflated(f.data).len() <= u32::MAX,
        zlib_inflated(zlib_deflated(f.data)) == Some(f.data),
    ensures
        spec_read_block(file_block_bytes(f) + rest) == Ok::<(Seq<BlockView>, Seq<u8>), Error>(
            (seq![BlockView::File(FileView { is_checked: false, ..f })], rest),
        ),
{
    let c = zlib_deflated(f.data);
    let full = full_name(f.name, f.extension);
    let h = file_block_header(f, c.len());
    reveal_strlit("FILE");
    assert(is_plain_ascii("FILE"@));
    assert(is_plain_ascii(full)) by {
        assert forall|i: int| 0 <= i < full.len() implies 0 < (#[trigger] full[i] as u32) < 128 by {
            if i < f.name.len() {
                assert(full[i] == f.name[i]);
            } else if i > f.name.len() {
                assert(full[i] == f.extension[i - f.name.len() - 1]);
            } else {
                assert(full[i] == '.');
            }
        }
    }
    lemma_read_write_block_header(h, c + rest);
    assert(file_block_bytes(f) + rest =~= block_header_bytes(h) + (c + rest));
    assert(ascii_uppercase("FILE"@) =~= "FILE"@);
    assert((c + rest).take(c.len() as int) =~= c);
    assert((c + rest).skip(c.len() as int) =~= rest);
    let h1 = BlockHeaderView { id: ascii_uppercase(h.id), ..h };
    assert(h1.id == "FILE"@);
    assert(spec_read_block_header(file_block_bytes(f) + rest) == Ok::<(BlockHeaderView, Seq<u8>), Error>((h1, c + rest)));
    assert(spec_read_block_contents(c + rest, h1) == Ok::<(Seq<u8>, Seq<u8>), Error>((f.data, rest)));
    crate::file_helper::lemma_joined_name_parts(f.name, f.extension);
    assert(or_empty(path_file_stem(full)) == f.name);
    assert(or_empty(path_extension(full)) == f.extension);
}


/// Whether a file can be written as a `FILE` block and read back: its name and
/// extension are ASCII without NUL or `/`, the name is not empty, the extension holds no
/// `.`, the file name fits the 128-byte name field with its NUL, the data and its
/// compressed form have 32-bit lengths, and the compressed form inflates back to the
/// data.
pub open spec fn file_reads_back(f: FileView) -> bool {
    &&& is_plain_ascii(f.name)
    &&& is_plain_ascii(f.extension)
    &&& f.name.len() > 0
    &&& !f.name.contains('/')
    &&& !f.extension.contains('/')
    &&& !f.extension.contains('.')
    &&& !(f.name == seq!['.'] && f.extension.len() == 0)
    &&& f.name.len() + f.extension.len() + 1 <= 127
    &&& f.data.len() <= u32::MAX
    &&& zlib_deflated(f.data).len() <= u32::MAX
    &&& zlib_inflated(zlib_deflated(f.data)) == Some(f.data)
}

/// The block that reading back a written file gives: the file, unchecked.
pub open spec fn file_read_back(f: FileView) -> BlockView {
    BlockView::File(FileView { is_checked: false, ..f })
}

/// What reading back the `FILE` blocks written for dependencies gives: each
/// dependency but the scripts (extension `cos`), unchecked.
pub open spec fn dependencies_read_back(deps: Seq<FileView>) -> Seq<BlockView>
    decreases deps.len(),
{
    if deps.len() == 0 {
        Seq::empty()
    } else {
        dependencies_read_back(deps.drop_last()) + if deps.last().extension == "cos"@ {
            Seq::<BlockView>::empty()
        } else {
            seq![file_read_back(deps.last())]
        }
    }
}

/// Reading a written file block, then more blocks.
pub proof fn lemma_read_file_then(f: FileView, tail: Seq<u8>)
    requires
        file_reads_back(f),
    ensures
        spec_read_blocks(file_block_bytes(f) + tail) == prepend_blocks(seq![file_read_back(f)], spec_read_blocks(tail)),
{
    lemma_read_written_file_block(f, tail);
    let s = file_block_bytes(f) + tail;
    assert(s.len() > 0) by {
        assert(block_header_bytes(file_block_header(f, zlib_deflated(f.data).len())).len() > 0);
    }
}

/// Reading `s1` then `s2` then more, where each is known to read as some blocks then
/// what follows it.
pub proof fn lemma_read_in_turn(s1: Seq<u8>, s2: Seq<u8>, tail: Seq<u8>, r1: Seq<BlockView>, r2: Seq<BlockView>)
    requires
        spec_read_blocks(s1 + (s2 + tail)) == prepend_blocks(r1, spec_read_blocks(s2 + tail)),
        spec_read_blocks(s2 + tail) == prepend_blocks(r2, spec_read_blocks(tail)),
    ensures
        spec_read_blocks((s1 + s2) + tail) == prepend_blocks(r1 + r2, spec_read_blocks(tail)),
{
    assert((s1 + s2) + tail =~= s1 + (s2 + tail));
    match spec_read_blocks(tail) {
        Ok(more) => assert(r1 + (r2 + more) =~= (r1 + r2) + more),
        Err(_) => {},
    }
}

/// Reading the `FILE` blocks written for dependencies, then more blocks.
#[verifier::spinoff_prover]
pub proof fn lemma_read_dependency_blocks(deps: Seq<FileView>, tail: Seq<u8>)
    requires
        forall|i: int| 0 <= i < deps.len() && deps[i].extension != "cos"@ ==> file_reads_back(#[trigger] deps[i]),
    ensures
        spec_read_blocks(dependency_blocks_bytes(deps) + tail) == prepend_blocks(dependencies_read_back(deps), spec_read_blocks(tail)),
    decreases deps.len(),
{
    if deps.len() == 0 {
        assert(dependency_blocks_bytes(deps) + tail =~= tail);
        match spec_read_blocks(tail) {
            Ok(more) => assert(dependencies_read_back(deps) + more =~= more),
            Err(_) => {},
        }
    } else {
        let f = deps.last();
        let d = deps.drop_last();
        assert forall|i: int| 0 <= i < d.len() && d[i].extension != "cos"@ implies file_reads_back(#[trigger] d[i]) by {
            assert(d[i] == deps[i]);
        }
        if f.extension == "cos"@ {
            lemma_read_dependency_blocks(d, tail);
            assert(dependency_blocks_bytes(deps) =~= dependency_blocks_bytes(d));
            assert(dependencies_read_back(deps) =~= dependencies_read_back(d));
        } else {
            assert(file_reads_back(deps[deps.len() - 1]));
            let s2 = file_block_bytes(f);
            lemma_read_dependency_blocks(d, s2 + tail);
            lemma_read_file_then(f, tail);
            lemma_read_in_turn(dependency_blocks_bytes(d), s2, tail, dependencies_read_back(d), seq![file_read_back(f)]);
        }
    }
}


} // verus!
