//! Reading a PRAY file back into tags and files: first the files of its `FILE` blocks,
//! then a tag for each other block.
use vstd::prelude::*;
use vstd::utf8::*;
use crate::agent::agent_tag::SupportedGame;
use crate::agent::file::{CreaturesFile, output_filename, input_filename, filetype_of, file_data};
use crate::agent::tag::Tag;
use crate::buffer::ByteReader;
use crate::compression::{zlib_inflated, zlib_decompress};
use crate::error::Error;
use crate::file_helper::{or_empty, path_extension, path_file_name};
use crate::format::pray::{spec_read_tag_block, read_tag_block};
use crate::text::{ascii_text, str_eq, to_owned, push_str};
use super::helper::{header_of, read_string, read_block_header, compiled_header_bytes, lemma_compiled_header_read};
use super::compile::pray_marker;
use crate::text::is_plain_ascii;
use super::file_block::{read_file_block, block_file_type, is_raw_file, unknown_file_message, sprite_read, files_of_blocks, files_of_block, block_file_count};
use crate::agent::file::FileType;
use super::agent_block::{read_agent_block, agent_read_from};
use super::egg_block::{read_egg_block, egg_read_from};
use super::free_block::read_free_block;

verus! {

/// A block as the reader walks a PRAY file: its header's type, name, stored size and
/// compression flag, and the bytes after its header.
pub struct WalkedBlock {
    pub block_type: Seq<char>,
    pub name: Seq<char>,
    pub size: nat,
    pub compressed: bool,
    pub rest: Seq<u8>,
}

/// The block whose header starts `s`.
pub open spec fn walked_block(s: Seq<u8>) -> WalkedBlock {
    let h = header_of(s);
    WalkedBlock { block_type: h.0, name: h.1, size: h.2 as nat, compressed: h.4 == 1, rest: s.skip(144) }
}

/// Whether a block's contents are all there.
pub open spec fn available(b: WalkedBlock) -> bool {
    b.rest.len() >= b.size
}

/// A block's contents: the stored bytes, inflated where the block is compressed; `None`
/// where they do not inflate.
pub open spec fn block_contents(b: WalkedBlock) -> Option<Seq<u8>> {
    let raw = b.rest.take(b.size as int);
    if b.compressed { zlib_inflated(raw) } else { Some(raw) }
}

/// The blocks of `s`: while a whole header is left, a block; its contents are skipped
/// where they are all there.
pub open spec fn pray_walk(s: Seq<u8>) -> Seq<WalkedBlock>
    decreases s.len(),
{
    if s.len() >= 144 {
        let b = walked_block(s);
        let next = if available(b) { b.rest.skip(b.size as int) } else { b.rest };
        seq![b] + pray_walk(next)
    } else {
        Seq::empty()
    }
}

/// Whether `contents` opens with the `PRAY` marker.
pub open spec fn has_marker(contents: Seq<u8>) -> bool {
    contents.len() >= 4 && ascii_text(contents.take(4)) == "PRAY"@
}

/// Why reading a PRAY file stops.
pub enum DecompileFault {
    MissingHeader,
    Cut(Seq<char>),
    Decompression,
    UnknownFile(Seq<char>),
    BadSprite,
    NotText,
}

/// The message of the error for a block that the file ends before.
pub open spec fn cut_message(name: Seq<char>) -> Seq<char> {
    "File ends before block "@ + name + " does."@
}

/// Whether `e` is the error for the fault.
pub open spec fn is_decompile_error(e: Error, fault: DecompileFault) -> bool {
    match fault {
        DecompileFault::MissingHeader => e matches Error::Other(m) && m@ == "File is missing valid header."@,
        DecompileFault::Cut(name) => e matches Error::Other(m) && m@ == cut_message(name),
        DecompileFault::Decompression => e == Error::Decompression,
        DecompileFault::UnknownFile(name) => e matches Error::Other(m) && m@ == unknown_file_message(name),
        DecompileFault::BadSprite => e == Error::InvalidSprite,
        DecompileFault::NotText => e == Error::InvalidUtf8,
    }
}

/// The names and contents of the `FILE` blocks among the first `k` blocks whose contents
/// are there; the fault of the first such block whose contents do not inflate, of a
/// `FILE` block whose name is not that of a file an agent carries, or of a sprite whose
/// data cannot be decoded or whose frames cannot be written.
pub open spec fn file_blocks_read(blocks: Seq<WalkedBlock>, k: nat) -> Result<Seq<(Seq<char>, Seq<u8>)>, DecompileFault>
    decreases k,
{
    if k == 0 {
        Ok(Seq::empty())
    } else {
        match file_blocks_read(blocks, (k - 1) as nat) {
            Err(f) => Err(f),
            Ok(fs) => {
                let b = blocks[k - 1];
                if available(b) {
                    match block_contents(b) {
                        None => Err(DecompileFault::Decompression),
                        Some(c) => if b.block_type == "FILE"@ {
                            if block_file_type(or_empty(path_extension(b.name))) is Some {
                                if block_file_type(or_empty(path_extension(b.name))) == Some(FileType::Sprite)
                                    && sprite_read(b.name, c) is None {
                                    Err(DecompileFault::BadSprite)
                                } else {
                                    Ok(fs.push((b.name, c)))
                                }
                            } else {
                                Err(DecompileFault::UnknownFile(b.name))
                            }
                        } else {
                            Ok(fs)
                        },
                    }
                } else {
                    Ok(fs)
                }
            },
        }
    }
}

/// Whether a block type is that of an agent or egg block.
pub open spec fn is_tag_type(t: Seq<char>) -> bool {
    t == "AGNT"@ || t == "DSAG"@ || t == "EGGS"@
}

/// The fault that stops reading tags from the first `k` blocks: a block whose contents
/// are not all there, contents that do not inflate, or a free block that is not UTF-8.
pub open spec fn tag_pass_fault(blocks: Seq<WalkedBlock>, k: nat) -> Option<DecompileFault>
    decreases k,
{
    if k == 0 {
        None
    } else {
        match tag_pass_fault(blocks, (k - 1) as nat) {
            Some(f) => Some(f),
            None => {
                let b = blocks[k - 1];
                if !available(b) {
                    Some(DecompileFault::Cut(b.name))
                } else {
                    match block_contents(b) {
                        None => Some(DecompileFault::Decompression),
                        Some(c) => if !is_tag_type(b.block_type) && b.block_type != "FILE"@ && !valid_utf8(c) {
                            Some(DecompileFault::NotText)
                        } else {
                            None
                        },
                    }
                }
            },
        }
    }
}

/// Whether reading tags reaches every agent and egg block with contents that hold info
/// entries whole; reading one that does not stops the program.
#[verifier::opaque]
pub open spec fn tag_blocks_readable(blocks: Seq<WalkedBlock>) -> bool {
    forall|j: int|
        #![trigger blocks[j]]
        0 <= j < blocks.len() && tag_pass_fault(blocks, j as nat) is None && available(blocks[j])
            && is_tag_type(blocks[j].block_type) && block_contents(blocks[j]) is Some
            ==> spec_read_tag_block(block_contents(blocks[j])->Some_0) is Ok
}

/// Whether reading `contents` as a PRAY file does not stop the program.
pub open spec fn decompile_readable(contents: Seq<u8>) -> bool {
    let blocks = pray_walk(contents.skip(4));
    has_marker(contents) && file_blocks_read(blocks, blocks.len()) is Ok ==> tag_blocks_readable(blocks)
}

/// The number of blocks other than `FILE` blocks among the first `k`.
pub open spec fn tag_count(blocks: Seq<WalkedBlock>, k: nat) -> nat
    decreases k,
{
    if k == 0 {
        0
    } else {
        tag_count(blocks, (k - 1) as nat) + if blocks[k - 1].block_type == "FILE"@ { 0nat } else { 1nat }
    }
}

/// Whether reading a block of the type and name with contents `c` takes the files from
/// `before` to `after` and gives the tag `tags[at]`: an agent (`AGNT` for Creatures 3,
/// `DSAG` for Docking Station), an egg (`EGGS`), nothing (`FILE`), or else a free tag
/// holding the block's text.
#[verifier::opaque]
pub open spec fn contents_read(block_type: Seq<char>, name: Seq<char>, c: Seq<u8>, before: Seq<CreaturesFile>, after: Seq<CreaturesFile>, tags: Seq<Tag>, at: nat) -> bool {
    if block_type == "FILE"@ {
        after == before
    } else if block_type == "AGNT"@ {
        agent_read_from(c, name, SupportedGame::C3, before, after, tags[at as int])
    } else if block_type == "DSAG"@ {
        agent_read_from(c, name, SupportedGame::DS, before, after, tags[at as int])
    } else if block_type == "EGGS"@ {
        after == before && egg_read_from(c, name, before, tags[at as int])
    } else {
        &&& after == before
        &&& tags[at as int] matches Tag::Free(t)
        &&& t.name@ == name
        &&& t.version@ == Seq::<char>::empty()
        &&& t.block_type@ == block_type
        &&& t.contents@ == decode_utf8(c)
    }
}

/// Whether reading block `b` takes the files from `before` to `after` and gives the tag
/// `tags[at]`.
#[verifier::opaque]
pub open spec fn block_read(b: WalkedBlock, before: Seq<CreaturesFile>, after: Seq<CreaturesFile>, tags: Seq<Tag>, at: nat) -> bool {
    contents_read(b.block_type, b.name, block_contents(b)->Some_0, before, after, tags, at)
}

/// The tags and files read from a PRAY file.
pub struct DecompileResult {
    pub tags: Vec<Tag>,
    pub files: Vec<CreaturesFile>,
}

fn read_walked_block(reader: &mut ByteReader) -> (r: (String, String, usize, bool, Option<Option<Vec<u8>>>))
    requires
        old(reader)@.len() >= 144,
    ensures
        ({
            let b = walked_block(old(reader)@);
            &&& r.0@ == b.block_type
            &&& r.1@ == b.name
            &&& r.2 == b.size
            &&& r.3 == b.compressed
            &&& if available(b) {
                &&& final(reader)@ == b.rest.skip(b.size as int)
                &&& match r.4 {
                    Some(Some(c)) => block_contents(b) == Some(c@),
                    Some(None) => block_contents(b) is None,
                    None => false,
                }
            } else {
                final(reader)@ == b.rest && r.4 is None
            }
        }),
{
    let ghost s = reader@;
    let header = read_block_header(reader);
    if reader.len() >= header.size {
        let raw = reader.copy_to_bytes(header.size);
        let contents = if header.is_compressed {
            zlib_decompress(raw.as_slice())
        } else {
            Some(raw)
        };
        (header.block_type, header.name, header.size, header.is_compressed, Some(contents))
    } else {
        (header.block_type, header.name, header.size, header.is_compressed, None)
    }
}

proof fn lemma_walk_step(s: Seq<u8>)
    requires
        s.len() >= 144,
    ensures
        pray_walk(s) == seq![walked_block(s)] + pray_walk(
            if available(walked_block(s)) { walked_block(s).rest.skip(walked_block(s).size as int) } else { walked_block(s).rest },
        ),
{
}

proof fn lemma_file_blocks_err(blocks: Seq<WalkedBlock>, k: nat, n: nat)
    requires
        k <= n,
        file_blocks_read(blocks, k) is Err,
    ensures
        file_blocks_read(blocks, n) == file_blocks_read(blocks, k),
    decreases n - k,
{
    if k < n {
        lemma_file_blocks_err(blocks, k, (n - 1) as nat);
    }
}

proof fn lemma_tag_pass_fault(blocks: Seq<WalkedBlock>, k: nat, n: nat)
    requires
        k <= n,
        tag_pass_fault(blocks, k) is Some,
    ensures
        tag_pass_fault(blocks, n) == tag_pass_fault(blocks, k),
    decreases n - k,
{
    if k < n {
        lemma_tag_pass_fault(blocks, k, (n - 1) as nat);
    }
}

/// Reads the files of the `FILE` blocks after the marker.
fn read_files(contents: &[u8], convert_sprites_to_pngs: bool) -> (r: Result<Vec<CreaturesFile>, Error>)
    requires
        contents@.len() >= 4,
    ensures
        ({
            let blocks = pray_walk(contents@.skip(4));
            match file_blocks_read(blocks, blocks.len()) {
                Ok(list) => r matches Ok(files) && files_of_blocks(list, files@, convert_sprites_to_pngs),
                Err(f) => r matches Err(e) && is_decompile_error(e, f),
            }
        }),
{
    let ghost blocks = pray_walk(contents@.skip(4));
    let mut reader = ByteReader::new(contents);
    let _marker = read_string(&mut reader, 4);
    let mut files: Vec<CreaturesFile> = Vec::new();
    let ghost mut k: nat = 0;
    while reader.len() >= 144
        invariant
            k <= blocks.len(),
            blocks == pray_walk(contents@.skip(4)),
            pray_walk(reader@) == blocks.skip(k as int),
            file_blocks_read(blocks, k) matches Ok(list) && files_of_blocks(list, files@, convert_sprites_to_pngs),
        decreases reader@.len(),
    {
        proof {
            lemma_walk_step(reader@);
            assert(blocks.skip(k as int)[0] == walked_block(reader@));
            assert(blocks.skip(k as int).skip(1) =~= blocks.skip(k + 1int));
        }
        let ghost b = walked_block(reader@);
        let ghost list = file_blocks_read(blocks, k)->Ok_0;
        let (block_type, name, _size, _compressed, read_result) = read_walked_block(&mut reader);
        proof {
            assert(blocks[k as int] == b);
        }
        if let Some(read) = read_result {
            match read {
                None => {
                    proof {
                        lemma_file_blocks_err(blocks, k + 1, blocks.len());
                    }
                    return Err(Error::Decompression);
                },
                Some(block_contents) => {
                    if str_eq(block_type.as_str(), "FILE") {
                        match read_file_block(block_contents.as_slice(), &name, convert_sprites_to_pngs) {
                            Ok(mut new_files) => {
                                let ghost before = files@;
                                let ghost added = new_files@;
                                files.append(&mut new_files);
                                proof {
                                    let list2 = list.push((b.name, block_contents@));
                                    assert(file_blocks_read(blocks, k + 1) == Ok::<Seq<(Seq<char>, Seq<u8>)>, DecompileFault>(list2));
                                    let n = block_file_count(b.name, block_contents@, convert_sprites_to_pngs);
                                    assert(files@.skip(files@.len() - n) =~= added);
                                    assert(files@.take(files@.len() - n) =~= before);
                                    assert(list2.drop_last() =~= list);
                                    assert(files_of_blocks(list2, files@, convert_sprites_to_pngs));
                                }
                            },
                            Err(e) => {
                                proof {
                                    lemma_file_blocks_err(blocks, k + 1, blocks.len());
                                }
                                return Err(e);
                            },
                        }
                    }
                },
            }
        }
        proof {
            k = k + 1;
        }
    }
    proof {
        assert(pray_walk(reader@) == Seq::<WalkedBlock>::empty());
        assert(k == blocks.len());
    }
    Ok(files)
}

proof fn lemma_block_type_names()
    ensures
        "AGNT"@ != "FILE"@,
        "DSAG"@ != "FILE"@,
        "EGGS"@ != "FILE"@,
        "AGNT"@ != "DSAG"@,
        "AGNT"@ != "EGGS"@,
        "DSAG"@ != "EGGS"@,
{
    reveal_strlit("AGNT");
    reveal_strlit("DSAG");
    reveal_strlit("EGGS");
    reveal_strlit("FILE");
    assert("AGNT"@[0] != "FILE"@[0]);
    assert("DSAG"@[0] != "FILE"@[0]);
    assert("EGGS"@[0] != "FILE"@[0]);
    assert("AGNT"@[0] != "DSAG"@[0]);
    assert("AGNT"@[0] != "EGGS"@[0]);
    assert("DSAG"@[0] != "EGGS"@[0]);
}

/// Reads the tag of one block whose contents are there.
fn read_block_tag(block_type: &String, name: &String, contents: &Vec<u8>, files: &mut Vec<CreaturesFile>, tags: &mut Vec<Tag>) -> (r: Result<(), Error>)
    requires
        is_tag_type(block_type@) ==> spec_read_tag_block(contents@) is Ok,
    ensures
        if !is_tag_type(block_type@) && block_type@ != "FILE"@ && !valid_utf8(contents@) {
            r matches Err(e) && e == Error::InvalidUtf8
        } else {
            &&& r is Ok
            &&& final(tags)@.len() == old(tags)@.len() + if block_type@ == "FILE"@ { 0nat } else { 1nat }
            &&& forall|i: int| 0 <= i < old(tags)@.len() ==> #[trigger] final(tags)@[i] == old(tags)@[i]
            &&& contents_read(block_type@, name@, contents@, old(files)@, final(files)@, final(tags)@, old(tags)@.len())
        },
{
    proof {
        lemma_block_type_names();
    }
    let n = tags.len();
    if str_eq(block_type.as_str(), "AGNT") {
        let tag = read_agent_block(contents.as_slice(), name, SupportedGame::C3, files);
        tags.push(tag);
    } else if str_eq(block_type.as_str(), "DSAG") {
        let tag = read_agent_block(contents.as_slice(), name, SupportedGame::DS, files);
        tags.push(tag);
    } else if str_eq(block_type.as_str(), "EGGS") {
        let tag = read_egg_block(contents.as_slice(), name, files.as_slice());
        tags.push(tag);
    } else if !str_eq(block_type.as_str(), "FILE") {
        match read_free_block(contents.as_slice(), block_type, name) {
            Ok(tag) => {
                tags.push(tag);
            },
            Err(e) => {
                return Err(e);
            },
        }
    }
    assert(contents_read(block_type@, name@, contents@, old(files)@, files@, tags@, n as nat)) by {
        reveal(contents_read);
    }
    Ok(())
}

/// What reading `contents` as a PRAY file gives (see `decompile`).
pub open spec fn decompile_result(contents: Seq<u8>, convert_sprites_to_pngs: bool, r: Result<DecompileResult, Error>) -> bool {
    ({
        let blocks = pray_walk(contents.skip(4));
        if contents.len() < 4 {
            r matches Ok(d) && d.tags@.len() == 0 && d.files@.len() == 0
        } else if !has_marker(contents) {
            r matches Err(e) && is_decompile_error(e, DecompileFault::MissingHeader)
        } else {
            match file_blocks_read(blocks, blocks.len()) {
                Err(f) => r matches Err(e) && is_decompile_error(e, f),
                Ok(list) => match tag_pass_fault(blocks, blocks.len()) {
                    Some(f) => r matches Err(e) && is_decompile_error(e, f),
                    None => r matches Ok(d) && d.tags@.len() == tag_count(blocks, blocks.len())
                        && exists|fs: Seq<Seq<CreaturesFile>>|
                            #![trigger fs[0]]
                            fs.len() == blocks.len() + 1 && files_of_blocks(list, fs[0], convert_sprites_to_pngs) && fs[blocks.len() as int] == d.files@
                            && forall|j: int| 0 <= j < blocks.len() ==> block_read(#[trigger] blocks[j], fs[j], fs[j + 1], d.tags@, tag_count(blocks, j as nat)),
                },
            }
        }
    })
}

/// Reads a PRAY file: the files of its `FILE` blocks (see `read_file_block`: a sprite is
/// decoded into PNG frames, each a file of its own where `convert_sprites_to_pngs` asks
/// for it), then a tag for each other block, in order (see `block_read`); agent blocks
/// add their scripts to the files. An error where the marker is missing, a block's
/// contents do not inflate, a file block has an unknown kind, a sprite cannot be decoded
/// or its frames written, the file ends inside a block, or a free block is not UTF-8
/// text.
#[verifier::rlimit(100)]
#[verifier::spinoff_prover]
pub fn decompile(contents: &[u8], convert_sprites_to_pngs: bool) -> (r: Result<DecompileResult, Error>)
    requires
        decompile_readable(contents@),
    ensures
        decompile_result(contents@, convert_sprites_to_pngs, r),
{
    if contents.len() < 4 {
        return Ok(DecompileResult { tags: Vec::new(), files: Vec::new() });
    }
    let mut marker_reader = ByteReader::new(contents);
    let marker = read_string(&mut marker_reader, 4);
    if !str_eq(marker.as_str(), "PRAY") {
        return Err(Error::Other(to_owned("File is missing valid header.")));
    }
    let mut files = match read_files(contents, convert_sprites_to_pngs) {
        Ok(files) => files,
        Err(e) => {
            return Err(e);
        },
    };
    let ghost blocks = pray_walk(contents@.skip(4));
    let ghost list = file_blocks_read(blocks, blocks.len())->Ok_0;
    assert(tag_blocks_readable(blocks));
    let mut tags: Vec<Tag> = Vec::new();
    let mut reader = ByteReader::new(contents);
    let _marker = read_string(&mut reader, 4);
    let ghost mut k: nat = 0;
    let ghost mut fs: Seq<Seq<CreaturesFile>> = seq![files@];
    while reader.len() >= 144
        invariant
            k <= blocks.len(),
            blocks == pray_walk(contents@.skip(4)),
            pray_walk(reader@) == blocks.skip(k as int),
            tag_blocks_readable(blocks),
            contents@.len() >= 4,
            has_marker(contents@),
            file_blocks_read(blocks, blocks.len()) == Ok::<Seq<(Seq<char>, Seq<u8>)>, DecompileFault>(list),
            tag_pass_fault(blocks, k) is None,
            tags@.len() == tag_count(blocks, k),
            fs.len() == k + 1,
            files_of_blocks(list, fs[0], convert_sprites_to_pngs),
            fs[k as int] == files@,
            forall|j: int| 0 <= j < k ==> block_read(#[trigger] blocks[j], fs[j], fs[j + 1], tags@, tag_count(blocks, j as nat)),
        decreases reader@.len(),
    {
        proof {
            lemma_walk_step(reader@);
            assert(blocks.skip(k as int)[0] == walked_block(reader@));
            assert(blocks.skip(k as int).skip(1) =~= blocks.skip(k + 1int));
        }
        let ghost b = walked_block(reader@);
        let ghost before_tags = tags@;
        let ghost before_files = files@;
        let (block_type, name, _size, _compressed, read_result) = read_walked_block(&mut reader);
        proof {
            assert(blocks[k as int] == b);
        }
        match read_result {
            None => {
                let mut m = to_owned("File ends before block ");
                push_str(&mut m, name.as_str());
                push_str(&mut m, " does.");
                proof {
                    lemma_tag_pass_fault(blocks, k + 1, blocks.len());
                }
                return Err(Error::Other(m));
            },
            Some(None) => {
                proof {
                    lemma_tag_pass_fault(blocks, k + 1, blocks.len());
                }
                return Err(Error::Decompression);
            },
            Some(Some(block_contents)) => {
                proof {
                    if is_tag_type(block_type@) {
                        reveal(tag_blocks_readable);
                        assert(blocks[k as int] == b);
                        assert(spec_read_tag_block(block_contents@) is Ok);
                    }
                }
                match read_block_tag(&block_type, &name, &block_contents, &mut files, &mut tags) {
                    Ok(()) => {},
                    Err(e) => {
                        proof {
                            lemma_tag_pass_fault(blocks, k + 1, blocks.len());
                        }
                        return Err(e);
                    },
                }
                proof {
                    fs = fs.push(files@);
                    assert(block_read(blocks[k as int], fs[k as int], fs[k + 1int], tags@, tag_count(blocks, k))) by {
                        reveal(block_read);
                    }
                    assert forall|j: int| 0 <= j < k + 1 implies block_read(#[trigger] blocks[j], fs[j], fs[j + 1], tags@, tag_count(blocks, j as nat)) by {
                        if j < k {
                            assert(block_read(blocks[j], fs[j], fs[j + 1], before_tags, tag_count(blocks, j as nat)));
                            reveal(block_read);
                            if blocks[j].block_type == "FILE"@ {
                                reveal(contents_read);
                            } else {
                                lemma_tag_count_mono(blocks, (j + 1) as nat, k);
                                assert(tag_count(blocks, (j + 1) as nat) == tag_count(blocks, j as nat) + 1);
                                assert(tags@[tag_count(blocks, j as nat) as int] == before_tags[tag_count(blocks, j as nat) as int]);
                                reveal(contents_read);
                            }
                        }
                    }
                    k = k + 1;
                }
            },
        }
    }
    proof {
        assert(pray_walk(reader@) == Seq::<WalkedBlock>::empty());
        assert(k == blocks.len());
    }
    Ok(DecompileResult { tags, files })
}

proof fn lemma_tag_count_mono(blocks: Seq<WalkedBlock>, a: nat, b: nat)
    requires
        a <= b,
    ensures
        tag_count(blocks, a) <= tag_count(blocks, b),
    decreases b - a,
{
    if a < b {
        lemma_tag_count_mono(blocks, a, (b - 1) as nat);
    }
}

#[verifier::rlimit(60)]
fn tag_blocks_hold_info(contents: &[u8]) -> (r: bool)
    requires
        contents@.len() >= 4,
    ensures
        r == tag_blocks_readable(pray_walk(contents@.skip(4))),
{
    let ghost blocks = pray_walk(contents@.skip(4));
    let mut reader = ByteReader::new(contents);
    let _marker = read_string(&mut reader, 4);
    let ghost mut k: nat = 0;
    while reader.len() >= 144
        invariant
            k <= blocks.len(),
            blocks == pray_walk(contents@.skip(4)),
            pray_walk(reader@) == blocks.skip(k as int),
            tag_pass_fault(blocks, k) is None,
            forall|j: int| 0 <= j < k && available(#[trigger] blocks[j]) && is_tag_type(blocks[j].block_type)
                && block_contents(blocks[j]) is Some ==> spec_read_tag_block(block_contents(blocks[j])->Some_0) is Ok,
        decreases reader@.len(),
    {
        proof {
            lemma_walk_step(reader@);
            assert(blocks.skip(k as int)[0] == walked_block(reader@));
            assert(blocks.skip(k as int).skip(1) =~= blocks.skip(k + 1int));
        }
        let ghost b = walked_block(reader@);
        let (block_type, _name, _size, _compressed, read_result) = read_walked_block(&mut reader);
        proof {
            assert(blocks[k as int] == b);
        }
        match read_result {
            Some(Some(c)) => {
                let is_tag = str_eq(block_type.as_str(), "AGNT") || str_eq(block_type.as_str(), "DSAG")
                    || str_eq(block_type.as_str(), "EGGS");
                if is_tag {
                    let mut info_reader = ByteReader::new(c.as_slice());
                    if read_tag_block(&mut info_reader).is_err() {
                        proof {
                            reveal(tag_blocks_readable);
                            assert(tag_pass_fault(blocks, k) is None && available(blocks[k as int]));
                        }
                        return false;
                    }
                } else if !str_eq(block_type.as_str(), "FILE") {
                    if crate::text::utf8_to_string(c.as_slice()).is_none() {
                        proof {
                            reveal(tag_blocks_readable);
                            assert forall|j: int|
                                #![trigger blocks[j]]
                                0 <= j < blocks.len() && tag_pass_fault(blocks, j as nat) is None && available(blocks[j])
                                    && is_tag_type(blocks[j].block_type) && block_contents(blocks[j]) is Some
                                    implies spec_read_tag_block(block_contents(blocks[j])->Some_0) is Ok by {
                                if j > k {
                                    lemma_tag_pass_fault(blocks, k + 1, j as nat);
                                }
                            }
                        }
                        return true;
                    }
                }
            },
            _ => {
                proof {
                    reveal(tag_blocks_readable);
                    assert forall|j: int|
                        #![trigger blocks[j]]
                        0 <= j < blocks.len() && tag_pass_fault(blocks, j as nat) is None && available(blocks[j])
                            && is_tag_type(blocks[j].block_type) && block_contents(blocks[j]) is Some
                            implies spec_read_tag_block(block_contents(blocks[j])->Some_0) is Ok by {
                        if j > k {
                            lemma_tag_pass_fault(blocks, k + 1, j as nat);
                        }
                    }
                }
                return true;
            },
        }
        proof {
            k = k + 1;
        }
    }
    proof {
        assert(pray_walk(reader@) == Seq::<WalkedBlock>::empty());
        assert(k == blocks.len());
        reveal(tag_blocks_readable);
    }
    true
}

/// Whether reading `contents` as a PRAY file does not stop the program.
pub fn is_readable(contents: &[u8]) -> (r: bool)
    ensures
        r == decompile_readable(contents@),
{
    if contents.len() < 4 {
        return true;
    }
    let mut marker_reader = ByteReader::new(contents);
    let marker = read_string(&mut marker_reader, 4);
    if !str_eq(marker.as_str(), "PRAY") {
        return true;
    }
    if read_files(contents, false).is_err() {
        return true;
    }
    tag_blocks_hold_info(contents)
}

/// Reads a PRAY file as `decompile` does, where doing so does not stop the program (an
/// agent or egg block whose info entries are cut short stops it); `None` where it does.
pub fn decompile_checked(contents: &[u8], convert_sprites_to_pngs: bool) -> (r: Option<Result<DecompileResult, Error>>)
    ensures
        match r {
            Some(x) => decompile_readable(contents@) && decompile_result(contents@, convert_sprites_to_pngs, x),
            None => !decompile_readable(contents@),
        },
{
    if is_readable(contents) {
        Some(decompile(contents, convert_sprites_to_pngs))
    } else {
        None
    }
}

/// A block that the compiler writes (a header of the block's type, name and size, and
/// the contents uncompressed) is read back as one block of that type and name whose
/// contents are all there and are the contents written; reading goes on with what
/// follows it. This holds where the type and name are ASCII without NUL and fit (a type
/// of at most 4 characters, a name of at most 128) and the contents' size fits in 32
/// bits.
pub proof fn lemma_block_read_back(block_type: Seq<char>, name: Seq<char>, contents: Seq<u8>, rest: Seq<u8>)
    requires
        is_plain_ascii(block_type),
        block_type.len() <= 4,
        is_plain_ascii(name),
        name.len() <= 128,
        contents.len() <= u32::MAX,
    ensures
        ({
            let s = compiled_header_bytes(block_type, name, contents.len() as u32) + contents + rest;
            let b = walked_block(s);
            &&& b.block_type == block_type
            &&& b.name == name
            &&& available(b)
            &&& block_contents(b) == Some(contents)
            &&& pray_walk(s) == seq![b] + pray_walk(rest)
        }),
{
    let h = compiled_header_bytes(block_type, name, contents.len() as u32);
    let s = h + contents + rest;
    lemma_compiled_header_read(block_type, name, contents.len() as u32, contents + rest);
    assert(s =~= h + (contents + rest));
    let b = walked_block(s);
    assert(b.rest =~= contents + rest);
    assert(b.rest.take(contents.len() as int) =~= contents);
    assert(b.rest.skip(contents.len() as int) =~= rest);
    lemma_walk_step(s);
}

/// A compiled PRAY file opens with the `PRAY` marker.
pub proof fn lemma_compiled_has_marker(after: Seq<u8>)
    ensures
        has_marker(pray_marker() + after),
        (pray_marker() + after).skip(4) == after,
{
    let s = pray_marker() + after;
    assert(s.take(4) =~= pray_marker());
    assert(s.skip(4) =~= after);
    reveal_strlit("PRAY");
    assert(ascii_text(pray_marker()) =~= "PRAY"@) by {
        reveal_with_fuel(ascii_text, 5);
    }
}

/// A PRAY file holding just the block that the compiler writes for a file (one whose
/// name is ASCII without NUL, at most 128 characters long, with the extension of a file
/// an agent carries, whose data's size fits in 32 bits, and, for a sprite, whose data
/// decodes) reads back as no tags and the files of that block (see `files_of_block`).
pub proof fn lemma_file_read_back(name: Seq<char>, data: Seq<u8>, convert_sprites_to_pngs: bool, r: Result<DecompileResult, Error>)
    requires
        is_plain_ascii(name),
        name.len() <= 128,
        data.len() <= u32::MAX,
        block_file_type(or_empty(path_extension(name))) is Some,
        block_file_type(or_empty(path_extension(name))) == Some(FileType::Sprite) ==> sprite_read(name, data) is Some,
        decompile_result(pray_marker() + (compiled_header_bytes("FILE"@, name, data.len() as u32) + data), convert_sprites_to_pngs, r),
    ensures
        decompile_readable(pray_marker() + (compiled_header_bytes("FILE"@, name, data.len() as u32) + data)),
        r matches Ok(d) && d.tags@.len() == 0 && files_of_blocks(seq![(name, data)], d.files@, convert_sprites_to_pngs),
{
    let after = compiled_header_bytes("FILE"@, name, data.len() as u32) + data;
    let s = pray_marker() + after;
    lemma_compiled_has_marker(after);
    reveal_strlit("FILE");
    assert(is_plain_ascii("FILE"@));
    lemma_block_read_back("FILE"@, name, data, Seq::empty());
    assert(after + Seq::<u8>::empty() =~= after);
    assert(pray_walk(Seq::<u8>::empty()) == Seq::<WalkedBlock>::empty());
    let blocks = pray_walk(s.skip(4));
    let b = walked_block(after);
    assert(blocks =~= seq![b]);
    assert(file_blocks_read(blocks, 0) == Ok::<Seq<(Seq<char>, Seq<u8>)>, DecompileFault>(Seq::empty()));
    assert(file_blocks_read(blocks, 1) == Ok::<Seq<(Seq<char>, Seq<u8>)>, DecompileFault>(seq![(name, data)]));
    lemma_block_type_names();
    assert(blocks[0] == b);
    assert(tag_pass_fault(blocks, 0) is None);
    assert(tag_pass_fault(blocks, 1) is None);
    assert(tag_count(blocks, 1) == 0);
    assert(tag_blocks_readable(blocks)) by {
        reveal(tag_blocks_readable);
        lemma_block_type_names();
    }
    assert(s.len() >= 4);
    match r {
        Ok(d) => {
            let fs = choose|fs: Seq<Seq<CreaturesFile>>|
                #![trigger fs[0]]
                fs.len() == blocks.len() + 1 && files_of_blocks(seq![(name, data)], fs[0], convert_sprites_to_pngs) && fs[blocks.len() as int] == d.files@
                && forall|j: int| 0 <= j < blocks.len() ==> block_read(#[trigger] blocks[j], fs[j], fs[j + 1], d.tags@, tag_count(blocks, j as nat));
            assert(block_read(blocks[0], fs[0], fs[1], d.tags@, tag_count(blocks, 0)));
            reveal(block_read);
            reveal(contents_read);
            assert(fs[1] == fs[0]);
        },
        Err(_) => {},
    }
}

} // verus!
