//! What reading back a compiled PRAY file of free tags and files gives.
use vstd::prelude::*;
use vstd::utf8::{encode_utf8, decode_utf8, valid_utf8, encode_utf8_decode_utf8, encode_utf8_valid_utf8};
use crate::agent::file::CreaturesFile;
use crate::agent::tag::Tag;
use crate::error::Error;
use crate::file_helper::{or_empty, path_extension};
use crate::text::is_plain_ascii;
use super::helper::compiled_header_bytes;
use super::compile::pray_marker;
use super::file_block::{block_file_type, sprite_read, files_of_blocks};
use crate::agent::file::FileType;
use super::decompile::{WalkedBlock, DecompileResult, pray_walk, available, block_contents, file_blocks_read, tag_pass_fault, tag_blocks_readable, decompile_readable, decompile_result, tag_count, block_read, contents_read, is_tag_type, lemma_block_read_back, lemma_compiled_has_marker};

verus! {

/// A block as the compiler writes it: a header with its type, its name and the size of
/// its contents, uncompressed, then the contents.
#[verifier::opaque]
pub open spec fn compiled_block(block_type: Seq<char>, name: Seq<char>, contents: Seq<u8>) -> Seq<u8> {
    compiled_header_bytes(block_type, name, contents.len() as u32) + contents
}

/// Blocks as the compiler writes them, one after the other; each is its type, name and
/// contents.
pub open spec fn compiled_blocks(list: Seq<(Seq<char>, Seq<char>, Seq<u8>)>) -> Seq<u8>
    decreases list.len(),
{
    if list.len() == 0 {
        Seq::empty()
    } else {
        compiled_block(list[0].0, list[0].1, list[0].2) + compiled_blocks(list.drop_first())
    }
}

/// Whether a block's header reads back whole: its type and name are ASCII without NUL
/// and fit, and its contents' size fits in 32 bits.
pub open spec fn block_fits(b: (Seq<char>, Seq<char>, Seq<u8>)) -> bool {
    &&& is_plain_ascii(b.0)
    &&& b.0.len() <= 4
    &&& is_plain_ascii(b.1)
    &&& b.1.len() <= 128
    &&& b.2.len() <= u32::MAX
}

proof fn lemma_compiled_block_walk(b: (Seq<char>, Seq<char>, Seq<u8>), rest: Seq<u8>)
    requires
        block_fits(b),
    ensures
        ({
            let w = pray_walk(compiled_block(b.0, b.1, b.2) + rest);
            &&& w.len() == 1 + pray_walk(rest).len()
            &&& w[0].block_type == b.0
            &&& w[0].name == b.1
            &&& available(w[0])
            &&& block_contents(w[0]) == Some(b.2)
            &&& w.drop_first() == pray_walk(rest)
        }),
{
    reveal(compiled_block);
    lemma_block_read_back(b.0, b.1, b.2, rest);
    let s = compiled_block(b.0, b.1, b.2) + rest;
    assert(s =~= compiled_header_bytes(b.0, b.1, b.2.len() as u32) + b.2 + rest);
    assert(pray_walk(s).drop_first() =~= pray_walk(rest));
}

proof fn lemma_walk_compiled(list: Seq<(Seq<char>, Seq<char>, Seq<u8>)>, rest: Seq<u8>)
    requires
        forall|i: int| 0 <= i < list.len() ==> block_fits(#[trigger] list[i]),
    ensures
        ({
            let w = pray_walk(compiled_blocks(list) + rest);
            &&& w.len() == list.len() + pray_walk(rest).len()
            &&& forall|i: int| 0 <= i < list.len() ==> {
                &&& (#[trigger] w[i]).block_type == list[i].0
                &&& w[i].name == list[i].1
                &&& available(w[i])
                &&& block_contents(w[i]) == Some(list[i].2)
            }
            &&& forall|j: int| 0 <= j < pray_walk(rest).len() ==> w[list.len() + j] == pray_walk(rest)[j]
        }),
    decreases list.len(),
{
    if list.len() == 0 {
        assert(compiled_blocks(list) + rest =~= rest);
    } else {
        let tail = list.drop_first();
        assert forall|i: int| 0 <= i < tail.len() implies block_fits(#[trigger] tail[i]) by {
            assert(tail[i] == list[i + 1]);
        }
        assert(block_fits(list[0]));
        lemma_walk_compiled(tail, rest);
        let after = compiled_blocks(tail) + rest;
        lemma_compiled_block_walk(list[0], after);
        assert(compiled_blocks(list) + rest =~= compiled_block(list[0].0, list[0].1, list[0].2) + after);
        let w = pray_walk(compiled_blocks(list) + rest);
        let wt = pray_walk(after);
        assert forall|i: int| 1 <= i < list.len() implies {
            &&& (#[trigger] w[i]).block_type == list[i].0
            &&& w[i].name == list[i].1
            &&& available(w[i])
            &&& block_contents(w[i]) == Some(list[i].2)
        } by {
            assert(w.drop_first()[i - 1] == w[i]);
            assert(list[i] == tail[i - 1]);
        }
        assert forall|j: int| 0 <= j < pray_walk(rest).len() implies w[list.len() + j] == pray_walk(rest)[j] by {
            assert(w.drop_first()[tail.len() + j] == w[list.len() + j]);
        }
    }
}


/// Whether `blocks` are the walked blocks of `list`, one for each, with its type, name
/// and contents, all there.
pub open spec fn walked_as(blocks: Seq<WalkedBlock>, list: Seq<(Seq<char>, Seq<char>, Seq<u8>)>) -> bool {
    &&& blocks.len() == list.len()
    &&& forall|i: int| 0 <= i < list.len() ==> {
        &&& (#[trigger] blocks[i]).block_type == list[i].0
        &&& blocks[i].name == list[i].1
        &&& available(blocks[i])
        &&& block_contents(blocks[i]) == Some(list[i].2)
    }
}

/// A free tag's block: its type, its name and its text.
pub open spec fn free_fits(f: (Seq<char>, Seq<char>, Seq<char>)) -> bool {
    &&& is_plain_ascii(f.0)
    &&& f.0.len() <= 4
    &&& !is_tag_type(f.0)
    &&& f.0 != "FILE"@
    &&& is_plain_ascii(f.1)
    &&& f.1.len() <= 128
    &&& encode_utf8(f.2).len() <= u32::MAX
}

/// A file's block: its name and its data.
pub open spec fn file_fits(f: (Seq<char>, Seq<u8>)) -> bool {
    &&& is_plain_ascii(f.0)
    &&& f.0.len() <= 128
    &&& f.1.len() <= u32::MAX
    &&& block_file_type(or_empty(path_extension(f.0))) is Some
    &&& block_file_type(or_empty(path_extension(f.0))) == Some(FileType::Sprite) ==> sprite_read(f.0, f.1) is Some
}

/// The blocks the compiler writes for free tags (type, name, text) and then files (name,
/// data).
pub open spec fn free_and_file_blocks(frees: Seq<(Seq<char>, Seq<char>, Seq<char>)>, files: Seq<(Seq<char>, Seq<u8>)>) -> Seq<(Seq<char>, Seq<char>, Seq<u8>)> {
    Seq::new(frees.len(), |i: int| (frees[i].0, frees[i].1, encode_utf8(frees[i].2)))
        + Seq::new(files.len(), |i: int| ("FILE"@, files[i].0, files[i].1))
}

proof fn lemma_file_type_is_not_tag_type()
    ensures
        !is_tag_type("FILE"@),
{
    reveal_strlit("AGNT");
    reveal_strlit("DSAG");
    reveal_strlit("EGGS");
    reveal_strlit("FILE");
    assert("AGNT"@[0] != "FILE"@[0]);
    assert("DSAG"@[0] != "FILE"@[0]);
    assert("EGGS"@[0] != "FILE"@[0]);
}

proof fn lemma_passes(blocks: Seq<WalkedBlock>, frees: Seq<(Seq<char>, Seq<char>, Seq<char>)>, files: Seq<(Seq<char>, Seq<u8>)>, k: nat)
    requires
        walked_as(blocks, free_and_file_blocks(frees, files)),
        forall|i: int| 0 <= i < frees.len() ==> free_fits(#[trigger] frees[i]),
        forall|i: int| 0 <= i < files.len() ==> file_fits(#[trigger] files[i]),
        k <= blocks.len(),
    ensures
        k <= frees.len() ==> file_blocks_read(blocks, k) == Ok::<Seq<(Seq<char>, Seq<u8>)>, super::decompile::DecompileFault>(Seq::empty()),
        k >= frees.len() ==> file_blocks_read(blocks, k) == Ok::<Seq<(Seq<char>, Seq<u8>)>, super::decompile::DecompileFault>(files.take(k - frees.len())),
        tag_pass_fault(blocks, k) is None,
        tag_count(blocks, k) == if k <= frees.len() { k } else { frees.len() },
    decreases k,
{
    assert(files.take(0) =~= Seq::<(Seq<char>, Seq<u8>)>::empty());
    if k > 0 {
        lemma_passes(blocks, frees, files, (k - 1) as nat);
        let list = free_and_file_blocks(frees, files);
        let j = k - 1;
        let b = blocks[j];
        lemma_file_type_is_not_tag_type();
        if j < frees.len() {
            assert(list[j] == (frees[j].0, frees[j].1, encode_utf8(frees[j].2)));
            assert(free_fits(frees[j]));
            encode_utf8_valid_utf8(frees[j].2);
        } else {
            let m = j - frees.len();
            assert(list[j] == ("FILE"@, files[m].0, files[m].1));
            assert(file_fits(files[m]));
            assert(files.take(k - frees.len()) =~= files.take(j - frees.len()).push((files[m].0, files[m].1)));
        }
    }
}


/// Whether `tag` is the free tag of a block with the given type, name and text.
pub open spec fn is_free_tag(tag: Tag, f: (Seq<char>, Seq<char>, Seq<char>)) -> bool {
    match tag {
        Tag::Free(t) => t.block_type@ == f.0 && t.name@ == f.1 && t.contents@ == f.2 && t.version@ == Seq::<char>::empty(),
        _ => false,
    }
}

proof fn lemma_block_step(
    blocks: Seq<WalkedBlock>,
    frees: Seq<(Seq<char>, Seq<char>, Seq<char>)>,
    files: Seq<(Seq<char>, Seq<u8>)>,
    before: Seq<CreaturesFile>,
    after: Seq<CreaturesFile>,
    tags: Seq<Tag>,
    j: int,
)
    requires
        walked_as(blocks, free_and_file_blocks(frees, files)),
        forall|i: int| 0 <= i < frees.len() ==> free_fits(#[trigger] frees[i]),
        0 <= j < blocks.len(),
        block_read(blocks[j], before, after, tags, tag_count(blocks, j as nat)),
    ensures
        after == before,
        j < frees.len() ==> is_free_tag(tags[j], frees[j]),
{
    let list = free_and_file_blocks(frees, files);
    let b = blocks[j];
    reveal(block_read);
    reveal(contents_read);
    reveal_strlit("AGNT");
    reveal_strlit("DSAG");
    reveal_strlit("EGGS");
    reveal_strlit("FILE");
    if j < frees.len() {
        assert(list[j] == (frees[j].0, frees[j].1, encode_utf8(frees[j].2)));
        assert(free_fits(frees[j]));
        encode_utf8_decode_utf8(frees[j].2);
        assert forall|i: int| 0 <= i < frees.len() implies (#[trigger] frees[i]).0 == frees[i].0 by {}
        lemma_tag_count_frees(blocks, frees, files, j as nat);
    } else {
        let m = j - frees.len();
        assert(list[j] == ("FILE"@, files[m].0, files[m].1));
    }
}

proof fn lemma_tag_count_frees(blocks: Seq<WalkedBlock>, frees: Seq<(Seq<char>, Seq<char>, Seq<char>)>, files: Seq<(Seq<char>, Seq<u8>)>, k: nat)
    requires
        walked_as(blocks, free_and_file_blocks(frees, files)),
        forall|i: int| 0 <= i < frees.len() ==> free_fits(#[trigger] frees[i]),
        k <= frees.len(),
    ensures
        tag_count(blocks, k) == k,
    decreases k,
{
    if k > 0 {
        lemma_tag_count_frees(blocks, frees, files, (k - 1) as nat);
        let list = free_and_file_blocks(frees, files);
        assert(list[k - 1] == (frees[k - 1].0, frees[k - 1].1, encode_utf8(frees[k - 1].2)));
        assert(free_fits(frees[k - 1]));
    }
}

proof fn lemma_files_unchanged(
    blocks: Seq<WalkedBlock>,
    frees: Seq<(Seq<char>, Seq<char>, Seq<char>)>,
    files: Seq<(Seq<char>, Seq<u8>)>,
    fs: Seq<Seq<CreaturesFile>>,
    tags: Seq<Tag>,
    j: int,
)
    requires
        walked_as(blocks, free_and_file_blocks(frees, files)),
        forall|i: int| 0 <= i < frees.len() ==> free_fits(#[trigger] frees[i]),
        fs.len() == blocks.len() + 1,
        forall|i: int| 0 <= i < blocks.len() ==> block_read(#[trigger] blocks[i], fs[i], fs[i + 1], tags, tag_count(blocks, i as nat)),
        0 <= j <= blocks.len(),
    ensures
        fs[j] == fs[0],
    decreases j,
{
    if j > 0 {
        lemma_files_unchanged(blocks, frees, files, fs, tags, j - 1);
        assert(block_read(blocks[j - 1], fs[j - 1], fs[j], tags, tag_count(blocks, (j - 1) as nat)));
        lemma_block_step(blocks, frees, files, fs[j - 1], fs[j], tags, j - 1);
    }
}

/// Reading back a PRAY file that the compiler wrote for free tags and files gives back
/// the free tags, in order (with their type, name and text, and no version), and the
/// files of the file blocks, in order (`files_of_blocks`: each kept as its data, a
/// sprite decoded into PNG frames), where each free tag's type is ASCII without NUL, at
/// most 4 characters long, and neither `FILE` nor that of an agent or egg block, each
/// name is ASCII without NUL and fits, each file's extension is that of a file an agent
/// carries, each sprite's data decodes, and every size fits in 32 bits. Such a file is
/// one that reading does not stop on.
pub proof fn lemma_free_tags_and_files_read_back(
    frees: Seq<(Seq<char>, Seq<char>, Seq<char>)>,
    files: Seq<(Seq<char>, Seq<u8>)>,
    convert_sprites_to_pngs: bool,
    r: Result<DecompileResult, Error>,
)
    requires
        forall|i: int| 0 <= i < frees.len() ==> free_fits(#[trigger] frees[i]),
        forall|i: int| 0 <= i < files.len() ==> file_fits(#[trigger] files[i]),
        decompile_result(pray_marker() + compiled_blocks(free_and_file_blocks(frees, files)), convert_sprites_to_pngs, r),
    ensures
        decompile_readable(pray_marker() + compiled_blocks(free_and_file_blocks(frees, files))),
        r matches Ok(d) && d.tags@.len() == frees.len() && files_of_blocks(files, d.files@, convert_sprites_to_pngs)
            && forall|i: int| 0 <= i < frees.len() ==> is_free_tag(#[trigger] d.tags@[i], frees[i]),
{
    let list = free_and_file_blocks(frees, files);
    let after = compiled_blocks(list);
    let s = pray_marker() + after;
    lemma_compiled_has_marker(after);
    assert forall|i: int| 0 <= i < list.len() implies block_fits(#[trigger] list[i]) by {
        if i < frees.len() {
            assert(free_fits(frees[i]));
        } else {
            assert(file_fits(files[i - frees.len()]));
            reveal_strlit("FILE");
        }
    }
    lemma_walk_compiled(list, Seq::empty());
    assert(after + Seq::<u8>::empty() =~= after);
    assert(pray_walk(Seq::<u8>::empty()) == Seq::<WalkedBlock>::empty());
    let blocks = pray_walk(s.skip(4));
    assert(walked_as(blocks, list));
    let n = blocks.len();
    lemma_passes(blocks, frees, files, n);
    assert(files.take(files.len() as int) =~= files);
    lemma_file_type_is_not_tag_type();
    assert(tag_blocks_readable(blocks)) by {
        reveal(tag_blocks_readable);
        assert forall|j: int| 0 <= j < blocks.len() implies !is_tag_type(#[trigger] blocks[j].block_type) by {
            if j < frees.len() {
                assert(list[j] == (frees[j].0, frees[j].1, encode_utf8(frees[j].2)));
                assert(free_fits(frees[j]));
            } else {
                assert(list[j] == ("FILE"@, files[j - frees.len()].0, files[j - frees.len()].1));
            }
        }
    }
    match r {
        Ok(d) => {
            let fs = choose|fs: Seq<Seq<CreaturesFile>>|
                #![trigger fs[0]]
                fs.len() == blocks.len() + 1 && files_of_blocks(files, fs[0], convert_sprites_to_pngs) && fs[blocks.len() as int] == d.files@
                && forall|j: int| 0 <= j < blocks.len() ==> block_read(#[trigger] blocks[j], fs[j], fs[j + 1], d.tags@, tag_count(blocks, j as nat));
            lemma_files_unchanged(blocks, frees, files, fs, d.tags@, n as int);
            assert forall|i: int| 0 <= i < frees.len() implies is_free_tag(#[trigger] d.tags@[i], frees[i]) by {
                assert(block_read(blocks[i], fs[i], fs[i + 1], d.tags@, tag_count(blocks, i as nat)));
                lemma_block_step(blocks, frees, files, fs[i], fs[i + 1], d.tags@, i);
            }
        },
        Err(_) => {},
    }
}

} // verus!
