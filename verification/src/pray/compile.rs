//! Compiling tags and the files they use into a PRAY file.
use vstd::prelude::*;
use vstd::string::*;
use vstd::utf8::*;
use crate::agent::tag::Tag;
use crate::agent::file::{CreaturesFile, output_filename, file_data};
use crate::buffer::put_slice;
use crate::error::Error;
use crate::file_helper::{or_empty, path_extension};
use crate::format::pray::tag_block_bytes;
use crate::source::encode::{used_list, in_listing_order, used_file_places, sort_places};
use crate::text::{str_eq, unicode_uppercase};
use super::helper::compiled_header_bytes;
use super::agent_block::{agent_block_info, agent_block_type, missing_script_message};
use super::egg_block::egg_block_info;
use super::file_block::{write_file_block, missing_data_message};

verus! {

/// Why compiling stops: a script that is not UTF-8, a script without data (by its
/// place), or a file without data (by its name).
pub enum CompileFault {
    ScriptNotText,
    ScriptWithoutData(usize),
    FileWithoutData(Seq<char>),
}

/// Whether `e` is the error for the fault.
pub open spec fn is_compile_error(e: Error, fault: CompileFault) -> bool {
    match fault {
        CompileFault::ScriptNotText => e == Error::InvalidUtf8,
        CompileFault::ScriptWithoutData(p) => e matches Error::Other(m) && m@ == missing_script_message(p),
        CompileFault::FileWithoutData(name) => e matches Error::Other(m) && m@ == missing_data_message(name),
    }
}

/// The block that a tag compiles to.
pub open spec fn block_of(t: Tag, files: Seq<CreaturesFile>) -> Result<Seq<u8>, CompileFault> {
    match t {
        Tag::Agent(a) => match agent_block_info(a, files) {
            Ok(info) => Ok(compiled_header_bytes(agent_block_type(a.supported_game), a.name@,
                #[verifier::truncate] ((tag_block_bytes(info).len() as usize) as u32)) + tag_block_bytes(info)),
            Err(Some(p)) => Err(CompileFault::ScriptWithoutData(p)),
            Err(None) => Err(CompileFault::ScriptNotText),
        },
        Tag::Egg(e) => Ok(compiled_header_bytes("EGGS"@, e.name@,
            #[verifier::truncate] ((tag_block_bytes(egg_block_info(e, files)).len() as usize) as u32))
            + tag_block_bytes(egg_block_info(e, files))),
        Tag::Free(f) => Ok(compiled_header_bytes(unicode_uppercase(f.block_type@), f.name@,
            #[verifier::truncate] ((encode_utf8(f.contents@).len() as usize) as u32)) + encode_utf8(f.contents@)),
    }
}

/// The blocks of the first `k` tags, one after the other, or the first fault.
pub open spec fn tag_blocks(tags: Seq<Tag>, files: Seq<CreaturesFile>, k: nat) -> Result<Seq<u8>, CompileFault>
    decreases k,
{
    if k == 0 {
        Ok(Seq::empty())
    } else {
        match tag_blocks(tags, files, (k - 1) as nat) {
            Err(f) => Err(f),
            Ok(b) => match block_of(tags[k - 1], files) {
                Err(f) => Err(f),
                Ok(c) => Ok(b + c),
            },
        }
    }
}

/// The file blocks of the first `k` files at the places in `order`, leaving out scripts
/// (their text is in the agent blocks), or the fault of the first without data.
pub open spec fn file_blocks(files: Seq<CreaturesFile>, order: Seq<usize>, k: nat) -> Result<Seq<u8>, CompileFault>
    decreases k,
{
    if k == 0 {
        Ok(Seq::empty())
    } else {
        match file_blocks(files, order, (k - 1) as nat) {
            Err(f) => Err(f),
            Ok(b) => {
                let file = files[order[k - 1] as int];
                if or_empty(path_extension(output_filename(file))) != "cos"@ {
                    match file_data(file) {
                        Some(d) => Ok(b + compiled_header_bytes("FILE"@, output_filename(file),
                            #[verifier::truncate] ((d.len() as usize) as u32)) + d),
                        None => Err(CompileFault::FileWithoutData(output_filename(file))),
                    }
                } else {
                    Ok(b)
                }
            },
        }
    }
}

/// The bytes of `PRAY`, which open a PRAY file.
pub open spec fn pray_marker() -> Seq<u8> {
    seq![80u8, 82u8, 65u8, 89u8]
}

/// The PRAY file of the tags and of the files at the places in `order`.
pub open spec fn compiled(tags: Seq<Tag>, files: Seq<CreaturesFile>, order: Seq<usize>) -> Result<Seq<u8>, CompileFault> {
    match tag_blocks(tags, files, tags.len()) {
        Err(f) => Err(f),
        Ok(a) => match file_blocks(files, order, order.len()) {
            Err(f) => Err(f),
            Ok(b) => Ok(pray_marker() + a + b),
        },
    }
}

proof fn lemma_tag_blocks_err(tags: Seq<Tag>, files: Seq<CreaturesFile>, k: nat, n: nat)
    requires
        k <= n,
        tag_blocks(tags, files, k) is Err,
    ensures
        tag_blocks(tags, files, n) == tag_blocks(tags, files, k),
    decreases n - k,
{
    if k < n {
        lemma_tag_blocks_err(tags, files, k, (n - 1) as nat);
    }
}

proof fn lemma_file_blocks_err(files: Seq<CreaturesFile>, order: Seq<usize>, k: nat, n: nat)
    requires
        k <= n,
        file_blocks(files, order, k) is Err,
    ensures
        file_blocks(files, order, n) == file_blocks(files, order, k),
    decreases n - k,
{
    if k < n {
        lemma_file_blocks_err(files, order, k, (n - 1) as nat);
    }
}

fn write_tag_blocks(buffer: &mut Vec<u8>, tags: &Vec<Tag>, files: &Vec<CreaturesFile>) -> (r: Result<(), Error>)
    ensures
        match tag_blocks(tags@, files@, tags@.len()) {
            Ok(b) => r is Ok && final(buffer)@ == old(buffer)@ + b,
            Err(f) => r matches Err(e) && is_compile_error(e, f),
        },
{
    let mut t: usize = 0;
    while t < tags.len()
        invariant
            t <= tags@.len(),
            tag_blocks(tags@, files@, t as nat) matches Ok(b) && buffer@ == old(buffer)@ + b,
        decreases tags@.len() - t,
    {
        let ghost before = buffer@;
        match tags[t].write_block(files.as_slice()) {
            Ok(block) => {
                put_slice(buffer, block.as_slice());
                assert(buffer@ =~= old(buffer)@ + tag_blocks(tags@, files@, (t + 1) as nat)->Ok_0);
            },
            Err(e) => {
                proof {
                    lemma_tag_blocks_err(tags@, files@, (t + 1) as nat, tags@.len());
                }
                return Err(e);
            },
        }
        t = t + 1;
    }
    Ok(())
}

fn write_file_blocks(buffer: &mut Vec<u8>, files: &Vec<CreaturesFile>, places: &Vec<usize>) -> (r: Result<(), Error>)
    requires
        forall|m: int| 0 <= m < places@.len() ==> #[trigger] places@[m] < files@.len(),
    ensures
        match file_blocks(files@, places@, places@.len()) {
            Ok(b) => r is Ok && final(buffer)@ == old(buffer)@ + b,
            Err(f) => r matches Err(e) && is_compile_error(e, f),
        },
{
    let mut k: usize = 0;
    while k < places.len()
        invariant
            k <= places@.len(),
            forall|m: int| 0 <= m < places@.len() ==> #[trigger] places@[m] < files@.len(),
            file_blocks(files@, places@, k as nat) matches Ok(b) && buffer@ == old(buffer)@ + b,
        decreases places@.len() - k,
    {
        let file = &files[places[k]];
        if !str_eq(file.get_extension().as_str(), "cos") {
            match write_file_block(file) {
                Ok(block) => {
                    put_slice(buffer, block.as_slice());
                    assert(buffer@ =~= old(buffer)@ + file_blocks(files@, places@, (k + 1) as nat)->Ok_0);
                },
                Err(e) => {
                    proof {
                        lemma_file_blocks_err(files@, places@, (k + 1) as nat, places@.len());
                    }
                    return Err(e);
                },
            }
        }
        k = k + 1;
    }
    Ok(())
}

/// Compiles tags to a PRAY file: the `PRAY` marker, each tag's block, then a `FILE`
/// block for each file that some tag uses other than a script, listed as in a source
/// (by the place of its kind, then by name, then by place); the first fault's error
/// where a script or file cannot be written.
pub fn compile(tags: &Vec<Tag>, files: &Vec<CreaturesFile>) -> (r: Result<Vec<u8>, Error>)
    ensures
        exists|order: Seq<usize>|
            #![trigger compiled(tags@, files@, order)]
            order.to_multiset() == used_list(tags@, files@).to_multiset()
            && in_listing_order(files@, order)
            && match compiled(tags@, files@, order) {
                Ok(b) => r matches Ok(x) && x@ == b,
                Err(f) => r matches Err(e) && is_compile_error(e, f),
            },
{
    let mut places = used_file_places(tags, files);
    let ghost used = places@;
    sort_places(&mut places, files);
    proof {
        assert forall|k: int| 0 <= k < places@.len() implies #[trigger] places@[k] < files@.len() by {
            vstd::seq_lib::to_multiset_contains(places@, places@[k]);
            assert(used.to_multiset().count(places@[k]) > 0);
            vstd::seq_lib::to_multiset_contains(used, places@[k]);
        }
    }
    let mut buffer: Vec<u8> = vec![80u8, 82u8, 65u8, 89u8];
    assert(buffer@ =~= pray_marker());
    let ghost c = compiled(tags@, files@, places@);
    match write_tag_blocks(&mut buffer, tags, files) {
        Ok(()) => {},
        Err(e) => {
            return Err(e);
        },
    }
    match write_file_blocks(&mut buffer, files, &places) {
        Ok(()) => {},
        Err(e) => {
            return Err(e);
        },
    }
    Ok(buffer)
}

} // verus!
