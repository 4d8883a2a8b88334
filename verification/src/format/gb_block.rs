//! DSGB blocks: garden box items.
use vstd::prelude::*;
use crate::text::{copy_strings, strings_view, push_str, to_owned};
use crate::buffer::{ByteReader, put_slice};
use crate::error::Error;
use crate::file_helper::{or_empty, path_file_stem};
use super::file_block::{File, FileView};
use super::agent_block::tag_block_header;
use super::pray::{spec_read_block, spec_read_block_header, spec_read_block_contents, lemma_read_write_block_header, lemma_read_write_tag_block, tag_is_storable};
use crate::text::{is_plain_ascii, ascii_uppercase};
use super::agent_block::{get_scripts, spec_get_scripts, script_dependency_names, selected_files, select_dependencies, script_entries, scripts_are_text, push_script_entries};
use super::pray::{Block, BlockView, BlockHeader, BlockHeaderView, TagView, blocks_view, block_header_bytes, dependency_category_entries, dependency_name_entries, file_stem, files_view, get_dependencies, int_entries_view, int_or_zero, read_tag_block, spec_get_dependencies, spec_read_tag_block, str_entries_view, str_or_empty, tag_block_bytes, write_block_header, write_dependencies, write_tag_block};

verus! {

/// A garden box item.
pub struct GardenBox {
    pub name: String,
    pub description: String,
    pub author: String,
    /// 1: patch plant, 2: traditional plant, 3: animal, 4: aquatic plant,
    /// 5: aquatic animal, 6: decoration, 7: tools, 8: other.
    pub category: u32,
    pub animation_file: String,
    pub sprite_first_image: u32,
    pub remove_script: String,
    pub dependencies: Vec<String>,
}

/// A garden box item's value.
pub struct GardenBoxView {
    pub name: Seq<char>,
    pub description: Seq<char>,
    pub author: Seq<char>,
    pub category: u32,
    pub animation_file: Seq<char>,
    pub sprite_first_image: u32,
    pub remove_script: Seq<char>,
    pub dependencies: Seq<Seq<char>>,
}

impl View for GardenBox {
    type V = GardenBoxView;

    open spec fn view(&self) -> GardenBoxView {
        GardenBoxView {
            name: self.name@,
            description: self.description@,
            author: self.author@,
            category: self.category,
            animation_file: self.animation_file@,
            sprite_first_image: self.sprite_first_image,
            remove_script: self.remove_script@,
            dependencies: strings_view(self.dependencies@),
        }
    }
}


/// The blocks read from a garden box block's tag: its script files, then the item,
/// whose dependencies are the listed ones followed by its scripts.
pub open spec fn spec_gb_blocks(t: TagView, name: Seq<char>) -> Seq<BlockView> {
    let scripts = spec_get_scripts(t, name);
    scripts.push(
        BlockView::GardenBox(
            GardenBoxView {
                name,
                description: str_or_empty(t, "Agent Description"@),
                author: str_or_empty(t, "Agent Author"@),
                category: int_or_zero(t, "GB_Category"@),
                animation_file: str_or_empty(t, "Agent Animation File"@),
                sprite_first_image: int_or_zero(t, "Agent Sprite First Image"@),
                remove_script: str_or_empty(t, "Remove script"@),
                dependencies: spec_get_dependencies(t) + script_dependency_names(scripts),
            },
        ),
    )
}

/// Reads a garden box block's contents: its script files, then the item.
pub fn read_gb_block(buffer: &mut ByteReader, name: &str) -> (r: Result<Vec<Block>, Error>)
    ensures
        match r {
            Ok(bs) => spec_read_tag_block(old(buffer)@) matches Ok((t, _)) && blocks_view(bs@) == spec_gb_blocks(t, name@),
            Err(e) => spec_read_tag_block(old(buffer)@) == Err::<(TagView, Seq<u8>), Error>(e),
        },
{
    let tag = read_tag_block(buffer)?;
    let mut agent_blocks: Vec<Block> = Vec::new();

    let mut dependencies = get_dependencies(&tag);
    let ghost listed = strings_view(dependencies@);

    let scripts = get_scripts(&tag, name);
    let ghost sv = blocks_view(scripts@);
    for script_block in it: scripts
        invariant
            it.seq() == scripts@,
            sv == blocks_view(scripts@),
            blocks_view(agent_blocks@) == sv.take(it.index()),
            strings_view(dependencies@) == listed + script_dependency_names(sv.take(it.index())),
    {
        let ghost before_deps = dependencies@;
        let ghost before_blocks = agent_blocks@;
        assert(sv.take(it.index() + 1).drop_last() =~= sv.take(it.index()));
        if let Block::File(script) = &script_block {
            let mut d = to_owned(script.name.as_str());
            push_str(&mut d, ".cos");
            dependencies.push(d);
            assert(strings_view(dependencies@) =~= strings_view(before_deps).push(d@));
        }
        agent_blocks.push(script_block);
        assert(blocks_view(agent_blocks@) =~= blocks_view(before_blocks).push(script_block@));
        assert(blocks_view(agent_blocks@) =~= sv.take(it.index() + 1));
    }
    assert(sv.take(sv.len() as int) =~= sv);

    let ghost before_blocks = agent_blocks@;
    let item = GardenBox {
        name: to_owned(name),
        description: tag.str_value("Agent Description"),
        author: tag.str_value("Agent Author"),
        category: tag.int_value("GB_Category"),
        animation_file: tag.str_value("Agent Animation File"),
        sprite_first_image: tag.int_value("Agent Sprite First Image"),
        remove_script: tag.str_value("Remove script"),
        dependencies,
    };
    let ghost gv = Block::GardenBox(item)@;
    agent_blocks.push(Block::GardenBox(item));
    assert(blocks_view(agent_blocks@) =~= blocks_view(before_blocks).push(gv));
    Ok(agent_blocks)
}

/// The integer entries of the tag written for a garden box item.
pub open spec fn gb_int_entries(g: GardenBoxView, deps: Seq<FileView>) -> Seq<(Seq<char>, u32)> {
    let scripts = selected_files(g.dependencies, deps, true);
    let others = selected_files(g.dependencies, deps, false);
    let animation = if or_empty(path_file_stem(g.animation_file)).len() > 0 {
        seq![("Agent Sprite First Image"@, g.sprite_first_image)]
    } else {
        Seq::empty()
    };
    ((seq![("Agent Type"@, 0u32), ("GB_Category"@, g.category)] + animation).push(("Dependency Count"@, others.len() as u32))
        + dependency_category_entries(others)).push(("Script Count"@, scripts.len() as u32))
}

/// The string entries of the tag written for a garden box item.
pub open spec fn gb_str_entries(g: GardenBoxView, deps: Seq<FileView>) -> Seq<(Seq<char>, Seq<char>)> {
    let scripts = selected_files(g.dependencies, deps, true);
    let others = selected_files(g.dependencies, deps, false);
    let stem = or_empty(path_file_stem(g.animation_file));
    let animation = if stem.len() > 0 {
        seq![("Agent Animation Gallery"@, stem), ("Agent Animation File"@, g.animation_file)]
    } else {
        Seq::empty()
    };
    ((seq![("Agent Description"@, g.description), ("Agent Author"@, g.author)] + animation + dependency_name_entries(others)).push(
        ("Remove script"@, g.remove_script),
    )) + script_entries(scripts)
}

/// The bytes of a garden box block: a DSGB header, then the tag.
pub open spec fn gb_block_bytes(g: GardenBoxView, deps: Seq<FileView>) -> Seq<u8> {
    let content = tag_block_bytes(TagView { ints: gb_int_entries(g, deps), strs: gb_str_entries(g, deps) });
    block_header_bytes(
        BlockHeaderView {
            id: "DSGB"@,
            name: g.name,
            size_compressed: content.len() as usize,
            size_uncompressed: content.len() as usize,
            is_compressed: false,
        },
    ) + content
}

/// The bytes of a garden box block, listing the dependencies that the item names and
/// holding the text of its scripts; an error where a script is not UTF-8.
pub fn write_gb_block(gb_block: &GardenBox, dependencies: &Vec<File>) -> (r: Result<Vec<u8>, Error>)
    ensures
        ({
            let scripts = selected_files(gb_block@.dependencies, files_view(dependencies@), true);
            match r {
                Ok(b) => scripts_are_text(scripts) && b@ == gb_block_bytes(gb_block@, files_view(dependencies@)),
                Err(e) => !scripts_are_text(scripts) && e == Error::InvalidUtf8,
            }
        }),
{
    let ghost g = gb_block@;
    let ghost deps = files_view(dependencies@);
    let (tag_scripts, tag_dependencies) = select_dependencies(&gb_block.dependencies, dependencies);

    let mut int_values: Vec<(String, u32)> = Vec::new();
    let mut str_values: Vec<(String, String)> = Vec::new();

    int_values.push((to_owned("Agent Type"), 0));

    str_values.push((to_owned("Agent Description"), to_owned(gb_block.description.as_str())));
    str_values.push((to_owned("Agent Author"), to_owned(gb_block.author.as_str())));
    int_values.push((to_owned("GB_Category"), gb_block.category));

    let stem = file_stem(gb_block.animation_file.as_str());
    let ghost stem_v = stem@;
    if stem.as_str().unicode_len() != 0 {
        str_values.push((to_owned("Agent Animation Gallery"), stem));
        str_values.push((to_owned("Agent Animation File"), to_owned(gb_block.animation_file.as_str())));
        int_values.push((to_owned("Agent Sprite First Image"), gb_block.sprite_first_image));
    }
    let ghost animation_ints = if stem_v.len() > 0 {
        seq![("Agent Sprite First Image"@, g.sprite_first_image)]
    } else {
        Seq::empty()
    };
    let ghost animation_strs = if stem_v.len() > 0 {
        seq![("Agent Animation Gallery"@, stem_v), ("Agent Animation File"@, g.animation_file)]
    } else {
        Seq::empty()
    };
    assert(int_entries_view(int_values@) =~= seq![("Agent Type"@, 0u32), ("GB_Category"@, g.category)] + animation_ints);
    assert(str_entries_view(str_values@) =~= seq![("Agent Description"@, g.description), ("Agent Author"@, g.author)] + animation_strs);

    write_dependencies(&mut int_values, &mut str_values, tag_dependencies.as_slice());

    str_values.push((to_owned("Remove script"), to_owned(gb_block.remove_script.as_str())));

    let ghost ints_before = int_values@;
    let script_count = (to_owned("Script Count"), tag_scripts.len() as u32);
    let ghost sc = (script_count.0@, script_count.1);
    int_values.push(script_count);
    assert(int_entries_view(int_values@) =~= int_entries_view(ints_before).push(sc));
    push_script_entries(&mut str_values, &tag_scripts)?;

    assert(int_entries_view(int_values@) =~= gb_int_entries(g, deps));
    assert(str_entries_view(str_values@) =~= gb_str_entries(g, deps));

    let content_buffer = write_tag_block(int_values.as_slice(), str_values.as_slice());

    let block_header = BlockHeader {
        id: to_owned("DSGB"),
        name: to_owned(gb_block.name.as_str()),
        size_compressed: content_buffer.len(),
        size_uncompressed: content_buffer.len(),
        is_compressed: false,
    };

    let mut buffer = write_block_header(block_header);
    put_slice(&mut buffer, content_buffer.as_slice());
    Ok(buffer)
}


impl GardenBox {
    /// A copy of the garden box item.
    pub fn copy(&self) -> (r: GardenBox)
        ensures
            r@ == self@,
    {
        GardenBox {
            name: to_owned(self.name.as_str()),
            description: to_owned(self.description.as_str()),
            author: to_owned(self.author.as_str()),
            category: self.category,
            animation_file: to_owned(self.animation_file.as_str()),
            sprite_first_image: self.sprite_first_image,
            remove_script: to_owned(self.remove_script.as_str()),
            dependencies: copy_strings(&self.dependencies),
        }
    }
}


/// The tag written for a garden box item.
pub open spec fn gb_tag(g: GardenBoxView, deps: Seq<FileView>) -> TagView {
    TagView { ints: gb_int_entries(g, deps), strs: gb_str_entries(g, deps) }
}

/// Whether a garden box block written against `deps` reads back whole: the item's name
/// is ASCII without NUL and fits the 128-byte name field, every name and text in its tag
/// is ASCII without NUL, and the tag's size fits in 32 bits.
pub open spec fn gb_block_storable(g: GardenBoxView, deps: Seq<FileView>) -> bool {
    &&& is_plain_ascii(g.name)
    &&& g.name.len() <= 128
    &&& tag_is_storable(gb_tag(g, deps))
    &&& tag_block_bytes(gb_tag(g, deps)).len() <= u32::MAX
}

/// Reading back a written garden box block gives what its tag tells: the script files
/// it holds, then the item.
pub proof fn lemma_read_written_gb_block(g: GardenBoxView, deps: Seq<FileView>, rest: Seq<u8>)
    requires
        gb_block_storable(g, deps),
    ensures
        spec_read_block(gb_block_bytes(g, deps) + rest) == Ok::<(Seq<BlockView>, Seq<u8>), Error>(
            (spec_gb_blocks(gb_tag(g, deps), g.name), rest),
        ),
{
    lemma_read_gb_tag_block(g.name, gb_tag(g, deps), rest);
    assert(gb_block_bytes(g, deps) == block_header_bytes(tag_block_header("DSGB"@, g.name, gb_tag(g, deps))) + tag_block_bytes(gb_tag(g, deps)));
}

proof fn lemma_read_gb_parts(s: Seq<u8>, h: BlockHeaderView, s1: Seq<u8>, c: Seq<u8>, rest: Seq<u8>, t: TagView, r: Seq<u8>)
    requires
        spec_read_block_header(s) == Ok::<(BlockHeaderView, Seq<u8>), Error>((h, s1)),
        spec_read_block_contents(s1, h) == Ok::<(Seq<u8>, Seq<u8>), Error>((c, rest)),
        h.id == "DSGB"@,
        spec_read_tag_block(c) == Ok::<(TagView, Seq<u8>), Error>((t, r)),
    ensures
        spec_read_block(s) == Ok::<(Seq<BlockView>, Seq<u8>), Error>((spec_gb_blocks(t, h.name), rest)),
{
    lemma_dsgb_is_not_other_ids();
}

#[verifier::spinoff_prover]
#[verifier::rlimit(80)]
proof fn lemma_read_gb_tag_block(name: Seq<char>, t: TagView, rest: Seq<u8>)
    requires
        is_plain_ascii(name),
        name.len() <= 128,
        tag_is_storable(t),
        tag_block_bytes(t).len() <= u32::MAX,
    ensures
        spec_read_block(block_header_bytes(tag_block_header("DSGB"@, name, t)) + tag_block_bytes(t) + rest)
            == Ok::<(Seq<BlockView>, Seq<u8>), Error>((spec_gb_blocks(t, name), rest)),
{
    let content = tag_block_bytes(t);
    let id = "DSGB"@;
    let h = tag_block_header(id, name, t);
    reveal_strlit("DSGB");
    assert(is_plain_ascii(id));
    lemma_read_write_block_header(h, content + rest);
    let s = block_header_bytes(h) + content + rest;
    assert(s =~= block_header_bytes(h) + (content + rest));
    assert(ascii_uppercase(id) =~= id);
    assert(BlockHeaderView { id: ascii_uppercase(h.id), ..h } == h);
    assert((content + rest).take(content.len() as int) =~= content);
    assert((content + rest).skip(content.len() as int) =~= rest);
    lemma_read_write_tag_block(t, Seq::empty());
    assert(content + Seq::<u8>::empty() =~= content);
    lemma_read_gb_parts(s, h, content + rest, content, rest, t, Seq::empty());
}

proof fn lemma_dsgb_is_not_other_ids()
    ensures
        "DSGB"@ != "FILE"@,
        "DSGB"@ != "AGNT"@,
        "DSGB"@ != "EGGS"@,
        "DSGB"@ != "DSAG"@,
{
    reveal_strlit("DSGB");
    reveal_strlit("EGGS");
    reveal_strlit("AGNT");
    reveal_strlit("DSAG");
    reveal_strlit("FILE");
    assert("DSGB"@[0] != "FILE"@[0] && "DSGB"@[0] != "AGNT"@[0] && "DSGB"@[0] != "EGGS"@[0]);
    assert("DSGB"@[2] != "DSAG"@[2]);
}

} // verus!
