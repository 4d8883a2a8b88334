//! EGGS blocks: eggs, with their genetics and sprites.
use vstd::prelude::*;
use crate::text::{copy_strings, strings_view, chars_of, string_of, push_str, to_owned};
use crate::buffer::{ByteReader, put_slice};
use crate::error::Error;
use crate::file_helper::{or_empty, path_file_stem};
use super::file_block::{File, FileView, full_name};
use super::agent_block::{contains_name, tag_block_header};
use super::pray::{spec_read_block, spec_read_block_contents, lemma_read_write_block_header, lemma_read_write_tag_block, tag_is_storable};
use crate::text::{is_plain_ascii, ascii_uppercase};
use super::pray::{Block, BlockView, BlockHeader, BlockHeaderView, TagView, blocks_view, block_header_bytes, dependency_category_entries, dependency_name_entries, file_refs_view, file_stem, files_view, get_dependencies, int_entries_view, lookup_str, read_tag_block, spec_get_dependencies, spec_read_tag_block, str_entries_view, str_or_empty, tag_block_bytes, write_block_header, write_dependencies, write_tag_block};

verus! {

/// An egg: its genetics files, sprites, animation and dependencies.
pub struct Egg {
    pub name: String,
    pub genetics_file: String,
    pub genetics_file_mother: String,
    pub genetics_file_father: String,
    pub sprite_file_male: String,
    pub sprite_file_female: String,
    pub animation_string: String,
    pub dependencies: Vec<String>,
}

/// An egg's value.
pub struct EggView {
    pub name: Seq<char>,
    pub genetics_file: Seq<char>,
    pub genetics_file_mother: Seq<char>,
    pub genetics_file_father: Seq<char>,
    pub sprite_file_male: Seq<char>,
    pub sprite_file_female: Seq<char>,
    pub animation_string: Seq<char>,
    pub dependencies: Seq<Seq<char>>,
}

impl View for Egg {
    type V = EggView;

    open spec fn view(&self) -> EggView {
        EggView {
            name: self.name@,
            genetics_file: self.genetics_file@,
            genetics_file_mother: self.genetics_file_mother@,
            genetics_file_father: self.genetics_file_father@,
            sprite_file_male: self.sprite_file_male@,
            sprite_file_female: self.sprite_file_female@,
            animation_string: self.animation_string@,
            dependencies: strings_view(self.dependencies@),
        }
    }
}


/// `s` without the `c` characters at its end.
pub open spec fn trim_end_char(s: Seq<char>, c: char) -> Seq<char>
    decreases s.len(),
{
    if s.len() > 0 && s.last() == c {
        trim_end_char(s.drop_last(), c)
    } else {
        s
    }
}

/// The genetics file a stored genetics entry names: the entry without its trailing
/// `*`s, with `.gen` after it; nothing where there is no entry.
pub open spec fn spec_genetics_file_name(file_stem: Option<Seq<char>>) -> Seq<char> {
    match file_stem {
        Some(f) => trim_end_char(f, '*') + ".gen"@,
        None => Seq::empty(),
    }
}

/// The genetics file named by a stored genetics entry.
fn genetics_file_name(file_stem: Option<String>) -> (r: String)
    ensures
        r@ == spec_genetics_file_name(match file_stem {
            Some(f) => Some(f@),
            None => None,
        }),
{
    match file_stem {
        Some(file_name) => {
            let chars = chars_of(file_name.as_str());
            let mut n = chars.len();
            assert(chars@.take(n as int) =~= chars@);
            while n > 0 && chars[n - 1] == '*'
                invariant
                    n <= chars@.len(),
                    trim_end_char(chars@, '*') == trim_end_char(chars@.take(n as int), '*'),
                decreases n,
            {
                assert(chars@.take(n as int).drop_last() =~= chars@.take(n - 1));
                n = n - 1;
            }
            let mut r = string_of(chars.as_slice(), 0, n);
            assert(chars@.subrange(0, n as int) =~= chars@.take(n as int));
            push_str(&mut r, ".gen");
            r
        },
        None => String::new(),
    }
}

/// The egg read from an egg block's tag.
pub open spec fn spec_egg(t: TagView, name: Seq<char>) -> EggView {
    EggView {
        name,
        genetics_file: spec_genetics_file_name(lookup_str(t.strs, "Genetics File"@)),
        genetics_file_mother: spec_genetics_file_name(lookup_str(t.strs, "Mother Genetic File"@)),
        genetics_file_father: spec_genetics_file_name(lookup_str(t.strs, "Father Genetic File"@)),
        sprite_file_male: str_or_empty(t, "Egg Glyph File"@),
        sprite_file_female: str_or_empty(t, "Egg Glyph File 2"@),
        animation_string: str_or_empty(t, "Egg Animation String"@),
        dependencies: spec_get_dependencies(t),
    }
}

/// Reads an egg block's contents.
pub fn read_egg_block(buffer: &mut ByteReader, name: &str) -> (r: Result<Vec<Block>, Error>)
    ensures
        match r {
            Ok(bs) => spec_read_tag_block(old(buffer)@) matches Ok((t, _)) && blocks_view(bs@) == seq![BlockView::Egg(spec_egg(t, name@))],
            Err(e) => spec_read_tag_block(old(buffer)@) == Err::<(TagView, Seq<u8>), Error>(e),
        },
{
    let tag = read_tag_block(buffer)?;
    let egg = Egg {
        name: to_owned(name),
        genetics_file: genetics_file_name(tag.get_str("Genetics File")),
        genetics_file_mother: genetics_file_name(tag.get_str("Mother Genetic File")),
        genetics_file_father: genetics_file_name(tag.get_str("Father Genetic File")),
        sprite_file_male: tag.str_value("Egg Glyph File"),
        sprite_file_female: tag.str_value("Egg Glyph File 2"),
        animation_string: tag.str_value("Egg Animation String"),
        dependencies: get_dependencies(&tag),
    };
    let ghost ev = BlockView::Egg(egg@);
    let mut blocks: Vec<Block> = Vec::new();
    blocks.push(Block::Egg(egg));
    assert(blocks_view(blocks@) =~= seq![ev]);
    Ok(blocks)
}

/// The dependencies, in order, that `names` lists.
pub open spec fn listed_files(names: Seq<Seq<char>>, deps: Seq<FileView>) -> Seq<FileView>
    decreases deps.len(),
{
    if deps.len() == 0 {
        Seq::empty()
    } else {
        let f = deps.last();
        listed_files(names, deps.drop_last()) + if names.contains(full_name(f.name, f.extension)) {
            seq![f]
        } else {
            Seq::<FileView>::empty()
        }
    }
}

/// The tag written for an egg.
pub open spec fn egg_tag(e: EggView, deps: Seq<FileView>) -> TagView {
    let listed = listed_files(e.dependencies, deps);
    TagView {
        ints: seq![("Agent Type"@, 0u32)].push(("Dependency Count"@, listed.len() as u32))
            + dependency_category_entries(listed),
        strs: seq![
            ("Egg Gallery male"@, or_empty(path_file_stem(e.sprite_file_male))),
            ("Egg Glyph File"@, e.sprite_file_male),
            ("Egg Gallery female"@, or_empty(path_file_stem(e.sprite_file_female))),
            ("Egg Glyph File 2"@, e.sprite_file_female),
            ("Egg Animation String"@, e.animation_string),
            ("Genetics File"@, or_empty(path_file_stem(e.genetics_file))),
            ("Mother Genetic File"@, or_empty(path_file_stem(e.genetics_file_mother))),
            ("Father Genetic File"@, or_empty(path_file_stem(e.genetics_file_father))),
        ] + dependency_name_entries(listed),
    }
}

/// The bytes of an egg block: an EGGS header, then the tag.
pub open spec fn egg_block_bytes(e: EggView, deps: Seq<FileView>) -> Seq<u8> {
    let content = tag_block_bytes(egg_tag(e, deps));
    block_header_bytes(
        BlockHeaderView {
            id: "EGGS"@,
            name: e.name,
            size_compressed: content.len() as usize,
            size_uncompressed: content.len() as usize,
            is_compressed: false,
        },
    ) + content
}

/// The dependencies that `names` lists.
pub fn listed_dependencies<'a>(names: &Vec<String>, dependencies: &'a Vec<File>) -> (r: Vec<&'a File>)
    ensures
        file_refs_view(r@) == listed_files(strings_view(names@), files_view(dependencies@)),
{
    let ghost fs = files_view(dependencies@);
    let ghost ns = strings_view(names@);
    let mut listed: Vec<&File> = Vec::new();
    let mut i: usize = 0;
    while i < dependencies.len()
        invariant
            i <= dependencies@.len(),
            fs == files_view(dependencies@),
            ns == strings_view(names@),
            file_refs_view(listed@) == listed_files(ns, fs.take(i as int)),
        decreases dependencies@.len() - i,
    {
        let dependency = &dependencies[i];
        assert(fs.take(i + 1).drop_last() =~= fs.take(i as int));
        assert(fs.take(i + 1).last() == dependency@);
        let ghost before = listed@;
        let filename = dependency.filename();
        if contains_name(names, filename.as_str()) {
            listed.push(dependency);
            assert(file_refs_view(listed@) =~= file_refs_view(before).push(dependency@));
        }
        i = i + 1;
    }
    assert(fs.take(fs.len() as int) =~= fs);
    listed
}

/// The bytes of an egg block, listing the dependencies that the egg names.
pub fn write_egg_block(egg_block: &Egg, dependencies: &Vec<File>) -> (r: Result<Vec<u8>, Error>)
    ensures
        r matches Ok(b) && b@ == egg_block_bytes(egg_block@, files_view(dependencies@)),
{
    let ghost e = egg_block@;
    let ghost deps = files_view(dependencies@);
    let tag_dependencies = listed_dependencies(&egg_block.dependencies, dependencies);

    let mut int_values: Vec<(String, u32)> = Vec::new();
    let mut str_values: Vec<(String, String)> = Vec::new();

    int_values.push((to_owned("Agent Type"), 0));

    str_values.push((to_owned("Egg Gallery male"), file_stem(egg_block.sprite_file_male.as_str())));
    str_values.push((to_owned("Egg Glyph File"), to_owned(egg_block.sprite_file_male.as_str())));

    str_values.push((to_owned("Egg Gallery female"), file_stem(egg_block.sprite_file_female.as_str())));
    str_values.push((to_owned("Egg Glyph File 2"), to_owned(egg_block.sprite_file_female.as_str())));

    str_values.push((to_owned("Egg Animation String"), to_owned(egg_block.animation_string.as_str())));

    str_values.push((to_owned("Genetics File"), file_stem(egg_block.genetics_file.as_str())));
    str_values.push((to_owned("Mother Genetic File"), file_stem(egg_block.genetics_file_mother.as_str())));
    str_values.push((to_owned("Father Genetic File"), file_stem(egg_block.genetics_file_father.as_str())));

    assert(int_entries_view(int_values@) =~= seq![("Agent Type"@, 0u32)]);
    assert(str_entries_view(str_values@) =~= egg_tag(e, deps).strs.take(8));

    write_dependencies(&mut int_values, &mut str_values, tag_dependencies.as_slice());

    assert(int_entries_view(int_values@) =~= egg_tag(e, deps).ints);
    assert(str_entries_view(str_values@) =~= egg_tag(e, deps).strs);

    let content_buffer = write_tag_block(int_values.as_slice(), str_values.as_slice());

    let block_header = BlockHeader {
        id: to_owned("EGGS"),
        name: to_owned(egg_block.name.as_str()),
        size_compressed: content_buffer.len(),
        size_uncompressed: content_buffer.len(),
        is_compressed: false,
    };

    let mut buffer = write_block_header(block_header);
    put_slice(&mut buffer, content_buffer.as_slice());
    Ok(buffer)
}


impl Egg {
    /// A copy of the egg.
    pub fn copy(&self) -> (r: Egg)
        ensures
            r@ == self@,
    {
        Egg {
            name: to_owned(self.name.as_str()),
            genetics_file: to_owned(self.genetics_file.as_str()),
            genetics_file_mother: to_owned(self.genetics_file_mother.as_str()),
            genetics_file_father: to_owned(self.genetics_file_father.as_str()),
            sprite_file_male: to_owned(self.sprite_file_male.as_str()),
            sprite_file_female: to_owned(self.sprite_file_female.as_str()),
            animation_string: to_owned(self.animation_string.as_str()),
            dependencies: copy_strings(&self.dependencies),
        }
    }
}


/// Whether an egg block written against `deps` reads back whole: the egg's name is
/// ASCII without NUL and fits the 128-byte name field, every name and text in its tag is
/// ASCII without NUL, and the tag's size fits in 32 bits.
pub open spec fn egg_block_storable(e: EggView, deps: Seq<FileView>) -> bool {
    &&& is_plain_ascii(e.name)
    &&& e.name.len() <= 128
    &&& tag_is_storable(egg_tag(e, deps))
    &&& tag_block_bytes(egg_tag(e, deps)).len() <= u32::MAX
}

/// Reading back a written egg block gives the egg that its tag tells.
#[verifier::spinoff_prover]
#[verifier::rlimit(60)]
pub proof fn lemma_read_written_egg_block(e: EggView, deps: Seq<FileView>, rest: Seq<u8>)
    requires
        egg_block_storable(e, deps),
    ensures
        spec_read_block(egg_block_bytes(e, deps) + rest) == Ok::<(Seq<BlockView>, Seq<u8>), Error>(
            (seq![BlockView::Egg(spec_egg(egg_tag(e, deps), e.name))], rest),
        ),
{
    lemma_read_egg_tag_block(e.name, egg_tag(e, deps), rest);
    assert(egg_block_bytes(e, deps) == block_header_bytes(tag_block_header("EGGS"@, e.name, egg_tag(e, deps))) + tag_block_bytes(egg_tag(e, deps)));
}

#[verifier::spinoff_prover]
#[verifier::rlimit(70)]
proof fn lemma_read_egg_tag_block(name: Seq<char>, t: TagView, rest: Seq<u8>)
    requires
        is_plain_ascii(name),
        name.len() <= 128,
        tag_is_storable(t),
        tag_block_bytes(t).len() <= u32::MAX,
    ensures
        spec_read_block(block_header_bytes(tag_block_header("EGGS"@, name, t)) + tag_block_bytes(t) + rest)
            == Ok::<(Seq<BlockView>, Seq<u8>), Error>((seq![BlockView::Egg(spec_egg(t, name))], rest)),
{
    let content = tag_block_bytes(t);
    let id = "EGGS"@;
    let h = tag_block_header(id, name, t);
    reveal_strlit("EGGS");
    reveal_strlit("AGNT");
    reveal_strlit("DSAG");
    reveal_strlit("FILE");
    assert(is_plain_ascii(id));
    lemma_read_write_block_header(h, content + rest);
    assert(block_header_bytes(h) + content + rest =~= block_header_bytes(h) + (content + rest));
    assert(ascii_uppercase(id) =~= id);
    assert(BlockHeaderView { id: ascii_uppercase(h.id), ..h } == h);
    assert((content + rest).take(content.len() as int) =~= content);
    assert((content + rest).skip(content.len() as int) =~= rest);
    assert(spec_read_block_contents(content + rest, h) == Ok::<(Seq<u8>, Seq<u8>), Error>((content, rest)));
    lemma_read_write_tag_block(t, Seq::empty());
    assert(content + Seq::<u8>::empty() =~= content);
    assert(id != "FILE"@ && id != "AGNT"@ && id != "DSAG"@) by {
        assert(id[0] != "FILE"@[0] && id[0] != "AGNT"@[0] && id[0] != "DSAG"@[0]);
    }
}

} // verus!
