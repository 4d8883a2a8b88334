//! Egg blocks: an `EGGS` block whose info entries show the egg and name the sprites,
//! body data and genetics it carries.
use vstd::prelude::*;
use crate::agent::egg_tag::{EggTag, EggPreview};
use crate::agent::file::{CreaturesFile, FileType, output_filename, filetype_of, first_named, lookup_file_index};
use crate::agent::tag::Tag;
use crate::buffer::ByteReader;
use crate::format::pray::spec_read_tag_block;
use super::info_block::{InfoValue, InfoValueView, info_view, info_of, read_info_block};
use super::agent_block::begins_with;
use crate::buffer::put_slice;
use crate::format::pray::{TagView, tag_block_bytes};
use crate::text::{to_owned, push_str, push_char, str_eq, starts_with, chars_of};
use super::helper::{write_block_header, compiled_header_bytes};
use super::info_block::{IntValue, StrValue, int_values_view, str_values_view, write_info_block};
use super::agent_block::{kind_dependencies, dependency_category_values, dependency_name_values, dependencies_view,
    push_str_value, push_int_value, push_kind_dependencies, push_dependency_values};

verus! {

/// The preview entries of an egg: the male sprite and its glyph file, the female sprite
/// and its glyph file, each where it is among the files, and the animation where it is
/// not empty.
pub open spec fn egg_preview_entries(p: EggPreview, files: Seq<CreaturesFile>) -> Seq<(Seq<char>, Seq<char>)> {
    match p {
        EggPreview::Manual { sprite_male, sprite_female, animation } =>
            (if sprite_male < files.len() {
                let m = output_filename(files[sprite_male as int]);
                seq![("Egg Gallery male"@, m), ("Egg Glyph File"@, m + ".c16"@)]
            } else {
                Seq::empty()
            }) + (if sprite_female < files.len() {
                let f = output_filename(files[sprite_female as int]);
                seq![("Egg Gallery female"@, f), ("Egg Glyph File 2"@, f + ".c16"@)]
            } else {
                Seq::empty()
            }) + (if animation@.len() > 0 { seq![("Egg Animation String"@, animation@)] } else { Seq::empty() }),
        EggPreview::Unset => Seq::empty(),
    }
}

/// The genetics entry of an egg: its genome file's name followed by `*`, where the
/// genome is among the files.
pub open spec fn genome_entries(genome: Option<usize>, files: Seq<CreaturesFile>) -> Seq<(Seq<char>, Seq<char>)> {
    match genome {
        Some(g) => if g < files.len() { seq![("Genetics File"@, output_filename(files[g as int]) + "*"@)] } else { Seq::empty() },
        None => Seq::empty(),
    }
}

/// An egg's dependencies: its sprites (category 2), body data (4) and genetics (3).
pub open spec fn egg_dependencies(tag: EggTag, files: Seq<CreaturesFile>) -> Seq<(u32, Seq<char>)> {
    kind_dependencies(tag.sprites@, files, FileType::Sprite, 2) + kind_dependencies(tag.bodydata@, files, FileType::BodyData, 4)
        + kind_dependencies(tag.genetics@, files, FileType::Genetics, 3)
}

/// The info entries of an egg's block.
pub open spec fn egg_block_info(tag: EggTag, files: Seq<CreaturesFile>) -> TagView {
    let deps = egg_dependencies(tag, files);
    TagView {
        ints: seq![("Agent Type"@, 0u32)] + dependency_category_values(deps) + seq![("Dependency Count"@, deps.len() as u32)],
        strs: egg_preview_entries(tag.preview, files) + genome_entries(tag.genome, files) + dependency_name_values(deps),
    }
}

fn push_named_file(values: &mut Vec<StrValue>, gallery_key: &str, glyph_key: &str, name: &str)
    ensures
        str_values_view(final(values)@) == str_values_view(old(values)@) + seq![(gallery_key@, name@), (glyph_key@, name@ + ".c16"@)],
{
    push_str_value(values, gallery_key, name);
    let mut glyph = to_owned(name);
    push_str(&mut glyph, ".c16");
    push_str_value(values, glyph_key, glyph.as_str());
    assert(str_values_view(values@) =~= str_values_view(old(values)@) + seq![(gallery_key@, name@), (glyph_key@, name@ + ".c16"@)]);
}

fn push_egg_preview(values: &mut Vec<StrValue>, preview: &EggPreview, files: &[CreaturesFile])
    ensures
        str_values_view(final(values)@) == str_values_view(old(values)@) + egg_preview_entries(*preview, files@),
{
    let ghost head = str_values_view(values@);
    if let EggPreview::Manual { sprite_male, sprite_female, animation } = preview {
        if *sprite_male < files.len() {
            push_named_file(values, "Egg Gallery male", "Egg Glyph File", files[*sprite_male].get_output_filename_ref().as_str());
        }
        let ghost after_male = str_values_view(values@);
        if *sprite_female < files.len() {
            push_named_file(values, "Egg Gallery female", "Egg Glyph File 2", files[*sprite_female].get_output_filename_ref().as_str());
        }
        let ghost after_female = str_values_view(values@);
        if animation.as_str().unicode_len() > 0 {
            push_str_value(values, "Egg Animation String", animation.as_str());
        }
        assert(str_values_view(values@) =~= head + egg_preview_entries(*preview, files@));
    } else {
        assert(str_values_view(values@) =~= head + egg_preview_entries(*preview, files@));
    }
}

/// Writes an egg's block: its info entries under an `EGGS` header with its name.
#[verifier::rlimit(40)]
pub fn write_egg_block(tag: &EggTag, files: &[CreaturesFile]) -> (r: Result<Vec<u8>, crate::error::Error>)
    ensures
        r matches Ok(b) && b@ == compiled_header_bytes("EGGS"@, tag.name@,
            #[verifier::truncate] ((tag_block_bytes(egg_block_info(*tag, files@)).len() as usize) as u32))
            + tag_block_bytes(egg_block_info(*tag, files@)),
{
    let mut int_values: Vec<IntValue> = Vec::new();
    let mut str_values: Vec<StrValue> = Vec::new();
    assert(int_values_view(int_values@) =~= Seq::<(Seq<char>, u32)>::empty());
    assert(str_values_view(str_values@) =~= Seq::<(Seq<char>, Seq<char>)>::empty());
    push_int_value(&mut int_values, "Agent Type", 0);
    let ghost ints0 = int_values_view(int_values@);
    push_egg_preview(&mut str_values, &tag.preview, files);
    let ghost with_preview = str_values_view(str_values@);
    if let Some(genome) = tag.genome {
        if genome < files.len() {
            let mut name = files[genome].get_output_filename();
            push_str(&mut name, "*");
            push_str_value(&mut str_values, "Genetics File", name.as_str());
        }
    }
    let ghost with_genome = str_values_view(str_values@);
    assert(with_genome =~= with_preview + genome_entries(tag.genome, files@));
    let mut deps: Vec<(u32, String)> = Vec::new();
    assert(dependencies_view(deps@) =~= Seq::<(u32, Seq<char>)>::empty());
    push_kind_dependencies(&mut deps, &tag.sprites, files, FileType::Sprite, 2);
    push_kind_dependencies(&mut deps, &tag.bodydata, files, FileType::BodyData, 4);
    push_kind_dependencies(&mut deps, &tag.genetics, files, FileType::Genetics, 3);
    let ghost dv = dependencies_view(deps@);
    assert(dv =~= egg_dependencies(*tag, files@));
    push_dependency_values(&mut int_values, &mut str_values, &deps);
    let dependency_count = #[verifier::truncate] (deps.len() as u32);
    assert(dependency_count == dv.len() as u32);
    push_int_value(&mut int_values, "Dependency Count", dependency_count);
    assert(int_values_view(int_values@) =~= egg_block_info(*tag, files@).ints);
    assert(str_values_view(str_values@) =~= egg_block_info(*tag, files@).strs);
    let blocks_buffer = write_info_block(int_values, str_values);
    let size = #[verifier::truncate] (blocks_buffer.len() as u32);
    let mut buffer = write_block_header("EGGS", tag.name.as_str(), size);
    put_slice(&mut buffer, blocks_buffer.as_slice());
    Ok(buffer)
}

/// What reading an egg block's info entries gathers: the preview's female and male
/// sprite names and animation, the genome, and the places of the sprites, body data and
/// genetics it depends on.
pub struct EggInfoRead {
    pub female: Seq<char>,
    pub male: Seq<char>,
    pub animation: Seq<char>,
    pub genome: Option<usize>,
    pub sprites: Seq<usize>,
    pub bodydata: Seq<usize>,
    pub genetics: Seq<usize>,
}

/// The characters of `s` other than `*`.
pub open spec fn without_stars(s: Seq<char>) -> Seq<char>
    decreases s.len(),
{
    if s.len() == 0 {
        Seq::empty()
    } else {
        without_stars(s.drop_last()) + if s.last() == '*' { Seq::empty() } else { seq![s.last()] }
    }
}

/// Reading one info entry of an egg block: the preview's sprites and animation by their
/// names; `Genetics File` sets the genome to the first file of that name without `*`
/// (or none); a `Dependency` entry adds the place of the first file of that name to the
/// list of its kind.
pub open spec fn egg_info_step(st: EggInfoRead, key: Seq<char>, value: InfoValueView, files: Seq<CreaturesFile>) -> EggInfoRead {
    match value {
        InfoValueView::Int(_) => st,
        InfoValueView::Str(v) => if key == "Egg Gallery female"@ {
            EggInfoRead { female: v, ..st }
        } else if key == "Egg Gallery male"@ {
            EggInfoRead { male: v, ..st }
        } else if key == "Egg Animation String"@ {
            EggInfoRead { animation: v, ..st }
        } else if key == "Genetics File"@ {
            EggInfoRead { genome: first_named(files, without_stars(v), 0), ..st }
        } else if begins_with(key, "Dependency"@) {
            match first_named(files, v, 0) {
                Some(p) => match filetype_of(files[p as int]) {
                    FileType::Sprite => EggInfoRead { sprites: st.sprites.push(p), ..st },
                    FileType::BodyData => EggInfoRead { bodydata: st.bodydata.push(p), ..st },
                    FileType::Genetics => EggInfoRead { genetics: st.genetics.push(p), ..st },
                    _ => st,
                },
                None => st,
            }
        } else {
            st
        },
    }
}

/// Reading the first `k` info entries of an egg block.
pub open spec fn egg_info_read(entries: Seq<(Seq<char>, InfoValueView)>, files: Seq<CreaturesFile>, k: nat) -> EggInfoRead
    decreases k,
{
    if k == 0 {
        EggInfoRead {
            female: Seq::empty(),
            male: Seq::empty(),
            animation: "0"@,
            genome: None,
            sprites: Seq::empty(),
            bodydata: Seq::empty(),
            genetics: Seq::empty(),
        }
    } else {
        egg_info_step(egg_info_read(entries, files, (k - 1) as nat), entries[k - 1].0, entries[k - 1].1, files)
    }
}

fn remove_stars(s: &str) -> (r: String)
    ensures
        r@ == without_stars(s@),
{
    let chars = chars_of(s);
    let mut r = String::new();
    let mut i: usize = 0;
    while i < chars.len()
        invariant
            i <= chars@.len(),
            chars@ == s@,
            r@ == without_stars(s@.take(i as int)),
        decreases chars@.len() - i,
    {
        assert(s@.take(i + 1).drop_last() =~= s@.take(i as int));
        if chars[i] != '*' {
            push_char(&mut r, chars[i]);
        }
        i = i + 1;
        assert(r@ =~= without_stars(s@.take(i as int)));
    }
    assert(s@.take(i as int) =~= s@);
    r
}

/// Whether reading the egg block `contents` named `name` among `files` gives `r` (see
/// `read_egg_block`).
pub open spec fn egg_read_from(contents: Seq<u8>, name: Seq<char>, files: Seq<CreaturesFile>, r: Tag) -> bool {
    ({
        let entries = info_of(spec_read_tag_block(contents)->Ok_0.0);
        let st = egg_info_read(entries, files, entries.len());
        &&& r matches Tag::Egg(e)
        &&& e.name@ == name
        &&& e.version@ == Seq::<char>::empty()
        &&& match (first_named(files, st.male, 0), first_named(files, st.female, 0)) {
            (Some(m), Some(f)) => e.preview matches EggPreview::Manual { sprite_male, sprite_female, animation }
                && sprite_male == m && sprite_female == f && animation@ == st.animation,
            _ => e.preview is Unset,
        }
        &&& e.genome == st.genome
        &&& e.preview_backup is Unset
        &&& e.sprites@ == st.sprites
        &&& e.bodydata@ == st.bodydata
        &&& e.genetics@ == st.genetics
        &&& !e.use_all_files
    })
}

/// Reads an egg block: the egg named by the block with what its info entries give (see
/// `egg_info_step`); its preview is made of the files named by the male and female
/// sprite names, where both are there.
#[verifier::rlimit(40)]
pub fn read_egg_block(contents: &[u8], block_name: &String, files: &[CreaturesFile]) -> (r: Tag)
    requires
        spec_read_tag_block(contents@) is Ok,
    ensures
        egg_read_from(contents@, block_name@, files@, r),
{
    let mut reader = ByteReader::new(contents);
    let info = read_info_block(&mut reader);
    let ghost entries = info_view(info@);
    let mut female = String::new();
    let mut male = String::new();
    let mut animation = to_owned("0");
    let mut genome: Option<usize> = None;
    let mut sprites: Vec<usize> = Vec::new();
    let mut bodydata: Vec<usize> = Vec::new();
    let mut genetics: Vec<usize> = Vec::new();
    let mut i: usize = 0;
    while i < info.len()
        invariant
            i <= info@.len(),
            entries == info_view(info@),
            ({
                let st = egg_info_read(entries, files@, i as nat);
                &&& st.female == female@
                &&& st.male == male@
                &&& st.animation == animation@
                &&& st.genome == genome
                &&& st.sprites == sprites@
                &&& st.bodydata == bodydata@
                &&& st.genetics == genetics@
            }),
        decreases info@.len() - i,
    {
        let key = info[i].0.as_str();
        assert(entries[i as int] == (info@[i as int].0@, info@[i as int].1@));
        if let InfoValue::Str(value) = &info[i].1 {
            if str_eq(key, "Egg Gallery female") {
                female = to_owned(value.as_str());
            } else if str_eq(key, "Egg Gallery male") {
                male = to_owned(value.as_str());
            } else if str_eq(key, "Egg Animation String") {
                animation = to_owned(value.as_str());
            } else if str_eq(key, "Genetics File") {
                let name = remove_stars(value.as_str());
                genome = lookup_file_index(files, &name);
            } else if starts_with(key, "Dependency") {
                if let Some(file_index) = lookup_file_index(files, value) {
                    match files[file_index].get_filetype() {
                        FileType::Sprite => sprites.push(file_index),
                        FileType::BodyData => bodydata.push(file_index),
                        FileType::Genetics => genetics.push(file_index),
                        _ => {},
                    }
                }
            }
        }
        i = i + 1;
    }
    let mut preview = EggPreview::Unset;
    if let Some(sprite_male) = lookup_file_index(files, &male) {
        if let Some(sprite_female) = lookup_file_index(files, &female) {
            preview = EggPreview::Manual { sprite_male, sprite_female, animation };
        }
    }
    Tag::Egg(EggTag {
        name: to_owned(block_name.as_str()),
        version: String::new(),
        preview,
        genome,
        preview_backup: EggPreview::Unset,
        sprites,
        bodydata,
        genetics,
        use_all_files: false,
    })
}

} // verus!
