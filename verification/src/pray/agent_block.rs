//! Agent blocks: an `AGNT` (Creatures 3) or `DSAG` (Docking Station) block whose info
//! entries describe the agent, hold its scripts and name its dependencies.
use vstd::prelude::*;
use vstd::utf8::*;
use crate::agent::agent_tag::{AgentTag, SupportedGame, Preview, RemoveScript};
use crate::agent::file::{CreaturesFile, ScriptFile, FileType, filetype_of, output_filename, file_data, first_named, lookup_file_index};
use crate::agent::tag::Tag;
use crate::buffer::ByteReader;
use crate::format::pray::spec_read_tag_block;
use super::info_block::{InfoValue, InfoValueView, info_view, info_of, read_info_block};
use crate::buffer::put_slice;
use crate::editor::tag_info::{remove_script_in_text, remove_script_from_text, one_line_script, to_one_line};
use crate::error::Error;
use crate::file_helper::{title, extension, or_empty, path_extension, path_file_stem};
use crate::format::pray::{TagView, tag_block_bytes, numbered_key};
use crate::text::{decimal, decimal_string, str_eq, to_owned, push_str, utf8_to_string, starts_with, utf8_bytes};
use super::helper::{write_block_header, compiled_header_bytes};
use super::info_block::{IntValue, StrValue, int_values_view, str_values_view, write_info_block};

verus! {

/// The entries that show an agent's preview: its sprite file, the sprite's title and the
/// animation.
pub open spec fn animation_entries(file: Seq<char>, animation: Seq<char>) -> Seq<(Seq<char>, Seq<char>)> {
    seq![
        ("Agent Animation File"@, file),
        ("Agent Animation Gallery"@, or_empty(path_file_stem(file))),
        ("Agent Animation String"@, animation),
    ]
}

/// Whether the file at `p` is a file of the kind `ft`.
pub open spec fn is_kind(files: Seq<CreaturesFile>, p: usize, ft: FileType) -> bool {
    p < files.len() && filetype_of(files[p as int]) == ft
}

/// The preview entries of an agent: those of the given sprite and animation, where the
/// sprite is a sprite file; for an automatic preview, those of the first listed sprite
/// with animation "0", where it is a sprite file other than a background.
pub open spec fn preview_entries(p: Preview, sprites: Seq<usize>, files: Seq<CreaturesFile>) -> Seq<(Seq<char>, Seq<char>)> {
    match p {
        Preview::Manual { sprite, animation } => if is_kind(files, sprite, FileType::Sprite) {
            animation_entries(output_filename(files[sprite as int]), animation@)
        } else {
            Seq::empty()
        },
        Preview::Auto => if sprites.len() > 0 && is_kind(files, sprites[0], FileType::Sprite)
            && or_empty(path_extension(output_filename(files[sprites[0] as int]))) != "blk"@ {
            animation_entries(output_filename(files[sprites[0] as int]), "0"@)
        } else {
            Seq::empty()
        },
        Preview::Unset => Seq::empty(),
    }
}

/// The message of the error for a listed script without data.
pub open spec fn missing_script_message(p: usize) -> Seq<char> {
    "Unable to find data for script "@ + decimal(p as nat)
}

/// The script entries of the first `k` listed scripts: `Script n` for the n-th listed
/// place that holds a script, with its text; for the first such script without data,
/// its place, and where its data is not UTF-8, `None`.
pub open spec fn script_entries(scripts: Seq<usize>, files: Seq<CreaturesFile>, k: nat) -> Result<Seq<(Seq<char>, Seq<char>)>, Option<usize>>
    decreases k,
{
    if k == 0 {
        Ok(Seq::empty())
    } else {
        match script_entries(scripts, files, (k - 1) as nat) {
            Err(e) => Err(e),
            Ok(es) => {
                let p = scripts[k - 1];
                if is_kind(files, p, FileType::Script) {
                    match file_data(files[p as int]) {
                        Some(d) => if valid_utf8(d) {
                            Ok(es.push(("Script "@ + decimal(k), decode_utf8(d))))
                        } else {
                            Err(None)
                        },
                        None => Err(Some(p)),
                    }
                } else {
                    Ok(es)
                }
            },
        }
    }
}

/// The first text among the entries that is not empty; empty where there is none.
pub open spec fn first_text(es: Seq<(Seq<char>, Seq<char>)>) -> Seq<char>
    decreases es.len(),
{
    if es.len() == 0 {
        Seq::empty()
    } else if es[0].1.len() > 0 {
        es[0].1
    } else {
        first_text(es.drop_first())
    }
}

/// The remove script entry: the given script where it is not empty; for an automatic
/// one, the remove script found in the first script text, where there is one.
pub open spec fn remove_entries(r: RemoveScript, first_script: Seq<char>) -> Seq<(Seq<char>, Seq<char>)> {
    match r {
        RemoveScript::Manual(s) => if s@.len() > 0 { seq![("Remove script"@, s@)] } else { Seq::empty() },
        RemoveScript::Auto => if first_script.len() > 0 {
            match remove_script_in_text(first_script) {
                Some(x) => seq![("Remove script"@, x)],
                None => Seq::empty(),
            }
        } else {
            Seq::empty()
        },
        RemoveScript::Unset => Seq::empty(),
    }
}

/// The dependencies among the listed places that hold files of the kind `ft`: the
/// category `category` with each file's name.
pub open spec fn kind_dependencies(places: Seq<usize>, files: Seq<CreaturesFile>, ft: FileType, category: u32) -> Seq<(u32, Seq<char>)>
    decreases places.len(),
{
    if places.len() == 0 {
        Seq::empty()
    } else {
        kind_dependencies(places.drop_last(), files, ft, category) + if is_kind(files, places.last(), ft) {
            seq![(category, output_filename(files[places.last() as int]))]
        } else {
            Seq::empty()
        }
    }
}

/// An agent's dependencies: its sprites (category 2), sounds (1) and catalogues (7).
pub open spec fn agent_dependencies(tag: AgentTag, files: Seq<CreaturesFile>) -> Seq<(u32, Seq<char>)> {
    kind_dependencies(tag.sprites@, files, FileType::Sprite, 2) + kind_dependencies(tag.sounds@, files, FileType::Sound, 1)
        + kind_dependencies(tag.catalogues@, files, FileType::Catalogue, 7)
}

/// The integer entries `Dependency Category n` of dependencies.
pub open spec fn dependency_category_values(deps: Seq<(u32, Seq<char>)>) -> Seq<(Seq<char>, u32)> {
    Seq::new(deps.len(), |k: int| ("Dependency Category "@ + decimal((k + 1) as nat), deps[k].0))
}

/// The string entries `Dependency n` of dependencies.
pub open spec fn dependency_name_values(deps: Seq<(u32, Seq<char>)>) -> Seq<(Seq<char>, Seq<char>)> {
    Seq::new(deps.len(), |k: int| ("Dependency "@ + decimal((k + 1) as nat), deps[k].1))
}

/// The error for a script that cannot be written: one without data, by its place, or
/// one that is not UTF-8.
pub open spec fn is_script_error(e: Error, fault: Option<usize>) -> bool {
    match fault {
        Some(p) => e matches Error::Other(m) && m@ == missing_script_message(p),
        None => e == Error::InvalidUtf8,
    }
}

/// The info entries of an agent's block, or the fault of its scripts.
pub open spec fn agent_block_info(tag: AgentTag, files: Seq<CreaturesFile>) -> Result<TagView, Option<usize>> {
    match script_entries(tag.scripts@, files, tag.scripts@.len()) {
        Err(e) => Err(e),
        Ok(scripts) => {
            let deps = agent_dependencies(tag, files);
            Ok(TagView {
                ints: seq![("Agent Type"@, 0u32), ("Script Count"@, tag.scripts@.len() as u32)]
                    + dependency_category_values(deps) + seq![("Dependency Count"@, deps.len() as u32)],
                strs: (if tag.description@.len() > 0 { seq![("Agent Description"@, tag.description@)] } else { Seq::empty() })
                    + preview_entries(tag.preview, tag.sprites@, files) + scripts
                    + remove_entries(tag.remove_script, first_text(scripts)) + dependency_name_values(deps),
            })
        },
    }
}

/// Whether the dependency `dep` (a category and a file name) names the file at `p`,
/// with the category of that file's kind: 2 for a sprite, 1 for a sound, 7 for a
/// catalogue.
pub open spec fn names_file_of_kind(files: Seq<CreaturesFile>, p: usize, dep: (u32, Seq<char>)) -> bool {
    &&& p < files.len()
    &&& dep.1 == output_filename(files[p as int])
    &&& match filetype_of(files[p as int]) {
        FileType::Sprite => dep.0 == 2,
        FileType::Sound => dep.0 == 1,
        FileType::Catalogue => dep.0 == 7,
        _ => false,
    }
}

/// Whether a dependency names some file, with the category of that file's kind.
pub open spec fn names_some_file_of_kind(files: Seq<CreaturesFile>, dep: (u32, Seq<char>)) -> bool {
    exists|p: usize| #[trigger] names_file_of_kind(files, p, dep)
}

/// Whether each dependency names a file with the category of that file's kind.
pub open spec fn all_name_files_of_kind(files: Seq<CreaturesFile>, deps: Seq<(u32, Seq<char>)>) -> bool {
    forall|k: int| 0 <= k < deps.len() ==> #[trigger] names_some_file_of_kind(files, deps[k])
}

proof fn lemma_kind_dependencies_named(places: Seq<usize>, files: Seq<CreaturesFile>, ft: FileType, category: u32)
    requires
        (ft == FileType::Sprite && category == 2) || (ft == FileType::Sound && category == 1)
            || (ft == FileType::Catalogue && category == 7),
    ensures
        all_name_files_of_kind(files, kind_dependencies(places, files, ft, category)),
    decreases places.len(),
{
    if places.len() > 0 {
        let prev = kind_dependencies(places.drop_last(), files, ft, category);
        let all = kind_dependencies(places, files, ft, category);
        lemma_kind_dependencies_named(places.drop_last(), files, ft, category);
        let extra = if is_kind(files, places.last(), ft) {
            seq![(category, output_filename(files[places.last() as int]))]
        } else {
            Seq::empty()
        };
        assert(all == prev + extra);
        assert forall|k: int| 0 <= k < all.len() implies #[trigger] names_some_file_of_kind(files, all[k]) by {
            if k < prev.len() {
                assert(all[k] == prev[k]);
                assert(names_some_file_of_kind(files, prev[k]));
            } else {
                let last = places.last();
                assert(is_kind(files, last, ft));
                assert(all[k] == (category, output_filename(files[last as int])));
                assert(names_file_of_kind(files, last, all[k]));
            }
        }
        assert(all_name_files_of_kind(files, all));
    } else {
        assert(kind_dependencies(places, files, ft, category).len() == 0);
        assert(all_name_files_of_kind(files, kind_dependencies(places, files, ft, category)));
    }
}

/// The `k`-th dependency entry pair of an agent's info entries: `Dependency Category
/// k+1` among the integers and `Dependency k+1` at the same place among the last
/// strings, naming a file, with the category of that file's kind.
pub open spec fn is_dependency_entry(files: Seq<CreaturesFile>, t: TagView, k: int) -> bool {
    let n = t.ints.len() - 3;
    let c = t.ints[2 + k];
    let s = t.strs[t.strs.len() - n + k];
    &&& c.0 == "Dependency Category "@ + decimal((k + 1) as nat)
    &&& s.0 == "Dependency "@ + decimal((k + 1) as nat)
    &&& names_some_file_of_kind(files, (c.1, s.1))
}

/// In the info entries of a compiled agent block, the integers are the agent type, the
/// script count, one category per dependency and the dependency count; each dependency's
/// category is fixed by the kind of the file it names: 2 for a sprite, 1 for a sound, 7
/// for a catalogue.
pub proof fn lemma_agent_block_dependency_categories(tag: AgentTag, files: Seq<CreaturesFile>)
    ensures
        agent_block_info(tag, files) matches Ok(t) ==> {
            &&& t.ints.len() >= 3
            &&& t.strs.len() >= t.ints.len() - 3
            &&& t.ints.last() == ("Dependency Count"@, (t.ints.len() - 3) as u32)
            &&& forall|k: int| 0 <= k < t.ints.len() - 3 ==> #[trigger] is_dependency_entry(files, t, k)
        },
{
    if let Ok(t) = agent_block_info(tag, files) {
        let deps = agent_dependencies(tag, files);
        let a = kind_dependencies(tag.sprites@, files, FileType::Sprite, 2);
        let b = kind_dependencies(tag.sounds@, files, FileType::Sound, 1);
        let c = kind_dependencies(tag.catalogues@, files, FileType::Catalogue, 7);
        lemma_kind_dependencies_named(tag.sprites@, files, FileType::Sprite, 2);
        lemma_kind_dependencies_named(tag.sounds@, files, FileType::Sound, 1);
        lemma_kind_dependencies_named(tag.catalogues@, files, FileType::Catalogue, 7);
        assert forall|k: int| 0 <= k < deps.len() implies #[trigger] names_some_file_of_kind(files, deps[k]) by {
            if k < a.len() {
                assert(deps[k] == a[k]);
                assert(names_some_file_of_kind(files, a[k]));
            } else if k < a.len() + b.len() {
                assert(deps[k] == b[k - a.len()]);
                assert(names_some_file_of_kind(files, b[k - a.len()]));
            } else {
                assert(deps[k] == c[k - a.len() - b.len()]);
                assert(names_some_file_of_kind(files, c[k - a.len() - b.len()]));
            }
        }
        let n = deps.len();
        assert(t.ints.len() == n + 3);
        assert forall|k: int| 0 <= k < t.ints.len() - 3 implies #[trigger] is_dependency_entry(files, t, k) by {
            assert(t.ints[2 + k] == dependency_category_values(deps)[k]);
            assert(t.strs[t.strs.len() - n + k] == dependency_name_values(deps)[k]);
            assert(names_some_file_of_kind(files, deps[k]));
            assert((t.ints[2 + k].1, t.strs[t.strs.len() - n + k].1) == deps[k]);
        }
    }
}

/// The block type of an agent: `AGNT` for Creatures 3, `DSAG` otherwise.
pub open spec fn agent_block_type(g: SupportedGame) -> Seq<char> {
    if g == SupportedGame::C3 { "AGNT"@ } else { "DSAG"@ }
}

pub(crate) fn push_str_value(values: &mut Vec<StrValue>, name: &str, value: &str)
    ensures
        str_values_view(final(values)@) == str_values_view(old(values)@).push((name@, value@)),
{
    let ghost prev = values@;
    values.push(StrValue(to_owned(name), to_owned(value)));
    assert(str_values_view(values@) =~= str_values_view(prev).push((name@, value@))) by {
        assert(values@.len() == prev.len() + 1);
        assert forall|k: int| 0 <= k < prev.len() implies #[trigger] values@[k] == prev[k] by {}
    }
}

pub(crate) fn push_int_value(values: &mut Vec<IntValue>, name: &str, value: u32)
    ensures
        int_values_view(final(values)@) == int_values_view(old(values)@).push((name@, value)),
{
    let ghost prev = values@;
    values.push(IntValue(to_owned(name), value));
    assert(int_values_view(values@) =~= int_values_view(prev).push((name@, value))) by {
        assert(values@.len() == prev.len() + 1);
        assert forall|k: int| 0 <= k < prev.len() implies #[trigger] values@[k] == prev[k] by {}
    }
}

fn push_animation_entries(values: &mut Vec<StrValue>, file: &str, animation: &str)
    ensures
        str_values_view(final(values)@) == str_values_view(old(values)@) + animation_entries(file@, animation@),
{
    push_str_value(values, "Agent Animation File", file);
    let gallery = title(file);
    push_str_value(values, "Agent Animation Gallery", gallery.as_str());
    push_str_value(values, "Agent Animation String", animation);
    assert(str_values_view(values@) =~= str_values_view(old(values)@) + animation_entries(file@, animation@));
}

fn push_preview_entries(values: &mut Vec<StrValue>, tag: &AgentTag, files: &[CreaturesFile])
    ensures
        str_values_view(final(values)@) == str_values_view(old(values)@) + preview_entries(tag.preview, tag.sprites@, files@),
{
    match &tag.preview {
        Preview::Manual { sprite, animation } => {
            if *sprite < files.len() && files[*sprite].get_filetype() == FileType::Sprite {
                push_animation_entries(values, files[*sprite].get_output_filename_ref().as_str(), animation.as_str());
            } else {
                assert(str_values_view(values@) =~= str_values_view(old(values)@) + Seq::empty());
            }
        },
        Preview::Auto => {
            if tag.sprites.len() > 0 && tag.sprites[0] < files.len() && files[tag.sprites[0]].get_filetype() == FileType::Sprite
                && !str_eq(extension(files[tag.sprites[0]].get_output_filename_ref().as_str()).as_str(), "blk") {
                push_animation_entries(values, files[tag.sprites[0]].get_output_filename_ref().as_str(), "0");
            } else {
                assert(str_values_view(values@) =~= str_values_view(old(values)@) + Seq::empty());
            }
        },
        Preview::Unset => {
            assert(str_values_view(values@) =~= str_values_view(old(values)@) + Seq::empty());
        },
    }
}

proof fn lemma_first_text_push(es: Seq<(Seq<char>, Seq<char>)>, e: (Seq<char>, Seq<char>))
    ensures
        first_text(es.push(e)) == if first_text(es).len() > 0 { first_text(es) } else { e.1 },
    decreases es.len(),
{
    reveal_with_fuel(first_text, 2);
    if es.len() == 0 {
        assert(es.push(e).drop_first() =~= Seq::<(Seq<char>, Seq<char>)>::empty());
        assert(first_text(es.push(e).drop_first()) == Seq::<char>::empty());
        assert(es.push(e)[0] == e);
        if e.1.len() == 0 {
            assert(e.1 =~= Seq::<char>::empty());
        }
    } else {
        assert(es.push(e)[0] == es[0]);
        assert(es.push(e).drop_first() =~= es.drop_first().push(e));
        lemma_first_text_push(es.drop_first(), e);
    }
}

proof fn lemma_script_entries_err(scripts: Seq<usize>, files: Seq<CreaturesFile>, k: nat, n: nat)
    requires
        k <= n,
        script_entries(scripts, files, k) is Err,
    ensures
        script_entries(scripts, files, n) == script_entries(scripts, files, k),
    decreases n - k,
{
    if k < n {
        lemma_script_entries_err(scripts, files, k, (n - 1) as nat);
    }
}

/// The script entries of an agent, with the first script text that is not empty.
fn script_values(scripts: &Vec<usize>, files: &[CreaturesFile]) -> (r: Result<(Vec<StrValue>, String), Error>)
    ensures
        match script_entries(scripts@, files@, scripts@.len()) {
            Ok(es) => r matches Ok((v, first)) && str_values_view(v@) == es && first@ == first_text(es),
            Err(fault) => r matches Err(x) && is_script_error(x, fault),
        },
{
    let mut values: Vec<StrValue> = Vec::new();
    let mut first = String::new();
    let mut i: usize = 0;
    assert(str_values_view(values@) =~= Seq::<(Seq<char>, Seq<char>)>::empty());
    while i < scripts.len()
        invariant
            i <= scripts@.len(),
            script_entries(scripts@, files@, i as nat) == Ok::<Seq<(Seq<char>, Seq<char>)>, Option<usize>>(str_values_view(values@)),
            first@ == first_text(str_values_view(values@)),
        decreases scripts@.len() - i,
    {
        let p = scripts[i];
        if p < files.len() {
            if let CreaturesFile::Script(script_file) = &files[p] {
                match &script_file.data {
                    Some(data) => {
                        match utf8_to_string(data.as_slice()) {
                            Some(text) => {
                                let ghost es = str_values_view(values@);
                                proof {
                                    lemma_first_text_push(es, ("Script "@ + decimal((i + 1) as nat), text@));
                                }
                                if first.as_str().unicode_len() == 0 {
                                    first = to_owned(text.as_str());
                                }
                                let key = numbered_key("Script ", (i + 1) as u64);
                                push_str_value(&mut values, key.as_str(), text.as_str());
                            },
                            None => {
                                proof {
                                    lemma_script_entries_err(scripts@, files@, (i + 1) as nat, scripts@.len());
                                }
                                return Err(Error::InvalidUtf8);
                            },
                        }
                    },
                    None => {
                        let mut m = to_owned("Unable to find data for script ");
                        let digits = decimal_string(p as u64);
                        push_str(&mut m, digits.as_str());
                        proof {
                            lemma_script_entries_err(scripts@, files@, (i + 1) as nat, scripts@.len());
                        }
                        return Err(Error::Other(m));
                    },
                }
            }
        }
        i = i + 1;
    }
    Ok((values, first))
}

fn push_remove_entries(values: &mut Vec<StrValue>, remove_script: &RemoveScript, first_script: &str)
    ensures
        str_values_view(final(values)@) == str_values_view(old(values)@) + remove_entries(*remove_script, first_script@),
{
    match remove_script {
        RemoveScript::Manual(s) => {
            if s.as_str().unicode_len() > 0 {
                push_str_value(values, "Remove script", s.as_str());
                assert(str_values_view(values@) =~= str_values_view(old(values)@) + remove_entries(*remove_script, first_script@));
                return;
            }
        },
        RemoveScript::Auto => {
            if first_script.unicode_len() > 0 {
                if let Some(x) = remove_script_from_text(first_script) {
                    push_str_value(values, "Remove script", x.as_str());
                    assert(str_values_view(values@) =~= str_values_view(old(values)@) + remove_entries(*remove_script, first_script@));
                    return;
                }
            }
        },
        RemoveScript::Unset => {},
    }
    assert(str_values_view(values@) =~= str_values_view(old(values)@) + remove_entries(*remove_script, first_script@));
}

/// The dependencies view of a list of categories and names.
pub open spec fn dependencies_view(v: Seq<(u32, String)>) -> Seq<(u32, Seq<char>)> {
    Seq::new(v.len(), |i: int| (v[i].0, v[i].1@))
}

pub(crate) fn push_kind_dependencies(deps: &mut Vec<(u32, String)>, places: &Vec<usize>, files: &[CreaturesFile], ft: FileType, category: u32)
    ensures
        dependencies_view(final(deps)@) == dependencies_view(old(deps)@) + kind_dependencies(places@, files@, ft, category),
{
    let ghost head = dependencies_view(deps@);
    let mut i: usize = 0;
    while i < places.len()
        invariant
            i <= places@.len(),
            dependencies_view(deps@) == head + kind_dependencies(places@.take(i as int), files@, ft, category),
        decreases places@.len() - i,
    {
        let p = places[i];
        assert(places@.take(i + 1).drop_last() =~= places@.take(i as int));
        assert(places@.take(i + 1).last() == p);
        let ghost before = deps@;
        if p < files.len() && files[p].get_filetype() == ft {
            deps.push((category, files[p].get_output_filename()));
            assert(dependencies_view(deps@) =~= dependencies_view(before).push((category, output_filename(files@[p as int]))));
        }
        assert(dependencies_view(deps@) =~= head + kind_dependencies(places@.take(i + 1), files@, ft, category));
        i = i + 1;
    }
    assert(places@.take(i as int) =~= places@);
}

pub(crate) fn push_dependency_values(int_values: &mut Vec<IntValue>, str_values: &mut Vec<StrValue>, deps: &Vec<(u32, String)>)
    ensures
        int_values_view(final(int_values)@) == int_values_view(old(int_values)@) + dependency_category_values(dependencies_view(deps@)),
        str_values_view(final(str_values)@) == str_values_view(old(str_values)@) + dependency_name_values(dependencies_view(deps@)),
{
    let ghost dv = dependencies_view(deps@);
    let ghost ints_head = int_values_view(int_values@);
    let ghost strs_head = str_values_view(str_values@);
    let mut d: usize = 0;
    while d < deps.len()
        invariant
            d <= deps@.len(),
            dv == dependencies_view(deps@),
            int_values_view(int_values@) == ints_head + dependency_category_values(dv).take(d as int),
            str_values_view(str_values@) == strs_head + dependency_name_values(dv).take(d as int),
        decreases deps@.len() - d,
    {
        let n = (d + 1) as u64;
        let category_key = numbered_key("Dependency Category ", n);
        push_int_value(int_values, category_key.as_str(), deps[d].0);
        let name_key = numbered_key("Dependency ", n);
        push_str_value(str_values, name_key.as_str(), deps[d].1.as_str());
        assert(dependency_category_values(dv).take(d + 1) =~= dependency_category_values(dv).take(d as int).push(
            dependency_category_values(dv)[d as int],
        ));
        assert(dependency_name_values(dv).take(d + 1) =~= dependency_name_values(dv).take(d as int).push(
            dependency_name_values(dv)[d as int],
        ));
        d = d + 1;
    }
    assert(dependency_category_values(dv).take(d as int) =~= dependency_category_values(dv));
    assert(dependency_name_values(dv).take(d as int) =~= dependency_name_values(dv));
}

/// Writes an agent's block: its info entries under a header of its block type and name;
/// the error of its scripts where one has no data or is not UTF-8.
#[verifier::rlimit(40)]
pub fn write_agent_block(tag: &AgentTag, files: &[CreaturesFile]) -> (r: Result<Vec<u8>, Error>)
    ensures
        match agent_block_info(*tag, files@) {
            Ok(t) => r matches Ok(b) && b@ == compiled_header_bytes(agent_block_type(tag.supported_game), tag.name@,
                #[verifier::truncate] ((tag_block_bytes(t).len() as usize) as u32)) + tag_block_bytes(t),
            Err(fault) => r matches Err(x) && is_script_error(x, fault),
        },
{
    let mut int_values: Vec<IntValue> = Vec::new();
    let mut str_values: Vec<StrValue> = Vec::new();
    assert(int_values_view(int_values@) =~= Seq::<(Seq<char>, u32)>::empty());
    assert(str_values_view(str_values@) =~= Seq::<(Seq<char>, Seq<char>)>::empty());
    push_int_value(&mut int_values, "Agent Type", 0);
    if tag.description.as_str().unicode_len() > 0 {
        push_str_value(&mut str_values, "Agent Description", tag.description.as_str());
    }
    let ghost desc = str_values_view(str_values@);
    assert(desc =~= if tag.description@.len() > 0 { seq![("Agent Description"@, tag.description@)] } else { Seq::empty() });
    push_preview_entries(&mut str_values, tag, files);
    let script_count = #[verifier::truncate] (tag.scripts.len() as u32);
    assert(script_count == tag.scripts@.len() as u32);
    push_int_value(&mut int_values, "Script Count", script_count);
    let ghost ints0 = int_values_view(int_values@);
    assert(ints0 =~= seq![("Agent Type"@, 0u32), ("Script Count"@, tag.scripts@.len() as u32)]);
    let (scripts, first_script) = match script_values(&tag.scripts, files) {
        Ok(v) => v,
        Err(e) => {
            return Err(e);
        },
    };
    let ghost with_preview = str_values_view(str_values@);
    let mut k: usize = 0;
    while k < scripts.len()
        invariant
            k <= scripts@.len(),
            str_values_view(str_values@) == with_preview + str_values_view(scripts@).take(k as int),
        decreases scripts@.len() - k,
    {
        push_str_value(&mut str_values, scripts[k].0.as_str(), scripts[k].1.as_str());
        assert(str_values_view(scripts@).take(k + 1) =~= str_values_view(scripts@).take(k as int).push(str_values_view(scripts@)[k as int]));
        k = k + 1;
    }
    assert(str_values_view(scripts@).take(k as int) =~= str_values_view(scripts@));
    let ghost es = str_values_view(scripts@);
    let ghost with_scripts = str_values_view(str_values@);
    push_remove_entries(&mut str_values, &tag.remove_script, first_script.as_str());
    let mut deps: Vec<(u32, String)> = Vec::new();
    assert(dependencies_view(deps@) =~= Seq::<(u32, Seq<char>)>::empty());
    push_kind_dependencies(&mut deps, &tag.sprites, files, FileType::Sprite, 2);
    push_kind_dependencies(&mut deps, &tag.sounds, files, FileType::Sound, 1);
    push_kind_dependencies(&mut deps, &tag.catalogues, files, FileType::Catalogue, 7);
    let ghost dv = dependencies_view(deps@);
    assert(dv =~= agent_dependencies(*tag, files@));
    let ghost with_remove = str_values_view(str_values@);
    push_dependency_values(&mut int_values, &mut str_values, &deps);
    let dependency_count = #[verifier::truncate] (deps.len() as u32);
    assert(dependency_count == dv.len() as u32);
    push_int_value(&mut int_values, "Dependency Count", dependency_count);
    let ghost info = TagView { ints: int_values_view(int_values@), strs: str_values_view(str_values@) };
    assert(agent_block_info(*tag, files@) == Ok::<TagView, Option<usize>>(info)) by {
        assert(info.ints =~= ints0 + dependency_category_values(dv) + seq![("Dependency Count"@, dv.len() as u32)]);
        assert(with_scripts == desc + preview_entries(tag.preview, tag.sprites@, files@) + es);
        assert(with_remove == with_scripts + remove_entries(tag.remove_script, first_text(es)));
        assert(info.strs =~= desc + preview_entries(tag.preview, tag.sprites@, files@) + es
            + remove_entries(tag.remove_script, first_text(es)) + dependency_name_values(dv));
    }
    let blocks_buffer = write_info_block(int_values, str_values);
    let block_type = match tag.supported_game {
        SupportedGame::C3 => "AGNT",
        _ => "DSAG",
    };
    let size = #[verifier::truncate] (blocks_buffer.len() as u32);
    let mut buffer = write_block_header(block_type, tag.name.as_str(), size);
    put_slice(&mut buffer, blocks_buffer.as_slice());
    Ok(buffer)
}

/// What reading an agent block's info entries gathers: the description, the preview's
/// sprite title and animation, the remove script, the scripts' texts, and the places of
/// the sprites, sounds and catalogues it depends on.
pub struct AgentInfoRead {
    pub description: Seq<char>,
    pub gallery: Seq<char>,
    pub animation: Seq<char>,
    pub remove_script: Option<Seq<char>>,
    pub scripts: Seq<Seq<char>>,
    pub sprites: Seq<usize>,
    pub sounds: Seq<usize>,
    pub catalogues: Seq<usize>,
}

/// Whether `key` begins with `prefix`.
pub open spec fn begins_with(key: Seq<char>, prefix: Seq<char>) -> bool {
    prefix.len() <= key.len() && key.take(prefix.len() as int) == prefix
}

/// Reading one info entry of an agent block: the description, the preview's sprite
/// title and animation and the remove script (on one line) by their names; a `Script`
/// entry adds a script; a `Dependency` entry adds the place of the first file of that
/// name to the list of its kind.
pub open spec fn agent_info_step(st: AgentInfoRead, key: Seq<char>, value: InfoValueView, files: Seq<CreaturesFile>) -> AgentInfoRead {
    match value {
        InfoValueView::Int(_) => st,
        InfoValueView::Str(v) => if key == "Agent Description"@ {
            AgentInfoRead { description: v, ..st }
        } else if key == "Agent Animation Gallery"@ {
            AgentInfoRead { gallery: v, ..st }
        } else if key == "Agent Animation String"@ {
            AgentInfoRead { animation: v, ..st }
        } else if key == "Remove script"@ {
            match one_line_script(v) {
                Some(c) => AgentInfoRead { remove_script: Some(c), ..st },
                None => st,
            }
        } else if begins_with(key, "Script"@) {
            AgentInfoRead { scripts: st.scripts.push(v), ..st }
        } else if begins_with(key, "Dependency"@) {
            match first_named(files, v, 0) {
                Some(p) => match filetype_of(files[p as int]) {
                    FileType::Sprite => AgentInfoRead { sprites: st.sprites.push(p), ..st },
                    FileType::Sound => AgentInfoRead { sounds: st.sounds.push(p), ..st },
                    FileType::Catalogue => AgentInfoRead { catalogues: st.catalogues.push(p), ..st },
                    _ => st,
                },
                None => st,
            }
        } else {
            st
        },
    }
}

/// Reading the first `k` info entries of an agent block.
pub open spec fn agent_info_read(entries: Seq<(Seq<char>, InfoValueView)>, files: Seq<CreaturesFile>, k: nat) -> AgentInfoRead
    decreases k,
{
    if k == 0 {
        AgentInfoRead {
            description: Seq::empty(),
            gallery: Seq::empty(),
            animation: Seq::empty(),
            remove_script: None,
            scripts: Seq::empty(),
            sprites: Seq::empty(),
            sounds: Seq::empty(),
            catalogues: Seq::empty(),
        }
    } else {
        agent_info_step(agent_info_read(entries, files, (k - 1) as nat), entries[k - 1].0, entries[k - 1].1, files)
    }
}

/// The first file of a name, where there is one, is a file of that name among them.
pub proof fn lemma_first_named_found(files: Seq<CreaturesFile>, name: Seq<char>, from: nat)
    requires
        files.len() <= usize::MAX,
    ensures
        first_named(files, name, from) matches Some(p) ==> from <= p < files.len() && output_filename(files[p as int]) == name,
    decreases files.len() - from,
{
    if from < files.len() {
        lemma_first_named_found(files, name, from + 1);
    }
}

/// Reading one more info entry of an agent block where that entry is a `Dependency`
/// entry naming a file: the place of the first file of that name joins the list of its
/// kind (a sprite to the sprites, a sound to the sounds, a catalogue to the
/// catalogues), and the other two lists stay as they were.
pub proof fn lemma_dependency_entry_read(entries: Seq<(Seq<char>, InfoValueView)>, files: Seq<CreaturesFile>, k: nat)
    requires
        k < entries.len(),
        begins_with(entries[k as int].0, "Dependency"@),
        entries[k as int].1 is Str,
        first_named(files, entries[k as int].1->Str_0, 0) is Some,
    ensures
        ({
            let p = first_named(files, entries[k as int].1->Str_0, 0)->Some_0;
            let a = agent_info_read(entries, files, k);
            let b = agent_info_read(entries, files, k + 1);
            &&& filetype_of(files[p as int]) == FileType::Sprite ==> b.sprites == a.sprites.push(p) && b.sounds == a.sounds
                && b.catalogues == a.catalogues
            &&& filetype_of(files[p as int]) == FileType::Sound ==> b.sounds == a.sounds.push(p) && b.sprites == a.sprites
                && b.catalogues == a.catalogues
            &&& filetype_of(files[p as int]) == FileType::Catalogue ==> b.catalogues == a.catalogues.push(p)
                && b.sprites == a.sprites && b.sounds == a.sounds
        }),
{
    reveal_strlit("Dependency");
    reveal_strlit("Agent Description");
    reveal_strlit("Agent Animation Gallery");
    reveal_strlit("Agent Animation String");
    reveal_strlit("Remove script");
    reveal_strlit("Script");
    let key = entries[k as int].0;
    assert(key[0] == "Dependency"@[0]);
    assert(key != "Agent Description"@ && key != "Agent Animation Gallery"@ && key != "Agent Animation String"@) by {
        assert("Agent Description"@[0] == 'A' && "Agent Animation Gallery"@[0] == 'A' && "Agent Animation String"@[0] == 'A');
    }
    assert(key != "Remove script"@) by {
        assert("Remove script"@[0] == 'R');
    }
    assert(!begins_with(key, "Script"@)) by {
        if begins_with(key, "Script"@) {
            assert(key[0] == "Script"@[0]);
        }
    }
}

/// After reading any number of an agent block's info entries, each listed sprite,
/// sound and catalogue is the place of a file of that kind among the files.
pub proof fn lemma_agent_read_lists_by_kind(entries: Seq<(Seq<char>, InfoValueView)>, files: Seq<CreaturesFile>, k: nat)
    requires
        files.len() <= usize::MAX,
        k <= entries.len(),
    ensures
        ({
            let st = agent_info_read(entries, files, k);
            &&& forall|i: int| 0 <= i < st.sprites.len() ==> is_kind(files, #[trigger] st.sprites[i], FileType::Sprite)
            &&& forall|i: int| 0 <= i < st.sounds.len() ==> is_kind(files, #[trigger] st.sounds[i], FileType::Sound)
            &&& forall|i: int| 0 <= i < st.catalogues.len() ==> is_kind(files, #[trigger] st.catalogues[i], FileType::Catalogue)
        }),
    decreases k,
{
    if k > 0 {
        lemma_agent_read_lists_by_kind(entries, files, (k - 1) as nat);
        let (key, value) = entries[k - 1];
        if let InfoValueView::Str(v) = value {
            lemma_first_named_found(files, v, 0);
        }
    }
}

/// The name of the `n`-th script read from an agent block.
pub open spec fn script_file_name(block_name: Seq<char>, n: nat) -> Seq<char> {
    if n == 1 {
        block_name + " script.cos"@
    } else {
        block_name + " script "@ + decimal(n) + ".cos"@
    }
}

/// Whether `f` is the script file read from an agent block under `name` with `text`.
pub open spec fn is_read_script(f: CreaturesFile, name: Seq<char>, text: Seq<char>) -> bool {
    match f {
        CreaturesFile::Script(s) => s.filetype == FileType::Script && s.output_filename@ == name && s.input_filename@ == name
            && (match s.data { Some(d) => d@ == encode_utf8(text), None => false }),
        _ => false,
    }
}

/// Finding the first file of a name among files with more added after them: where the
/// first holds a file of that name, the same place.
proof fn lemma_first_named_extended(files: Seq<CreaturesFile>, more: Seq<CreaturesFile>, name: Seq<char>, from: nat)
    requires
        from <= files.len(),
        files.len() + more.len() <= usize::MAX,
    ensures
        match first_named(files + more, name, from) {
            Some(i) => if i < files.len() { first_named(files, name, from) == Some(i) } else { first_named(files, name, from) is None },
            None => first_named(files, name, from) is None,
        },
        first_named(files, name, from) is Some ==> first_named(files + more, name, from) == first_named(files, name, from),
    decreases files.len() - from,
{
    if from < files.len() {
        assert((files + more)[from as int] == files[from as int]);
        lemma_first_named_extended(files, more, name, from + 1);
    } else {
        lemma_first_named_above(files + more, name, from);
    }
}

proof fn lemma_first_named_above(files: Seq<CreaturesFile>, name: Seq<char>, from: nat)
    requires
        files.len() <= usize::MAX,
    ensures
        first_named(files, name, from) matches Some(i) ==> i >= from,
    decreases files.len() - from,
{
    if from < files.len() {
        lemma_first_named_above(files, name, from + 1);
    }
}

proof fn lemma_first_named_none_among(files: Seq<CreaturesFile>, name: Seq<char>, from: nat, start: nat)
    requires
        forall|i: int| start <= i < files.len() ==> output_filename(#[trigger] files[i]) != name,
        from >= start,
    ensures
        first_named(files, name, from) is None,
    decreases files.len() - from,
{
    if from < files.len() {
        lemma_first_named_none_among(files, name, from + 1, start);
    }
}

/// The name of the `n`-th script read from an agent block.
fn script_name(block_name: &str, n: usize) -> (r: String)
    ensures
        r@ == script_file_name(block_name@, n as nat),
{
    let mut name = to_owned(block_name);
    if n == 1 {
        push_str(&mut name, " script.cos");
    } else {
        push_str(&mut name, " script ");
        let digits = decimal_string(n as u64);
        push_str(&mut name, digits.as_str());
        push_str(&mut name, ".cos");
    }
    name
}

/// Whether reading the agent block `contents` named `name` for `game` gives `tag` and
/// takes the files from `before` to `after` (see `read_agent_block`).
pub open spec fn agent_read_from(contents: Seq<u8>, name: Seq<char>, game: SupportedGame, before: Seq<CreaturesFile>, after: Seq<CreaturesFile>, r: Tag) -> bool {
    ({
        let st = agent_info_read(info_of(spec_read_tag_block(contents)->Ok_0.0), before,
            info_of(spec_read_tag_block(contents)->Ok_0.0).len());
        let n0 = before.len();
        &&& after.len() == n0 + st.scripts.len()
        &&& forall|i: int| 0 <= i < n0 ==> #[trigger] after[i] == before[i]
        &&& forall|k: int| 0 <= k < st.scripts.len() ==> is_read_script(#[trigger] after[n0 + k],
            script_file_name(name, (k + 1) as nat), st.scripts[k])
        &&& r matches Tag::Agent(a)
        &&& a.name@ == name
        &&& a.version@ == Seq::<char>::empty()
        &&& a.description@ == st.description
        &&& a.supported_game == game
        &&& match st.remove_script {
            Some(c) => a.remove_script matches RemoveScript::Manual(m) && m@ == c,
            None => a.remove_script is Unset,
        }
        &&& match first_named(before, st.gallery + ".c16"@, 0) {
            Some(p) => a.preview matches Preview::Manual { sprite, animation } && sprite == p && animation@ == st.animation,
            None => a.preview is Unset,
        }
        &&& a.remove_script_backup is Unset
        &&& a.preview_backup is Unset
        &&& a.scripts@ == Seq::new(st.scripts.len(), |k: int| (n0 + k) as usize)
        &&& a.sprites@ == st.sprites
        &&& a.sounds@ == st.sounds
        &&& a.catalogues@ == st.catalogues
        &&& !a.use_all_files
    })
}

/// In the agent that reading an agent block gives, each listed sprite, sound and
/// catalogue is the place of a file of that kind among the files there before.
pub proof fn lemma_read_agent_lists_by_kind(contents: Seq<u8>, name: Seq<char>, game: SupportedGame, before: Seq<CreaturesFile>, after: Seq<CreaturesFile>, r: Tag)
    requires
        agent_read_from(contents, name, game, before, after, r),
        before.len() <= usize::MAX,
    ensures
        r matches Tag::Agent(a) && {
            &&& forall|i: int| 0 <= i < a.sprites@.len() ==> is_kind(before, #[trigger] a.sprites@[i], FileType::Sprite)
            &&& forall|i: int| 0 <= i < a.sounds@.len() ==> is_kind(before, #[trigger] a.sounds@[i], FileType::Sound)
            &&& forall|i: int| 0 <= i < a.catalogues@.len() ==> is_kind(before, #[trigger] a.catalogues@[i], FileType::Catalogue)
        },
{
    let entries = info_of(spec_read_tag_block(contents)->Ok_0.0);
    lemma_agent_read_lists_by_kind(entries, before, entries.len());
}

/// Reads an agent block: the agent named by the block, for the given game, with what its
/// info entries give (see `agent_info_step`); each script read is added to `files`, named
/// after the block; the preview is the sprite named by the preview title and `.c16`,
/// where there is one.
#[verifier::rlimit(60)]
pub fn read_agent_block(contents: &[u8], block_name: &String, supported_game: SupportedGame, files: &mut Vec<CreaturesFile>) -> (r: Tag)
    requires
        spec_read_tag_block(contents@) is Ok,
    ensures
        agent_read_from(contents@, block_name@, supported_game, old(files)@, final(files)@, r),
{
    let mut reader = ByteReader::new(contents);
    let info = read_info_block(&mut reader);
    let ghost entries = info_view(info@);
    let ghost base = files@;
    let n0 = files.len();
    let mut description = String::new();
    let mut gallery = String::new();
    let mut animation = String::new();
    let mut remove_script: Option<String> = None;
    let mut scripts: Vec<usize> = Vec::new();
    let mut sprites: Vec<usize> = Vec::new();
    let mut sounds: Vec<usize> = Vec::new();
    let mut catalogues: Vec<usize> = Vec::new();
    let ghost mut texts: Seq<Seq<char>> = Seq::empty();
    let mut i: usize = 0;
    while i < info.len()
        invariant
            i <= info@.len(),
            entries == info_view(info@),
            n0 == base.len(),
            ({
                let st = agent_info_read(entries, base, i as nat);
                &&& st.description == description@
                &&& st.gallery == gallery@
                &&& st.animation == animation@
                &&& st.remove_script == match remove_script { Some(x) => Some(x@), None => None::<Seq<char>> }
                &&& st.scripts == texts
                &&& st.sprites == sprites@
                &&& st.sounds == sounds@
                &&& st.catalogues == catalogues@
            }),
            files@.len() == n0 + texts.len(),
            texts.len() <= i,
            forall|j: int| 0 <= j < n0 ==> #[trigger] files@[j] == base[j],
            forall|k: int| 0 <= k < texts.len() ==> is_read_script(#[trigger] files@[n0 + k],
                script_file_name(block_name@, (k + 1) as nat), texts[k]),
            scripts@ == Seq::new(texts.len(), |k: int| (n0 + k) as usize),
        decreases info@.len() - i,
    {
        let key = info[i].0.as_str();
        assert(entries[i as int] == (info@[i as int].0@, info@[i as int].1@));
        if let InfoValue::Str(value) = &info[i].1 {
            if str_eq(key, "Agent Description") {
                description = to_owned(value.as_str());
            } else if str_eq(key, "Agent Animation Gallery") {
                gallery = to_owned(value.as_str());
            } else if str_eq(key, "Agent Animation String") {
                animation = to_owned(value.as_str());
            } else if str_eq(key, "Remove script") {
                if let Some(c) = to_one_line(value.as_str()) {
                    remove_script = Some(c);
                }
            } else if starts_with(key, "Script") {
                let name = script_name(block_name.as_str(), scripts.len() + 1);
                let ghost before = files@;
                files.push(CreaturesFile::Script(ScriptFile {
                    filetype: FileType::Script,
                    output_filename: to_owned(name.as_str()),
                    input_filename: name,
                    data: Some(utf8_bytes(value.as_str())),
                }));
                scripts.push(files.len() - 1);
                proof {
                    texts = texts.push(value@);
                    assert(scripts@ =~= Seq::new(texts.len(), |k: int| (n0 + k) as usize));
                    assert forall|j: int| 0 <= j < n0 implies #[trigger] files@[j] == base[j] by {
                        assert(files@[j] == before[j]);
                    }
                    assert forall|k: int| 0 <= k < texts.len() implies is_read_script(#[trigger] files@[n0 + k],
                        script_file_name(block_name@, (k + 1) as nat), texts[k]) by {
                        if k < texts.len() - 1 {
                            assert(files@[n0 + k] == before[n0 + k]);
                        }
                    }
                }
            } else if starts_with(key, "Dependency") {
                let found = lookup_file_index(files.as_slice(), value);
                let _count = files.len();
                proof {
                    assert(files@ =~= base + files@.skip(n0 as int));
                    lemma_first_named_extended(base, files@.skip(n0 as int), value@, 0);
                }
                if let Some(file_index) = found {
                    if file_index < n0 {
                        match files[file_index].get_filetype() {
                            FileType::Sprite => sprites.push(file_index),
                            FileType::Sound => sounds.push(file_index),
                            FileType::Catalogue => catalogues.push(file_index),
                            _ => {},
                        }
                    }
                }
            }
        }
        i = i + 1;
    }
    proof {
        assert(entries.len() == info@.len());
    }
    let mut preview_name = to_owned(gallery.as_str());
    push_str(&mut preview_name, ".c16");
    let found = lookup_file_index(files.as_slice(), &preview_name);
    let _count = files.len();
    proof {
        assert(files@ =~= base + files@.skip(n0 as int));
        lemma_first_named_extended(base, files@.skip(n0 as int), preview_name@, 0);
        assert forall|j: int| n0 <= j < files@.len() implies output_filename(#[trigger] files@[j]) != preview_name@ by {
            let k = j - n0;
            assert(is_read_script(files@[n0 + k], script_file_name(block_name@, (k + 1) as nat), texts[k]));
            let name = script_file_name(block_name@, (k + 1) as nat);
            reveal_strlit(" script.cos");
            reveal_strlit(".cos");
            reveal_strlit(".c16");
            assert(name.last() == 's');
            assert(preview_name@.last() == '6');
        }
        lemma_first_named_none_among(files@, preview_name@, n0 as nat, n0 as nat);
    }
    let preview = match found {
        Some(sprite) => Preview::Manual { sprite, animation },
        None => Preview::Unset,
    };
    let remove = match remove_script {
        Some(c) => RemoveScript::Manual(c),
        None => RemoveScript::Unset,
    };
    Tag::Agent(AgentTag {
        name: to_owned(block_name.as_str()),
        version: String::new(),
        description,
        supported_game,
        remove_script: remove,
        preview,
        remove_script_backup: RemoveScript::Unset,
        preview_backup: Preview::Unset,
        scripts,
        sprites,
        sounds,
        catalogues,
        use_all_files: false,
    })
}

} // verus!
