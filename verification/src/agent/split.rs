//! Splitting agents made for both games into one agent for each game, each with its
//! own copies of the scripts.
use vstd::prelude::*;
use crate::text::{to_owned, push_str};
use crate::file_helper::{title, or_empty, path_file_stem};
use super::agent_tag::{AgentTag, SupportedGame, RemoveScript, Preview};
use super::egg_tag::{EggTag, EggPreview};
use super::free_tag::FreeTag;
use super::file::{CreaturesFile, ScriptFile, same_file, same_data, copy_data};
use super::tag::Tag;

verus! {

/// Whether two remove scripts agree.
pub open spec fn same_remove_script(a: RemoveScript, b: RemoveScript) -> bool {
    match (a, b) {
        (RemoveScript::Unset, RemoveScript::Unset) => true,
        (RemoveScript::Auto, RemoveScript::Auto) => true,
        (RemoveScript::Manual(x), RemoveScript::Manual(y)) => x@ == y@,
        _ => false,
    }
}

/// Whether two agent previews agree.
pub open spec fn same_preview(a: Preview, b: Preview) -> bool {
    match (a, b) {
        (Preview::Unset, Preview::Unset) => true,
        (Preview::Auto, Preview::Auto) => true,
        (Preview::Manual { sprite: s1, animation: a1 }, Preview::Manual { sprite: s2, animation: a2 }) => s1 == s2 && a1@ == a2@,
        _ => false,
    }
}

/// Whether two egg previews agree.
pub open spec fn same_egg_preview(a: EggPreview, b: EggPreview) -> bool {
    match (a, b) {
        (EggPreview::Unset, EggPreview::Unset) => true,
        (
            EggPreview::Manual { sprite_male: m1, sprite_female: f1, animation: a1 },
            EggPreview::Manual { sprite_male: m2, sprite_female: f2, animation: a2 },
        ) => m1 == m2 && f1 == f2 && a1@ == a2@,
        _ => false,
    }
}

/// Whether agent `b` is agent `a` with the name `name` and the scripts `scripts`.
pub open spec fn agent_with(a: AgentTag, b: AgentTag, name: Seq<char>, scripts: Seq<usize>) -> bool {
    &&& b.name@ == name
    &&& b.version@ == a.version@
    &&& b.description@ == a.description@
    &&& b.supported_game == a.supported_game
    &&& same_remove_script(a.remove_script, b.remove_script)
    &&& same_preview(a.preview, b.preview)
    &&& same_remove_script(a.remove_script_backup, b.remove_script_backup)
    &&& same_preview(a.preview_backup, b.preview_backup)
    &&& b.scripts@ == scripts
    &&& b.sprites@ == a.sprites@
    &&& b.sounds@ == a.sounds@
    &&& b.catalogues@ == a.catalogues@
    &&& b.use_all_files == a.use_all_files
}

/// Whether two tags agree in every field.
pub open spec fn same_tag(a: Tag, b: Tag) -> bool {
    match (a, b) {
        (Tag::Agent(x), Tag::Agent(y)) => agent_with(x, y, x.name@, x.scripts@),
        (Tag::Egg(x), Tag::Egg(y)) => {
            &&& y.name@ == x.name@
            &&& y.version@ == x.version@
            &&& same_egg_preview(x.preview, y.preview)
            &&& y.genome == x.genome
            &&& same_egg_preview(x.preview_backup, y.preview_backup)
            &&& y.sprites@ == x.sprites@
            &&& y.bodydata@ == x.bodydata@
            &&& y.genetics@ == x.genetics@
            &&& y.use_all_files == x.use_all_files
        },
        (Tag::Free(x), Tag::Free(y)) => y.name@ == x.name@ && y.version@ == x.version@ && y.block_type@ == x.block_type@
            && y.contents@ == x.contents@,
        _ => false,
    }
}

fn copy_list(v: &Vec<usize>) -> (r: Vec<usize>)
    ensures
        r@ == v@,
{
    let mut r: Vec<usize> = Vec::new();
    let mut i: usize = 0;
    while i < v.len()
        invariant
            i <= v@.len(),
            r@ == v@.take(i as int),
        decreases v@.len() - i,
    {
        r.push(v[i]);
        i = i + 1;
        assert(r@ =~= v@.take(i as int));
    }
    assert(v@.take(i as int) =~= v@);
    r
}

fn copy_remove_script(r: &RemoveScript) -> (c: RemoveScript)
    ensures
        same_remove_script(*r, c),
{
    match r {
        RemoveScript::Unset => RemoveScript::Unset,
        RemoveScript::Auto => RemoveScript::Auto,
        RemoveScript::Manual(s) => RemoveScript::Manual(to_owned(s.as_str())),
    }
}

fn copy_preview(p: &Preview) -> (c: Preview)
    ensures
        same_preview(*p, c),
{
    match p {
        Preview::Unset => Preview::Unset,
        Preview::Auto => Preview::Auto,
        Preview::Manual { sprite, animation } => Preview::Manual { sprite: *sprite, animation: to_owned(animation.as_str()) },
    }
}

fn copy_egg_preview(p: &EggPreview) -> (c: EggPreview)
    ensures
        same_egg_preview(*p, c),
{
    match p {
        EggPreview::Unset => EggPreview::Unset,
        EggPreview::Manual { sprite_male, sprite_female, animation } => EggPreview::Manual {
            sprite_male: *sprite_male,
            sprite_female: *sprite_female,
            animation: to_owned(animation.as_str()),
        },
    }
}

/// A copy of an agent with the given name and scripts.
fn agent_copy_with(a: &AgentTag, name: String, scripts: Vec<usize>) -> (r: AgentTag)
    ensures
        agent_with(*a, r, name@, scripts@),
{
    AgentTag {
        name,
        version: to_owned(a.version.as_str()),
        description: to_owned(a.description.as_str()),
        supported_game: a.supported_game,
        remove_script: copy_remove_script(&a.remove_script),
        preview: copy_preview(&a.preview),
        remove_script_backup: copy_remove_script(&a.remove_script_backup),
        preview_backup: copy_preview(&a.preview_backup),
        scripts,
        sprites: copy_list(&a.sprites),
        sounds: copy_list(&a.sounds),
        catalogues: copy_list(&a.catalogues),
        use_all_files: a.use_all_files,
    }
}

impl Tag {
    /// A copy of the tag.
    pub fn copy(&self) -> (r: Tag)
        ensures
            same_tag(*self, r),
    {
        match self {
            Tag::Agent(a) => Tag::Agent(agent_copy_with(a, to_owned(a.name.as_str()), copy_list(&a.scripts))),
            Tag::Egg(e) => Tag::Egg(EggTag {
                name: to_owned(e.name.as_str()),
                version: to_owned(e.version.as_str()),
                preview: copy_egg_preview(&e.preview),
                genome: e.genome,
                preview_backup: copy_egg_preview(&e.preview_backup),
                sprites: copy_list(&e.sprites),
                bodydata: copy_list(&e.bodydata),
                genetics: copy_list(&e.genetics),
                use_all_files: e.use_all_files,
            }),
            Tag::Free(f) => Tag::Free(FreeTag {
                name: to_owned(f.name.as_str()),
                version: to_owned(f.version.as_str()),
                block_type: to_owned(f.block_type.as_str()),
                contents: to_owned(f.contents.as_str()),
            }),
        }
    }
}

/// Whether the file at `p` is a script.
pub open spec fn is_script_at(files: Seq<CreaturesFile>, p: usize) -> bool {
    p < files.len() && files[p as int] is Script
}

/// An agent's script list after its scripts from position `j` on are moved out in turn:
/// for each that is a script, the entry at that position is removed and the place
/// `next` (rising by two each time) is added at the end.
pub open spec fn relisted(list: Seq<usize>, scripts: Seq<usize>, files: Seq<CreaturesFile>, j: nat, next: nat) -> Seq<usize>
    decreases scripts.len() - j,
{
    if j < scripts.len() {
        if is_script_at(files, scripts[j as int]) {
            relisted(list.remove(j as int).push(next as usize), scripts, files, j + 1, next + 2)
        } else {
            relisted(list, scripts, files, j + 1, next)
        }
    } else {
        list
    }
}

/// The places of the listed scripts that are scripts, from position `j` on.
pub open spec fn script_sources(scripts: Seq<usize>, files: Seq<CreaturesFile>, j: nat) -> Seq<usize>
    decreases scripts.len() - j,
{
    if j < scripts.len() {
        (if is_script_at(files, scripts[j as int]) { seq![scripts[j as int]] } else { Seq::empty() })
            + script_sources(scripts, files, j + 1)
    } else {
        Seq::empty()
    }
}

/// Whether a tag is an agent made for both games.
pub open spec fn is_both_games(t: Tag) -> bool {
    t matches Tag::Agent(a) && a.supported_game == SupportedGame::C3DS
}

/// The places of the scripts that the first `k` tags copy, in order.
pub open spec fn split_sources(tags: Seq<Tag>, files: Seq<CreaturesFile>, k: nat) -> Seq<usize>
    decreases k,
{
    if k == 0 {
        Seq::empty()
    } else {
        split_sources(tags, files, (k - 1) as nat) + match tags[k - 1] {
            Tag::Agent(a) => if a.supported_game == SupportedGame::C3DS { script_sources(a.scripts@, files, 0) } else { Seq::empty() },
            _ => Seq::empty(),
        }
    }
}

/// The number of agents for both games among the first `k` tags.
pub open spec fn both_count(tags: Seq<Tag>, k: nat) -> nat
    decreases k,
{
    if k == 0 {
        0
    } else {
        both_count(tags, (k - 1) as nat) + if is_both_games(tags[k - 1]) { 1nat } else { 0nat }
    }
}

/// Whether `b` is a copy of the script `a` written under the title of its name and `suffix`.
pub open spec fn script_renamed(a: CreaturesFile, b: CreaturesFile, suffix: Seq<char>) -> bool {
    match (a, b) {
        (CreaturesFile::Script(x), CreaturesFile::Script(y)) => y.filetype == x.filetype
            && y.output_filename@ == or_empty(path_file_stem(x.output_filename@)) + suffix
            && y.input_filename@ == x.input_filename@ && same_data(x.data, y.data),
        _ => false,
    }
}

/// What splitting the first `k` tags gives: each tag copied, but each agent for both
/// games made into an agent named with ` C3` and one named with ` DS`, each with its own
/// copies of the scripts (named `<title> C3.cos` and `<title> DS.cos`), added after the
/// files.
pub open spec fn split_prefix(tags: Seq<Tag>, files: Seq<CreaturesFile>, out_tags: Seq<Tag>, out_files: Seq<CreaturesFile>, k: nat) -> bool {
    let sources = split_sources(tags, files, k);
    &&& out_files.len() == files.len() + 2 * sources.len()
    &&& forall|i: int| 0 <= i < files.len() ==> same_file(files[i], #[trigger] out_files[i])
    &&& forall|m: int| 0 <= m < sources.len() ==> script_renamed(files[sources[m] as int], #[trigger] out_files[files.len() + 2 * m], " C3.cos"@)
        && script_renamed(files[sources[m] as int], out_files[files.len() + 2 * m + 1], " DS.cos"@)
    &&& out_tags.len() == k + both_count(tags, k)
    &&& forall|i: int| 0 <= i < k ==> split_tag_at(tags, files, out_tags, i)
}

/// Whether the tag `i` is split as it should be in `out_tags`.
pub open spec fn split_tag_at(tags: Seq<Tag>, files: Seq<CreaturesFile>, out_tags: Seq<Tag>, i: int) -> bool {
    let at = i + both_count(tags, i as nat);
    let next = files.len() + 2 * split_sources(tags, files, i as nat).len();
    match tags[i] {
        Tag::Agent(a) => if a.supported_game == SupportedGame::C3DS {
            &&& out_tags[at] matches Tag::Agent(c3) && agent_with(a, c3, a.name@ + " C3"@, relisted(a.scripts@, a.scripts@, files, 0, next))
            &&& out_tags[at + 1] matches Tag::Agent(ds) && agent_with(a, ds, a.name@ + " DS"@, relisted(a.scripts@, a.scripts@, files, 0, next + 1))
        } else {
            same_tag(tags[i], out_tags[at])
        },
        _ => same_tag(tags[i], out_tags[at]),
    }
}

/// What splitting all the tags gives.
pub open spec fn split_result(tags: Seq<Tag>, files: Seq<CreaturesFile>, out_tags: Seq<Tag>, out_files: Seq<CreaturesFile>) -> bool {
    split_prefix(tags, files, out_tags, out_files, tags.len())
}

fn renamed_script(file: &ScriptFile, suffix: &str) -> (r: CreaturesFile)
    ensures
        script_renamed(CreaturesFile::Script(*file), r, suffix@),
{
    let mut name = title(file.output_filename.as_str());
    push_str(&mut name, suffix);
    CreaturesFile::Script(ScriptFile {
        filetype: file.filetype,
        output_filename: name,
        input_filename: to_owned(file.input_filename.as_str()),
        data: copy_data(&file.data),
    })
}

/// Makes the copies of an agent's scripts for each game, adding them to `files`; gives
/// the script lists of the agent for each game.
fn split_scripts(scripts: &Vec<usize>, base_files: &Vec<CreaturesFile>, files: &mut Vec<CreaturesFile>) -> (r: (Vec<usize>, Vec<usize>))
    ensures
        ({
            let sources = script_sources(scripts@, base_files@, 0);
            let n0 = old(files)@.len();
            &&& final(files)@.len() == n0 + 2 * sources.len()
            &&& forall|i: int| 0 <= i < n0 ==> #[trigger] final(files)@[i] == old(files)@[i]
            &&& forall|m: int| 0 <= m < sources.len() ==> script_renamed(base_files@[sources[m] as int], #[trigger] final(files)@[n0 + 2 * m], " C3.cos"@)
                && script_renamed(base_files@[sources[m] as int], final(files)@[n0 + 2 * m + 1], " DS.cos"@)
            &&& r.0@ == relisted(scripts@, scripts@, base_files@, 0, n0)
            &&& r.1@ == relisted(scripts@, scripts@, base_files@, 0, n0 + 1)
        }),
{
    let ghost n0 = files@.len();
    let ghost all = script_sources(scripts@, base_files@, 0);
    let mut c3 = copy_list(scripts);
    let mut ds = copy_list(scripts);
    let ghost mut done: Seq<usize> = Seq::empty();
    let mut j: usize = 0;
    while j < scripts.len()
        invariant
            j <= scripts@.len(),
            c3@.len() == scripts@.len(),
            ds@.len() == scripts@.len(),
            n0 == old(files)@.len(),
            all == script_sources(scripts@, base_files@, 0),
            all == done + script_sources(scripts@, base_files@, j as nat),
            files@.len() == n0 + 2 * done.len(),
            forall|i: int| 0 <= i < n0 ==> #[trigger] files@[i] == old(files)@[i],
            forall|m: int| 0 <= m < done.len() ==> script_renamed(base_files@[done[m] as int], #[trigger] files@[n0 + 2 * m], " C3.cos"@)
                && script_renamed(base_files@[done[m] as int], files@[n0 + 2 * m + 1], " DS.cos"@),
            relisted(scripts@, scripts@, base_files@, 0, n0) == relisted(c3@, scripts@, base_files@, j as nat, files@.len()),
            relisted(scripts@, scripts@, base_files@, 0, n0 + 1) == relisted(ds@, scripts@, base_files@, j as nat, files@.len() + 1),
        decreases scripts@.len() - j,
    {
        let p = scripts[j];
        if p < base_files.len() {
            if let CreaturesFile::Script(script_file) = &base_files[p] {
                let ghost before = files@;
                c3.remove(j);
                ds.remove(j);
                let c3_file = renamed_script(script_file, " C3.cos");
                let ghost c3_view = c3_file;
                files.push(c3_file);
                c3.push(files.len() - 1);
                let ds_file = renamed_script(script_file, " DS.cos");
                let ghost ds_view = ds_file;
                files.push(ds_file);
                ds.push(files.len() - 1);
                assert(files@[before.len() as int] == c3_view);
                assert(files@[before.len() + 1int] == ds_view);
                assert(base_files@[p as int] == CreaturesFile::Script(*script_file));
                proof {
                    assert(script_sources(scripts@, base_files@, j as nat)
                        == seq![p] + script_sources(scripts@, base_files@, (j + 1) as nat));
                    done = done.push(p);
                    assert(all =~= done + script_sources(scripts@, base_files@, (j + 1) as nat));
                    assert forall|m: int| 0 <= m < done.len() implies script_renamed(base_files@[done[m] as int], #[trigger] files@[n0 + 2 * m], " C3.cos"@)
                        && script_renamed(base_files@[done[m] as int], files@[n0 + 2 * m + 1], " DS.cos"@) by {
                        if m < done.len() - 1 {
                            assert(files@[n0 + 2 * m] == before[n0 + 2 * m]);
                            assert(files@[n0 + 2 * m + 1] == before[n0 + 2 * m + 1]);
                        } else {
                            assert(n0 + 2 * m == before.len());
                            assert(done[m] == p);
                        }
                    }
                }
            } else {
                proof {
                    assert(script_sources(scripts@, base_files@, j as nat) == script_sources(scripts@, base_files@, (j + 1) as nat));
                }
                assert(forall|m: int| 0 <= m < done.len() ==> script_renamed(base_files@[done[m] as int], #[trigger] files@[n0 + 2 * m], " C3.cos"@));
            }
            assert(forall|m: int| 0 <= m < done.len() ==> script_renamed(base_files@[done[m] as int], #[trigger] files@[n0 + 2 * m], " C3.cos"@));
        } else {
            proof {
                assert(script_sources(scripts@, base_files@, j as nat) == script_sources(scripts@, base_files@, (j + 1) as nat));
            }
        }
        j = j + 1;
    }
    proof {
        assert(script_sources(scripts@, base_files@, j as nat) == Seq::<usize>::empty());
        assert(all =~= done);
    }
    (c3, ds)
}

proof fn lemma_both_count_bounded(tags: Seq<Tag>, k: nat)
    ensures
        both_count(tags, k) <= k,
    decreases k,
{
    if k > 0 {
        lemma_both_count_bounded(tags, (k - 1) as nat);
    }
}

/// Splits each agent made for both games into an agent for Creatures 3 (its name
/// followed by ` C3`) and one for Docking Station (` DS`), each with its own copies of
/// the agent's scripts added after the files; every other tag is copied as it is.
pub fn split_tags(base_tags: &Vec<Tag>, base_files: &Vec<CreaturesFile>) -> (r: (Vec<Tag>, Vec<CreaturesFile>))
    ensures
        split_result(base_tags@, base_files@, r.0@, r.1@),
{
    let mut files: Vec<CreaturesFile> = Vec::new();
    let mut f: usize = 0;
    while f < base_files.len()
        invariant
            f <= base_files@.len(),
            files@.len() == f,
            forall|i: int| 0 <= i < f ==> same_file(base_files@[i], #[trigger] files@[i]),
        decreases base_files@.len() - f,
    {
        files.push(base_files[f].copy());
        f = f + 1;
    }
    let mut tags: Vec<Tag> = Vec::new();
    let mut i: usize = 0;
    while i < base_tags.len()
        invariant
            i <= base_tags@.len(),
            split_prefix(base_tags@, base_files@, tags@, files@, i as nat),
        decreases base_tags@.len() - i,
    {
        let ghost old_tags = tags@;
        let ghost old_files = files@;
        let ghost sources = split_sources(base_tags@, base_files@, i as nat);
        proof {
            lemma_both_count_bounded(base_tags@, i as nat);
        }
        let mut split = false;
        if let Tag::Agent(a) = &base_tags[i] {
            if a.supported_game == SupportedGame::C3DS {
                let (c3_scripts, ds_scripts) = split_scripts(&a.scripts, base_files, &mut files);
                let mut c3_name = to_owned(a.name.as_str());
                push_str(&mut c3_name, " C3");
                let mut ds_name = to_owned(a.name.as_str());
                push_str(&mut ds_name, " DS");
                tags.push(Tag::Agent(agent_copy_with(a, c3_name, c3_scripts)));
                tags.push(Tag::Agent(agent_copy_with(a, ds_name, ds_scripts)));
                split = true;
                proof {
                    let new_sources = split_sources(base_tags@, base_files@, (i + 1) as nat);
                    let ss = script_sources(a.scripts@, base_files@, 0);
                    assert(new_sources == sources + ss);
                    assert forall|m: int| 0 <= m < new_sources.len() implies script_renamed(base_files@[new_sources[m] as int], #[trigger] files@[base_files@.len() + 2 * m], " C3.cos"@)
                        && script_renamed(base_files@[new_sources[m] as int], files@[base_files@.len() + 2 * m + 1], " DS.cos"@) by {
                        if m < sources.len() {
                            assert(new_sources[m] == sources[m]);
                            assert(files@[base_files@.len() + 2 * m] == old_files[base_files@.len() + 2 * m]);
                            assert(files@[base_files@.len() + 2 * m + 1] == old_files[base_files@.len() + 2 * m + 1]);
                        } else {
                            let q = m - sources.len();
                            assert(new_sources[m] == ss[q]);
                            assert(base_files@.len() + 2 * m == old_files.len() + 2 * q);
                            assert(files@[old_files.len() + 2 * q] == files@[base_files@.len() + 2 * m]);
                        }
                    }
                    assert forall|t: int| 0 <= t < i + 1 implies split_tag_at(base_tags@, base_files@, tags@, t) by {
                        if t < i {
                            assert(split_tag_at(base_tags@, base_files@, old_tags, t));
                            lemma_both_count_mono(base_tags@, t as nat, i as nat);
                            lemma_split_sources_prefix(base_tags@, base_files@, t as nat, i as nat);
                        }
                    }
                }
            }
        }
        if !split {
            let c = base_tags[i].copy();
            tags.push(c);
            proof {
                assert(split_sources(base_tags@, base_files@, (i + 1) as nat) =~= sources);
                assert forall|t: int| 0 <= t < i + 1 implies split_tag_at(base_tags@, base_files@, tags@, t) by {
                    if t < i {
                        assert(split_tag_at(base_tags@, base_files@, old_tags, t));
                        lemma_both_count_mono(base_tags@, t as nat, i as nat);
                        lemma_split_sources_prefix(base_tags@, base_files@, t as nat, i as nat);
                    }
                }
            }
        }
        i = i + 1;
    }
    (tags, files)
}

proof fn lemma_both_count_mono(tags: Seq<Tag>, a: nat, b: nat)
    requires
        a <= b,
    ensures
        both_count(tags, a) + (if a < b && is_both_games(tags[a as int]) { 1nat } else { 0nat }) <= both_count(tags, b),
        both_count(tags, a) <= both_count(tags, b),
    decreases b - a,
{
    if a < b {
        lemma_both_count_mono(tags, a, (b - 1) as nat);
        if a < b - 1 {
            lemma_both_count_mono(tags, (a + 1) as nat, (b - 1) as nat);
        }
    }
}

proof fn lemma_split_sources_prefix(tags: Seq<Tag>, files: Seq<CreaturesFile>, a: nat, b: nat)
    requires
        a <= b,
    ensures
        split_sources(tags, files, a).len() <= split_sources(tags, files, b).len(),
    decreases b - a,
{
    if a < b {
        lemma_split_sources_prefix(tags, files, a, (b - 1) as nat);
    }
}

} // verus!
