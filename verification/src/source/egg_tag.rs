//! Egg tags in a Theist source: an `egg` line with the name, then indented lines for
//! the preview, the genome and the files used.
use vstd::prelude::*;
use crate::agent::egg_tag::{EggTag, EggPreview};
use crate::agent::file::{CreaturesFile, FileType, filetype_of, output_filename, first_named, lookup_file_index};
use super::decode::{spec_parse_tokens, parse_tokens};
use super::free_tag::lines_view;
use crate::file_helper::{or_empty, path_file_stem};
use crate::text::{push_str, to_owned, str_eq, strings_view};
use super::agent_tag::{use_lines, push_use_lines};

verus! {

/// The first line of an egg tag: its name.
pub open spec fn egg_head(tag: EggTag) -> Seq<char> {
    "egg \""@ + tag.name@ + "\"\n"@
}

/// The preview line, where the preview is given and both its sprites are among the files.
pub open spec fn egg_preview_line(p: EggPreview, files: Seq<CreaturesFile>) -> Seq<char> {
    match p {
        EggPreview::Manual { sprite_male, sprite_female, animation } =>
            if sprite_male < files.len() && sprite_female < files.len() {
                "\tpreview \""@ + output_filename(files[sprite_male as int]) + "\" \""@
                    + output_filename(files[sprite_female as int]) + "\" \""@ + animation@ + "\"\n"@
            } else {
                Seq::empty()
            },
        EggPreview::Unset => Seq::empty(),
    }
}

/// The genome line, where the genome is given and is a genetics file: the title of that file.
pub open spec fn genome_line(genome: Option<usize>, files: Seq<CreaturesFile>) -> Seq<char> {
    match genome {
        Some(g) => if g < files.len() && filetype_of(files[g as int]) == FileType::Genetics {
            "\tgenome \""@ + or_empty(path_file_stem(output_filename(files[g as int]))) + "\"\n"@
        } else {
            Seq::empty()
        },
        None => Seq::empty(),
    }
}

/// The source text of an egg tag.
pub open spec fn egg_source(tag: EggTag, files: Seq<CreaturesFile>) -> Seq<char> {
    egg_head(tag) + egg_preview_line(tag.preview, files) + genome_line(tag.genome, files)
        + use_lines(tag.sprites@, files, FileType::Sprite) + use_lines(tag.bodydata@, files, FileType::BodyData)
        + "\n"@
}

fn egg_preview_text(preview: &EggPreview, files: &[CreaturesFile]) -> (r: String)
    ensures
        r@ == egg_preview_line(*preview, files@),
{
    let mut content = String::new();
    if let EggPreview::Manual { sprite_male, sprite_female, animation } = preview {
        if *sprite_male < files.len() && *sprite_female < files.len() {
            push_str(&mut content, "\tpreview \"");
            push_str(&mut content, files[*sprite_male].get_output_filename_ref().as_str());
            push_str(&mut content, "\" \"");
            push_str(&mut content, files[*sprite_female].get_output_filename_ref().as_str());
            push_str(&mut content, "\" \"");
            push_str(&mut content, animation.as_str());
            push_str(&mut content, "\"\n");
        }
    }
    assert(content@ =~= egg_preview_line(*preview, files@));
    content
}

fn genome_text(genome: Option<usize>, files: &[CreaturesFile]) -> (r: String)
    ensures
        r@ == genome_line(genome, files@),
{
    let mut content = String::new();
    if let Some(g) = genome {
        if g < files.len() && files[g].get_filetype() == FileType::Genetics {
            push_str(&mut content, "\tgenome \"");
            push_str(&mut content, files[g].get_title().as_str());
            push_str(&mut content, "\"\n");
        }
    }
    assert(content@ =~= genome_line(genome, files@));
    content
}

/// Writes an egg tag as source text.
pub fn encode(tag: &EggTag, files: &[CreaturesFile]) -> (r: String)
    ensures
        r@ == egg_source(*tag, files@),
{
    let mut content = to_owned("egg \"");
    push_str(&mut content, tag.name.as_str());
    push_str(&mut content, "\"\n");
    assert(content@ =~= egg_head(*tag));
    push_str(&mut content, egg_preview_text(&tag.preview, files).as_str());
    push_str(&mut content, genome_text(tag.genome, files).as_str());
    push_use_lines(&mut content, &tag.sprites, files, FileType::Sprite);
    push_use_lines(&mut content, &tag.bodydata, files, FileType::BodyData);
    push_str(&mut content, "\n");
    assert(content@ =~= egg_source(*tag, files@));
    content
}

/// What the lines of an egg tag say: its version, preview (male and female sprites'
/// places and animation), genome, the places of its files of each kind, and whether it
/// uses all files.
pub struct EggLines {
    pub version: Seq<char>,
    pub preview: Option<(usize, usize, Seq<char>)>,
    pub genome: Option<usize>,
    pub sprites: Seq<usize>,
    pub bodydata: Seq<usize>,
    pub genetics: Seq<usize>,
    pub use_all_files: bool,
}

/// The words that egg tag lines begin with.
pub open spec fn is_egg_line(t: Seq<Seq<char>>) -> bool {
    t.len() > 0 && (t[0] == "version"@ || t[0] == "preview"@ || t[0] == "genome"@ || t[0] == "use"@)
}

/// The words `t[1..j]` of a `use` line taken in turn: `all` uses all files; any other
/// names the first file of that name, added to the list of its kind.
pub open spec fn egg_uses_read(st: EggLines, t: Seq<Seq<char>>, j: nat, files: Seq<CreaturesFile>) -> EggLines
    decreases j,
{
    if j <= 1 {
        st
    } else {
        let prev = egg_uses_read(st, t, (j - 1) as nat, files);
        let w = t[j - 1];
        if w == "all"@ {
            EggLines { use_all_files: true, ..prev }
        } else {
            match first_named(files, w, 0) {
                Some(p) => match filetype_of(files[p as int]) {
                    FileType::Sprite => EggLines { sprites: prev.sprites.push(p), ..prev },
                    FileType::BodyData => EggLines { bodydata: prev.bodydata.push(p), ..prev },
                    FileType::Genetics => EggLines { genetics: prev.genetics.push(p), ..prev },
                    _ => prev,
                },
                None => prev,
            }
        }
    }
}

/// A `use` line changes only the lists of files and whether all files are used.
pub proof fn lemma_egg_uses_keep(st: EggLines, t: Seq<Seq<char>>, j: nat, files: Seq<CreaturesFile>)
    ensures
        egg_uses_read(st, t, j, files).version == st.version,
        egg_uses_read(st, t, j, files).preview == st.preview,
        egg_uses_read(st, t, j, files).genome == st.genome,
    decreases j,
{
    if j > 1 {
        lemma_egg_uses_keep(st, t, (j - 1) as nat, files);
    }
}

/// What an egg tag line with the words `t` adds: `version`; `preview` with the male and
/// female sprites' names and the animation, where files have both names; `genome` with a
/// title, whose `.gen` file becomes the genome and, with its `.gno` file, is added to the
/// genetics; and `use` lines.
pub open spec fn egg_line_step(st: EggLines, t: Seq<Seq<char>>, files: Seq<CreaturesFile>) -> EggLines {
    if t[0] == "version"@ {
        if t.len() > 1 { EggLines { version: t[1], ..st } } else { st }
    } else if t[0] == "preview"@ {
        if t.len() > 3 {
            match (first_named(files, t[1], 0), first_named(files, t[2], 0)) {
                (Some(m), Some(f)) => EggLines { preview: Some((m, f, t[3])), ..st },
                _ => st,
            }
        } else {
            st
        }
    } else if t[0] == "genome"@ {
        if t.len() > 1 {
            let st1 = match first_named(files, t[1] + ".gen"@, 0) {
                Some(p) => EggLines { genome: Some(p), genetics: st.genetics.push(p), ..st },
                None => st,
            };
            match first_named(files, t[1] + ".gno"@, 0) {
                Some(q) => EggLines { genetics: st1.genetics.push(q), ..st1 },
                None => st1,
            }
        } else {
            st
        }
    } else {
        egg_uses_read(st, t, t.len(), files)
    }
}

/// What the first `k` lines of an egg tag say.
pub open spec fn egg_lines_read(lines: Seq<Seq<char>>, k: nat, files: Seq<CreaturesFile>) -> EggLines
    decreases k,
{
    if k == 0 {
        EggLines {
            version: Seq::empty(),
            preview: None,
            genome: None,
            sprites: Seq::empty(),
            bodydata: Seq::empty(),
            genetics: Seq::empty(),
            use_all_files: false,
        }
    } else {
        egg_line_step(egg_lines_read(lines, (k - 1) as nat, files), spec_parse_tokens(lines[k - 1]), files)
    }
}

/// The first line from `i` on that is not an egg tag line.
pub open spec fn egg_lines_end(lines: Seq<Seq<char>>, i: nat) -> nat
    decreases lines.len() - i,
{
    if i >= lines.len() {
        i
    } else if !is_egg_line(spec_parse_tokens(lines[i as int])) {
        i
    } else {
        egg_lines_end(lines, i + 1)
    }
}

/// The lists and flag of an egg read so far.
pub struct EggLists {
    pub sprites: Vec<usize>,
    pub bodydata: Vec<usize>,
    pub genetics: Vec<usize>,
    pub use_all_files: bool,
}

/// Whether the lists agree with what the lines say.
pub open spec fn egg_lists_agree(l: EggLists, st: EggLines) -> bool {
    &&& l.sprites@ == st.sprites
    &&& l.bodydata@ == st.bodydata
    &&& l.genetics@ == st.genetics
    &&& l.use_all_files == st.use_all_files
}

fn read_egg_use_line(tokens: &Vec<String>, files: &[CreaturesFile], lists: &mut EggLists, Ghost(st): Ghost<EggLines>)
    requires
        egg_lists_agree(*old(lists), st),
    ensures
        egg_lists_agree(*final(lists), egg_uses_read(st, strings_view(tokens@), tokens@.len(), files@)),
{
    let ghost t = strings_view(tokens@);
    if tokens.len() < 1 {
        return;
    }
    let mut j: usize = 1;
    while j < tokens.len()
        invariant
            1 <= j <= tokens@.len(),
            t == strings_view(tokens@),
            egg_lists_agree(*lists, egg_uses_read(st, t, j as nat, files@)),
        decreases tokens@.len() - j,
    {
        let w = &tokens[j];
        assert(t[j as int] == w@);
        if str_eq(w.as_str(), "all") {
            lists.use_all_files = true;
        } else if let Some(p) = lookup_file_index(files, w) {
            match files[p].get_filetype() {
                FileType::Sprite => lists.sprites.push(p),
                FileType::BodyData => lists.bodydata.push(p),
                FileType::Genetics => lists.genetics.push(p),
                _ => {},
            }
        }
        j = j + 1;
    }
}

/// Reads an egg tag from the lines after its `egg` line: its version, preview, genome
/// and files, up to the first line of another kind; gives the tag and the number of its
/// lines.
#[verifier::rlimit(40)]
pub fn decode(lines: Vec<&str>, name: String, files: &[CreaturesFile]) -> (r: (EggTag, usize))
    ensures
        ({
            let lv = lines_view(lines@);
            let end = egg_lines_end(lv, 0);
            let st = egg_lines_read(lv, end, files@);
            let e = r.0;
            &&& r.1 == end
            &&& e.name@ == name@
            &&& e.version@ == st.version
            &&& match st.preview {
                Some((m, f, a)) => e.preview matches EggPreview::Manual { sprite_male, sprite_female, animation }
                    && sprite_male == m && sprite_female == f && animation@ == a,
                None => e.preview is Unset,
            }
            &&& e.genome == st.genome
            &&& e.preview_backup is Unset
            &&& e.sprites@ == st.sprites
            &&& e.bodydata@ == st.bodydata
            &&& e.genetics@ == st.genetics
            &&& e.use_all_files == st.use_all_files
        }),
{
    let ghost lv = lines_view(lines@);
    let mut version = String::new();
    let mut preview = EggPreview::Unset;
    let mut genome: Option<usize> = None;
    let mut lists = EggLists { sprites: Vec::new(), bodydata: Vec::new(), genetics: Vec::new(), use_all_files: false };
    let mut i: usize = 0;
    let mut done = false;
    while i < lines.len() && !done
        invariant
            i <= lines@.len(),
            lv == lines_view(lines@),
            egg_lines_end(lv, 0) == egg_lines_end(lv, i as nat),
            done ==> egg_lines_end(lv, i as nat) == i,
            ({
                let st = egg_lines_read(lv, i as nat, files@);
                &&& version@ == st.version
                &&& match st.preview {
                    Some((m, f, a)) => preview matches EggPreview::Manual { sprite_male, sprite_female, animation }
                        && sprite_male == m && sprite_female == f && animation@ == a,
                    None => preview is Unset,
                }
                &&& genome == st.genome
                &&& egg_lists_agree(lists, st)
            }),
        decreases lines@.len() - i, if done { 0int } else { 1int },
    {
        let ghost st = egg_lines_read(lv, i as nat, files@);
        let tokens = parse_tokens(lines[i]);
        let ghost t = strings_view(tokens@);
        assert(lv[i as int] == lines@[i as int]@);
        assert(forall|j: int| 0 <= j < tokens@.len() ==> t[j] == (#[trigger] tokens@[j])@);
        if tokens.len() == 0 {
            done = true;
            continue;
        }
        let w = tokens[0].as_str();
        if str_eq(w, "version") {
            if tokens.len() > 1 {
                version = to_owned(tokens[1].as_str());
            }
        } else if str_eq(w, "preview") {
            if tokens.len() > 3 {
                if let Some(sprite_male) = lookup_file_index(files, &tokens[1]) {
                    if let Some(sprite_female) = lookup_file_index(files, &tokens[2]) {
                        preview = EggPreview::Manual { sprite_male, sprite_female, animation: to_owned(tokens[3].as_str()) };
                    }
                }
            }
        } else if str_eq(w, "genome") {
            if tokens.len() > 1 {
                let mut gen_name = to_owned(tokens[1].as_str());
                push_str(&mut gen_name, ".gen");
                let mut gno_name = to_owned(tokens[1].as_str());
                push_str(&mut gno_name, ".gno");
                if let Some(p) = lookup_file_index(files, &gen_name) {
                    genome = Some(p);
                    lists.genetics.push(p);
                }
                if let Some(q) = lookup_file_index(files, &gno_name) {
                    lists.genetics.push(q);
                }
            }
        } else if str_eq(w, "use") {
            read_egg_use_line(&tokens, files, &mut lists, Ghost(st));
            proof {
                lemma_egg_uses_keep(st, t, t.len(), files@);
            }
        } else {
            done = true;
            continue;
        }
        i = i + 1;
    }
    let preview_out = preview;
    (EggTag {
        name,
        version,
        preview: preview_out,
        genome,
        preview_backup: EggPreview::Unset,
        sprites: lists.sprites,
        bodydata: lists.bodydata,
        genetics: lists.genetics,
        use_all_files: lists.use_all_files,
    }, i)
}

} // verus!
