//! The `files` section of a Theist source: a line for each file, with the name it is
//! written under, and indented lines for where it is read from, its frames or its
//! catalogue entries.
use vstd::prelude::*;
use crate::agent::file::{CreaturesFile, ScriptFile, FileType, output_filename};
use crate::agent::sprite::{Sprite, SpriteFrame, has_frame};
use crate::agent::sound::Sound;
use crate::agent::catalogue::{Catalogue, CatalogueEntry};
use crate::agent::bodydata::BodyData;
use crate::agent::genetics::Genetics;
use crate::error::Error;
use crate::text::{push_str, str_eq, to_owned, escape_quotes, escape_quotes_string, strings_view};
use crate::file_helper::{or_empty, path_extension};
use super::decode::{spec_parse_tokens, parse_tokens};
use super::free_tag::lines_view;

verus! {

/// A quoted name on a line of its own after `keyword`, indented once.
pub open spec fn named_line(keyword: Seq<char>, name: Seq<char>) -> Seq<char> {
    "\t"@ + keyword + " \""@ + name + "\"\n"@
}

/// A `source` line, indented twice, where the file is read from elsewhere than its name.
pub open spec fn source_line(input: Seq<char>, output: Seq<char>) -> Seq<char> {
    if input != output {
        "\t\tsource \""@ + input + "\"\n"@
    } else {
        Seq::empty()
    }
}

/// A `frame` line for each frame.
pub open spec fn frame_lines(frames: Seq<SpriteFrame>) -> Seq<char>
    decreases frames.len(),
{
    if frames.len() == 0 {
        Seq::empty()
    } else {
        frame_lines(frames.drop_last()) + "\t\tframe \""@ + frames.last().input_filename@ + "\"\n"@
    }
}

/// An `entry` line for each catalogue entry: classifier, name and description (quotes
/// escaped), each quoted.
pub open spec fn entry_lines(entries: Seq<CatalogueEntry>) -> Seq<char>
    decreases entries.len(),
{
    if entries.len() == 0 {
        Seq::empty()
    } else {
        let e = entries.last();
        entry_lines(entries.drop_last()) + "\t\tentry \""@ + e.classifier@ + "\" \""@ + e.name@ + "\" \""@
            + escape_quotes(e.description@) + "\"\n"@
    }
}

/// The source text of a file.
pub open spec fn file_source(f: CreaturesFile) -> Seq<char> {
    let out = output_filename(f);
    match f {
        CreaturesFile::Script(s) => named_line("script"@, out) + source_line(s.input_filename@, out),
        CreaturesFile::Sprite(s) => named_line("sprite"@, out) + match s {
            Sprite::Raw { input_filename, .. } => source_line(input_filename@, out),
            Sprite::Png { frames, .. } => frame_lines(frames@),
        },
        CreaturesFile::Sound(s) => named_line("sound"@, out) + source_line(s.input_filename@, out),
        CreaturesFile::Catalogue(c) => named_line("catalogue"@, out) + match c {
            Catalogue::Raw { input_filename, .. } => source_line(input_filename@, out),
            Catalogue::Inline { entries, .. } => entry_lines(entries@),
        },
        CreaturesFile::BodyData(b) => named_line("bodydata"@, out) + source_line(b.input_filename@, out),
        CreaturesFile::Genetics(g) => named_line("genome"@, out) + source_line(g.input_filename@, out),
    }
}

fn push_named_line(content: &mut String, keyword: &str, name: &str)
    ensures
        final(content)@ == old(content)@ + named_line(keyword@, name@),
{
    push_str(content, "\t");
    push_str(content, keyword);
    push_str(content, " \"");
    push_str(content, name);
    push_str(content, "\"\n");
    assert(content@ =~= old(content)@ + named_line(keyword@, name@));
}

fn push_source_line(content: &mut String, input: &str, output: &str)
    ensures
        final(content)@ == old(content)@ + source_line(input@, output@),
{
    if !str_eq(input, output) {
        push_str(content, "\t\tsource \"");
        push_str(content, input);
        push_str(content, "\"\n");
        assert(content@ =~= old(content)@ + source_line(input@, output@));
    } else {
        assert(content@ =~= old(content)@ + source_line(input@, output@));
    }
}

/// Writes a file's lines of source.
pub fn encode(file: &CreaturesFile) -> (r: Result<String, Error>)
    ensures
        r matches Ok(s) && s@ == file_source(*file),
{
    let mut content = String::new();
    let output = file.get_output_filename();
    let out = output.as_str();
    match file {
        CreaturesFile::Script(script) => {
            push_named_line(&mut content, "script", out);
            push_source_line(&mut content, script.input_filename.as_str(), out);
        },
        CreaturesFile::Sprite(sprite) => {
            push_named_line(&mut content, "sprite", out);
            match sprite {
                Sprite::Raw { input_filename, .. } => {
                    push_source_line(&mut content, input_filename.as_str(), out);
                },
                Sprite::Png { frames, .. } => {
                    let ghost head = content@;
                    let mut i: usize = 0;
                    while i < frames.len()
                        invariant
                            i <= frames@.len(),
                            content@ == head + frame_lines(frames@.take(i as int)),
                        decreases frames@.len() - i,
                    {
                        push_str(&mut content, "\t\tframe \"");
                        push_str(&mut content, frames[i].input_filename.as_str());
                        push_str(&mut content, "\"\n");
                        assert(frames@.take(i + 1).drop_last() =~= frames@.take(i as int));
                        assert(frames@.take(i + 1).last() == frames@[i as int]);
                        assert(content@ =~= head + frame_lines(frames@.take(i + 1)));
                        i = i + 1;
                    }
                    assert(frames@.take(i as int) =~= frames@);
                },
            }
        },
        CreaturesFile::Sound(sound) => {
            push_named_line(&mut content, "sound", out);
            push_source_line(&mut content, sound.input_filename.as_str(), out);
        },
        CreaturesFile::Catalogue(catalogue) => {
            push_named_line(&mut content, "catalogue", out);
            match catalogue {
                Catalogue::Raw { input_filename, .. } => {
                    push_source_line(&mut content, input_filename.as_str(), out);
                },
                Catalogue::Inline { entries, .. } => {
                    let ghost head = content@;
                    let mut i: usize = 0;
                    while i < entries.len()
                        invariant
                            i <= entries@.len(),
                            content@ == head + entry_lines(entries@.take(i as int)),
                        decreases entries@.len() - i,
                    {
                        let e = &entries[i];
                        push_str(&mut content, "\t\tentry \"");
                        push_str(&mut content, e.classifier.as_str());
                        push_str(&mut content, "\" \"");
                        push_str(&mut content, e.name.as_str());
                        push_str(&mut content, "\" \"");
                        push_str(&mut content, escape_quotes_string(e.description.as_str()).as_str());
                        push_str(&mut content, "\"\n");
                        assert(entries@.take(i + 1).drop_last() =~= entries@.take(i as int));
                        assert(entries@.take(i + 1).last() == entries@[i as int]);
                        assert(content@ =~= head + entry_lines(entries@.take(i + 1)));
                        i = i + 1;
                    }
                    assert(entries@.take(i as int) =~= entries@);
                },
            }
        },
        CreaturesFile::BodyData(bodydata) => {
            push_named_line(&mut content, "bodydata", out);
            push_source_line(&mut content, bodydata.input_filename.as_str(), out);
        },
        CreaturesFile::Genetics(genetics) => {
            push_named_line(&mut content, "genome", out);
            push_source_line(&mut content, genetics.input_filename.as_str(), out);
        },
    }
    Ok(content)
}

/// What a file of a source says: its kind, the name it is written under, the file it is
/// read from, and, for a sprite made of frames, the frames' files, and for a catalogue
/// written out in the source, its entries (classifier, name, description).
pub struct FileDesc {
    pub kind: FileType,
    pub output: Seq<char>,
    pub input: Seq<char>,
    pub frames: Option<Seq<Seq<char>>>,
    pub entries: Option<Seq<(Seq<char>, Seq<char>, Seq<char>)>>,
}

/// What a file says.
pub open spec fn file_desc(f: CreaturesFile) -> FileDesc {
    match f {
        CreaturesFile::Script(s) => FileDesc { kind: FileType::Script, output: s.output_filename@, input: s.input_filename@, frames: None, entries: None },
        CreaturesFile::Sprite(sp) => match sp {
            Sprite::Raw { output_filename, input_filename, .. } =>
                FileDesc { kind: FileType::Sprite, output: output_filename@, input: input_filename@, frames: None, entries: None },
            Sprite::Png { output_filename, input_filename, frames, .. } => FileDesc {
                kind: FileType::Sprite,
                output: output_filename@,
                input: input_filename@,
                frames: Some(frames@.map_values(|fr: SpriteFrame| fr.input_filename@)),
                entries: None,
            },
        },
        CreaturesFile::Sound(s) => FileDesc { kind: FileType::Sound, output: s.output_filename@, input: s.input_filename@, frames: None, entries: None },
        CreaturesFile::Catalogue(c) => match c {
            Catalogue::Raw { output_filename, input_filename, .. } =>
                FileDesc { kind: FileType::Catalogue, output: output_filename@, input: input_filename@, frames: None, entries: None },
            Catalogue::Inline { output_filename, entries, .. } => FileDesc {
                kind: FileType::Catalogue,
                output: output_filename@,
                input: Seq::empty(),
                frames: None,
                entries: Some(entries@.map_values(|e: CatalogueEntry| (e.classifier@, e.name@, e.description@))),
            },
        },
        CreaturesFile::BodyData(b) => FileDesc { kind: FileType::BodyData, output: b.output_filename@, input: b.input_filename@, frames: None, entries: None },
        CreaturesFile::Genetics(g) => FileDesc { kind: FileType::Genetics, output: g.output_filename@, input: g.input_filename@, frames: None, entries: None },
    }
}

/// Whether a file is not read yet: it holds no data, nor do its frames, and its stored
/// kind is its kind.
pub open spec fn is_unread(f: CreaturesFile) -> bool {
    match f {
        CreaturesFile::Script(s) => s.filetype == FileType::Script && s.data is None,
        CreaturesFile::Sprite(sp) => match sp {
            Sprite::Raw { filetype, data, .. } => filetype == FileType::Sprite && data is None,
            Sprite::Png { filetype, frames, data, .. } => filetype == FileType::Sprite && data is None
                && forall|i: int| 0 <= i < frames@.len() ==> (#[trigger] frames@[i]).data is None,
        },
        CreaturesFile::Sound(s) => s.data is None,
        CreaturesFile::Catalogue(c) => match c {
            Catalogue::Raw { filetype, data, .. } => filetype == FileType::Catalogue && data is None,
            Catalogue::Inline { filetype, data, .. } => filetype == FileType::Catalogue && data is None,
        },
        CreaturesFile::BodyData(b) => b.filetype == FileType::BodyData && b.data is None,
        CreaturesFile::Genetics(g) => g.filetype == FileType::Genetics && g.data is None,
    }
}

/// What the files say.
pub open spec fn file_descs(files: Seq<CreaturesFile>) -> Seq<FileDesc> {
    files.map_values(|f: CreaturesFile| file_desc(f))
}

/// The kind of file that a line's first word begins.
pub open spec fn keyword_kind(w: Seq<char>) -> Option<FileType> {
    if w == "script"@ {
        Some(FileType::Script)
    } else if w == "sprite"@ {
        Some(FileType::Sprite)
    } else if w == "sound"@ {
        Some(FileType::Sound)
    } else if w == "catalogue"@ {
        Some(FileType::Catalogue)
    } else if w == "genome"@ {
        Some(FileType::Genetics)
    } else if w == "bodydata"@ {
        Some(FileType::BodyData)
    } else {
        None
    }
}

/// Whether a line's words belong to the `files` section.
pub open spec fn is_file_line(t: Seq<Seq<char>>) -> bool {
    t.len() > 0 && (keyword_kind(t[0]) is Some || t[0] == "frame"@ || t[0] == "entry"@ || t[0] == "source"@)
}

/// The files after a line of the `files` section with the words `t`: a kind's word and
/// a name add a file of that kind, written under and read from that name; `frame` adds
/// a frame to the last file where it is a sprite (making a sprite taken as it is into
/// one made of frames, read from the frame's file), unless the sprite has a frame from
/// that file or is a background with its frame; `entry` adds an entry to the last file
/// where it is a catalogue (making it one written out in the source); `source` sets the
/// file the last file is read from (making a sprite taken as it is into one with that
/// one frame; a sprite of frames or a catalogue written out is left as it is).
pub open spec fn file_line_step(d: Seq<FileDesc>, t: Seq<Seq<char>>) -> Seq<FileDesc> {
    let w = t[0];
    let last = d.len() - 1;
    if keyword_kind(w) is Some {
        if t.len() > 1 {
            d.push(FileDesc { kind: keyword_kind(w)->Some_0, output: t[1], input: t[1], frames: None, entries: None })
        } else {
            d
        }
    } else if w == "frame"@ {
        if t.len() > 1 && d.len() > 0 && d[last].kind == FileType::Sprite {
            d.update(last, desc_with_frame(d[last], t[1]))
        } else {
            d
        }
    } else if w == "entry"@ {
        if t.len() > 3 && d.len() > 0 && d[last].kind == FileType::Catalogue {
            d.update(last, desc_with_entry(d[last], (t[1], t[2], t[3])))
        } else {
            d
        }
    } else {
        if t.len() > 1 && d.len() > 0 {
            d.update(last, desc_with_source(d[last], t[1]))
        } else {
            d
        }
    }
}

/// A sprite with a frame from `name` added.
pub open spec fn desc_with_frame(l: FileDesc, name: Seq<char>) -> FileDesc {
    let frames = match l.frames { Some(fr) => fr, None => Seq::empty() };
    let input = if l.frames is None { name } else { l.input };
    let may = (or_empty(path_extension(l.output)) != "blk"@ || frames.len() == 0) && !frames.contains(name);
    FileDesc { input, frames: Some(if may { frames.push(name) } else { frames }), ..l }
}

/// A catalogue with an entry added.
pub open spec fn desc_with_entry(l: FileDesc, e: (Seq<char>, Seq<char>, Seq<char>)) -> FileDesc {
    let es = match l.entries { Some(x) => x, None => Seq::empty() };
    let input = if l.entries is None { Seq::empty() } else { l.input };
    FileDesc { input, entries: Some(es.push(e)), ..l }
}

/// A file read from `name`.
pub open spec fn desc_with_source(l: FileDesc, name: Seq<char>) -> FileDesc {
    if l.kind == FileType::Sprite {
        if l.frames is None { FileDesc { input: name, frames: Some(seq![name]), ..l } } else { l }
    } else if l.kind == FileType::Catalogue {
        if l.entries is None { FileDesc { input: name, ..l } } else { l }
    } else {
        FileDesc { input: name, ..l }
    }
}

/// The files that the first `k` lines say, each line being of the `files` section.
pub open spec fn files_decoded(lines: Seq<Seq<char>>, k: nat) -> Seq<FileDesc>
    decreases k,
{
    if k == 0 {
        Seq::empty()
    } else {
        file_line_step(files_decoded(lines, (k - 1) as nat), spec_parse_tokens(lines[k - 1]))
    }
}

/// The first line from `i` on that does not belong to the `files` section.
pub open spec fn files_end(lines: Seq<Seq<char>>, i: nat) -> nat
    decreases lines.len() - i,
{
    if i >= lines.len() {
        i
    } else if !is_file_line(spec_parse_tokens(lines[i as int])) {
        i
    } else {
        files_end(lines, i + 1)
    }
}

fn new_source_file(kind: FileType, name: &str) -> (f: CreaturesFile)
    ensures
        file_desc(f) == (FileDesc { kind, output: name@, input: name@, frames: None, entries: None }),
        is_unread(f),
{
    match kind {
        FileType::Script => CreaturesFile::Script(ScriptFile {
            filetype: FileType::Script,
            output_filename: to_owned(name),
            input_filename: to_owned(name),
            data: None,
        }),
        FileType::Sprite => CreaturesFile::Sprite(Sprite::Raw {
            filetype: FileType::Sprite,
            output_filename: to_owned(name),
            input_filename: to_owned(name),
            data: None,
        }),
        FileType::Sound => CreaturesFile::Sound(Sound { output_filename: to_owned(name), input_filename: to_owned(name), data: None }),
        FileType::Catalogue => CreaturesFile::Catalogue(Catalogue::Raw {
            filetype: FileType::Catalogue,
            output_filename: to_owned(name),
            input_filename: to_owned(name),
            data: None,
        }),
        FileType::BodyData => CreaturesFile::BodyData(BodyData {
            filetype: FileType::BodyData,
            output_filename: to_owned(name),
            input_filename: to_owned(name),
            data: None,
        }),
        FileType::Genetics => CreaturesFile::Genetics(Genetics {
            filetype: FileType::Genetics,
            output_filename: to_owned(name),
            input_filename: to_owned(name),
            data: None,
        }),
    }
}

proof fn lemma_has_frame_names(frames: Seq<SpriteFrame>, name: Seq<char>)
    ensures
        has_frame(frames, name) == frames.map_values(|fr: SpriteFrame| fr.input_filename@).contains(name),
{
    let names = frames.map_values(|fr: SpriteFrame| fr.input_filename@);
    if has_frame(frames, name) {
        let i = choose|i: int| 0 <= i < frames.len() && (#[trigger] frames[i]).input_filename@ == name;
        assert(names[i] == name);
    }
    if names.contains(name) {
        let i = choose|i: int| 0 <= i < names.len() && names[i] == name;
        assert(frames[i].input_filename@ == name);
    }
}

fn with_frame(f: CreaturesFile, name: &str) -> (g: CreaturesFile)
    requires
        file_desc(f).kind == FileType::Sprite,
        is_unread(f),
    ensures
        file_desc(g) == desc_with_frame(file_desc(f), name@),
        is_unread(g),
{
    match f {
        CreaturesFile::Sprite(sprite) => {
            let mut png = match sprite {
                Sprite::Raw { output_filename, .. } => Sprite::Png {
                    filetype: FileType::Sprite,
                    output_filename,
                    input_filename: to_owned(name),
                    frames: Vec::new(),
                    data: None,
                },
                Sprite::Png { filetype, output_filename, input_filename, frames, data } =>
                    Sprite::Png { filetype, output_filename, input_filename, frames, data },
            };
            let ghost before = png;
            let frame = SpriteFrame { input_filename: to_owned(name), data: None };
            let ghost fv = frame;
            png.add_frame(frame);
            proof {
                assert(desc_with_frame(file_desc(f), name@) =~= desc_with_frame(file_desc(CreaturesFile::Sprite(before)), name@)) by {
                    if let Sprite::Png { frames, .. } = before {
                        if file_desc(f).frames is None {
                            assert(frames@.map_values(|fr: SpriteFrame| fr.input_filename@) =~= Seq::<Seq<char>>::empty());
                        }
                    }
                }
                if let Sprite::Png { frames, .. } = before {
                    lemma_has_frame_names(frames@, name@);
                    assert(frames@.push(fv).map_values(|fr: SpriteFrame| fr.input_filename@)
                        =~= frames@.map_values(|fr: SpriteFrame| fr.input_filename@).push(name@));
                }
                let after = png;
                if let Sprite::Png { frames, .. } = after {
                    assert(forall|i: int| 0 <= i < frames@.len() ==> (#[trigger] frames@[i]).data is None);
                }
            }
            CreaturesFile::Sprite(png)
        },
        _ => f,
    }
}

fn with_entry(f: CreaturesFile, classifier: &str, name: &str, description: &str) -> (g: CreaturesFile)
    requires
        file_desc(f).kind == FileType::Catalogue,
        is_unread(f),
    ensures
        file_desc(g) == desc_with_entry(file_desc(f), (classifier@, name@, description@)),
        is_unread(g),
{
    match f {
        CreaturesFile::Catalogue(catalogue) => {
            let mut inline = match catalogue {
                Catalogue::Raw { output_filename, .. } => Catalogue::Inline {
                    filetype: FileType::Catalogue,
                    output_filename,
                    entries: Vec::new(),
                    data: None,
                },
                Catalogue::Inline { filetype, output_filename, entries, data } => Catalogue::Inline { filetype, output_filename, entries, data },
            };
            let ghost before = inline;
            let entry = CatalogueEntry { classifier: to_owned(classifier), name: to_owned(name), description: to_owned(description) };
            let ghost ev = entry;
            inline.add_entry(entry);
            proof {
                assert(desc_with_entry(file_desc(f), (classifier@, name@, description@))
                    =~= desc_with_entry(file_desc(CreaturesFile::Catalogue(before)), (classifier@, name@, description@))) by {
                    if let Catalogue::Inline { entries, .. } = before {
                        if file_desc(f).entries is None {
                            assert(entries@.map_values(|e: CatalogueEntry| (e.classifier@, e.name@, e.description@))
                                =~= Seq::<(Seq<char>, Seq<char>, Seq<char>)>::empty());
                        }
                    }
                }
                if let Catalogue::Inline { entries, .. } = before {
                    assert(entries@.push(ev).map_values(|e: CatalogueEntry| (e.classifier@, e.name@, e.description@))
                        =~= entries@.map_values(|e: CatalogueEntry| (e.classifier@, e.name@, e.description@)).push(
                        (classifier@, name@, description@),
                    ));
                }
            }
            CreaturesFile::Catalogue(inline)
        },
        _ => f,
    }
}

fn with_source(f: CreaturesFile, name: &str) -> (g: CreaturesFile)
    requires
        is_unread(f),
    ensures
        file_desc(g) == desc_with_source(file_desc(f), name@),
        is_unread(g),
{
    match f {
        CreaturesFile::Script(s) => CreaturesFile::Script(ScriptFile { input_filename: to_owned(name), ..s }),
        CreaturesFile::Sprite(sprite) => match sprite {
            Sprite::Raw { output_filename, .. } => {
                let mut frames: Vec<SpriteFrame> = Vec::new();
                frames.push(SpriteFrame { input_filename: to_owned(name), data: None });
                let g = CreaturesFile::Sprite(Sprite::Png {
                    filetype: FileType::Sprite,
                    output_filename,
                    input_filename: to_owned(name),
                    frames,
                    data: None,
                });
                proof {
                    let gv = g;
                    if let CreaturesFile::Sprite(Sprite::Png { frames, .. }) = gv {
                        assert(frames@.map_values(|fr: SpriteFrame| fr.input_filename@) =~= seq![name@]);
                    }
                }
                g
            },
            Sprite::Png { filetype, output_filename, input_filename, frames, data } =>
                CreaturesFile::Sprite(Sprite::Png { filetype, output_filename, input_filename, frames, data }),
        },
        CreaturesFile::Sound(s) => CreaturesFile::Sound(Sound { input_filename: to_owned(name), ..s }),
        CreaturesFile::Catalogue(c) => match c {
            Catalogue::Raw { filetype, output_filename, data, .. } =>
                CreaturesFile::Catalogue(Catalogue::Raw { filetype, output_filename, input_filename: to_owned(name), data }),
            Catalogue::Inline { filetype, output_filename, entries, data } =>
                CreaturesFile::Catalogue(Catalogue::Inline { filetype, output_filename, entries, data }),
        },
        CreaturesFile::BodyData(b) => CreaturesFile::BodyData(BodyData { input_filename: to_owned(name), ..b }),
        CreaturesFile::Genetics(g) => CreaturesFile::Genetics(Genetics { input_filename: to_owned(name), ..g }),
    }
}

fn keyword_kind_of(w: &str) -> (r: Option<FileType>)
    ensures
        r == keyword_kind(w@),
{
    if str_eq(w, "script") {
        Some(FileType::Script)
    } else if str_eq(w, "sprite") {
        Some(FileType::Sprite)
    } else if str_eq(w, "sound") {
        Some(FileType::Sound)
    } else if str_eq(w, "catalogue") {
        Some(FileType::Catalogue)
    } else if str_eq(w, "genome") {
        Some(FileType::Genetics)
    } else if str_eq(w, "bodydata") {
        Some(FileType::BodyData)
    } else {
        None
    }
}

fn is_file_line_exec(tokens: &Vec<String>) -> (r: bool)
    ensures
        r == is_file_line(strings_view(tokens@)),
{
    if tokens.len() == 0 {
        return false;
    }
    let w = tokens[0].as_str();
    keyword_kind_of(w).is_some() || str_eq(w, "frame") || str_eq(w, "entry") || str_eq(w, "source")
}

/// Whether all files are unread.
pub open spec fn all_unread(files: Seq<CreaturesFile>) -> bool {
    forall|i: int| 0 <= i < files.len() ==> is_unread(#[trigger] files[i])
}

fn replace_last(files: &mut Vec<CreaturesFile>, make: u8, a: &str, b: &str, c: &str)
    requires
        old(files)@.len() > 0,
        all_unread(old(files)@),
        make == 0 ==> file_desc(old(files)@.last()).kind == FileType::Sprite,
        make == 1 ==> file_desc(old(files)@.last()).kind == FileType::Catalogue,
    ensures
        final(files)@.len() == old(files)@.len(),
        file_descs(final(files)@) == file_descs(old(files)@).update(
            old(files)@.len() - 1,
            if make == 0 {
                desc_with_frame(file_desc(old(files)@.last()), a@)
            } else if make == 1 {
                desc_with_entry(file_desc(old(files)@.last()), (a@, b@, c@))
            } else {
                desc_with_source(file_desc(old(files)@.last()), a@)
            },
        ),
        all_unread(final(files)@),
{
    let ghost before = files@;
    match files.pop() {
        Some(f) => {
            let g = if make == 0 {
                with_frame(f, a)
            } else if make == 1 {
                with_entry(f, a, b, c)
            } else {
                with_source(f, a)
            };
            files.push(g);
            proof {
                assert(files@ == before.drop_last().push(g));
                assert(file_descs(files@) =~= file_descs(before).update(before.len() - 1, file_desc(g)));
                assert forall|i: int| 0 <= i < files@.len() implies is_unread(#[trigger] files@[i]) by {
                    if i < before.len() - 1 {
                        assert(files@[i] == before[i]);
                    }
                }
            }
        },
        None => {},
    }
}

fn apply_file_line(files: &mut Vec<CreaturesFile>, tokens: &Vec<String>)
    requires
        is_file_line(strings_view(tokens@)),
        all_unread(old(files)@),
    ensures
        file_descs(final(files)@) == file_line_step(file_descs(old(files)@), strings_view(tokens@)),
        all_unread(final(files)@),
{
    let ghost t = strings_view(tokens@);
    let ghost d = file_descs(files@);
    let w = tokens[0].as_str();
    assert(t[0] == w@);
    if let Some(kind) = keyword_kind_of(w) {
        if tokens.len() > 1 {
            let ghost before = files@;
            let f = new_source_file(kind, tokens[1].as_str());
            files.push(f);
            proof {
                assert(t[1] == tokens@[1]@);
                assert(file_descs(files@) =~= d.push(file_desc(f)));
                assert forall|i: int| 0 <= i < files@.len() implies is_unread(#[trigger] files@[i]) by {
                    if i < before.len() {
                        assert(files@[i] == before[i]);
                    }
                }
            }
        }
    } else if str_eq(w, "frame") {
        if tokens.len() > 1 && files.len() > 0 && files[files.len() - 1].get_filetype() == FileType::Sprite {
            proof {
                assert(t[1] == tokens@[1]@);
                assert(d[d.len() - 1] == file_desc(files@.last()));
            }
            replace_last(files, 0, tokens[1].as_str(), "", "");
        }
    } else if str_eq(w, "entry") {
        if tokens.len() > 3 && files.len() > 0 && files[files.len() - 1].get_filetype() == FileType::Catalogue {
            proof {
                assert(t[1] == tokens@[1]@);
                assert(t[2] == tokens@[2]@);
                assert(t[3] == tokens@[3]@);
                assert(d[d.len() - 1] == file_desc(files@.last()));
            }
            replace_last(files, 1, tokens[1].as_str(), tokens[2].as_str(), tokens[3].as_str());
        }
    } else {
        if tokens.len() > 1 && files.len() > 0 {
            proof {
                assert(t[1] == tokens@[1]@);
                assert(d[d.len() - 1] == file_desc(files@.last()));
            }
            replace_last(files, 2, tokens[1].as_str(), "", "");
        }
    }
}

/// Reads the `files` section from its first line on: the files its lines say, and the
/// number of its lines (up to the first line that begins no file and adds nothing to
/// one).
pub fn decode(lines: Vec<&str>) -> (r: (Vec<CreaturesFile>, usize))
    ensures
        r.1 == files_end(lines_view(lines@), 0),
        file_descs(r.0@) == files_decoded(lines_view(lines@), r.1 as nat),
        all_unread(r.0@),
{
    let ghost lv = lines_view(lines@);
    let mut files: Vec<CreaturesFile> = Vec::new();
    let mut i: usize = 0;
    assert(file_descs(files@) =~= Seq::<FileDesc>::empty());
    while i < lines.len()
        invariant
            i <= lines@.len(),
            lv == lines_view(lines@),
            files_end(lv, 0) == files_end(lv, i as nat),
            file_descs(files@) == files_decoded(lv, i as nat),
            all_unread(files@),
        decreases lines@.len() - i,
    {
        let tokens = parse_tokens(lines[i]);
        assert(lv[i as int] == lines@[i as int]@);
        if !is_file_line_exec(&tokens) {
            return (files, i);
        }
        apply_file_line(&mut files, &tokens);
        i = i + 1;
    }
    (files, i)
}

} // verus!
