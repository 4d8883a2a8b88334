//! The kinds of files an agent carries.
use vstd::prelude::*;
use crate::buffer::put_slice;
use crate::file_helper::{title, extension, filename, or_empty, path_file_stem, path_extension, path_file_name};
use crate::error::Error;
use crate::text::{str_eq, to_owned};
use super::sprite::Sprite;
use super::sound::Sound;
use super::catalogue::Catalogue;
use super::bodydata::BodyData;
use super::genetics::Genetics;
use super::sprite::SpriteFrame;
use super::catalogue::CatalogueEntry;
use super::tag::{Tag, file_list};

verus! {

/// The kind of a file that a tag lists.
#[derive(Debug, Clone, Copy, PartialEq, Eq, Structural)]
pub enum FileType {
    Script,
    Sprite,
    Sound,
    Catalogue,
    BodyData,
    Genetics,
}

/// Whether a list of file indices holds `file_index`.
pub fn list_contains(list: &Vec<usize>, file_index: usize) -> (r: bool)
    ensures
        r == list@.contains(file_index),
{
    let mut i: usize = 0;
    while i < list.len()
        invariant
            i <= list.len(),
            forall|j: int| 0 <= j < i ==> list@[j] != file_index,
        decreases list.len() - i,
    {
        if list[i] == file_index {
            assert(list@[i as int] == file_index);
            return true;
        }
        i = i + 1;
    }
    false
}

} // verus!

verus! {

/// A copy of optional data.
pub fn copy_data(data: &Option<Vec<u8>>) -> (r: Option<Vec<u8>>)
    ensures
        match (r, *data) {
            (Some(a), Some(b)) => a@ == b@,
            (None, None) => true,
            _ => false,
        },
{
    match data {
        Some(d) => {
            let mut v: Vec<u8> = Vec::new();
            put_slice(&mut v, d.as_slice());
            Some(v)
        },
        None => None,
    }
}

/// A script file that a source lists: the name it is written under, the file it is
/// read from, and its data once read.
pub struct ScriptFile {
    pub filetype: FileType,
    pub output_filename: String,
    pub input_filename: String,
    pub data: Option<Vec<u8>>,
}

impl ScriptFile {
    /// The script in the file `input_filename` with the given data; an error unless its
    /// extension is `cos`.
    pub fn new_from_data(input_filename: &String, data: &[u8]) -> (r: Result<ScriptFile, Error>)
        ensures
            if or_empty(path_extension(input_filename@)) == "cos"@ {
                r matches Ok(s) && s.filetype == FileType::Script
                    && s.output_filename@ == or_empty(path_file_name(input_filename@))
                    && s.input_filename@ == input_filename@ && (match s.data { Some(d) => d@ == data@, None => false })
            } else {
                r matches Err(Error::Other(m)) && m@ == "Unrecognized file type. Script must be a COS file."@
            },
    {
        if str_eq(extension(input_filename.as_str()).as_str(), "cos") {
            let mut d: Vec<u8> = Vec::new();
            put_slice(&mut d, data);
            Ok(ScriptFile {
                filetype: FileType::Script,
                output_filename: filename(input_filename.as_str()),
                input_filename: to_owned(input_filename.as_str()),
                data: Some(d),
            })
        } else {
            Err(Error::Other(to_owned("Unrecognized file type. Script must be a COS file.")))
        }
    }
}

/// A file that a tag can list.
pub enum CreaturesFile {
    Script(ScriptFile),
    Sprite(Sprite),
    Sound(Sound),
    Catalogue(Catalogue),
    BodyData(BodyData),
    Genetics(Genetics),
}

/// The name a file is written under.
pub open spec fn output_filename(f: CreaturesFile) -> Seq<char> {
    match f {
        CreaturesFile::Script(s) => s.output_filename@,
        CreaturesFile::Sprite(s) => match s {
            Sprite::Raw { output_filename, .. } => output_filename@,
            Sprite::Png { output_filename, .. } => output_filename@,
        },
        CreaturesFile::Sound(s) => s.output_filename@,
        CreaturesFile::Catalogue(c) => match c {
            Catalogue::Raw { output_filename, .. } => output_filename@,
            Catalogue::Inline { output_filename, .. } => output_filename@,
        },
        CreaturesFile::BodyData(b) => b.output_filename@,
        CreaturesFile::Genetics(g) => g.output_filename@,
    }
}

/// The file a file is read from: a sprite made of images has one only where it has a
/// single frame, and a catalogue written out in the source has none.
pub open spec fn input_filename(f: CreaturesFile) -> Seq<char> {
    match f {
        CreaturesFile::Script(s) => s.input_filename@,
        CreaturesFile::Sprite(s) => match s {
            Sprite::Raw { input_filename, .. } => input_filename@,
            Sprite::Png { input_filename, frames, .. } => if frames@.len() == 1 {
                input_filename@
            } else {
                Seq::empty()
            },
        },
        CreaturesFile::Sound(s) => s.input_filename@,
        CreaturesFile::Catalogue(c) => match c {
            Catalogue::Raw { input_filename, .. } => input_filename@,
            Catalogue::Inline { .. } => Seq::empty(),
        },
        CreaturesFile::BodyData(b) => b.input_filename@,
        CreaturesFile::Genetics(g) => g.input_filename@,
    }
}

/// The kind of a file.
pub open spec fn filetype_of(f: CreaturesFile) -> FileType {
    match f {
        CreaturesFile::Script(_) => FileType::Script,
        CreaturesFile::Sprite(_) => FileType::Sprite,
        CreaturesFile::Sound(_) => FileType::Sound,
        CreaturesFile::Catalogue(_) => FileType::Catalogue,
        CreaturesFile::BodyData(_) => FileType::BodyData,
        CreaturesFile::Genetics(_) => FileType::Genetics,
    }
}

/// The data of a file, once read.
pub open spec fn file_data(f: CreaturesFile) -> Option<Seq<u8>> {
    let d = match f {
        CreaturesFile::Script(s) => s.data,
        CreaturesFile::Sprite(s) => match s {
            Sprite::Raw { data, .. } => data,
            Sprite::Png { data, .. } => data,
        },
        CreaturesFile::Sound(s) => s.data,
        CreaturesFile::Catalogue(c) => match c {
            Catalogue::Raw { data, .. } => data,
            Catalogue::Inline { data, .. } => data,
        },
        CreaturesFile::BodyData(b) => b.data,
        CreaturesFile::Genetics(g) => g.data,
    };
    match d {
        Some(v) => Some(v@),
        None => None,
    }
}

/// The place of a file's kind, by its extension, in the order files are listed:
/// scripts, sprites (C16, S16), backgrounds, sounds, catalogues, body data, genetics
/// (GEN, GNO), then anything else.
pub open spec fn category_id(ext: Seq<char>) -> usize {
    if ext == "cos"@ {
        0
    } else if ext == "c16"@ {
        1
    } else if ext == "s16"@ {
        2
    } else if ext == "blk"@ {
        3
    } else if ext == "wav"@ {
        4
    } else if ext == "catalogue"@ {
        5
    } else if ext == "att"@ {
        6
    } else if ext == "gen"@ {
        7
    } else if ext == "gno"@ {
        8
    } else {
        9
    }
}

impl CreaturesFile {
    /// The file a file is read from.
    pub fn get_input_filename(&self) -> (r: String)
        ensures
            r@ == input_filename(*self),
    {
        match self {
            CreaturesFile::Script(script) => to_owned(script.input_filename.as_str()),
            CreaturesFile::Sprite(sprite) => match sprite {
                Sprite::Raw { input_filename, .. } => to_owned(input_filename.as_str()),
                Sprite::Png { input_filename, frames, .. } => if frames.len() == 1 {
                    to_owned(input_filename.as_str())
                } else {
                    String::new()
                },
            },
            CreaturesFile::Sound(sound) => to_owned(sound.input_filename.as_str()),
            CreaturesFile::Catalogue(catalogue) => match catalogue {
                Catalogue::Raw { input_filename, .. } => to_owned(input_filename.as_str()),
                Catalogue::Inline { .. } => String::new(),
            },
            CreaturesFile::BodyData(bodydata) => to_owned(bodydata.input_filename.as_str()),
            CreaturesFile::Genetics(genetics) => to_owned(genetics.input_filename.as_str()),
        }
    }

    /// The name the file is written under.
    pub fn get_output_filename(&self) -> (r: String)
        ensures
            r@ == output_filename(*self),
    {
        to_owned(self.get_output_filename_ref().as_str())
    }

    /// The name the file is written under.
    pub fn get_output_filename_ref(&self) -> (r: &String)
        ensures
            r@ == output_filename(*self),
    {
        match self {
            CreaturesFile::Script(script) => &script.output_filename,
            CreaturesFile::Sprite(sprite) => match sprite {
                Sprite::Raw { output_filename, .. } => output_filename,
                Sprite::Png { output_filename, .. } => output_filename,
            },
            CreaturesFile::Sound(sound) => &sound.output_filename,
            CreaturesFile::Catalogue(catalogue) => match catalogue {
                Catalogue::Raw { output_filename, .. } => output_filename,
                Catalogue::Inline { output_filename, .. } => output_filename,
            },
            CreaturesFile::BodyData(bodydata) => &bodydata.output_filename,
            CreaturesFile::Genetics(genetics) => &genetics.output_filename,
        }
    }

    /// The stem of the name the file is written under.
    pub fn get_title(&self) -> (r: String)
        ensures
            r@ == or_empty(path_file_stem(output_filename(*self))),
    {
        title(self.get_output_filename_ref().as_str())
    }

    /// The extension of the name the file is written under.
    pub fn get_extension(&self) -> (r: String)
        ensures
            r@ == or_empty(path_extension(output_filename(*self))),
    {
        extension(self.get_output_filename_ref().as_str())
    }

    /// The place of the file's kind in the order files are listed.
    pub fn get_category_id(&self) -> (r: usize)
        ensures
            r == category_id(or_empty(path_extension(output_filename(*self)))),
    {
        let e = self.get_extension();
        let e = e.as_str();
        if str_eq(e, "cos") {
            0
        } else if str_eq(e, "c16") {
            1
        } else if str_eq(e, "s16") {
            2
        } else if str_eq(e, "blk") {
            3
        } else if str_eq(e, "wav") {
            4
        } else if str_eq(e, "catalogue") {
            5
        } else if str_eq(e, "att") {
            6
        } else if str_eq(e, "gen") {
            7
        } else if str_eq(e, "gno") {
            8
        } else {
            9
        }
    }

    /// The kind of the file.
    pub fn get_filetype(&self) -> (r: FileType)
        ensures
            r == filetype_of(*self),
    {
        match self {
            CreaturesFile::Script(_script) => FileType::Script,
            CreaturesFile::Sprite(_sprite) => FileType::Sprite,
            CreaturesFile::Sound(_sound) => FileType::Sound,
            CreaturesFile::Catalogue(_catalogue) => FileType::Catalogue,
            CreaturesFile::BodyData(_bodydata) => FileType::BodyData,
            CreaturesFile::Genetics(_genetics) => FileType::Genetics,
        }
    }

    /// A copy of the file's data, once read.
    pub fn get_data(&self) -> (r: Option<Vec<u8>>)
        ensures
            match r {
                Some(v) => file_data(*self) == Some(v@),
                None => file_data(*self) is None,
            },
    {
        match self {
            CreaturesFile::Script(script) => copy_data(&script.data),
            CreaturesFile::Sprite(sprite) => match sprite {
                Sprite::Raw { data, .. } => copy_data(data),
                Sprite::Png { data, .. } => copy_data(data),
            },
            CreaturesFile::Sound(sound) => copy_data(&sound.data),
            CreaturesFile::Catalogue(catalogue) => match catalogue {
                Catalogue::Raw { data, .. } => copy_data(data),
                Catalogue::Inline { data, .. } => copy_data(data),
            },
            CreaturesFile::BodyData(bodydata) => copy_data(&bodydata.data),
            CreaturesFile::Genetics(genetics) => copy_data(&genetics.data),
        }
    }
}

/// The place of the first file from `from` on that is written under `name`.
pub open spec fn first_named(files: Seq<CreaturesFile>, name: Seq<char>, from: nat) -> Option<usize>
    decreases files.len() - from,
{
    if from >= files.len() {
        None
    } else if output_filename(files[from as int]) == name {
        Some(from as usize)
    } else {
        first_named(files, name, from + 1)
    }
}

/// The place of the first file written under `filename`, where there is one.
pub fn lookup_file_index(files: &[CreaturesFile], filename: &String) -> (r: Option<usize>)
    ensures
        r == first_named(files@, filename@, 0),
        match r {
            Some(i) => i < files@.len() && output_filename(files@[i as int]) == filename@
                && forall|j: int| 0 <= j < i ==> output_filename(#[trigger] files@[j]) != filename@,
            None => forall|j: int| 0 <= j < files@.len() ==> output_filename(#[trigger] files@[j]) != filename@,
        },
{
    let mut i: usize = 0;
    while i < files.len()
        invariant
            i <= files@.len(),
            forall|j: int| 0 <= j < i ==> output_filename(#[trigger] files@[j]) != filename@,
            first_named(files@, filename@, 0) == first_named(files@, filename@, i as nat),
        decreases files@.len() - i,
    {
        if str_eq(files[i].get_output_filename_ref().as_str(), filename.as_str()) {
            return Some(i);
        }
        i = i + 1;
    }
    None
}

/// Whether two optional data hold the same bytes.
pub open spec fn same_data(a: Option<Vec<u8>>, b: Option<Vec<u8>>) -> bool {
    match (a, b) {
        (Some(x), Some(y)) => x@ == y@,
        (None, None) => true,
        _ => false,
    }
}

/// Whether two sprite frames agree.
pub open spec fn same_frame(a: SpriteFrame, b: SpriteFrame) -> bool {
    a.input_filename@ == b.input_filename@ && same_data(a.data, b.data)
}

/// Whether two catalogue entries agree.
pub open spec fn same_entry(a: CatalogueEntry, b: CatalogueEntry) -> bool {
    a.name@ == b.name@ && a.classifier@ == b.classifier@ && a.description@ == b.description@
}

/// Whether two files agree in every field.
pub open spec fn same_file(a: CreaturesFile, b: CreaturesFile) -> bool {
    match (a, b) {
        (CreaturesFile::Script(x), CreaturesFile::Script(y)) => x.filetype == y.filetype
            && x.output_filename@ == y.output_filename@ && x.input_filename@ == y.input_filename@ && same_data(x.data, y.data),
        (CreaturesFile::Sprite(x), CreaturesFile::Sprite(y)) => match (x, y) {
            (
                Sprite::Raw { filetype: f1, output_filename: o1, input_filename: i1, data: d1 },
                Sprite::Raw { filetype: f2, output_filename: o2, input_filename: i2, data: d2 },
            ) => f1 == f2 && o1@ == o2@ && i1@ == i2@ && same_data(d1, d2),
            (
                Sprite::Png { filetype: f1, output_filename: o1, input_filename: i1, frames: r1, data: d1 },
                Sprite::Png { filetype: f2, output_filename: o2, input_filename: i2, frames: r2, data: d2 },
            ) => f1 == f2 && o1@ == o2@ && i1@ == i2@ && same_data(d1, d2) && r1@.len() == r2@.len()
                && forall|k: int| 0 <= k < r1@.len() ==> same_frame(#[trigger] r1@[k], r2@[k]),
            _ => false,
        },
        (CreaturesFile::Sound(x), CreaturesFile::Sound(y)) => x.output_filename@ == y.output_filename@
            && x.input_filename@ == y.input_filename@ && same_data(x.data, y.data),
        (CreaturesFile::Catalogue(x), CreaturesFile::Catalogue(y)) => match (x, y) {
            (
                Catalogue::Raw { filetype: f1, output_filename: o1, input_filename: i1, data: d1 },
                Catalogue::Raw { filetype: f2, output_filename: o2, input_filename: i2, data: d2 },
            ) => f1 == f2 && o1@ == o2@ && i1@ == i2@ && same_data(d1, d2),
            (
                Catalogue::Inline { filetype: f1, output_filename: o1, entries: e1, data: d1 },
                Catalogue::Inline { filetype: f2, output_filename: o2, entries: e2, data: d2 },
            ) => f1 == f2 && o1@ == o2@ && same_data(d1, d2) && e1@.len() == e2@.len()
                && forall|k: int| 0 <= k < e1@.len() ==> same_entry(#[trigger] e1@[k], e2@[k]),
            _ => false,
        },
        (CreaturesFile::BodyData(x), CreaturesFile::BodyData(y)) => x.filetype == y.filetype
            && x.output_filename@ == y.output_filename@ && x.input_filename@ == y.input_filename@ && same_data(x.data, y.data),
        (CreaturesFile::Genetics(x), CreaturesFile::Genetics(y)) => x.filetype == y.filetype
            && x.output_filename@ == y.output_filename@ && x.input_filename@ == y.input_filename@ && same_data(x.data, y.data),
        _ => false,
    }
}

fn copy_frames(frames: &Vec<SpriteFrame>) -> (r: Vec<SpriteFrame>)
    ensures
        r@.len() == frames@.len(),
        forall|k: int| 0 <= k < frames@.len() ==> same_frame(#[trigger] frames@[k], r@[k]),
{
    let mut r: Vec<SpriteFrame> = Vec::new();
    let mut i: usize = 0;
    while i < frames.len()
        invariant
            i <= frames@.len(),
            r@.len() == i,
            forall|k: int| 0 <= k < i ==> same_frame(#[trigger] frames@[k], r@[k]),
        decreases frames@.len() - i,
    {
        r.push(SpriteFrame { input_filename: to_owned(frames[i].input_filename.as_str()), data: copy_data(&frames[i].data) });
        i = i + 1;
    }
    r
}

fn copy_entries(entries: &Vec<CatalogueEntry>) -> (r: Vec<CatalogueEntry>)
    ensures
        r@.len() == entries@.len(),
        forall|k: int| 0 <= k < entries@.len() ==> same_entry(#[trigger] entries@[k], r@[k]),
{
    let mut r: Vec<CatalogueEntry> = Vec::new();
    let mut i: usize = 0;
    while i < entries.len()
        invariant
            i <= entries@.len(),
            r@.len() == i,
            forall|k: int| 0 <= k < i ==> same_entry(#[trigger] entries@[k], r@[k]),
        decreases entries@.len() - i,
    {
        r.push(CatalogueEntry {
            name: to_owned(entries[i].name.as_str()),
            classifier: to_owned(entries[i].classifier.as_str()),
            description: to_owned(entries[i].description.as_str()),
        });
        i = i + 1;
    }
    r
}

impl CreaturesFile {
    /// A copy of the file.
    pub fn copy(&self) -> (r: CreaturesFile)
        ensures
            same_file(*self, r),
    {
        match self {
            CreaturesFile::Script(s) => CreaturesFile::Script(ScriptFile {
                filetype: s.filetype,
                output_filename: to_owned(s.output_filename.as_str()),
                input_filename: to_owned(s.input_filename.as_str()),
                data: copy_data(&s.data),
            }),
            CreaturesFile::Sprite(sprite) => CreaturesFile::Sprite(match sprite {
                Sprite::Raw { filetype, output_filename, input_filename, data } => Sprite::Raw {
                    filetype: *filetype,
                    output_filename: to_owned(output_filename.as_str()),
                    input_filename: to_owned(input_filename.as_str()),
                    data: copy_data(data),
                },
                Sprite::Png { filetype, output_filename, input_filename, frames, data } => Sprite::Png {
                    filetype: *filetype,
                    output_filename: to_owned(output_filename.as_str()),
                    input_filename: to_owned(input_filename.as_str()),
                    frames: copy_frames(frames),
                    data: copy_data(data),
                },
            }),
            CreaturesFile::Sound(s) => CreaturesFile::Sound(Sound {
                output_filename: to_owned(s.output_filename.as_str()),
                input_filename: to_owned(s.input_filename.as_str()),
                data: copy_data(&s.data),
            }),
            CreaturesFile::Catalogue(c) => CreaturesFile::Catalogue(match c {
                Catalogue::Raw { filetype, output_filename, input_filename, data } => Catalogue::Raw {
                    filetype: *filetype,
                    output_filename: to_owned(output_filename.as_str()),
                    input_filename: to_owned(input_filename.as_str()),
                    data: copy_data(data),
                },
                Catalogue::Inline { filetype, output_filename, entries, data } => Catalogue::Inline {
                    filetype: *filetype,
                    output_filename: to_owned(output_filename.as_str()),
                    entries: copy_entries(entries),
                    data: copy_data(data),
                },
            }),
            CreaturesFile::BodyData(b) => CreaturesFile::BodyData(BodyData {
                filetype: b.filetype,
                output_filename: to_owned(b.output_filename.as_str()),
                input_filename: to_owned(b.input_filename.as_str()),
                data: copy_data(&b.data),
            }),
            CreaturesFile::Genetics(g) => CreaturesFile::Genetics(Genetics {
                filetype: g.filetype,
                output_filename: to_owned(g.output_filename.as_str()),
                input_filename: to_owned(g.input_filename.as_str()),
                data: copy_data(&g.data),
            }),
        }
    }
}

/// Whether some tag lists the file at `i`, by its kind.
pub open spec fn used_by(tags: Seq<Tag>, f: CreaturesFile, i: int) -> bool {
    exists|t: int| 0 <= t < tags.len() && (file_list(#[trigger] tags[t], filetype_of(f)) matches Some(l) && l.contains(i as usize))
}

/// The places of the first `k` files that some tag lists, in order.
pub open spec fn used_places(tags: Seq<Tag>, files: Seq<CreaturesFile>, k: nat) -> Seq<int>
    decreases k,
{
    if k == 0 {
        Seq::empty()
    } else {
        used_places(tags, files, (k - 1) as nat) + if used_by(tags, files[k - 1], k - 1) {
            seq![k - 1]
        } else {
            Seq::empty()
        }
    }
}

/// Copies of the files that some tag lists, in order.
pub fn only_used_files(tags: &Vec<Tag>, files: &Vec<CreaturesFile>) -> (r: Vec<CreaturesFile>)
    ensures
        ({
            let places = used_places(tags@, files@, files@.len());
            &&& r@.len() == places.len()
            &&& forall|k: int| 0 <= k < r@.len() ==> same_file(files@[#[trigger] places[k]], r@[k])
        }),
{
    let mut used_files: Vec<CreaturesFile> = Vec::new();
    let mut i: usize = 0;
    while i < files.len()
        invariant
            i <= files@.len(),
            ({
                let places = used_places(tags@, files@, i as nat);
                &&& used_files@.len() == places.len()
                &&& forall|k: int| 0 <= k < places.len() ==> 0 <= #[trigger] places[k] < i
                &&& forall|k: int| 0 <= k < used_files@.len() ==> same_file(files@[#[trigger] places[k]], used_files@[k])
            }),
        decreases files@.len() - i,
    {
        let file = &files[i];
        let ft = file.get_filetype();
        let mut is_used = false;
        let mut t: usize = 0;
        while t < tags.len()
            invariant
                t <= tags@.len(),
                i < files@.len(),
                ft == filetype_of(files@[i as int]),
                is_used == exists|u: int| 0 <= u < t && (file_list(#[trigger] tags@[u], ft) matches Some(l) && l.contains(i)),
            decreases tags@.len() - t,
        {
            if tags[t].has_file(&ft, i) {
                is_used = true;
            }
            t = t + 1;
        }
        assert(is_used == used_by(tags@, files@[i as int], i as int));
        let ghost before = used_files@;
        if is_used {
            used_files.push(file.copy());
        }
        proof {
            let places = used_places(tags@, files@, (i + 1) as nat);
            let p0 = used_places(tags@, files@, i as nat);
            assert forall|k: int| 0 <= k < used_files@.len() implies same_file(files@[#[trigger] places[k]], used_files@[k]) by {
                if k < p0.len() {
                    assert(places[k] == p0[k]);
                    assert(used_files@[k] == before[k]);
                }
            }
        }
        i = i + 1;
    }
    used_files
}

/// The first of the listed places that holds a file other than a background.
pub open spec fn first_non_background(places: Seq<usize>, files: Seq<CreaturesFile>) -> Option<usize>
    decreases places.len(),
{
    if places.len() == 0 {
        None
    } else if places[0] < files.len() && or_empty(path_extension(output_filename(files[places[0] as int]))) != "blk"@ {
        Some(places[0])
    } else {
        first_non_background(places.drop_first(), files)
    }
}

/// The first of the listed places that holds a file other than a background.
pub fn first_non_background_in(places: &Vec<usize>, files: &[CreaturesFile]) -> (r: Option<usize>)
    ensures
        r == first_non_background(places@, files@),
{
    let mut i: usize = 0;
    assert(places@.skip(0) =~= places@);
    while i < places.len()
        invariant
            i <= places@.len(),
            first_non_background(places@, files@) == first_non_background(places@.skip(i as int), files@),
        decreases places@.len() - i,
    {
        let p = places[i];
        assert(places@.skip(i as int)[0] == p);
        assert(places@.skip(i as int).drop_first() =~= places@.skip(i + 1));
        if p < files.len() {
            let e = files[p].get_extension();
            if !str_eq(e.as_str(), "blk") {
                return Some(p);
            }
        }
        i = i + 1;
    }
    None
}

} // verus!
