//! File blocks: a block named by a file, holding the file's data.
use vstd::prelude::*;
use crate::agent::file::{CreaturesFile, ScriptFile, FileType, output_filename, input_filename, filetype_of, file_data};
use crate::agent::sprite::{Sprite, SpriteFrame, decoded_sprite, png_frames, frames_are};
use crate::file_helper::path_file_stem;
use crate::text::str_replaced;
use crate::agent::sound::Sound;
use crate::agent::catalogue::Catalogue;
use crate::agent::bodydata::BodyData;
use crate::agent::genetics::Genetics;
use crate::buffer::put_slice;
use crate::error::Error;
use crate::file_helper::{extension, filename, or_empty, path_extension, path_file_name};
use crate::text::{str_eq, to_owned, push_str};
use super::helper::{write_block_header, compiled_header_bytes};

verus! {

/// The message of the error for a file without data.
pub open spec fn missing_data_message(name: Seq<char>) -> Seq<char> {
    "Unable to find data for file "@ + name + "."@
}

/// The message of the error for a file block whose name has an unknown extension.
pub open spec fn unknown_file_message(name: Seq<char>) -> Seq<char> {
    "File block "@ + name + " is not a valid creatures file type."@
}

/// The kind of file that a file block's extension stands for.
pub open spec fn block_file_type(ext: Seq<char>) -> Option<FileType> {
    if ext == "cos"@ {
        Some(FileType::Script)
    } else if ext == "c16"@ || ext == "s16"@ || ext == "blk"@ {
        Some(FileType::Sprite)
    } else if ext == "wav"@ {
        Some(FileType::Sound)
    } else if ext == "catalogue"@ {
        Some(FileType::Catalogue)
    } else if ext == "att"@ {
        Some(FileType::BodyData)
    } else if ext == "gen"@ || ext == "gno"@ {
        Some(FileType::Genetics)
    } else {
        None
    }
}

/// Whether a file is kept as its data, not made of frames or entries.
pub open spec fn is_raw_file(f: CreaturesFile) -> bool {
    match f {
        CreaturesFile::Sprite(s) => s is Raw,
        CreaturesFile::Catalogue(c) => c is Raw,
        _ => true,
    }
}

/// Writes a file's block: a `FILE` block named by the file, holding its data; an error
/// where the file has no data.
pub fn write_file_block(file: &CreaturesFile) -> (r: Result<Vec<u8>, Error>)
    ensures
        match file_data(*file) {
            Some(d) => r matches Ok(b) && b@ == compiled_header_bytes("FILE"@, output_filename(*file),
                #[verifier::truncate] ((d.len() as usize) as u32)) + d,
            None => r matches Err(Error::Other(m)) && m@ == missing_data_message(output_filename(*file)),
        },
{
    let filename = file.get_output_filename();
    match file.get_data() {
        Some(data) => {
            let size = #[verifier::truncate] (data.len() as u32);
            let mut buffer = write_block_header("FILE", filename.as_str(), size);
            put_slice(&mut buffer, data.as_slice());
            Ok(buffer)
        },
        None => {
            let mut m = to_owned("Unable to find data for file ");
            push_str(&mut m, filename.as_str());
            push_str(&mut m, ".");
            Err(Error::Other(m))
        },
    }
}

/// The PNG frames (name and data) of the sprite file `name` holding `data`: its images
/// decoded and written as PNG files (see `Sprite::new_from_data`); `None` where the data
/// cannot be decoded or a frame cannot be written.
pub open spec fn sprite_read(name: Seq<char>, data: Seq<u8>) -> Option<Seq<(Seq<char>, Seq<u8>)>> {
    let ext = or_empty(path_extension(name));
    match decoded_sprite(ext, data) {
        Some(images) => png_frames(or_empty(path_file_stem(name)), images, ext != "blk"@),
        None => None,
    }
}

/// Whether `f` is the sprite file of a PNG frame named `name` holding `data`, kept as
/// its data.
pub open spec fn is_frame_file(f: CreaturesFile, name: Seq<char>, data: Seq<u8>) -> bool {
    f matches CreaturesFile::Sprite(Sprite::Raw { filetype, output_filename, input_filename, data: Some(d) })
        && filetype == FileType::Sprite && output_filename@ == or_empty(path_file_name(name))
        && input_filename@ == name && d@ == data
}

/// Whether `f` is the sprite of the file `name` holding `data`, made of the PNG frames
/// `fs` (see `Sprite::new_from_data`).
pub open spec fn is_framed_sprite(f: CreaturesFile, name: Seq<char>, data: Seq<u8>, fs: Seq<(Seq<char>, Seq<u8>)>) -> bool {
    let ext = or_empty(path_extension(name));
    f matches CreaturesFile::Sprite(Sprite::Png { filetype, output_filename, input_filename, frames, data: Some(d) })
        && filetype == FileType::Sprite && output_filename@ == or_empty(path_file_name(name))
        && input_filename@ == str_replaced(name, "."@ + ext, ".png"@) && frames_are(frames@, fs) && d@ == data
}

/// Whether `files` are the files read from the file block `name` holding `data`: for a
/// sprite, each of its PNG frames as a file of its own where sprites are converted,
/// else the sprite made of them; for another kind of file, the one file kept as its
/// data.
pub open spec fn files_of_block(files: Seq<CreaturesFile>, name: Seq<char>, data: Seq<u8>, convert: bool) -> bool {
    let ft = block_file_type(or_empty(path_extension(name)));
    if ft == Some(FileType::Sprite) {
        match sprite_read(name, data) {
            Some(fs) => if convert {
                files.len() == fs.len() && forall|k: int| 0 <= k < files.len() ==> is_frame_file(#[trigger] files[k], fs[k].0, fs[k].1)
            } else {
                files.len() == 1 && is_framed_sprite(files[0], name, data, fs)
            },
            None => false,
        }
    } else {
        &&& files.len() == 1
        &&& ft == Some(filetype_of(files[0]))
        &&& is_raw_file(files[0])
        &&& output_filename(files[0]) == or_empty(path_file_name(name))
        &&& input_filename(files[0]) == name
        &&& file_data(files[0]) == Some(data)
    }
}

/// How many files a file block gives: one, or one for each PNG frame of a sprite where
/// sprites are converted.
pub open spec fn block_file_count(name: Seq<char>, data: Seq<u8>, convert: bool) -> nat {
    if convert && block_file_type(or_empty(path_extension(name))) == Some(FileType::Sprite) && sprite_read(name, data) is Some {
        sprite_read(name, data)->Some_0.len()
    } else {
        1
    }
}

/// Whether `files` are the files read from the file blocks listed (name and data), in
/// order.
pub open spec fn files_of_blocks(list: Seq<(Seq<char>, Seq<u8>)>, files: Seq<CreaturesFile>, convert: bool) -> bool
    decreases list.len(),
{
    if list.len() == 0 {
        files.len() == 0
    } else {
        let b = list.last();
        let n = block_file_count(b.0, b.1, convert);
        &&& files.len() >= n
        &&& files_of_block(files.skip(files.len() - n), b.0, b.1, convert)
        &&& files_of_blocks(list.drop_last(), files.take(files.len() - n), convert)
    }
}

proof fn lemma_sprite_extensions()
    ensures
        "c16"@ != "cos"@ && "s16"@ != "cos"@ && "blk"@ != "cos"@,
        "c16"@ != "png"@ && "s16"@ != "png"@ && "blk"@ != "png"@,
        "c16"@ != "blk"@ && "s16"@ != "blk"@ && "c16"@ != "s16"@,
{
    reveal_strlit("c16");
    reveal_strlit("s16");
    reveal_strlit("blk");
    reveal_strlit("png");
    reveal_strlit("cos");
    assert("c16"@[1] != "cos"@[1] && "s16"@[0] != "cos"@[0] && "blk"@[0] != "cos"@[0]);
    assert("c16"@[0] != "png"@[0] && "s16"@[0] != "png"@[0] && "blk"@[0] != "png"@[0]);
    assert("c16"@[0] != "blk"@[0] && "s16"@[0] != "blk"@[0] && "c16"@[0] != "s16"@[0]);
}

/// Reads a file block: the files that its name and data make (see `files_of_block`); an
/// error where the name's extension is not that of a file an agent carries, or a
/// sprite's data cannot be decoded or its frames written.
pub fn read_file_block(contents: &[u8], block_name: &String, convert_sprites_to_pngs: bool) -> (r: Result<Vec<CreaturesFile>, Error>)
    ensures
        match block_file_type(or_empty(path_extension(block_name@))) {
            Some(ft) => if ft == FileType::Sprite && sprite_read(block_name@, contents@) is None {
                r matches Err(e) && e == Error::InvalidSprite
            } else {
                r matches Ok(v) && files_of_block(v@, block_name@, contents@, convert_sprites_to_pngs)
                    && v@.len() == block_file_count(block_name@, contents@, convert_sprites_to_pngs)
            },
            None => r matches Err(Error::Other(m)) && m@ == unknown_file_message(block_name@),
        },
{
    let e = extension(block_name.as_str());
    let e = e.as_str();
    proof {
        lemma_sprite_extensions();
    }
    if str_eq(e, "c16") || str_eq(e, "s16") || str_eq(e, "blk") {
        assert(block_file_type(e@) == Some(FileType::Sprite));
        assert(e@ != "png"@);
        let sprite = match Sprite::new_from_data(block_name, contents) {
            Ok(s) => s,
            Err(err) => return Err(err),
        };
        let mut files: Vec<CreaturesFile> = Vec::new();
        if convert_sprites_to_pngs {
            if let Sprite::Png { frames, .. } = sprite {
                let ghost fs = sprite_read(block_name@, contents@)->Some_0;
                let mut k: usize = 0;
                while k < frames.len()
                    invariant
                        k <= frames@.len(),
                        frames_are(frames@, fs),
                        files@.len() == k,
                        forall|m: int| 0 <= m < k ==> is_frame_file(#[trigger] files@[m], fs[m].0, fs[m].1),
                    decreases frames@.len() - k,
                {
                    let frame = &frames[k];
                    assert(frame.input_filename@ == fs[k as int].0);
                    if let Some(d) = &frame.data {
                        let mut data: Vec<u8> = Vec::new();
                        put_slice(&mut data, d.as_slice());
                        files.push(CreaturesFile::Sprite(Sprite::Raw {
                            filetype: FileType::Sprite,
                            output_filename: filename(frame.input_filename.as_str()),
                            input_filename: to_owned(frame.input_filename.as_str()),
                            data: Some(data),
                        }));
                    }
                    k = k + 1;
                }
            }
            assert(files_of_block(files@, block_name@, contents@, true));
        } else {
            files.push(CreaturesFile::Sprite(sprite));
        }
        return Ok(files);
    }
    let file = if str_eq(e, "cos") {
        match ScriptFile::new_from_data(block_name, contents) {
            Ok(s) => CreaturesFile::Script(s),
            Err(err) => return Err(err),
        }
    } else if str_eq(e, "wav") {
        match Sound::new_from_data(block_name, contents) {
            Ok(s) => CreaturesFile::Sound(s),
            Err(err) => return Err(err),
        }
    } else if str_eq(e, "catalogue") {
        match Catalogue::new_from_data(block_name, contents) {
            Ok(c) => CreaturesFile::Catalogue(c),
            Err(err) => return Err(err),
        }
    } else if str_eq(e, "att") {
        match BodyData::new_from_data(block_name, contents) {
            Ok(b) => CreaturesFile::BodyData(b),
            Err(err) => return Err(err),
        }
    } else if str_eq(e, "gen") || str_eq(e, "gno") {
        match Genetics::new_from_data(block_name, contents) {
            Ok(g) => CreaturesFile::Genetics(g),
            Err(err) => return Err(err),
        }
    } else {
        let mut m = to_owned("File block ");
        push_str(&mut m, block_name.as_str());
        push_str(&mut m, " is not a valid creatures file type.");
        return Err(Error::Other(m));
    };
    let mut files: Vec<CreaturesFile> = Vec::new();
    files.push(file);
    Ok(files)
}

} // verus!
