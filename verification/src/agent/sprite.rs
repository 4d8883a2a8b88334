//! Sprites that agents carry: a sprite file as it is, or one to be made of PNG frames.
use vstd::prelude::*;
use crate::error::Error;
use crate::file_helper::{filename, title, or_empty, path_extension, path_file_name, path_file_stem};
use crate::text::{decimal, decimal_string, replace_text, str_replaced};
use crate::sprite::{Image, ImageView, images_view};
use crate::sprite::png::{encode_png, image_png, decode_image, image_decoded};
use crate::sprite::c16::{c16_readable, spec_c16_decode};
use crate::sprite::s16::{s16_offsets_fit, spec_s16_decode};
use crate::sprite::blk::{blk_readable, spec_blk_decode};
use crate::text::{str_eq, to_owned, push_str};
use crate::buffer::put_slice;
use crate::reorder::{moved_up, moved_down, move_up_in, move_down_in};
use super::file::FileType;

verus! {

/// A sprite: a file taken as it is, or one made of PNG frames.
pub enum Sprite {
    Raw { filetype: FileType, output_filename: String, input_filename: String, data: Option<Vec<u8>> },
    Png {
        filetype: FileType,
        output_filename: String,
        input_filename: String,
        frames: Vec<SpriteFrame>,
        data: Option<Vec<u8>>,
    },
}

/// A PNG frame of a sprite, and its data once read.
pub struct SpriteFrame {
    pub input_filename: String,
    pub data: Option<Vec<u8>>,
}

/// Whether a frame of the list is read from `name`.
pub open spec fn has_frame(frames: Seq<SpriteFrame>, name: Seq<char>) -> bool {
    exists|i: int| 0 <= i < frames.len() && (#[trigger] frames[i]).input_filename@ == name
}

/// The frames of a sprite made of frames.
pub open spec fn sprite_frames(s: Sprite) -> Option<Seq<SpriteFrame>> {
    match s {
        Sprite::Png { frames, .. } => Some(frames@),
        Sprite::Raw { .. } => None,
    }
}

/// Whether two sprites agree but for their frames.
pub open spec fn same_but_frames(a: Sprite, b: Sprite) -> bool {
    match (a, b) {
        (
            Sprite::Png { filetype: f1, output_filename: o1, input_filename: i1, data: d1, .. },
            Sprite::Png { filetype: f2, output_filename: o2, input_filename: i2, data: d2, .. },
        ) => f1 == f2 && o1 == o2 && i1 == i2 && d1 == d2,
        (Sprite::Raw { .. }, Sprite::Raw { .. }) => a == b,
        _ => false,
    }
}

fn frame_listed(frames: &Vec<SpriteFrame>, name: &str) -> (r: bool)
    ensures
        r == has_frame(frames@, name@),
{
    let mut i: usize = 0;
    while i < frames.len()
        invariant
            i <= frames@.len(),
            forall|j: int| 0 <= j < i ==> (#[trigger] frames@[j]).input_filename@ != name@,
        decreases frames@.len() - i,
    {
        if str_eq(frames[i].input_filename.as_str(), name) {
            return true;
        }
        i = i + 1;
    }
    false
}

impl Sprite {
    /// The sprite in the file `input_filename`, taken as it is, with the given data.
    pub fn new_from_data_raw(input_filename: &String, data: &[u8]) -> (r: Result<Sprite, Error>)
        ensures
            r matches Ok(Sprite::Raw { filetype, output_filename, input_filename: i, data: Some(d) })
                && filetype == FileType::Sprite && output_filename@ == or_empty(path_file_name(input_filename@))
                && i@ == input_filename@ && d@ == data@,
    {
        let mut d: Vec<u8> = Vec::new();
        put_slice(&mut d, data);
        Ok(Sprite::Raw {
            filetype: FileType::Sprite,
            output_filename: filename(input_filename.as_str()),
            input_filename: to_owned(input_filename.as_str()),
            data: Some(d),
        })
    }

    /// Adds a frame to a sprite made of frames, unless a frame is already read from the
    /// same file, or the sprite is a background that already has its one frame; gives
    /// whether it was added.
    pub fn add_frame(&mut self, new_frame: SpriteFrame) -> (r: bool)
        ensures
            match *old(self) {
                Sprite::Png { output_filename, frames, .. } => {
                    let may = (or_empty(path_extension(output_filename@)) != "blk"@ || frames@.len() == 0)
                        && !has_frame(frames@, new_frame.input_filename@);
                    &&& r == may
                    &&& same_but_frames(*old(self), *final(self))
                    &&& sprite_frames(*final(self)) == Some(if may { frames@.push(new_frame) } else { frames@ })
                },
                Sprite::Raw { .. } => !r && *final(self) == *old(self),
            },
    {
        if let Sprite::Png { output_filename, frames, .. } = self {
            if !str_eq(crate::file_helper::extension(output_filename.as_str()).as_str(), "blk") || frames.len() == 0 {
                if !frame_listed(frames, new_frame.input_filename.as_str()) {
                    frames.push(new_frame);
                    return true;
                }
            }
        }
        false
    }

    /// Removes the frame at `index`; gives whether there was one.
    pub fn remove_frame(&mut self, index: usize) -> (r: bool)
        ensures
            match *old(self) {
                Sprite::Png { frames, .. } => {
                    &&& r == (index < frames@.len())
                    &&& same_but_frames(*old(self), *final(self))
                    &&& sprite_frames(*final(self)) == Some(if r { frames@.remove(index as int) } else { frames@ })
                },
                Sprite::Raw { .. } => !r && *final(self) == *old(self),
            },
    {
        if let Sprite::Png { frames, .. } = self {
            if index < frames.len() {
                frames.remove(index);
                return true;
            }
        }
        false
    }

    /// Moves the frame at `index` one place up; gives whether it moved.
    pub fn move_frame_up(&mut self, index: usize) -> (r: bool)
        ensures
            match *old(self) {
                Sprite::Png { frames, .. } => {
                    &&& r == (0 < index < frames@.len())
                    &&& same_but_frames(*old(self), *final(self))
                    &&& sprite_frames(*final(self)) == Some(moved_up(frames@, index as int))
                },
                Sprite::Raw { .. } => !r && *final(self) == *old(self),
            },
    {
        if let Sprite::Png { frames, .. } = self {
            if index > 0 && index < frames.len() {
                move_up_in(frames, index);
                return true;
            }
        }
        false
    }

    /// Moves the frame at `index` one place down; gives whether it moved.
    pub fn move_frame_down(&mut self, index: usize) -> (r: bool)
        ensures
            match *old(self) {
                Sprite::Png { frames, .. } => {
                    &&& r == (index + 1 < frames@.len())
                    &&& same_but_frames(*old(self), *final(self))
                    &&& sprite_frames(*final(self)) == Some(moved_down(frames@, index as int))
                },
                Sprite::Raw { .. } => !r && *final(self) == *old(self),
            },
    {
        if let Sprite::Png { frames, .. } = self {
            if index < frames.len() && index + 1 < frames.len() {
                move_down_in(frames, index);
                return true;
            }
        }
        false
    }

    /// The name the sprite is written under.
    pub fn get_output_filename(&self) -> (r: String)
        ensures
            r@ == match *self {
                Sprite::Raw { output_filename, .. } => output_filename@,
                Sprite::Png { output_filename, .. } => output_filename@,
            },
    {
        match self {
            Sprite::Raw { output_filename, .. } => to_owned(output_filename.as_str()),
            Sprite::Png { output_filename, .. } => to_owned(output_filename.as_str()),
        }
    }
}

impl SpriteFrame {
    /// The frame in the PNG file `input_filename` with the given data; an error where the
    /// file is not a PNG.
    pub fn new_from_data(input_filename: &String, data: &[u8]) -> (r: Result<SpriteFrame, Error>)
        ensures
            if or_empty(path_extension(input_filename@)) == "png"@ {
                r matches Ok(f) && f.input_filename@ == input_filename@ && (match f.data { Some(d) => d@ == data@, None => false })
            } else {
                r matches Err(Error::Other(m))
                    && m@ == "File "@ + input_filename@ + " has an unrecognized file type. Sprite frame must be a PNG."@
            },
    {
        if str_eq(crate::file_helper::extension(input_filename.as_str()).as_str(), "png") {
            let mut d: Vec<u8> = Vec::new();
            put_slice(&mut d, data);
            Ok(SpriteFrame { input_filename: to_owned(input_filename.as_str()), data: Some(d) })
        } else {
            let mut m = to_owned("File ");
            push_str(&mut m, input_filename.as_str());
            push_str(&mut m, " has an unrecognized file type. Sprite frame must be a PNG.");
            Err(Error::Other(m))
        }
    }
}

/// The name of frame `k` (counting from 0) of a sprite titled `title`: `title-k+1.png`
/// where the frames are numbered, else `title.png`.
pub open spec fn frame_name(title: Seq<char>, k: nat, numbered: bool) -> Seq<char> {
    if numbered {
        title + "-"@ + decimal(k + 1) + ".png"@
    } else {
        title + ".png"@
    }
}

/// The PNG frames of images: each frame's name and its PNG file; `None` where one of
/// them cannot be written.
pub open spec fn png_frames(title: Seq<char>, images: Seq<ImageView>, numbered: bool) -> Option<Seq<(Seq<char>, Seq<u8>)>>
    decreases images.len(),
{
    if images.len() == 0 {
        Some(Seq::empty())
    } else {
        match (png_frames(title, images.drop_last(), numbered), image_png(images.last())) {
            (Some(v), Some(d)) => Some(v.push((frame_name(title, (images.len() - 1) as nat, numbered), d))),
            _ => None,
        }
    }
}

/// Whether the frames are read from the given names and hold the given data.
pub open spec fn frames_are(frames: Seq<SpriteFrame>, fs: Seq<(Seq<char>, Seq<u8>)>) -> bool {
    &&& frames.len() == fs.len()
    &&& forall|k: int| 0 <= k < frames.len() ==> (#[trigger] frames[k]).input_filename@ == fs[k].0
        && (match frames[k].data { Some(d) => d@ == fs[k].1, None => false })
}

/// The images in sprite data with the extension `ext`: all images of a C16 or S16
/// file, the first frame of a BLK file; `None` where the data cannot be decoded (for
/// C16 and S16, also where it is too short for its headers or an image's pixels; for
/// BLK, where it has no frame).
pub open spec fn decoded_sprite(ext: Seq<char>, data: Seq<u8>) -> Option<Seq<ImageView>> {
    if ext == "c16"@ {
        if c16_readable(data) && spec_c16_decode(data) is Some {
            let decoded = spec_c16_decode(data)->Some_0;
            Some(decoded.2)
        } else {
            None
        }
    } else if ext == "s16"@ {
        if s16_offsets_fit(data) && spec_s16_decode(data) is Ok { Some(spec_s16_decode(data)->Ok_0) } else { None }
    } else {
        if blk_readable(data) && spec_blk_decode(data) is Ok && spec_blk_decode(data)->Ok_0.len() > 0 {
            Some(seq![spec_blk_decode(data)->Ok_0[0]])
        } else {
            None
        }
    }
}

proof fn lemma_png_frames_none_after(title: Seq<char>, images: Seq<ImageView>, numbered: bool, a: int, b: int)
    requires
        0 <= a <= b <= images.len(),
        png_frames(title, images.take(a), numbered) is None,
    ensures
        png_frames(title, images.take(b), numbered) is None,
    decreases b - a,
{
    if a < b {
        assert(images.take(a + 1).drop_last() =~= images.take(a));
        lemma_png_frames_none_after(title, images, numbered, a + 1, b);
    }
}

/// The PNG frames of images, named after `title`; `None` where one cannot be written.
fn png_frame_list(title_text: &str, images: &Vec<Image>, numbered: bool) -> (r: Option<Vec<SpriteFrame>>)
    ensures
        match r {
            Some(f) => png_frames(title_text@, images_view(images@), numbered) matches Some(fs) && frames_are(f@, fs),
            None => png_frames(title_text@, images_view(images@), numbered) is None,
        },
{
    let ghost iv = images_view(images@);
    let ghost mut fs: Seq<(Seq<char>, Seq<u8>)> = Seq::empty();
    let mut frames: Vec<SpriteFrame> = Vec::new();
    let mut k: usize = 0;
    assert(iv.take(0) =~= Seq::<ImageView>::empty());
    while k < images.len()
        invariant
            k <= images@.len(),
            iv == images_view(images@),
            png_frames(title_text@, iv.take(k as int), numbered) == Some(fs),
            frames_are(frames@, fs),
        decreases images@.len() - k,
    {
        assert(iv.take(k + 1).drop_last() =~= iv.take(k as int));
        assert(iv.take(k + 1).last() == images@[k as int]@);
        let png = match encode_png(&images[k]) {
            Some(png) => png,
            None => {
                proof {
                    lemma_png_frames_none_after(title_text@, iv, numbered, k + 1, iv.len() as int);
                    assert(iv.take(iv.len() as int) =~= iv);
                }
                return None;
            },
        };
        let mut name = to_owned(title_text);
        if numbered {
            push_str(&mut name, "-");
            let digits = decimal_string((k + 1) as u64);
            push_str(&mut name, digits.as_str());
        }
        push_str(&mut name, ".png");
        let ghost entry = (name@, png@);
        assert(entry.0 == frame_name(title_text@, k as nat, numbered));
        frames.push(SpriteFrame { input_filename: name, data: Some(png) });
        proof {
            fs = fs.push(entry);
        }
        k = k + 1;
    }
    assert(iv.take(k as int) =~= iv);
    Some(frames)
}

impl Sprite {
    /// The sprite in the file `input_filename` with the given data. A C16, S16 or BLK
    /// file is decoded and made into PNG frames named after the file's title
    /// (`title-1.png`, `title-2.png`, ... for C16 and S16; `title.png`, of the first
    /// frame, for BLK), keeping the data; its input name is the file's with `.png` in
    /// place of the extension. A PNG file that the `image` crate can read becomes the one
    /// frame of a C16 sprite with its title, whose C16 data is not made. Data that cannot
    /// be decoded, or a frame that cannot be written, gives the error of invalid sprite
    /// data; another extension gives an error naming the file.
    pub fn new_from_data(input_filename: &String, data: &[u8]) -> (r: Result<Sprite, Error>)
        ensures
            ({
                let ext = or_empty(path_extension(input_filename@));
                let t = or_empty(path_file_stem(input_filename@));
                if ext == "c16"@ || ext == "s16"@ || ext == "blk"@ {
                    match decoded_sprite(ext, data@) {
                        Some(images) => match png_frames(t, images, ext != "blk"@) {
                            Some(fs) => r matches Ok(Sprite::Png { filetype, output_filename, input_filename: i, frames, data: Some(d) })
                                && filetype == FileType::Sprite
                                && output_filename@ == or_empty(path_file_name(input_filename@))
                                && i@ == str_replaced(input_filename@, "."@ + ext, ".png"@)
                                && frames_are(frames@, fs) && d@ == data@,
                            None => r matches Err(Error::InvalidSprite),
                        },
                        None => r matches Err(Error::InvalidSprite),
                    }
                } else if ext == "png"@ {
                    if image_decoded(data@) is None {
                        r matches Err(Error::InvalidSprite)
                    } else {
                    r matches Ok(Sprite::Png { filetype, output_filename, input_filename: i, frames, data: None })
                        && filetype == FileType::Sprite && output_filename@ == t + ".c16"@ && i@ == input_filename@
                        && frames_are(frames@, seq![(input_filename@, data@)])
                    }
                } else {
                    r matches Err(Error::Other(m)) && m@ == "Image "@ + input_filename@ + " is not a valid creatures image file."@
                }
            }),
    {
        let ext = crate::file_helper::extension(input_filename.as_str());
        let t = title(input_filename.as_str());
        let e = ext.as_str();
        proof {
            reveal_strlit("c16");
            reveal_strlit("s16");
            reveal_strlit("blk");
        }
        if str_eq(e, "c16") || str_eq(e, "s16") || str_eq(e, "blk") {
            let numbered = !str_eq(e, "blk");
            let images: Vec<Image> = if str_eq(e, "c16") {
                match crate::sprite::c16::decode_checked(data) {
                    Some(Some((_pixel_format, _count, images))) => images,
                    _ => return Err(Error::InvalidSprite),
                }
            } else if str_eq(e, "s16") {
                if !crate::sprite::s16::offsets_fit(data) {
                    return Err(Error::InvalidSprite);
                }
                match crate::sprite::s16::decode(data) {
                    Ok(images) => images,
                    Err(_) => return Err(Error::InvalidSprite),
                }
            } else {
                if !crate::sprite::blk::readable(data) {
                    return Err(Error::InvalidSprite);
                }
                match crate::sprite::blk::decode(data) {
                    Ok(mut frames) => {
                        if frames.len() == 0 {
                            return Err(Error::InvalidSprite);
                        }
                        let ghost all = images_view(frames@);
                        frames.truncate(1);
                        assert(images_view(frames@) =~= seq![all[0]]);
                        frames
                    },
                    Err(_) => return Err(Error::InvalidSprite),
                }
            };
            let frames = match png_frame_list(t.as_str(), &images, numbered) {
                Some(f) => f,
                None => return Err(Error::InvalidSprite),
            };
            let mut from = to_owned(".");
            push_str(&mut from, e);
            let input = replace_text(input_filename.as_str(), from.as_str(), ".png");
            let mut d: Vec<u8> = Vec::new();
            put_slice(&mut d, data);
            Ok(Sprite::Png {
                filetype: FileType::Sprite,
                output_filename: filename(input_filename.as_str()),
                input_filename: input,
                frames,
                data: Some(d),
            })
        } else if str_eq(e, "png") {
            if decode_image(data).is_none() {
                return Err(Error::InvalidSprite);
            }
            let mut out = to_owned(t.as_str());
            push_str(&mut out, ".c16");
            let mut d: Vec<u8> = Vec::new();
            put_slice(&mut d, data);
            let mut frames: Vec<SpriteFrame> = Vec::new();
            frames.push(SpriteFrame { input_filename: to_owned(input_filename.as_str()), data: Some(d) });
            Ok(Sprite::Png {
                filetype: FileType::Sprite,
                output_filename: out,
                input_filename: to_owned(input_filename.as_str()),
                frames,
                data: None,
            })
        } else {
            let mut m = to_owned("Image ");
            push_str(&mut m, input_filename.as_str());
            push_str(&mut m, " is not a valid creatures image file.");
            Err(Error::Other(m))
        }
    }
}

} // verus!
