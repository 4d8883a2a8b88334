//! BLK files: background images, a pixel format, the numbers of columns and rows of
//! 128 by 128 pixel frames, a count of frames, a header for each frame (where its pixels
//! start, counted from after the pixel format, its width and height), then the frames'
//! 16-bit pixels.
use vstd::prelude::*;
use crate::buffer::{ByteReader, seq_le_u16, seq_le_u32};
use crate::error::Error;
use super::{Image, ImageView, Rgba, color_555, color_565, images_view, parse_pixel_555, parse_pixel_565};

verus! {

/// The frame headers read from `s`, at most `count`: the stored start of each frame's
/// pixels, its width and its height. A header that does not fit is left out, and so is
/// every one after it.
pub open spec fn blk_raw_headers(s: Seq<u8>, count: nat) -> Seq<(u32, u16, u16)>
    decreases count,
{
    if count == 0 || s.len() < 8 {
        Seq::empty()
    } else {
        seq![(seq_le_u32(s), seq_le_u16(s.skip(4)), seq_le_u16(s.skip(6)))] + blk_raw_headers(s.skip(8), (count - 1) as nat)
    }
}

/// The frame headers of a BLK file.
pub open spec fn blk_headers_of(contents: Seq<u8>) -> Seq<(u32, u16, u16)> {
    blk_raw_headers(contents.skip(10), seq_le_u16(contents.skip(8)) as nat)
}

/// The color of a BLK pixel: 5-5-5 where the pixel format is 2, 5-6-5 otherwise.
pub open spec fn blk_color(pixel_format: u32, pixel: u16) -> Rgba {
    if pixel_format == 2 {
        color_555(pixel)
    } else {
        color_565(pixel)
    }
}

/// The 128 by 128 pixel frame whose pixels start at `offset`; `None` where the data ends
/// before them.
pub open spec fn blk_frame(contents: Seq<u8>, offset: int, pixel_format: u32) -> Option<ImageView> {
    if offset + 2 * 16384 <= contents.len() {
        Some(ImageView {
            width: 128,
            height: 128,
            pixels: Seq::new(16384, |i: int| blk_color(pixel_format, seq_le_u16(contents.skip(offset + 2 * i)))),
        })
    } else {
        None
    }
}

/// The frames that the headers describe, leaving out those not 128 by 128 pixels; `None`
/// where one of them is cut short.
pub open spec fn blk_frames(contents: Seq<u8>, hs: Seq<(u32, u16, u16)>, pixel_format: u32) -> Option<Seq<ImageView>>
    decreases hs.len(),
{
    if hs.len() == 0 {
        Some(Seq::empty())
    } else {
        let h = hs.last();
        match blk_frames(contents, hs.drop_last(), pixel_format) {
            Some(v) => if h.1 == 128 && h.2 == 128 {
                match blk_frame(contents, h.0 + 4, pixel_format) {
                    Some(f) => Some(v.push(f)),
                    None => None,
                }
            } else {
                Some(v)
            },
            None => None,
        }
    }
}

/// Decoding a BLK file: its frames, or an error where the data is too short for the
/// file header or a frame's pixels.
pub open spec fn spec_blk_decode(contents: Seq<u8>) -> Result<Seq<ImageView>, Error> {
    if contents.len() < 6 {
        Err(Error::InvalidSprite)
    } else {
        match blk_frames(contents, blk_headers_of(contents), seq_le_u32(contents)) {
            Some(v) => Ok(v),
            None => Err(Error::InvalidSprite),
        }
    }
}

/// Whether a BLK file can be read without stopping the program: its file header is
/// either cut before six bytes or whole, no stored frame start is within four of the
/// largest 32-bit number, and every 128 by 128 pixel frame starts within the data.
pub open spec fn blk_readable(contents: Seq<u8>) -> bool {
    contents.len() < 6 || (contents.len() >= 10 && forall|i: int|
        0 <= i < blk_headers_of(contents).len() ==> {
            let h = #[trigger] blk_headers_of(contents)[i];
            h.0 + 4 <= u32::MAX && ((h.1 == 128 && h.2 == 128) ==> h.0 + 4 <= contents.len())
        })
}

/// The triples of three equally long lists.
pub open spec fn zipped3(a: Seq<u32>, b: Seq<u16>, c: Seq<u16>) -> Seq<(u32, u16, u16)> {
    Seq::new(a.len(), |j: int| (a[j], b[j], c[j]))
}

fn read_headers(contents: &[u8]) -> (r: Option<(u32, Vec<u32>, Vec<u16>, Vec<u16>)>)
    requires
        !(6 <= contents@.len() < 10),
    ensures
        match r {
            Some((pixel_format, offsets, widths, heights)) => contents@.len() >= 10
                && pixel_format == seq_le_u32(contents@)
                && offsets@.len() == widths@.len() == heights@.len()
                && zipped3(offsets@, widths@, heights@) == blk_headers_of(contents@),
            None => contents@.len() < 6,
        },
{
    let mut buffer = ByteReader::new(contents);
    if buffer.len() < 6 {
        return None;
    }
    let pixel_format = buffer.get_u32_le();
    let _cols = buffer.get_u16_le();
    let _rows = buffer.get_u16_le();
    let image_count = buffer.get_u16_le();
    let ghost hs = blk_headers_of(contents@);
    let mut offsets: Vec<u32> = Vec::new();
    let mut widths: Vec<u16> = Vec::new();
    let mut heights: Vec<u16> = Vec::new();
    let mut k: u16 = 0;
    assert(contents@.skip(4).skip(2) =~= contents@.skip(6));
    assert(contents@.skip(6).skip(2) =~= contents@.skip(8));
    assert(contents@.skip(8).skip(2) =~= contents@.skip(10));
    assert(buffer@ =~= contents@.skip(10));
    while k < image_count
        invariant
            k <= image_count,
            hs == blk_headers_of(contents@),
            image_count == seq_le_u16(contents@.skip(8)),
            offsets@.len() == widths@.len() == heights@.len(),
            hs == zipped3(offsets@, widths@, heights@) + blk_raw_headers(buffer@, (image_count - k) as nat),
        decreases image_count - k,
    {
        if buffer.len() >= 8 {
            let ghost before = buffer@;
            let offset = buffer.get_u32_le();
            let width = buffer.get_u16_le();
            let height = buffer.get_u16_le();
            assert(before.skip(4)[0] == before[4] && before.skip(4)[1] == before[5]);
            assert(before.skip(4).skip(2) =~= before.skip(6));
            assert(before.skip(6).skip(2) =~= before.skip(8));
            assert(buffer@ =~= before.skip(8));
            let ghost prefix = zipped3(offsets@, widths@, heights@);
            offsets.push(offset);
            widths.push(width);
            heights.push(height);
            assert(zipped3(offsets@, widths@, heights@) =~= prefix.push((offset, width, height)));
            assert(blk_raw_headers(before, (image_count - k) as nat) =~= seq![(offset, width, height)] + blk_raw_headers(buffer@, (image_count - k - 1) as nat));
            assert(prefix + blk_raw_headers(before, (image_count - k) as nat) =~= prefix.push((offset, width, height)) + blk_raw_headers(buffer@, (image_count - k - 1) as nat));
        } else {
            assert(blk_raw_headers(buffer@, (image_count - k) as nat) =~= Seq::<(u32, u16, u16)>::empty());
            assert(blk_raw_headers(buffer@, (image_count - k - 1) as nat) =~= Seq::<(u32, u16, u16)>::empty());
        }
        k = k + 1;
    }
    assert(blk_raw_headers(buffer@, 0) =~= Seq::<(u32, u16, u16)>::empty());
    assert(hs =~= zipped3(offsets@, widths@, heights@));
    Some((pixel_format, offsets, widths, heights))
}

/// Whether a BLK file can be read without stopping the program.
pub fn readable(contents: &[u8]) -> (r: bool)
    ensures
        r == blk_readable(contents@),
{
    if 6 <= contents.len() && contents.len() < 10 {
        return false;
    }
    match read_headers(contents) {
        None => true,
        Some((_pixel_format, offsets, widths, heights)) => {
            let ghost hs = blk_headers_of(contents@);
            let mut j: usize = 0;
            while j < offsets.len()
                invariant
                    j <= offsets@.len() == widths@.len() == heights@.len() == hs.len(),
                    contents@.len() >= 10,
                    hs == blk_headers_of(contents@),
                    hs == zipped3(offsets@, widths@, heights@),
                    forall|m: int| 0 <= m < j ==> {
                        let h = #[trigger] hs[m];
                        h.0 + 4 <= u32::MAX && ((h.1 == 128 && h.2 == 128) ==> h.0 + 4 <= contents@.len())
                    },
                decreases offsets@.len() - j,
            {
                assert(hs[j as int] == (offsets@[j as int], widths@[j as int], heights@[j as int]));
                if offsets[j] > 0xffff_fffb {
                    return false;
                }
                if widths[j] == 128 && heights[j] == 128 && (offsets[j] + 4) as usize > contents.len() {
                    return false;
                }
                j = j + 1;
            }
            true
        },
    }
}

fn read_image_data(contents: &[u8], offset: u32, pixel_format: u32) -> (r: Result<Image, Error>)
    requires
        offset <= contents@.len(),
    ensures
        match r {
            Ok(img) => blk_frame(contents@, offset as int, pixel_format) == Some(img@),
            Err(e) => blk_frame(contents@, offset as int, pixel_format) is None && e == Error::InvalidSprite,
        },
{
    let mut buffer = ByteReader::new(contents);
    buffer.advance(offset as usize);
    let n: usize = 16384;
    let ghost pixels_spec = Seq::new(16384, |i: int| blk_color(pixel_format, seq_le_u16(contents@.skip(offset as int + 2 * i))));
    let mut pixels: Vec<Rgba> = Vec::new();
    let mut i: usize = 0;
    while i < n
        invariant
            i <= n == 16384,
            offset <= contents@.len(),
            pixels_spec == Seq::new(16384, |i: int| blk_color(pixel_format, seq_le_u16(contents@.skip(offset as int + 2 * i)))),
            offset as int + 2 * i <= contents@.len(),
            buffer@ == contents@.skip(offset as int + 2 * i),
            pixels@ == pixels_spec.take(i as int),
        decreases n - i,
    {
        if buffer.len() < 2 {
            return Err(Error::InvalidSprite);
        }
        let ghost base = offset as int + 2 * i;
        let pixel_data = buffer.get_u16_le();
        let color = if pixel_format == 2 { parse_pixel_555(pixel_data) } else { parse_pixel_565(pixel_data) };
        assert(color == pixels_spec[i as int]);
        pixels.push(color);
        assert(pixels@ =~= pixels_spec.take(i + 1));
        assert(buffer@ =~= contents@.skip(base + 2));
        i = i + 1;
    }
    assert(pixels_spec.take(16384) =~= pixels_spec);
    Ok(Image { width: 128, height: 128, pixels })
}

/// Decodes a BLK file into its 128 by 128 pixel frames; headers of frames of another
/// size are passed over.
pub fn decode(contents: &[u8]) -> (r: Result<Vec<Image>, Error>)
    requires
        blk_readable(contents@),
    ensures
        match r {
            Ok(v) => spec_blk_decode(contents@) == Ok::<Seq<ImageView>, Error>(images_view(v@)),
            Err(e) => spec_blk_decode(contents@) == Err::<Seq<ImageView>, Error>(e),
        },
{
    let (pixel_format, offsets, widths, heights) = match read_headers(contents) {
        Some(h) => h,
        None => return Err(Error::InvalidSprite),
    };
    let ghost hs = blk_headers_of(contents@);
    let mut frames: Vec<Image> = Vec::new();
    let mut j: usize = 0;
    while j < offsets.len()
        invariant
            j <= offsets@.len() == widths@.len() == heights@.len() == hs.len(),
            hs == zipped3(offsets@, widths@, heights@),
            blk_readable(contents@),
            contents@.len() >= 10,
            hs == blk_headers_of(contents@),
            pixel_format == seq_le_u32(contents@),
            blk_frames(contents@, hs.take(j as int), pixel_format) == Some(images_view(frames@)),
        decreases offsets@.len() - j,
    {
        assert(hs[j as int] == (offsets@[j as int], widths@[j as int], heights@[j as int]));
        assert(hs.take(j + 1).drop_last() =~= hs.take(j as int));
        assert(hs.take(j + 1).last() == hs[j as int]);
        let offset = offsets[j];
        if widths[j] == 128 && heights[j] == 128 {
            let image = match read_image_data(contents, offset + 4, pixel_format) {
                Ok(image) => image,
                Err(e) => {
                    assert(blk_frames(contents@, hs.take(j + 1), pixel_format) is None);
                    assert forall|m: int| j + 1 <= m <= hs.len() implies blk_frames(contents@, #[trigger] hs.take(m), pixel_format) is None by {
                        lemma_frames_none_after(contents@, hs, pixel_format, j + 1, m);
                    }
                    assert(hs.take(hs.len() as int) =~= hs);
                    return Err(e);
                },
            };
            let ghost fv = images_view(frames@);
            frames.push(image);
            assert(images_view(frames@) =~= fv.push(image@));
        }
        j = j + 1;
    }
    assert(hs.take(j as int) =~= hs);
    Ok(frames)
}

proof fn lemma_frames_none_after(contents: Seq<u8>, hs: Seq<(u32, u16, u16)>, pixel_format: u32, a: int, b: int)
    requires
        0 <= a <= b <= hs.len(),
        blk_frames(contents, hs.take(a), pixel_format) is None,
    ensures
        blk_frames(contents, hs.take(b), pixel_format) is None,
    decreases b - a,
{
    if a < b {
        assert(hs.take(a + 1).drop_last() =~= hs.take(a));
        lemma_frames_none_after(contents, hs, pixel_format, a + 1, b);
    }
}

} // verus!
