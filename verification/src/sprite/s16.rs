//! S16 files: a pixel format, a count of images, a header for each image (where its
//! pixels start, its width and height), then the images' 16-bit pixels.
use vstd::prelude::*;
use crate::buffer::{ByteReader, seq_le_u16, seq_le_u32};
use crate::error::Error;
use super::{Image, ImageView, Rgba, color_555, color_565, images_view, parse_pixel_555, parse_pixel_565};

verus! {

/// The image headers read from `s`, at most `count`: where each image's pixels start,
/// its width and its height. A header that does not fit is left out, and so is every
/// one after it.
pub open spec fn s16_image_headers(s: Seq<u8>, count: nat) -> Seq<(u32, u16, u16)>
    decreases count,
{
    if count == 0 || s.len() < 8 {
        Seq::empty()
    } else {
        seq![(seq_le_u32(s), seq_le_u16(s.skip(4)), seq_le_u16(s.skip(6)))] + s16_image_headers(s.skip(8), (count - 1) as nat)
    }
}

/// The color of an S16 pixel: 5-5-5 where the pixel format is 2, 5-6-5 otherwise; black
/// is transparent.
pub open spec fn s16_color(pixel_format: u32, pixel: u16) -> Rgba {
    let c = if pixel_format == 2 { color_555(pixel) } else { color_565(pixel) };
    if c.r == 0 && c.g == 0 && c.b == 0 {
        Rgba { a: 0, ..c }
    } else {
        c
    }
}

/// The image that a header describes: its pixels, two bytes each, from where the header
/// says they start; `None` where the data ends before them.
pub open spec fn s16_image(contents: Seq<u8>, h: (u32, u16, u16), pixel_format: u32) -> Option<ImageView> {
    let n = h.1 as int * h.2 as int;
    if h.0 as int + 2 * n <= contents.len() {
        Some(ImageView {
            width: h.1 as u32,
            height: h.2 as u32,
            pixels: Seq::new(n as nat, |i: int| s16_color(pixel_format, seq_le_u16(contents.skip(h.0 as int + 2 * i)))),
        })
    } else {
        None
    }
}

/// The images that the headers describe, or `None` where one of them is cut short.
pub open spec fn s16_images(contents: Seq<u8>, hs: Seq<(u32, u16, u16)>, pixel_format: u32) -> Option<Seq<ImageView>>
    decreases hs.len(),
{
    if hs.len() == 0 {
        Some(Seq::empty())
    } else {
        match (s16_images(contents, hs.drop_last(), pixel_format), s16_image(contents, hs.last(), pixel_format)) {
            (Some(v), Some(img)) => Some(v.push(img)),
            _ => None,
        }
    }
}

/// The image headers of an S16 file.
pub open spec fn s16_headers_of(contents: Seq<u8>) -> Seq<(u32, u16, u16)> {
    s16_image_headers(contents.skip(6), seq_le_u16(contents.skip(4)) as nat)
}

/// Decoding an S16 file: its images, or an error where the data is too short for the
/// file header or an image's pixels.
pub open spec fn spec_s16_decode(contents: Seq<u8>) -> Result<Seq<ImageView>, Error> {
    if contents.len() < 6 {
        Err(Error::InvalidSprite)
    } else {
        match s16_images(contents, s16_headers_of(contents), seq_le_u32(contents)) {
            Some(v) => Ok(v),
            None => Err(Error::InvalidSprite),
        }
    }
}

/// Whether every image of an S16 file starts within the data (reading one that starts
/// beyond it stops the program).
pub open spec fn s16_offsets_fit(contents: Seq<u8>) -> bool {
    contents.len() < 6 || forall|i: int| 0 <= i < s16_headers_of(contents).len() ==> #[trigger] s16_headers_of(contents)[i].0 <= contents.len()
}

fn read_image_data(contents: &[u8], offset: u32, width: u16, height: u16, pixel_format: u32) -> (r: Result<Image, Error>)
    requires
        offset <= contents@.len(),
    ensures
        match r {
            Ok(img) => s16_image(contents@, (offset, width, height), pixel_format) == Some(img@),
            Err(e) => s16_image(contents@, (offset, width, height), pixel_format) is None && e == Error::InvalidSprite,
        },
{
    let mut buffer = ByteReader::new(contents);
    buffer.advance(offset as usize);
    assert((width as int) * (height as int) <= 65535 * 65535) by (nonlinear_arith)
        requires
            width <= 65535,
            height <= 65535,
    ;
    let n: usize = (width as usize) * (height as usize);
    let ghost pixels_spec = Seq::new(n as nat, |i: int| s16_color(pixel_format, seq_le_u16(contents@.skip(offset as int + 2 * i))));
    let mut pixels: Vec<Rgba> = Vec::new();
    let mut i: usize = 0;
    while i < n
        invariant
            i <= n,
            n == (width as int) * (height as int),
            offset <= contents@.len(),
            pixels_spec == Seq::new(n as nat, |i: int| s16_color(pixel_format, seq_le_u16(contents@.skip(offset as int + 2 * i)))),
            offset as int + 2 * i <= contents@.len(),
            buffer@ == contents@.skip(offset as int + 2 * i),
            pixels@ == pixels_spec.take(i as int),
        decreases n - i,
    {
        if buffer.len() < 2 {
            return Err(Error::InvalidSprite);
        }
        let ghost before = buffer@;
        let ghost base = offset as int + 2 * i;
        let pixel_data = buffer.get_u16_le();
        let mut color = if pixel_format == 2 { parse_pixel_555(pixel_data) } else { parse_pixel_565(pixel_data) };
        if color.r == 0 && color.g == 0 && color.b == 0 {
            color.a = 0;
        }
        assert(color == pixels_spec[i as int]);
        pixels.push(color);
        assert(pixels@ =~= pixels_spec.take(i + 1));
        assert(buffer@ =~= contents@.skip(base + 2));
        i = i + 1;
    }
    assert(pixels_spec.take(n as int) =~= pixels_spec);
    Ok(Image { width: width as u32, height: height as u32, pixels })
}

/// The triples of three equally long lists.
pub open spec fn zipped3(a: Seq<u32>, b: Seq<u16>, c: Seq<u16>) -> Seq<(u32, u16, u16)> {
    Seq::new(a.len(), |j: int| (a[j], b[j], c[j]))
}

/// Reads an S16 file's pixel format and image headers (where each image starts, its
/// width, its height); `None` where the data is too short for the file header.
fn read_headers(contents: &[u8]) -> (r: Option<(u32, Vec<u32>, Vec<u16>, Vec<u16>)>)
    ensures
        match r {
            Some((pixel_format, offsets, widths, heights)) => contents@.len() >= 6
                && pixel_format == seq_le_u32(contents@)
                && offsets@.len() == widths@.len() == heights@.len()
                && zipped3(offsets@, widths@, heights@) == s16_headers_of(contents@),
            None => contents@.len() < 6,
        },
{
    let mut buffer = ByteReader::new(contents);
    if buffer.len() < 6 {
        return None;
    }
    let pixel_format = buffer.get_u32_le();
    let image_count = buffer.get_u16_le();
    let ghost hs = s16_headers_of(contents@);
    let mut offsets: Vec<u32> = Vec::new();
    let mut widths: Vec<u16> = Vec::new();
    let mut heights: Vec<u16> = Vec::new();
    let mut k: u16 = 0;
    assert(contents@.skip(4).skip(2) =~= contents@.skip(6));
    assert(buffer@ =~= contents@.skip(6));
    while k < image_count
        invariant
            k <= image_count,
            hs == s16_headers_of(contents@),
            image_count == seq_le_u16(contents@.skip(4)),
            offsets@.len() == widths@.len() == heights@.len(),
            hs == zipped3(offsets@, widths@, heights@) + s16_image_headers(buffer@, (image_count - k) as nat),
        decreases image_count - k,
    {
        if buffer.len() >= 8 {
            let ghost before = buffer@;
            let offset = buffer.get_u32_le();
            let width = buffer.get_u16_le();
            let height = buffer.get_u16_le();
            assert(before.skip(4)[0] == before[4] && before.skip(4)[1] == before[5]);
            assert(before.skip(4).skip(2) =~= before.skip(6));
            assert(before.skip(6).skip(2) =~= before.skip(8));
            assert(buffer@ =~= before.skip(8));
            let ghost prefix = zipped3(offsets@, widths@, heights@);
            offsets.push(offset);
            widths.push(width);
            heights.push(height);
            assert(zipped3(offsets@, widths@, heights@) =~= prefix.push((offset, width, height)));
            assert(s16_image_headers(before, (image_count - k) as nat) =~= seq![(offset, width, height)] + s16_image_headers(buffer@, (image_count - k - 1) as nat));
            assert(prefix + s16_image_headers(before, (image_count - k) as nat) =~= prefix.push((offset, width, height)) + s16_image_headers(buffer@, (image_count - k - 1) as nat));
        } else {
            assert(s16_image_headers(buffer@, (image_count - k) as nat) =~= Seq::<(u32, u16, u16)>::empty());
            assert(s16_image_headers(buffer@, (image_count - k - 1) as nat) =~= Seq::<(u32, u16, u16)>::empty());
        }
        k = k + 1;
    }
    assert(s16_image_headers(buffer@, 0) =~= Seq::<(u32, u16, u16)>::empty());
    assert(hs =~= zipped3(offsets@, widths@, heights@));
    Some((pixel_format, offsets, widths, heights))
}

/// Whether every image of an S16 file starts within the data, so that it can be
/// decoded.
pub fn offsets_fit(contents: &[u8]) -> (r: bool)
    ensures
        r == s16_offsets_fit(contents@),
{
    match read_headers(contents) {
        None => true,
        Some((_pixel_format, offsets, _widths, _heights)) => {
            let ghost hs = s16_headers_of(contents@);
            let mut j: usize = 0;
            while j < offsets.len()
                invariant
                    j <= offsets@.len() == hs.len(),
                    contents@.len() >= 6,
                    hs == s16_headers_of(contents@),
                    forall|m: int| 0 <= m < hs.len() ==> #[trigger] hs[m].0 == offsets@[m],
                    forall|m: int| 0 <= m < j ==> #[trigger] hs[m].0 <= contents@.len(),
                decreases offsets@.len() - j,
            {
                if offsets[j] as usize > contents.len() {
                    assert(hs[j as int].0 > contents@.len());
                    return false;
                }
                j = j + 1;
            }
            true
        },
    }
}

/// Decodes an S16 file into its images.
pub fn decode(contents: &[u8]) -> (r: Result<Vec<Image>, Error>)
    requires
        s16_offsets_fit(contents@),
    ensures
        match r {
            Ok(v) => spec_s16_decode(contents@) == Ok::<Seq<ImageView>, Error>(images_view(v@)),
            Err(e) => spec_s16_decode(contents@) == Err::<Seq<ImageView>, Error>(e),
        },
{
    let (pixel_format, offsets, widths, heights) = match read_headers(contents) {
        Some(h) => h,
        None => return Err(Error::InvalidSprite),
    };
    let ghost hs = s16_headers_of(contents@);
    let mut frames: Vec<Image> = Vec::new();
    let mut j: usize = 0;
    while j < offsets.len()
        invariant
            j <= offsets@.len() == widths@.len() == heights@.len() == hs.len(),
            hs == zipped3(offsets@, widths@, heights@),
            s16_offsets_fit(contents@),
            contents@.len() >= 6,
            hs == s16_headers_of(contents@),
            pixel_format == seq_le_u32(contents@),
            s16_images(contents@, hs.take(j as int), pixel_format) == Some(images_view(frames@)),
        decreases offsets@.len() - j,
    {
        assert(hs[j as int].0 <= contents@.len());
        assert(hs.take(j + 1).drop_last() =~= hs.take(j as int));
        assert(hs.take(j + 1).last() == hs[j as int]);
        let image = match read_image_data(contents, offsets[j], widths[j], heights[j], pixel_format) {
            Ok(image) => image,
            Err(e) => {
                assert(s16_images(contents@, hs.take(j + 1), pixel_format) is None);
                assert(forall|m: int| j + 1 <= m <= hs.len() ==> s16_images(contents@, #[trigger] hs.take(m), pixel_format) is None) by {
                    assert forall|m: int| j + 1 <= m <= hs.len() implies s16_images(contents@, #[trigger] hs.take(m), pixel_format) is None by {
                        lemma_images_none_after(contents@, hs, pixel_format, j + 1, m);
                    }
                }
                assert(hs.take(hs.len() as int) =~= hs);
                return Err(e);
            },
        };
        let ghost fv = images_view(frames@);
        frames.push(image);
        assert(images_view(frames@) =~= fv.push(image@));
        j = j + 1;
    }
    assert(hs.take(j as int) =~= hs);
    Ok(frames)
}

proof fn lemma_images_none_after(contents: Seq<u8>, hs: Seq<(u32, u16, u16)>, pixel_format: u32, a: int, b: int)
    requires
        0 <= a <= b <= hs.len(),
        s16_images(contents, hs.take(a), pixel_format) is None,
    ensures
        s16_images(contents, hs.take(b), pixel_format) is None,
    decreases b - a,
{
    if a < b {
        assert(hs.take(a + 1).drop_last() =~= hs.take(a));
        lemma_images_none_after(contents, hs, pixel_format, a + 1, b);
    }
}


/// Whether a 16-bit S16 pixel is black in the pixel format: all of its fifteen color
/// bits clear for 5-5-5 (format 2), all sixteen for 5-6-5.
pub open spec fn s16_pixel_is_black(pixel_format: u32, pixel: u16) -> bool {
    if pixel_format == 2 { pixel % 32768 == 0 } else { pixel == 0 }
}

/// An S16 pixel decodes to its 5-5-5 (format 2) or 5-6-5 color, made transparent
/// (alpha 0) exactly where that color is black; every other pixel is opaque (alpha 255).
pub proof fn lemma_s16_pixel_alpha(pixel_format: u32, pixel: u16)
    ensures
        ({
            let c = s16_color(pixel_format, pixel);
            let base = if pixel_format == 2 { color_555(pixel) } else { color_565(pixel) };
            &&& c.r == base.r && c.g == base.g && c.b == base.b
            &&& c.a == if s16_pixel_is_black(pixel_format, pixel) { 0u8 } else { 255u8 }
        }),
{
    let p = pixel;
    assert(((p / 1024) % 32 == 0 && (p / 32) % 32 == 0 && p % 32 == 0) <==> p % 32768 == 0) by (bit_vector);
    assert(((p / 2048) % 32 == 0 && (p / 32) % 64 == 0 && p % 32 == 0) <==> p == 0) by (bit_vector);
    assert(((p / 1024) % 32) * 8 <= 248 && ((p / 32) % 32) * 8 <= 248 && (p % 32) * 8 <= 248) by (nonlinear_arith);
    assert(((p / 2048) % 32) * 8 <= 248 && ((p / 32) % 64) * 4 <= 252) by (nonlinear_arith);
}

/// Every pixel of an image decoded from S16 data is the color of the two bytes at its
/// place, transparent exactly where that color is black and opaque otherwise.
pub proof fn lemma_s16_image_alpha(contents: Seq<u8>, h: (u32, u16, u16), pixel_format: u32)
    ensures
        s16_image(contents, h, pixel_format) matches Some(img) ==> forall|i: int| 0 <= i < img.pixels.len() ==> {
            let p = seq_le_u16(contents.skip(h.0 as int + 2 * i));
            #[trigger] img.pixels[i].a == if s16_pixel_is_black(pixel_format, p) { 0u8 } else { 255u8 }
        },
{
    if let Some(img) = s16_image(contents, h, pixel_format) {
        assert forall|i: int| 0 <= i < img.pixels.len() implies {
            let p = seq_le_u16(contents.skip(h.0 as int + 2 * i));
            #[trigger] img.pixels[i].a == if s16_pixel_is_black(pixel_format, p) { 0u8 } else { 255u8 }
        } by {
            lemma_s16_pixel_alpha(pixel_format, seq_le_u16(contents.skip(h.0 as int + 2 * i)));
        }
    }
}

} // verus!
