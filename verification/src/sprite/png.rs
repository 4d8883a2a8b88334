//! PNG files of RGBA images, written by the `image` crate.
use vstd::prelude::*;
use super::{Image, ImageView, Rgba};

verus! {

/// The PNG file that the `image` crate writes for an RGBA image `width` pixels wide and
/// `height` pixels high whose bytes are `pixels` (red, green, blue and alpha of each
/// pixel, row by row); `None` where the bytes do not make such an image or the encoder
/// reports an error.
pub uninterp spec fn png_encoded(width: u32, height: u32, pixels: Seq<u8>) -> Option<Seq<u8>>;

/// Makes an `image::RgbaImage` with `ImageBuffer::from_raw` and writes it with
/// `write_to` in the PNG format into a `Vec`. Claims: the result is
/// `png_encoded(width, height, pixels)`.
#[verifier::external_body]
pub(crate) fn png_encode(width: u32, height: u32, pixels: &[u8]) -> (r: Option<Vec<u8>>)
    ensures
        match r {
            Some(v) => png_encoded(width, height, pixels@) == Some(v@),
            None => png_encoded(width, height, pixels@) is None,
        },
{
    let image = image::RgbaImage::from_raw(width, height, pixels.to_vec())?;
    let mut out = std::io::Cursor::new(Vec::new());
    match image.write_to(&mut out, image::ImageOutputFormat::Png) {
        Ok(()) => Some(out.into_inner()),
        Err(_) => None,
    }
}

/// The image that the `image` crate reads out of `data`, its format guessed from the
/// first bytes, as RGBA: its width, its height and the bytes of its pixels; `None` where
/// no format is recognised or the decoder reports an error.
pub uninterp spec fn image_decoded(data: Seq<u8>) -> Option<(u32, u32, Seq<u8>)>;

/// Reads an image out of `data` with `image::io::Reader::new`, `with_guessed_format`
/// and `decode`, and turns it into RGBA with `into_rgba8`. Claims: the result is
/// `image_decoded(data)`, `None` standing for an error of any of the calls.
#[verifier::external_body]
pub(crate) fn decode_image(data: &[u8]) -> (r: Option<(u32, u32, Vec<u8>)>)
    ensures
        match r {
            Some(t) => image_decoded(data@) == Some((t.0, t.1, t.2@)),
            None => image_decoded(data@) is None,
        },
{
    let reader = image::io::Reader::new(std::io::Cursor::new(data)).with_guessed_format().ok()?;
    let image = reader.decode().ok()?.into_rgba8();
    Some((image.width(), image.height(), image.into_raw()))
}

/// The bytes of pixels: red, green, blue and alpha of each, in order.
pub open spec fn rgba_bytes(pixels: Seq<Rgba>) -> Seq<u8>
    decreases pixels.len(),
{
    if pixels.len() == 0 {
        Seq::empty()
    } else {
        let p = pixels.last();
        rgba_bytes(pixels.drop_last()) + seq![p.r, p.g, p.b, p.a]
    }
}

/// The PNG file of an image.
pub open spec fn image_png(img: ImageView) -> Option<Seq<u8>> {
    png_encoded(img.width, img.height, rgba_bytes(img.pixels))
}

/// Writes an image as a PNG file; `None` where the encoder reports an error.
pub fn encode_png(img: &Image) -> (r: Option<Vec<u8>>)
    ensures
        match r {
            Some(v) => image_png(img@) == Some(v@),
            None => image_png(img@) is None,
        },
{
    let mut bytes: Vec<u8> = Vec::new();
    let mut i: usize = 0;
    while i < img.pixels.len()
        invariant
            i <= img.pixels@.len(),
            bytes@ == rgba_bytes(img.pixels@.take(i as int)),
        decreases img.pixels@.len() - i,
    {
        let p = img.pixels[i];
        bytes.push(p.r);
        bytes.push(p.g);
        bytes.push(p.b);
        bytes.push(p.a);
        assert(img.pixels@.take(i + 1).drop_last() =~= img.pixels@.take(i as int));
        i = i + 1;
        assert(bytes@ =~= rgba_bytes(img.pixels@.take(i as int)));
    }
    assert(img.pixels@.take(i as int) =~= img.pixels@);
    png_encode(img.width, img.height, bytes.as_slice())
}

} // verus!
