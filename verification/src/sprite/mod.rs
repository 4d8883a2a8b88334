//! Sprites: the 16-bit images of S16, BLK and C16 files, turned into RGBA images.
use vstd::prelude::*;
use crate::error::Error;

pub mod s16;
pub mod blk;
pub mod c16;
pub mod png;

verus! {

/// A color with red, green, blue and alpha channels.
#[derive(Clone, Copy, PartialEq, Eq, Structural, Debug)]
pub struct Rgba {
    pub r: u8,
    pub g: u8,
    pub b: u8,
    pub a: u8,
}

/// An image: its width, its height, and its pixels row by row.
pub struct Image {
    pub width: u32,
    pub height: u32,
    pub pixels: Vec<Rgba>,
}

/// An image's value.
pub struct ImageView {
    pub width: u32,
    pub height: u32,
    pub pixels: Seq<Rgba>,
}

impl View for Image {
    type V = ImageView;

    open spec fn view(&self) -> ImageView {
        ImageView { width: self.width, height: self.height, pixels: self.pixels@ }
    }
}

/// The values of images.
pub open spec fn images_view(v: Seq<Image>) -> Seq<ImageView> {
    Seq::new(v.len(), |i: int| v[i]@)
}

/// The error of sprite data that cannot be read.
pub fn image_error() -> (r: Error)
    ensures
        r == Error::InvalidSprite,
{
    Error::InvalidSprite
}

/// The color of a 5-5-5 pixel: five bits each of red, green and blue, from the top,
/// each scaled to eight bits; opaque.
pub open spec fn color_555(pixel: u16) -> Rgba {
    Rgba {
        r: (((pixel as int / 1024) % 32) * 8) as u8,
        g: (((pixel as int / 32) % 32) * 8) as u8,
        b: ((pixel as int % 32) * 8) as u8,
        a: 255,
    }
}

/// The color of a 5-6-5 pixel: five bits of red, six of green and five of blue, from
/// the top, each scaled to eight bits; opaque.
pub open spec fn color_565(pixel: u16) -> Rgba {
    Rgba {
        r: (((pixel as int / 2048) % 32) * 8) as u8,
        g: (((pixel as int / 32) % 64) * 4) as u8,
        b: ((pixel as int % 32) * 8) as u8,
        a: 255,
    }
}

/// The color of a 5-5-5 pixel.
pub fn parse_pixel_555(pixel: u16) -> (c: Rgba)
    ensures
        c == color_555(pixel),
{
    let r = ((pixel & 0x7c00) >> 7) as u8;
    let g = ((pixel & 0x03e0) >> 2) as u8;
    let b = ((pixel & 0x001f) << 3) as u8;
    assert(((pixel & 0x7c00) >> 7) as u8 == (((pixel / 1024) % 32) * 8) as u8) by (bit_vector);
    assert(((pixel & 0x03e0) >> 2) as u8 == (((pixel / 32) % 32) * 8) as u8) by (bit_vector);
    assert(((pixel & 0x001f) << 3) as u8 == ((pixel % 32) * 8) as u8) by (bit_vector);
    Rgba { r, g, b, a: 255 }
}

/// The color of a 5-6-5 pixel.
pub fn parse_pixel_565(pixel: u16) -> (c: Rgba)
    ensures
        c == color_565(pixel),
{
    let r = ((pixel & 0xf800) >> 8) as u8;
    let g = ((pixel & 0x07e0) >> 3) as u8;
    let b = ((pixel & 0x001f) << 3) as u8;
    assert(((pixel & 0xf800) >> 8) as u8 == (((pixel / 2048) % 32) * 8) as u8) by (bit_vector);
    assert(((pixel & 0x07e0) >> 3) as u8 == (((pixel / 32) % 64) * 4) as u8) by (bit_vector);
    assert(((pixel & 0x001f) << 3) as u8 == ((pixel % 32) * 8) as u8) by (bit_vector);
    Rgba { r, g, b, a: 255 }
}

} // verus!
