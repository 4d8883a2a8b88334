//! C16 files: a pixel format, a count of images, a header for each image (where each
//! of its lines starts, its width and height), then the lines: runs of transparent
//! pixels and runs of 16-bit colors.
use vstd::prelude::*;
use crate::buffer::le_u16;
use crate::buffer::le_u32;
use super::{Image, ImageView, Rgba, color_555, color_565, images_view, parse_pixel_555, parse_pixel_565};

verus! {

/// The two little-endian bytes of `c` at `pos`.
pub open spec fn u16_at(c: Seq<u8>, pos: int) -> u16 {
    le_u16(c[pos], c[pos + 1])
}

/// The four little-endian bytes of `c` at `pos`.
pub open spec fn u32_at(c: Seq<u8>, pos: int) -> u32 {
    le_u32(c[pos], c[pos + 1], c[pos + 2], c[pos + 3])
}

/// An image header's value: where each of the image's lines starts, its width, its
/// height.
pub struct C16Header {
    pub line_offsets: Seq<u32>,
    pub width: u16,
    pub height: u16,
}

/// The image header at `pos` in `c`, and where the next one starts: after the first
/// line's offset, the width and the height come the other lines' offsets, four bytes
/// each. `None` where those do not fit in the data, or the height is 0; the next header
/// then starts right after the height.
pub open spec fn c16_header_at(c: Seq<u8>, pos: int) -> (Option<C16Header>, int) {
    let height = u16_at(c, pos + 6);
    let rest = pos + 8;
    if height >= 1 && c.len() - rest >= (height - 1) * 4 {
        (Some(C16Header {
            line_offsets: Seq::new(height as nat, |i: int| if i == 0 { u32_at(c, pos) } else { u32_at(c, rest + 4 * (i - 1)) }),
            width: u16_at(c, pos + 4),
            height,
        }), rest + (height - 1) * 4)
    } else {
        (None, rest)
    }
}

/// The image headers of `count` images whose headers start at `pos` in `c`. A header
/// that cannot be read is left out; where fewer than eight bytes are left, nothing more
/// is read. `None` where a header's height is over 16384: the size of its line offsets
/// then overflows 16 bits, which stops the program.
pub open spec fn c16_headers(c: Seq<u8>, pos: int, count: nat) -> Option<Seq<C16Header>>
    decreases count,
{
    if count == 0 || c.len() - pos < 8 {
        Some(Seq::empty())
    } else if u16_at(c, pos + 6) > 16384 {
        None
    } else {
        let (h, next) = c16_header_at(c, pos);
        match c16_headers(c, next, (count - 1) as nat) {
            Some(hs) => Some(
                match h {
                    Some(h) => seq![h] + hs,
                    None => hs,
                },
            ),
            None => None,
        }
    }
}

/// The color of a C16 pixel: 5-5-5 where the pixel format is 2, 5-6-5 otherwise.
pub open spec fn c16_color(pixel_format: u32, pixel: u16) -> Rgba {
    if pixel_format == 2 {
        color_555(pixel)
    } else {
        color_565(pixel)
    }
}

/// A transparent pixel.
pub open spec fn clear_pixel() -> Rgba {
    Rgba { r: 0, g: 0, b: 0, a: 0 }
}

/// `n` transparent pixels.
pub open spec fn clear_run(n: int) -> Seq<Rgba> {
    Seq::new(n as nat, |i: int| clear_pixel())
}

/// The pixels of a row from column `x` to its end at `width`, read from the runs that
/// start at `pos` in `c`. Each run starts with two bytes: the lowest bit tells a run of
/// colors (1) from a transparent one (0), the rest is the run's length. A run of colors
/// whose pixels do not fit in the data is skipped over and leaves its pixels
/// transparent. `None` where reading the row never ends (the data runs out first) or
/// stops the program (a run that is drawn crosses the row's end, or the column passes
/// 65535).
pub open spec fn c16_line(c: Seq<u8>, pos: int, x: int, width: int, pixel_format: u32) -> Option<Seq<Rgba>>
    decreases c.len() - pos,
{
    if x >= width {
        Some(Seq::empty())
    } else if pos < 0 || c.len() - pos < 2 {
        None
    } else {
        let run = u16_at(c, pos);
        let n = run / 2;
        if run % 2 == 1 && c.len() - (pos + 2) >= 2 * n {
            if x + n > width {
                None
            } else {
                match c16_line(c, pos + 2 + 2 * n, x + n, width, pixel_format) {
                    Some(rest) => Some(
                        Seq::new(n as nat, |i: int| c16_color(pixel_format, u16_at(c, pos + 2 + 2 * i))) + rest,
                    ),
                    None => None,
                }
            }
        } else if run % 2 == 0 {
            if x + n > width {
                None
            } else {
                match c16_line(c, pos + 2, x + n, width, pixel_format) {
                    Some(rest) => Some(clear_run(n as int) + rest),
                    None => None,
                }
            }
        } else if x + n > 65535 {
            None
        } else {
            match c16_line(c, pos + 2, x + n, width, pixel_format) {
                Some(rest) => Some(clear_run(if x + n <= width { n as int } else { width - x }) + rest),
                None => None,
            }
        }
    }
}

/// The pixels of the rows whose lines start at `offsets`, row after row; `None` where a
/// line starts beyond the data (which stops the program) or one of them is `None`.
pub open spec fn c16_rows(c: Seq<u8>, offsets: Seq<u32>, width: u16, pixel_format: u32) -> Option<Seq<Rgba>>
    decreases offsets.len(),
{
    if offsets.len() == 0 {
        Some(Seq::empty())
    } else {
        let o = offsets.last();
        if o > c.len() {
            None
        } else {
            match (c16_rows(c, offsets.drop_last(), width, pixel_format), c16_line(c, o as int, 0, width as int, pixel_format)) {
                (Some(a), Some(b)) => Some(a + b),
                _ => None,
            }
        }
    }
}

/// The image that a header describes, or `None` where one of its rows is.
pub open spec fn c16_image(c: Seq<u8>, h: C16Header, pixel_format: u32) -> Option<ImageView> {
    match c16_rows(c, h.line_offsets, h.width, pixel_format) {
        Some(pixels) => Some(ImageView { width: h.width as u32, height: h.height as u32, pixels }),
        None => None,
    }
}

/// The images that the headers describe, or `None` where one of them is.
pub open spec fn c16_images(c: Seq<u8>, hs: Seq<C16Header>, pixel_format: u32) -> Option<Seq<ImageView>>
    decreases hs.len(),
{
    if hs.len() == 0 {
        Some(Seq::empty())
    } else {
        match (c16_images(c, hs.drop_last(), pixel_format), c16_image(c, hs.last(), pixel_format)) {
            (Some(v), Some(img)) => Some(v.push(img)),
            _ => None,
        }
    }
}

/// The image headers of a C16 file.
pub open spec fn c16_headers_of(c: Seq<u8>) -> Option<Seq<C16Header>> {
    c16_headers(c, 6, u16_at(c, 4) as nat)
}

/// Whether a C16 file can be read to its end: it is too short for the file header, or
/// its image headers and every line of every image can be read.
pub open spec fn c16_readable(c: Seq<u8>) -> bool {
    c.len() < 6 || match c16_headers_of(c) {
        Some(hs) => c16_images(c, hs, u32_at(c, 0)) is Some,
        None => false,
    }
}

/// Decoding a C16 file: nothing where it is too short for the file header, else its
/// pixel format, its count of images and the images whose headers could be read.
pub open spec fn spec_c16_decode(c: Seq<u8>) -> Option<(u32, u16, Seq<ImageView>)> {
    if c.len() < 6 {
        None
    } else {
        Some((u32_at(c, 0), u16_at(c, 4), c16_images(c, c16_headers_of(c)->0, u32_at(c, 0))->0))
    }
}

fn read_u16(c: &[u8], pos: usize) -> (v: u16)
    requires
        pos + 2 <= c@.len(),
    ensures
        v == u16_at(c@, pos as int),
{
    let v = c[pos] as u16 + 256 * (c[pos + 1] as u16);
    v
}

fn read_u32(c: &[u8], pos: usize) -> (v: u32)
    requires
        pos + 4 <= c@.len(),
    ensures
        v == u32_at(c@, pos as int),
{
    let v = c[pos] as u32 + 256 * (c[pos + 1] as u32) + 65536 * (c[pos + 2] as u32) + 16777216 * (c[pos + 3] as u32);
    v
}

/// The color of a C16 pixel.
pub fn read_pixel_data(pixel: u16, pixel_format: u32) -> (c: Rgba)
    ensures
        c == c16_color(pixel_format, pixel),
{
    if pixel_format == 2 {
        parse_pixel_555(pixel)
    } else {
        parse_pixel_565(pixel)
    }
}

fn push_clear(row: &mut Vec<Rgba>, n: usize)
    ensures
        final(row)@ == old(row)@ + clear_run(n as int),
{
    let mut i: usize = 0;
    while i < n
        invariant
            i <= n,
            row@ == old(row)@ + clear_run(i as int),
        decreases n - i,
    {
        row.push(Rgba { r: 0, g: 0, b: 0, a: 0 });
        i = i + 1;
        assert(row@ =~= old(row)@ + clear_run(i as int));
    }
}

fn push_colors(row: &mut Vec<Rgba>, c: &[u8], start: usize, n: usize, pixel_format: u32)
    requires
        start + 2 * n <= c@.len(),
    ensures
        final(row)@ == old(row)@ + Seq::new(n as nat, |i: int| c16_color(pixel_format, u16_at(c@, start + 2 * i))),
{
    let ghost colors = Seq::new(n as nat, |i: int| c16_color(pixel_format, u16_at(c@, start + 2 * i)));
    let len = c.len();
    let mut i: usize = 0;
    while i < n
        invariant
            i <= n,
            len == c@.len(),
            start + 2 * n <= c@.len(),
            colors == Seq::new(n as nat, |i: int| c16_color(pixel_format, u16_at(c@, start + 2 * i))),
            row@ == old(row)@ + colors.take(i as int),
        decreases n - i,
    {
        let color = read_pixel_data(read_u16(c, start + 2 * i), pixel_format);
        row.push(color);
        i = i + 1;
        assert(row@ =~= old(row)@ + colors.take(i as int));
    }
    assert(colors.take(n as int) =~= colors);
}

/// Reads the row whose line starts at `offset`; `None` where reading it would never end
/// or would stop the program.
fn read_line(c: &[u8], offset: usize, width: u16, pixel_format: u32) -> (r: Option<Vec<Rgba>>)
    ensures
        match r {
            Some(row) => c16_line(c@, offset as int, 0, width as int, pixel_format) == Some(row@),
            None => c16_line(c@, offset as int, 0, width as int, pixel_format) is None,
        },
{
    let ghost whole = c16_line(c@, offset as int, 0, width as int, pixel_format);
    let len = c.len();
    let mut row: Vec<Rgba> = Vec::new();
    let mut pos: usize = offset;
    let mut x: u32 = 0;
    while x < width as u32
        invariant
            len == c@.len(),
            x <= 65535,
            whole == c16_line(c@, offset as int, 0, width as int, pixel_format),
            whole == match c16_line(c@, pos as int, x as int, width as int, pixel_format) {
                Some(rest) => Some(row@ + rest),
                None => None::<Seq<Rgba>>,
            },
        decreases len - pos,
    {
        if pos > len || len - pos < 2 {
            return None;
        }
        let run_header = read_u16(c, pos);
        assert((run_header & 0x1) == run_header % 2 && ((run_header & 0xfffe) >> 1) == run_header / 2) by (bit_vector);
        let run_type = run_header & 0x1;
        let run_length = (run_header & 0xfffe) >> 1;
        let n = run_length as usize;
        if run_type == 1 && len - (pos + 2) >= 2 * n {
            if x + (run_length as u32) > width as u32 {
                return None;
            }
            push_colors(&mut row, c, pos + 2, n, pixel_format);
            pos = pos + 2 + 2 * n;
        } else if run_type == 0 {
            if x + (run_length as u32) > width as u32 {
                return None;
            }
            push_clear(&mut row, n);
            pos = pos + 2;
        } else {
            if x + (run_length as u32) > 65535 {
                return None;
            }
            let m = if x + (run_length as u32) <= width as u32 { n } else { (width as u32 - x) as usize };
            push_clear(&mut row, m);
            pos = pos + 2;
        }
        x = x + run_length as u32;
        assert(whole =~= match c16_line(c@, pos as int, x as int, width as int, pixel_format) {
            Some(rest) => Some(row@ + rest),
            None => None::<Seq<Rgba>>,
        });
    }
    assert(whole == Some(row@ + Seq::<Rgba>::empty()));
    assert(row@ + Seq::<Rgba>::empty() =~= row@);
    Some(row)
}

/// An image header: where each of the image's lines starts, its width, its height.
struct ImageHeader {
    width: u16,
    height: u16,
    line_offsets: Vec<u32>,
}

impl ImageHeader {
    #[verifier::type_invariant]
    spec fn inv(self) -> bool {
        self.line_offsets@.len() == self.height
    }
}

impl View for ImageHeader {
    type V = C16Header;

    closed spec fn view(&self) -> C16Header {
        C16Header { line_offsets: self.line_offsets@, width: self.width, height: self.height }
    }
}

/// Reads a C16 file's pixel format and count of images; `None` where the data is too
/// short for them.
fn read_file_header(c: &[u8]) -> (r: Option<(u32, u16)>)
    ensures
        match r {
            Some((pixel_format, image_count)) => c@.len() >= 6 && pixel_format == u32_at(c@, 0)
                && image_count == u16_at(c@, 4),
            None => c@.len() < 6,
        },
{
    if c.len() >= 6 {
        Some((read_u32(c, 0), read_u16(c, 4)))
    } else {
        None
    }
}

/// Reads the image header at `pos`, and where the next one starts.
fn read_image_header(c: &[u8], pos: usize) -> (r: (Option<ImageHeader>, usize))
    requires
        pos + 8 <= c@.len(),
        u16_at(c@, pos + 6) <= 16384,
    ensures
        r.1 == c16_header_at(c@, pos as int).1,
        match r.0 {
            Some(h) => c16_header_at(c@, pos as int).0 == Some(h@),
            None => c16_header_at(c@, pos as int).0 is None,
        },
{
    let len = c.len();
    let first = read_u32(c, pos);
    let width = read_u16(c, pos + 4);
    let height = read_u16(c, pos + 6);
    let rest = pos + 8;
    if height >= 1 && len - rest >= 4 * ((height - 1) as usize) {
        let ghost h = c16_header_at(c@, pos as int).0->0;
        let mut line_offsets: Vec<u32> = Vec::new();
        line_offsets.push(first);
        let mut i: usize = 1;
        while i < height as usize
            invariant
                1 <= i <= height,
                len == c@.len(),
                rest == pos + 8,
                height == u16_at(c@, pos + 6),
                rest + 4 * (height - 1) <= len,
                h == c16_header_at(c@, pos as int).0->0,
                h.line_offsets.len() == height,
                line_offsets@ == h.line_offsets.take(i as int),
            decreases height - i,
        {
            line_offsets.push(read_u32(c, rest + 4 * (i - 1)));
            i = i + 1;
            assert(line_offsets@ =~= h.line_offsets.take(i as int));
        }
        assert(h.line_offsets.take(height as int) =~= h.line_offsets);
        (Some(ImageHeader { width, height, line_offsets }), rest + 4 * ((height - 1) as usize))
    } else {
        (None, rest)
    }
}

proof fn lemma_line_len(c: Seq<u8>, pos: int, x: int, width: int, pixel_format: u32)
    requires
        x <= width,
        c16_line(c, pos, x, width, pixel_format) is Some,
    ensures
        c16_line(c, pos, x, width, pixel_format)->0.len() == width - x,
    decreases c.len() - pos,
{
    if x < width {
        let run = u16_at(c, pos);
        let n = run / 2;
        if run % 2 == 1 && c.len() - (pos + 2) >= 2 * n {
            lemma_line_len(c, pos + 2 + 2 * n, x + n, width, pixel_format);
        } else if run % 2 == 0 {
            lemma_line_len(c, pos + 2, x + n, width, pixel_format);
        } else if x + n <= width {
            lemma_line_len(c, pos + 2, x + n, width, pixel_format);
        }
    }
}

proof fn lemma_rows_len(c: Seq<u8>, offsets: Seq<u32>, width: u16, pixel_format: u32)
    requires
        c16_rows(c, offsets, width, pixel_format) is Some,
    ensures
        c16_rows(c, offsets, width, pixel_format)->0.len() == offsets.len() * width,
    decreases offsets.len(),
{
    if offsets.len() > 0 {
        lemma_rows_len(c, offsets.drop_last(), width, pixel_format);
        lemma_line_len(c, offsets.last() as int, 0, width as int, pixel_format);
        assert((offsets.len() - 1) * width + width == offsets.len() * width) by (nonlinear_arith);
    }
}

proof fn lemma_rows_prefix(c: Seq<u8>, offsets: Seq<u32>, k: int, width: u16, pixel_format: u32)
    requires
        0 <= k <= offsets.len(),
        c16_rows(c, offsets, width, pixel_format) is Some,
    ensures
        c16_rows(c, offsets.take(k), width, pixel_format) is Some,
    decreases offsets.len(),
{
    if k == offsets.len() {
        assert(offsets.take(k) =~= offsets);
    } else {
        assert(offsets.drop_last().take(k) =~= offsets.take(k));
        lemma_rows_prefix(c, offsets.drop_last(), k, width, pixel_format);
    }
}

/// Reads the image that a header describes; `None` where reading one of its lines would
/// never end or would stop the program.
fn read_image_data(c: &[u8], header: &ImageHeader, pixel_format: u32) -> (r: Option<Image>)
    ensures
        match r {
            Some(img) => c16_image(c@, header@, pixel_format) == Some(img@)
                && img.pixels@.len() == img.width * img.height,
            None => c16_image(c@, header@, pixel_format) is None,
        },
{
    proof {
        use_type_invariant(header);
    }
    let ghost offsets = header.line_offsets@;
    let mut pixels: Vec<Rgba> = Vec::new();
    let mut y: usize = 0;
    while y < header.line_offsets.len()
        invariant
            y <= offsets.len(),
            offsets == header.line_offsets@,
            c16_rows(c@, offsets.take(y as int), header.width, pixel_format) == Some(pixels@),
        decreases offsets.len() - y,
    {
        let offset = header.line_offsets[y];
        assert(offsets.take(y + 1).drop_last() =~= offsets.take(y as int));
        assert(offsets.take(y + 1).last() == offset);
        if offset as usize > c.len() {
            proof {
                if c16_rows(c@, offsets, header.width, pixel_format) is Some {
                    lemma_rows_prefix(c@, offsets, y + 1, header.width, pixel_format);
                }
            }
            return None;
        }
        let mut row = match read_line(c, offset as usize, header.width, pixel_format) {
            Some(row) => row,
            None => {
                proof {
                    if c16_rows(c@, offsets, header.width, pixel_format) is Some {
                        lemma_rows_prefix(c@, offsets, y + 1, header.width, pixel_format);
                    }
                }
                return None;
            },
        };
        let ghost before = pixels@;
        let ghost line = row@;
        pixels.append(&mut row);
        assert(pixels@ =~= before + line);
        y = y + 1;
    }
    assert(offsets.take(y as int) =~= offsets);
    proof {
        lemma_rows_len(c@, offsets, header.width, pixel_format);
        assert(pixels@.len() == header.height * header.width);
        assert(header.height * header.width == header.width * header.height) by (nonlinear_arith);
    }
    Some(Image { width: header.width as u32, height: header.height as u32, pixels })
}

/// The values of image headers.
spec fn headers_view(v: Seq<ImageHeader>) -> Seq<C16Header> {
    Seq::new(v.len(), |i: int| v[i]@)
}

/// Reads the image headers of a C16 file; `None` where reading them stops the program.
fn read_headers(c: &[u8]) -> (r: Option<Vec<ImageHeader>>)
    requires
        c@.len() >= 6,
    ensures
        match r {
            Some(hs) => c16_headers_of(c@) == Some(headers_view(hs@)),
            None => c16_headers_of(c@) is None,
        },
{
    let len = c.len();
    let image_count = read_u16(c, 4);
    let mut headers: Vec<ImageHeader> = Vec::new();
    let mut pos: usize = 6;
    let mut k: u16 = 0;
    while k < image_count
        invariant
            len == c@.len(),
            k <= image_count,
            image_count == u16_at(c@, 4),
            c16_headers_of(c@) == match c16_headers(c@, pos as int, (image_count - k) as nat) {
                Some(rest) => Some(headers_view(headers@) + rest),
                None => None::<Seq<C16Header>>,
            },
        decreases image_count - k,
    {
        let ghost before = headers_view(headers@);
        if pos <= len && len - pos >= 8 {
            if read_u16(c, pos + 6) > 16384 {
                return None;
            }
            let (header, next) = read_image_header(c, pos);
            match header {
                Some(h) => {
                    headers.push(h);
                    assert(headers_view(headers@) =~= before.push(h@));
                },
                None => {
                    assert(headers_view(headers@) =~= before);
                },
            }
            pos = next;
        } else {
            assert(c16_headers(c@, pos as int, (image_count - k - 1) as nat) == Some(Seq::<C16Header>::empty()));
        }
        k = k + 1;
        assert(c16_headers_of(c@) =~= match c16_headers(c@, pos as int, (image_count - k) as nat) {
            Some(rest) => Some(headers_view(headers@) + rest),
            None => None::<Seq<C16Header>>,
        });
    }
    assert(headers_view(headers@) + Seq::<C16Header>::empty() =~= headers_view(headers@));
    Some(headers)
}

proof fn lemma_images_none_after(c: Seq<u8>, hs: Seq<C16Header>, pixel_format: u32, a: int, b: int)
    requires
        0 <= a <= b <= hs.len(),
        c16_images(c, hs.take(a), pixel_format) is None,
    ensures
        c16_images(c, hs.take(b), pixel_format) is None,
    decreases b - a,
{
    if a < b {
        assert(hs.take(a + 1).drop_last() =~= hs.take(a));
        lemma_images_none_after(c, hs, pixel_format, a + 1, b);
    }
}

/// Decodes a C16 file where it can be read to its end, and says where it cannot:
/// `None` where reading it would never end or would stop the program; else, where the
/// data is too short for the file header, nothing; else its pixel format, its count of
/// images, and the images whose headers could be read.
pub fn decode_checked(contents: &[u8]) -> (r: Option<Option<(u32, u16, Vec<Image>)>>)
    ensures
        r is Some <==> c16_readable(contents@),
        r matches Some(d) ==> match d {
            Some((pixel_format, image_count, images)) => spec_c16_decode(contents@) == Some(
                (pixel_format, image_count, images_view(images@)),
            ) && forall|i: int| 0 <= i < images@.len()
                ==> (#[trigger] images@[i]).pixels@.len() == images@[i].width * images@[i].height,
            None => spec_c16_decode(contents@) is None,
        },
{
    let (pixel_format, image_count) = match read_file_header(contents) {
        Some(h) => h,
        None => return Some(None),
    };
    let headers = match read_headers(contents) {
        Some(hs) => hs,
        None => return None,
    };
    let ghost hs = headers_view(headers@);
    let mut images: Vec<Image> = Vec::new();
    let mut j: usize = 0;
    while j < headers.len()
        invariant
            j <= headers@.len() == hs.len(),
            hs == headers_view(headers@),
            c16_headers_of(contents@) == Some(hs),
            pixel_format == u32_at(contents@, 0),
            c16_images(contents@, hs.take(j as int), pixel_format) == Some(images_view(images@)),
            forall|i: int| 0 <= i < images@.len()
                ==> (#[trigger] images@[i]).pixels@.len() == images@[i].width * images@[i].height,
        decreases headers@.len() - j,
    {
        assert(hs.take(j + 1).drop_last() =~= hs.take(j as int));
        assert(hs.take(j + 1).last() == headers@[j as int]@);
        let image = match read_image_data(contents, &headers[j], pixel_format) {
            Some(image) => image,
            None => {
                proof {
                    lemma_images_none_after(contents@, hs, pixel_format, j + 1, hs.len() as int);
                    assert(hs.take(hs.len() as int) =~= hs);
                }
                return None;
            },
        };
        let ghost before = images_view(images@);
        images.push(image);
        assert(images_view(images@) =~= before.push(image@));
        j = j + 1;
    }
    assert(hs.take(j as int) =~= hs);
    Some(Some((pixel_format, image_count, images)))
}

/// Decodes a C16 file: nothing where the data is too short for the file header, else
/// its pixel format, its count of images, and the images whose headers could be read.
pub fn decode(contents: &[u8]) -> (r: Option<(u32, u16, Vec<Image>)>)
    requires
        c16_readable(contents@),
    ensures
        match r {
            Some((pixel_format, image_count, images)) => spec_c16_decode(contents@) == Some(
                (pixel_format, image_count, images_view(images@)),
            ) && forall|i: int| 0 <= i < images@.len()
                ==> (#[trigger] images@[i]).pixels@.len() == images@[i].width * images@[i].height,
            None => spec_c16_decode(contents@) is None,
        },
{
    match decode_checked(contents) {
        Some(d) => d,
        None => None,
    }
}

} // verus!
