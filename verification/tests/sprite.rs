use theist::agent::sprite::Sprite;
use theist::error::Error;
use theist::sprite::{blk, c16, image_error, parse_pixel_555, parse_pixel_565, s16, Rgba};

#[test]
fn pixels_555_and_565() {
    assert_eq!(parse_pixel_555(0x7fff), Rgba { r: 248, g: 248, b: 248, a: 255 });
    assert_eq!(parse_pixel_555(0x7c00), Rgba { r: 248, g: 0, b: 0, a: 255 });
    assert_eq!(parse_pixel_565(0xffff), Rgba { r: 248, g: 252, b: 248, a: 255 });
    assert_eq!(parse_pixel_565(0x07e0), Rgba { r: 0, g: 252, b: 0, a: 255 });
    assert_eq!(parse_pixel_565(0x001f), Rgba { r: 0, g: 0, b: 248, a: 255 });
    assert!(matches!(image_error(), Error::InvalidSprite));
}

fn s16_file() -> Vec<u8> {
    let mut v = vec![3, 0, 0, 0, 1, 0];
    v.extend_from_slice(&[14, 0, 0, 0, 2, 0, 1, 0]);
    v.extend_from_slice(&[0x00, 0xf8, 0x00, 0x00]);
    v
}

#[test]
fn s16_image_with_transparent_black() {
    let data = s16_file();
    assert!(s16::offsets_fit(&data));
    let frames = s16::decode(&data).unwrap();
    assert_eq!(frames.len(), 1);
    assert_eq!((frames[0].width, frames[0].height), (2, 1));
    assert_eq!(frames[0].pixels, vec![Rgba { r: 248, g: 0, b: 0, a: 255 }, Rgba { r: 0, g: 0, b: 0, a: 0 }]);
}

#[test]
fn s16_cut_short() {
    let mut data = s16_file();
    data.pop();
    assert!(matches!(s16::decode(&data), Err(Error::InvalidSprite)));
    assert!(matches!(s16::decode(&[1, 2, 3]), Err(Error::InvalidSprite)));
    let mut far = s16_file();
    far[6] = 200;
    assert!(!s16::offsets_fit(&far));
}

#[test]
fn blk_frames() {
    let mut data = vec![2, 0, 0, 0, 1, 0, 1, 0, 2, 0];
    data.extend_from_slice(&[22, 0, 0, 0, 128, 0, 128, 0]);
    data.extend_from_slice(&[0, 0, 0, 0, 9, 0, 9, 0]);
    data.extend_from_slice(&vec![0xff; 2 * 128 * 128]);
    assert!(blk::readable(&data));
    let frames = blk::decode(&data).unwrap();
    assert_eq!(frames.len(), 1);
    assert_eq!(frames[0].pixels.len(), 128 * 128);
    assert_eq!(frames[0].pixels[0], Rgba { r: 248, g: 248, b: 248, a: 255 });
    data.truncate(data.len() - 1);
    assert!(matches!(blk::decode(&data), Err(Error::InvalidSprite)));
    assert!(!blk::readable(&[0; 7]));
    assert!(matches!(blk::decode(&[0; 3]), Err(Error::InvalidSprite)));
}

fn c16_file() -> Vec<u8> {
    let mut v = vec![2, 0, 0, 0, 1, 0];
    v.extend_from_slice(&[18, 0, 0, 0, 3, 0, 2, 0, 26, 0, 0, 0]);
    v.extend_from_slice(&[5, 0, 0x00, 0x7c, 0x1f, 0x00, 2, 0]);
    v.extend_from_slice(&[6, 0]);
    v
}

const CLEAR: Rgba = Rgba { r: 0, g: 0, b: 0, a: 0 };

#[test]
fn c16_runs_of_colors_and_transparency() {
    let data = c16_file();
    let (pixel_format, image_count, images) = c16::decode(&data).unwrap();
    assert_eq!((pixel_format, image_count, images.len()), (2, 1, 1));
    assert_eq!((images[0].width, images[0].height), (3, 2));
    assert_eq!(
        images[0].pixels,
        vec![
            Rgba { r: 248, g: 0, b: 0, a: 255 },
            Rgba { r: 0, g: 0, b: 248, a: 255 },
            CLEAR,
            CLEAR,
            CLEAR,
            CLEAR
        ]
    );
    assert_eq!(c16::read_pixel_data(0xffff, 3), Rgba { r: 248, g: 252, b: 248, a: 255 });
}

#[test]
fn c16_short_runs_and_headers() {
    assert!(matches!(c16::decode_checked(&[1, 2, 3]), Some(None)));
    // A run of colors whose pixels are not all there leaves its pixels transparent.
    let mut data = vec![2, 0, 0, 0, 1, 0];
    data.extend_from_slice(&[20, 0, 0, 0, 3, 0, 2, 0, 18, 0, 0, 0]);
    data.extend_from_slice(&[6, 0]);
    data.extend_from_slice(&[7, 0, 0x00, 0x7c, 0x1f, 0x00]);
    let (_, _, images) = c16::decode(&data).unwrap();
    assert_eq!(images[0].pixels, vec![CLEAR; 6]);
    // A header whose line offsets do not fit is left out.
    let mut cut = vec![2, 0, 0, 0, 1, 0];
    cut.extend_from_slice(&[18, 0, 0, 0, 3, 0, 9, 0, 0, 0]);
    let (_, count, images) = c16::decode(&cut).unwrap();
    assert_eq!((count, images.len()), (1, 0));
}

#[test]
fn c16_lines_that_never_end() {
    let mut data = c16_file();
    data.truncate(data.len() - 1);
    assert!(c16::decode_checked(&data).is_none());
    let mut tall = vec![2, 0, 0, 0, 1, 0];
    tall.extend_from_slice(&[18, 0, 0, 0, 3, 0, 0x01, 0x40]);
    assert!(c16::decode_checked(&tall).is_none());
    let mut wide_run = c16_file();
    wide_run[26] = 8;
    assert!(c16::decode_checked(&wide_run).is_none());
}

#[test]
fn sprite_from_data_makes_png_frames() {
    let sprite = Sprite::new_from_data(&"dir/ball.c16".to_string(), &c16_file()).unwrap();
    let mut png_bytes = Vec::new();
    match sprite {
        Sprite::Png { output_filename, input_filename, frames, data, .. } => {
            assert_eq!(output_filename, "ball.c16");
            assert_eq!(input_filename, "dir/ball.png");
            assert_eq!(frames.len(), 1);
            assert_eq!(frames[0].input_filename, "ball-1.png");
            assert_eq!(&frames[0].data.as_ref().unwrap()[1..4], b"PNG");
            png_bytes = frames[0].data.clone().unwrap();
            assert_eq!(data.unwrap(), c16_file());
        },
        _ => panic!("expected frames"),
    }
    match Sprite::new_from_data(&"pic.png".to_string(), &png_bytes).unwrap() {
        Sprite::Png { output_filename, frames, data, .. } => {
            assert_eq!(output_filename, "pic.c16");
            assert_eq!(frames[0].input_filename, "pic.png");
            assert_eq!(frames[0].data.clone().unwrap(), png_bytes);
            assert!(data.is_none());
        },
        _ => panic!("expected frames"),
    }
    assert!(matches!(Sprite::new_from_data(&"pic.png".to_string(), &[1, 2]), Err(Error::InvalidSprite)));
    assert!(matches!(Sprite::new_from_data(&"a.s16".to_string(), &[1, 2, 3]), Err(Error::InvalidSprite)));
    match Sprite::new_from_data(&"a.txt".to_string(), &[]) {
        Err(Error::Other(m)) => assert_eq!(m, "Image a.txt is not a valid creatures image file."),
        _ => panic!("expected an error"),
    }
}
