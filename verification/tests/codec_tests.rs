use himawari8::codec::{decode_tile, gray_to_rgb, png_file, read_picture, PictureError, PixelFormat, TileError};
use himawari8::image::RgbImage;

fn png_bytes(width: u32, height: u32, color: png::ColorType, data: &[u8]) -> Vec<u8> {
    let mut out: Vec<u8> = Vec::new();
    {
        let mut encoder = png::Encoder::new(&mut out, width, height);
        encoder.set_color(color);
        encoder.set_depth(png::BitDepth::Eight);
        let mut writer = encoder.write_header().unwrap();
        writer.write_image_data(data).unwrap();
        writer.finish().unwrap();
    }
    out
}

#[test]
fn gray_to_rgb_repeats_each_level() {
    assert_eq!(gray_to_rgb(&vec![1u8, 200, 0]), vec![1u8, 1, 1, 200, 200, 200, 0, 0, 0]);
    assert_eq!(gray_to_rgb(&Vec::new()), Vec::<u8>::new());
}

#[test]
fn decode_tile_turns_grey_into_rgb() {
    let file = png_bytes(2, 1, png::ColorType::Grayscale, &[5, 250]);
    let frame = decode_tile(&file).unwrap();
    assert_eq!(frame.width, 2);
    assert_eq!(frame.height, 1);
    assert_eq!(frame.format, PixelFormat::Rgb);
    assert_eq!(frame.bytes, vec![5u8, 5, 5, 250, 250, 250]);
}

#[test]
fn decode_tile_keeps_rgb() {
    let file = png_bytes(1, 2, png::ColorType::Rgb, &[1, 2, 3, 4, 5, 6]);
    let frame = decode_tile(&file).unwrap();
    assert_eq!((frame.width, frame.height), (1, 2));
    assert_eq!(frame.format, PixelFormat::Rgb);
    assert_eq!(frame.bytes, vec![1u8, 2, 3, 4, 5, 6]);
}

#[test]
fn decode_tile_rejects_other_bytes() {
    assert!(matches!(decode_tile(b"not a png file"), Err(TileError::NotPng)));
    assert!(matches!(decode_tile(&[]), Err(TileError::NotPng)));
}

#[test]
fn png_file_round_trips_through_the_decoder() {
    let img = RgbImage::from_raw(2, 2, vec![1, 2, 3, 4, 5, 6, 7, 8, 9, 10, 11, 12]).unwrap();
    let file = png_file(&img).unwrap();
    assert_eq!(&file[..8], &[137u8, 80, 78, 71, 13, 10, 26, 10]);
    let frame = decode_tile(&file).unwrap();
    assert_eq!((frame.width, frame.height, frame.format), (2, 2, PixelFormat::Rgb));
    assert_eq!(frame.bytes, img.into_raw());
}

#[test]
fn read_picture_reads_png_and_bmp() {
    let img = RgbImage::from_raw(2, 1, vec![9, 8, 7, 6, 5, 4]).unwrap();
    let file = png_file(&img).unwrap();
    let back = read_picture(&file).unwrap();
    assert_eq!((back.width(), back.height()), (2, 1));
    assert_eq!(back.into_raw(), vec![9u8, 8, 7, 6, 5, 4]);

    let gray = png_bytes(1, 1, png::ColorType::Grayscale, &[77]);
    assert_eq!(read_picture(&gray).unwrap().into_raw(), vec![77u8, 77, 77]);

    let buffer: image::RgbImage = image::ImageBuffer::from_raw(1, 2, vec![1u8, 2, 3, 4, 5, 6]).unwrap();
    let mut bmp: Vec<u8> = Vec::new();
    image::DynamicImage::ImageRgb8(buffer)
        .write_to(&mut std::io::Cursor::new(&mut bmp), image::ImageFormat::Bmp)
        .unwrap();
    let from_bmp = read_picture(&bmp).unwrap();
    assert_eq!((from_bmp.width(), from_bmp.height()), (1, 2));
    assert_eq!(from_bmp.into_raw(), vec![1u8, 2, 3, 4, 5, 6]);
}

#[test]
fn read_picture_rejects_other_bytes() {
    assert!(matches!(read_picture(b"plain text"), Err(PictureError::Unreadable)));
}
