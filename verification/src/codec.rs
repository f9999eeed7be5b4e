use vstd::prelude::*;
use crate::image::{decoded_rgb, RgbImage};

verus! {

#[verifier::external_type_specification]
#[verifier::external_body]
pub struct ExDecodingError(png::DecodingError);

/// How the samples of a decoded PNG frame are laid out.
#[derive(Clone, Copy, Debug, PartialEq, Eq, Structural)]
pub enum PixelFormat {
    Grayscale,
    Rgb,
    Indexed,
    GrayscaleAlpha,
    Rgba,
}

/// A decoded frame: its size, sample layout and bytes.
pub struct Frame {
    pub width: u32,
    pub height: u32,
    pub format: PixelFormat,
    pub bytes: Vec<u8>,
}

/// What the `png` crate decodes from these bytes: width, height, sample
/// layout and the bytes of the first frame, or nothing when decoding fails.
pub uninterp spec fn png_frame(data: Seq<u8>) -> Option<(u32, u32, PixelFormat, Seq<u8>)>;

/// Decodes the first frame of a PNG file with the `png` crate (`Decoder::new`,
/// `read_info`, `next_frame` into a buffer of `output_buffer_size` bytes).
/// Trusted: the outcome depends on the bytes alone (named `png_frame`); the
/// PNG format itself is not stated.
#[verifier::external_body]
fn decode_png(data: &[u8]) -> (res: Result<Frame, png::DecodingError>)
    ensures
        res is Err <==> png_frame(data@) is None,
        res matches Ok(f) ==> png_frame(data@) == Some((f.width, f.height, f.format, f.bytes@)),
{
    let mut reader = png::Decoder::new(data).read_info()?;
    let mut bytes = vec![0u8; reader.output_buffer_size()];
    let info = reader.next_frame(&mut bytes)?;
    let format = match info.color_type {
        png::ColorType::Grayscale => PixelFormat::Grayscale,
        png::ColorType::Rgb => PixelFormat::Rgb,
        png::ColorType::Indexed => PixelFormat::Indexed,
        png::ColorType::GrayscaleAlpha => PixelFormat::GrayscaleAlpha,
        png::ColorType::Rgba => PixelFormat::Rgba,
    };
    Ok(Frame { width: info.width, height: info.height, format, bytes })
}

/// Each byte repeated three times: a grey level as red, green and blue.
pub open spec fn gray_as_rgb(gray: Seq<u8>) -> Seq<u8> {
    Seq::new(gray.len() * 3, |j: int| gray[j / 3])
}

/// Turning grey into RGB gives three bytes per grey level, in order: grey
/// byte `i` becomes the red, green and blue bytes `3 i`, `3 i + 1` and
/// `3 i + 2`.
pub proof fn lemma_gray_as_rgb_triples(gray: Seq<u8>, i: int)
    requires
        0 <= i < gray.len(),
    ensures
        gray_as_rgb(gray).len() == 3 * gray.len(),
        gray_as_rgb(gray)[3 * i] == gray[i],
        gray_as_rgb(gray)[3 * i + 1] == gray[i],
        gray_as_rgb(gray)[3 * i + 2] == gray[i],
{
}

/// Turns grey levels into RGB by repeating each byte three times.
pub fn gray_to_rgb(gray: &Vec<u8>) -> (rgb: Vec<u8>)
    requires
        gray.len() * 3 <= usize::MAX,
    ensures
        rgb@ == gray_as_rgb(gray@),
{
    let mut rgb: Vec<u8> = Vec::new();
    let mut i: usize = 0;
    while i < gray.len()
        invariant
            i <= gray.len(),
            gray.len() * 3 <= usize::MAX,
            rgb.len() == 3 * i,
            forall|j: int| 0 <= j < 3 * i ==> rgb@[j] == gray@[j / 3],
        decreases gray.len() - i,
    {
        let g = gray[i];
        rgb.push(g);
        rgb.push(g);
        rgb.push(g);
        i = i + 1;
    }
    assert(rgb@ =~= gray_as_rgb(gray@));
    rgb
}

/// Why a tile could not be read.
#[derive(Debug)]
pub enum TileError {
    /// The bytes are not a PNG picture the decoder accepts.
    NotPng,
}

/// The frame a tile file holds once grey levels are turned into RGB (a grey
/// frame whose RGB form would not fit in memory counts as unreadable).
pub open spec fn tile_frame(data: Seq<u8>) -> Option<(u32, u32, PixelFormat, Seq<u8>)> {
    match png_frame(data) {
        Some((w, h, f, b)) => if f == PixelFormat::Grayscale {
            if b.len() * 3 <= usize::MAX {
                Some((w, h, PixelFormat::Rgb, gray_as_rgb(b)))
            } else {
                None
            }
        } else {
            Some((w, h, f, b))
        },
        None => None,
    }
}

/// Reads a downloaded tile: decodes the PNG bytes and, when the picture is
/// greyscale, turns it into RGB.
pub fn decode_tile(data: &[u8]) -> (res: Result<Frame, TileError>)
    ensures
        res is Ok <==> tile_frame(data@) is Some,
        res matches Ok(f) ==> tile_frame(data@) == Some((f.width, f.height, f.format, f.bytes@)),
{
    match decode_png(data) {
        Err(_) => Err(TileError::NotPng),
        Ok(frame) => {
            match frame.format {
                PixelFormat::Grayscale => {
                    if frame.bytes.len() > usize::MAX / 3 {
                        Err(TileError::NotPng)
                    } else {
                        let rgb = gray_to_rgb(&frame.bytes);
                        Ok(Frame { width: frame.width, height: frame.height, format: PixelFormat::Rgb, bytes: rgb })
                    }
                },
                _ => Ok(frame),
            }
        },
    }
}

#[verifier::external_type_specification]
#[verifier::external_body]
pub struct ExEncodingError(png::EncodingError);

/// The PNG file the `png` crate writes for an 8-bit RGB picture of the given
/// size and bytes, or nothing when encoding fails.
pub uninterp spec fn png_encoding(width: u32, height: u32, bytes: Seq<u8>) -> Option<Seq<u8>>;

/// Encodes an RGB picture as PNG with the `png` crate (`Encoder::new` on a
/// byte vector, colour type RGB, depth 8, `write_header`,
/// `write_image_data`, `finish`). Trusted: the outcome depends on the
/// picture alone (named `png_encoding`); the PNG format is not stated.
#[verifier::external_body]
fn encode_rgb_png(img: &RgbImage) -> (res: Result<Vec<u8>, png::EncodingError>)
    ensures
        res is Err <==> png_encoding(img@.width as u32, img@.height as u32, img@.bytes) is None,
        res matches Ok(out) ==> png_encoding(img@.width as u32, img@.height as u32, img@.bytes)
            == Some(out@),
{
    let mut out: Vec<u8> = Vec::new();
    {
        let mut encoder = png::Encoder::new(&mut out, img.width(), img.height());
        encoder.set_color(png::ColorType::Rgb);
        encoder.set_depth(png::BitDepth::Eight);
        let mut writer = encoder.write_header()?;
        writer.write_image_data(img.as_raw())?;
        writer.finish()?;
    }
    Ok(out)
}

/// Why a picture could not be written as PNG.
#[derive(Debug)]
pub enum EncodeError {
    /// The encoder refused the picture.
    Refused,
}

/// The picture as a PNG file (8-bit RGB).
pub fn png_file(img: &RgbImage) -> (res: Result<Vec<u8>, EncodeError>)
    ensures
        res is Ok <==> png_encoding(img@.width as u32, img@.height as u32, img@.bytes) is Some,
        res matches Ok(out) ==> png_encoding(img@.width as u32, img@.height as u32, img@.bytes)
            == Some(out@),
{
    match encode_rgb_png(img) {
        Ok(out) => Ok(out),
        Err(_) => Err(EncodeError::Refused),
    }
}

/// Why a picture file could not be read.
#[derive(Debug)]
pub enum PictureError {
    /// The bytes are not a picture in a format the decoder knows.
    Unreadable,
}

/// Reads a picture file (PNG, JPEG or BMP) as 8-bit RGB.
pub fn read_picture(data: &[u8]) -> (res: Result<RgbImage, PictureError>)
    ensures
        res is Ok <==> decoded_rgb(data@) is Some,
        res matches Ok(img) ==> decoded_rgb(data@) == Some(
            (img@.width as u32, img@.height as u32, img@.bytes),
        ),
{
    match RgbImage::decode(data) {
        Ok(img) => Ok(img),
        Err(_) => Err(PictureError::Unreadable),
    }
}

} // verus!
