//! A rendered frame as the bytes of an 8-bit RGBA PNG.
//!
//! Stills are how the decode and the grade get checked without a window, and how an
//! operator grabs a frame off a recorded feed. Writing the bytes to a file is the
//! caller's part.

use vstd::prelude::*;

use crate::render::picture::Rgba;

verus! {

#[verifier::external_type_specification]
#[verifier::external_body]
pub struct ExEncodingError(png::EncodingError);

/// Why a picture cannot be written as a PNG.
#[derive(Debug, Clone, PartialEq, Eq)]
pub enum StillError {
    /// A picture with no columns.
    ZeroWidth,
    /// A picture with no rows.
    ZeroHeight,
    /// The pixel buffer does not hold four bytes for every pixel.
    BufferSize { expected: usize, actual: usize },
}

/// The PNG signature every encoded file starts with.
pub open spec fn png_signature() -> Seq<u8> {
    seq![137u8, 80u8, 78u8, 71u8, 13u8, 10u8, 26u8, 10u8]
}

/// What the PNG encoder writes for a `width` × `height` RGBA picture with these pixels.
pub uninterp spec fn png_rgba(width: u32, height: u32, pixels: Seq<u8>) -> Seq<u8>;

/// Encodes with `png::Encoder` (colour type RGBA, depth eight, the default filter and
/// compression) into a byte vector: `write_header`, `write_image_data`, `finish`.
/// Claimed, as the crate's source shows: writing into a vector cannot fail, so the only
/// refusals are a zero width, a zero height and a buffer whose length is not
/// `width * height * 4`; the bytes are a function of the three arguments and begin with
/// the PNG signature. The size product is required to fit in `usize`, where the crate
/// multiplies without a check. Not stated: the chunks and the compressed data.
#[verifier::external_body]
fn png_encode(width: u32, height: u32, pixels: &[u8]) -> (res: Result<Vec<u8>, png::EncodingError>)
    requires
        width * height * 4 <= usize::MAX,
    ensures
        res is Ok <==> (width > 0 && height > 0 && pixels@.len() == width * height * 4),
        res matches Ok(bytes) ==> bytes@ == png_rgba(width, height, pixels@)
            && png_signature().is_prefix_of(bytes@),
{
    let mut bytes: Vec<u8> = Vec::new();
    let mut encoder = png::Encoder::new(&mut bytes, width, height);
    encoder.set_color(png::ColorType::Rgba);
    encoder.set_depth(png::BitDepth::Eight);
    let written = match encoder.write_header() {
        Ok(mut writer) => match writer.write_image_data(pixels) {
            Ok(()) => writer.finish(),
            Err(error) => Err(error),
        },
        Err(error) => Err(error),
    };
    match written {
        Ok(()) => Ok(bytes),
        Err(error) => Err(error),
    }
}

/// Why a `width` × `height` picture with `len` pixel bytes is refused, in the order the
/// encoder looks: width, then height, then the buffer.
pub open spec fn refusal(width: u32, height: u32, len: nat) -> Option<StillError> {
    if width == 0 {
        Some(StillError::ZeroWidth)
    } else if height == 0 {
        Some(StillError::ZeroHeight)
    } else if len != width * height * 4 {
        Some(StillError::BufferSize { expected: (width * height * 4) as usize, actual: len as usize })
    } else {
        None
    }
}

/// Encodes `image` as an 8-bit RGBA PNG.
pub fn encode(image: &Rgba) -> (res: Result<Vec<u8>, StillError>)
    requires
        image.width * image.height * 4 <= usize::MAX,
    ensures
        match refusal(image.width, image.height, image.pixels@.len()) {
            Some(error) => res == Err::<Vec<u8>, StillError>(error),
            None => res matches Ok(bytes) && bytes@ == png_rgba(
                image.width,
                image.height,
                image.pixels@,
            ) && png_signature().is_prefix_of(bytes@),
        },
{
    match png_encode(image.width, image.height, image.pixels.as_slice()) {
        Ok(bytes) => Ok(bytes),
        Err(_) => {
            if image.width == 0 {
                Err(StillError::ZeroWidth)
            } else if image.height == 0 {
                Err(StillError::ZeroHeight)
            } else {
                let expected: usize = (image.width as usize) * (image.height as usize) * 4;
                Err(StillError::BufferSize { expected, actual: image.pixels.len() })
            }
        }
    }
}

} // verus!
