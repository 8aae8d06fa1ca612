//! Turning a finished frame into the bytes of a PNG image.
//!
//! The compression is the work of the `image` crate. This module decides
//! whether a buffer and a pair of dimensions can be handed to it at all.

use vstd::prelude::*;

verus! {

/// `std::io::Error`, the error of the encoder. It is carried through
/// unopened: nothing is known of what it holds.
#[verifier::external_type_specification]
#[verifier::external_body]
pub struct ExIoError(std::io::Error);

/// The PNG image, as bytes, that stands for the given pixels: eight bits per
/// channel, red, green and blue, `width` pixels in each of `height` rows.
pub uninterp spec fn png_encoding(pixels: Seq<u8>, width: u32, height: u32) -> Seq<u8>;

/// Why a frame was not encoded.
#[derive(Debug)]
pub enum EncodeError {
    /// The width or the height is zero.
    Empty,
    /// One row has more bits than this machine can count.
    TooWide,
    /// The buffer does not hold exactly three bytes for each pixel.
    WrongSize,
    /// The encoder itself gave up; its own error is inside. `encode_image`
    /// never hands the encoder a frame on which it does.
    Encoder(std::io::Error),
}

/// The width that is written into the image: the low 32 bits of `bounds.0`.
pub open spec fn image_width(bounds: (usize, usize)) -> u32 {
    bounds.0 as u32
}

/// The height that is written into the image: the low 32 bits of `bounds.1`.
pub open spec fn image_height(bounds: (usize, usize)) -> u32 {
    bounds.1 as u32
}

/// A buffer of `len` bytes can be encoded as an image of `width` by `height`
/// pixels.
pub open spec fn encodable(len: nat, width: u32, height: u32) -> bool {
    &&& width > 0
    &&& height > 0
    &&& 24 * width <= usize::MAX
    &&& len == 3 * width * height
}

/// Calls `image::png::PNGEncoder::encode` with the colour type `RGB(8)` on an
/// encoder that writes into memory. Taken on trust: the call succeeds, the
/// bytes written are the PNG encoding of the pixels, and the same pixels and
/// dimensions always give the same bytes.
///
/// The encoder gives up on a zero dimension, on a buffer that is not three
/// bytes per pixel, and where the writer under it fails. The first two are
/// kept out here, and the writer is a `Vec<u8>`, to which every write
/// succeeds. The encoder also counts the bits of a row and the bytes of the
/// image in `usize` and sets aside two rows before it looks at the buffer, so
/// it is called only with a buffer that holds the whole image and a row whose
/// bits can be counted.
#[verifier::external_body]
fn png_encode(pixels: &[u8], width: u32, height: u32) -> (r: Result<Vec<u8>, std::io::Error>)
    requires
        encodable(pixels@.len(), width, height),
    ensures
        r is Ok,
        r matches Ok(bytes) ==> bytes@ == png_encoding(pixels@, width, height),
{
    let mut bytes: Vec<u8> = Vec::new();
    let encoder = image::png::PNGEncoder::new(&mut bytes);
    match encoder.encode(pixels, width, height, image::ColorType::RGB(8)) {
        Ok(()) => Ok(bytes),
        Err(e) => Err(e),
    }
}

/// Hands on what the encoder returned: its bytes unchanged, or its error as
/// an `EncodeError::Encoder`.
pub fn encoded(outcome: Result<Vec<u8>, std::io::Error>) -> (r: Result<Vec<u8>, EncodeError>)
    ensures
        match outcome {
            Ok(bytes) => r == Ok::<Vec<u8>, EncodeError>(bytes),
            Err(e) => r == Err::<Vec<u8>, EncodeError>(EncodeError::Encoder(e)),
        },
{
    match outcome {
        Ok(bytes) => Ok(bytes),
        Err(e) => Err(EncodeError::Encoder(e)),
    }
}

/// Whether `len` is three times `width` times `height`.
fn holds_three_per_pixel(len: usize, width: u32, height: u32) -> (b: bool)
    ensures
        b == (len == 3 * width * height),
{
    assert(width * height <= u64::MAX && 3 * width * height == width * height * 3)
        by (nonlinear_arith)
        requires
            width <= u32::MAX,
            height <= u32::MAX,
    ;
    let pixel_count: u64 = width as u64 * height as u64;
    len as u128 == pixel_count as u128 * 3
}

/// Encodes the frame as a PNG image of `bounds.0` by `bounds.1` pixels, each
/// dimension cut to its low 32 bits as the image header holds no more.
///
/// The frame is refused, each time with the first reason that applies, where
/// a dimension is zero, where a row is too wide for this machine, and where
/// the buffer is not three bytes per pixel. Every other frame is encoded.
pub fn encode_image(pixels: &[u8], bounds: (usize, usize)) -> (r: Result<Vec<u8>, EncodeError>)
    ensures
        r matches Err(EncodeError::Empty) <==> image_width(bounds) == 0 || image_height(bounds)
            == 0,
        r matches Err(EncodeError::TooWide) <==> image_width(bounds) > 0 && image_height(bounds)
            > 0 && 24 * image_width(bounds) > usize::MAX,
        r matches Err(EncodeError::WrongSize) <==> image_width(bounds) > 0 && image_height(bounds)
            > 0 && 24 * image_width(bounds) <= usize::MAX && pixels@.len() != 3 * image_width(
            bounds,
        ) * image_height(bounds),
        r is Ok <==> encodable(pixels@.len(), image_width(bounds), image_height(bounds)),
        r matches Ok(bytes) ==> bytes@ == png_encoding(
            pixels@,
            image_width(bounds),
            image_height(bounds),
        ),
{
    let width: u32 = #[verifier::truncate] (bounds.0 as u32);
    let height: u32 = #[verifier::truncate] (bounds.1 as u32);
    if width == 0 || height == 0 {
        return Err(EncodeError::Empty);
    }
    if width as u64 * 24 > usize::MAX as u64 {
        return Err(EncodeError::TooWide);
    }
    if !holds_three_per_pixel(pixels.len(), width, height) {
        return Err(EncodeError::WrongSize);
    }
    encoded(png_encode(pixels, width, height))
}

} // verus!
