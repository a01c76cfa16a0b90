use vstd::prelude::*;

use image::codecs::png::{CompressionType, FilterType, PngEncoder};
use image::{ExtendedColorType, ImageEncoder};

use crate::errors::IconError;
use crate::img::CanonicalImage;

verus! {

/// The error type of the `image` crate, carried opaquely through the PNG
/// encoder's result.
#[verifier::external_type_specification]
#[verifier::external_body]
pub struct ExImageError(image::ImageError);

/// The PNG byte stream (maximum compression, adaptive row filtering) that the
/// encoder yields for a given RGBA8 buffer and its dimensions.
pub uninterp spec fn png_bytes_of(pixels: Seq<u8>, width: int, height: int) -> Seq<u8>;

/// Relies on `image::codecs::png::PngEncoder` with `CompressionType::Best`
/// and `FilterType::Adaptive`: a pure encoding of the RGBA8 buffer,
/// determined by the buffer and its dimensions alone. Writing into a `Vec`,
/// the underlying encoder fails only on zero dimensions or an invalid
/// color-depth combination; both are excluded here, so the call succeeds.
#[verifier::external_body]
fn png_encode_rgba(pixels: &Vec<u8>, width: u32, height: u32) -> (r: Result<Vec<u8>, image::ImageError>)
    requires
        pixels@.len() == 4 * width * height,
        width >= 1,
        height >= 1,
    ensures
        r is Ok,
        r matches Ok(v) ==> v@ == png_bytes_of(pixels@, width as int, height as int),
{
    let mut buf: Vec<u8> = Vec::new();
    let enc = PngEncoder::new_with_quality(&mut buf, CompressionType::Best, FilterType::Adaptive);
    enc.write_image(pixels.as_slice(), width, height, ExtendedColorType::Rgba8)?;
    Ok(buf)
}

/// Encodes an RGBA8 buffer as one PNG byte stream (maximum compression,
/// adaptive row filtering). An internal encoder fault would be fatal and
/// surface as `IconError::Encode`; on a well-formed buffer the encoder does
/// not fault, so success is owed.
pub fn encode_png(img: &CanonicalImage) -> (r: Result<Vec<u8>, IconError>)
    requires
        img.wf(),
    ensures
        r is Ok,
        r matches Ok(v) ==> v@ == png_bytes_of(img.pixels@, img.width as int, img.height as int),
{
    match png_encode_rgba(&img.pixels, img.width, img.height) {
        Ok(v) => Ok(v),
        Err(_) => Err(IconError::Encode),
    }
}

} // verus!
