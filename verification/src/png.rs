//! Encoding a decoded image as PNG.

use image::DynamicImage;
use image::ImageOutputFormat;
use std::io::Cursor;
use vstd::prelude::*;

verus! {

/// A decoded image. The backend only hands it to the encoder.
#[verifier::external_type_specification]
#[verifier::external_body]
pub struct ExDynamicImage(image::DynamicImage);

/// The PNG encoding of `image`, or the text of the error with which the
/// encoder refuses it.
pub uninterp spec fn png_encoding(image: DynamicImage) -> Result<Seq<u8>, Seq<char>>;

/// The result of an encoding as mathematical values.
pub open spec fn encoding_view(res: Result<Vec<u8>, String>) -> Result<Seq<u8>, Seq<char>> {
    match res {
        Ok(bytes) => Ok(bytes@),
        Err(message) => Err(message@),
    }
}

/// Calls `image::DynamicImage::write_to` with the PNG format on a buffer in
/// memory. The contract only gives the outcome its name, [`png_encoding`]:
/// the bytes written where the encoder succeeds, the text of its error
/// where it fails. Nothing is claimed of what the bytes are.
#[verifier::external_body]
pub(crate) fn encode_png(image: &DynamicImage) -> (res: Result<Vec<u8>, String>)
    ensures
        encoding_view(res) == png_encoding(*image),
{
    let mut bytes = Cursor::new(Vec::new());
    match image.write_to(&mut bytes, ImageOutputFormat::Png) {
        Ok(()) => Ok(bytes.into_inner()),
        Err(error) => Err(error.to_string()),
    }
}

} // verus!
