//! The PNG files of the images a conversion writes.

use vstd::prelude::*;
use crate::nds::decode_texture::RGBABuf;

verus! {

#[verifier::external_type_specification]
#[verifier::external_body]
pub struct ExEncodingError(png::EncodingError);

/// The bytes the `png` crate writes for an RGBA image of 8 bits per
/// channel, `width` by `height` pixels, with the pixels `rgba`.
pub uninterp spec fn png_rgba8(rgba: Seq<u8>, width: u32, height: u32) -> Seq<u8>;

/// The eight bytes every PNG file starts with.
pub open spec fn png_signature() -> Seq<u8> {
    seq![137u8, 80, 78, 71, 13, 10, 26, 10]
}

/// Encodes an RGBA image with the `png` crate (`Encoder::new` on a `Vec`,
/// RGBA colour, 8 bit depth, `write_header`, `write_image_data`, `finish`).
/// The crate's source refuses a zero width or height and pixel data whose
/// length is not 4 bytes per pixel, and writing to a `Vec` does not fail
/// otherwise; the file starts with the PNG signature. The rest of the bytes
/// are named, not stated.
#[verifier::external_body]
fn encode_rgba8(rgba: &[u8], width: u32, height: u32) -> (r: Result<Vec<u8>, png::EncodingError>)
    requires
        4 * width * height <= usize::MAX,
    ensures
        r is Ok <==> (width > 0 && height > 0 && rgba@.len() == 4 * width * height),
        r matches Ok(v) ==> v@ == png_rgba8(rgba@, width, height) && v@.len() >= 8
            && v@.take(8) == png_signature(),
{
    let mut out = Vec::new();
    let mut encoder = png::Encoder::new(&mut out, width, height);
    encoder.set_color(png::ColorType::Rgba);
    encoder.set_depth(png::BitDepth::Eight);
    let mut writer = encoder.write_header()?;
    writer.write_image_data(rgba)?;
    writer.finish()?;
    Ok(out)
}

/// Why an image could not be saved.
pub enum ImageSaveError {
    /// The PNG encoder refused the image.
    Encoding(png::EncodingError),
}

/// The PNG file of a decoded `dim.0` by `dim.1` image: refused exactly when
/// a side is zero or the pixels are not 4 bytes each.
pub fn rgba_png(buf: &RGBABuf, dim: (u32, u32)) -> (r: Result<Vec<u8>, ImageSaveError>)
    requires
        4 * dim.0 * dim.1 <= usize::MAX,
    ensures
        r is Ok <==> (dim.0 > 0 && dim.1 > 0 && buf.0@.len() == 4 * dim.0 * dim.1),
        r matches Ok(v) ==> v@ == png_rgba8(buf.0@, dim.0, dim.1) && v@.take(8) == png_signature(),
{
    match encode_rgba8(buf.0.as_slice(), dim.0, dim.1) {
        Ok(bytes) => Ok(bytes),
        Err(e) => Err(ImageSaveError::Encoding(e)),
    }
}

} // verus!
