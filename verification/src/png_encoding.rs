//! PNG encoding through the `png` crate.
use vstd::prelude::*;

use crate::errors::PngStep;
use crate::screenshots::image_len;

verus! {

/// The bytes that the `png` crate's encoder writes for an 8-bit RGBA image of
/// the given size whose rows, top row first, are `pixels`.
pub uninterp spec fn png_rgba8_encoding(width: u32, height: u32, pixels: Seq<u8>) -> Seq<u8>;

/// The eight bytes every PNG file starts with.
pub open spec fn png_signature() -> Seq<u8> {
    seq![137u8, 80u8, 78u8, 71u8, 13u8, 10u8, 26u8, 10u8]
}

/// Encodes an 8-bit RGBA image with `png::Encoder` (default compression and
/// filter) into memory, through `write_header`, `write_image_data` and `finish`.
///
/// Claimed of the `png` crate: writing into a `Vec` fails only where the header
/// is refused (zero width or height) or the image data does not hold exactly
/// `width * 4 * height` bytes (`finish` cannot fail, sequence validation being
/// off by default); the output starts with the PNG signature and goes on with
/// the header, data and end chunks; and the output is a function of the size and
/// the pixel bytes, named [`png_rgba8_encoding`]. On failure the error names the
/// call that failed and carries the encoder's message.
#[verifier::external_body]
pub(crate) fn encode_png_rgba8(width: u32, height: u32, pixels: &[u8]) -> (res: Result<
    Vec<u8>,
    (PngStep, String),
>)
    requires
        image_len(width as int, height as int) <= usize::MAX,
    ensures
        res is Ok <==> (width > 0 && height > 0 && pixels@.len() == image_len(
            width as int,
            height as int,
        )),
        res matches Ok(bytes) ==> bytes@ == png_rgba8_encoding(width, height, pixels@),
        res matches Ok(bytes) ==> bytes@.len() > 8 && bytes@.subrange(0, 8) == png_signature(),
        res matches Err((step, _)) ==> step == (if width == 0 || height == 0 {
            PngStep::Header
        } else {
            PngStep::Data
        }),
{
    let mut out: Vec<u8> = Vec::new();
    let mut encoder = png::Encoder::new(&mut out, width, height);
    encoder.set_color(png::ColorType::Rgba);
    encoder.set_depth(png::BitDepth::Eight);
    let mut writer = match encoder.write_header() {
        Ok(writer) => writer,
        Err(e) => return Err((PngStep::Header, e.to_string())),
    };
    if let Err(e) = writer.write_image_data(pixels) {
        return Err((PngStep::Data, e.to_string()));
    }
    if let Err(e) = writer.finish() {
        return Err((PngStep::Finish, e.to_string()));
    }
    Ok(out)
}

} // verus!
