//! Avatars are 128×128 PNG images.

use vstd::prelude::*;

verus! {

/// Avatars are square images of this many pixels per side.
pub const AVATAR_SIZE: u32 = 128;

/// The width and height of the image that `data` encodes, if it decodes.
pub uninterp spec fn spec_image_dimensions(data: Seq<u8>) -> Option<(u32, u32)>;

/// `image::load_from_memory`: decodes the image (format guessed from the
/// bytes) and reports its width and height; `None` when it does not decode.
#[verifier::external_body]
fn image_dimensions(data: &[u8]) -> (r: Option<(u32, u32)>)
    ensures
        r == spec_image_dimensions(data@),
{
    image::load_from_memory(data).ok().map(|img| (img.width(), img.height()))
}

/// A stored avatar as it should be: a PNG (never empty) that decodes to a
/// 128×128 image.
pub open spec fn is_avatar_png(p: Seq<u8>) -> bool {
    p.len() > 0 && spec_image_dimensions(p) == Some((AVATAR_SIZE, AVATAR_SIZE))
}

/// `DynamicImage::resize_to_fill` (Lanczos3) of the decoded image, then
/// `write_with_encoder` with a `PngEncoder`; `None` when the bytes do not
/// decode or the PNG cannot be written. `resize_to_fill` scales the image to
/// cover `w`×`h` and crops it to exactly that size, and the PNG written
/// (signature first, so never empty) decodes to an image of that size. The
/// sizes are bounded so that the scaled image stays far below `u32::MAX`
/// pixels a side, where `resize_to_fill` would clamp. Which pixel values
/// come out is left unsaid: the resampling is floating point, whose results
/// std does not promise to be the same on every platform.
#[verifier::external_body]
fn fill_png(data: &[u8], w: u32, h: u32) -> (r: Option<Vec<u8>>)
    requires
        0 < w <= AVATAR_SIZE,
        0 < h <= AVATAR_SIZE,
    ensures
        spec_image_dimensions(data@) is None ==> r is None,
        r matches Some(png) ==> png@.len() > 0 && spec_image_dimensions(png@) == Some((w, h)),
{
    let img = image::load_from_memory(data).ok()?;
    let img = img.resize_to_fill(w, h, image::imageops::FilterType::Lanczos3);
    let mut buf = Vec::new();
    img.write_with_encoder(image::codecs::png::PngEncoder::new(&mut buf)).ok()?;
    Some(buf)
}

/// An image the user picked, as an avatar: scaled and cropped to a 128×128
/// PNG; nothing when the bytes are not an image.
pub fn avatar_png_from_image(data: &[u8]) -> (r: Option<Vec<u8>>)
    ensures
        spec_image_dimensions(data@) is None ==> r is None,
        r matches Some(png) ==> is_avatar_png(png@),
{
    fill_png(data, AVATAR_SIZE, AVATAR_SIZE)
}

/// The avatar from the contents of the stored avatar file: nothing when the
/// file is empty or not an image, the file itself when it already is a
/// 128×128 image, else a re-encoded 128×128 PNG (when the encoder manages).
/// The flag says that it was re-encoded and should be written back; what
/// comes out is a 128×128 avatar, so a file written back is kept as it is the
/// next time.
pub fn load_avatar(data: Vec<u8>) -> (r: Option<(Vec<u8>, bool)>)
    ensures
        (data@.len() == 0 || spec_image_dimensions(data@) is None) ==> r is None,
        is_avatar_png(data@) ==> (r matches Some((png, rewritten)) && png@ == data@ && !rewritten),
        r matches Some((png, rewritten)) ==> is_avatar_png(png@) && rewritten == !is_avatar_png(data@)
            && (!rewritten ==> png@ == data@),
        r matches Some((png, rewritten)) ==> (rewritten ==> spec_image_dimensions(png@) == Some(
            (AVATAR_SIZE, AVATAR_SIZE),
        )),
{
    if data.len() == 0 {
        return None;
    }
    match image_dimensions(data.as_slice()) {
        None => None,
        Some((w, h)) => {
            if w == AVATAR_SIZE && h == AVATAR_SIZE {
                Some((data, false))
            } else {
                match fill_png(data.as_slice(), AVATAR_SIZE, AVATAR_SIZE) {
                    Some(png) => Some((png, true)),
                    None => None,
                }
            }
        },
    }
}

} // verus!
