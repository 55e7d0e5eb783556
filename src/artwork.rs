use vstd::prelude::*;

use crate::event::MediaInfo;

verus! {

/// Side of the square that artwork is scaled down to fit in.
pub const THUMBNAIL_SIDE: u32 = 50;

#[verifier::external_type_specification]
#[verifier::external_body]
pub struct ExDynamicImage(image::DynamicImage);

#[verifier::external_type_specification]
#[verifier::external_body]
pub struct ExImageError(image::ImageError);

/// Relies on image::load_from_memory: it guesses the format from the bytes and
/// decodes them. Nothing is stated of success: the formats it recognises can be
/// extended at run time through the crate's hook registries.
#[verifier::external_body]
fn decode_image(bytes: &[u8]) -> (r: Result<image::DynamicImage, image::ImageError>) {
    image::load_from_memory(bytes)
}

/// Relies on image::DynamicImage::thumbnail: the image scaled to fit in `side`
/// by `side` pixels (each side at least one pixel), keeping its aspect ratio;
/// `to_rgba8` and `into_raw` only convert the result to raw RGBA bytes, four
/// per pixel.
#[verifier::external_body]
fn thumbnail_rgba(img: &image::DynamicImage, side: u32) -> (r: Vec<u8>)
    requires
        side >= 1,
    ensures
        r@.len() % 4 == 0,
        4 <= r@.len() <= 4 * side * side,
{
    img.thumbnail(side, side).to_rgba8().into_raw()
}

/// `info` with the thumbnail `thumb` as its artwork; no update when the
/// image could not be decoded (`thumb` is `None`).
pub fn with_thumbnail(info: MediaInfo, thumb: Option<Vec<u8>>) -> (r: Option<MediaInfo>)
    ensures
        r == match thumb {
            Some(p) => Some(MediaInfo { artwork: Some(p), ..info }),
            None => None::<MediaInfo>,
        },
{
    match thumb {
        Some(p) => Some(MediaInfo { artwork: Some(p), ..info }),
        None => None,
    }
}

/// Attaches the thumbnail of the encoded cover image `image` to `info`.
/// Without an image the update is kept as it is; an image that cannot be
/// decoded drops the update.
pub fn attach_artwork(info: MediaInfo, image: Option<Vec<u8>>) -> (r: Option<MediaInfo>)
    ensures
        image is None ==> r == Some(info),
        r matches Some(m) ==> m.title == info.title && m.artist == info.artist && m.album
            == info.album && m.is_shuffle == info.is_shuffle,
        image is Some ==> (r matches Some(m) ==> (m.artwork matches Some(a) && a@.len() % 4 == 0
            && 4 <= a@.len() <= 4 * THUMBNAIL_SIDE * THUMBNAIL_SIDE)),
{
    match image {
        None => Some(info),
        Some(bytes) => {
            let thumb = match decode_image(bytes.as_slice()) {
                Ok(img) => Some(thumbnail_rgba(&img, THUMBNAIL_SIDE)),
                Err(_) => None,
            };
            with_thumbnail(info, thumb)
        },
    }
}

} // verus!
