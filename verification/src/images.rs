//! The local image cache: where a product image is stored, where offline
//! images are staged, where the server serves them, and the conversion of
//! the server's WebP files to PNG (which the screen can show).
use vstd::prelude::*;

use image::{DynamicImage, ImageError, ImageFormat};
use std::path::{Path, PathBuf};

use crate::api::endpoint;
use crate::text::push_str;

verus! {

#[verifier::external_type_specification]
#[verifier::external_body]
pub struct ExPath(Path);

#[verifier::external_type_specification]
#[verifier::external_body]
pub struct ExPathBuf(PathBuf);

#[verifier::external_type_specification]
#[verifier::external_body]
pub struct ExDynamicImage(DynamicImage);

#[verifier::external_type_specification]
#[verifier::external_body]
pub struct ExImageError(ImageError);

/// Names the owned copy of `base` that std's `Path::to_path_buf` makes.
pub uninterp spec fn owned_path(base: &Path) -> PathBuf;

/// Names the path that std's `PathBuf::push` makes of `base` and `part`.
pub uninterp spec fn pushed(base: PathBuf, part: Seq<char>) -> PathBuf;

/// Trusted: calls std's `Path::to_path_buf`, which copies `base` into an
/// owned path. The copy depends on `base` alone, so it is named by
/// `owned_path`.
#[verifier::external_body]
fn to_path_buf(base: &Path) -> (r: PathBuf)
    ensures
        r == owned_path(base),
{
    base.to_path_buf()
}

/// Trusted: calls std's `PathBuf::push`, which adjoins `part` to `buf`.
/// The new path depends on the old one and on `part` alone, so it is named
/// by `pushed`; the separator and the treatment of absolute parts, which
/// depend on the platform, are not stated.
#[verifier::external_body]
fn push_path(buf: &mut PathBuf, part: &str)
    ensures
        *final(buf) == pushed(*old(buf), part@),
{
    buf.push(part);
}

/// The file name of the cached image `image_id`: `{image_id}_medium.png`.
pub fn medium_png_name(image_id: &str) -> (r: String)
    ensures
        r@ == image_id@ + "_medium.png"@,
{
    let mut r = String::new();
    push_str(&mut r, image_id);
    push_str(&mut r, "_medium.png");
    r
}

/// Returns the local cache path for an image ID (stored as PNG):
/// `{data_dir}/images/{image_id}_medium.png`.
pub fn local_path(data_dir: &Path, image_id: &str) -> (r: PathBuf)
    ensures
        r == pushed(pushed(owned_path(data_dir), "images"@), image_id@ + "_medium.png"@),
{
    let mut r = to_path_buf(data_dir);
    push_path(&mut r, "images");
    let name = medium_png_name(image_id);
    push_path(&mut r, name.as_str());
    r
}

/// Returns the local temp path for an offline-staged image:
/// `{data_dir}/temp/{filename}`.
pub fn temp_path(data_dir: &Path, filename: &str) -> (r: PathBuf)
    ensures
        r == pushed(pushed(owned_path(data_dir), "temp"@), filename@),
{
    let mut r = to_path_buf(data_dir);
    push_path(&mut r, "temp");
    push_path(&mut r, filename);
    r
}

/// The URL the server serves the medium image `image_id` at:
/// `{base_url}/images/medium/{image_id}_medium.webp`.
pub fn medium_image_url(base_url: &str, image_id: &str) -> (r: String)
    ensures
        r@ == base_url@ + "/images/medium/"@ + image_id@ + "_medium.webp"@,
{
    let mut r = endpoint(base_url, "/images/medium/");
    push_str(&mut r, image_id);
    push_str(&mut r, "_medium.webp");
    r
}

/// The error text when the server refuses an image:
/// `"Image fetch failed: {status}"`.
pub fn fetch_failure_message(status: &str) -> (r: String)
    ensures
        r@ == "Image fetch failed: "@ + status@,
{
    endpoint("Image fetch failed: ", status)
}

/// Names what `image::load_from_memory_with_format` makes of `bytes` read
/// as WebP: a decoded image, or the decoding error.
pub uninterp spec fn webp_decoded(bytes: Seq<u8>) -> Result<DynamicImage, ImageError>;

/// Names what `image`'s `DynamicImage::write_to` writes for `img` encoded
/// as PNG: the bytes written, or the encoding error.
pub uninterp spec fn png_encoded(img: DynamicImage) -> Result<Seq<u8>, ImageError>;

/// Trusted: calls `image::load_from_memory_with_format` with the WebP
/// format. Decoding depends on the bytes alone, so the result is named by
/// `webp_decoded`; which byte strings decode is not stated.
#[verifier::external_body]
fn decode_webp(bytes: &[u8]) -> (r: Result<DynamicImage, ImageError>)
    ensures
        r == webp_decoded(bytes@),
{
    image::load_from_memory_with_format(bytes, ImageFormat::WebP)
}

/// Trusted: calls `image`'s `DynamicImage::write_to` with the PNG format
/// and an in-memory writer, and hands back what was written. Encoding
/// depends on the image alone, so the result is named by `png_encoded`;
/// the PNG bytes themselves are not stated.
#[verifier::external_body]
fn encode_png(img: &DynamicImage) -> (r: Result<Vec<u8>, ImageError>)
    ensures
        match r {
            Ok(v) => png_encoded(*img) == Ok::<Seq<u8>, ImageError>(v@),
            Err(e) => png_encoded(*img) == Err::<Seq<u8>, ImageError>(e),
        },
{
    let mut out = std::io::Cursor::new(Vec::new());
    match img.write_to(&mut out, ImageFormat::Png) {
        Ok(()) => Ok(out.into_inner()),
        Err(e) => Err(e),
    }
}

/// Why a downloaded image could not be converted.
pub enum ConvertError {
    /// The bytes are not a WebP image.
    Decode(ImageError),
    /// The decoded image could not be written as PNG.
    Encode(ImageError),
}

/// The PNG file for the WebP file `bytes`, or the step that failed.
pub open spec fn webp_as_png(bytes: Seq<u8>) -> Result<Seq<u8>, ConvertError> {
    match webp_decoded(bytes) {
        Err(e) => Err(ConvertError::Decode(e)),
        Ok(img) => match png_encoded(img) {
            Ok(png) => Ok(png),
            Err(e) => Err(ConvertError::Encode(e)),
        },
    }
}

/// Re-encodes a WebP image as PNG (the screen cannot show WebP).
pub fn webp_to_png(bytes: &[u8]) -> (r: Result<Vec<u8>, ConvertError>)
    ensures
        match r {
            Ok(v) => webp_as_png(bytes@) == Ok::<Seq<u8>, ConvertError>(v@),
            Err(e) => webp_as_png(bytes@) == Err::<Seq<u8>, ConvertError>(e),
        },
{
    match decode_webp(bytes) {
        Err(e) => Err(ConvertError::Decode(e)),
        Ok(img) => match encode_png(&img) {
            Ok(png) => Ok(png),
            Err(e) => Err(ConvertError::Encode(e)),
        },
    }
}

} // verus!
