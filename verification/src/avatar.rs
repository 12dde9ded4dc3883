//! The content type a profile avatar is uploaded with, read from its bytes.
use crate::text::{decimal, push_decimal, push_str};
use image::ImageFormat;
use vstd::prelude::*;

verus! {

#[verifier::external_type_specification]
#[verifier::external_body]
pub struct ExImageFormat(ImageFormat);

/// The image formats an avatar may have, and the rest.
#[derive(Clone, Copy, Debug, PartialEq, Eq)]
pub enum ImageKind {
    Png,
    Jpeg,
    Gif,
    WebP,
    Other,
}

/// The format `image::guess_format` finds from a block's magic bytes;
/// `None` when it recognises none.
pub uninterp spec fn guessed_format(bytes: Seq<u8>) -> Option<ImageFormat>;

/// Which of the avatar formats an `ImageFormat` is.
pub uninterp spec fn format_kind(format: ImageFormat) -> ImageKind;

/// Whether `image::load_from_memory_with_format` decodes the bytes as that
/// format.
pub uninterp spec fn decodes_as(bytes: Seq<u8>, format: ImageFormat) -> bool;

/// `image::guess_format(bytes)`, its error dropped. The contract only names
/// the result.
#[verifier::external_body]
fn guess_image_format(bytes: &[u8]) -> (r: Option<ImageFormat>)
    ensures
        r == guessed_format(bytes@),
{
    image::guess_format(bytes).ok()
}

/// Tells the avatar formats apart among `ImageFormat`'s variants.
#[verifier::external_body]
fn image_format_kind(format: ImageFormat) -> (r: ImageKind)
    ensures
        r == format_kind(format),
{
    match format {
        ImageFormat::Png => ImageKind::Png,
        ImageFormat::Jpeg => ImageKind::Jpeg,
        ImageFormat::Gif => ImageKind::Gif,
        ImageFormat::WebP => ImageKind::WebP,
        _ => ImageKind::Other,
    }
}

/// Whether `image::load_from_memory_with_format(bytes, format)` succeeds.
/// The contract only names the result.
#[verifier::external_body]
fn image_decodes_as(bytes: &[u8], format: ImageFormat) -> (r: bool)
    ensures
        r == decodes_as(bytes@, format),
{
    image::load_from_memory_with_format(bytes, format).is_ok()
}

/// The error for data that is not a decodable image.
pub open spec fn invalid_avatar_message() -> Seq<char> {
    "profile avatar must contain valid PNG, JPEG, GIF, or WebP image data"@
}

/// The error for an image of another format.
pub open spec fn unsupported_avatar_message() -> Seq<char> {
    "profile avatar must be a PNG, JPEG, GIF, or WebP image"@
}

/// The content type of an avatar image of a kind that decoded, or the error.
pub open spec fn content_type_of(decoded: bool, kind: ImageKind) -> Result<Seq<char>, Seq<char>> {
    if !decoded {
        Err(invalid_avatar_message())
    } else {
        match kind {
            ImageKind::Png => Ok("image/png"@),
            ImageKind::Jpeg => Ok("image/jpeg"@),
            ImageKind::Gif => Ok("image/gif"@),
            ImageKind::WebP => Ok("image/webp"@),
            ImageKind::Other => Err(unsupported_avatar_message()),
        }
    }
}

/// The views of a result of texts.
pub open spec fn result_view(r: Result<String, String>) -> Result<Seq<char>, Seq<char>> {
    match r {
        Ok(s) => Ok(s@),
        Err(e) => Err(e@),
    }
}

/// The content type of an avatar of the given kind, once it is known
/// whether the bytes decoded as that kind.
pub fn avatar_content_type_for(decoded: bool, kind: ImageKind) -> (r: Result<String, String>)
    ensures
        result_view(r) == content_type_of(decoded, kind),
{
    if !decoded {
        return Err("profile avatar must contain valid PNG, JPEG, GIF, or WebP image data".to_string());
    }
    match kind {
        ImageKind::Png => Ok("image/png".to_string()),
        ImageKind::Jpeg => Ok("image/jpeg".to_string()),
        ImageKind::Gif => Ok("image/gif".to_string()),
        ImageKind::WebP => Ok("image/webp".to_string()),
        ImageKind::Other => Err("profile avatar must be a PNG, JPEG, GIF, or WebP image".to_string()),
    }
}

/// The content type of an avatar image, from its bytes: the format the
/// magic bytes show, when the bytes decode as that format and it is PNG,
/// JPEG, GIF or WebP.
pub open spec fn avatar_content_type(bytes: Seq<u8>) -> Result<Seq<char>, Seq<char>> {
    match guessed_format(bytes) {
        None => Err(invalid_avatar_message()),
        Some(format) => content_type_of(decodes_as(bytes, format), format_kind(format)),
    }
}

/// The content type to upload an avatar image with, or why it is refused.
pub fn profile_avatar_content_type(bytes: &[u8]) -> (r: Result<String, String>)
    ensures
        result_view(r) == avatar_content_type(bytes@),
{
    let format = match guess_image_format(bytes) {
        Some(format) => format,
        None => {
            return Err("profile avatar must contain valid PNG, JPEG, GIF, or WebP image data".to_string());
        },
    };
    let decoded = image_decodes_as(bytes, format);
    let kind = image_format_kind(format);
    avatar_content_type_for(decoded, kind)
}

/// An avatar image ready to upload.
pub struct ProfileAvatarImage {
    pub content_type: String,
    pub bytes: Vec<u8>,
}

/// The error for an avatar larger than the limit.
pub open spec fn avatar_too_large_message(size: nat) -> Seq<char> {
    "profile avatar is too large: "@ + decimal(size) + " bytes"@
}

/// Refuses an avatar of `size` bytes when it is over `max_bytes`.
pub fn check_profile_avatar_size(size: u64, max_bytes: u64) -> (r: Result<(), String>)
    ensures
        r is Ok <==> size <= max_bytes,
        r matches Err(m) ==> m@ == avatar_too_large_message(size as nat),
{
    if size > max_bytes {
        let mut message = String::new();
        push_str(&mut message, "profile avatar is too large: ");
        push_decimal(&mut message, size);
        push_str(&mut message, " bytes");
        return Err(message);
    }
    Ok(())
}

/// The avatar to upload from image bytes already read: refused when larger
/// than `max_bytes`, else with the content type its bytes show, or refused
/// as `profile_avatar_content_type` refuses them.
pub fn profile_avatar_image(bytes: Vec<u8>, max_bytes: u64) -> (r: Result<ProfileAvatarImage, String>)
    ensures
        bytes@.len() > max_bytes ==> (r matches Err(m) && m@ == avatar_too_large_message(bytes@.len())),
        bytes@.len() <= max_bytes ==> match avatar_content_type(bytes@) {
            Ok(t) => r matches Ok(image) && image.content_type@ == t && image.bytes@ == bytes@,
            Err(e) => r matches Err(m) && m@ == e,
        },
{
    let size = bytes.len() as u64;
    match check_profile_avatar_size(size, max_bytes) {
        Ok(()) => {},
        Err(message) => return Err(message),
    }
    match profile_avatar_content_type(bytes.as_slice()) {
        Ok(content_type) => Ok(ProfileAvatarImage { content_type, bytes }),
        Err(message) => Err(message),
    }
}

} // verus!
