//! Image orientation probing: reading width and height from an image
//! header (done by the `image` crate) and deciding portrait versus
//! landscape, also for members of a zip archive.
use vstd::prelude::*;
use crate::archive::{zip_member, zip_member_bytes};

verus! {

/// The `(width, height)` the image header in `bytes` declares, or nothing
/// when the bytes are not a readable image.
pub uninterp spec fn image_dimensions(bytes: Seq<u8>) -> Option<(u32, u32)>;

/// Relies on image::ImageReader::into_dimensions: reading width and height
/// from the image header, a function of the bytes alone — provided no code
/// in the process registers format-detection or decoding hooks with the
/// `image` crate (its hook registry is process-global and would let the
/// same bytes answer differently); an embedding program must not register
/// any.
#[verifier::external_body]
pub(crate) fn dimensions_of_bytes(bytes: &[u8]) -> (r: Option<(u32, u32)>)
    ensures
        r == image_dimensions(bytes@),
{
    let reader = image::ImageReader::new(std::io::Cursor::new(bytes));
    match reader.with_guessed_format() {
        Ok(reader) => reader.into_dimensions().ok(),
        Err(_) => None,
    }
}

/// Portrait means strictly taller than wide; unreadable bytes count as
/// landscape, so they are never paired in spread view.
pub open spec fn is_portrait_spec(bytes: Seq<u8>) -> bool {
    match image_dimensions(bytes) {
        Some(d) => d.1 > d.0,
        None => false,
    }
}

pub fn is_portrait_bytes(bytes: &[u8]) -> (r: bool)
    ensures
        r == is_portrait_spec(bytes@),
{
    match dimensions_of_bytes(bytes) {
        Some(d) => d.1 > d.0,
        None => false,
    }
}

/// Orientation of one member of a zip archive: the member's bytes are
/// extracted and probed; a missing or unreadable member counts as
/// landscape.
pub open spec fn member_portrait_spec(archive: Seq<u8>, name: Seq<char>) -> bool {
    match zip_member(archive, name) {
        Some(d) => is_portrait_spec(d),
        None => false,
    }
}

pub fn is_portrait_member(archive: &[u8], name: &str) -> (r: bool)
    ensures
        r == member_portrait_spec(archive@, name@),
{
    match zip_member_bytes(archive, name) {
        Some(d) => is_portrait_bytes(d.as_slice()),
        None => false,
    }
}

} // verus!
