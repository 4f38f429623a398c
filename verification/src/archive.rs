//! Reading zip archives, done by the `zip` crate on in-memory bytes.
//! The embedding program reads the archive file; this module lists its
//! entries and extracts single members.
use vstd::prelude::*;

verus! {

/// The entry names of the zip archive held in `bytes`, in archive order,
/// or nothing when the bytes do not open as a zip archive.
pub uninterp spec fn zip_names(bytes: Seq<u8>) -> Option<Seq<Seq<char>>>;

/// Relies on zip::ZipArchive: opening an in-memory archive and reading each
/// entry's name, a function of the bytes alone; a corrupt archive fails to
/// open.
#[verifier::external_body]
pub(crate) fn zip_entry_names(bytes: &[u8]) -> (r: Option<Vec<String>>)
    ensures
        match r {
            Some(ns) => zip_names(bytes@) == Some(ns@.map_values(|s: String| s@)),
            None => zip_names(bytes@) is None,
        },
{
    let cursor = std::io::Cursor::new(bytes);
    match zip::ZipArchive::new(cursor) {
        Ok(mut archive) => {
            let mut names = Vec::new();
            for i in 0..archive.len() {
                if let Ok(entry) = archive.by_index(i) {
                    names.push(entry.name().to_string());
                }
            }
            Some(names)
        },
        Err(_) => None,
    }
}

/// The decompressed bytes of the member called `name` in the zip archive
/// held in `bytes`, or nothing when the archive does not open, has no such
/// member, or the member does not decompress.
pub uninterp spec fn zip_member(bytes: Seq<u8>, name: Seq<char>) -> Option<Seq<u8>>;

/// Relies on zip::ZipArchive::by_name: extracting one member of an
/// in-memory archive, a function of the bytes and the name alone.
#[verifier::external_body]
pub(crate) fn zip_member_bytes(bytes: &[u8], name: &str) -> (r: Option<Vec<u8>>)
    ensures
        match r {
            Some(d) => zip_member(bytes@, name@) == Some(d@),
            None => zip_member(bytes@, name@) is None,
        },
{
    let cursor = std::io::Cursor::new(bytes);
    let mut archive = match zip::ZipArchive::new(cursor) {
        Ok(a) => a,
        Err(_) => return None,
    };
    let mut entry = match archive.by_name(name) {
        Ok(e) => e,
        Err(_) => return None,
    };
    let mut buf = Vec::new();
    match std::io::Read::read_to_end(&mut entry, &mut buf) {
        Ok(_) => Some(buf),
        Err(_) => None,
    }
}

} // verus!
