//! Classifying one filesystem path: image, directory, zip archive, or a
//! member of a zip archive reached through a synthetic path.
//!
//! The embedding program probes the filesystem (does the path exist, and
//! which is its nearest ancestor that is a regular file?) and hands the
//! answers in; the decision itself is computed here. A path that does not
//! exist resolves as an archive member when its nearest regular-file
//! ancestor is a zip archive; only one archive boundary is ever resolved,
//! so a zip inside a zip is not found.
use vstd::prelude::*;
use crate::paths::{
    file_name_spec, find_last, join_spec, lemma_find_last, lemma_find_last_clean_suffix,
    strip_ancestor, strip_ancestor_spec,
};
use crate::utils::{has_zip_extension, has_zip_extension_spec, is_supported_image,
    is_supported_image_spec};

verus! {

/// What the filesystem said the path itself is.
#[derive(Debug, Clone, Copy, PartialEq, Eq, Structural)]
pub enum PathStatus {
    RegularFile,
    Directory,
    Missing,
}

/// What a path is to the browser.
#[derive(Debug, PartialEq, Eq)]
pub enum Classification {
    Image,
    Directory,
    Archive,
    ArchiveMember { archive: String, member: String },
    NotFound,
}

/// The classification with its strings abstracted to character sequences.
pub enum ClassificationV {
    Image,
    Directory,
    Archive,
    ArchiveMember(Seq<char>, Seq<char>),
    NotFound,
}

pub open spec fn classification_view(c: Classification) -> ClassificationV {
    match c {
        Classification::Image => ClassificationV::Image,
        Classification::Directory => ClassificationV::Directory,
        Classification::Archive => ClassificationV::Archive,
        Classification::ArchiveMember { archive, member } => ClassificationV::ArchiveMember(
            archive@,
            member@,
        ),
        Classification::NotFound => ClassificationV::NotFound,
    }
}

/// The classification decision: a directory is a container; a regular file
/// is an archive (zip extension) or an image (supported extension) or
/// nothing; a missing path is a member of its nearest regular-file ancestor
/// when that ancestor is a zip archive and a proper prefix of the path.
pub open spec fn classify_spec(
    path: Seq<char>,
    status: PathStatus,
    file_ancestor: Option<Seq<char>>,
) -> ClassificationV {
    match status {
        PathStatus::Directory => ClassificationV::Directory,
        PathStatus::RegularFile => if has_zip_extension_spec(path) {
            ClassificationV::Archive
        } else if is_supported_image_spec(path) {
            ClassificationV::Image
        } else {
            ClassificationV::NotFound
        },
        PathStatus::Missing => match file_ancestor {
            Some(a) => if has_zip_extension_spec(a) {
                match strip_ancestor_spec(path, a) {
                    Some(m) => ClassificationV::ArchiveMember(a, m),
                    None => ClassificationV::NotFound,
                }
            } else {
                ClassificationV::NotFound
            },
            None => ClassificationV::NotFound,
        },
    }
}

pub open spec fn opt_str_view(o: Option<&str>) -> Option<Seq<char>> {
    match o {
        Some(s) => Some(s@),
        None => None,
    }
}

/// Classifies `path` given what the filesystem said of it: its own status,
/// and, when it is missing, its nearest ancestor that is a regular file.
pub fn classify(path: &str, status: PathStatus, file_ancestor: Option<&str>) -> (r: Classification)
    ensures
        classification_view(r) == classify_spec(path@, status, opt_str_view(file_ancestor)),
{
    match status {
        PathStatus::Directory => Classification::Directory,
        PathStatus::RegularFile => {
            if has_zip_extension(path) {
                Classification::Archive
            } else if is_supported_image(path) {
                Classification::Image
            } else {
                Classification::NotFound
            }
        },
        PathStatus::Missing => {
            match file_ancestor {
                Some(a) => {
                    if has_zip_extension(a) {
                        match strip_ancestor(path, a) {
                            Some(m) => Classification::ArchiveMember {
                                archive: a.to_owned(),
                                member: m,
                            },
                            None => Classification::NotFound,
                        }
                    } else {
                        Classification::NotFound
                    }
                },
                None => Classification::NotFound,
            }
        },
    }
}

/// A name list is well formed when its names are nonempty and free of
/// separators, as the base names of a directory's children are.
pub open spec fn wf_base_name(name: Seq<char>) -> bool {
    name.len() > 0 && forall|j: int| 0 <= j < name.len() ==> name[j] != '/'
}

/// The file name of a joined path is the joined name, when the name has no
/// separator of its own.
pub proof fn lemma_join_file_name(root: Seq<char>, name: Seq<char>)
    requires
        forall|j: int| 0 <= j < name.len() ==> name[j] != '/',
    ensures
        file_name_spec(join_spec(root, name)) == name,
{
    let p = join_spec(root, name);
    let pre: int = if root.len() > 0 && root.last() == '/' {
        root.len() as int
    } else {
        root.len() as int + 1
    };
    assert(p.len() == pre + name.len());
    assert(p.subrange(pre, p.len() as int) =~= name);
    assert forall|j: int| pre <= j < p.len() implies p[j] != '/' by {
        assert(p[j] == name[j - pre]);
    }
    lemma_find_last_clean_suffix(p, '/', pre);
    let q = p.subrange(0, pre);
    assert(q.last() == p[pre - 1]);
    assert(p[pre - 1] == '/');
    assert(find_last(q, '/') == Some(pre - 1));
    assert(file_name_spec(p) =~= name);
}

/// A name without separators is its own file name.
pub proof fn lemma_plain_file_name(name: Seq<char>)
    requires
        forall|j: int| 0 <= j < name.len() ==> name[j] != '/',
    ensures
        file_name_spec(name) == name,
{
    lemma_find_last(name, '/');
    if find_last(name, '/') is Some {
        let i = find_last(name, '/')->0;
        assert(name[i] == '/');
    }
}

/// A path whose extension exists does not end with a separator, and is not
/// empty.
pub proof fn lemma_extension_no_trailing_separator(p: Seq<char>)
    requires
        crate::paths::extension_spec(p) is Some,
    ensures
        p.len() > 0,
        p.last() != '/',
{
    if p.len() == 0 {
        assert(file_name_spec(p) =~= p);
        lemma_find_last(file_name_spec(p), '.');
    } else if p.last() == '/' {
        assert(find_last(p, '/') == Some(p.len() - 1));
        assert(file_name_spec(p) =~= Seq::<char>::empty());
        lemma_find_last(file_name_spec(p), '.');
        assert(find_last(file_name_spec(p), '.') is None);
    }
}

/// Stripping the ancestor prefix from a joined path gives back the joined
/// name: the round trip behind archive-member resolution.
pub proof fn lemma_strip_join(root: Seq<char>, name: Seq<char>)
    requires
        root.len() > 0,
        root.last() != '/',
        name.len() > 0,
    ensures
        strip_ancestor_spec(join_spec(root, name), root) == Some(name),
{
    let p = join_spec(root, name);
    assert(p.subrange(0, root.len() as int) =~= root);
    assert(p[root.len() as int] == '/');
    assert(p.subrange(root.len() as int + 1, p.len() as int) =~= name);
}

} // verus!
