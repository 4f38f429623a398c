//! Scanning a root location into ordered listings.
//!
//! A directory root yields two lists: child containers (sub-directories and
//! zip archives) and leaf images, each fully sorted under the active sort
//! policy; an archive root yields its image members, always name-ordered
//! (metadata of zip members is not read, so date and size orders fall back
//! to the name order). The embedding program enumerates the directory (or
//! reads the archive file's bytes) and hands the raw listing here;
//! everything after that point is computed and verified.
use vstd::prelude::*;
use crate::archive::{zip_entry_names, zip_names};
use crate::classify::{
    classify_spec, lemma_extension_no_trailing_separator, lemma_join_file_name,
    lemma_plain_file_name, lemma_strip_join, wf_base_name, ClassificationV, PathStatus,
};
use crate::natural::natural_cmp;
use crate::paths::{join_path, join_spec};
use crate::sort::{
    all_of, base_field, descending, group_containers, group_containers_spec, insert_sorted_spec,
    lemma_filter_keeps_sorted, lemma_filter_preserves_all, lemma_filter_push,
    lemma_grouping_preserves_group_order, lemma_sort_preserves_all, lemma_stable_sort_sorted_tr,
    sort_entries, sort_listing, sorted_adj, sorted_listing_spec, stable_sort_spec, entry_le,
    reverse_entries, is_descending, transitive_field, ScanEntry, SortField, SortType,
};
use crate::utils::{
    has_zip_extension, has_zip_extension_spec, is_supported_image, is_supported_image_spec,
    lemma_supported_not_zip,
};

verus! {

/// What the directory reader saw a direct child to be.
#[derive(Debug, Clone, Copy, PartialEq, Eq, Structural)]
pub enum FsEntryKind {
    File,
    Dir,
}

/// One direct child of a directory, as the embedding program read it: its
/// base name (no separators), its kind, and the metadata the date and size
/// orders use (`None` and `0` when unreadable).
#[derive(Debug)]
pub struct RawEntry {
    pub name: String,
    pub kind: FsEntryKind,
    pub mtime: Option<u64>,
    pub size: u64,
}

/// A navigable sub-location of the scanned root: a sub-directory or a zip
/// archive.
#[derive(Debug)]
pub struct ContainerEntry {
    pub name: String,
    pub path: String,
    pub is_archive: bool,
}

/// One leaf image of the scanned root; `ordinal` is its 1-based position in
/// the sorted listing.
#[derive(Debug)]
pub struct ImageEntry {
    pub name: String,
    pub path: String,
    pub ordinal: usize,
}

/// A hidden entry is one whose name starts with `.`; hidden entries are
/// excluded from the container list.
pub open spec fn hidden_name(n: Seq<char>) -> bool {
    n.len() > 0 && n[0] == '.'
}

/// A directory child becomes a container when it is a directory and not
/// hidden.
pub open spec fn keep_container(r: RawEntry) -> bool {
    r.kind == FsEntryKind::Dir && !hidden_name(r.name@)
}

/// A file child becomes a container too when it is a zip archive (and not a
/// supported image); hidden archives are excluded like hidden directories.
pub open spec fn keep_archive(r: RawEntry) -> bool {
    r.kind == FsEntryKind::File && !hidden_name(r.name@) && !is_supported_image_spec(r.name@)
        && has_zip_extension_spec(r.name@)
}

/// A file child becomes an image when its extension is supported.
pub open spec fn keep_image(r: RawEntry) -> bool {
    r.kind == FsEntryKind::File && is_supported_image_spec(r.name@)
}

pub open spec fn candidate_of(r: RawEntry) -> ScanEntry {
    ScanEntry {
        name: r.name,
        is_archive: r.kind == FsEntryKind::File,
        mtime: r.mtime,
        size: r.size,
    }
}

/// The container entries a directory listing keeps, in listing order.
pub open spec fn container_candidates(raws: Seq<RawEntry>) -> Seq<ScanEntry> {
    raws.filter(|r: RawEntry| keep_container(r) || keep_archive(r)).map_values(
        |r: RawEntry| candidate_of(r),
    )
}

/// The image entries a directory listing keeps, in listing order.
pub open spec fn image_candidates(raws: Seq<RawEntry>) -> Seq<ScanEntry> {
    raws.filter(|r: RawEntry| keep_image(r)).map_values(|r: RawEntry| candidate_of(r))
}

/// What the container list of a directory scan must be: the kept children,
/// stably sorted under `dir_sort`, regrouped by the archive flag, each with
/// its path joined under the root.
pub open spec fn containers_rel(
    root: Seq<char>,
    raws: Seq<RawEntry>,
    dir_sort: SortType,
    archives_on_top: bool,
    out: Seq<ContainerEntry>,
) -> bool {
    let cs = group_containers_spec(
        sorted_listing_spec(container_candidates(raws), dir_sort),
        archives_on_top,
    );
    &&& out.len() == cs.len()
    &&& forall|i: int|
        0 <= i < cs.len() ==> {
            &&& (#[trigger] out[i]).name == cs[i].name
            &&& out[i].is_archive == cs[i].is_archive
            &&& out[i].path@ == join_spec(root, cs[i].name@)
        }
}

/// What the image list of a directory scan must be: the kept children,
/// stably sorted under `image_sort`, numbered from 1, each with its path
/// joined under the root.
pub open spec fn images_rel(
    root: Seq<char>,
    raws: Seq<RawEntry>,
    image_sort: SortType,
    out: Seq<ImageEntry>,
) -> bool {
    let is = sorted_listing_spec(image_candidates(raws), image_sort);
    &&& out.len() == is.len()
    &&& forall|i: int|
        0 <= i < is.len() ==> {
            &&& (#[trigger] out[i]).name == is[i].name
            &&& out[i].path@ == join_spec(root, is[i].name@)
            &&& out[i].ordinal == i + 1
        }
}

fn make_candidate(r: RawEntry) -> (e: ScanEntry)
    ensures
        e == candidate_of(r),
{
    let is_file = match r.kind {
        FsEntryKind::File => true,
        FsEntryKind::Dir => false,
    };
    ScanEntry { name: r.name, is_archive: is_file, mtime: r.mtime, size: r.size }
}

/// Splits a raw directory listing into container and image candidates, in
/// listing order.
fn split_candidates(raws: Vec<RawEntry>) -> (r: (Vec<ScanEntry>, Vec<ScanEntry>))
    ensures
        r.0@ == container_candidates(raws@),
        r.1@ == image_candidates(raws@),
{
    let ghost orig = raws@;
    let ghost keep_c = |x: RawEntry| keep_container(x) || keep_archive(x);
    let ghost keep_i = |x: RawEntry| keep_image(x);
    let mut rest = raws;
    let mut conts: Vec<ScanEntry> = Vec::new();
    let mut imgs: Vec<ScanEntry> = Vec::new();
    let ghost k: int = 0;
    while rest.len() > 0
        invariant
            0 <= k <= orig.len(),
            rest@ == orig.subrange(k, orig.len() as int),
            keep_c == (|x: RawEntry| keep_container(x) || keep_archive(x)),
            keep_i == (|x: RawEntry| keep_image(x)),
            conts@ == orig.subrange(0, k).filter(keep_c).map_values(
                |x: RawEntry| candidate_of(x),
            ),
            imgs@ == orig.subrange(0, k).filter(keep_i).map_values(|x: RawEntry| candidate_of(x)),
        decreases rest@.len(),
    {
        let r = rest.remove(0);
        proof {
            assert(r == orig[k]);
            assert(rest@ =~= orig.subrange(k + 1, orig.len() as int));
            assert(orig.subrange(0, k + 1) =~= orig.subrange(0, k).push(orig[k]));
            lemma_filter_push(orig.subrange(0, k), keep_c, orig[k]);
            lemma_filter_push(orig.subrange(0, k), keep_i, orig[k]);
        }
        let is_dir = match r.kind {
            FsEntryKind::Dir => true,
            FsEntryKind::File => false,
        };
        let nl = r.name.as_str().unicode_len();
        let hidden = nl > 0 && r.name.as_str().get_char(0) == '.';
        proof {
            assert(hidden == hidden_name(r.name@));
        }
        if is_dir {
            if !hidden {
                let ghost rr = r;
                let e = make_candidate(r);
                conts.push(e);
                proof {
                    assert(conts@ =~= orig.subrange(0, k).filter(keep_c).map_values(
                        |x: RawEntry| candidate_of(x),
                    ).push(candidate_of(rr)));
                    assert(orig.subrange(0, k + 1).filter(keep_c).map_values(
                        |x: RawEntry| candidate_of(x),
                    ) =~= conts@);
                    assert(orig.subrange(0, k + 1).filter(keep_i) =~= orig.subrange(0, k).filter(
                        keep_i,
                    ));
                }
            } else {
                proof {
                    assert(orig.subrange(0, k + 1).filter(keep_c) =~= orig.subrange(0, k).filter(
                        keep_c,
                    ));
                    assert(orig.subrange(0, k + 1).filter(keep_i) =~= orig.subrange(0, k).filter(
                        keep_i,
                    ));
                }
            }
        } else {
            let supported = is_supported_image(r.name.as_str());
            if supported {
                let ghost rr = r;
                let e = make_candidate(r);
                imgs.push(e);
                proof {
                    assert(imgs@ =~= orig.subrange(0, k).filter(keep_i).map_values(
                        |x: RawEntry| candidate_of(x),
                    ).push(candidate_of(rr)));
                    assert(orig.subrange(0, k + 1).filter(keep_i).map_values(
                        |x: RawEntry| candidate_of(x),
                    ) =~= imgs@);
                    assert(orig.subrange(0, k + 1).filter(keep_c) =~= orig.subrange(0, k).filter(
                        keep_c,
                    ));
                }
            } else if !hidden && has_zip_extension(r.name.as_str()) {
                let ghost rr = r;
                let e = make_candidate(r);
                conts.push(e);
                proof {
                    assert(conts@ =~= orig.subrange(0, k).filter(keep_c).map_values(
                        |x: RawEntry| candidate_of(x),
                    ).push(candidate_of(rr)));
                    assert(orig.subrange(0, k + 1).filter(keep_c).map_values(
                        |x: RawEntry| candidate_of(x),
                    ) =~= conts@);
                    assert(orig.subrange(0, k + 1).filter(keep_i) =~= orig.subrange(0, k).filter(
                        keep_i,
                    ));
                }
            } else {
                proof {
                    assert(orig.subrange(0, k + 1).filter(keep_c) =~= orig.subrange(0, k).filter(
                        keep_c,
                    ));
                    assert(orig.subrange(0, k + 1).filter(keep_i) =~= orig.subrange(0, k).filter(
                        keep_i,
                    ));
                }
            }
        }
        proof {
            k = k + 1;
        }
    }
    proof {
        assert(orig.subrange(0, orig.len() as int) =~= orig);
    }
    (conts, imgs)
}

/// Attaches paths to an ordered container listing.
fn build_containers(root: &str, v: Vec<ScanEntry>) -> (r: Vec<ContainerEntry>)
    ensures
        r@.len() == v@.len(),
        forall|i: int|
            0 <= i < v@.len() ==> {
                &&& (#[trigger] r@[i]).name == v@[i].name
                &&& r@[i].is_archive == v@[i].is_archive
                &&& r@[i].path@ == join_spec(root@, v@[i].name@)
            },
{
    let ghost orig = v@;
    let mut rest = v;
    let mut out: Vec<ContainerEntry> = Vec::new();
    while rest.len() > 0
        invariant
            out@.len() <= orig.len(),
            rest@ == orig.subrange(out@.len() as int, orig.len() as int),
            forall|i: int|
                0 <= i < out@.len() ==> {
                    &&& (#[trigger] out@[i]).name == orig[i].name
                    &&& out@[i].is_archive == orig[i].is_archive
                    &&& out@[i].path@ == join_spec(root@, orig[i].name@)
                },
        decreases rest@.len(),
    {
        let ghost k = out@.len() as int;
        let e = rest.remove(0);
        proof {
            assert(e == orig[k]);
            assert(rest@ =~= orig.subrange(k + 1, orig.len() as int));
        }
        let p = join_path(root, e.name.as_str());
        out.push(ContainerEntry { name: e.name, path: p, is_archive: e.is_archive });
    }
    out
}

/// Attaches paths and 1-based ordinals to an ordered image listing.
fn build_images(root: &str, v: Vec<ScanEntry>) -> (r: Vec<ImageEntry>)
    ensures
        r@.len() == v@.len(),
        forall|i: int|
            0 <= i < v@.len() ==> {
                &&& (#[trigger] r@[i]).name == v@[i].name
                &&& r@[i].path@ == join_spec(root@, v@[i].name@)
                &&& r@[i].ordinal == i + 1
            },
{
    let ghost orig = v@;
    let mut rest = v;
    let n0 = rest.len();
    let mut out: Vec<ImageEntry> = Vec::new();
    while rest.len() > 0
        invariant
            orig.len() == n0,
            out@.len() <= orig.len(),
            rest@ == orig.subrange(out@.len() as int, orig.len() as int),
            forall|i: int|
                0 <= i < out@.len() ==> {
                    &&& (#[trigger] out@[i]).name == orig[i].name
                    &&& out@[i].path@ == join_spec(root@, orig[i].name@)
                    &&& out@[i].ordinal == i + 1
                },
        decreases rest@.len(),
    {
        let ghost k = out@.len() as int;
        let e = rest.remove(0);
        proof {
            assert(e == orig[k]);
            assert(rest@ =~= orig.subrange(k + 1, orig.len() as int));
        }
        let p = join_path(root, e.name.as_str());
        proof {
            assert(out@.len() < orig.len());
        }
        let ord = out.len() + 1;
        out.push(ImageEntry { name: e.name, path: p, ordinal: ord });
    }
    out
}

/// Scans one directory listing: classifies each child, sorts both lists
/// under their sort orders, regroups the containers by the archive flag and
/// numbers the images. Skipped children (hidden directories and archives,
/// unsupported files) appear in neither list.
pub fn scan_directory_custom(
    root: &str,
    entries: Vec<RawEntry>,
    dir_sort: SortType,
    image_sort: SortType,
    archives_on_top: bool,
) -> (r: (Vec<ContainerEntry>, Vec<ImageEntry>))
    ensures
        containers_rel(root@, entries@, dir_sort, archives_on_top, r.0@),
        images_rel(root@, entries@, image_sort, r.1@),
        sorted_adj(
            stable_sort_spec(container_candidates(entries@), base_field(dir_sort)),
            base_field(dir_sort),
        ),
        sorted_adj(
            stable_sort_spec(image_candidates(entries@), base_field(image_sort)),
            base_field(image_sort),
        ),
{
    let (conts, imgs) = split_candidates(entries);
    let sorted_conts = sort_listing(conts, dir_sort);
    let grouped = group_containers(sorted_conts, archives_on_top);
    let sorted_imgs = sort_listing(imgs, image_sort);
    let out_conts = build_containers(root, grouped);
    let out_imgs = build_images(root, sorted_imgs);
    (out_conts, out_imgs)
}

/// Scanning the same listing twice gives equal lists: the scan contract
/// determines every field of both outputs from the inputs alone.
pub proof fn lemma_scan_deterministic(
    root: Seq<char>,
    raws: Seq<RawEntry>,
    dir_sort: SortType,
    image_sort: SortType,
    archives_on_top: bool,
    c1: Seq<ContainerEntry>,
    c2: Seq<ContainerEntry>,
    i1: Seq<ImageEntry>,
    i2: Seq<ImageEntry>,
)
    requires
        containers_rel(root, raws, dir_sort, archives_on_top, c1),
        containers_rel(root, raws, dir_sort, archives_on_top, c2),
        images_rel(root, raws, image_sort, i1),
        images_rel(root, raws, image_sort, i2),
    ensures
        c1.len() == c2.len(),
        forall|i: int|
            0 <= i < c1.len() ==> (#[trigger] c1[i]).name == c2[i].name && c1[i].is_archive
                == c2[i].is_archive && c1[i].path@ == c2[i].path@,
        i1.len() == i2.len(),
        forall|i: int|
            0 <= i < i1.len() ==> (#[trigger] i1[i]).name == i2[i].name && i1[i].path@
                == i2[i].path@ && i1[i].ordinal == i2[i].ordinal,
{
}

// ---------------------------------------------------------------------------
// Archive roots.
// ---------------------------------------------------------------------------
/// `a` sorts at or before `b` in natural name order.
pub open spec fn name_le(a: Seq<char>, b: Seq<char>) -> bool {
    natural_cmp(a, b) <= 0
}

/// Where a stable insertion puts one name.
pub open spec fn insert_name_spec(s: Seq<Seq<char>>, e: Seq<char>) -> Seq<Seq<char>>
    decreases s.len(),
{
    if s.len() == 0 {
        seq![e]
    } else if !name_le(s.last(), e) {
        insert_name_spec(s.drop_last(), e).push(s.last())
    } else {
        s.push(e)
    }
}

/// The stable natural-order sort of a name list.
pub open spec fn stable_sort_names(s: Seq<Seq<char>>) -> Seq<Seq<char>>
    decreases s.len(),
{
    if s.len() == 0 {
        Seq::<Seq<char>>::empty()
    } else {
        insert_name_spec(stable_sort_names(s.drop_last()), s.last())
    }
}

pub open spec fn sorted_names_adj(s: Seq<Seq<char>>) -> bool {
    forall|i: int| 0 <= i < s.len() - 1 ==> name_le(#[trigger] s[i], s[i + 1])
}

/// The image listing of an archive: its member names with a supported
/// extension, in natural name order (reversed for a descending sort; the
/// date and size orders read no member metadata and fall back to the name
/// order).
pub open spec fn archive_image_names(ns: Seq<Seq<char>>, sort: SortType) -> Seq<Seq<char>> {
    let sorted = stable_sort_names(ns.filter(|n: Seq<char>| is_supported_image_spec(n)));
    if descending(sort) {
        sorted.reverse()
    } else {
        sorted
    }
}

/// What the image list of an archive scan must be, given the archive's
/// member names.
pub open spec fn archive_images_rel(
    root: Seq<char>,
    ns: Seq<Seq<char>>,
    sort: SortType,
    out: Seq<ImageEntry>,
) -> bool {
    let listing = archive_image_names(ns, sort);
    &&& out.len() == listing.len()
    &&& forall|i: int|
        0 <= i < listing.len() ==> {
            &&& (#[trigger] out[i]).name@ == listing[i]
            &&& out[i].path@ == join_spec(root, listing[i])
            &&& out[i].ordinal == i + 1
        }
}

pub open spec fn name_views(s: Seq<ScanEntry>) -> Seq<Seq<char>> {
    s.map_values(|e: ScanEntry| e.name@)
}

proof fn lemma_insert_name_commutes(s: Seq<ScanEntry>, e: ScanEntry)
    ensures
        name_views(insert_sorted_spec(s, e, SortField::Name)) == insert_name_spec(
            name_views(s),
            e.name@,
        ),
    decreases s.len(),
{
    if s.len() == 0 {
        assert(name_views(insert_sorted_spec(s, e, SortField::Name)) =~= insert_name_spec(
            name_views(s),
            e.name@,
        ));
    } else {
        assert(name_views(s).last() == s.last().name@);
        assert(name_views(s).drop_last() =~= name_views(s.drop_last()));
        if !entry_le(s.last(), e, SortField::Name) {
            lemma_insert_name_commutes(s.drop_last(), e);
            assert(name_views(insert_sorted_spec(s, e, SortField::Name)) =~= insert_name_spec(
                name_views(s),
                e.name@,
            ));
        } else {
            assert(name_views(insert_sorted_spec(s, e, SortField::Name)) =~= insert_name_spec(
                name_views(s),
                e.name@,
            ));
        }
    }
}

proof fn lemma_sort_names_commutes(s: Seq<ScanEntry>)
    ensures
        name_views(stable_sort_spec(s, SortField::Name)) == stable_sort_names(name_views(s)),
    decreases s.len(),
{
    if s.len() == 0 {
        assert(name_views(stable_sort_spec(s, SortField::Name)) =~= stable_sort_names(
            name_views(s),
        ));
    } else {
        lemma_sort_names_commutes(s.drop_last());
        lemma_insert_name_commutes(stable_sort_spec(s.drop_last(), SortField::Name), s.last());
        assert(name_views(s).drop_last() =~= name_views(s.drop_last()));
        assert(name_views(s).last() == s.last().name@);
    }
}

/// Scans an archive's member names: keeps the supported images, sorts them
/// by natural name order (reversed when the sort is descending), numbers
/// them from 1 and joins each synthetic path under the archive path.
pub fn scan_archive_entries(root: &str, names: Vec<String>, image_sort: SortType) -> (r: Vec<
    ImageEntry,
>)
    ensures
        archive_images_rel(root@, names@.map_values(|s: String| s@), image_sort, r@),
        sorted_names_adj(
            stable_sort_names(
                names@.map_values(|s: String| s@).filter(|n: Seq<char>| is_supported_image_spec(n)),
            ),
        ),
{
    let ghost orig = names@;
    let ghost keep = |n: Seq<char>| is_supported_image_spec(n);
    let mut rest = names;
    let mut cands: Vec<ScanEntry> = Vec::new();
    let ghost k: int = 0;
    while rest.len() > 0
        invariant
            0 <= k <= orig.len(),
            rest@ == orig.subrange(k, orig.len() as int),
            keep == (|n: Seq<char>| is_supported_image_spec(n)),
            name_views(cands@) == orig.subrange(0, k).map_values(|s: String| s@).filter(keep),
            forall|i: int|
                0 <= i < cands@.len() ==> !(#[trigger] cands@[i]).is_archive && cands@[i].mtime
                    is None && cands@[i].size == 0,
        decreases rest@.len(),
    {
        let n = rest.remove(0);
        proof {
            assert(n == orig[k]);
            assert(rest@ =~= orig.subrange(k + 1, orig.len() as int));
            assert(orig.subrange(0, k + 1).map_values(|s: String| s@) =~= orig.subrange(
                0,
                k,
            ).map_values(|s: String| s@).push(orig[k]@));
            lemma_filter_push(orig.subrange(0, k).map_values(|s: String| s@), keep, orig[k]@);
        }
        if is_supported_image(n.as_str()) {
            let ghost nn = n@;
            cands.push(ScanEntry { name: n, is_archive: false, mtime: Option::None, size: 0 });
            proof {
                assert(name_views(cands@) =~= orig.subrange(0, k).map_values(
                    |s: String| s@,
                ).filter(keep).push(nn));
            }
        }
        proof {
            k = k + 1;
        }
    }
    proof {
        assert(orig.subrange(0, orig.len() as int) =~= orig);
    }
    let ghost kept_views = orig.map_values(|s: String| s@).filter(keep);
    let mut sorted = sort_entries(cands, SortField::Name);
    proof {
        lemma_sort_names_commutes(cands@);
        assert(name_views(sorted@) == stable_sort_names(kept_views));
    }
    proof {
        assert forall|i: int|
            0 <= i < name_views(sorted@).len() - 1 implies name_le(
            #[trigger] name_views(sorted@)[i],
            name_views(sorted@)[i + 1],
        ) by {
            assert(entry_le(sorted@[i], sorted@[i + 1], SortField::Name));
        }
    }
    if is_descending(image_sort) {
        let ghost asc = sorted@;
        reverse_entries(&mut sorted);
        proof {
            assert(name_views(sorted@) =~= name_views(asc).reverse());
        }
    }
    let r = build_images(root, sorted);
    proof {
        assert forall|i: int|
            0 <= i < archive_image_names(
                orig.map_values(|s: String| s@),
                image_sort,
            ).len() implies {
            &&& (#[trigger] r@[i]).name@ == archive_image_names(
                orig.map_values(|s: String| s@),
                image_sort,
            )[i]
            &&& r@[i].path@ == join_spec(
                root@,
                archive_image_names(orig.map_values(|s: String| s@), image_sort)[i],
            )
            &&& r@[i].ordinal == i + 1
        } by {
            assert(r@[i].name == sorted@[i].name);
            assert(name_views(sorted@)[i] == sorted@[i].name@);
        }
    }
    r
}

/// The archive listing is deterministic in the same way: two scans of the
/// same member names agree entry by entry.
pub proof fn lemma_archive_scan_deterministic(
    root: Seq<char>,
    ns: Seq<Seq<char>>,
    image_sort: SortType,
    o1: Seq<ImageEntry>,
    o2: Seq<ImageEntry>,
)
    requires
        archive_images_rel(root, ns, image_sort, o1),
        archive_images_rel(root, ns, image_sort, o2),
    ensures
        o1.len() == o2.len(),
        forall|i: int|
            0 <= i < o1.len() ==> (#[trigger] o1[i]).name@ == o2[i].name@ && o1[i].path@
                == o2[i].path@ && o1[i].ordinal == o2[i].ordinal,
{
}

// ---------------------------------------------------------------------------
// Round trips back through the classifier.
// ---------------------------------------------------------------------------
/// A raw listing is well formed when every child's name is a base name:
/// nonempty and free of separators, as a directory reader yields them.
pub open spec fn wf_raw_entries(raws: Seq<RawEntry>) -> bool {
    forall|i: int| 0 <= i < raws.len() ==> wf_base_name((#[trigger] raws[i]).name@)
}

proof fn lemma_insert_name_preserves_all(s: Seq<Seq<char>>, e: Seq<char>, p: spec_fn(Seq<char>) -> bool)
    requires
        all_of(s, p),
        p(e),
    ensures
        all_of(insert_name_spec(s, e), p),
    decreases s.len(),
{
    if s.len() == 0 {
    } else if !name_le(s.last(), e) {
        assert(all_of(s.drop_last(), p)) by {
            assert(forall|i: int| 0 <= i < s.len() - 1 ==> s.drop_last()[i] == s[i]);
        }
        lemma_insert_name_preserves_all(s.drop_last(), e, p);
        let rec = insert_name_spec(s.drop_last(), e);
        assert forall|i: int|
            0 <= i < insert_name_spec(s, e).len() implies p(#[trigger] insert_name_spec(s, e)[i]) by {
            if i < rec.len() {
                assert(insert_name_spec(s, e)[i] == rec[i]);
            } else {
                assert(insert_name_spec(s, e)[i] == s.last());
            }
        }
    } else {
        assert forall|i: int|
            0 <= i < insert_name_spec(s, e).len() implies p(#[trigger] insert_name_spec(s, e)[i]) by {
            if i < s.len() {
                assert(insert_name_spec(s, e)[i] == s[i]);
            } else {
                assert(insert_name_spec(s, e)[i] == e);
            }
        }
    }
}

proof fn lemma_sort_names_preserves_all(s: Seq<Seq<char>>, p: spec_fn(Seq<char>) -> bool)
    requires
        all_of(s, p),
    ensures
        all_of(stable_sort_names(s), p),
    decreases s.len(),
{
    if s.len() > 0 {
        assert(all_of(s.drop_last(), p)) by {
            assert(forall|i: int| 0 <= i < s.len() - 1 ==> s.drop_last()[i] == s[i]);
        }
        lemma_sort_names_preserves_all(s.drop_last(), p);
        lemma_insert_name_preserves_all(stable_sort_names(s.drop_last()), s.last(), p);
    }
}

/// Every image entry a directory scan returns classifies back as an image:
/// the scan never emits an entry the classifier would not recognise.
pub proof fn lemma_scan_images_classify_back(
    root: Seq<char>,
    raws: Seq<RawEntry>,
    image_sort: SortType,
    out: Seq<ImageEntry>,
)
    requires
        images_rel(root, raws, image_sort, out),
        wf_raw_entries(raws),
    ensures
        forall|i: int, anc: Option<Seq<char>>|
            0 <= i < out.len() ==> #[trigger] classify_spec(
                out[i].path@,
                PathStatus::RegularFile,
                anc,
            ) == ClassificationV::Image,
{
    broadcast use vstd::seq_lib::group_filter_ensures;

    let keep = |r: RawEntry| keep_image(r);
    let kept = raws.filter(keep);
    let good = |e: ScanEntry| is_supported_image_spec(e.name@) && wf_base_name(e.name@);
    lemma_filter_preserves_all(raws, keep, |r: RawEntry| wf_base_name(r.name@));
    let cands = image_candidates(raws);
    assert(all_of(cands, good)) by {
        assert forall|i: int| 0 <= i < cands.len() implies good(#[trigger] cands[i]) by {
            assert(cands[i] == candidate_of(kept[i]));
            assert(keep(kept[i]));
            assert(wf_base_name(kept[i].name@));
        }
    }
    let f = base_field(image_sort);
    lemma_sort_preserves_all(cands, f, good);
    let sorted = stable_sort_spec(cands, f);
    let listing = sorted_listing_spec(cands, image_sort);
    assert(all_of(listing, good)) by {
        if descending(image_sort) {
            assert forall|i: int| 0 <= i < listing.len() implies good(#[trigger] listing[i]) by {
                assert(listing[i] == sorted[sorted.len() - 1 - i]);
            }
        }
    }
    assert forall|i: int, anc: Option<Seq<char>>|
        0 <= i < out.len() implies #[trigger] classify_spec(
        out[i].path@,
        PathStatus::RegularFile,
        anc,
    ) == ClassificationV::Image by {
        assert(good(listing[i]));
        let name = listing[i].name@;
        lemma_join_file_name(root, name);
        lemma_plain_file_name(name);
        assert(out[i].path@ == join_spec(root, name));
        assert(is_supported_image_spec(out[i].path@));
        lemma_supported_not_zip(out[i].path@);
    }
}

/// Every image entry an archive scan returns classifies back as a member
/// of that archive, wrapping a supported image name.
pub proof fn lemma_archive_scan_classify_back(
    root: Seq<char>,
    ns: Seq<Seq<char>>,
    image_sort: SortType,
    out: Seq<ImageEntry>,
)
    requires
        has_zip_extension_spec(root),
        archive_images_rel(root, ns, image_sort, out),
    ensures
        forall|i: int|
            0 <= i < out.len() ==> is_supported_image_spec((#[trigger] out[i]).name@),
        forall|i: int|
            0 <= i < out.len() ==> #[trigger] classify_spec(
                out[i].path@,
                PathStatus::Missing,
                Some(root),
            ) == ClassificationV::ArchiveMember(root, out[i].name@),
{
    broadcast use vstd::seq_lib::group_filter_ensures;

    let keep = |n: Seq<char>| is_supported_image_spec(n);
    let kept = ns.filter(keep);
    lemma_sort_names_preserves_all(kept, keep);
    let sorted = stable_sort_names(kept);
    let listing = archive_image_names(ns, image_sort);
    assert(all_of(listing, keep)) by {
        if descending(image_sort) {
            assert forall|i: int| 0 <= i < listing.len() implies keep(#[trigger] listing[i]) by {
                assert(listing[i] == sorted[sorted.len() - 1 - i]);
            }
        }
    }
    lemma_extension_no_trailing_separator(root);
    assert forall|i: int|
        0 <= i < out.len() implies #[trigger] classify_spec(
        out[i].path@,
        PathStatus::Missing,
        Some(root),
    ) == ClassificationV::ArchiveMember(root, out[i].name@) by {
        assert(keep(listing[i]));
        let name = listing[i];
        lemma_extension_no_trailing_separator(name);
        lemma_strip_join(root, name);
        assert(out[i].path@ == join_spec(root, name));
    }
    assert forall|i: int|
        0 <= i < out.len() implies is_supported_image_spec((#[trigger] out[i]).name@) by {
        assert(keep(listing[i]));
    }
}

/// Under an ascending date or size order, both groups of the grouped
/// container list are themselves sorted (the natural name order is opaque
/// to the proof, so for the name orders this is checked by tests instead).
pub proof fn lemma_grouped_containers_sorted(
    raws: Seq<RawEntry>,
    dir_sort: SortType,
    archives_on_top: bool,
)
    requires
        transitive_field(base_field(dir_sort)),
        !descending(dir_sort),
    ensures
        ({
            let grouped = group_containers_spec(
                sorted_listing_spec(container_candidates(raws), dir_sort),
                archives_on_top,
            );
            &&& sorted_adj(grouped.filter(|e: ScanEntry| e.is_archive), base_field(dir_sort))
            &&& sorted_adj(grouped.filter(|e: ScanEntry| !e.is_archive), base_field(dir_sort))
        }),
{
    let f = base_field(dir_sort);
    let sorted = sorted_listing_spec(container_candidates(raws), dir_sort);
    lemma_stable_sort_sorted_tr(container_candidates(raws), f);
    lemma_grouping_preserves_group_order(sorted, archives_on_top);
    lemma_filter_keeps_sorted(sorted, f, |e: ScanEntry| e.is_archive);
    lemma_filter_keeps_sorted(sorted, f, |e: ScanEntry| !e.is_archive);
}

/// Scans an archive root from the archive file's raw bytes: lists the
/// member names and builds the image listing from them. Bytes that do not
/// open as a zip archive give an empty listing.
pub fn scan_archive_bytes(root: &str, bytes: &[u8], image_sort: SortType) -> (r: Vec<ImageEntry>)
    ensures
        match zip_names(bytes@) {
            Some(ns) => archive_images_rel(root@, ns, image_sort, r@),
            None => r@.len() == 0,
        },
{
    match zip_entry_names(bytes) {
        Some(ns) => scan_archive_entries(root, ns, image_sort),
        None => Vec::new(),
    }
}

} // verus!
