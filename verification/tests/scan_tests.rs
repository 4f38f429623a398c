use civiewer::scan::{scan_directory_custom, FsEntryKind, RawEntry};
use civiewer::sort::SortType;

fn dir(name: &str, mtime: u64, size: u64) -> RawEntry {
    RawEntry { name: name.to_string(), kind: FsEntryKind::Dir, mtime: Some(mtime), size }
}

fn file(name: &str, mtime: u64, size: u64) -> RawEntry {
    RawEntry { name: name.to_string(), kind: FsEntryKind::File, mtime: Some(mtime), size }
}

fn container_names(entries: Vec<RawEntry>, sort: SortType, tops: bool) -> Vec<String> {
    let (conts, _) = scan_directory_custom("/root", entries, sort, SortType::NameAsc, tops);
    conts.into_iter().map(|c| c.name).collect()
}

#[test]
fn containers_sort_by_natural_name_with_archives_first() {
    let entries = vec![
        dir("chapter10", 1, 0),
        file("pack2.zip", 1, 0),
        dir("chapter2", 1, 0),
        file("pack10.zip", 1, 0),
        dir("chapter1", 1, 0),
    ];
    let names = container_names(entries, SortType::NameAsc, true);
    assert_eq!(names, ["pack2.zip", "pack10.zip", "chapter1", "chapter2", "chapter10"]);
}

#[test]
fn archives_on_top_off_inverts_only_the_grouping() {
    let entries = vec![
        dir("chapter10", 1, 0),
        file("pack2.zip", 1, 0),
        dir("chapter2", 1, 0),
        file("pack10.zip", 1, 0),
        dir("chapter1", 1, 0),
    ];
    let names = container_names(entries, SortType::NameAsc, false);
    assert_eq!(names, ["chapter1", "chapter2", "chapter10", "pack2.zip", "pack10.zip"]);
}

#[test]
fn date_sort_is_stable_under_regrouping() {
    // dirB is newest; archiveA and dirC tie on the older date.
    let entries = vec![
        dir("dirB", 2, 0),
        file("archiveA.zip", 1, 0),
        dir("dirC", 1, 0),
    ];
    let names = container_names(entries, SortType::DateAsc, true);
    // date ties keep input order (archiveA before dirC), and the grouping
    // pass moves the archive up without swapping the tied directories.
    assert_eq!(names, ["archiveA.zip", "dirC", "dirB"]);
}

#[test]
fn scan_twice_gives_the_same_lists() {
    let make = || {
        vec![
            dir("b dir", 5, 1),
            file("002.png", 3, 10),
            file("001.png", 4, 20),
            file("arch.zip", 2, 30),
            dir("a dir", 6, 2),
        ]
    };
    let (c1, i1) = scan_directory_custom("/r", make(), SortType::DateDesc, SortType::SizeAsc, true);
    let (c2, i2) = scan_directory_custom("/r", make(), SortType::DateDesc, SortType::SizeAsc, true);
    let c1n: Vec<_> = c1.iter().map(|c| (c.name.clone(), c.path.clone(), c.is_archive)).collect();
    let c2n: Vec<_> = c2.iter().map(|c| (c.name.clone(), c.path.clone(), c.is_archive)).collect();
    let i1n: Vec<_> = i1.iter().map(|e| (e.name.clone(), e.path.clone(), e.ordinal)).collect();
    let i2n: Vec<_> = i2.iter().map(|e| (e.name.clone(), e.path.clone(), e.ordinal)).collect();
    assert_eq!(c1n, c2n);
    assert_eq!(i1n, i2n);
}

#[test]
fn hidden_directories_and_unsupported_files_are_skipped() {
    let entries = vec![
        dir(".config", 1, 0),
        dir("visible", 1, 0),
        file("notes.txt", 1, 0),
        file("img.png", 1, 0),
    ];
    let (conts, imgs) = scan_directory_custom(
        "/root",
        entries,
        SortType::NameAsc,
        SortType::NameAsc,
        true,
    );
    assert_eq!(conts.len(), 1);
    assert_eq!(conts[0].name, "visible");
    assert!(!conts[0].is_archive);
    assert_eq!(conts[0].path, "/root/visible");
    assert_eq!(imgs.len(), 1);
    assert_eq!(imgs[0].name, "img.png");
    assert_eq!(imgs[0].path, "/root/img.png");
    assert_eq!(imgs[0].ordinal, 1);
}

#[test]
fn hidden_archives_are_excluded_from_containers() {
    let entries = vec![
        file(".hidden.zip", 1, 0),
        file("shown.zip", 1, 0),
        dir(".dot", 1, 0),
        dir("plain", 1, 0),
    ];
    let (conts, _) = scan_directory_custom(
        "/root",
        entries,
        SortType::NameAsc,
        SortType::NameAsc,
        true,
    );
    let names: Vec<_> = conts.iter().map(|c| c.name.as_str()).collect();
    assert_eq!(names, ["shown.zip", "plain"]);
    assert!(conts.iter().all(|c| !c.name.starts_with('.')));
}

#[test]
fn hidden_images_still_list() {
    // only the container list excludes hidden names
    let entries = vec![file(".cover.png", 1, 0), file("page.png", 1, 0)];
    let (_, imgs) = scan_directory_custom(
        "/root",
        entries,
        SortType::NameAsc,
        SortType::NameAsc,
        true,
    );
    let names: Vec<_> = imgs.iter().map(|e| e.name.as_str()).collect();
    assert_eq!(names, [".cover.png", "page.png"]);
}

#[test]
fn images_sort_naturally_and_get_ordinals() {
    let entries = vec![
        file("page10.png", 1, 0),
        file("page2.png", 1, 0),
        file("page1.png", 1, 0),
    ];
    let (_, imgs) = scan_directory_custom("/m", entries, SortType::NameAsc, SortType::NameAsc, true);
    let got: Vec<_> = imgs.iter().map(|e| (e.name.as_str(), e.ordinal)).collect();
    assert_eq!(got, [("page1.png", 1), ("page2.png", 2), ("page10.png", 3)]);
}

#[test]
fn name_desc_reverses_the_ascending_order() {
    let entries = vec![
        file("a2.png", 1, 0),
        file("a10.png", 1, 0),
        file("a1.png", 1, 0),
    ];
    let (_, imgs) = scan_directory_custom("/m", entries, SortType::NameAsc, SortType::NameDesc, true);
    let got: Vec<_> = imgs.iter().map(|e| e.name.as_str()).collect();
    assert_eq!(got, ["a10.png", "a2.png", "a1.png"]);
}

#[test]
fn size_sort_orders_by_bytes() {
    let entries = vec![
        file("big.png", 1, 300),
        file("small.png", 1, 10),
        file("mid.png", 1, 100),
    ];
    let (_, imgs) = scan_directory_custom("/m", entries, SortType::NameAsc, SortType::SizeAsc, true);
    let got: Vec<_> = imgs.iter().map(|e| e.name.as_str()).collect();
    assert_eq!(got, ["small.png", "mid.png", "big.png"]);
    let entries = vec![
        file("big.png", 1, 300),
        file("small.png", 1, 10),
        file("mid.png", 1, 100),
    ];
    let (_, imgs) = scan_directory_custom("/m", entries, SortType::NameAsc, SortType::SizeDesc, true);
    let got: Vec<_> = imgs.iter().map(|e| e.name.as_str()).collect();
    assert_eq!(got, ["big.png", "mid.png", "small.png"]);
}

#[test]
fn scanned_images_classify_back_as_images() {
    let entries = vec![
        file("b.webp", 1, 0),
        file("a.PNG", 1, 0),
        dir("sub", 1, 0),
        file("skip.txt", 1, 0),
    ];
    let (_, imgs) = scan_directory_custom("/r", entries, SortType::NameAsc, SortType::NameAsc, true);
    assert_eq!(imgs.len(), 2);
    for e in &imgs {
        let r = civiewer::classify::classify(
            &e.path,
            civiewer::classify::PathStatus::RegularFile,
            None,
        );
        assert_eq!(r, civiewer::classify::Classification::Image, "{}", e.path);
    }
}

#[test]
fn empty_listing_scans_empty() {
    let (conts, imgs) = scan_directory_custom(
        "/r",
        Vec::new(),
        SortType::NameAsc,
        SortType::NameAsc,
        true,
    );
    assert!(conts.is_empty());
    assert!(imgs.is_empty());
}

#[test]
fn missing_mtime_sorts_first() {
    let entries = vec![
        file("known.png", 7, 0),
        RawEntry {
            name: "unknown.png".to_string(),
            kind: FsEntryKind::File,
            mtime: None,
            size: 0,
        },
    ];
    let (_, imgs) = scan_directory_custom("/m", entries, SortType::NameAsc, SortType::DateAsc, true);
    let got: Vec<_> = imgs.iter().map(|e| e.name.as_str()).collect();
    assert_eq!(got, ["unknown.png", "known.png"]);
}
