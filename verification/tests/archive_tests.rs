use std::io::{Cursor, Write};

use civiewer::classify::{classify, Classification, PathStatus};
use civiewer::orient::{is_portrait_bytes, is_portrait_member};
use civiewer::scan::scan_archive_bytes;
use civiewer::sort::SortType;

fn png_bytes(width: u32, height: u32) -> Vec<u8> {
    let img = image::RgbImage::new(width, height);
    let mut out = Cursor::new(Vec::new());
    img.write_to(&mut out, image::ImageFormat::Png).unwrap();
    out.into_inner()
}

fn sample_zip() -> Vec<u8> {
    let mut w = zip::ZipWriter::new(Cursor::new(Vec::new()));
    let opts = zip::write::SimpleFileOptions::default();
    w.start_file("img/page10.png", opts).unwrap();
    w.write_all(&png_bytes(2, 3)).unwrap();
    w.start_file("readme.txt", opts).unwrap();
    w.write_all(b"not an image").unwrap();
    w.start_file("img/page2.png", opts).unwrap();
    w.write_all(&png_bytes(3, 2)).unwrap();
    w.start_file("cover.jpg", opts).unwrap();
    w.write_all(&png_bytes(1, 1)).unwrap();
    w.finish().unwrap().into_inner()
}

#[test]
fn archive_scan_filters_sorts_and_numbers() {
    let bytes = sample_zip();
    let imgs = scan_archive_bytes("/a/b/book.zip", &bytes, SortType::NameAsc);
    let got: Vec<_> = imgs.iter().map(|e| (e.name.as_str(), e.path.as_str(), e.ordinal)).collect();
    assert_eq!(
        got,
        [
            ("cover.jpg", "/a/b/book.zip/cover.jpg", 1),
            ("img/page2.png", "/a/b/book.zip/img/page2.png", 2),
            ("img/page10.png", "/a/b/book.zip/img/page10.png", 3),
        ]
    );
}

#[test]
fn archive_scan_falls_back_to_name_order_for_date_and_size() {
    let bytes = sample_zip();
    let asc = scan_archive_bytes("/r/book.zip", &bytes, SortType::DateAsc);
    let asc_names: Vec<_> = asc.iter().map(|e| e.name.as_str()).collect();
    assert_eq!(asc_names, ["cover.jpg", "img/page2.png", "img/page10.png"]);
    let desc = scan_archive_bytes("/r/book.zip", &bytes, SortType::SizeDesc);
    let desc_names: Vec<_> = desc.iter().map(|e| e.name.as_str()).collect();
    assert_eq!(desc_names, ["img/page10.png", "img/page2.png", "cover.jpg"]);
}

#[test]
fn corrupt_archive_scans_empty() {
    let imgs = scan_archive_bytes("/r/bad.zip", b"this is no zip archive", SortType::NameAsc);
    assert!(imgs.is_empty());
}

#[test]
fn portrait_means_taller_than_wide() {
    assert!(is_portrait_bytes(&png_bytes(2, 3)));
    assert!(!is_portrait_bytes(&png_bytes(3, 2)));
    assert!(!is_portrait_bytes(&png_bytes(2, 2)));
    assert!(!is_portrait_bytes(b"garbage bytes"));
}

#[test]
fn member_orientation_reads_through_the_archive() {
    let bytes = sample_zip();
    assert!(is_portrait_member(&bytes, "img/page10.png"));
    assert!(!is_portrait_member(&bytes, "img/page2.png"));
    assert!(!is_portrait_member(&bytes, "missing.png"));
    assert!(!is_portrait_member(b"no zip", "img/page10.png"));
}

#[test]
fn classify_resolves_zip_members_through_the_nearest_file_ancestor() {
    let r = classify(
        "/a/b/archive.zip/img/page1.png",
        PathStatus::Missing,
        Some("/a/b/archive.zip"),
    );
    match r {
        Classification::ArchiveMember { archive, member } => {
            assert_eq!(archive, "/a/b/archive.zip");
            assert_eq!(member, "img/page1.png");
        },
        other => panic!("unexpected classification {:?}", other),
    }
}

#[test]
fn archive_scan_entries_classify_back_as_members() {
    let bytes = sample_zip();
    let imgs = scan_archive_bytes("/a/b/book.zip", &bytes, SortType::NameAsc);
    assert!(!imgs.is_empty());
    for e in &imgs {
        let r = classify(&e.path, PathStatus::Missing, Some("/a/b/book.zip"));
        match r {
            Classification::ArchiveMember { archive, member } => {
                assert_eq!(archive, "/a/b/book.zip");
                assert_eq!(member, e.name);
            },
            other => panic!("{} classified as {:?}", e.path, other),
        }
    }
}

#[test]
fn classify_by_status_and_extension() {
    assert_eq!(classify("/d", PathStatus::Directory, None), Classification::Directory);
    assert_eq!(classify("/d/a.ZIP", PathStatus::RegularFile, None), Classification::Archive);
    assert_eq!(classify("/d/a.webp", PathStatus::RegularFile, None), Classification::Image);
    assert_eq!(classify("/d/a.txt", PathStatus::RegularFile, None), Classification::NotFound);
    assert_eq!(classify("/d/a.png", PathStatus::Missing, None), Classification::NotFound);
    // nearest file ancestor that is not a zip stops the walk with no match
    assert_eq!(
        classify("/d/a.tar/x.png", PathStatus::Missing, Some("/d/a.tar")),
        Classification::NotFound
    );
}
