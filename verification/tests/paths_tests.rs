use civiewer::paths::{extension_lower, file_name_of, find_last_char, join_path, strip_ancestor,
    to_ascii_lower};
use civiewer::utils::{has_zip_extension, is_apng_bytes, is_supported_image};

#[test]
fn file_name_takes_last_component() {
    assert_eq!(file_name_of("/a/b/c.png"), "c.png");
    assert_eq!(file_name_of("c.png"), "c.png");
    assert_eq!(file_name_of("/a/b/"), "");
}

#[test]
fn find_last_char_finds_last() {
    assert_eq!(find_last_char("a/b/c", '/'), Some(3));
    assert_eq!(find_last_char("abc", '/'), None);
    assert_eq!(find_last_char("", '/'), None);
}

#[test]
fn extension_is_lowercased() {
    assert_eq!(extension_lower("/a/b/photo.JPG").as_deref(), Some("jpg"));
    assert_eq!(extension_lower("archive.ZiP").as_deref(), Some("zip"));
    assert_eq!(extension_lower("noext").as_deref(), None);
    assert_eq!(extension_lower(".hidden").as_deref(), None);
    assert_eq!(extension_lower("a.tar.gz").as_deref(), Some("gz"));
    assert_eq!(extension_lower("/dir.d/noext").as_deref(), None);
}

#[test]
fn ascii_lower_leaves_other_chars() {
    assert_eq!(to_ascii_lower("AbC-12"), "abc-12");
    assert_eq!(to_ascii_lower("日本語A"), "日本語a");
}

#[test]
fn join_adds_one_separator() {
    assert_eq!(join_path("/a/b", "c.png"), "/a/b/c.png");
    assert_eq!(join_path("/", "c.png"), "/c.png");
    assert_eq!(join_path("/a/b/x.zip", "img/page1.png"), "/a/b/x.zip/img/page1.png");
}

#[test]
fn strip_ancestor_inverts_join() {
    assert_eq!(
        strip_ancestor("/a/b/x.zip/img/page1.png", "/a/b/x.zip").as_deref(),
        Some("img/page1.png")
    );
    assert_eq!(strip_ancestor("/a/b/x.zip", "/a/b/x.zip"), None);
    assert_eq!(strip_ancestor("/a/c/other", "/a/b"), None);
}

#[test]
fn supported_images_are_the_closed_set() {
    for p in ["x.jpg", "x.JPEG", "x.png", "x.gif", "x.webp", "x.BMP"] {
        assert!(is_supported_image(p), "{p}");
    }
    for p in ["x.zip", "x.txt", "x", ".png", "x.jpg.txt"] {
        assert!(!is_supported_image(p), "{p}");
    }
}

#[test]
fn zip_extension_is_case_insensitive() {
    assert!(has_zip_extension("a.zip"));
    assert!(has_zip_extension("/d/A.ZIP"));
    assert!(!has_zip_extension("a.zipx"));
    assert!(!has_zip_extension("azip"));
}

const PNG_SIG: [u8; 8] = [0x89, 0x50, 0x4e, 0x47, 0x0d, 0x0a, 0x1a, 0x0a];

fn chunk(ty: &[u8; 4], data: &[u8]) -> Vec<u8> {
    let mut out = Vec::new();
    out.extend_from_slice(&(data.len() as u32).to_be_bytes());
    out.extend_from_slice(ty);
    out.extend_from_slice(data);
    out.extend_from_slice(&[0, 0, 0, 0]); // checksum field (not read by the probe)
    out
}

#[test]
fn apng_detected_when_actl_precedes_idat() {
    let mut bytes = PNG_SIG.to_vec();
    bytes.extend(chunk(b"IHDR", &[0; 13]));
    bytes.extend(chunk(b"acTL", &[0; 8]));
    bytes.extend(chunk(b"IDAT", &[0; 4]));
    assert!(is_apng_bytes(&bytes));
}

#[test]
fn plain_png_is_not_apng() {
    let mut bytes = PNG_SIG.to_vec();
    bytes.extend(chunk(b"IHDR", &[0; 13]));
    bytes.extend(chunk(b"IDAT", &[0; 4]));
    bytes.extend(chunk(b"acTL", &[0; 8])); // too late: image data came first
    assert!(!is_apng_bytes(&bytes));
}

#[test]
fn apng_probe_rejects_short_or_foreign_bytes() {
    assert!(!is_apng_bytes(&[]));
    assert!(!is_apng_bytes(&PNG_SIG[..4]));
    assert!(!is_apng_bytes(b"GIF89a trailing"));
    // signature alone, chunk list runs out
    assert!(!is_apng_bytes(&PNG_SIG));
}
