//! Entry-kind tests on names and bytes: the supported image extensions,
//! the zip extension, and the animated-PNG probe on raw file bytes.
use vstd::prelude::*;
use vstd::slice::slice_index_get;
use crate::paths::{extension_lower, extension_lower_spec};

verus! {

/// A path names a supported image when its lowercased extension is one of
/// the closed set `jpg, jpeg, png, gif, webp, bmp`.
pub open spec fn is_supported_image_spec(p: Seq<char>) -> bool {
    match extension_lower_spec(p) {
        Some(e) => e == "jpg"@ || e == "jpeg"@ || e == "png"@ || e == "gif"@ || e == "webp"@
            || e == "bmp"@,
        None => false,
    }
}

pub fn is_supported_image(p: &str) -> (r: bool)
    ensures
        r == is_supported_image_spec(p@),
{
    match extension_lower(p) {
        Some(e) => e == "jpg".to_owned() || e == "jpeg".to_owned() || e == "png".to_owned() || e
            == "gif".to_owned() || e == "webp".to_owned() || e == "bmp".to_owned(),
        None => false,
    }
}

/// A path names a zip archive when its lowercased extension is `zip`.
pub open spec fn has_zip_extension_spec(p: Seq<char>) -> bool {
    extension_lower_spec(p) == Some("zip"@)
}

pub fn has_zip_extension(p: &str) -> (r: bool)
    ensures
        r == has_zip_extension_spec(p@),
{
    match extension_lower(p) {
        Some(e) => e == "zip".to_owned(),
        None => false,
    }
}

/// A supported image is never an archive: none of the supported extensions
/// is `zip`.
pub proof fn lemma_supported_not_zip(p: Seq<char>)
    requires
        is_supported_image_spec(p),
    ensures
        !has_zip_extension_spec(p),
{
    reveal_strlit("jpg");
    reveal_strlit("jpeg");
    reveal_strlit("png");
    reveal_strlit("gif");
    reveal_strlit("webp");
    reveal_strlit("bmp");
    reveal_strlit("zip");
    assert("zip"@[0] == 'z');
    assert("jpg"@[0] == 'j' && "jpg"@ != "zip"@);
    assert("jpeg"@.len() == 4 && "jpeg"@ != "zip"@);
    assert("png"@[0] == 'p' && "png"@ != "zip"@);
    assert("gif"@[0] == 'g' && "gif"@ != "zip"@);
    assert("webp"@.len() == 4 && "webp"@ != "zip"@);
    assert("bmp"@[0] == 'b' && "bmp"@ != "zip"@);
}

/// The eight PNG signature bytes.
pub open spec fn png_signature() -> Seq<u8> {
    seq![0x89u8, 0x50u8, 0x4eu8, 0x47u8, 0x0du8, 0x0au8, 0x1au8, 0x0au8]
}

/// The chunk type `acTL` (animation control, present only in animated PNG).
pub open spec fn actl_type() -> Seq<u8> {
    seq![0x61u8, 0x63u8, 0x54u8, 0x4cu8]
}

/// The chunk type `IDAT` (image data; `acTL` must come before it).
pub open spec fn idat_type() -> Seq<u8> {
    seq![0x49u8, 0x44u8, 0x41u8, 0x54u8]
}

/// The big-endian 32-bit value held at `bytes[i..i+4]`.
pub open spec fn be_u32_at(bytes: Seq<u8>, i: int) -> int {
    bytes[i] * 0x1000000 + bytes[i + 1] * 0x10000 + bytes[i + 2] * 0x100 + bytes[i + 3]
}

/// How many bytes are left from `offset` on (zero once `offset` overshoots).
pub open spec fn bytes_left(len: int, offset: int) -> int {
    if len >= offset {
        len - offset
    } else {
        0
    }
}

/// Walks the PNG chunk list from `offset`: true when an `acTL` chunk is met
/// before any `IDAT` chunk and before the bytes run out.
pub open spec fn apng_chunk_scan(bytes: Seq<u8>, offset: int) -> bool
    decreases bytes_left(bytes.len() as int, offset)
        when 8 <= offset
{
    if offset + 8 <= bytes.len() {
        let ty = bytes.subrange(offset + 4, offset + 8);
        if ty == actl_type() {
            true
        } else if ty == idat_type() {
            false
        } else {
            apng_chunk_scan(bytes, offset + 12 + be_u32_at(bytes, offset))
        }
    } else {
        false
    }
}

/// Animated-PNG test on raw file bytes: the PNG signature followed by a
/// chunk list that announces animation before its image data.
pub open spec fn is_apng_bytes_spec(bytes: Seq<u8>) -> bool {
    bytes.len() >= 8 && bytes.subrange(0, 8) == png_signature() && apng_chunk_scan(bytes, 8)
}

pub fn is_apng_bytes(bytes: &[u8]) -> (r: bool)
    ensures
        r == is_apng_bytes_spec(bytes@),
{
    let n = bytes.len();
    if n < 8 {
        return false;
    }
    if !(*slice_index_get(bytes, 0) == 0x89 && *slice_index_get(bytes, 1) == 0x50
        && *slice_index_get(bytes, 2) == 0x4e && *slice_index_get(bytes, 3) == 0x47
        && *slice_index_get(bytes, 4) == 0x0d && *slice_index_get(bytes, 5) == 0x0a
        && *slice_index_get(bytes, 6) == 0x1a && *slice_index_get(bytes, 7) == 0x0a) {
        proof {
            if bytes@.subrange(0, 8) == png_signature() {
                assert(forall|k: int|
                    0 <= k < 8 ==> bytes@[k] == #[trigger] png_signature()[k]);
            }
        }
        return false;
    }
    proof {
        assert(bytes@.subrange(0, 8) =~= png_signature());
    }
    let mut offset: usize = 8;
    loop
        invariant
            8 <= offset,
            n == bytes@.len(),
            n >= 8,
            bytes@.subrange(0, 8) == png_signature(),
            is_apng_bytes_spec(bytes@) == apng_chunk_scan(bytes@, offset as int),
        decreases bytes_left(n as int, offset as int),
    {
        if offset >= n || n - offset < 8 {
            return false;
        }
        let b0 = *slice_index_get(bytes, offset);
        let b1 = *slice_index_get(bytes, offset + 1);
        let b2 = *slice_index_get(bytes, offset + 2);
        let b3 = *slice_index_get(bytes, offset + 3);
        let length: u32 = (b0 as u32) * 0x1000000 + (b1 as u32) * 0x10000 + (b2 as u32) * 0x100 + (
        b3 as u32);
        let t0 = *slice_index_get(bytes, offset + 4);
        let t1 = *slice_index_get(bytes, offset + 5);
        let t2 = *slice_index_get(bytes, offset + 6);
        let t3 = *slice_index_get(bytes, offset + 7);
        let ghost ty = bytes@.subrange(offset as int + 4, offset as int + 8);
        proof {
            assert(ty[0] == t0 && ty[1] == t1 && ty[2] == t2 && ty[3] == t3);
        }
        if t0 == 0x61 && t1 == 0x63 && t2 == 0x54 && t3 == 0x4c {
            proof {
                assert(ty =~= actl_type());
            }
            return true;
        }
        if t0 == 0x49 && t1 == 0x44 && t2 == 0x41 && t3 == 0x54 {
            proof {
                assert(ty =~= idat_type());
            }
            return false;
        }
        proof {
            if ty == actl_type() {
                assert(ty[0] == actl_type()[0] && ty[1] == actl_type()[1] && ty[2]
                    == actl_type()[2] && ty[3] == actl_type()[3]);
            }
            if ty == idat_type() {
                assert(ty[0] == idat_type()[0] && ty[1] == idat_type()[1] && ty[2]
                    == idat_type()[2] && ty[3] == idat_type()[3]);
            }
            assert(be_u32_at(bytes@, offset as int) == length);
            assert(apng_chunk_scan(bytes@, offset as int) == apng_chunk_scan(
                bytes@,
                offset as int + 12 + length as int,
            ));
        }
        let ghost big: int = offset as int + 12 + length as int;
        match offset.checked_add(12) {
            Some(o) => match o.checked_add(length as usize) {
                Some(next) => {
                    offset = next;
                },
                None => {
                    proof {
                        assert(big > usize::MAX as int);
                        assert(!apng_chunk_scan(bytes@, big));
                    }
                    return false;
                },
            },
            None => {
                proof {
                    assert(big > usize::MAX as int);
                    assert(!apng_chunk_scan(bytes@, big));
                }
                return false;
            },
        }
    }
}

} // verus!
