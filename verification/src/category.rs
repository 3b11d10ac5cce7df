//! Classify a file name by its extension.
//!
//! The extension is what follows the last `.` of the name's final path
//! component, lower-cased (ASCII); a leading dot alone names no
//! extension. Contracts speak of the UTF-8 bytes of the name.

use vstd::prelude::*;
use vstd::utf8::encode_utf8;
use crate::scan::{find_last_byte, last_index_of};

verus! {

/// The UTF-8 bytes of a string of characters.
pub open spec fn bs(s: Seq<char>) -> Seq<u8> {
    encode_utf8(s)
}

/// The final path component: what follows the last `/`.
pub open spec fn last_component(s: Seq<u8>) -> Seq<u8> {
    match last_index_of(s, 47) {
        Some(i) => s.skip(i + 1),
        None => s,
    }
}

/// The extension of a file name: after its last `.`, unless that dot
/// leads the name.
pub open spec fn ext_of(name: Seq<u8>) -> Seq<u8> {
    let comp = last_component(name);
    match last_index_of(comp, 46) {
        Some(i) => if i > 0 {
            comp.skip(i + 1)
        } else {
            Seq::empty()
        },
        None => Seq::empty(),
    }
}

/// ASCII lower case of one byte.
pub open spec fn lower_byte(b: u8) -> u8 {
    if 65 <= b <= 90 {
        (b + 32) as u8
    } else {
        b
    }
}

/// ASCII lower case, byte for byte.
pub open spec fn lower_seq(s: Seq<u8>) -> Seq<u8> {
    s.map(|_i: int, b: u8| lower_byte(b))
}

pub open spec fn is_image_ext(e: Seq<u8>) -> bool {
    ||| e == bs("png"@)
    ||| e == bs("jpg"@)
    ||| e == bs("jpeg"@)
    ||| e == bs("gif"@)
    ||| e == bs("bmp"@)
    ||| e == bs("webp"@)
    ||| e == bs("svg"@)
    ||| e == bs("heic"@)
    ||| e == bs("tiff"@)
}

pub open spec fn is_music_ext(e: Seq<u8>) -> bool {
    ||| e == bs("mp3"@)
    ||| e == bs("flac"@)
    ||| e == bs("aac"@)
    ||| e == bs("wav"@)
    ||| e == bs("ogg"@)
    ||| e == bs("m4a"@)
}

pub open spec fn is_video_ext(e: Seq<u8>) -> bool {
    ||| e == bs("mp4"@)
    ||| e == bs("mkv"@)
    ||| e == bs("avi"@)
    ||| e == bs("mov"@)
    ||| e == bs("webm"@)
    ||| e == bs("flv"@)
    ||| e == bs("wmv"@)
    ||| e == bs("m4v"@)
}

pub open spec fn is_apps_ext(e: Seq<u8>) -> bool {
    ||| e == bs("exe"@)
    ||| e == bs("msi"@)
    ||| e == bs("apk"@)
    ||| e == bs("dmg"@)
    ||| e == bs("pkg"@)
    ||| e == bs("deb"@)
    ||| e == bs("rpm"@)
    ||| e == bs("AppImage"@)
}

pub open spec fn is_document_ext(e: Seq<u8>) -> bool {
    ||| e == bs("pdf"@)
    ||| e == bs("doc"@)
    ||| e == bs("docx"@)
    ||| e == bs("xls"@)
    ||| e == bs("xlsx"@)
    ||| e == bs("ppt"@)
    ||| e == bs("pptx"@)
    ||| e == bs("txt"@)
    ||| e == bs("md"@)
    ||| e == bs("rtf"@)
}

pub open spec fn is_compressed_ext(e: Seq<u8>) -> bool {
    ||| e == bs("zip"@)
    ||| e == bs("rar"@)
    ||| e == bs("7z"@)
    ||| e == bs("tar"@)
    ||| e == bs("gz"@)
    ||| e == bs("bz2"@)
    ||| e == bs("xz"@)
    ||| e == bs("zst"@)
}

/// The category a file name falls under, by its lower-cased extension.
pub open spec fn spec_category(name: Seq<u8>) -> Seq<char> {
    let e = lower_seq(ext_of(name));
    if is_image_ext(e) {
        "image"@
    } else if is_music_ext(e) {
        "music"@
    } else if is_video_ext(e) {
        "video"@
    } else if is_apps_ext(e) {
        "apps"@
    } else if is_document_ext(e) {
        "document"@
    } else if is_compressed_ext(e) {
        "compressed"@
    } else {
        "other"@
    }
}

/// Are two byte strings equal?
pub(crate) fn eq_bytes(a: &[u8], b: &[u8]) -> (r: bool)
    ensures
        r == (a@ == b@),
{
    if a.len() != b.len() {
        proof {
            assert(a@.len() != b@.len());
        }
        return false;
    }
    let mut i: usize = 0;
    while i < a.len()
        invariant
            a@.len() == b@.len(),
            0 <= i <= a@.len(),
            forall|j: int| 0 <= j < i ==> a@[j] == b@[j],
        decreases a@.len() - i,
    {
        if a[i] != b[i] {
            return false;
        }
        i = i + 1;
    }
    proof {
        assert(a@ =~= b@);
    }
    true
}

/// Is `e` the bytes of the literal `lit`?
fn eq_lit(e: &Vec<u8>, lit: &str) -> (r: bool)
    ensures
        r == (e@ == bs(lit@)),
{
    eq_bytes(e.as_slice(), lit.as_bytes())
}

/// Classify a file name by its extension.
pub fn guess_category_by_ext(name: &str) -> (r: String)
    ensures
        r@ == spec_category(encode_utf8(name@)),
{
    let bytes: &[u8] = name.as_bytes();
    let n: usize = bytes.len();
    let comp_start: usize = match find_last_byte(bytes, 47) {
        Some(i) => i + 1,
        None => 0,
    };
    let comp = crate::text::copy_range(bytes, comp_start, bytes.len());
    proof {
        assert(comp@ =~= last_component(bytes@));
    }
    let raw_ext: Vec<u8> = match find_last_byte(comp.as_slice(), 46) {
        Some(i) => {
            if i > 0 {
                let end = comp.len();
                let w = crate::text::copy_range(comp.as_slice(), i + 1, end);
                proof {
                    assert(w@ =~= ext_of(bytes@));
                }
                w
            } else {
                proof {
                    assert(Seq::<u8>::empty() =~= ext_of(bytes@));
                }
                Vec::new()
            }
        },
        None => {
            proof {
                assert(Seq::<u8>::empty() =~= ext_of(bytes@));
            }
            Vec::new()
        },
    };
    let mut e: Vec<u8> = Vec::new();
    let mut i: usize = 0;
    while i < raw_ext.len()
        invariant
            0 <= i <= raw_ext@.len(),
            e@ =~= lower_seq(raw_ext@).take(i as int),
        decreases raw_ext@.len() - i,
    {
        let b = raw_ext[i];
        let lb = if 65 <= b && b <= 90 {
            b + 32
        } else {
            b
        };
        proof {
            assert(lower_seq(raw_ext@)[i as int] == lower_byte(raw_ext@[i as int]));
            assert(lower_seq(raw_ext@).take(i + 1) =~= lower_seq(raw_ext@).take(i as int).push(
                lb,
            ));
        }
        e.push(lb);
        i = i + 1;
    }
    proof {
        assert(e@ =~= lower_seq(raw_ext@));
        assert(e@ == lower_seq(ext_of(bytes@)));
    }
    if eq_lit(&e, "png") || eq_lit(&e, "jpg") || eq_lit(&e, "jpeg") || eq_lit(&e, "gif") || eq_lit(
        &e,
        "bmp",
    ) || eq_lit(&e, "webp") || eq_lit(&e, "svg") || eq_lit(&e, "heic") || eq_lit(&e, "tiff") {
        return "image".to_owned();
    }
    if eq_lit(&e, "mp3") || eq_lit(&e, "flac") || eq_lit(&e, "aac") || eq_lit(&e, "wav") || eq_lit(
        &e,
        "ogg",
    ) || eq_lit(&e, "m4a") {
        return "music".to_owned();
    }
    if eq_lit(&e, "mp4") || eq_lit(&e, "mkv") || eq_lit(&e, "avi") || eq_lit(&e, "mov") || eq_lit(
        &e,
        "webm",
    ) || eq_lit(&e, "flv") || eq_lit(&e, "wmv") || eq_lit(&e, "m4v") {
        return "video".to_owned();
    }
    if eq_lit(&e, "exe") || eq_lit(&e, "msi") || eq_lit(&e, "apk") || eq_lit(&e, "dmg") || eq_lit(
        &e,
        "pkg",
    ) || eq_lit(&e, "deb") || eq_lit(&e, "rpm") || eq_lit(&e, "AppImage") {
        return "apps".to_owned();
    }
    if eq_lit(&e, "pdf") || eq_lit(&e, "doc") || eq_lit(&e, "docx") || eq_lit(&e, "xls") || eq_lit(
        &e,
        "xlsx",
    ) || eq_lit(&e, "ppt") || eq_lit(&e, "pptx") || eq_lit(&e, "txt") || eq_lit(&e, "md")
        || eq_lit(&e, "rtf") {
        return "document".to_owned();
    }
    if eq_lit(&e, "zip") || eq_lit(&e, "rar") || eq_lit(&e, "7z") || eq_lit(&e, "tar") || eq_lit(
        &e,
        "gz",
    ) || eq_lit(&e, "bz2") || eq_lit(&e, "xz") || eq_lit(&e, "zst") {
        return "compressed".to_owned();
    }
    "other".to_owned()
}

} // verus!
