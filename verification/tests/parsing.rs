use dlcore::bridge::{route_bridge, BridgeMethod};
use dlcore::category::guess_category_by_ext;
use dlcore::headers::{filename_from_cd, from_hex, percent_decode_simple};
use dlcore::paths::plan_paths;
use dlcore::probe::{
    accept_ranges_value, apply_range_probe, choose_filename, content_range_total,
    fallback_name_from_url, make_probe_result, needs_range_probe, parse_content_length,
};
use dlcore::text::{parse_u64_dec, u64_to_string};

#[test]
fn hex_digits() {
    assert_eq!(from_hex(b'0'), Some(0));
    assert_eq!(from_hex(b'9'), Some(9));
    assert_eq!(from_hex(b'a'), Some(10));
    assert_eq!(from_hex(b'f'), Some(15));
    assert_eq!(from_hex(b'A'), Some(10));
    assert_eq!(from_hex(b'F'), Some(15));
    assert_eq!(from_hex(b'g'), None);
    assert_eq!(from_hex(b'%'), None);
}

#[test]
fn percent_decode_basics() {
    assert_eq!(percent_decode_simple("%41%62+c"), "Ab c");
    assert_eq!(percent_decode_simple("plain"), "plain");
    assert_eq!(percent_decode_simple("a+b"), "a b");
    assert_eq!(percent_decode_simple("%E4%B8%AD%E6%96%87.zip"), "中文.zip");
}

#[test]
fn percent_decode_keeps_invalid_utf8_input() {
    // 0xFF alone is not valid UTF-8, so the input stands unchanged.
    assert_eq!(percent_decode_simple("%FF"), "%FF");
}

#[test]
fn percent_decode_incomplete_escape() {
    // Too short for an escape: the bytes stand as they are.
    assert_eq!(percent_decode_simple("%4"), "%4");
    assert_eq!(percent_decode_simple("%zz"), "%zz");
}

#[test]
fn filename_from_rfc5987() {
    let cd = "attachment; filename=\"fallback.bin\"; filename*=UTF-8''%E4%B8%AD%E6%96%87.zip";
    assert_eq!(filename_from_cd(cd), Some("中文.zip".to_string()));
}

#[test]
fn filename_plain_quoted() {
    assert_eq!(
        filename_from_cd("attachment; filename=\"plain.txt\""),
        Some("plain.txt".to_string())
    );
    assert_eq!(filename_from_cd("attachment; filename=bare.iso"), Some("bare.iso".to_string()));
}

#[test]
fn filename_star_without_separator() {
    assert_eq!(
        filename_from_cd("attachment; filename*=abc%2Edef"),
        Some("abc.def".to_string())
    );
}

#[test]
fn filename_star_invalid_utf8_keeps_encoded_text() {
    assert_eq!(
        filename_from_cd("attachment; filename*=UTF-8''%FF"),
        Some("%FF".to_string())
    );
}

#[test]
fn filename_absent() {
    assert_eq!(filename_from_cd("inline"), None);
    assert_eq!(filename_from_cd(""), None);
}

#[test]
fn content_length_parsing() {
    assert_eq!(parse_content_length("1048576"), Some(1048576));
    assert_eq!(parse_content_length("0"), Some(0));
    assert_eq!(parse_content_length(""), None);
    assert_eq!(parse_content_length("12a"), None);
    assert_eq!(parse_content_length("-3"), None);
    assert_eq!(parse_content_length("18446744073709551615"), Some(u64::MAX));
    assert_eq!(parse_content_length("18446744073709551616"), None);
}

#[test]
fn content_range_totals() {
    assert_eq!(content_range_total("bytes 0-0/12345"), Some(12345));
    assert_eq!(content_range_total("bytes 0-0/*"), None);
    assert_eq!(content_range_total("12345"), None);
    assert_eq!(content_range_total("bytes 5-9/20/extra"), Some(20));
}

#[test]
fn accept_ranges_detection() {
    assert!(accept_ranges_value("bytes"));
    assert!(accept_ranges_value("BYTES"));
    assert!(accept_ranges_value("none, bytes"));
    assert!(!accept_ranges_value("none"));
    assert!(!accept_ranges_value(""));
}

#[test]
fn decimal_render_and_parse_round_trip() {
    assert_eq!(u64_to_string(0), "0");
    assert_eq!(u64_to_string(7), "7");
    assert_eq!(u64_to_string(1048576), "1048576");
    assert_eq!(u64_to_string(u64::MAX), "18446744073709551615");
    for v in [0u64, 9, 10, 999, 1000000, u64::MAX] {
        let s = u64_to_string(v);
        assert_eq!(parse_u64_dec(s.as_bytes()), Some(v));
    }
}

#[test]
fn category_by_extension() {
    assert_eq!(guess_category_by_ext("photo.jpeg"), "image");
    assert_eq!(guess_category_by_ext("movie.MKV"), "video");
    assert_eq!(guess_category_by_ext("song.m4a"), "music");
    assert_eq!(guess_category_by_ext("setup.exe"), "apps");
    assert_eq!(guess_category_by_ext("paper.pdf"), "document");
    assert_eq!(guess_category_by_ext("archive.tar.gz"), "compressed");
    assert_eq!(guess_category_by_ext("noext"), "other");
    assert_eq!(guess_category_by_ext(".bashrc"), "other");
    assert_eq!(guess_category_by_ext("dir/file.png"), "image");
    // The table lists `AppImage` in its original case, but extensions are
    // lower-cased before the comparison, so it never matches.
    assert_eq!(guess_category_by_ext("tool.AppImage"), "other");
}

#[test]
fn url_fallback_names() {
    assert_eq!(fallback_name_from_url("http://h/a/b.bin?x=1"), "b.bin");
    assert_eq!(fallback_name_from_url("http://h/a/%E4%B8%AD.txt"), "中.txt");
    assert_eq!(fallback_name_from_url("plain"), "plain");
    assert_eq!(fallback_name_from_url("http://h/dir/"), "");
}

#[test]
fn chosen_filename_prefers_header() {
    let cd = "attachment; filename=from-header.zip".to_string();
    assert_eq!(choose_filename(Some(&cd), "http://h/from-url.bin"), "from-header.zip");
    assert_eq!(choose_filename(None, "http://h/from-url.bin"), "from-url.bin");
    assert_eq!(choose_filename(None, "http://h/"), "download.bin");
    assert_eq!(choose_filename(None, "http://h/%2F"), "download.bin");
}

#[test]
fn range_probe_need() {
    let name = "download.bin".to_string();
    assert!(needs_range_probe(&name, &Some(5), true, false));
    let good = "file.zip".to_string();
    assert!(!needs_range_probe(&good, &Some(5), true, false));
    assert!(needs_range_probe(&good, &None, true, false));
    let noext = "file".to_string();
    assert!(needs_range_probe(&noext, &Some(5), true, false));
    assert!(needs_range_probe(&good, &Some(5), false, true));
    assert!(!needs_range_probe(&good, &Some(5), false, false));
}

#[test]
fn range_probe_merge() {
    let cd = "attachment; filename=better.iso".to_string();
    let cr = "bytes 0-0/4096".to_string();
    let (name, total, ar) = apply_range_probe(
        "old.bin".to_string(),
        None,
        false,
        true,
        Some(&cd),
        Some(&cr),
        true,
    );
    assert_eq!(name, "better.iso");
    assert_eq!(total, Some(4096));
    assert!(ar);
    let (name2, total2, ar2) =
        apply_range_probe("old.bin".to_string(), Some(7), false, false, None, None, true);
    assert_eq!(name2, "old.bin");
    assert_eq!(total2, Some(7));
    assert!(!ar2);
}

#[test]
fn probe_result_assembly() {
    let r = make_probe_result(Some(9), "clip.mp4".to_string(), "/tmp".to_string());
    assert_eq!(r.total, Some(9));
    assert_eq!(r.file_name, "clip.mp4");
    assert_eq!(r.category, "video");
    assert_eq!(r.download_dir, "/tmp");
}

#[test]
fn planned_paths() {
    let (dest, temp) = plan_paths("/tmp/dls", "file.bin");
    assert_eq!(dest, "/tmp/dls/file.bin");
    assert_eq!(temp, "/tmp/dls/file.part");
    let (dest2, temp2) = plan_paths("/d/", "a");
    assert_eq!(dest2, "/d/a");
    assert_eq!(temp2, "/d/a.part");
    let (dest3, temp3) = plan_paths("/d", "archive.tar.gz");
    assert_eq!(dest3, "/d/archive.tar.gz");
    assert_eq!(temp3, "/d/archive.tar.part");
    let (dest4, temp4) = plan_paths("/d", ".cfg");
    assert_eq!(dest4, "/d/.cfg");
    assert_eq!(temp4, "/d/.cfg.part");
    let (dest5, temp5) = plan_paths("", "x");
    assert_eq!(dest5, "x");
    assert_eq!(temp5, "x.part");
}

#[test]
fn bridge_routes() {
    let pre = route_bridge(BridgeMethod::Options, "/add");
    assert_eq!(pre.status, 204);
    assert_eq!(pre.body, "");
    assert!(pre.cors);
    assert!(!pre.accept_url);
    let post = route_bridge(BridgeMethod::Post, "/add");
    assert_eq!(post.status, 200);
    assert_eq!(post.body, "OK");
    assert!(post.cors);
    assert!(post.accept_url);
    let wrong_path = route_bridge(BridgeMethod::Post, "/other");
    assert_eq!(wrong_path.status, 404);
    assert_eq!(wrong_path.body, "Not Found");
    assert!(!wrong_path.cors);
    assert!(!wrong_path.accept_url);
    let wrong_method = route_bridge(BridgeMethod::Other, "/add");
    assert_eq!(wrong_method.status, 404);
}
