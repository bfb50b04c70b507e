use clippi::mime::{file_name_extension, guess_mime, mime_for_extension};
use clippi::text::{decimal_string, is_http_url, parse_u64, starts_with, str_eq, trim};

#[test]
fn trim_removes_unicode_whitespace_at_both_ends() {
    assert_eq!(trim("  \t room \n"), "room");
    assert_eq!(trim("\u{3000}a b\u{2028}"), "a b");
    assert_eq!(trim("   "), "");
    assert_eq!(trim(""), "");
}

#[test]
fn decimal_string_formats_like_display() {
    assert_eq!(decimal_string(0), "0");
    assert_eq!(decimal_string(7), "7");
    assert_eq!(decimal_string(1234), "1234");
    assert_eq!(decimal_string(u64::MAX), u64::MAX.to_string());
}

#[test]
fn parse_u64_accepts_what_std_accepts() {
    assert_eq!(parse_u64("12"), Some(12));
    assert_eq!(parse_u64("+12"), Some(12));
    assert_eq!(parse_u64("0012"), Some(12));
    assert_eq!(parse_u64("18446744073709551615"), Some(u64::MAX));
    assert_eq!(parse_u64("18446744073709551616"), None);
    assert_eq!(parse_u64(""), None);
    assert_eq!(parse_u64("+"), None);
    assert_eq!(parse_u64("-1"), None);
    assert_eq!(parse_u64(" 1"), None);
    assert_eq!(parse_u64("1a"), None);
    for s in ["0", "+7", "99999999999999999999", "12x", "", "+", "-0", "٣"] {
        assert_eq!(parse_u64(s), s.parse::<u64>().ok(), "input {s:?}");
    }
}

#[test]
fn decimal_round_trip_law_on_values() {
    for n in [0u64, 9, 10, 65535, 1 << 40, u64::MAX] {
        assert_eq!(parse_u64(&decimal_string(n)), Some(n));
    }
}

#[test]
fn string_comparisons() {
    assert!(str_eq("abc", "abc"));
    assert!(!str_eq("abc", "abd"));
    assert!(!str_eq("ab", "abc"));
    assert!(starts_with("https://x", "https://"));
    assert!(!starts_with("http", "https://"));
    assert!(is_http_url("http://host/a"));
    assert!(is_http_url("https://host/a"));
    assert!(!is_http_url("/home/user/http://x"));
    assert!(!is_http_url("HTTP://host"));
}

#[test]
fn extension_follows_path_extension() {
    assert_eq!(file_name_extension("report.pdf"), Some("pdf"));
    assert_eq!(file_name_extension("archive.tar.gz"), Some("gz"));
    assert_eq!(file_name_extension(".bashrc"), None);
    assert_eq!(file_name_extension("..abc"), Some("abc"));
    assert_eq!(file_name_extension("noext"), None);
    assert_eq!(file_name_extension("trailing."), Some(""));
    for name in ["report.pdf", "archive.tar.gz", ".bashrc", "..abc", "noext", "trailing.", "a.b.c"] {
        let std_ext = std::path::Path::new(name).extension().and_then(|e| e.to_str());
        assert_eq!(file_name_extension(name), std_ext, "name {name:?}");
    }
}

#[test]
fn guess_mime_uses_lowercased_extension_of_last_component() {
    assert_eq!(guess_mime("/home/u/Docs/Report.PDF"), "application/pdf");
    assert_eq!(guess_mime("notes.markdown"), "text/markdown");
    assert_eq!(guess_mime("a/b/archive.tar.gz"), "application/gzip");
    assert_eq!(guess_mime("photo.JPeG"), "image/jpeg");
    assert_eq!(guess_mime("/tmp/.bashrc"), "application/octet-stream");
    assert_eq!(guess_mime("/tmp/noext"), "application/octet-stream");
    assert_eq!(guess_mime("/tmp/file.unknown"), "application/octet-stream");
    assert_eq!(guess_mime("dir.d/"), "application/octet-stream");
    assert_eq!(guess_mime("clip.mp4/."), "video/mp4");
    assert_eq!(guess_mime("/a/.."), "application/octet-stream");
    assert_eq!(guess_mime(""), "application/octet-stream");
}

#[test]
fn mime_table_entries() {
    assert_eq!(mime_for_extension("tgz"), "application/gzip");
    assert_eq!(mime_for_extension("hpp"), "text/x-c++");
    assert_eq!(mime_for_extension("7z"), "application/x-7z-compressed");
    assert_eq!(
        mime_for_extension("docx"),
        "application/vnd.openxmlformats-officedocument.wordprocessingml.document"
    );
    assert_eq!(mime_for_extension("epub"), "application/epub+zip");
    assert_eq!(mime_for_extension("PDF"), "application/octet-stream");
    assert_eq!(mime_for_extension(""), "application/octet-stream");
}

#[test]
fn guess_mime_lowercases_beyond_ascii() {
    assert_eq!(guess_mime("movie.M\u{212A}V"), "video/x-matroska");
    assert_eq!(guess_mime("ARCHIVE.TGZ"), "application/gzip");
}
