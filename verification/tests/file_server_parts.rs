use std::sync::Arc;

use clippi::file_server::{
    not_found_response, ok_response_header, parse_path, path_join, sanitize_header, scan_request,
    shared_dir, shared_dir_under, RequestScan, SharedFile, SharedFileRegistry, SharedSource,
};

fn memory_file(id: &str, name: &str, bytes: &[u8]) -> SharedFile {
    SharedFile {
        id: id.to_string(),
        name: name.to_string(),
        size: bytes.len() as u64,
        source: SharedSource::Memory(Arc::new(bytes.to_vec())),
    }
}

fn bytes_of(f: &SharedFile) -> Vec<u8> {
    match &f.source {
        SharedSource::Memory(b) => b.as_ref().clone(),
        SharedSource::Disk(p) => p.clone(),
    }
}

#[test]
fn parse_path_reads_the_id_from_the_request_line() {
    assert_eq!(parse_path("GET /clippi/abc-123 HTTP/1.1"), Some("abc-123".to_string()));
    assert_eq!(parse_path("GET /clippi/abc?n=x&s=1 HTTP/1.1\r\nHost: h"), Some("abc".to_string()));
    assert_eq!(parse_path("GET /abc HTTP/1.1"), Some("abc".to_string()));
    assert_eq!(parse_path("GET /clippi//clippi/abc HTTP/1.1"), Some("abc".to_string()));
    assert_eq!(parse_path("  GET   /clippi/xyz\r\n"), Some("xyz".to_string()));
}

#[test]
fn parse_path_rejects_unsafe_or_missing_ids() {
    assert_eq!(parse_path(""), None);
    assert_eq!(parse_path("GET"), None);
    assert_eq!(parse_path("GET \r\n/clippi/abc"), None);
    assert_eq!(parse_path("GET /clippi/ HTTP/1.1"), None);
    assert_eq!(parse_path("GET /clippi/a/b HTTP/1.1"), None);
    assert_eq!(parse_path("GET /clippi/..secret HTTP/1.1"), None);
    assert_eq!(parse_path("GET /clippi/a\\b HTTP/1.1"), None);
    assert_eq!(parse_path("GET /clippi/?n=1 HTTP/1.1"), None);
}

#[test]
fn scan_request_waits_for_the_blank_line() {
    assert!(matches!(scan_request(b"GET /clippi/abc HTTP/1.1\r\nHost: x\r\n"), RequestScan::Incomplete));
    assert!(matches!(scan_request(b""), RequestScan::Incomplete));
    match scan_request(b"GET /clippi/abc HTTP/1.1\r\nHost: x\r\n\r\nbody") {
        RequestScan::Target(id) => assert_eq!(id, "abc"),
        _ => panic!("expected a target"),
    }
    assert!(matches!(scan_request(b"GET /a/b HTTP/1.1\r\n\r\n"), RequestScan::Rejected));
    assert!(matches!(scan_request(b"\xff\xfe /clippi/abc\r\n\r\n"), RequestScan::Rejected));
}

#[test]
fn response_headers_are_exact() {
    assert_eq!(
        ok_response_header(12, "my file (1).txt"),
        "HTTP/1.1 200 OK\r\nContent-Type: application/octet-stream\r\nContent-Length: 12\r\nContent-Disposition: attachment; filename=\"my_file__1_.txt\"\r\nConnection: close\r\n\r\n"
    );
    let (header, body) = not_found_response();
    assert_eq!(header, "HTTP/1.1 404 Not Found\r\nContent-Type: text/plain\r\nContent-Length: 9\r\nConnection: close\r\n\r\n");
    assert_eq!(body, b"Not Found".to_vec());
}

#[test]
fn sanitize_header_keeps_only_safe_characters() {
    assert_eq!(sanitize_header("Résumé v2.pdf"), "R_sum__v2.pdf");
    assert_eq!(sanitize_header("a\"b\r\nc"), "a_b__c");
    assert_eq!(sanitize_header(""), "");
    let once = sanitize_header("x y/z");
    assert_eq!(sanitize_header(&once), once);
}

#[test]
fn registry_reads_back_what_was_inserted() {
    let mut r = SharedFileRegistry::new();
    assert!(r.get("a").is_none());
    r.insert(memory_file("a", "a.txt", b"hello"));
    r.insert(SharedFile { id: "b".into(), name: "big.iso".into(), size: 5_000_000, source: SharedSource::Disk(b"/tmp/b".to_vec()) });
    let a = r.get("a").expect("a is shared");
    assert_eq!((a.id.as_str(), a.name.as_str(), a.size), ("a", "a.txt", 5));
    assert_eq!(bytes_of(&a), b"hello".to_vec());
    let b = r.get("b").expect("b is shared");
    assert!(matches!(&b.source, SharedSource::Disk(p) if p.as_slice() == b"/tmp/b"));
    assert_eq!(b.id, "b");
    assert!(r.get("c").is_none());
}

#[test]
fn registry_insert_replaces_same_id() {
    let mut r = SharedFileRegistry::new();
    r.insert(memory_file("a", "old.txt", b"old"));
    r.insert(memory_file("a", "new.txt", b"newer"));
    let a = r.get("a").unwrap();
    assert_eq!(a.name, "new.txt");
    assert_eq!(bytes_of(&a), b"newer".to_vec());
}

#[test]
fn registry_clear_withdraws_everything() {
    let mut r = SharedFileRegistry::new();
    r.insert(memory_file("a", "a", b"1"));
    r.insert(memory_file("b", "b", b"2"));
    r.clear();
    assert!(r.get("a").is_none());
    assert!(r.get("b").is_none());
}

#[test]
fn paths_join_like_std() {
    assert_eq!(path_join(b"/home/u/.cache", b"clippi"), b"/home/u/.cache/clippi".to_vec());
    assert_eq!(path_join(b"/home/u/", b"clippi"), b"/home/u/clippi".to_vec());
    assert_eq!(path_join(b"", b"clippi"), b"clippi".to_vec());
    assert_eq!(path_join(b"/h\xffme", b"x"), b"/h\xffme/x".to_vec());
    for (b, c) in [("/a", "b"), ("/a/", "b"), ("", "b"), (".", "clippi")] {
        let expected = std::path::Path::new(b).join(c);
        assert_eq!(path_join(b.as_bytes(), c.as_bytes()), expected.to_str().unwrap().as_bytes().to_vec());
    }
}

#[test]
fn shared_dir_prefers_cache_then_home_then_current() {
    assert_eq!(shared_dir_under(Some(b"/c".to_vec()), Some(b"/h".to_vec())), b"/c/clippi/shared".to_vec());
    assert_eq!(shared_dir_under(None, Some(b"/h".to_vec())), b"/h/clippi/shared".to_vec());
    assert_eq!(shared_dir_under(None, None), b"./clippi/shared".to_vec());
    assert_eq!(shared_dir_under(Some(b"/c\xff".to_vec()), None), b"/c\xff/clippi/shared".to_vec());
    assert!(shared_dir().ends_with(b"clippi/shared"));
}
