use clippi::clipboard::{
    clipboard_target_name, enrich, parse_http_query, paths_from_uris, pasteboard_paths,
    same_files, uri_to_local_path, write_clipboard_url, ClipboardFile, PasteboardItem,
};

fn file(path: &str, name: &str, size: u64, mime: &str) -> ClipboardFile {
    ClipboardFile { path: path.to_string(), name: name.to_string(), size, mime: mime.to_string() }
}

#[test]
fn file_uris_become_local_paths() {
    assert_eq!(uri_to_local_path("file:///tmp/a.txt"), Some("/tmp/a.txt".to_string()));
    assert_eq!(uri_to_local_path("file:///tmp/a%20b.txt"), Some("/tmp/a b.txt".to_string()));
    assert_eq!(uri_to_local_path("  file:///home/u/x.png\r\n"), Some("/home/u/x.png".to_string()));
    assert_eq!(uri_to_local_path("file://localhost/etc/hosts"), Some("/etc/hosts".to_string()));
}

#[test]
fn other_uris_have_no_local_path() {
    assert_eq!(uri_to_local_path("http://example.com/a.txt"), None);
    assert_eq!(uri_to_local_path("file://otherhost/etc/hosts"), None);
    assert_eq!(uri_to_local_path("not a url"), None);
    assert_eq!(uri_to_local_path(""), None);
    assert_eq!(uri_to_local_path("file:///tmp/%FF"), None);
}

#[test]
fn local_paths_are_absolute() {
    for uri in ["file:///a", "file://localhost", "file:///", "file:"] {
        if let Some(p) = uri_to_local_path(uri) {
            assert!(p.starts_with('/'), "uri {uri:?} gave {p:?}");
        }
    }
}

#[test]
fn paths_from_uris_keeps_order_and_drops_non_files() {
    let uris = vec![
        "file:///a/one.txt".to_string(),
        "https://x/y".to_string(),
        "file:///b/two.pdf".to_string(),
        "garbage".to_string(),
    ];
    assert_eq!(paths_from_uris(&uris), vec!["/a/one.txt".to_string(), "/b/two.pdf".to_string()]);
    assert_eq!(paths_from_uris(&Vec::new()), Vec::<String>::new());
}

#[test]
fn pasteboard_paths_prefer_resolved_and_drop_repeats() {
    let items = vec![
        PasteboardItem { url: "file:///.file/id=1".to_string(), resolved: "/Users/a/x.txt".to_string() },
        PasteboardItem { url: "file:///Users/a/y.txt".to_string(), resolved: String::new() },
        PasteboardItem { url: "file:///Users/a/x.txt".to_string(), resolved: String::new() },
        PasteboardItem { url: "nonsense".to_string(), resolved: String::new() },
        PasteboardItem { url: "file:///z".to_string(), resolved: "/Users/a/y.txt".to_string() },
    ];
    assert_eq!(
        pasteboard_paths(&items),
        vec!["/Users/a/x.txt".to_string(), "/Users/a/y.txt".to_string()]
    );
}

#[test]
fn share_links_carry_name_and_size() {
    let (name, size) = parse_http_query(
        "http://192.168.1.20:40000/clippi/abc?n=my%20report.pdf&s=2048&m=application%2Fpdf",
    );
    assert_eq!(name, "my report.pdf");
    assert_eq!(size, 2048);
}

#[test]
fn share_link_query_edge_cases() {
    assert_eq!(parse_http_query("http://h/clippi/abc"), (String::new(), 0));
    assert_eq!(parse_http_query("http://h/x?s=notanumber&n=a"), ("a".to_string(), 0));
    assert_eq!(parse_http_query("http://h/x?s=5&s=bad"), (String::new(), 5));
    assert_eq!(parse_http_query("http://h/x?n=a&n=b+c"), ("b c".to_string(), 0));
    assert_eq!(parse_http_query("not a url"), (String::new(), 0));
}

#[test]
fn enrich_describes_links_from_their_query() {
    let f = enrich("http://10.0.0.2:5000/clippi/id?n=Photo.JPG&s=77&m=image%2Fjpeg".to_string(), Some(999));
    assert_eq!(f, file("http://10.0.0.2:5000/clippi/id?n=Photo.JPG&s=77&m=image%2Fjpeg", "Photo.JPG", 77, "image/jpeg"));
}

#[test]
fn enrich_describes_local_files_from_their_path() {
    assert_eq!(enrich("/home/u/notes.md".to_string(), Some(12)), file("/home/u/notes.md", "notes.md", 12, "text/markdown"));
    assert_eq!(enrich("/home/u/gone.bin".to_string(), None), file("/home/u/gone.bin", "gone.bin", 0, "application/octet-stream"));
    assert_eq!(enrich("/".to_string(), None), file("/", "", 0, "application/octet-stream"));
}

#[test]
fn entry_lists_compare_field_by_field() {
    let a = vec![file("/a", "a", 1, "x"), file("/b", "b", 2, "y")];
    let b = vec![file("/a", "a", 1, "x"), file("/b", "b", 2, "y")];
    let c = vec![file("/a", "a", 1, "x"), file("/b", "b", 3, "y")];
    assert!(same_files(&a, &b));
    assert!(!same_files(&a, &c));
    assert!(!same_files(&a, &a[..1].iter().map(|f| f.duplicate()).collect::<Vec<_>>()));
}

#[test]
fn copying_a_link_offers_its_bytes() {
    assert_eq!(write_clipboard_url(""), None);
    assert_eq!(write_clipboard_url("http://h/é"), Some("http://h/é".as_bytes().to_vec()));
    assert_eq!(clipboard_target_name(0), "text/uri-list");
    assert_eq!(clipboard_target_name(1), "text/plain");
    assert_eq!(clipboard_target_name(7), "text/plain");
}

#[test]
fn local_file_names_follow_path_components() {
    for (path, name) in [
        ("/home/u/a.txt", "a.txt"),
        ("a.txt", "a.txt"),
        ("foo.txt/.", "foo.txt"),
        ("foo.txt/.//", "foo.txt"),
        ("/a//b///", "b"),
        ("./x", "x"),
        ("foo.txt/..", ""),
        (".", ""),
        ("", ""),
    ] {
        let described = enrich(path.to_string(), Some(1));
        assert_eq!(described.name, name, "path {path:?}");
        let std_name = std::path::Path::new(path).file_name().and_then(|s| s.to_str()).unwrap_or("");
        assert_eq!(described.name, std_name, "path {path:?}");
    }
}
