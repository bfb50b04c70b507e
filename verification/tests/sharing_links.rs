use clippi::clipboard::ClipboardFile;
use clippi::file_server::parse_path;
use clippi::sharing::{
    plan_shared_file, share_links_text, share_url, shareable_files, shared_status_message,
    storage_for_size, url_encode, StorageKind, MEMORY_THRESHOLD,
};

fn file(path: &str, name: &str, size: u64, mime: &str) -> ClipboardFile {
    ClipboardFile { path: path.to_string(), name: name.to_string(), size, mime: mime.to_string() }
}

fn percent_decode(s: &str) -> Vec<u8> {
    let b = s.as_bytes();
    let mut out = Vec::new();
    let mut i = 0;
    while i < b.len() {
        if b[i] == b'%' && i + 2 < b.len() {
            out.push(u8::from_str_radix(&s[i + 1..i + 3], 16).unwrap());
            i += 3;
        } else {
            out.push(b[i]);
            i += 1;
        }
    }
    out
}

#[test]
fn url_encode_escapes_all_but_unreserved_bytes() {
    assert_eq!(url_encode("a b/ñ"), "a%20b%2F%C3%B1");
    assert_eq!(url_encode("Az09-_.~"), "Az09-_.~");
    assert_eq!(url_encode("100%"), "100%25");
    assert_eq!(url_encode(""), "");
}

#[test]
fn url_encode_round_trip_law_on_values() {
    for s in ["a b/ñ", "report (final).pdf", "日本語.txt", "%%", ""] {
        assert_eq!(percent_decode(&url_encode(s)), s.as_bytes().to_vec());
    }
}

#[test]
fn share_url_without_name_has_no_query() {
    assert_eq!(share_url("192.168.1.20", 40000, "id-1", "", 10, "text/plain"), "http://192.168.1.20:40000/clippi/id-1");
}

#[test]
fn share_url_with_name_carries_name_size_and_type() {
    assert_eq!(
        share_url("10.0.0.5", 8080, "id-2", "my notes.md", 2048, "text/markdown"),
        "http://10.0.0.5:8080/clippi/id-2?n=my%20notes.md&s=2048&m=text%2Fmarkdown"
    );
}

#[test]
fn storage_depends_on_size() {
    assert_eq!(MEMORY_THRESHOLD, 1024 * 1024);
    assert_eq!(storage_for_size(0), StorageKind::Memory);
    assert_eq!(storage_for_size(1024 * 1024 - 1), StorageKind::Memory);
    assert_eq!(storage_for_size(1024 * 1024), StorageKind::Disk);
}

#[test]
fn non_ascii_names_are_encoded_by_their_utf8_bytes() {
    assert_eq!(url_encode("Año 2024 – résumé.pdf"), "A%C3%B1o%202024%20%E2%80%93%20r%C3%A9sum%C3%A9.pdf");
}

#[test]
fn links_cannot_be_shared_again() {
    let r = plan_shared_file(&file("https://h/clippi/x", "x", 1, "text/plain"), "1.2.3.4", 9);
    match r {
        Err(e) => assert_eq!(e, "El archivo de origen ya es una URL HTTP; no se puede compartir"),
        Ok(_) => panic!("a link was planned"),
    }
}

#[test]
fn planned_link_is_served_under_its_id() {
    let f = file("/home/u/Big File.iso", "Big File.iso", 5_000_000, "application/octet-stream");
    let plan = plan_shared_file(&f, "192.168.0.7", 41234).expect("local files can be shared");
    assert_eq!(plan.id.len(), 36);
    assert_eq!(plan.id.chars().nth(14), Some('4'));
    assert!(plan.id.chars().all(|c| c == '-' || c.is_ascii_digit() || ('a'..='f').contains(&c)));
    assert_eq!(plan.storage, StorageKind::Disk);
    assert_eq!(plan.url, share_url("192.168.0.7", 41234, &plan.id, "Big File.iso", 5_000_000, "application/octet-stream"));
    let path = plan.url.strip_prefix("http://192.168.0.7:41234").unwrap();
    let header = format!("GET {path} HTTP/1.1\r\nHost: 192.168.0.7\r\n");
    assert_eq!(parse_path(&header), Some(plan.id.clone()));
    let other = plan_shared_file(&f, "192.168.0.7", 41234).unwrap();
    assert_ne!(other.id, plan.id);
}

#[test]
fn only_local_files_are_shareable() {
    let files = vec![
        file("/a.txt", "a.txt", 1, "text/plain"),
        file("http://h/clippi/x", "x", 2, "text/plain"),
        file("https://h/y", "y", 3, "text/plain"),
        file("/b.pdf", "b.pdf", 4, "application/pdf"),
    ];
    let local = shareable_files(&files);
    assert_eq!(local, vec![file("/a.txt", "a.txt", 1, "text/plain"), file("/b.pdf", "b.pdf", 4, "application/pdf")]);
}

#[test]
fn links_are_put_one_per_line() {
    assert_eq!(share_links_text(&vec![]), "");
    assert_eq!(share_links_text(&vec!["http://a".to_string()]), "http://a");
    assert_eq!(share_links_text(&vec!["http://a".to_string(), "http://b".to_string()]), "http://a\nhttp://b");
}

#[test]
fn status_message_counts_files() {
    assert_eq!(shared_status_message(2), "Compartido 2 archivo(s). Pegá con Ctrl+V donde quieras.");
}
