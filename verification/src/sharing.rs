//! Sharing local files: which clipboard entries can be shared, where their
//! bytes are kept, and the links that are handed out for them.
use vstd::prelude::*;
use vstd::utf8::encode_utf8;

use crate::clipboard::{files_view, ClipboardFile, ClipboardFileView};
use crate::file_server::{
    before_char, first_line_spec, has_double_dot, is_valid_id, lemma_first_ws_index, lemma_index_of,
    lemma_trim_start, next_word, parse_path_spec, strip_char_all, strip_prefix_all, target_id,
};
use crate::text::{
    decimal_spec, decimal_string, digit_char, is_http_url, is_http_url_spec, is_unicode_white_space,
    push_char, seq_starts_with,
};

verus! {

/// Files smaller than this many bytes are kept in memory; larger ones are
/// copied to disk.
pub const MEMORY_THRESHOLD: u64 = 1024 * 1024;

/// Bytes that a link carries as they are: ASCII letters and digits, `-`,
/// `_`, `.` and `~`.
pub open spec fn is_unreserved(b: u8) -> bool {
    (65 <= b && b <= 90) || (97 <= b && b <= 122) || (48 <= b && b <= 57) || b == 45 || b == 95
        || b == 46 || b == 126
}

/// The uppercase hexadecimal digit for `d < 16`.
pub open spec fn hex_upper(d: nat) -> char {
    if d < 10 {
        (48 + d) as char
    } else {
        (55 + d) as char
    }
}

/// How one byte appears in a link: itself when unreserved, else `%` and
/// two uppercase hexadecimal digits.
pub open spec fn encode_byte_spec(b: u8) -> Seq<char> {
    if is_unreserved(b) {
        seq![b as char]
    } else {
        seq!['%', hex_upper((b / 16) as nat), hex_upper((b % 16) as nat)]
    }
}

/// The percent-encoding of the bytes `bs`.
pub open spec fn url_encode_bytes(bs: Seq<u8>) -> Seq<char>
    decreases bs.len(),
{
    if bs.len() == 0 {
        Seq::empty()
    } else {
        url_encode_bytes(bs.drop_last()) + encode_byte_spec(bs.last())
    }
}

/// The character of the hexadecimal digit `d < 16`.
fn hex_digit(d: u8) -> (c: char)
    requires
        d < 16,
    ensures
        c == hex_upper(d as nat),
{
    if d < 10 {
        (d + 48) as char
    } else {
        (d + 55) as char
    }
}

/// Percent-encodes the UTF-8 bytes of `s` for use in a link's query.
pub fn url_encode(s: &str) -> (res: String)
    ensures
        res@ == url_encode_bytes(encode_utf8(s@)),
{
    let bytes = s.as_bytes();
    let mut out = String::new();
    let mut i: usize = 0;
    while i < bytes.len()
        invariant
            bytes@ == encode_utf8(s@),
            i <= bytes@.len(),
            out@ == url_encode_bytes(bytes@.take(i as int)),
        decreases bytes@.len() - i,
    {
        let b = bytes[i];
        assert(bytes@.take(i + 1).drop_last() =~= bytes@.take(i as int));
        let unreserved = (65 <= b && b <= 90) || (97 <= b && b <= 122) || (48 <= b && b <= 57) || b
            == 45 || b == 95 || b == 46 || b == 126;
        let ghost before = out@;
        if unreserved {
            push_char(&mut out, b as char);
        } else {
            push_char(&mut out, '%');
            push_char(&mut out, hex_digit(b / 16));
            push_char(&mut out, hex_digit(b % 16));
        }
        assert(out@ =~= before + encode_byte_spec(b));
        i = i + 1;
    }
    assert(bytes@.take(bytes@.len() as int) =~= bytes@);
    out
}

/// The query part of a share link: empty for a file without a name, else
/// its name, size and media type.
pub open spec fn share_query_spec(name: Seq<char>, size: u64, mime: Seq<char>) -> Seq<char> {
    if name.len() == 0 {
        Seq::empty()
    } else {
        "?n="@ + url_encode_bytes(encode_utf8(name)) + "&s="@ + decimal_spec(size as nat) + "&m="@
            + url_encode_bytes(encode_utf8(mime))
    }
}

/// The path, with query, under which a shared file is served.
pub open spec fn share_path_spec(id: Seq<char>, name: Seq<char>, size: u64, mime: Seq<char>) -> Seq<
    char,
> {
    "/clippi/"@ + id + share_query_spec(name, size, mime)
}

/// The link handed out for a shared file served at `ip`:`port`.
pub open spec fn share_url_spec(
    ip: Seq<char>,
    port: u16,
    id: Seq<char>,
    name: Seq<char>,
    size: u64,
    mime: Seq<char>,
) -> Seq<char> {
    "http://"@ + ip + ":"@ + decimal_spec(port as nat) + share_path_spec(id, name, size, mime)
}

/// The parts of a share link: `http://`, the address, `:` and the port in
/// decimal, `/clippi/` and the id; then, only for a file with a name, a
/// query `?n=` with the encoded name, `&s=` with the size in decimal and
/// `&m=` with the encoded media type. A file without a name gets a link
/// without query.
pub proof fn law_share_url_parts(
    ip: Seq<char>,
    port: u16,
    id: Seq<char>,
    name: Seq<char>,
    size: u64,
    mime: Seq<char>,
)
    ensures
        name.len() == 0 ==> share_url_spec(ip, port, id, name, size, mime) == seq![
            'h',
            't',
            't',
            'p',
            ':',
            '/',
            '/',
        ] + ip + seq![':'] + decimal_spec(port as nat) + seq!['/', 'c', 'l', 'i', 'p', 'p', 'i', '/']
            + id,
        name.len() > 0 ==> share_url_spec(ip, port, id, name, size, mime) == seq![
            'h',
            't',
            't',
            'p',
            ':',
            '/',
            '/',
        ] + ip + seq![':'] + decimal_spec(port as nat) + seq!['/', 'c', 'l', 'i', 'p', 'p', 'i', '/']
            + id + seq!['?', 'n', '='] + url_encode_bytes(encode_utf8(name)) + seq!['&', 's', '=']
            + decimal_spec(size as nat) + seq!['&', 'm', '='] + url_encode_bytes(encode_utf8(mime)),
{
    reveal_strlit("http://");
    reveal_strlit(":");
    reveal_strlit("/clippi/");
    reveal_strlit("?n=");
    reveal_strlit("&s=");
    reveal_strlit("&m=");
    let head = seq!['h', 't', 't', 'p', ':', '/', '/'];
    let cl = seq!['/', 'c', 'l', 'i', 'p', 'p', 'i', '/'];
    assert("http://"@ =~= head);
    assert(":"@ =~= seq![':']);
    assert("/clippi/"@ =~= cl);
    assert("?n="@ =~= seq!['?', 'n', '=']);
    assert("&s="@ =~= seq!['&', 's', '=']);
    assert("&m="@ =~= seq!['&', 'm', '=']);
    if name.len() == 0 {
        assert(share_url_spec(ip, port, id, name, size, mime) =~= head + ip + seq![':'] + decimal_spec(
            port as nat,
        ) + cl + id);
    } else {
        assert(share_url_spec(ip, port, id, name, size, mime) =~= head + ip + seq![':'] + decimal_spec(
            port as nat,
        ) + cl + id + seq!['?', 'n', '='] + url_encode_bytes(encode_utf8(name)) + seq!['&', 's', '=']
            + decimal_spec(size as nat) + seq!['&', 'm', '='] + url_encode_bytes(encode_utf8(mime)));
    }
}

/// Builds the link under which the file `id` is served at `ip`:`port`.
pub fn share_url(ip: &str, port: u16, id: &str, name: &str, size: u64, mime: &str) -> (res: String)
    ensures
        res@ == share_url_spec(ip@, port, id@, name@, size, mime@),
{
    let mut out = String::from_str("http://");
    out.append(ip);
    out.append(":");
    let p = decimal_string(port as u64);
    out.append(p.as_str());
    out.append("/clippi/");
    out.append(id);
    let ghost base = out@;
    if name.is_empty() {
        assert(out@ =~= base + Seq::<char>::empty());
    } else {
        out.append("?n=");
        let n = url_encode(name);
        out.append(n.as_str());
        out.append("&s=");
        let s = decimal_string(size);
        out.append(s.as_str());
        out.append("&m=");
        let m = url_encode(mime);
        out.append(m.as_str());
    }
    assert(out@ =~= share_url_spec(ip@, port, id@, name@, size, mime@));
    out
}

/// A lowercase hexadecimal digit.
pub open spec fn is_lower_hex(c: char) -> bool {
    ('0' <= c && c <= '9') || ('a' <= c && c <= 'f')
}

/// The hyphenated text form of a version 4 UUID: 36 characters, dashes at
/// 8, 13, 18 and 23, lowercase hexadecimal digits elsewhere, and the
/// version digit `4` at 14.
pub open spec fn is_v4_uuid_text(s: Seq<char>) -> bool {
    &&& s.len() == 36
    &&& forall|i: int|
        0 <= i < 36 ==> if i == 8 || i == 13 || i == 18 || i == 23 {
            #[trigger] s[i] == '-'
        } else {
            is_lower_hex(s[i])
        }
    &&& s[14] == '4'
}

/// A fresh random id for a shared file, or `None` when the system's
/// random source fails.
///
/// Draws 16 bytes with `getrandom::fill`, which reports a failure of the
/// system's random source as an error, and turns them into an id with
/// `uuid::Builder::from_random_bytes` (which sets the version 4 and variant
/// bits) formatted by `to_string` in the lowercase hyphenated form; the
/// contract states that form. Which id comes out is random and not stated.
#[verifier::external_body]
fn new_share_id() -> (res: Option<String>)
    ensures
        res matches Some(id) ==> is_v4_uuid_text(id@),
{
    let mut bytes = [0u8; 16];
    match getrandom::fill(&mut bytes) {
        Ok(()) => Some(uuid::Builder::from_random_bytes(bytes).into_uuid().to_string()),
        Err(_) => None,
    }
}

/// Where a shared file's bytes are kept.
#[derive(Debug, PartialEq, Eq, Clone, Copy)]
pub enum StorageKind {
    Memory,
    Disk,
}

/// Small files are kept in memory, the rest copied to disk.
pub open spec fn storage_for_size_spec(size: u64) -> StorageKind {
    if size < MEMORY_THRESHOLD {
        StorageKind::Memory
    } else {
        StorageKind::Disk
    }
}

/// Files below one mebibyte (1048576 bytes) are kept in memory, files of
/// that size or more are copied to disk.
pub proof fn law_storage_threshold(size: u64)
    ensures
        size < 1048576 ==> storage_for_size_spec(size) == StorageKind::Memory,
        size >= 1048576 ==> storage_for_size_spec(size) == StorageKind::Disk,
{
}

/// Where the bytes of a file of `size` bytes are kept while it is shared.
pub fn storage_for_size(size: u64) -> (res: StorageKind)
    ensures
        res == storage_for_size_spec(size),
{
    if size < MEMORY_THRESHOLD {
        StorageKind::Memory
    } else {
        StorageKind::Disk
    }
}

/// What sharing one file takes: its fresh id, where its bytes are kept,
/// and the link handed out for it.
pub struct SharePlan {
    pub id: String,
    pub storage: StorageKind,
    pub url: String,
}

/// Plans the sharing of a clipboard entry served at `ip`:`port`. A share
/// link cannot be shared again; a local file gets a fresh id, a place for
/// its bytes by its size, and its link, unless no random id could be
/// drawn.
pub fn plan_shared_file(file: &ClipboardFile, ip: &str, port: u16) -> (res: Result<SharePlan, String>)
    ensures
        is_http_url_spec(file.path@) ==> (res matches Err(e) && e@
            == "El archivo de origen ya es una URL HTTP; no se puede compartir"@),
        !is_http_url_spec(file.path@) && res is Err ==> (res matches Err(e) && e@
            == "No se pudo generar un identificador para el archivo"@),
        res matches Ok(plan) ==> {
            &&& !is_http_url_spec(file.path@)
            &&& is_v4_uuid_text(plan.id@)
            &&& plan.storage == storage_for_size_spec(file.size)
            &&& plan.url@ == share_url_spec(
                ip@,
                port,
                plan.id@,
                file.name@,
                file.size,
                file.mime@,
            )
        },
{
    if is_http_url(file.path.as_str()) {
        return Err(String::from_str("El archivo de origen ya es una URL HTTP; no se puede compartir"));
    }
    let id = match new_share_id() {
        Some(id) => id,
        None => return Err(String::from_str("No se pudo generar un identificador para el archivo")),
    };
    let storage = storage_for_size(file.size);
    let url = share_url(ip, port, id.as_str(), file.name.as_str(), file.size, file.mime.as_str());
    Ok(SharePlan { id, storage, url })
}

/// The entries of `files` that are local files, in order.
pub open spec fn local_files_spec(files: Seq<ClipboardFileView>) -> Seq<ClipboardFileView>
    decreases files.len(),
{
    if files.len() == 0 {
        Seq::empty()
    } else {
        let rest = local_files_spec(files.drop_last());
        if is_http_url_spec(files.last().path) {
            rest
        } else {
            rest.push(files.last())
        }
    }
}

/// Only local files are shared: no entry kept is a link, and every local
/// entry is kept.
pub proof fn law_only_local_files_shared(files: Seq<ClipboardFileView>)
    ensures
        forall|i: int|
            0 <= i < local_files_spec(files).len() ==> !is_http_url_spec(
                #[trigger] local_files_spec(files)[i].path,
            ),
        local_files_spec(files).len() == files.filter(
            |f: ClipboardFileView| !is_http_url_spec(f.path),
        ).len(),
    decreases files.len(),
{
    reveal_with_fuel(Seq::filter, 1);
    if files.len() > 0 {
        law_only_local_files_shared(files.drop_last());
        let rest = local_files_spec(files.drop_last());
        assert forall|i: int|
            0 <= i < local_files_spec(files).len() implies !is_http_url_spec(
            #[trigger] local_files_spec(files)[i].path,
        ) by {
            if i < rest.len() {
                assert(local_files_spec(files)[i] == rest[i]);
            }
        }
    }
}

/// The clipboard entries that can be shared: the local files, in order.
pub fn shareable_files(files: &Vec<ClipboardFile>) -> (res: Vec<ClipboardFile>)
    ensures
        files_view(res@) == local_files_spec(files_view(files@)),
{
    let mut out: Vec<ClipboardFile> = Vec::new();
    let mut i: usize = 0;
    while i < files.len()
        invariant
            i <= files@.len(),
            files_view(out@) == local_files_spec(files_view(files@.take(i as int))),
        decreases files@.len() - i,
    {
        assert(files_view(files@.take(i + 1)).drop_last() =~= files_view(files@.take(i as int)));
        if !is_http_url(files[i].path.as_str()) {
            let f = files[i].duplicate();
            let ghost before = files_view(out@);
            out.push(f);
            assert(files_view(out@) =~= before.push(f@));
        }
        i = i + 1;
    }
    assert(files@.take(files@.len() as int) =~= files@);
    out
}

/// The lines of `lines` joined by `\n`.
pub open spec fn join_lines_spec(lines: Seq<Seq<char>>) -> Seq<char>
    decreases lines.len(),
{
    if lines.len() == 0 {
        Seq::empty()
    } else if lines.len() == 1 {
        lines[0]
    } else {
        join_lines_spec(lines.drop_last()) + seq!['\n'] + lines.last()
    }
}

/// Links are put one per line: a single link is the text itself, and each
/// further link goes after a line feed.
pub proof fn law_links_one_per_line(lines: Seq<Seq<char>>, line: Seq<char>)
    ensures
        join_lines_spec(seq![line]) == line,
        lines.len() > 0 ==> join_lines_spec(lines.push(line)) == join_lines_spec(lines) + seq!['\n']
            + line,
        join_lines_spec(Seq::empty()).len() == 0,
{
    assert(lines.push(line).drop_last() =~= lines);
}

/// The clipboard text that hands out the links `urls`, one per line.
pub fn share_links_text(urls: &Vec<String>) -> (res: String)
    ensures
        res@ == join_lines_spec(urls@.map_values(|u: String| u@)),
{
    let ghost lines = urls@.map_values(|u: String| u@);
    let mut out = String::new();
    let mut i: usize = 0;
    while i < urls.len()
        invariant
            i <= urls@.len(),
            lines == urls@.map_values(|u: String| u@),
            out@ == join_lines_spec(lines.take(i as int)),
        decreases urls@.len() - i,
    {
        assert(lines.take(i + 1).drop_last() =~= lines.take(i as int));
        if i > 0 {
            push_char(&mut out, '\n');
        }
        out.append(urls[i].as_str());
        proof {
            if i == 0 {
                assert(out@ =~= lines.take(1)[0]);
            }
        }
        i = i + 1;
    }
    assert(lines.take(urls@.len() as int) =~= lines);
    out
}

/// The status shown after `count` files were shared.
pub open spec fn shared_status_spec(count: nat) -> Seq<char> {
    "Compartido "@ + decimal_spec(count) + " archivo(s). Pegá con Ctrl+V donde quieras."@
}

/// The status after sharing names how many files were shared, in
/// decimal, between `Compartido ` and the hint to paste them.
pub proof fn law_shared_status(count: nat)
    ensures
        shared_status_spec(count) == "Compartido "@ + decimal_spec(count) + " archivo(s)."@
            + " Pegá con Ctrl+V donde quieras."@,
{
    reveal_strlit(" archivo(s). Pegá con Ctrl+V donde quieras.");
    reveal_strlit(" archivo(s).");
    reveal_strlit(" Pegá con Ctrl+V donde quieras.");
    assert(" archivo(s). Pegá con Ctrl+V donde quieras."@ =~= " archivo(s)."@
        + " Pegá con Ctrl+V donde quieras."@);
}

/// The status message shown after sharing `count` files.
pub fn shared_status_message(count: usize) -> (res: String)
    ensures
        res@ == shared_status_spec(count as nat),
{
    let mut out = String::from_str("Compartido ");
    let n = decimal_string(count as u64);
    out.append(n.as_str());
    out.append(" archivo(s). Pegá con Ctrl+V donde quieras.");
    out
}


/// No character of `s` is whitespace.
pub open spec fn no_whitespace(s: Seq<char>) -> bool {
    forall|i: int| 0 <= i < s.len() ==> !is_unicode_white_space(#[trigger] s[i])
}

/// An id that can stand in a link and come back out of a request for it:
/// a valid id holding no whitespace and no `?`.
pub open spec fn is_link_safe_id(id: Seq<char>) -> bool {
    &&& is_valid_id(id)
    &&& no_whitespace(id)
    &&& !id.contains('?')
}

proof fn lemma_no_whitespace_concat(a: Seq<char>, b: Seq<char>)
    requires
        no_whitespace(a),
        no_whitespace(b),
    ensures
        no_whitespace(a + b),
{
    assert forall|i: int| 0 <= i < (a + b).len() implies !is_unicode_white_space(
        #[trigger] (a + b)[i],
    ) by {
        if i < a.len() {
            assert((a + b)[i] == a[i]);
        } else {
            assert((a + b)[i] == b[i - a.len()]);
        }
    }
}

proof fn lemma_url_encode_no_whitespace(bs: Seq<u8>)
    ensures
        no_whitespace(url_encode_bytes(bs)),
    decreases bs.len(),
{
    if bs.len() > 0 {
        lemma_url_encode_no_whitespace(bs.drop_last());
        let b = bs.last();
        let e = encode_byte_spec(b);
        assert(no_whitespace(e)) by {
            assert forall|i: int| 0 <= i < e.len() implies !is_unicode_white_space(#[trigger] e[i]) by {
                if is_unreserved(b) {
                    assert(e[i] == b as char);
                    assert((b as char) as u32 == b as u32);
                } else if i == 0 {
                    assert(e[i] == '%');
                } else if i == 1 {
                    assert(e[i] == hex_upper((b / 16) as nat));
                } else {
                    assert(e[i] == hex_upper((b % 16) as nat));
                }
            }
        }
        lemma_no_whitespace_concat(url_encode_bytes(bs.drop_last()), e);
    }
}

proof fn lemma_decimal_no_whitespace(n: nat)
    ensures
        no_whitespace(decimal_spec(n)),
    decreases n,
{
    if n >= 10 {
        lemma_decimal_no_whitespace(n / 10);
        assert(no_whitespace(seq![digit_char(n % 10)]));
        assert(decimal_spec(n) =~= decimal_spec(n / 10) + seq![digit_char(n % 10)]);
        lemma_no_whitespace_concat(decimal_spec(n / 10), seq![digit_char(n % 10)]);
    }
}

proof fn lemma_literal_no_whitespace()
    ensures
        no_whitespace("/clippi/"@),
        no_whitespace("?n="@),
        no_whitespace("&s="@),
        no_whitespace("&m="@),
{
    reveal_strlit("/clippi/");
    reveal_strlit("?n=");
    reveal_strlit("&s=");
    reveal_strlit("&m=");
}

proof fn lemma_share_query(name: Seq<char>, size: u64, mime: Seq<char>)
    ensures
        no_whitespace(share_query_spec(name, size, mime)),
        share_query_spec(name, size, mime).len() > 0 ==> share_query_spec(name, size, mime)[0]
            == '?',
{
    reveal_strlit("?n=");
    lemma_literal_no_whitespace();
    if name.len() > 0 {
        let a = url_encode_bytes(encode_utf8(name));
        let d = decimal_spec(size as nat);
        let m = url_encode_bytes(encode_utf8(mime));
        lemma_url_encode_no_whitespace(encode_utf8(name));
        lemma_url_encode_no_whitespace(encode_utf8(mime));
        lemma_decimal_no_whitespace(size as nat);
        lemma_no_whitespace_concat("?n="@, a);
        lemma_no_whitespace_concat("?n="@ + a, "&s="@);
        lemma_no_whitespace_concat("?n="@ + a + "&s="@, d);
        lemma_no_whitespace_concat("?n="@ + a + "&s="@ + d, "&m="@);
        lemma_no_whitespace_concat("?n="@ + a + "&s="@ + d + "&m="@, m);
    }
}


/// A share link is served: the HTTP request for the path of the link of
/// a file names that file's id, whatever else the request header holds
/// after its first line, as long as the id is link-safe.
pub proof fn law_share_link_is_served(
    id: Seq<char>,
    name: Seq<char>,
    size: u64,
    mime: Seq<char>,
    rest: Seq<char>,
)
    requires
        is_link_safe_id(id),
    ensures
        parse_path_spec(
            "GET "@ + share_path_spec(id, name, size, mime) + " HTTP/1.1\r\n"@ + rest,
        ) == Some(id),
{
    reveal_strlit("GET ");
    reveal_strlit(" HTTP/1.1\r\n");
    reveal_strlit("/clippi/");
    let q = share_query_spec(name, size, mime);
    lemma_share_query(name, size, mime);
    lemma_literal_no_whitespace();
    let pre = "/clippi/"@;
    let p = pre + id + q;
    assert(share_path_spec(id, name, size, mime) =~= p);
    lemma_no_whitespace_concat(pre, id);
    lemma_no_whitespace_concat(pre + id, q);
    let get = "GET "@;
    let tail = " HTTP/1.1\r\n"@;
    let header = get + p + tail + rest;
    let line = get + p + " HTTP/1.1"@;
    reveal_strlit(" HTTP/1.1");
    // the first line ends right before the first "\r\n"
    let k: int = line.len() as int + 1;
    assert(header[k] == '\n');
    assert(header[k - 1] == '\r');
    assert forall|j: int| 0 <= j < k implies header[j] != '\n' by {
        if 4 <= j < 4 + p.len() {
            assert(header[j] == p[j - 4]);
            assert(!is_unicode_white_space(p[j - 4]));
        }
    }
    lemma_index_of(header, '\n', k);
    assert(header.take(k).drop_last() =~= line);
    assert(first_line_spec(header) == Some(line));
    // the method
    lemma_trim_start(line, 0);
    assert(line.skip(0) =~= line);
    lemma_first_ws_index(line, 3);
    let r1 = line.skip(3);
    assert(next_word(line) == Some((line.take(3), r1)));
    // the request target
    assert(r1[0] == ' ');
    assert(r1[1] == p[0]);
    lemma_trim_start(r1, 1);
    let t = r1.skip(1);
    assert(t =~= p + " HTTP/1.1"@);
    assert forall|j: int| 0 <= j < p.len() implies !is_unicode_white_space(#[trigger] t[j]) by {
        assert(t[j] == p[j]);
    }
    assert(t[p.len() as int] == ' ');
    lemma_first_ws_index(t, p.len() as int);
    assert(t.take(p.len() as int) =~= p);
    assert(next_word(r1) == Some((p, t.skip(p.len() as int))));
    // the id
    let path = pre + id;
    assert forall|j: int| 0 <= j < path.len() implies p[j] != '?' by {
        assert(p[j] == path[j]);
        if j >= 8 {
            assert(path[j] == id[j - 8]);
        }
    }
    if q.len() > 0 {
        assert(p[path.len() as int] == '?');
        lemma_index_of(p, '?', path.len() as int);
        assert(p.take(path.len() as int) =~= path);
    } else {
        assert(p =~= path);
        lemma_index_of(p, '?', p.len() as int);
    }
    assert(before_char(p, '?') == path);
    assert(seq_starts_with(path, pre)) by {
        assert(path.subrange(0, 8) =~= pre);
    }
    assert(path.skip(8) =~= id);
    assert(!seq_starts_with(id, pre)) by {
        if seq_starts_with(id, pre) {
            assert(id.subrange(0, 8)[0] == '/');
            assert(id.contains('/'));
        }
    }
    assert(strip_prefix_all(id, pre) == id);
    assert(strip_prefix_all(path, pre) == id);
    assert(id[0] != '/') by {
        if id[0] == '/' {
            assert(id.contains('/'));
        }
    }
    assert(strip_char_all(id, '/') == id);
    assert(target_id(p) == id);
}

/// The ids given to shared files are link-safe.
pub proof fn lemma_uuid_text_is_link_safe(id: Seq<char>)
    requires
        is_v4_uuid_text(id),
    ensures
        is_link_safe_id(id),
{
    assert forall|i: int| 0 <= i < id.len() implies {
        &&& #[trigger] id[i] != '/'
        &&& id[i] != '\\'
        &&& id[i] != '?'
        &&& id[i] != '.'
        &&& !is_unicode_white_space(id[i])
    } by {
        if i == 8 || i == 13 || i == 18 || i == 23 {
            assert(id[i] == '-');
        } else {
            assert(is_lower_hex(id[i]));
        }
    }
    assert(!has_double_dot(id)) by {
        if has_double_dot(id) {
            let i = choose|i: int| 0 <= i && i + 1 < id.len() && #[trigger] id[i] == '.' && id[i + 1] == '.';
            assert(id[i] != '.');
        }
    }
    assert(!id.contains('/'));
    assert(!id.contains('\\'));
    assert(!id.contains('?'));
}


/// A character that may appear in an encoded link component: an ASCII
/// letter or digit, `-`, `_`, `.`, `~`, or the `%` of an escape.
pub open spec fn is_link_char(c: char) -> bool {
    ('A' <= c && c <= 'Z') || ('a' <= c && c <= 'z') || ('0' <= c && c <= '9') || c == '-' || c
        == '_' || c == '.' || c == '~' || c == '%'
}

/// An uppercase hexadecimal digit.
pub open spec fn is_upper_hex(c: char) -> bool {
    ('0' <= c && c <= '9') || ('A' <= c && c <= 'F')
}

/// How a single byte is encoded: the bytes of ASCII letters, digits, `-`,
/// `_`, `.` and `~` stand for themselves; every other byte (`&`, `=`, `+`,
/// `#`, space, and all non-ASCII bytes among them) becomes `%` followed by
/// its two uppercase hexadecimal digits.
pub proof fn law_url_encode_byte(b: u8)
    ensures
        ((65 <= b <= 90) || (97 <= b <= 122) || (48 <= b <= 57) || b == 45 || b == 95 || b == 46
            || b == 126) ==> url_encode_bytes(seq![b]) == seq![b as char],
        !((65 <= b <= 90) || (97 <= b <= 122) || (48 <= b <= 57) || b == 45 || b == 95 || b == 46
            || b == 126) ==> url_encode_bytes(seq![b]) == seq![
            '%',
            "0123456789ABCDEF"@[(b / 16) as int],
            "0123456789ABCDEF"@[(b % 16) as int],
        ],
{
    reveal_strlit("0123456789ABCDEF");
    let one = seq![b];
    assert(one.drop_last() =~= Seq::<u8>::empty());
    assert(url_encode_bytes(one.drop_last()) =~= Seq::<char>::empty());
    assert(url_encode_bytes(one) =~= encode_byte_spec(b));
    let h = "0123456789ABCDEF"@;
    assert(h =~= seq!['0', '1', '2', '3', '4', '5', '6', '7', '8', '9', 'A', 'B', 'C', 'D', 'E', 'F']);
    let hi = (b / 16) as int;
    let lo = (b % 16) as int;
    assert(h[hi] == hex_upper(hi as nat));
    assert(h[lo] == hex_upper(lo as nat));
}

/// An encoded name holds only ASCII letters, digits, `-`, `_`, `.`, `~`
/// and escapes `%` followed by two uppercase hexadecimal digits; in
/// particular no `&`, `=`, `+` or `#`, so the query of a share link splits
/// into exactly its `n`, `s` and `m` pairs.
pub proof fn law_url_encode_alphabet(bs: Seq<u8>)
    ensures
        forall|i: int| 0 <= i < url_encode_bytes(bs).len() ==> is_link_char(#[trigger] url_encode_bytes(bs)[i]),
        forall|i: int|
            0 <= i < url_encode_bytes(bs).len() && #[trigger] url_encode_bytes(bs)[i] == '%' ==> i + 2
                < url_encode_bytes(bs).len() && is_upper_hex(url_encode_bytes(bs)[i + 1])
                && is_upper_hex(url_encode_bytes(bs)[i + 2]),
        !url_encode_bytes(bs).contains('&'),
        !url_encode_bytes(bs).contains('='),
        !url_encode_bytes(bs).contains('+'),
        !url_encode_bytes(bs).contains('#'),
    decreases bs.len(),
{
    let out = url_encode_bytes(bs);
    if bs.len() > 0 {
        let rest = bs.drop_last();
        let b = bs.last();
        law_url_encode_alphabet(rest);
        let r = url_encode_bytes(rest);
        let e = encode_byte_spec(b);
        assert(out =~= r + e);
        assert forall|i: int| 0 <= i < out.len() implies is_link_char(#[trigger] out[i]) && (out[i]
            == '%' ==> i + 2 < out.len() && is_upper_hex(out[i + 1]) && is_upper_hex(out[i + 2])) by {
            if i < r.len() {
                assert(out[i] == r[i]);
                if r[i] == '%' {
                    assert(out[i + 1] == r[i + 1]);
                    assert(out[i + 2] == r[i + 2]);
                }
            } else {
                let j = i - r.len();
                assert(out[i] == e[j]);
                if is_unreserved(b) {
                    assert((b as char) as u32 == b as u32);
                } else {
                    assert(out[r.len() as int + 1] == e[1]);
                    assert(out[r.len() as int + 2] == e[2]);
                }
            }
        }
    }
    assert forall|i: int| 0 <= i < out.len() implies out[i] != '&' && out[i] != '=' && out[i] != '+'
        && out[i] != '#' by {
        assert(is_link_char(out[i]));
    }
}

/// Every link planned for a file is served: its id is link-safe, so the
/// request for the link's path names that id.
pub proof fn law_planned_link_is_served(
    id: Seq<char>,
    name: Seq<char>,
    size: u64,
    mime: Seq<char>,
    rest: Seq<char>,
)
    requires
        is_v4_uuid_text(id),
    ensures
        parse_path_spec(
            "GET "@ + share_path_spec(id, name, size, mime) + " HTTP/1.1\r\n"@ + rest,
        ) == Some(id),
{
    lemma_uuid_text_is_link_safe(id);
    law_share_link_is_served(id, name, size, mime, rest);
}

/// The value of the hexadecimal digit `c` (either case).
pub open spec fn hex_value(c: char) -> int {
    if '0' <= c && c <= '9' {
        c as int - 48
    } else if 'A' <= c && c <= 'F' {
        c as int - 55
    } else if 'a' <= c && c <= 'f' {
        c as int - 87
    } else {
        0
    }
}

/// Percent-decoding: `%` and two hexadecimal digits stand for one byte,
/// any other character for its own code.
pub open spec fn percent_decode_spec(cs: Seq<char>) -> Seq<u8>
    decreases cs.len(),
{
    if cs.len() == 0 {
        Seq::empty()
    } else if cs[0] == '%' && cs.len() >= 3 {
        seq![(hex_value(cs[1]) * 16 + hex_value(cs[2])) as u8] + percent_decode_spec(cs.skip(3))
    } else {
        seq![cs[0] as u8] + percent_decode_spec(cs.skip(1))
    }
}

/// Encoding works byte by byte: the encoding of two byte strings put
/// together is their encodings put together.
pub proof fn law_url_encode_concat(a: Seq<u8>, b: Seq<u8>)
    ensures
        url_encode_bytes(a + b) == url_encode_bytes(a) + url_encode_bytes(b),
    decreases b.len(),
{
    if b.len() == 0 {
        assert(a + b =~= a);
        assert(url_encode_bytes(a) + url_encode_bytes(b) =~= url_encode_bytes(a));
    } else {
        law_url_encode_concat(a, b.drop_last());
        assert((a + b).drop_last() =~= a + b.drop_last());
        assert(url_encode_bytes(a + b) =~= url_encode_bytes(a) + url_encode_bytes(b));
    }
}

proof fn lemma_decode_encoded_byte(b: u8, rest: Seq<char>)
    ensures
        percent_decode_spec(encode_byte_spec(b) + rest) == seq![b] + percent_decode_spec(rest),
{
    let e = encode_byte_spec(b);
    let cs = e + rest;
    if is_unreserved(b) {
        assert(cs[0] == b as char);
        assert(cs.skip(1) =~= rest);
        assert((b as char) as u8 == b);
    } else {
        assert(cs[0] == '%');
        assert(cs.skip(3) =~= rest);
        let hi = (b / 16) as nat;
        let lo = (b % 16) as nat;
        assert(hex_value(hex_upper(hi)) == hi);
        assert(hex_value(hex_upper(lo)) == lo);
        assert(hi * 16 + lo == b);
    }
}

/// Encoding loses nothing: percent-decoding what `url_encode` produced for
/// a text gives back the text's UTF-8 bytes.
pub proof fn law_url_encode_round_trip(bs: Seq<u8>)
    ensures
        percent_decode_spec(url_encode_bytes(bs)) == bs,
    decreases bs.len(),
{
    if bs.len() > 0 {
        let first = seq![bs[0]];
        let rest = bs.drop_first();
        assert(bs =~= first + rest);
        law_url_encode_concat(first, rest);
        assert(url_encode_bytes(first) =~= encode_byte_spec(bs[0])) by {
            assert(first.drop_last() =~= Seq::<u8>::empty());
            assert(url_encode_bytes(first.drop_last()) =~= Seq::<char>::empty());
            assert(first.last() == bs[0]);
        }
        lemma_decode_encoded_byte(bs[0], url_encode_bytes(rest));
        law_url_encode_round_trip(rest);
        assert(seq![bs[0]] + rest =~= bs);
    } else {
        assert(url_encode_bytes(bs) =~= Seq::<char>::empty());
    }
}

} // verus!
