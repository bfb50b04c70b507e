//! Clipboard entries: turning the URIs and links found on the clipboard
//! into described files, and what is offered when a link is copied.
use vstd::prelude::*;
use vstd::utf8::encode_utf8;

use crate::mime::{guess_mime, guess_mime_spec, path_file_name, path_file_name_spec};
use crate::text::{
    decimal_spec, law_decimal_round_trip, is_http_url, is_http_url_spec, parse_u64, parse_u64_spec, str_eq, trim, trim_spec,
};

verus! {

/// The view of an optional string.
pub open spec fn opt_str_view(o: Option<String>) -> Option<Seq<char>> {
    match o {
        Some(s) => Some(s@),
        None => None,
    }
}

/// A file found on the clipboard: its local path or share link, its name,
/// its size in bytes and its media type.
#[derive(Debug, PartialEq, Eq)]
pub struct ClipboardFile {
    pub path: String,
    pub name: String,
    pub size: u64,
    pub mime: String,
}

/// The mathematical value of a [`ClipboardFile`].
pub struct ClipboardFileView {
    pub path: Seq<char>,
    pub name: Seq<char>,
    pub size: u64,
    pub mime: Seq<char>,
}

impl View for ClipboardFile {
    type V = ClipboardFileView;

    open spec fn view(&self) -> ClipboardFileView {
        ClipboardFileView { path: self.path@, name: self.name@, size: self.size, mime: self.mime@ }
    }
}

impl ClipboardFile {
    /// A field-by-field copy.
    pub fn duplicate(&self) -> (res: ClipboardFile)
        ensures
            res@ == self@,
    {
        ClipboardFile {
            path: self.path.clone(),
            name: self.name.clone(),
            size: self.size,
            mime: self.mime.clone(),
        }
    }

    /// Whether two entries agree in every field.
    pub fn same_as(&self, other: &ClipboardFile) -> (res: bool)
        ensures
            res == (self@ == other@),
    {
        self.path == other.path && self.name == other.name && self.size == other.size
            && self.mime == other.mime
    }
}

/// The views of a list of entries.
pub open spec fn files_view(files: Seq<ClipboardFile>) -> Seq<ClipboardFileView> {
    files.map_values(|f: ClipboardFile| f@)
}

/// Whether two lists of entries are equal, entry by entry.
pub fn same_files(a: &Vec<ClipboardFile>, b: &Vec<ClipboardFile>) -> (res: bool)
    ensures
        res == (files_view(a@) == files_view(b@)),
{
    if a.len() != b.len() {
        assert(files_view(a@).len() != files_view(b@).len());
        return false;
    }
    let n = a.len();
    let mut i: usize = 0;
    while i < n
        invariant
            n == a@.len(),
            n == b@.len(),
            i <= n,
            forall|j: int| 0 <= j < i ==> a@[j]@ == b@[j]@,
        decreases n - i,
    {
        if !a[i].same_as(&b[i]) {
            assert(files_view(a@)[i as int] != files_view(b@)[i as int]);
            return false;
        }
        i = i + 1;
    }
    assert(files_view(a@) =~= files_view(b@));
    true
}

/// What of a parsed URL the clipboard logic reads: its scheme, the local
/// path it denotes (when it denotes one that is valid UTF-8), and its
/// decoded query pairs in order.
pub struct UrlParts {
    pub scheme: String,
    pub file_path: Option<String>,
    pub query_pairs: Vec<(String, String)>,
}

/// The mathematical value of [`UrlParts`].
pub struct UrlPartsView {
    pub scheme: Seq<char>,
    pub file_path: Option<Seq<char>>,
    pub query_pairs: Seq<(Seq<char>, Seq<char>)>,
}

/// The view of a list of string pairs.
pub open spec fn pairs_view(p: Seq<(String, String)>) -> Seq<(Seq<char>, Seq<char>)> {
    p.map_values(|q: (String, String)| (q.0@, q.1@))
}

impl View for UrlParts {
    type V = UrlPartsView;

    open spec fn view(&self) -> UrlPartsView {
        UrlPartsView {
            scheme: self.scheme@,
            file_path: opt_str_view(self.file_path),
            query_pairs: pairs_view(self.query_pairs@),
        }
    }
}

/// The view of an optional parse result.
pub open spec fn opt_parts_view(o: Option<UrlParts>) -> Option<UrlPartsView> {
    match o {
        Some(p) => Some(p@),
        None => None,
    }
}

/// `p` is an absolute Unix path: it begins with `/`.
pub open spec fn is_absolute_path(p: Seq<char>) -> bool {
    p.len() > 0 && p[0] == '/'
}

/// What `url::Url::parse` gives for `input`, read as [`UrlParts`].
pub uninterp spec fn spec_parse_url(input: Seq<char>) -> Option<UrlPartsView>;

/// Parses an absolute URL.
///
/// Calls `url::Url::parse`; on success reads `Url::scheme`,
/// `Url::to_file_path` (kept only when the path is valid UTF-8) and
/// `Url::query_pairs` (each decoded pair made owned). The contract names the
/// result: the same input always gives the same parts. It also states what
/// the crate documents of `to_file_path`: the path it gives is absolute.
/// The WHATWG parsing rules themselves are not stated.
#[verifier::external_body]
pub(crate) fn parse_url(input: &str) -> (res: Option<UrlParts>)
    ensures
        opt_parts_view(res) == spec_parse_url(input@),
        res matches Some(p) ==> (p.file_path matches Some(f) ==> is_absolute_path(f@)),
{
    match url::Url::parse(input) {
        Ok(parsed) => Some(
            UrlParts {
                scheme: parsed.scheme().to_string(),
                file_path: parsed.to_file_path().ok().and_then(|p| p.to_str().map(String::from)),
                query_pairs: parsed.query_pairs().map(|(k, v)| (k.into_owned(), v.into_owned())).collect(),
            },
        ),
        Err(_) => None,
    }
}

/// The local path that a parsed URL denotes: only `file` URLs have one.
pub open spec fn local_path_spec(parts: Option<UrlPartsView>) -> Option<Seq<char>> {
    match parts {
        Some(p) => if p.scheme == "file"@ {
            p.file_path
        } else {
            None
        },
        None => None,
    }
}

/// The local path of an already parsed URL.
pub fn local_path_from_url(parts: &Option<UrlParts>) -> (res: Option<String>)
    ensures
        opt_str_view(res) == local_path_spec(opt_parts_view(*parts)),
{
    match parts {
        Some(p) => {
            if str_eq(p.scheme.as_str(), "file") {
                match &p.file_path {
                    Some(f) => Some(f.clone()),
                    None => None,
                }
            } else {
                None
            }
        },
        None => None,
    }
}

/// The local path that a clipboard URI denotes, surrounding whitespace
/// ignored.
pub open spec fn uri_local_path_spec(uri: Seq<char>) -> Option<Seq<char>> {
    local_path_spec(spec_parse_url(trim_spec(uri)))
}

/// Converts a `file://` URI to a local filesystem path; `None` for any
/// other URI or text that is not a URL.
pub fn uri_to_local_path(uri: &str) -> (res: Option<String>)
    ensures
        opt_str_view(res) == uri_local_path_spec(uri@),
        res matches Some(p) ==> is_absolute_path(p@),
{
    let parts = parse_url(trim(uri));
    local_path_from_url(&parts)
}

/// The local paths of a list of clipboard URIs, in order, skipping those
/// that are not local files.
pub open spec fn local_paths_spec(uris: Seq<Seq<char>>) -> Seq<Seq<char>>
    decreases uris.len(),
{
    if uris.len() == 0 {
        Seq::empty()
    } else {
        let rest = local_paths_spec(uris.drop_last());
        match uri_local_path_spec(uris.last()) {
            Some(p) => rest.push(p),
            None => rest,
        }
    }
}

/// The views of a list of strings.
pub open spec fn strings_view(v: Seq<String>) -> Seq<Seq<char>> {
    v.map_values(|s: String| s@)
}

/// The local paths of the URIs read from the clipboard.
pub fn paths_from_uris(uris: &Vec<String>) -> (res: Vec<String>)
    ensures
        strings_view(res@) == local_paths_spec(strings_view(uris@)),
        forall|i: int| 0 <= i < res@.len() ==> is_absolute_path(#[trigger] res@[i]@),
{
    let mut out: Vec<String> = Vec::new();
    let mut i: usize = 0;
    while i < uris.len()
        invariant
            i <= uris@.len(),
            strings_view(out@) == local_paths_spec(strings_view(uris@.take(i as int))),
            forall|j: int| 0 <= j < out@.len() ==> is_absolute_path(#[trigger] out@[j]@),
        decreases uris@.len() - i,
    {
        assert(strings_view(uris@.take(i + 1)).drop_last() =~= strings_view(uris@.take(i as int)));
        if let Some(p) = uri_to_local_path(uris[i].as_str()) {
            out.push(p);
            assert(strings_view(out@) =~= local_paths_spec(strings_view(uris@.take(i as int))).push(p@));
        }
        i = i + 1;
    }
    assert(uris@.take(uris@.len() as int) =~= uris@);
    out
}


/// The name (`n`) and size (`s`) that the query pairs of a share link
/// carry: the last occurrence of each key wins, and a size that is not a
/// valid `u64` leaves the size as it was.
pub open spec fn query_name_size_spec(pairs: Seq<(Seq<char>, Seq<char>)>) -> (Seq<char>, u64)
    decreases pairs.len(),
{
    if pairs.len() == 0 {
        (Seq::empty(), 0)
    } else {
        let acc = query_name_size_spec(pairs.drop_last());
        let kv = pairs.last();
        if kv.0 == "n"@ {
            (kv.1, acc.1)
        } else if kv.0 == "s"@ {
            match parse_u64_spec(kv.1) {
                Some(n) => (acc.0, n),
                None => acc,
            }
        } else {
            acc
        }
    }
}

/// The name and size carried by a parsed share link; empty and zero when
/// the link did not parse.
pub open spec fn link_name_size_spec(parts: Option<UrlPartsView>) -> (Seq<char>, u64) {
    match parts {
        Some(p) => query_name_size_spec(p.query_pairs),
        None => (Seq::empty(), 0),
    }
}

/// The query of a share link reads back what it was built from: the pairs
/// `n` = name, `s` = size in decimal and `m` = media type give that name
/// and size; a key other than `n` and `s` changes nothing.
pub proof fn law_link_query_round_trip(name: Seq<char>, size: u64, mime: Seq<char>)
    ensures
        query_name_size_spec(
            seq![(seq!['n'], name), (seq!['s'], decimal_spec(size as nat)), (seq!['m'], mime)],
        ) == (name, size),
{
    reveal_strlit("n");
    reveal_strlit("s");
    assert("n"@ =~= seq!['n']);
    assert("s"@ =~= seq!['s']);
    law_decimal_round_trip(size);
    let pairs = seq![(seq!['n'], name), (seq!['s'], decimal_spec(size as nat)), (seq!['m'], mime)];
    assert(pairs.drop_last() =~= seq![(seq!['n'], name), (seq!['s'], decimal_spec(size as nat))]);
    assert(pairs.drop_last().drop_last() =~= seq![(seq!['n'], name)]);
    assert(pairs.drop_last().drop_last().drop_last() =~= Seq::<(Seq<char>, Seq<char>)>::empty());
    assert(seq!['m'] != "n"@ && seq!['m'] != "s"@) by {
        assert(seq!['m'][0] != "n"@[0]);
        assert(seq!['m'][0] != "s"@[0]);
    }
    assert(seq!['s'] != "n"@) by {
        assert(seq!['s'][0] != "n"@[0]);
    }
    let p0 = Seq::<(Seq<char>, Seq<char>)>::empty();
    let p1 = seq![(seq!['n'], name)];
    let p2 = seq![(seq!['n'], name), (seq!['s'], decimal_spec(size as nat))];
    assert(query_name_size_spec(p0) == (Seq::<char>::empty(), 0u64));
    assert(p1.drop_last() =~= p0);
    assert(query_name_size_spec(p1) == (name, 0u64));
    assert(p2.drop_last() =~= p1);
    assert(query_name_size_spec(p2) == (name, size));
    assert(query_name_size_spec(pairs) == (name, size));
}

/// How an entry is described: a local file keeps its path, is named by
/// its last path component (empty when there is none), sized by what the
/// disk reported (0 when it reported nothing) and typed by its path; a
/// share link keeps its path and is typed by the name its query carries.
pub proof fn law_enrich(path: Seq<char>, disk_size: Option<u64>)
    ensures
        enrich_spec(path, disk_size).path == path,
        !is_http_url_spec(path) ==> {
            &&& enrich_spec(path, disk_size).size == (if disk_size is Some {
                disk_size->0
            } else {
                0
            })
            &&& (path_file_name_spec(path) matches Some(n) ==> enrich_spec(path, disk_size).name == n)
            &&& (path_file_name_spec(path) is None ==> enrich_spec(path, disk_size).name.len() == 0)
            &&& enrich_spec(path, disk_size).mime == guess_mime_spec(path)
        },
        is_http_url_spec(path) ==> enrich_spec(path, disk_size).mime == guess_mime_spec(
            enrich_spec(path, disk_size).name,
        ) && (enrich_spec(path, disk_size).name, enrich_spec(path, disk_size).size)
            == link_name_size_spec(spec_parse_url(path)),
{
}

/// Reads the name and size from the query of an already parsed link.
pub fn link_name_and_size(parts: &Option<UrlParts>) -> (res: (String, u64))
    ensures
        (res.0@, res.1) == link_name_size_spec(opt_parts_view(*parts)),
{
    let mut name = String::new();
    let mut size: u64 = 0;
    match parts {
        None => {},
        Some(p) => {
            let pairs = &p.query_pairs;
            let mut i: usize = 0;
            while i < pairs.len()
                invariant
                    i <= pairs@.len(),
                    (name@, size) == query_name_size_spec(pairs_view(pairs@.take(i as int))),
                decreases pairs@.len() - i,
            {
                assert(pairs_view(pairs@.take(i + 1)).drop_last() =~= pairs_view(
                    pairs@.take(i as int),
                ));
                let (k, v) = (&pairs[i].0, &pairs[i].1);
                if str_eq(k.as_str(), "n") {
                    name = v.clone();
                } else if str_eq(k.as_str(), "s") {
                    if let Some(n) = parse_u64(v.as_str()) {
                        size = n;
                    }
                }
                i = i + 1;
            }
            assert(pairs@.take(pairs@.len() as int) =~= pairs@);
        },
    }
    (name, size)
}

/// Reads the name (`n`) and size (`s`) that a share link carries in its
/// query.
pub fn parse_http_query(url: &str) -> (res: (String, u64))
    ensures
        (res.0@, res.1) == link_name_size_spec(spec_parse_url(url@)),
{
    let parts = parse_url(url);
    link_name_and_size(&parts)
}

/// How a clipboard entry is described: a share link carries its own name
/// and size, and its media type is guessed from that name; a local file is
/// named by the last component of its path, sized by what the disk
/// reported (zero when nothing was), and typed by its path.
pub open spec fn enrich_spec(path: Seq<char>, disk_size: Option<u64>) -> ClipboardFileView {
    if is_http_url_spec(path) {
        let ns = link_name_size_spec(spec_parse_url(path));
        ClipboardFileView { path, name: ns.0, size: ns.1, mime: guess_mime_spec(ns.0) }
    } else {
        ClipboardFileView {
            path,
            name: match path_file_name_spec(path) {
                Some(n) => n,
                None => Seq::empty(),
            },
            size: match disk_size {
                Some(n) => n,
                None => 0,
            },
            mime: guess_mime_spec(path),
        }
    }
}

/// Describes a clipboard entry. `disk_size` is the length that the file
/// system reported for `path`, if it reported one; it is not consulted for
/// share links.
pub fn enrich(path: String, disk_size: Option<u64>) -> (res: ClipboardFile)
    ensures
        res@ == enrich_spec(path@, disk_size),
{
    if is_http_url(path.as_str()) {
        let (name, size) = parse_http_query(path.as_str());
        let mime = guess_mime(name.as_str());
        return ClipboardFile { path, name, size, mime };
    }
    let name = match path_file_name(path.as_str()) {
        Some(n) => n,
        None => String::new(),
    };
    let size = match disk_size {
        Some(n) => n,
        None => 0,
    };
    let mime = guess_mime(path.as_str());
    ClipboardFile { path, name, size, mime }
}

/// One item of the macOS pasteboard: the file URL it holds and the path
/// that resolving the URL gave (empty when resolving failed).
pub struct PasteboardItem {
    pub url: String,
    pub resolved: String,
}

/// The path an item stands for: the resolved path, or else the path that
/// its URL denotes.
pub open spec fn item_path_spec(url: Seq<char>, resolved: Seq<char>) -> Option<Seq<char>> {
    if resolved.len() == 0 {
        uri_local_path_spec(url)
    } else {
        Some(resolved)
    }
}

/// The paths of pasteboard items in order, each kept only the first time
/// it occurs.
pub open spec fn pasteboard_paths_spec(items: Seq<PasteboardItem>) -> Seq<Seq<char>>
    decreases items.len(),
{
    if items.len() == 0 {
        Seq::empty()
    } else {
        let rest = pasteboard_paths_spec(items.drop_last());
        match item_path_spec(items.last().url@, items.last().resolved@) {
            Some(p) => if rest.contains(p) {
                rest
            } else {
                rest.push(p)
            },
            None => rest,
        }
    }
}

/// Whether `p` occurs in `v`.
fn contains_string(v: &Vec<String>, p: &String) -> (res: bool)
    ensures
        res == strings_view(v@).contains(p@),
{
    let mut i: usize = 0;
    while i < v.len()
        invariant
            i <= v@.len(),
            forall|j: int| 0 <= j < i ==> v@[j]@ != p@,
        decreases v@.len() - i,
    {
        if v[i] == *p {
            assert(strings_view(v@)[i as int] == p@);
            return true;
        }
        i = i + 1;
    }
    false
}

/// The local paths held by the items of the macOS pasteboard, without
/// repeats.
pub fn pasteboard_paths(items: &Vec<PasteboardItem>) -> (res: Vec<String>)
    ensures
        strings_view(res@) == pasteboard_paths_spec(items@),
        strings_view(res@).no_duplicates(),
        forall|i: int| 0 <= i < res@.len() ==> #[trigger] res@[i]@.len() > 0,
{
    let mut out: Vec<String> = Vec::new();
    let mut i: usize = 0;
    while i < items.len()
        invariant
            i <= items@.len(),
            strings_view(out@) == pasteboard_paths_spec(items@.take(i as int)),
            strings_view(out@).no_duplicates(),
            forall|j: int| 0 <= j < out@.len() ==> #[trigger] out@[j]@.len() > 0,
        decreases items@.len() - i,
    {
        assert(items@.take(i + 1).drop_last() =~= items@.take(i as int));
        let item = &items[i];
        let candidate = if item.resolved.unicode_len() == 0 {
            uri_to_local_path(item.url.as_str())
        } else {
            Some(item.resolved.clone())
        };
        if let Some(p) = candidate {
            if !contains_string(&out, &p) {
                let ghost before = strings_view(out@);
                out.push(p);
                assert(strings_view(out@) =~= before.push(p@));
            }
        }
        i = i + 1;
    }
    assert(items@.take(items@.len() as int) =~= items@);
    out
}

/// What copying a link puts on the clipboard: `None` when there is nothing
/// to copy (an empty link), else the link's UTF-8 bytes, offered both as a
/// URI list and as plain text.
pub fn write_clipboard_url(url: &str) -> (res: Option<Vec<u8>>)
    ensures
        res is None <==> url@.len() == 0,
        res matches Some(b) ==> b@ == encode_utf8(url@),
{
    if url.is_empty() {
        return None;
    }
    Some(url.as_bytes_vec())
}

/// The clipboard target offered under `info`: 0 is the URI list, any
/// other value plain text.
pub fn clipboard_target_name(info: u32) -> (res: &'static str)
    ensures
        res@ == (if info == 0 {
            "text/uri-list"@
        } else {
            "text/plain"@
        }),
{
    if info == 0 {
        "text/uri-list"
    } else {
        "text/plain"
    }
}

} // verus!
