//! Media types of shared files, guessed from the extension of their name.
use vstd::prelude::*;
use vstd::utf8::is_ascii_chars;

use crate::clipboard::opt_str_view;
use crate::text::{chars_of, last_index_of, str_eq, string_from_chars};

verus! {

/// Where the last occurrence of `c` in `s` lies.
pub proof fn lemma_last_index_of_bound(s: Seq<char>, c: char)
    ensures
        -1 <= last_index_of(s, c) < s.len(),
        last_index_of(s, c) >= 0 ==> s[last_index_of(s, c)] == c,
        forall|j: int| last_index_of(s, c) < j < s.len() ==> s[j] != c,
    decreases s.len(),
{
    if s.len() > 0 && s.last() != c {
        let t = s.drop_last();
        lemma_last_index_of_bound(t, c);
        assert forall|j: int| last_index_of(s, c) < j < s.len() implies s[j] != c by {
            if j < s.len() - 1 {
                assert(s[j] == t[j]);
            }
        }
    }
}

/// The final component of `path`, as `Path::file_name` gives it on Unix:
/// the last `/`-separated segment once empty segments and `.` segments
/// are skipped; `None` when there is no such segment or it is `..`.
pub open spec fn path_file_name_spec(path: Seq<char>) -> Option<Seq<char>>
    decreases path.len(),
{
    if path.len() == 0 {
        None
    } else {
        let k = last_index_of(path, '/');
        let seg = path.subrange(k + 1, path.len() as int);
        if seg.len() == 0 || seg == "."@ {
            if k < 0 {
                None
            } else {
                proof {
                    lemma_last_index_of_bound(path, '/');
                }
                path_file_name_spec(path.take(k))
            }
        } else if seg == ".."@ {
            None
        } else {
            Some(seg)
        }
    }
}

/// The range of the final component of `cs[..end]`, if it has one.
fn file_name_range(cs: &Vec<char>, end: usize) -> (res: Option<(usize, usize)>)
    requires
        end <= cs@.len(),
    ensures
        match res {
            Some((a, b)) => a <= b <= end && path_file_name_spec(cs@.take(end as int)) == Some(
                cs@.subrange(a as int, b as int),
            ),
            None => path_file_name_spec(cs@.take(end as int)) is None,
        },
    decreases end,
{
    let ghost p = cs@.take(end as int);
    if end == 0 {
        return None;
    }
    let mut j: usize = end;
    assert(p.subrange(0, end as int) =~= p);
    while j > 0 && cs[j - 1] != '/'
        invariant
            j <= end <= cs@.len(),
            p == cs@.take(end as int),
            last_index_of(p, '/') == last_index_of(p.subrange(0, j as int), '/'),
        decreases j,
    {
        assert(p.subrange(0, j as int).drop_last() =~= p.subrange(0, j - 1));
        j = j - 1;
    }
    let ghost k: int = j - 1;
    proof {
        if j > 0 {
            assert(p.subrange(0, j as int).last() == '/');
        } else {
            assert(p.subrange(0, 0).len() == 0);
        }
    }
    assert(last_index_of(p, '/') == k);
    let ghost seg = p.subrange(k + 1, end as int);
    assert(seg =~= cs@.subrange(j as int, end as int));
    proof {
        reveal_strlit(".");
        reveal_strlit("..");
    }
    let is_dot = end - j == 1 && cs[j] == '.';
    let is_dot_dot = end - j == 2 && cs[j] == '.' && cs[j + 1] == '.';
    assert(is_dot <==> seg == "."@) by {
        if seg == "."@ {
            assert(seg[0] == '.');
        }
        if is_dot {
            assert(seg =~= "."@);
        }
    }
    assert(is_dot_dot <==> seg == ".."@) by {
        if seg == ".."@ {
            assert(seg[0] == '.' && seg[1] == '.');
        }
        if is_dot_dot {
            assert(seg =~= ".."@);
        }
    }
    if end == j || is_dot {
        if j == 0 {
            None
        } else {
            assert(p.take(k) =~= cs@.take(j - 1));
            file_name_range(cs, j - 1)
        }
    } else if is_dot_dot {
        None
    } else {
        Some((j, end))
    }
}

/// The final component of `path`, as `Path::file_name` gives it.
pub fn path_file_name(path: &str) -> (res: Option<String>)
    ensures
        opt_str_view(res) == path_file_name_spec(path@),
{
    let cs = chars_of(path);
    assert(cs@.take(cs@.len() as int) =~= cs@);
    match file_name_range(&cs, cs.len()) {
        Some((a, b)) => Some(string_from_chars(&cs, a, b)),
        None => None,
    }
}

/// The extension of a file name, as `Path::extension` documents it: the
/// part after the final `.`, unless there is no `.` or the only one is the
/// leading character of the name.
pub open spec fn extension_spec(name: Seq<char>) -> Option<Seq<char>> {
    let k = last_index_of(name, '.');
    if k < 1 {
        None
    } else {
        Some(name.subrange(k + 1, name.len() as int))
    }
}

/// The extension of a file name is what follows its last dot, when some
/// non-empty text precedes that dot: a name is split as `stem.ext` with a
/// non-empty `stem` and an `ext` without dots exactly when `ext` is its
/// extension; a name with no such split has none.
pub proof fn law_extension(name: Seq<char>, stem: Seq<char>, ext: Seq<char>)
    ensures
        extension_spec(name) matches Some(e) ==> !e.contains('.') && name.len() > e.len() + 1
            && name[name.len() - e.len() - 1] == '.' && name.subrange(
            name.len() - e.len(),
            name.len() as int,
        ) == e,
        stem.len() > 0 && !ext.contains('.') && name == stem + seq!['.'] + ext ==> extension_spec(
            name,
        ) == Some(ext),
{
    lemma_last_index_of_bound(name, '.');
    let k = last_index_of(name, '.');
    if k >= 1 {
        let e = name.subrange(k + 1, name.len() as int);
        assert forall|i: int| 0 <= i < e.len() implies e[i] != '.' by {
            assert(e[i] == name[k + 1 + i]);
        }
    }
    if stem.len() > 0 && !ext.contains('.') && name == stem + seq!['.'] + ext {
        let d = stem.len() as int;
        assert(name[d] == '.');
        if k > d {
            assert(name[k] == ext[k - d - 1]);
        }
        assert(k == d);
        assert(name.subrange(k + 1, name.len() as int) =~= ext);
    }
}

/// The file name of a path is its last segment: a normal segment (not
/// empty, `.` or `..`, and without `/`) is the file name of itself and of
/// any path that ends with `/` and it, and a file name found is always
/// such a segment.
pub proof fn law_file_name(dir: Seq<char>, name: Seq<char>, path: Seq<char>)
    ensures
        name.len() > 0 && name != "."@ && name != ".."@ && !name.contains('/') ==> {
            &&& path_file_name_spec(name) == Some(name)
            &&& path_file_name_spec(dir + seq!['/'] + name) == Some(name)
        },
        path_file_name_spec(path) matches Some(n) ==> n.len() > 0 && n != "."@ && n != ".."@
            && !n.contains('/'),
    decreases path.len(),
{
    if name.len() > 0 && name != "."@ && name != ".."@ && !name.contains('/') {
        lemma_last_index_of_bound(name, '/');
        if last_index_of(name, '/') >= 0 {
            assert(name.contains('/'));
        }
        assert(name.subrange(0, name.len() as int) =~= name);
        let p = dir + seq!['/'] + name;
        lemma_last_index_of_bound(p, '/');
        let k = last_index_of(p, '/');
        let d = dir.len() as int;
        assert(p[d] == '/');
        if k > d {
            assert(p[k] == name[k - d - 1]);
            assert(name.contains('/'));
        }
        assert(k == d);
        assert(p.subrange(k + 1, p.len() as int) =~= name);
    }
    if path.len() > 0 {
        lemma_last_index_of_bound(path, '/');
        let k = last_index_of(path, '/');
        let seg = path.subrange(k + 1, path.len() as int);
        if seg.len() == 0 || seg == "."@ {
            if k >= 0 {
                law_file_name(dir, name, path.take(k));
            }
        } else if seg != ".."@ {
            assert forall|i: int| 0 <= i < seg.len() implies seg[i] != '/' by {
                assert(seg[i] == path[k + 1 + i]);
            }
        }
    }
}

/// The extension of the file name `name`.
pub fn file_name_extension(name: &str) -> (res: Option<&str>)
    ensures
        match res {
            Some(e) => extension_spec(name@) == Some(e@),
            None => extension_spec(name@) is None,
        },
{
    let n = name.unicode_len();
    let mut k: usize = n;
    assert(name@.subrange(0, n as int) =~= name@);
    while k > 0 && name.get_char(k - 1) != '.'
        invariant
            n == name@.len(),
            k <= n,
            last_index_of(name@, '.') == last_index_of(name@.subrange(0, k as int), '.'),
        decreases k,
    {
        assert(name@.subrange(0, k as int).drop_last() =~= name@.subrange(0, k - 1));
        k = k - 1;
    }
    if k <= 1 {
        proof {
            if k == 1 {
                assert(name@.subrange(0, 1).last() == '.');
            } else {
                assert(name@.subrange(0, 0).len() == 0);
            }
        }
        None
    } else {
        assert(name@.subrange(0, k as int).last() == '.');
        Some(name.substring_char(k, n))
    }
}

/// The extension of the last component of `path`, empty when there is
/// none.
pub open spec fn path_extension_spec(path: Seq<char>) -> Seq<char> {
    match path_file_name_spec(path) {
        Some(name) => match extension_spec(name) {
            Some(e) => e,
            None => Seq::empty(),
        },
        None => Seq::empty(),
    }
}

/// The lowercase form of `s`, as `str::to_lowercase` gives it.
pub uninterp spec fn spec_str_to_lowercase(s: Seq<char>) -> Seq<char>;

/// ASCII letters `A`..`Z` mapped to `a`..`z`; other characters kept.
pub open spec fn ascii_lower_char(c: char) -> char {
    if 'A' <= c && c <= 'Z' {
        ((c as u32) + 32) as char
    } else {
        c
    }
}

/// Lowercases `s`.
///
/// Calls `str::to_lowercase`, which maps every character to its Unicode
/// lowercase form (a character may become several). The contract names
/// the result and states what the documentation shows for ASCII text:
/// `A`..`Z` become `a`..`z` and the rest is kept. For other text the
/// Unicode mapping is not stated.
#[verifier::external_body]
pub(crate) fn to_lowercase(s: &str) -> (res: String)
    ensures
        res@ == spec_str_to_lowercase(s@),
        is_ascii_chars(s@) ==> res@ == s@.map_values(|c: char| ascii_lower_char(c)),
{
    s.to_lowercase()
}

/// The media type registered for a lowercase extension.
pub open spec fn mime_for_extension_spec(e: Seq<char>) -> Seq<char> {
    if e == "pdf"@ {
        "application/pdf"@
    } else if e == "txt"@ || e == "log"@ || e == "csv"@ || e == "tsv"@ {
        "text/plain"@
    } else if e == "md"@ || e == "markdown"@ {
        "text/markdown"@
    } else if e == "html"@ || e == "htm"@ {
        "text/html"@
    } else if e == "css"@ {
        "text/css"@
    } else if e == "js"@ || e == "mjs"@ || e == "cjs"@ {
        "application/javascript"@
    } else if e == "ts"@ || e == "tsx"@ {
        "application/typescript"@
    } else if e == "json"@ {
        "application/json"@
    } else if e == "xml"@ {
        "application/xml"@
    } else if e == "yml"@ || e == "yaml"@ {
        "application/yaml"@
    } else if e == "png"@ {
        "image/png"@
    } else if e == "jpg"@ || e == "jpeg"@ {
        "image/jpeg"@
    } else if e == "gif"@ {
        "image/gif"@
    } else if e == "webp"@ {
        "image/webp"@
    } else if e == "svg"@ {
        "image/svg+xml"@
    } else if e == "bmp"@ {
        "image/bmp"@
    } else if e == "ico"@ {
        "image/x-icon"@
    } else if e == "mp4"@ || e == "m4v"@ {
        "video/mp4"@
    } else if e == "webm"@ {
        "video/webm"@
    } else if e == "mkv"@ {
        "video/x-matroska"@
    } else if e == "mov"@ {
        "video/quicktime"@
    } else if e == "avi"@ {
        "video/x-msvideo"@
    } else if e == "mp3"@ {
        "audio/mpeg"@
    } else if e == "wav"@ {
        "audio/wav"@
    } else if e == "flac"@ {
        "audio/flac"@
    } else if e == "ogg"@ {
        "audio/ogg"@
    } else if e == "m4a"@ {
        "audio/mp4"@
    } else if e == "zip"@ {
        "application/zip"@
    } else if e == "tar"@ {
        "application/x-tar"@
    } else if e == "gz"@ || e == "tgz"@ {
        "application/gzip"@
    } else if e == "bz2"@ {
        "application/x-bzip2"@
    } else if e == "xz"@ {
        "application/x-xz"@
    } else if e == "7z"@ {
        "application/x-7z-compressed"@
    } else if e == "rar"@ {
        "application/vnd.rar"@
    } else if e == "rs"@ {
        "text/x-rust"@
    } else if e == "py"@ {
        "text/x-python"@
    } else if e == "go"@ {
        "text/x-go"@
    } else if e == "rb"@ {
        "text/x-ruby"@
    } else if e == "java"@ {
        "text/x-java"@
    } else if e == "c"@ || e == "h"@ {
        "text/x-c"@
    } else if e == "cpp"@ || e == "hpp"@ || e == "cc"@ {
        "text/x-c++"@
    } else if e == "sh"@ {
        "text/x-shellscript"@
    } else if e == "doc"@ {
        "application/msword"@
    } else if e == "docx"@ {
        "application/vnd.openxmlformats-officedocument.wordprocessingml.document"@
    } else if e == "xls"@ {
        "application/vnd.ms-excel"@
    } else if e == "xlsx"@ {
        "application/vnd.openxmlformats-officedocument.spreadsheetml.sheet"@
    } else if e == "ppt"@ {
        "application/vnd.ms-powerpoint"@
    } else if e == "pptx"@ {
        "application/vnd.openxmlformats-officedocument.presentationml.presentation"@
    } else if e == "epub"@ {
        "application/epub+zip"@
    } else {
        "application/octet-stream"@
    }
}

/// The media type table: each extension of the table gives its registered
/// media type, and any other extension gives `application/octet-stream`.
pub proof fn law_mime_table(e: Seq<char>)
    ensures
        e == "pdf"@ ==> mime_for_extension_spec(e) == "application/pdf"@,
        e == "txt"@ ==> mime_for_extension_spec(e) == "text/plain"@,
        e == "log"@ ==> mime_for_extension_spec(e) == "text/plain"@,
        e == "csv"@ ==> mime_for_extension_spec(e) == "text/plain"@,
        e == "tsv"@ ==> mime_for_extension_spec(e) == "text/plain"@,
        e == "md"@ ==> mime_for_extension_spec(e) == "text/markdown"@,
        e == "markdown"@ ==> mime_for_extension_spec(e) == "text/markdown"@,
        e == "html"@ ==> mime_for_extension_spec(e) == "text/html"@,
        e == "htm"@ ==> mime_for_extension_spec(e) == "text/html"@,
        e == "css"@ ==> mime_for_extension_spec(e) == "text/css"@,
        e == "js"@ ==> mime_for_extension_spec(e) == "application/javascript"@,
        e == "mjs"@ ==> mime_for_extension_spec(e) == "application/javascript"@,
        e == "cjs"@ ==> mime_for_extension_spec(e) == "application/javascript"@,
        e == "ts"@ ==> mime_for_extension_spec(e) == "application/typescript"@,
        e == "tsx"@ ==> mime_for_extension_spec(e) == "application/typescript"@,
        e == "json"@ ==> mime_for_extension_spec(e) == "application/json"@,
        e == "xml"@ ==> mime_for_extension_spec(e) == "application/xml"@,
        e == "yml"@ ==> mime_for_extension_spec(e) == "application/yaml"@,
        e == "yaml"@ ==> mime_for_extension_spec(e) == "application/yaml"@,
        e == "png"@ ==> mime_for_extension_spec(e) == "image/png"@,
        e == "jpg"@ ==> mime_for_extension_spec(e) == "image/jpeg"@,
        e == "jpeg"@ ==> mime_for_extension_spec(e) == "image/jpeg"@,
        e == "gif"@ ==> mime_for_extension_spec(e) == "image/gif"@,
        e == "webp"@ ==> mime_for_extension_spec(e) == "image/webp"@,
        e == "svg"@ ==> mime_for_extension_spec(e) == "image/svg+xml"@,
        e == "bmp"@ ==> mime_for_extension_spec(e) == "image/bmp"@,
        e == "ico"@ ==> mime_for_extension_spec(e) == "image/x-icon"@,
        e == "mp4"@ ==> mime_for_extension_spec(e) == "video/mp4"@,
        e == "m4v"@ ==> mime_for_extension_spec(e) == "video/mp4"@,
        e == "webm"@ ==> mime_for_extension_spec(e) == "video/webm"@,
        e == "mkv"@ ==> mime_for_extension_spec(e) == "video/x-matroska"@,
        e == "mov"@ ==> mime_for_extension_spec(e) == "video/quicktime"@,
        e == "avi"@ ==> mime_for_extension_spec(e) == "video/x-msvideo"@,
        e == "mp3"@ ==> mime_for_extension_spec(e) == "audio/mpeg"@,
        e == "wav"@ ==> mime_for_extension_spec(e) == "audio/wav"@,
        e == "flac"@ ==> mime_for_extension_spec(e) == "audio/flac"@,
        e == "ogg"@ ==> mime_for_extension_spec(e) == "audio/ogg"@,
        e == "m4a"@ ==> mime_for_extension_spec(e) == "audio/mp4"@,
        e == "zip"@ ==> mime_for_extension_spec(e) == "application/zip"@,
        e == "tar"@ ==> mime_for_extension_spec(e) == "application/x-tar"@,
        e == "gz"@ ==> mime_for_extension_spec(e) == "application/gzip"@,
        e == "tgz"@ ==> mime_for_extension_spec(e) == "application/gzip"@,
        e == "bz2"@ ==> mime_for_extension_spec(e) == "application/x-bzip2"@,
        e == "xz"@ ==> mime_for_extension_spec(e) == "application/x-xz"@,
        e == "7z"@ ==> mime_for_extension_spec(e) == "application/x-7z-compressed"@,
        e == "rar"@ ==> mime_for_extension_spec(e) == "application/vnd.rar"@,
        e == "rs"@ ==> mime_for_extension_spec(e) == "text/x-rust"@,
        e == "py"@ ==> mime_for_extension_spec(e) == "text/x-python"@,
        e == "go"@ ==> mime_for_extension_spec(e) == "text/x-go"@,
        e == "rb"@ ==> mime_for_extension_spec(e) == "text/x-ruby"@,
        e == "java"@ ==> mime_for_extension_spec(e) == "text/x-java"@,
        e == "c"@ ==> mime_for_extension_spec(e) == "text/x-c"@,
        e == "h"@ ==> mime_for_extension_spec(e) == "text/x-c"@,
        e == "cpp"@ ==> mime_for_extension_spec(e) == "text/x-c++"@,
        e == "hpp"@ ==> mime_for_extension_spec(e) == "text/x-c++"@,
        e == "cc"@ ==> mime_for_extension_spec(e) == "text/x-c++"@,
        e == "sh"@ ==> mime_for_extension_spec(e) == "text/x-shellscript"@,
        e == "doc"@ ==> mime_for_extension_spec(e) == "application/msword"@,
        e == "docx"@ ==> mime_for_extension_spec(e) == "application/vnd.openxmlformats-officedocument.wordprocessingml.document"@,
        e == "xls"@ ==> mime_for_extension_spec(e) == "application/vnd.ms-excel"@,
        e == "xlsx"@ ==> mime_for_extension_spec(e) == "application/vnd.openxmlformats-officedocument.spreadsheetml.sheet"@,
        e == "ppt"@ ==> mime_for_extension_spec(e) == "application/vnd.ms-powerpoint"@,
        e == "pptx"@ ==> mime_for_extension_spec(e) == "application/vnd.openxmlformats-officedocument.presentationml.presentation"@,
        e == "epub"@ ==> mime_for_extension_spec(e) == "application/epub+zip"@,
        (e != "pdf"@ && e != "txt"@ && e != "log"@ && e != "csv"@ && e != "tsv"@ && e != "md"@ && e != "markdown"@ && e != "html"@ && e != "htm"@ && e != "css"@ && e != "js"@ && e != "mjs"@ && e != "cjs"@ && e != "ts"@ && e != "tsx"@ && e != "json"@ && e != "xml"@ && e != "yml"@ && e != "yaml"@ && e != "png"@ && e != "jpg"@ && e != "jpeg"@ && e != "gif"@ && e != "webp"@ && e != "svg"@ && e != "bmp"@ && e != "ico"@ && e != "mp4"@ && e != "m4v"@ && e != "webm"@ && e != "mkv"@ && e != "mov"@ && e != "avi"@ && e != "mp3"@ && e != "wav"@ && e != "flac"@ && e != "ogg"@ && e != "m4a"@ && e != "zip"@ && e != "tar"@ && e != "gz"@ && e != "tgz"@ && e != "bz2"@ && e != "xz"@ && e != "7z"@ && e != "rar"@ && e != "rs"@ && e != "py"@ && e != "go"@ && e != "rb"@ && e != "java"@ && e != "c"@ && e != "h"@ && e != "cpp"@ && e != "hpp"@ && e != "cc"@ && e != "sh"@ && e != "doc"@ && e != "docx"@ && e != "xls"@ && e != "xlsx"@ && e != "ppt"@ && e != "pptx"@ && e != "epub"@) ==> mime_for_extension_spec(e) == "application/octet-stream"@,
{
    reveal_strlit("pdf");
    reveal_strlit("txt");
    reveal_strlit("log");
    reveal_strlit("csv");
    reveal_strlit("tsv");
    reveal_strlit("md");
    reveal_strlit("markdown");
    reveal_strlit("html");
    reveal_strlit("htm");
    reveal_strlit("css");
    reveal_strlit("js");
    reveal_strlit("mjs");
    reveal_strlit("cjs");
    reveal_strlit("ts");
    reveal_strlit("tsx");
    reveal_strlit("json");
    reveal_strlit("xml");
    reveal_strlit("yml");
    reveal_strlit("yaml");
    reveal_strlit("png");
    reveal_strlit("jpg");
    reveal_strlit("jpeg");
    reveal_strlit("gif");
    reveal_strlit("webp");
    reveal_strlit("svg");
    reveal_strlit("bmp");
    reveal_strlit("ico");
    reveal_strlit("mp4");
    reveal_strlit("m4v");
    reveal_strlit("webm");
    reveal_strlit("mkv");
    reveal_strlit("mov");
    reveal_strlit("avi");
    reveal_strlit("mp3");
    reveal_strlit("wav");
    reveal_strlit("flac");
    reveal_strlit("ogg");
    reveal_strlit("m4a");
    reveal_strlit("zip");
    reveal_strlit("tar");
    reveal_strlit("gz");
    reveal_strlit("tgz");
    reveal_strlit("bz2");
    reveal_strlit("xz");
    reveal_strlit("7z");
    reveal_strlit("rar");
    reveal_strlit("rs");
    reveal_strlit("py");
    reveal_strlit("go");
    reveal_strlit("rb");
    reveal_strlit("java");
    reveal_strlit("c");
    reveal_strlit("h");
    reveal_strlit("cpp");
    reveal_strlit("hpp");
    reveal_strlit("cc");
    reveal_strlit("sh");
    reveal_strlit("doc");
    reveal_strlit("docx");
    reveal_strlit("xls");
    reveal_strlit("xlsx");
    reveal_strlit("ppt");
    reveal_strlit("pptx");
    reveal_strlit("epub");
    assert("pdf"@ =~= seq!['p', 'd', 'f']);
    assert("txt"@ =~= seq!['t', 'x', 't']);
    assert("log"@ =~= seq!['l', 'o', 'g']);
    assert("csv"@ =~= seq!['c', 's', 'v']);
    assert("tsv"@ =~= seq!['t', 's', 'v']);
    assert("md"@ =~= seq!['m', 'd']);
    assert("markdown"@ =~= seq!['m', 'a', 'r', 'k', 'd', 'o', 'w', 'n']);
    assert("html"@ =~= seq!['h', 't', 'm', 'l']);
    assert("htm"@ =~= seq!['h', 't', 'm']);
    assert("css"@ =~= seq!['c', 's', 's']);
    assert("js"@ =~= seq!['j', 's']);
    assert("mjs"@ =~= seq!['m', 'j', 's']);
    assert("cjs"@ =~= seq!['c', 'j', 's']);
    assert("ts"@ =~= seq!['t', 's']);
    assert("tsx"@ =~= seq!['t', 's', 'x']);
    assert("json"@ =~= seq!['j', 's', 'o', 'n']);
    assert("xml"@ =~= seq!['x', 'm', 'l']);
    assert("yml"@ =~= seq!['y', 'm', 'l']);
    assert("yaml"@ =~= seq!['y', 'a', 'm', 'l']);
    assert("png"@ =~= seq!['p', 'n', 'g']);
    assert("jpg"@ =~= seq!['j', 'p', 'g']);
    assert("jpeg"@ =~= seq!['j', 'p', 'e', 'g']);
    assert("gif"@ =~= seq!['g', 'i', 'f']);
    assert("webp"@ =~= seq!['w', 'e', 'b', 'p']);
    assert("svg"@ =~= seq!['s', 'v', 'g']);
    assert("bmp"@ =~= seq!['b', 'm', 'p']);
    assert("ico"@ =~= seq!['i', 'c', 'o']);
    assert("mp4"@ =~= seq!['m', 'p', '4']);
    assert("m4v"@ =~= seq!['m', '4', 'v']);
    assert("webm"@ =~= seq!['w', 'e', 'b', 'm']);
    assert("mkv"@ =~= seq!['m', 'k', 'v']);
    assert("mov"@ =~= seq!['m', 'o', 'v']);
    assert("avi"@ =~= seq!['a', 'v', 'i']);
    assert("mp3"@ =~= seq!['m', 'p', '3']);
    assert("wav"@ =~= seq!['w', 'a', 'v']);
    assert("flac"@ =~= seq!['f', 'l', 'a', 'c']);
    assert("ogg"@ =~= seq!['o', 'g', 'g']);
    assert("m4a"@ =~= seq!['m', '4', 'a']);
    assert("zip"@ =~= seq!['z', 'i', 'p']);
    assert("tar"@ =~= seq!['t', 'a', 'r']);
    assert("gz"@ =~= seq!['g', 'z']);
    assert("tgz"@ =~= seq!['t', 'g', 'z']);
    assert("bz2"@ =~= seq!['b', 'z', '2']);
    assert("xz"@ =~= seq!['x', 'z']);
    assert("7z"@ =~= seq!['7', 'z']);
    assert("rar"@ =~= seq!['r', 'a', 'r']);
    assert("rs"@ =~= seq!['r', 's']);
    assert("py"@ =~= seq!['p', 'y']);
    assert("go"@ =~= seq!['g', 'o']);
    assert("rb"@ =~= seq!['r', 'b']);
    assert("java"@ =~= seq!['j', 'a', 'v', 'a']);
    assert("c"@ =~= seq!['c']);
    assert("h"@ =~= seq!['h']);
    assert("cpp"@ =~= seq!['c', 'p', 'p']);
    assert("hpp"@ =~= seq!['h', 'p', 'p']);
    assert("cc"@ =~= seq!['c', 'c']);
    assert("sh"@ =~= seq!['s', 'h']);
    assert("doc"@ =~= seq!['d', 'o', 'c']);
    assert("docx"@ =~= seq!['d', 'o', 'c', 'x']);
    assert("xls"@ =~= seq!['x', 'l', 's']);
    assert("xlsx"@ =~= seq!['x', 'l', 's', 'x']);
    assert("ppt"@ =~= seq!['p', 'p', 't']);
    assert("pptx"@ =~= seq!['p', 'p', 't', 'x']);
    assert("epub"@ =~= seq!['e', 'p', 'u', 'b']);
}

/// The media type for the lowercase extension `ext`;
/// `application/octet-stream` for anything unknown.
pub fn mime_for_extension(ext: &str) -> (res: String)
    ensures
        res@ == mime_for_extension_spec(ext@),
{
    let value: &str =     if str_eq(ext, "pdf") {
            "application/pdf"
        } else if str_eq(ext, "txt") || str_eq(ext, "log") || str_eq(ext, "csv") || str_eq(ext, "tsv") {
            "text/plain"
        } else if str_eq(ext, "md") || str_eq(ext, "markdown") {
            "text/markdown"
        } else if str_eq(ext, "html") || str_eq(ext, "htm") {
            "text/html"
        } else if str_eq(ext, "css") {
            "text/css"
        } else if str_eq(ext, "js") || str_eq(ext, "mjs") || str_eq(ext, "cjs") {
            "application/javascript"
        } else if str_eq(ext, "ts") || str_eq(ext, "tsx") {
            "application/typescript"
        } else if str_eq(ext, "json") {
            "application/json"
        } else if str_eq(ext, "xml") {
            "application/xml"
        } else if str_eq(ext, "yml") || str_eq(ext, "yaml") {
            "application/yaml"
        } else if str_eq(ext, "png") {
            "image/png"
        } else if str_eq(ext, "jpg") || str_eq(ext, "jpeg") {
            "image/jpeg"
        } else if str_eq(ext, "gif") {
            "image/gif"
        } else if str_eq(ext, "webp") {
            "image/webp"
        } else if str_eq(ext, "svg") {
            "image/svg+xml"
        } else if str_eq(ext, "bmp") {
            "image/bmp"
        } else if str_eq(ext, "ico") {
            "image/x-icon"
        } else if str_eq(ext, "mp4") || str_eq(ext, "m4v") {
            "video/mp4"
        } else if str_eq(ext, "webm") {
            "video/webm"
        } else if str_eq(ext, "mkv") {
            "video/x-matroska"
        } else if str_eq(ext, "mov") {
            "video/quicktime"
        } else if str_eq(ext, "avi") {
            "video/x-msvideo"
        } else if str_eq(ext, "mp3") {
            "audio/mpeg"
        } else if str_eq(ext, "wav") {
            "audio/wav"
        } else if str_eq(ext, "flac") {
            "audio/flac"
        } else if str_eq(ext, "ogg") {
            "audio/ogg"
        } else if str_eq(ext, "m4a") {
            "audio/mp4"
        } else if str_eq(ext, "zip") {
            "application/zip"
        } else if str_eq(ext, "tar") {
            "application/x-tar"
        } else if str_eq(ext, "gz") || str_eq(ext, "tgz") {
            "application/gzip"
        } else if str_eq(ext, "bz2") {
            "application/x-bzip2"
        } else if str_eq(ext, "xz") {
            "application/x-xz"
        } else if str_eq(ext, "7z") {
            "application/x-7z-compressed"
        } else if str_eq(ext, "rar") {
            "application/vnd.rar"
        } else if str_eq(ext, "rs") {
            "text/x-rust"
        } else if str_eq(ext, "py") {
            "text/x-python"
        } else if str_eq(ext, "go") {
            "text/x-go"
        } else if str_eq(ext, "rb") {
            "text/x-ruby"
        } else if str_eq(ext, "java") {
            "text/x-java"
        } else if str_eq(ext, "c") || str_eq(ext, "h") {
            "text/x-c"
        } else if str_eq(ext, "cpp") || str_eq(ext, "hpp") || str_eq(ext, "cc") {
            "text/x-c++"
        } else if str_eq(ext, "sh") {
            "text/x-shellscript"
        } else if str_eq(ext, "doc") {
            "application/msword"
        } else if str_eq(ext, "docx") {
            "application/vnd.openxmlformats-officedocument.wordprocessingml.document"
        } else if str_eq(ext, "xls") {
            "application/vnd.ms-excel"
        } else if str_eq(ext, "xlsx") {
            "application/vnd.openxmlformats-officedocument.spreadsheetml.sheet"
        } else if str_eq(ext, "ppt") {
            "application/vnd.ms-powerpoint"
        } else if str_eq(ext, "pptx") {
            "application/vnd.openxmlformats-officedocument.presentationml.presentation"
        } else if str_eq(ext, "epub") {
            "application/epub+zip"
        } else {
            "application/octet-stream"
        };
    value.to_owned()
}

/// The media type guessed for `path`: the lowercased extension of its last
/// component looked up in the table.
pub open spec fn guess_mime_spec(path: Seq<char>) -> Seq<char> {
    mime_for_extension_spec(spec_str_to_lowercase(path_extension_spec(path)))
}

/// Guesses the media type of the file at `path` from its extension.
pub fn guess_mime(path: &str) -> (res: String)
    ensures
        res@ == guess_mime_spec(path@),
        is_ascii_chars(path_extension_spec(path@)) ==> res@ == mime_for_extension_spec(
            path_extension_spec(path@).map_values(|c: char| ascii_lower_char(c)),
        ),
{
    let name = path_file_name(path);
    let ext: &str = match &name {
        Some(n) => match file_name_extension(n.as_str()) {
            Some(e) => e,
            None => "",
        },
        None => "",
    };
    proof {
        reveal_strlit("");
    }
    assert(ext@ == path_extension_spec(path@));
    let lower = to_lowercase(ext);
    mime_for_extension(lower.as_str())
}

} // verus!
