//! The small HTTP server that hands out shared files: the registry of
//! shared files, reading the requested id out of a request, and the
//! response headers.
use std::sync::Arc;
use vstd::prelude::*;

use crate::clipboard::opt_str_view as opt_view;

use vstd::utf8::{decode_utf8, encode_utf8, valid_utf8};

use crate::text::{
    chars_of, str_eq, decimal_spec, decimal_string, push_char, is_unicode_white_space, is_whitespace, seq_starts_with, string_from_chars,
    trim_start_spec,
};

verus! {

/// Index of the first occurrence of `c` in `s`, or -1.
pub open spec fn index_of(s: Seq<char>, c: char) -> int
    decreases s.len(),
{
    if s.len() == 0 {
        -1
    } else if s[0] == c {
        0
    } else {
        let r = index_of(s.drop_first(), c);
        if r < 0 {
            -1
        } else {
            r + 1
        }
    }
}

/// The first line of `h`, as `str::lines().next()` gives it: `None` for an
/// empty text; a line ends at `\n`, and a `\r` right before that `\n` is
/// not part of it.
pub open spec fn first_line_spec(h: Seq<char>) -> Option<Seq<char>> {
    if h.len() == 0 {
        None
    } else {
        let k = index_of(h, '\n');
        if k < 0 {
            Some(h)
        } else {
            let l = h.take(k);
            if l.len() > 0 && l.last() == '\r' {
                Some(l.drop_last())
            } else {
                Some(l)
            }
        }
    }
}

/// Index of the first whitespace character of `s`, or its length.
pub open spec fn first_ws_index(s: Seq<char>) -> int
    decreases s.len(),
{
    if s.len() == 0 {
        0
    } else if is_unicode_white_space(s[0]) {
        0
    } else {
        first_ws_index(s.drop_first()) + 1
    }
}

/// The first whitespace-separated word of `s` and what follows it, as
/// `str::split_whitespace` finds them; `None` when `s` is blank.
pub open spec fn next_word(s: Seq<char>) -> Option<(Seq<char>, Seq<char>)> {
    let t = trim_start_spec(s);
    if t.len() == 0 {
        None
    } else {
        let e = first_ws_index(t);
        Some((t.take(e), t.skip(e)))
    }
}

/// The part of `s` before the first `c`, all of `s` when there is none.
pub open spec fn before_char(s: Seq<char>, c: char) -> Seq<char> {
    let k = index_of(s, c);
    if k < 0 {
        s
    } else {
        s.take(k)
    }
}

/// `s` with every leading repetition of `p` removed, as
/// `str::trim_start_matches` does with a non-empty pattern.
pub open spec fn strip_prefix_all(s: Seq<char>, p: Seq<char>) -> Seq<char>
    decreases s.len(),
{
    if p.len() > 0 && seq_starts_with(s, p) {
        strip_prefix_all(s.skip(p.len() as int), p)
    } else {
        s
    }
}

/// `s` with every leading `c` removed.
pub open spec fn strip_char_all(s: Seq<char>, c: char) -> Seq<char>
    decreases s.len(),
{
    if s.len() > 0 && s[0] == c {
        strip_char_all(s.drop_first(), c)
    } else {
        s
    }
}

/// `s` holds two consecutive dots.
pub open spec fn has_double_dot(s: Seq<char>) -> bool {
    exists|i: int| 0 <= i && i + 1 < s.len() && #[trigger] s[i] == '.' && s[i + 1] == '.'
}

/// An id the server accepts: not empty, and with no path separator and no
/// `..` that could lead out of the shared files.
pub open spec fn is_valid_id(id: Seq<char>) -> bool {
    &&& id.len() > 0
    &&& !id.contains('/')
    &&& !id.contains('\\')
    &&& !has_double_dot(id)
}

/// The id that the request target of a header names: its path without the
/// query, with the leading `/clippi/` and any further leading `/` removed.
pub open spec fn target_id(target: Seq<char>) -> Seq<char> {
    strip_char_all(strip_prefix_all(before_char(target, '?'), "/clippi/"@), '/')
}

/// The shared file id requested by an HTTP request header: the second
/// word of its first line, reduced to an id, when that id is valid.
pub open spec fn parse_path_spec(header: Seq<char>) -> Option<Seq<char>> {
    match first_line_spec(header) {
        None => None,
        Some(line) => match next_word(line) {
            None => None,
            Some(w1) => match next_word(w1.1) {
                None => None,
                Some(w2) => {
                    let id = target_id(w2.0);
                    if is_valid_id(id) {
                        Some(id)
                    } else {
                        None
                    }
                },
            },
        },
    }
}

pub(crate) proof fn lemma_index_of(s: Seq<char>, c: char, k: int)
    requires
        0 <= k <= s.len(),
        forall|j: int| 0 <= j < k ==> s[j] != c,
        k < s.len() ==> s[k] == c,
    ensures
        index_of(s, c) == (if k == s.len() {
            -1
        } else {
            k
        }),
    decreases s.len(),
{
    if s.len() > 0 && k > 0 {
        lemma_index_of(s.drop_first(), c, k - 1);
    }
}

pub(crate) proof fn lemma_first_ws_index(s: Seq<char>, k: int)
    requires
        0 <= k <= s.len(),
        forall|j: int| 0 <= j < k ==> !is_unicode_white_space(#[trigger] s[j]),
        k < s.len() ==> is_unicode_white_space(s[k]),
    ensures
        first_ws_index(s) == k,
    decreases s.len(),
{
    if s.len() > 0 && k > 0 {
        assert(!is_unicode_white_space(s[0]));
        lemma_first_ws_index(s.drop_first(), k - 1);
    }
}

pub(crate) proof fn lemma_trim_start(s: Seq<char>, k: int)
    requires
        0 <= k <= s.len(),
        forall|j: int| 0 <= j < k ==> is_unicode_white_space(#[trigger] s[j]),
        k < s.len() ==> !is_unicode_white_space(s[k]),
    ensures
        trim_start_spec(s) == s.skip(k),
    decreases s.len(),
{
    if k > 0 {
        assert(is_unicode_white_space(s[0]));
        lemma_trim_start(s.drop_first(), k - 1);
        assert(s.drop_first().skip(k - 1) =~= s.skip(k));
    } else {
        assert(s.skip(0) =~= s);
    }
}

/// First index in `from..to` holding `c`, or `to`.
fn find_char(cs: &Vec<char>, from: usize, to: usize, c: char) -> (k: usize)
    requires
        from <= to <= cs@.len(),
    ensures
        from <= k <= to,
        forall|j: int| from <= j < k ==> cs@[j] != c,
        k < to ==> cs@[k as int] == c,
{
    let mut k = from;
    while k < to && cs[k] != c
        invariant
            from <= k <= to <= cs@.len(),
            forall|j: int| from <= j < k ==> cs@[j] != c,
        decreases to - k,
    {
        k = k + 1;
    }
    k
}

/// First index in `from..to` that is not whitespace, or `to`.
fn skip_whitespace(cs: &Vec<char>, from: usize, to: usize) -> (k: usize)
    requires
        from <= to <= cs@.len(),
    ensures
        from <= k <= to,
        forall|j: int| from <= j < k ==> is_unicode_white_space(#[trigger] cs@[j]),
        k < to ==> !is_unicode_white_space(cs@[k as int]),
{
    let mut k = from;
    while k < to && is_whitespace(cs[k])
        invariant
            from <= k <= to <= cs@.len(),
            forall|j: int| from <= j < k ==> is_unicode_white_space(#[trigger] cs@[j]),
        decreases to - k,
    {
        k = k + 1;
    }
    k
}

/// First index in `from..to` that is whitespace, or `to`.
fn find_whitespace(cs: &Vec<char>, from: usize, to: usize) -> (k: usize)
    requires
        from <= to <= cs@.len(),
    ensures
        from <= k <= to,
        forall|j: int| from <= j < k ==> !is_unicode_white_space(#[trigger] cs@[j]),
        k < to ==> is_unicode_white_space(cs@[k as int]),
{
    let mut k = from;
    while k < to && !is_whitespace(cs[k])
        invariant
            from <= k <= to <= cs@.len(),
            forall|j: int| from <= j < k ==> !is_unicode_white_space(#[trigger] cs@[j]),
        decreases to - k,
    {
        k = k + 1;
    }
    k
}


/// Whether `cs[from..to]` is a valid id.
fn is_valid_id_range(cs: &Vec<char>, from: usize, to: usize) -> (res: bool)
    requires
        from <= to <= cs@.len(),
    ensures
        res == is_valid_id(cs@.subrange(from as int, to as int)),
{
    let ghost id = cs@.subrange(from as int, to as int);
    if from == to {
        return false;
    }
    let mut i = from;
    while i < to
        invariant
            from <= i <= to <= cs@.len(),
            id == cs@.subrange(from as int, to as int),
            forall|j: int| 0 <= j < i - from ==> id[j] != '/' && id[j] != '\\',
            forall|j: int| 0 <= j && j + 1 < i - from ==> !(#[trigger] id[j] == '.' && id[j + 1] == '.'),
        decreases to - i,
    {
        let c = cs[i];
        assert(id[i - from] == c);
        if c == '/' || c == '\\' {
            assert(id.contains(c));
            return false;
        }
        if c == '.' && i > from && cs[i - 1] == '.' {
            assert(id[i - from - 1] == '.');
            assert(has_double_dot(id));
            return false;
        }
        i = i + 1;
    }
    assert(!id.contains('/'));
    assert(!id.contains('\\'));
    assert(!has_double_dot(id)) by {
        assert forall|j: int| 0 <= j && j + 1 < id.len() implies !(#[trigger] id[j] == '.' && id[j
            + 1] == '.') by {}
    }
    true
}

/// The end of the first line of `cs` (without its line ending).
fn first_line_end(cs: &Vec<char>) -> (e: usize)
    requires
        cs@.len() > 0,
    ensures
        e <= cs@.len(),
        first_line_spec(cs@) == Some(cs@.subrange(0, e as int)),
{
    let n = cs.len();
    let ghost h = cs@;
    let k = find_char(cs, 0, n, '\n');
    proof {
        lemma_index_of(h, '\n', k as int);
    }
    let line_end: usize = if k < n {
        if k > 0 && cs[k - 1] == '\r' {
            k - 1
        } else {
            k
        }
    } else {
        n
    };
    proof {
        let line = h.subrange(0, line_end as int);
        if k < n {
            assert(h.take(k as int) =~= h.subrange(0, k as int));
            if k > 0 && h[k - 1] == '\r' {
                assert(h.take(k as int).drop_last() =~= line);
            }
        } else {
            assert(h =~= line);
        }
    }
    line_end
}

/// The first word of `cs[from..to]`, as a range, when there is one.
fn next_word_range(cs: &Vec<char>, from: usize, to: usize) -> (res: Option<(usize, usize)>)
    requires
        from <= to <= cs@.len(),
    ensures
        match res {
            None => next_word(cs@.subrange(from as int, to as int)) is None,
            Some((a, b)) => from <= a <= b <= to && next_word(cs@.subrange(from as int, to as int))
                == Some((cs@.subrange(a as int, b as int), cs@.subrange(b as int, to as int))),
        },
{
    let ghost h = cs@;
    let ghost sub = h.subrange(from as int, to as int);
    let a = skip_whitespace(cs, from, to);
    proof {
        assert forall|j: int| 0 <= j < a - from implies is_unicode_white_space(#[trigger] sub[j]) by {
            assert(sub[j] == h[from + j]);
        }
        lemma_trim_start(sub, a - from);
    }
    if a == to {
        assert(trim_start_spec(sub).len() == 0);
        return None;
    }
    let b = find_whitespace(cs, a, to);
    let ghost t = sub.skip(a - from);
    assert(t =~= h.subrange(a as int, to as int));
    proof {
        assert forall|j: int| 0 <= j < b - a implies !is_unicode_white_space(#[trigger] t[j]) by {
            assert(t[j] == h[a + j]);
        }
        lemma_first_ws_index(t, b - a);
    }
    assert(t.take(b - a) =~= h.subrange(a as int, b as int));
    assert(t.skip(b - a) =~= h.subrange(b as int, to as int));
    Some((a, b))
}

/// The id range that the request target `cs[from..to]` names.
fn target_id_range(cs: &Vec<char>, from: usize, to: usize) -> (res: (usize, usize))
    requires
        from <= to <= cs@.len(),
    ensures
        from <= res.0 <= res.1 <= to,
        target_id(cs@.subrange(from as int, to as int)) == cs@.subrange(res.0 as int, res.1 as int),
{
    let ghost h = cs@;
    let ghost target = h.subrange(from as int, to as int);
    let q = find_char(cs, from, to, '?');
    proof {
        assert forall|j: int| 0 <= j < q - from implies target[j] != '?' by {
            assert(target[j] == h[from + j]);
        }
        lemma_index_of(target, '?', q - from);
        assert(target.take(q - from) =~= h.subrange(from as int, q as int));
        assert(target =~= h.subrange(from as int, q as int) || q < to);
    }
    assert(before_char(target, '?') == h.subrange(from as int, q as int));
    let prefix = chars_of("/clippi/");
    let plen = prefix.len();
    let mut s = from;
    while plen > 0 && plen <= q - s && same_chars(cs, s, &prefix)
        invariant
            from <= s <= q <= to <= cs@.len(),
            h == cs@,
            plen == prefix@.len(),
            prefix@ == "/clippi/"@,
            strip_prefix_all(h.subrange(from as int, q as int), "/clippi/"@) == strip_prefix_all(
                h.subrange(s as int, q as int),
                "/clippi/"@,
            ),
        decreases q - s,
    {
        assert(seq_starts_with(h.subrange(s as int, q as int), prefix@)) by {
            assert(h.subrange(s as int, q as int).subrange(0, plen as int) =~= h.subrange(
                s as int,
                s + plen,
            ));
        }
        assert(h.subrange(s as int, q as int).skip(plen as int) =~= h.subrange(s + plen, q as int));
        s = s + plen;
    }
    assert(strip_prefix_all(h.subrange(s as int, q as int), "/clippi/"@) == h.subrange(
        s as int,
        q as int,
    )) by {
        if plen > 0 && seq_starts_with(h.subrange(s as int, q as int), prefix@) {
            assert(h.subrange(s as int, q as int).subrange(0, plen as int) =~= h.subrange(
                s as int,
                s + plen,
            ));
        }
    }
    while s < q && cs[s] == '/'
        invariant
            from <= s <= q <= cs@.len(),
            h == cs@,
            strip_char_all(strip_prefix_all(h.subrange(from as int, q as int), "/clippi/"@), '/')
                == strip_char_all(h.subrange(s as int, q as int), '/'),
        decreases q - s,
    {
        assert(h.subrange(s as int, q as int).drop_first() =~= h.subrange(s + 1, q as int));
        s = s + 1;
    }
    (s, q)
}

/// Extracts the requested shared file id from an HTTP request header: the
/// request target of the first line, without its query, with the leading
/// `/clippi/` and `/` removed. `None` when the line is incomplete or the id
/// is empty or could leave the shared files (`/`, a backslash or `..`).
pub fn parse_path(header: &str) -> (res: Option<String>)
    ensures
        opt_view(res) == parse_path_spec(header@),
{
    let cs = chars_of(header);
    let n = cs.len();
    if n == 0 {
        return None;
    }
    let line_end = first_line_end(&cs);
    let (_, e1) = match next_word_range(&cs, 0, line_end) {
        Some(r) => r,
        None => return None,
    };
    let (t2, e2) = match next_word_range(&cs, e1, line_end) {
        Some(r) => r,
        None => return None,
    };
    let (s, q) = target_id_range(&cs, t2, e2);
    if is_valid_id_range(&cs, s, q) {
        Some(string_from_chars(&cs, s, q))
    } else {
        None
    }
}

/// Whether `cs[from..from + p.len()]` equals `p`.
fn same_chars(cs: &Vec<char>, from: usize, p: &Vec<char>) -> (res: bool)
    requires
        from + p@.len() <= cs@.len(),
    ensures
        res == (cs@.subrange(from as int, from + p@.len()) == p@),
{
    let m = cs.len();
    let mut i: usize = 0;
    while i < p.len()
        invariant
            m == cs@.len(),
            from + p@.len() <= cs@.len(),
            i <= p@.len(),
            forall|j: int| 0 <= j < i ==> cs@[from + j] == p@[j],
        decreases p@.len() - i,
    {
        if cs[from + i] != p[i] {
            assert(cs@.subrange(from as int, from + p@.len())[i as int] != p@[i as int]);
            return false;
        }
        i = i + 1;
    }
    assert(cs@.subrange(from as int, from + p@.len()) =~= p@);
    true
}


/// Whether `c` may stand in a `Content-Disposition` file name as it is:
/// ASCII letters and digits, `.`, `-` and `_`.
pub open spec fn is_header_safe(c: char) -> bool {
    ('a' <= c && c <= 'z') || ('A' <= c && c <= 'Z') || ('0' <= c && c <= '9') || c == '.' || c
        == '-' || c == '_'
}

/// `name` with every character that is not header-safe replaced by `_`.
pub open spec fn sanitize_header_spec(name: Seq<char>) -> Seq<char> {
    name.map_values(|c: char| if is_header_safe(c) { c } else { '_' })
}

/// Makes a file name safe to quote in a response header.
pub fn sanitize_header(name: &str) -> (res: String)
    ensures
        res@ == sanitize_header_spec(name@),
{
    let cs = chars_of(name);
    let mut out = String::new();
    let mut i: usize = 0;
    while i < cs.len()
        invariant
            cs@ == name@,
            i <= cs@.len(),
            out@ == sanitize_header_spec(cs@.take(i as int)),
        decreases cs@.len() - i,
    {
        let c = cs[i];
        let safe = ('a' <= c && c <= 'z') || ('A' <= c && c <= 'Z') || ('0' <= c && c <= '9') || c
            == '.' || c == '-' || c == '_';
        push_char(&mut out, if safe { c } else { '_' });
        assert(out@ =~= sanitize_header_spec(cs@.take(i + 1)));
        i = i + 1;
    }
    assert(cs@.take(cs@.len() as int) =~= cs@);
    out
}

/// The server never serves outside the shared files: any id read from a
/// request is non-empty and holds no `/`, no backslash and no `..`.
pub proof fn law_requested_ids_are_safe(header: Seq<char>)
    ensures
        parse_path_spec(header) matches Some(id) ==> is_valid_id(id),
        parse_path_spec(header) matches Some(id) ==> id.len() > 0 && forall|i: int|
            0 <= i < id.len() ==> #[trigger] id[i] != '/' && id[i] != '\\' && !(id[i] == '.' && i
                + 1 < id.len() && id[i + 1] == '.'),
{
    if let Some(id) = parse_path_spec(header) {
        assert forall|i: int| 0 <= i < id.len() implies #[trigger] id[i] != '/' && id[i] != '\\'
            && !(id[i] == '.' && i + 1 < id.len() && id[i + 1] == '.') by {
            if id[i] == '/' || id[i] == '\\' {
                assert(id.contains(id[i]));
            }
        }
    }
}

/// A request header ends at its first blank line: the end found is the
/// first position where the bytes `\r`, `\n`, `\r`, `\n` follow one another,
/// and there is none when no such position exists.
pub proof fn law_header_end(b: Seq<u8>)
    ensures
        header_end_from(b, 0) matches Some(k) ==> 0 <= k && k + 4 <= b.len() && b.subrange(k, k + 4)
            == seq![13u8, 10, 13, 10] && forall|j: int|
            0 <= j < k ==> #[trigger] b.subrange(j, j + 4) != seq![13u8, 10, 13, 10],
        header_end_from(b, 0) is None ==> forall|j: int|
            0 <= j && j + 4 <= b.len() ==> #[trigger] b.subrange(j, j + 4) != seq![13u8, 10, 13, 10],
{
    lemma_header_end_from(b, 0);
}

proof fn lemma_header_end_from(b: Seq<u8>, from: int)
    requires
        0 <= from,
    ensures
        header_end_from(b, from) matches Some(k) ==> from <= k && k + 4 <= b.len() && b.subrange(
            k,
            k + 4,
        ) == seq![13u8, 10, 13, 10] && forall|j: int|
            from <= j < k ==> #[trigger] b.subrange(j, j + 4) != seq![13u8, 10, 13, 10],
        header_end_from(b, from) is None ==> forall|j: int|
            from <= j && j + 4 <= b.len() ==> #[trigger] b.subrange(j, j + 4) != seq![
                13u8,
                10,
                13,
                10,
            ],
    decreases b.len() - from,
{
    let pat = seq![13u8, 10, 13, 10];
    if from + 4 <= b.len() {
        if is_header_end(b, from) {
            assert(b.subrange(from, from + 4) =~= pat);
        } else {
            assert(b.subrange(from, from + 4) != pat) by {
                if b.subrange(from, from + 4) == pat {
                    assert(b.subrange(from, from + 4)[0] == b[from]);
                    assert(b.subrange(from, from + 4)[1] == b[from + 1]);
                    assert(b.subrange(from, from + 4)[2] == b[from + 2]);
                    assert(b.subrange(from, from + 4)[3] == b[from + 3]);
                }
            }
            lemma_header_end_from(b, from + 1);
        }
    }
}

/// What sanitizing does to each character: ASCII letters and digits, `.`,
/// `-` and `_` are kept as they are, and every other character becomes
/// `_`; the length is kept.
pub proof fn law_sanitize_header_chars(name: Seq<char>)
    ensures
        sanitize_header_spec(name).len() == name.len(),
        forall|i: int|
            0 <= i < name.len() ==> {
                let c = #[trigger] name[i];
                if ('a' <= c <= 'z') || ('A' <= c <= 'Z') || ('0' <= c <= '9') || c == '.' || c
                    == '-' || c == '_' {
                    sanitize_header_spec(name)[i] == c
                } else {
                    sanitize_header_spec(name)[i] == '_'
                }
            },
{
}

/// Sanitizing keeps the length, leaves only header-safe characters, and
/// changes nothing the second time.
pub proof fn law_sanitize_header(name: Seq<char>)
    ensures
        sanitize_header_spec(name).len() == name.len(),
        forall|i: int|
            0 <= i < name.len() ==> is_header_safe(#[trigger] sanitize_header_spec(name)[i]),
        sanitize_header_spec(sanitize_header_spec(name)) == sanitize_header_spec(name),
{
    let s = sanitize_header_spec(name);
    assert(sanitize_header_spec(s) =~= s);
}

/// The header of a successful response carrying a body of `body_len`
/// bytes as the attachment `name`.
pub open spec fn ok_header_spec(body_len: nat, name: Seq<char>) -> Seq<char> {
    "HTTP/1.1 200 OK\r\nContent-Type: application/octet-stream\r\nContent-Length: "@
        + decimal_spec(body_len) + "\r\nContent-Disposition: attachment; filename=\""@
        + sanitize_header_spec(name) + "\"\r\nConnection: close\r\n\r\n"@
}

/// The response header sent before a shared file's bytes.
pub fn ok_response_header(body_len: usize, name: &str) -> (res: String)
    ensures
        res@ == ok_header_spec(body_len as nat, name@),
{
    let mut out = String::from_str(
        "HTTP/1.1 200 OK\r\nContent-Type: application/octet-stream\r\nContent-Length: ",
    );
    let len = decimal_string(body_len as u64);
    out.append(len.as_str());
    out.append("\r\nContent-Disposition: attachment; filename=\"");
    let safe = sanitize_header(name);
    out.append(safe.as_str());
    out.append("\"\r\nConnection: close\r\n\r\n");
    out
}

/// The body of the response to a request for an unknown file.
pub open spec fn not_found_body_spec() -> Seq<u8> {
    encode_utf8("Not Found"@)
}

/// The header of the response to a request for an unknown file.
pub open spec fn not_found_header_spec() -> Seq<char> {
    "HTTP/1.1 404 Not Found\r\nContent-Type: text/plain\r\nContent-Length: "@ + decimal_spec(
        not_found_body_spec().len(),
    ) + "\r\nConnection: close\r\n\r\n"@
}

/// The response to a request for a file that is not shared is the fixed
/// 404 answer: a plain-text body `Not Found` of 9 bytes, announced with
/// that length, and the connection closed.
pub proof fn law_not_found_response()
    ensures
        not_found_body_spec() == seq![78u8, 111, 116, 32, 70, 111, 117, 110, 100],
        not_found_header_spec()
            == "HTTP/1.1 404 Not Found\r\nContent-Type: text/plain\r\nContent-Length: 9\r\nConnection: close\r\n\r\n"@,
{
    reveal_strlit("Not Found");
    reveal_strlit("HTTP/1.1 404 Not Found\r\nContent-Type: text/plain\r\nContent-Length: ");
    reveal_strlit("\r\nConnection: close\r\n\r\n");
    reveal_strlit(
        "HTTP/1.1 404 Not Found\r\nContent-Type: text/plain\r\nContent-Length: 9\r\nConnection: close\r\n\r\n",
    );
    let nf = "Not Found"@;
    assert(nf =~= seq!['N', 'o', 't', ' ', 'F', 'o', 'u', 'n', 'd']);
    vstd::utf8::is_ascii_chars_encode_utf8(nf);
    assert(not_found_body_spec() =~= seq![78u8, 111, 116, 32, 70, 111, 117, 110, 100]);
    assert(decimal_spec(9) =~= seq!['9']);
    assert(not_found_header_spec()
        =~= "HTTP/1.1 404 Not Found\r\nContent-Type: text/plain\r\nContent-Length: 9\r\nConnection: close\r\n\r\n"@);
}

/// The header of a successful response, line by line: status `200 OK`, the
/// binary content type, the body length in decimal, the sanitized name as
/// the attachment's file name, the connection closed, then a blank line.
pub proof fn law_ok_header_lines(body_len: nat, name: Seq<char>)
    ensures
        ok_header_spec(body_len, name) == "HTTP/1.1 200 OK\r\n"@ + "Content-Type: application/octet-stream\r\n"@
            + "Content-Length: "@ + decimal_spec(body_len) + "\r\n"@
            + "Content-Disposition: attachment; filename="@ + seq!['"'] + sanitize_header_spec(name)
            + seq!['"'] + "\r\n"@ + "Connection: close\r\n"@ + "\r\n"@,
{
    reveal_strlit("HTTP/1.1 200 OK\r\nContent-Type: application/octet-stream\r\nContent-Length: ");
    reveal_strlit("\r\nContent-Disposition: attachment; filename=\"");
    reveal_strlit("\"\r\nConnection: close\r\n\r\n");
    reveal_strlit("HTTP/1.1 200 OK\r\n");
    reveal_strlit("Content-Type: application/octet-stream\r\n");
    reveal_strlit("Content-Length: ");
    reveal_strlit("\r\n");
    reveal_strlit("Content-Disposition: attachment; filename=");
    reveal_strlit("Connection: close\r\n");
    assert(ok_header_spec(body_len, name) =~= "HTTP/1.1 200 OK\r\n"@
        + "Content-Type: application/octet-stream\r\n"@ + "Content-Length: "@ + decimal_spec(body_len)
        + "\r\n"@ + "Content-Disposition: attachment; filename="@ + seq!['"'] + sanitize_header_spec(
        name,
    ) + seq!['"'] + "\r\n"@ + "Connection: close\r\n"@ + "\r\n"@);
}

/// The header and body of the response to a request for a file that is
/// not shared.
pub fn not_found_response() -> (res: (String, Vec<u8>))
    ensures
        res.0@ == not_found_header_spec(),
        res.1@ == not_found_body_spec(),
{
    let body = "Not Found".as_bytes_vec();
    let mut header = String::from_str(
        "HTTP/1.1 404 Not Found\r\nContent-Type: text/plain\r\nContent-Length: ",
    );
    let len = decimal_string(body.len() as u64);
    header.append(len.as_str());
    header.append("\r\nConnection: close\r\n\r\n");
    (header, body)
}

/// `b[i..i + 4]` is the blank line `\r\n\r\n` that ends a request header.
pub open spec fn is_header_end(b: Seq<u8>, i: int) -> bool {
    0 <= i && i + 4 <= b.len() && b[i] == 13 && b[i + 1] == 10 && b[i + 2] == 13 && b[i + 3] == 10
}

/// The first position at or after `from` where the header ends.
pub open spec fn header_end_from(b: Seq<u8>, from: int) -> Option<int>
    decreases b.len() - from,
{
    if from < 0 || from + 4 > b.len() {
        None
    } else if is_header_end(b, from) {
        Some(from)
    } else {
        header_end_from(b, from + 1)
    }
}

/// The text of `b` when it is valid UTF-8.
///
/// Calls `std::str::from_utf8`, documented to succeed exactly when the
/// bytes are valid UTF-8; the contract states that with vstd's definition
/// of valid UTF-8 and its decoding.
#[verifier::external_body]
pub(crate) fn str_from_utf8(b: &[u8]) -> (res: Option<&str>)
    ensures
        match res {
            Some(s) => valid_utf8(b@) && s@ == decode_utf8(b@),
            None => !valid_utf8(b@),
        },
{
    std::str::from_utf8(b).ok()
}

/// Where reading a request stands.
pub enum RequestScan {
    /// The header has not ended yet: read more.
    Incomplete,
    /// The header ended without naming a valid id: close the connection.
    Rejected,
    /// The header asks for the file with this id.
    Target(String),
}

/// The id asked for by the complete header `header` (text that is not
/// valid UTF-8 counts as empty).
pub open spec fn header_id_spec(header: Seq<u8>) -> Option<Seq<char>> {
    parse_path_spec(if valid_utf8(header) { decode_utf8(header) } else { Seq::empty() })
}

/// What the bytes received so far say about the request.
pub open spec fn scan_request_spec(b: Seq<u8>) -> Option<Option<Seq<char>>> {
    match header_end_from(b, 0) {
        None => None,
        Some(end) => Some(header_id_spec(b.take(end))),
    }
}

/// Looks at the bytes received so far on a connection: once the header's
/// blank line has arrived, reads the requested id from the header.
pub fn scan_request(received: &[u8]) -> (res: RequestScan)
    ensures
        match res {
            RequestScan::Incomplete => scan_request_spec(received@) is None,
            RequestScan::Rejected => scan_request_spec(received@) == Some(None::<Seq<char>>),
            RequestScan::Target(id) => scan_request_spec(received@) == Some(Some(id@)),
        },
{
    let n = received.len();
    let mut i: usize = 0;
    while n >= 4 && i <= n - 4 && !(received[i] == 13 && received[i + 1] == 10 && received[i + 2] == 13
        && received[i + 3] == 10)
        invariant
            n == received@.len(),
            i <= n,
            header_end_from(received@, 0) == header_end_from(received@, i as int),
        decreases n - i,
    {
        i = i + 1;
    }
    if n < 4 || i > n - 4 {
        return RequestScan::Incomplete;
    }
    let head = &received[0..i];
    assert(head@ =~= received@.take(i as int));
    let text: &str = match str_from_utf8(head) {
        Some(t) => t,
        None => "",
    };
    proof {
        reveal_strlit("");
    }
    match parse_path(text) {
        Some(id) => RequestScan::Target(id),
        None => RequestScan::Rejected,
    }
}


/// Where the bytes of a shared file are kept: in memory, or in a copy on
/// disk at the given path (its bytes as the operating system encodes
/// them).
pub enum SharedSource {
    Memory(Arc<Vec<u8>>),
    Disk(Vec<u8>),
}

/// The mathematical value of a [`SharedSource`].
pub enum SharedSourceView {
    Memory(Seq<u8>),
    Disk(Seq<u8>),
}

impl View for SharedSource {
    type V = SharedSourceView;

    open spec fn view(&self) -> SharedSourceView {
        match self {
            SharedSource::Memory(b) => SharedSourceView::Memory(b@),
            SharedSource::Disk(p) => SharedSourceView::Disk(p@),
        }
    }
}

/// A file offered for download under `id`.
pub struct SharedFile {
    pub id: String,
    pub name: String,
    pub size: u64,
    pub source: SharedSource,
}

/// The mathematical value of a [`SharedFile`].
pub struct SharedFileView {
    pub id: Seq<char>,
    pub name: Seq<char>,
    pub size: u64,
    pub source: SharedSourceView,
}

impl View for SharedFile {
    type V = SharedFileView;

    open spec fn view(&self) -> SharedFileView {
        SharedFileView { id: self.id@, name: self.name@, size: self.size, source: self.source@ }
    }
}

/// Another handle on the same in-memory bytes.
///
/// Calls `Arc::clone`, which the standard library documents as making a
/// new pointer to the same allocation; the contract states that the bytes
/// seen through it are the same.
#[verifier::external_body]
pub(crate) fn share_bytes(b: &Arc<Vec<u8>>) -> (res: Arc<Vec<u8>>)
    ensures
        res@ == b@,
{
    b.clone()
}

impl SharedFile {
    /// A copy of this entry that shares its in-memory bytes.
    pub fn duplicate(&self) -> (res: SharedFile)
        ensures
            res@ == self@,
    {
        SharedFile {
            id: self.id.clone(),
            name: self.name.clone(),
            size: self.size,
            source: match &self.source {
                SharedSource::Memory(bytes) => SharedSource::Memory(share_bytes(bytes)),
                SharedSource::Disk(path) => SharedSource::Disk(path.clone()),
            },
        }
    }
}

/// The shared files by id, as the entries `s` list them.
pub open spec fn files_map(s: Seq<SharedFile>) -> Map<Seq<char>, SharedFileView>
    decreases s.len(),
{
    if s.len() == 0 {
        Map::empty()
    } else {
        files_map(s.drop_last()).insert(s.last().id@, s.last()@)
    }
}

/// No two entries of `s` share an id.
pub open spec fn unique_ids(s: Seq<SharedFile>) -> bool {
    forall|i: int, j: int| 0 <= i < j < s.len() ==> s[i].id@ != s[j].id@
}

proof fn lemma_files_map(s: Seq<SharedFile>)
    requires
        unique_ids(s),
    ensures
        forall|k: Seq<char>| #[trigger]
            files_map(s).dom().contains(k) <==> exists|i: int| 0 <= i < s.len() && s[i].id@ == k,
        forall|i: int| 0 <= i < s.len() ==> #[trigger] files_map(s)[s[i].id@] == s[i]@,
    decreases s.len(),
{
    if s.len() > 0 {
        let t = s.drop_last();
        lemma_files_map(t);
        assert forall|k: Seq<char>| #[trigger]
            files_map(s).dom().contains(k) implies exists|i: int| 0 <= i < s.len() && s[i].id@ == k by {
            if k != s.last().id@ {
                assert(files_map(t).dom().contains(k));
                let i = choose|i: int| 0 <= i < t.len() && t[i].id@ == k;
                assert(t[i] == s[i]);
                assert(s[i].id@ == k);
            } else {
                assert(s[s.len() - 1].id@ == k);
            }
        }
        assert forall|k: Seq<char>|
            (exists|i: int| 0 <= i < s.len() && s[i].id@ == k) implies #[trigger] files_map(s).dom().contains(k) by {
            let i = choose|i: int| 0 <= i < s.len() && s[i].id@ == k;
            if i < s.len() - 1 {
                assert(t[i] == s[i]);
                assert(t[i].id@ == k);
                assert(files_map(t).dom().contains(k));
            }
        }
        assert forall|i: int| 0 <= i < s.len() implies #[trigger] files_map(s)[s[i].id@] == s[i]@ by {
            if i < s.len() - 1 {
                assert(t[i] == s[i]);
                assert(s[i].id@ != s[s.len() - 1].id@);
                assert(files_map(t)[t[i].id@] == t[i]@);
            }
        }
    }
}

/// Every file of `m` is kept under its own id.
pub open spec fn entries_carry_ids(m: Map<Seq<char>, SharedFileView>) -> bool {
    forall|k: Seq<char>| #[trigger] m.dom().contains(k) ==> m[k].id == k
}

/// Files are kept under their own ids: an empty registry has none, and
/// offering a file under its id keeps it so.
pub proof fn law_entries_carry_ids(m: Map<Seq<char>, SharedFileView>, f: SharedFileView)
    ensures
        entries_carry_ids(Map::empty()),
        entries_carry_ids(m) ==> entries_carry_ids(m.insert(f.id, f)),
{
}

proof fn lemma_files_map_carries_ids(s: Seq<SharedFile>)
    requires
        unique_ids(s),
    ensures
        entries_carry_ids(files_map(s)),
{
    lemma_files_map(s);
    assert forall|k: Seq<char>| #[trigger] files_map(s).dom().contains(k) implies files_map(s)[k].id == k by {
        let i = choose|i: int| 0 <= i < s.len() && s[i].id@ == k;
        assert(files_map(s)[s[i].id@] == s[i]@);
    }
}

/// The files currently offered for download, by id.
pub struct SharedFileRegistry {
    files: Vec<SharedFile>,
}

impl View for SharedFileRegistry {
    type V = Map<Seq<char>, SharedFileView>;

    closed spec fn view(&self) -> Map<Seq<char>, SharedFileView> {
        files_map(self.files@)
    }
}

impl SharedFileRegistry {
    /// The registry's internal invariant: one entry per id.
    pub closed spec fn wf(&self) -> bool {
        unique_ids(self.files@)
    }

    /// An empty registry.
    pub fn new() -> (res: SharedFileRegistry)
        ensures
            res.wf(),
            res@ == Map::<Seq<char>, SharedFileView>::empty(),
            entries_carry_ids(res@),
    {
        SharedFileRegistry { files: Vec::new() }
    }

    /// Index of the entry with id `id`, if any.
    fn position(&self, id: &str) -> (res: Option<usize>)
        requires
            self.wf(),
        ensures
            match res {
                Some(i) => i < self.files@.len() && self.files@[i as int].id@ == id@,
                None => forall|i: int| 0 <= i < self.files@.len() ==> self.files@[i].id@ != id@,
            },
    {
        let mut i: usize = 0;
        while i < self.files.len()
            invariant
                i <= self.files@.len(),
                forall|j: int| 0 <= j < i ==> self.files@[j].id@ != id@,
            decreases self.files@.len() - i,
        {
            if str_eq(self.files[i].id.as_str(), id) {
                return Some(i);
            }
            i = i + 1;
        }
        None
    }

    /// Offers `file` under its id, replacing any file offered under the
    /// same id.
    pub fn insert(&mut self, file: SharedFile)
        requires
            old(self).wf(),
        ensures
            final(self).wf(),
            final(self)@ == old(self)@.insert(file@.id, file@),
            entries_carry_ids(final(self)@),
    {
        proof {
            lemma_files_map(self.files@);
        }
        let ghost old_files = self.files@;
        let ghost f = file@;
        match self.position(file.id.as_str()) {
            Some(i) => {
                self.files.set(i, file);
                proof {
                    let s = self.files@;
                    assert(unique_ids(s)) by {
                        assert forall|a: int, b: int| 0 <= a < b < s.len() implies s[a].id@ != s[b].id@ by {
                            assert(old_files[a].id@ != old_files[b].id@ || a == b);
                        }
                    }
                    lemma_files_map(s);
                    assert(files_map(s) =~= files_map(old_files).insert(f.id, f)) by {
                        assert forall|k: Seq<char>| #[trigger]
                            files_map(s).dom().contains(k) == files_map(old_files).insert(f.id, f).dom().contains(k) by {
                            if files_map(s).dom().contains(k) {
                                let j = choose|j: int| 0 <= j < s.len() && s[j].id@ == k;
                                assert(old_files[j].id@ == k);
                            }
                            if files_map(old_files).dom().contains(k) {
                                let j = choose|j: int| 0 <= j < old_files.len() && old_files[j].id@ == k;
                                assert(s[j].id@ == k);
                            }
                        }
                        assert forall|k: Seq<char>| #[trigger] files_map(s).dom().contains(k) implies
                            files_map(s)[k] == files_map(old_files).insert(f.id, f)[k] by {
                            let j = choose|j: int| 0 <= j < s.len() && s[j].id@ == k;
                            assert(files_map(s)[s[j].id@] == s[j]@);
                            if j != i {
                                assert(files_map(old_files)[old_files[j].id@] == old_files[j]@);
                            }
                        }
                    }
                }
            },
            None => {
                self.files.push(file);
                proof {
                    let s = self.files@;
                    assert(s.drop_last() =~= old_files);
                    assert(unique_ids(s)) by {
                        assert forall|a: int, b: int| 0 <= a < b < s.len() implies s[a].id@ != s[b].id@ by {
                            if b == s.len() - 1 {
                                assert(old_files[a].id@ != f.id);
                            } else {
                                assert(old_files[a].id@ != old_files[b].id@);
                            }
                        }
                    }
                }
            },
        }
        proof {
            lemma_files_map_carries_ids(self.files@);
        }
    }

    /// Withdraws every shared file.
    pub fn clear(&mut self)
        requires
            old(self).wf(),
        ensures
            final(self).wf(),
            final(self)@ == Map::<Seq<char>, SharedFileView>::empty(),
            entries_carry_ids(final(self)@),
    {
        self.files.clear();
        assert(self.files@.len() == 0);
    }

    /// The file offered under `id`, if any, as a copy sharing its bytes.
    pub fn get(&self, id: &str) -> (res: Option<SharedFile>)
        requires
            self.wf(),
        ensures
            match res {
                Some(f) => self@.dom().contains(id@) && f@ == self@[id@] && f@.id == id@,
                None => !self@.dom().contains(id@),
            },
    {
        proof {
            lemma_files_map(self.files@);
        }
        match self.position(id) {
            Some(i) => {
                let f = self.files[i].duplicate();
                assert(files_map(self.files@)[self.files@[i as int].id@] == self.files@[i as int]@);
                Some(f)
            },
            None => None,
        }
    }
}


/// Reading the registry back after changes to it: a file offered under an
/// id is found under that id, other ids keep their files, and nothing is
/// found once everything is withdrawn.
pub proof fn law_registry_read_back(
    m: Map<Seq<char>, SharedFileView>,
    f: SharedFileView,
    id: Seq<char>,
)
    ensures
        m.insert(f.id, f).dom().contains(f.id),
        m.insert(f.id, f)[f.id] == f,
        id != f.id ==> (m.insert(f.id, f).dom().contains(id) == m.dom().contains(id)),
        id != f.id && m.dom().contains(id) ==> m.insert(f.id, f)[id] == m[id],
        !Map::<Seq<char>, SharedFileView>::empty().dom().contains(id),
{
}

/// The separator of path components.
pub open spec fn separator() -> u8 {
    47
}

/// `base` extended by the relative component `comp`, as `Path::join` does
/// on Unix: a separator is put between them unless `base` is empty or
/// already ends with one. Paths are taken as the bytes the operating
/// system encodes them with.
pub open spec fn path_join_spec(base: Seq<u8>, comp: Seq<u8>) -> Seq<u8> {
    if base.len() == 0 {
        comp
    } else if base.last() == separator() {
        base + comp
    } else {
        base.push(separator()) + comp
    }
}

/// Joining keeps `base` in front and `comp` at the end, with exactly one
/// `/` (byte 47) between them when `base` is not empty.
pub proof fn law_path_join(base: Seq<u8>, comp: Seq<u8>)
    ensures
        base.len() == 0 ==> path_join_spec(base, comp) == comp,
        base.len() > 0 && base.last() == 47 ==> path_join_spec(base, comp) == base + comp,
        base.len() > 0 && base.last() != 47 ==> path_join_spec(base, comp) == base + seq![47u8]
            + comp,
{
    assert(base.push(47) =~= base + seq![47u8]);
}

/// Extends the path `base` by the relative component `comp`.
pub fn path_join(base: &[u8], comp: &[u8]) -> (res: Vec<u8>)
    ensures
        res@ == path_join_spec(base@, comp@),
{
    let n = base.len();
    let mut out: Vec<u8> = Vec::new();
    let mut i: usize = 0;
    while i < n
        invariant
            n == base@.len(),
            i <= n,
            out@ == base@.take(i as int),
        decreases n - i,
    {
        out.push(base[i]);
        assert(out@ =~= base@.take(i + 1));
        i = i + 1;
    }
    assert(base@.take(n as int) =~= base@);
    if n > 0 && base[n - 1] != 47 {
        out.push(47);
    }
    let ghost head = out@;
    let m = comp.len();
    let mut j: usize = 0;
    while j < m
        invariant
            m == comp@.len(),
            j <= m,
            out@ == head + comp@.take(j as int),
        decreases m - j,
    {
        out.push(comp[j]);
        assert(out@ =~= head + comp@.take(j + 1));
        j = j + 1;
    }
    assert(comp@.take(m as int) =~= comp@);
    proof {
        if n == 0 {
            assert(head =~= Seq::<u8>::empty());
            assert(out@ =~= comp@);
        }
    }
    out
}

/// The view of an optional path.
pub open spec fn opt_bytes_view(o: Option<Vec<u8>>) -> Option<Seq<u8>> {
    match o {
        Some(b) => Some(b@),
        None => None,
    }
}

/// The directory for large shared files under the user cache directory
/// `cache`, else under the home directory `home`, else under `.`.
pub open spec fn shared_dir_spec(cache: Option<Seq<u8>>, home: Option<Seq<u8>>) -> Seq<u8> {
    let base = match cache {
        Some(c) => c,
        None => match home {
            Some(h) => h,
            None => encode_utf8("."@),
        },
    };
    path_join_spec(path_join_spec(base, encode_utf8("clippi"@)), encode_utf8("shared"@))
}

/// The directory for large shared files is `clippi/shared` under the
/// chosen base: the cache directory when there is one, else the home
/// directory, else `.`.
pub proof fn law_shared_dir(cache: Option<Seq<u8>>, home: Option<Seq<u8>>)
    ensures
        shared_dir_spec(cache, home).len() >= 13,
        shared_dir_spec(cache, home).subrange(
            shared_dir_spec(cache, home).len() - 13,
            shared_dir_spec(cache, home).len() as int,
        ) == seq![99u8, 108, 105, 112, 112, 105, 47, 115, 104, 97, 114, 101, 100],
        cache matches Some(c) ==> c.len() > 0 && c.last() != 47 ==> shared_dir_spec(cache, home)
            == c + seq![47u8, 99, 108, 105, 112, 112, 105, 47, 115, 104, 97, 114, 101, 100],
        cache is None && home is None ==> shared_dir_spec(cache, home) == seq![
            46u8,
            47,
            99,
            108,
            105,
            112,
            112,
            105,
            47,
            115,
            104,
            97,
            114,
            101,
            100,
        ],
{
    reveal_strlit("clippi");
    reveal_strlit("shared");
    reveal_strlit(".");
    let clippi = "clippi"@;
    let shared = "shared"@;
    let dot = "."@;
    assert(clippi =~= seq!['c', 'l', 'i', 'p', 'p', 'i']);
    assert(shared =~= seq!['s', 'h', 'a', 'r', 'e', 'd']);
    assert(dot =~= seq!['.']);
    vstd::utf8::is_ascii_chars_encode_utf8(clippi);
    vstd::utf8::is_ascii_chars_encode_utf8(shared);
    vstd::utf8::is_ascii_chars_encode_utf8(dot);
    let c6 = encode_utf8(clippi);
    let s6 = encode_utf8(shared);
    assert(c6 =~= seq![99u8, 108, 105, 112, 112, 105]);
    assert(s6 =~= seq![115u8, 104, 97, 114, 101, 100]);
    assert(encode_utf8(dot) =~= seq![46u8]);
    let base = match cache {
        Some(c) => c,
        None => match home {
            Some(h) => h,
            None => encode_utf8(dot),
        },
    };
    let first = path_join_spec(base, c6);
    assert(first.len() >= 6 && first.subrange(first.len() - 6, first.len() as int) =~= c6);
    assert(first.len() > 0 && first.last() == 105);
    let r = path_join_spec(first, s6);
    assert(r =~= first + seq![47u8] + s6);
    assert(r.subrange(r.len() - 13, r.len() as int) =~= seq![
        99u8,
        108,
        105,
        112,
        112,
        105,
        47,
        115,
        104,
        97,
        114,
        101,
        100,
    ]);
}

/// The directory for large shared files, given what the platform reported
/// as the user's cache and home directories.
pub fn shared_dir_under(cache: Option<Vec<u8>>, home: Option<Vec<u8>>) -> (res: Vec<u8>)
    ensures
        res@ == shared_dir_spec(opt_bytes_view(cache), opt_bytes_view(home)),
{
    let base: Vec<u8> = match cache {
        Some(c) => c,
        None => match home {
            Some(h) => h,
            None => ".".as_bytes_vec(),
        },
    };
    let dir = path_join(base.as_slice(), "clippi".as_bytes());
    path_join(dir.as_slice(), "shared".as_bytes())
}

/// The user's cache directory.
///
/// Calls `dirs::cache_dir`, which reads the environment (on Linux
/// `$XDG_CACHE_HOME` or `$HOME/.cache`), and hands out the path's bytes as
/// the operating system encodes them. Nothing is stated of the result: it
/// depends on the environment.
#[verifier::external_body]
fn user_cache_dir() -> Option<Vec<u8>> {
    dirs::cache_dir().map(|p| p.into_os_string().into_encoded_bytes())
}

/// The user's home directory.
///
/// Calls `dirs::home_dir`, which reads the environment (`$HOME`, else the
/// password database), and hands out the path's bytes as the operating
/// system encodes them. Nothing is stated of the result: it depends on the
/// environment.
#[verifier::external_body]
fn user_home_dir() -> Option<Vec<u8>> {
    dirs::home_dir().map(|p| p.into_os_string().into_encoded_bytes())
}

/// The directory where large shared files are copied: `clippi/shared`
/// under the user's cache directory, else under the home directory, else
/// under the current directory.
pub fn shared_dir() -> (res: Vec<u8>)
    ensures
        exists|c: Option<Seq<u8>>, h: Option<Seq<u8>>| res@ == shared_dir_spec(c, h),
{
    let cache = user_cache_dir();
    let home = if cache.is_some() {
        None
    } else {
        user_home_dir()
    };
    let ghost c = opt_bytes_view(cache);
    let ghost h = opt_bytes_view(home);
    let res = shared_dir_under(cache, home);
    assert(res@ == shared_dir_spec(c, h));
    res
}

/// The directory where the application keeps large shared files.
pub fn default_shared_dir() -> (res: Vec<u8>)
    ensures
        exists|c: Option<Seq<u8>>, h: Option<Seq<u8>>| res@ == shared_dir_spec(c, h),
{
    shared_dir()
}

} // verus!
