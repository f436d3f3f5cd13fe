//! Path rules of the admin Web Console: which request paths are served
//! without a session, which relative paths may be looked up under the web
//! root, and the content type a file is served with.
//!
//! Paths follow Unix rules: `/` separates components, an empty component
//! or `.` is skipped, `..` names the parent directory.

use vstd::prelude::*;

use crate::text::{
    chars_of, eq_vec, slice_of, starts_with, starts_with_vec, string_of, strip_start,
    strip_start_vec, CharClass,
};

verus! {

/// Last position of `c` in `s`, or -1.
pub open spec fn last_index_of(s: Seq<char>, c: char) -> int
    decreases s.len(),
{
    if s.len() == 0 {
        -1
    } else if s.last() == c {
        s.len() - 1
    } else {
        last_index_of(s.drop_last(), c)
    }
}

pub proof fn lemma_last_index_of(s: Seq<char>, c: char)
    ensures
        -1 <= last_index_of(s, c) < s.len(),
        last_index_of(s, c) >= 0 ==> s[last_index_of(s, c)] == c,
        forall|j: int| last_index_of(s, c) < j < s.len() ==> s[j] != c,
    decreases s.len(),
{
    if s.len() > 0 && s.last() != c {
        lemma_last_index_of(s.drop_last(), c);
        assert forall|j: int| last_index_of(s, c) < j < s.len() implies s[j] != c by {
            if j < s.len() - 1 {
                assert(s[j] == s.drop_last()[j]);
            }
        }
    }
}

/// `last_index_of(v[0..to], c)`, or `None` when it is -1.
fn last_index_of_exec(v: &[char], to: usize, c: char) -> (r: Option<usize>)
    requires
        to <= v.len(),
    ensures
        match r {
            Some(i) => i == last_index_of(v@.subrange(0, to as int), c),
            None => last_index_of(v@.subrange(0, to as int), c) == -1,
        },
{
    let mut i = to;
    while i > 0 && v[i - 1] != c
        invariant
            i <= to <= v.len(),
            last_index_of(v@.subrange(0, to as int), c) == last_index_of(
                v@.subrange(0, i as int),
                c,
            ),
        decreases i,
    {
        assert(v@.subrange(0, i as int).drop_last() =~= v@.subrange(0, i - 1));
        i = i - 1;
    }
    if i == 0 {
        None
    } else {
        Some(i - 1)
    }
}

/// The text after the last `/` (`rsplit('/').next()`).
pub open spec fn last_segment(p: Seq<char>) -> Seq<char> {
    p.subrange(last_index_of(p, '/') + 1, p.len() as int)
}

/// Served without an admin session: the login page, the bundled `_app/`
/// assets, and any path whose last segment names a file (holds a `.`).
pub open spec fn public_web_path(p: Seq<char>) -> bool {
    ||| p == "login"@
    ||| p == "login/"@
    ||| starts_with(p, "_app/"@)
    ||| last_segment(p).contains('.')
}

fn contains_char(v: &[char], from: usize, c: char) -> (r: bool)
    requires
        from <= v.len(),
    ensures
        r == v@.subrange(from as int, v.len() as int).contains(c),
{
    let mut i = from;
    while i < v.len()
        invariant
            from <= i <= v.len(),
            forall|j: int| from <= j < i ==> v@[j] != c,
        decreases v.len() - i,
    {
        if v[i] == c {
            assert(v@.subrange(from as int, v.len() as int)[i - from] == c);
            return true;
        }
        i = i + 1;
    }
    proof {
        if v@.subrange(from as int, v.len() as int).contains(c) {
            let k = choose|k: int|
                0 <= k < v.len() - from && v@.subrange(from as int, v.len() as int)[k] == c;
            assert(v@[from + k] == c);
        }
    }
    false
}

pub fn is_public_web_path(path: &str) -> (r: bool)
    ensures
        r == public_web_path(path@),
{
    let p = chars_of(path);
    if eq_vec(&p, &chars_of("login")) || eq_vec(&p, &chars_of("login/")) || starts_with_vec(
        &p,
        &chars_of("_app/"),
    ) {
        return true;
    }
    proof {
        lemma_last_index_of(p@, '/');
    }
    assert(p@.subrange(0, p@.len() as int) =~= p@);
    let from = match last_index_of_exec(&p, p.len(), '/') {
        Some(i) => i + 1,
        None => 0,
    };
    contains_char(&p, from, '.')
}

/// `s[a..b]` is one `/`-separated component: bounded by the ends or by
/// `/`, with no `/` inside.
pub open spec fn is_segment(s: Seq<char>, a: int, b: int) -> bool {
    &&& 0 <= a <= b <= s.len()
    &&& (a == 0 || s[a - 1] == '/')
    &&& (b == s.len() || s[b] == '/')
    &&& forall|k: int| a <= k < b ==> s[k] != '/'
}

/// Some component of the path is `..`.
pub open spec fn has_parent_segment(s: Seq<char>) -> bool {
    exists|a: int| #[trigger] is_segment(s, a, a + 2) && s[a] == '.' && s[a + 1] == '.'
}

/// A relative path that stays under the directory it is joined to: it is
/// not absolute and has no `..` component.
pub open spec fn safe_relative(s: Seq<char>) -> bool {
    !(s.len() > 0 && s[0] == '/') && !has_parent_segment(s)
}

fn has_parent_segment_exec(v: &[char]) -> (r: bool)
    ensures
        r == has_parent_segment(v@),
{
    let mut start: usize = 0;
    let mut i: usize = 0;
    while i <= v.len()
        invariant
            start <= i <= v.len() + 1,
            i <= v.len() ==> start <= i,
            start == 0 || (start <= v.len() && v@[start - 1] == '/'),
            forall|k: int| start <= k < i && k < v.len() ==> v@[k] != '/',
            forall|a: int|
                #[trigger] is_segment(v@, a, a + 2) && a + 2 < i && a + 2 <= v.len() ==> !(
                v@[a] == '.' && v@[a + 1] == '.'),
            i > v.len() ==> !has_parent_segment(v@),
        decreases v.len() + 1 - i,
    {
        if i == v.len() || v[i] == '/' {
            // `v[start..i]` is a complete component.
            if i - start == 2 && v[start] == '.' && v[start + 1] == '.' {
                assert(is_segment(v@, start as int, start + 2));
                return true;
            }
            proof {
                assert forall|a: int|
                    #[trigger] is_segment(v@, a, a + 2) && a + 2 <= i && a + 2 <= v.len() implies !(
                    v@[a] == '.' && v@[a + 1] == '.') by {
                    if a + 2 == i {
                        if a < start {
                            assert(v@[start - 1] == '/');
                        } else if a > start {
                            assert(v@[a - 1] != '/');
                        }
                    }
                }
            }
            if i == v.len() {
                proof {
                    assert forall|a: int|
                        #[trigger] is_segment(v@, a, a + 2) implies !(v@[a] == '.' && v@[a + 1]
                        == '.') by {
                        assert(a + 2 <= v.len());
                    }
                }
                return false;
            }
            start = i + 1;
        }
        i = i + 1;
    }
    false
}

pub fn is_safe_relative(v: &[char]) -> (r: bool)
    ensures
        r == safe_relative(v@),
{
    if v.len() > 0 && v[0] == '/' {
        return false;
    }
    !has_parent_segment_exec(v)
}

/// The path itself when it is a safe relative path; `None` for an absolute
/// path or one with a `..` component.
pub fn safe_relative_path(value: &str) -> (r: Option<String>)
    ensures
        match r {
            Some(p) => safe_relative(value@) && p@ == value@,
            None => !safe_relative(value@),
        },
{
    let v = chars_of(value);
    if is_safe_relative(&v) {
        Some(string_of(&v))
    } else {
        None
    }
}

/// The request path relative to the web root: leading `/`s removed.
pub fn request_relative_path(uri_path: &str) -> (r: String)
    ensures
        r@ == strip_start(uri_path@, CharClass::Is('/')),
{
    string_of(&strip_start_vec(&chars_of(uri_path), CharClass::Is('/')))
}

/// What a static request reads: the empty path means `index.html`;
/// `None` (not found) for an unsafe path.
pub open spec fn static_target_spec(relative: Seq<char>) -> Option<Seq<char>> {
    let p = if relative.len() == 0 {
        "index.html"@
    } else {
        relative
    };
    if safe_relative(p) {
        Some(p)
    } else {
        None
    }
}

pub fn static_target(relative: &str) -> (r: Option<String>)
    ensures
        match r {
            Some(p) => static_target_spec(relative@) == Some(p@),
            None => static_target_spec(relative@) is None,
        },
{
    let v = chars_of(relative);
    let p = if v.len() == 0 {
        chars_of("index.html")
    } else {
        v
    };
    if is_safe_relative(&p) {
        Some(string_of(&p))
    } else {
        None
    }
}

/// `Path::file_name`: the last normal component, skipping trailing `/`
/// and `.` components; `None` when it is `..` or there is none.
pub open spec fn file_name(p: Seq<char>) -> Option<Seq<char>>
    decreases p.len(),
{
    if p.len() == 0 {
        None
    } else if p.last() == '/' {
        file_name(p.drop_last())
    } else if last_segment(p) == "."@ {
        file_name(p.drop_last())
    } else if last_segment(p) == ".."@ {
        None
    } else {
        Some(last_segment(p))
    }
}

/// `Path::extension` as text: what follows the last `.` of the file name,
/// empty when there is none or the name's only `.` leads it.
pub open spec fn extension_of(name: Seq<char>) -> Seq<char> {
    let i = last_index_of(name, '.');
    if i <= 0 {
        Seq::empty()
    } else {
        name.subrange(i + 1, name.len() as int)
    }
}

pub open spec fn path_extension(p: Seq<char>) -> Seq<char> {
    match file_name(p) {
        Some(n) => extension_of(n),
        None => Seq::empty(),
    }
}

/// The `Content-Type` served for a file extension.
pub open spec fn mime_for(ext: Seq<char>) -> Seq<char> {
    if ext == "html"@ {
        "text/html; charset=utf-8"@
    } else if ext == "js"@ {
        "text/javascript; charset=utf-8"@
    } else if ext == "css"@ {
        "text/css; charset=utf-8"@
    } else if ext == "json"@ {
        "application/json; charset=utf-8"@
    } else if ext == "svg"@ {
        "image/svg+xml"@
    } else if ext == "png"@ {
        "image/png"@
    } else if ext == "jpg"@ || ext == "jpeg"@ {
        "image/jpeg"@
    } else if ext == "webp"@ {
        "image/webp"@
    } else if ext == "ico"@ {
        "image/x-icon"@
    } else if ext == "woff2"@ {
        "font/woff2"@
    } else {
        "application/octet-stream"@
    }
}

/// `file_name(v[0..to])` as the bounds of the name inside `v`.
fn file_name_bounds(v: &[char], to: usize) -> (r: Option<(usize, usize)>)
    requires
        to <= v.len(),
    ensures
        match r {
            Some((a, b)) => a <= b <= to && file_name(v@.subrange(0, to as int)) == Some(
                v@.subrange(a as int, b as int),
            ),
            None => file_name(v@.subrange(0, to as int)) is None,
        },
    decreases to,
{
    if to == 0 {
        return None;
    }
    let ghost p = v@.subrange(0, to as int);
    assert(p.drop_last() =~= v@.subrange(0, to - 1));
    if v[to - 1] == '/' {
        return file_name_bounds(v, to - 1);
    }
    proof {
        lemma_last_index_of(p, '/');
    }
    let a = match last_index_of_exec(v, to, '/') {
        Some(i) => i + 1,
        None => 0,
    };
    assert(last_segment(p) =~= v@.subrange(a as int, to as int));
    let seg = slice_of(v, a, to);
    if eq_vec(&seg, &chars_of(".")) {
        return file_name_bounds(v, to - 1);
    }
    if eq_vec(&seg, &chars_of("..")) {
        return None;
    }
    Some((a, to))
}

fn extension_exec(name: &[char]) -> (r: Vec<char>)
    ensures
        r@ == extension_of(name@),
{
    proof {
        lemma_last_index_of(name@, '.');
    }
    assert(name@.subrange(0, name@.len() as int) =~= name@);
    match last_index_of_exec(name, name.len(), '.') {
        Some(i) => {
            if i == 0 {
                Vec::new()
            } else {
                slice_of(name, i + 1, name.len())
            }
        },
        None => Vec::new(),
    }
}

/// The `Content-Type` of a file path, by its extension.
pub fn content_type(path: &str) -> (r: &'static str)
    ensures
        r@ == mime_for(path_extension(path@)),
{
    let v = chars_of(path);
    assert(v@.subrange(0, v@.len() as int) =~= v@);
    let ext = match file_name_bounds(&v, v.len()) {
        Some((a, b)) => extension_exec(&slice_of(&v, a, b)),
        None => Vec::new(),
    };
    if eq_vec(&ext, &chars_of("html")) {
        "text/html; charset=utf-8"
    } else if eq_vec(&ext, &chars_of("js")) {
        "text/javascript; charset=utf-8"
    } else if eq_vec(&ext, &chars_of("css")) {
        "text/css; charset=utf-8"
    } else if eq_vec(&ext, &chars_of("json")) {
        "application/json; charset=utf-8"
    } else if eq_vec(&ext, &chars_of("svg")) {
        "image/svg+xml"
    } else if eq_vec(&ext, &chars_of("png")) {
        "image/png"
    } else if eq_vec(&ext, &chars_of("jpg")) || eq_vec(&ext, &chars_of("jpeg")) {
        "image/jpeg"
    } else if eq_vec(&ext, &chars_of("webp")) {
        "image/webp"
    } else if eq_vec(&ext, &chars_of("ico")) {
        "image/x-icon"
    } else if eq_vec(&ext, &chars_of("woff2")) {
        "font/woff2"
    } else {
        "application/octet-stream"
    }
}

/// `Path::extension(p).is_some()`: the file name has a `.` after its
/// first character.
pub open spec fn has_extension(p: Seq<char>) -> bool {
    match file_name(p) {
        Some(n) => last_index_of(n, '.') > 0,
        None => false,
    }
}

pub fn has_extension_exec(path: &str) -> (r: bool)
    ensures
        r == has_extension(path@),
{
    let v = chars_of(path);
    assert(v@.subrange(0, v@.len() as int) =~= v@);
    match file_name_bounds(&v, v.len()) {
        Some((a, b)) => {
            let name = slice_of(&v, a, b);
            assert(name@.subrange(0, name@.len() as int) =~= name@);
            match last_index_of_exec(&name, name.len(), '.') {
                Some(i) => i > 0,
                None => false,
            }
        },
        None => false,
    }
}

} // verus!
