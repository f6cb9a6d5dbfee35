//! Static Web UI serving rules: request paths, content types and caching.

use vstd::prelude::*;

use vstd::string::StringExecFns;
use crate::text::{
    chars_of, eq_str, index_of, index_of_exec, lower, lower_chars, slice_chars, split_any,
    split_any_exec, starts_with, starts_with_str, string_of,
};

verus! {

/// Last path component as `Path::file_name` sees it: empty and `.` segments
/// are skipped; a final `..` (or no segment at all) gives none.
pub open spec fn last_segment(segs: Seq<Seq<char>>) -> Option<Seq<char>>
    decreases segs.len(),
{
    if segs.len() == 0 {
        None
    } else {
        let s = segs.last();
        if s.len() == 0 || s == "."@ {
            last_segment(segs.drop_last())
        } else if s == ".."@ {
            None
        } else {
            Some(s)
        }
    }
}

/// Position of the last `.` in `s`, or -1.
pub open spec fn last_dot(s: Seq<char>) -> int
    decreases s.len(),
{
    if s.len() == 0 {
        -1
    } else if s.last() == '.' {
        s.len() - 1
    } else {
        last_dot(s.drop_last())
    }
}

/// `Path::extension` of a `/`-separated path: the text after the last `.` of
/// the file name, unless the name has no `.` or only a leading one.
pub open spec fn path_extension(path: Seq<char>) -> Option<Seq<char>> {
    match last_segment(split_any(path, seq!['/'])) {
        None => None,
        Some(name) => {
            let d = last_dot(name);
            if d <= 0 {
                None
            } else {
                Some(name.skip(d + 1))
            }
        },
    }
}

/// Lowercased extension, empty when there is none.
pub open spec fn ext_key(path: Seq<char>) -> Seq<char> {
    match path_extension(path) {
        Some(e) => lower(e),
        None => Seq::empty(),
    }
}

/// Content type served for a file.
pub open spec fn spec_content_type(path: Seq<char>) -> Seq<char> {
    let e = ext_key(path);
    if e == "html"@ {
        "text/html; charset=utf-8"@
    } else if e == "js"@ {
        "application/javascript; charset=utf-8"@
    } else if e == "css"@ {
        "text/css; charset=utf-8"@
    } else if e == "png"@ {
        "image/png"@
    } else if e == "ico"@ {
        "image/x-icon"@
    } else if e == "svg"@ {
        "image/svg+xml"@
    } else if e == "json"@ {
        "application/json"@
    } else if e == "woff2"@ {
        "font/woff2"@
    } else {
        "application/octet-stream"@
    }
}

/// Cache policy: HTML, JS and CSS revalidate (stale scripts broke language
/// switching after updates); other assets are cached for a day.
pub open spec fn spec_cache_control(path: Seq<char>) -> Seq<char> {
    let e = ext_key(path);
    if e == "html"@ || e == "js"@ || e == "css"@ {
        "no-cache"@
    } else {
        "public, max-age=86400"@
    }
}

/// Leading `/` characters removed.
pub open spec fn strip_slashes(s: Seq<char>) -> Seq<char>
    decreases s.len(),
{
    if s.len() > 0 && s[0] == '/' {
        strip_slashes(s.drop_first())
    } else {
        s
    }
}

/// File requested by a URI path: the query is dropped, leading slashes are
/// removed, and the root names `index.html`.
pub open spec fn spec_normalize_path(uri: Seq<char>) -> Seq<char> {
    let p = uri.take(index_of(uri, '?'));
    if p.len() == 0 || p == "/"@ {
        "index.html"@
    } else if strip_slashes(p).len() == 0 {
        "index.html"@
    } else {
        strip_slashes(p)
    }
}

/// Files served without a token (icons).
pub open spec fn spec_is_asset_public(rel: Seq<char>) -> bool {
    starts_with(rel, "favicon"@) || rel == "apple-touch-icon.png"@ || rel == "apple-touch-icon"@
}

fn last_segment_exec(segs: &Vec<Vec<char>>) -> (r: Option<Vec<char>>)
    ensures
        match r {
            Some(v) => last_segment(segs@.map_values(|s: Vec<char>| s@)) == Some(v@),
            None => last_segment(segs@.map_values(|s: Vec<char>| s@)) is None,
        },
{
    let ghost all = segs@.map_values(|s: Vec<char>| s@);
    let mut n = segs.len();
    assert(all.take(n as int) =~= all);
    while n > 0
        invariant
            0 <= n <= segs@.len(),
            all == segs@.map_values(|s: Vec<char>| s@),
            last_segment(all) == last_segment(all.take(n as int)),
        decreases n,
    {
        let s = &segs[n - 1];
        proof {
            assert(all.take(n as int).last() == s@);
            assert(all.take(n as int).drop_last() =~= all.take(n - 1));
        }
        if s.len() == 0 || eq_str(s.as_slice(), ".") {
            n = n - 1;
        } else if eq_str(s.as_slice(), "..") {
            return None;
        } else {
            return Some(slice_chars(s.as_slice(), 0, s.len()));
        }
    }
    None
}

fn last_dot_exec(s: &[char]) -> (r: Option<usize>)
    ensures
        match r {
            Some(i) => i < s@.len() && last_dot(s@) == i,
            None => last_dot(s@) == -1,
        },
{
    let mut n = s.len();
    assert(s@.take(n as int) =~= s@);
    while n > 0
        invariant
            0 <= n <= s@.len(),
            last_dot(s@) == last_dot(s@.take(n as int)),
        decreases n,
    {
        assert(s@.take(n as int).drop_last() =~= s@.take(n - 1));
        if s[n - 1] == '.' {
            return Some(n - 1);
        }
        n = n - 1;
    }
    None
}

/// Lowercased file extension of a request path.
fn ext_key_exec(path: &str) -> (r: Vec<char>)
    ensures
        r@ == ext_key(path@),
{
    let p = chars_of(path);
    let seps: Vec<char> = vec!['/'];
    assert(seps@ =~= seq!['/']);
    let segs = split_any_exec(p.as_slice(), seps.as_slice());
    assert(segs@.map_values(|s: Vec<char>| s@) =~= split_any(path@, seq!['/']));
    match last_segment_exec(&segs) {
        None => Vec::new(),
        Some(name) => {
            let d = match last_dot_exec(name.as_slice()) {
                None => {
                    return Vec::new();
                },
                Some(d) => d,
            };
            if d == 0 {
                Vec::new()
            } else {
                let nl = name.len();
                assert(d < nl);
                let e = slice_chars(name.as_slice(), d + 1, nl);
                assert(e@ =~= name@.skip(d + 1));
                lower_chars(e.as_slice())
            }
        },
    }
}

/// Content type of a Web UI file.
pub fn content_type_for(path: &str) -> (r: &'static str)
    ensures
        r@ == spec_content_type(path@),
{
    let e = ext_key_exec(path);
    let s = e.as_slice();
    if eq_str(s, "html") {
        "text/html; charset=utf-8"
    } else if eq_str(s, "js") {
        "application/javascript; charset=utf-8"
    } else if eq_str(s, "css") {
        "text/css; charset=utf-8"
    } else if eq_str(s, "png") {
        "image/png"
    } else if eq_str(s, "ico") {
        "image/x-icon"
    } else if eq_str(s, "svg") {
        "image/svg+xml"
    } else if eq_str(s, "json") {
        "application/json"
    } else if eq_str(s, "woff2") {
        "font/woff2"
    } else {
        "application/octet-stream"
    }
}

/// Cache-Control value of a Web UI file.
pub fn cache_control_for(rel: &str) -> (r: &'static str)
    ensures
        r@ == spec_cache_control(rel@),
{
    let e = ext_key_exec(rel);
    let s = e.as_slice();
    if eq_str(s, "html") || eq_str(s, "js") || eq_str(s, "css") {
        "no-cache"
    } else {
        "public, max-age=86400"
    }
}

/// File named by a request URI path.
pub fn normalize_path(uri_path: &str) -> (r: String)
    ensures
        r@ == spec_normalize_path(uri_path@),
{
    let u = chars_of(uri_path);
    let q = index_of_exec(u.as_slice(), '?');
    let p = slice_chars(u.as_slice(), 0, q);
    assert(p@ =~= uri_path@.take(q as int));
    if p.len() == 0 || eq_str(p.as_slice(), "/") {
        return String::from_str("index.html");
    }
    let mut a: usize = 0;
    assert(p@.skip(0) =~= p@);
    while a < p.len() && p[a] == '/'
        invariant
            0 <= a <= p@.len(),
            strip_slashes(p@) == strip_slashes(p@.skip(a as int)),
        decreases p@.len() - a,
    {
        assert(p@.skip(a as int).drop_first() =~= p@.skip(a + 1));
        a = a + 1;
    }
    let rest = slice_chars(p.as_slice(), a, p.len());
    assert(rest@ =~= p@.skip(a as int));
    if rest.len() == 0 {
        String::from_str("index.html")
    } else {
        string_of(rest.as_slice())
    }
}

/// Icons are served without a token.
pub fn is_asset_public(rel: &str) -> (r: bool)
    ensures
        r == spec_is_asset_public(rel@),
{
    let r = chars_of(rel);
    starts_with_str(r.as_slice(), "favicon") || eq_str(r.as_slice(), "apple-touch-icon.png")
        || eq_str(r.as_slice(), "apple-touch-icon")
}

/// `s` with every occurrence of `pat`, taken left to right without overlap,
/// replaced by `rep` (an empty `pat` replaces nothing).
pub open spec fn replace_bytes(s: Seq<u8>, pat: Seq<u8>, rep: Seq<u8>) -> Seq<u8>
    decreases s.len(),
{
    if s.len() == 0 {
        s
    } else if pat.len() > 0 && pat.len() <= s.len() && s.take(pat.len() as int) == pat {
        rep + replace_bytes(s.skip(pat.len() as int), pat, rep)
    } else {
        seq![s[0]] + replace_bytes(s.skip(1), pat, rep)
    }
}

/// Placeholder of `index.html` for the build version.
pub open spec fn version_placeholder() -> Seq<u8> {
    seq![95u8, 95, 87, 69, 66, 82, 85, 83, 84, 95, 86, 69, 82, 95, 95]
}

/// `std::str::from_utf8(bytes).is_ok()`: the bytes are valid UTF-8.
#[verifier::external_body]
fn is_utf8(bytes: &[u8]) -> (r: bool)
    ensures
        r == vstd::utf8::valid_utf8(bytes@),
{
    std::str::from_utf8(bytes).is_ok()
}

/// `pat` occurs in `s` at `i`.
fn occurs_at(s: &[u8], i: usize, pat: &[u8]) -> (r: bool)
    requires
        i <= s@.len(),
    ensures
        r == (i + pat@.len() <= s@.len() && s@.subrange(i as int, i + pat@.len()) == pat@),
{
    if pat.len() > s.len() - i {
        return false;
    }
    assert(s@.len() == s.len());
    let mut k: usize = 0;
    while k < pat.len()
        invariant
            k <= pat@.len(),
            i + pat@.len() <= s@.len(),
            s@.len() <= usize::MAX,
            forall|j: int| 0 <= j < k ==> s@[i + j] == pat@[j],
        decreases pat@.len() - k,
    {
        if s[i + k] != pat[k] {
            assert(s@.subrange(i as int, i + pat@.len())[k as int] != pat@[k as int]);
            return false;
        }
        k += 1;
    }
    assert(s@.subrange(i as int, i + pat@.len()) =~= pat@);
    true
}

/// `s` with every `pat` replaced by `rep`.
pub fn replace_all_bytes(s: &[u8], pat: &[u8], rep: &[u8]) -> (r: Vec<u8>)
    ensures
        r@ == replace_bytes(s@, pat@, rep@),
{
    let mut out: Vec<u8> = Vec::new();
    let mut i: usize = 0;
    assert(s@.skip(0) =~= s@);
    while i < s.len()
        invariant
            i <= s@.len(),
            replace_bytes(s@, pat@, rep@) == out@ + replace_bytes(s@.skip(i as int), pat@, rep@),
        decreases s@.len() - i,
    {
        let ghost rest = s@.skip(i as int);
        if pat.len() > 0 && occurs_at(s, i, pat) {
            assert(rest.take(pat@.len() as int) =~= s@.subrange(i as int, i + pat@.len()));
            assert(rest.skip(pat@.len() as int) =~= s@.skip(i + pat@.len()));
            let ghost out0 = out@;
            crate::h264::extend_bytes(&mut out, rep);
            i += pat.len();
            assert(out0 + (rep@ + replace_bytes(s@.skip(i as int), pat@, rep@)) =~= out@ + replace_bytes(
                s@.skip(i as int),
                pat@,
                rep@,
            ));
        } else {
            proof {
                if i + pat@.len() <= s@.len() {
                    assert(rest.take(pat@.len() as int) =~= s@.subrange(i as int, i + pat@.len()));
                }
            }
            assert(rest[0] == s@[i as int]);
            assert(rest.skip(1) =~= s@.skip(i + 1));
            let ghost out0 = out@;
            out.push(s[i]);
            i += 1;
            assert(out0 + (seq![rest[0]] + replace_bytes(s@.skip(i as int), pat@, rep@)) =~= out@
                + replace_bytes(s@.skip(i as int), pat@, rep@));
        }
    }
    assert(s@.skip(i as int) =~= Seq::<u8>::empty());
    assert(out@ + Seq::<u8>::empty() =~= out@);
    out
}

/// `index.html` with the placeholder replaced by `version`, so that the
/// script and style URLs change with each build; other files, and an
/// `index.html` that is not UTF-8, are served unchanged.
pub fn inject_webui_version(bytes: Vec<u8>, rel: &str, version: &str) -> (r: Vec<u8>)
    ensures
        r@ == (if rel@ == "index.html"@ && vstd::utf8::valid_utf8(bytes@) {
            replace_bytes(bytes@, version_placeholder(), vstd::utf8::encode_utf8(version@))
        } else {
            bytes@
        }),
{
    if !eq_str(chars_of(rel).as_slice(), "index.html") {
        return bytes;
    }
    if !is_utf8(bytes.as_slice()) {
        return bytes;
    }
    let pat: [u8; 15] = [95u8, 95, 87, 69, 66, 82, 85, 83, 84, 95, 86, 69, 82, 95, 95];
    assert(pat@ =~= version_placeholder());
    replace_all_bytes(bytes.as_slice(), pat.as_slice(), version.as_bytes())
}

/// Each web file type is served with its own content type, chosen by the
/// file's extension whatever its case; a file of any other type, or with no
/// extension, is served as `application/octet-stream`. HTML, scripts and
/// style sheets are revalidated on each load; other files are cached for a
/// day.
pub proof fn lemma_content_types(path: Seq<char>)
    ensures
        ({
            let t = spec_content_type(path);
            let e = match path_extension(path) {
                Some(x) => lower(x),
                None => Seq::<char>::empty(),
            };
            &&& e == "html"@ ==> t == "text/html; charset=utf-8"@
            &&& e == "js"@ ==> t == "application/javascript; charset=utf-8"@
            &&& e == "css"@ ==> t == "text/css; charset=utf-8"@
            &&& e == "png"@ ==> t == "image/png"@
            &&& e == "ico"@ ==> t == "image/x-icon"@
            &&& e == "svg"@ ==> t == "image/svg+xml"@
            &&& e == "json"@ ==> t == "application/json"@
            &&& e == "woff2"@ ==> t == "font/woff2"@
            &&& (t == "application/octet-stream"@) == !(e == "html"@ || e == "js"@ || e == "css"@ || e == "png"@
                || e == "ico"@ || e == "svg"@ || e == "json"@ || e == "woff2"@)
            &&& (spec_cache_control(path) == "no-cache"@) == (e == "html"@ || e == "js"@ || e == "css"@)
            &&& (spec_cache_control(path) == "public, max-age=86400"@) == !(e == "html"@ || e == "js"@ || e == "css"@)
        }),
{
    reveal_strlit("html");
    reveal_strlit("js");
    reveal_strlit("css");
    reveal_strlit("png");
    reveal_strlit("ico");
    reveal_strlit("svg");
    reveal_strlit("json");
    reveal_strlit("woff2");
    reveal_strlit("text/html; charset=utf-8");
    reveal_strlit("application/javascript; charset=utf-8");
    reveal_strlit("text/css; charset=utf-8");
    reveal_strlit("image/png");
    reveal_strlit("image/x-icon");
    reveal_strlit("image/svg+xml");
    reveal_strlit("application/json");
    reveal_strlit("font/woff2");
    reveal_strlit("application/octet-stream");
    reveal_strlit("no-cache");
    reveal_strlit("public, max-age=86400");
    assert("css"@[0] != "png"@[0] && "css"@[0] != "ico"@[0] && "css"@[0] != "svg"@[0]);
    assert("png"@[0] != "ico"@[0] && "png"@[0] != "svg"@[0] && "ico"@[0] != "svg"@[0]);
    assert("html"@[0] != "json"@[0]);
    assert("json"@.len() != "js"@.len() && "json"@.len() != "css"@.len() && "json"@.len() != "png"@.len());
    assert("json"@.len() != "ico"@.len() && "json"@.len() != "svg"@.len());
    assert("woff2"@.len() != "html"@.len() && "woff2"@.len() != "js"@.len() && "woff2"@.len() != "css"@.len());
    assert("woff2"@.len() != "png"@.len() && "woff2"@.len() != "ico"@.len() && "woff2"@.len() != "svg"@.len());
    assert("woff2"@.len() != "json"@.len());
    let o = "application/octet-stream"@;
    assert("text/html; charset=utf-8"@[0] != o[0]);
    assert("application/javascript; charset=utf-8"@[12] != o[12]);
    assert("text/css; charset=utf-8"@[0] != o[0]);
    assert("image/png"@[0] != o[0]);
    assert("image/x-icon"@[0] != o[0]);
    assert("image/svg+xml"@[0] != o[0]);
    assert("application/json"@[12] != o[12]);
    assert("font/woff2"@[0] != o[0]);
    assert("no-cache"@.len() != "public, max-age=86400"@.len());
}

} // verus!
