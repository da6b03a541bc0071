//! Content metadata for cached pages: the media type and
//! compressibility of a file extension, the weak `ETag` of a body, the
//! decimal `Content-Length` value, and zstd pre-compression.
use vstd::prelude::*;

use crate::text::{chars_of, push_char, string_from_chars};

verus! {

broadcast use vstd::string::group_string_axioms;

/// `c` with ASCII upper-case letters mapped to lower case.
pub open spec fn ascii_lower(c: char) -> char {
    if 'A' <= c && c <= 'Z' {
        ((c as u32) + 32) as char
    } else {
        c
    }
}

/// `s` with ASCII upper-case letters mapped to lower case, as
/// `str::to_ascii_lowercase` does.
pub open spec fn ascii_lowercase(s: Seq<char>) -> Seq<char> {
    Seq::new(s.len(), |i: int| ascii_lower(s[i]))
}

/// Media type and compressibility of a lower-case extension, for the
/// extensions the serve surface knows.
pub open spec fn ext_table(e: Seq<char>) -> Option<(Seq<char>, bool)> {
    if e == "html"@ {
        Some(("text/html; charset=utf-8"@, true))
    } else if e == "css"@ {
        Some(("text/css; charset=utf-8"@, true))
    } else if e == "js"@ || e == "mjs"@ {
        Some(("text/javascript; charset=utf-8"@, true))
    } else if e == "json"@ || e == "map"@ {
        Some(("application/json; charset=utf-8"@, true))
    } else if e == "xml"@ {
        Some(("application/xml; charset=utf-8"@, true))
    } else if e == "svg"@ {
        Some(("image/svg+xml"@, true))
    } else if e == "txt"@ {
        Some(("text/plain; charset=utf-8"@, true))
    } else if e == "png"@ {
        Some(("image/png"@, false))
    } else if e == "jpg"@ || e == "jpeg"@ {
        Some(("image/jpeg"@, false))
    } else if e == "gif"@ {
        Some(("image/gif"@, false))
    } else if e == "webp"@ {
        Some(("image/webp"@, false))
    } else if e == "avif"@ {
        Some(("image/avif"@, false))
    } else if e == "ico"@ {
        Some(("image/x-icon"@, false))
    } else if e == "woff"@ {
        Some(("font/woff"@, false))
    } else if e == "woff2"@ {
        Some(("font/woff2"@, false))
    } else if e == "ttf"@ {
        Some(("font/ttf"@, false))
    } else if e == "otf"@ {
        Some(("font/otf"@, false))
    } else if e == "wasm"@ {
        Some(("application/wasm"@, false))
    } else {
        None
    }
}

/// Metadata of an optional extension, looked up case-insensitively.
pub open spec fn ext_info(ext: Option<Seq<char>>) -> Option<(Seq<char>, bool)> {
    match ext {
        Some(e) => ext_table(ascii_lowercase(e)),
        None => None,
    }
}

/// The media types of the serve surface, extension by extension, matched
/// in any ASCII case: the text formats (HTML, CSS, JavaScript, JSON and
/// source maps, XML, SVG, plain text) are compressible, the images, fonts
/// and WebAssembly are not.
pub proof fn law_extension_media_types(e: Seq<char>)
    ensures
        ascii_lowercase(e) == "html"@ ==> ext_info(Some(e)) == Some(("text/html; charset=utf-8"@, true)),
        ascii_lowercase(e) == "css"@ ==> ext_info(Some(e)) == Some(("text/css; charset=utf-8"@, true)),
        ascii_lowercase(e) == "js"@ ==> ext_info(Some(e)) == Some(("text/javascript; charset=utf-8"@, true)),
        ascii_lowercase(e) == "mjs"@ ==> ext_info(Some(e)) == Some(("text/javascript; charset=utf-8"@, true)),
        ascii_lowercase(e) == "json"@ ==> ext_info(Some(e)) == Some(("application/json; charset=utf-8"@, true)),
        ascii_lowercase(e) == "map"@ ==> ext_info(Some(e)) == Some(("application/json; charset=utf-8"@, true)),
        ascii_lowercase(e) == "xml"@ ==> ext_info(Some(e)) == Some(("application/xml; charset=utf-8"@, true)),
        ascii_lowercase(e) == "svg"@ ==> ext_info(Some(e)) == Some(("image/svg+xml"@, true)),
        ascii_lowercase(e) == "txt"@ ==> ext_info(Some(e)) == Some(("text/plain; charset=utf-8"@, true)),
        ascii_lowercase(e) == "png"@ ==> ext_info(Some(e)) == Some(("image/png"@, false)),
        ascii_lowercase(e) == "jpg"@ ==> ext_info(Some(e)) == Some(("image/jpeg"@, false)),
        ascii_lowercase(e) == "jpeg"@ ==> ext_info(Some(e)) == Some(("image/jpeg"@, false)),
        ascii_lowercase(e) == "gif"@ ==> ext_info(Some(e)) == Some(("image/gif"@, false)),
        ascii_lowercase(e) == "webp"@ ==> ext_info(Some(e)) == Some(("image/webp"@, false)),
        ascii_lowercase(e) == "avif"@ ==> ext_info(Some(e)) == Some(("image/avif"@, false)),
        ascii_lowercase(e) == "ico"@ ==> ext_info(Some(e)) == Some(("image/x-icon"@, false)),
        ascii_lowercase(e) == "woff"@ ==> ext_info(Some(e)) == Some(("font/woff"@, false)),
        ascii_lowercase(e) == "woff2"@ ==> ext_info(Some(e)) == Some(("font/woff2"@, false)),
        ascii_lowercase(e) == "ttf"@ ==> ext_info(Some(e)) == Some(("font/ttf"@, false)),
        ascii_lowercase(e) == "otf"@ ==> ext_info(Some(e)) == Some(("font/otf"@, false)),
        ascii_lowercase(e) == "wasm"@ ==> ext_info(Some(e)) == Some(("application/wasm"@, false)),
{
    reveal_strlit("avif");
    reveal_strlit("css");
    reveal_strlit("gif");
    reveal_strlit("html");
    reveal_strlit("ico");
    reveal_strlit("jpeg");
    reveal_strlit("jpg");
    reveal_strlit("js");
    reveal_strlit("json");
    reveal_strlit("map");
    reveal_strlit("mjs");
    reveal_strlit("otf");
    reveal_strlit("png");
    reveal_strlit("svg");
    reveal_strlit("ttf");
    reveal_strlit("txt");
    reveal_strlit("wasm");
    reveal_strlit("webp");
    reveal_strlit("woff");
    reveal_strlit("woff2");
    reveal_strlit("xml");
    assert("css"@.len() != "html"@.len());
    assert("js"@.len() != "html"@.len());
    assert("js"@.len() != "css"@.len());
    assert("mjs"@.len() != "html"@.len());
    assert("mjs"@[0] != "css"@[0]);
    assert("mjs"@.len() != "js"@.len());
    assert("json"@[0] != "html"@[0]);
    assert("json"@.len() != "css"@.len());
    assert("json"@.len() != "js"@.len());
    assert("json"@.len() != "mjs"@.len());
    assert("map"@.len() != "html"@.len());
    assert("map"@[0] != "css"@[0]);
    assert("map"@.len() != "js"@.len());
    assert("map"@[1] != "mjs"@[1]);
    assert("map"@.len() != "json"@.len());
    assert("xml"@.len() != "html"@.len());
    assert("xml"@[0] != "css"@[0]);
    assert("xml"@.len() != "js"@.len());
    assert("xml"@[0] != "mjs"@[0]);
    assert("xml"@.len() != "json"@.len());
    assert("xml"@[0] != "map"@[0]);
    assert("svg"@.len() != "html"@.len());
    assert("svg"@[0] != "css"@[0]);
    assert("svg"@.len() != "js"@.len());
    assert("svg"@[0] != "mjs"@[0]);
    assert("svg"@.len() != "json"@.len());
    assert("svg"@[0] != "map"@[0]);
    assert("svg"@[0] != "xml"@[0]);
    assert("txt"@.len() != "html"@.len());
    assert("txt"@[0] != "css"@[0]);
    assert("txt"@.len() != "js"@.len());
    assert("txt"@[0] != "mjs"@[0]);
    assert("txt"@.len() != "json"@.len());
    assert("txt"@[0] != "map"@[0]);
    assert("txt"@[0] != "xml"@[0]);
    assert("txt"@[0] != "svg"@[0]);
    assert("png"@.len() != "html"@.len());
    assert("png"@[0] != "css"@[0]);
    assert("png"@.len() != "js"@.len());
    assert("png"@[0] != "mjs"@[0]);
    assert("png"@.len() != "json"@.len());
    assert("png"@[0] != "map"@[0]);
    assert("png"@[0] != "xml"@[0]);
    assert("png"@[0] != "svg"@[0]);
    assert("png"@[0] != "txt"@[0]);
    assert("jpg"@.len() != "html"@.len());
    assert("jpg"@[0] != "css"@[0]);
    assert("jpg"@.len() != "js"@.len());
    assert("jpg"@[0] != "mjs"@[0]);
    assert("jpg"@.len() != "json"@.len());
    assert("jpg"@[0] != "map"@[0]);
    assert("jpg"@[0] != "xml"@[0]);
    assert("jpg"@[0] != "svg"@[0]);
    assert("jpg"@[0] != "txt"@[0]);
    assert("jpg"@[0] != "png"@[0]);
    assert("jpeg"@[0] != "html"@[0]);
    assert("jpeg"@.len() != "css"@.len());
    assert("jpeg"@.len() != "js"@.len());
    assert("jpeg"@.len() != "mjs"@.len());
    assert("jpeg"@[1] != "json"@[1]);
    assert("jpeg"@.len() != "map"@.len());
    assert("jpeg"@.len() != "xml"@.len());
    assert("jpeg"@.len() != "svg"@.len());
    assert("jpeg"@.len() != "txt"@.len());
    assert("jpeg"@.len() != "png"@.len());
    assert("jpeg"@.len() != "jpg"@.len());
    assert("gif"@.len() != "html"@.len());
    assert("gif"@[0] != "css"@[0]);
    assert("gif"@.len() != "js"@.len());
    assert("gif"@[0] != "mjs"@[0]);
    assert("gif"@.len() != "json"@.len());
    assert("gif"@[0] != "map"@[0]);
    assert("gif"@[0] != "xml"@[0]);
    assert("gif"@[0] != "svg"@[0]);
    assert("gif"@[0] != "txt"@[0]);
    assert("gif"@[0] != "png"@[0]);
    assert("gif"@[0] != "jpg"@[0]);
    assert("gif"@.len() != "jpeg"@.len());
    assert("webp"@[0] != "html"@[0]);
    assert("webp"@.len() != "css"@.len());
    assert("webp"@.len() != "js"@.len());
    assert("webp"@.len() != "mjs"@.len());
    assert("webp"@[0] != "json"@[0]);
    assert("webp"@.len() != "map"@.len());
    assert("webp"@.len() != "xml"@.len());
    assert("webp"@.len() != "svg"@.len());
    assert("webp"@.len() != "txt"@.len());
    assert("webp"@.len() != "png"@.len());
    assert("webp"@.len() != "jpg"@.len());
    assert("webp"@[0] != "jpeg"@[0]);
    assert("webp"@.len() != "gif"@.len());
    assert("avif"@[0] != "html"@[0]);
    assert("avif"@.len() != "css"@.len());
    assert("avif"@.len() != "js"@.len());
    assert("avif"@.len() != "mjs"@.len());
    assert("avif"@[0] != "json"@[0]);
    assert("avif"@.len() != "map"@.len());
    assert("avif"@.len() != "xml"@.len());
    assert("avif"@.len() != "svg"@.len());
    assert("avif"@.len() != "txt"@.len());
    assert("avif"@.len() != "png"@.len());
    assert("avif"@.len() != "jpg"@.len());
    assert("avif"@[0] != "jpeg"@[0]);
    assert("avif"@.len() != "gif"@.len());
    assert("avif"@[0] != "webp"@[0]);
    assert("ico"@.len() != "html"@.len());
    assert("ico"@[0] != "css"@[0]);
    assert("ico"@.len() != "js"@.len());
    assert("ico"@[0] != "mjs"@[0]);
    assert("ico"@.len() != "json"@.len());
    assert("ico"@[0] != "map"@[0]);
    assert("ico"@[0] != "xml"@[0]);
    assert("ico"@[0] != "svg"@[0]);
    assert("ico"@[0] != "txt"@[0]);
    assert("ico"@[0] != "png"@[0]);
    assert("ico"@[0] != "jpg"@[0]);
    assert("ico"@.len() != "jpeg"@.len());
    assert("ico"@[0] != "gif"@[0]);
    assert("ico"@.len() != "webp"@.len());
    assert("ico"@.len() != "avif"@.len());
    assert("woff"@[0] != "html"@[0]);
    assert("woff"@.len() != "css"@.len());
    assert("woff"@.len() != "js"@.len());
    assert("woff"@.len() != "mjs"@.len());
    assert("woff"@[0] != "json"@[0]);
    assert("woff"@.len() != "map"@.len());
    assert("woff"@.len() != "xml"@.len());
    assert("woff"@.len() != "svg"@.len());
    assert("woff"@.len() != "txt"@.len());
    assert("woff"@.len() != "png"@.len());
    assert("woff"@.len() != "jpg"@.len());
    assert("woff"@[0] != "jpeg"@[0]);
    assert("woff"@.len() != "gif"@.len());
    assert("woff"@[1] != "webp"@[1]);
    assert("woff"@[0] != "avif"@[0]);
    assert("woff"@.len() != "ico"@.len());
    assert("woff2"@.len() != "html"@.len());
    assert("woff2"@.len() != "css"@.len());
    assert("woff2"@.len() != "js"@.len());
    assert("woff2"@.len() != "mjs"@.len());
    assert("woff2"@.len() != "json"@.len());
    assert("woff2"@.len() != "map"@.len());
    assert("woff2"@.len() != "xml"@.len());
    assert("woff2"@.len() != "svg"@.len());
    assert("woff2"@.len() != "txt"@.len());
    assert("woff2"@.len() != "png"@.len());
    assert("woff2"@.len() != "jpg"@.len());
    assert("woff2"@.len() != "jpeg"@.len());
    assert("woff2"@.len() != "gif"@.len());
    assert("woff2"@.len() != "webp"@.len());
    assert("woff2"@.len() != "avif"@.len());
    assert("woff2"@.len() != "ico"@.len());
    assert("woff2"@.len() != "woff"@.len());
    assert("ttf"@.len() != "html"@.len());
    assert("ttf"@[0] != "css"@[0]);
    assert("ttf"@.len() != "js"@.len());
    assert("ttf"@[0] != "mjs"@[0]);
    assert("ttf"@.len() != "json"@.len());
    assert("ttf"@[0] != "map"@[0]);
    assert("ttf"@[0] != "xml"@[0]);
    assert("ttf"@[0] != "svg"@[0]);
    assert("ttf"@[1] != "txt"@[1]);
    assert("ttf"@[0] != "png"@[0]);
    assert("ttf"@[0] != "jpg"@[0]);
    assert("ttf"@.len() != "jpeg"@.len());
    assert("ttf"@[0] != "gif"@[0]);
    assert("ttf"@.len() != "webp"@.len());
    assert("ttf"@.len() != "avif"@.len());
    assert("ttf"@[0] != "ico"@[0]);
    assert("ttf"@.len() != "woff"@.len());
    assert("ttf"@.len() != "woff2"@.len());
    assert("otf"@.len() != "html"@.len());
    assert("otf"@[0] != "css"@[0]);
    assert("otf"@.len() != "js"@.len());
    assert("otf"@[0] != "mjs"@[0]);
    assert("otf"@.len() != "json"@.len());
    assert("otf"@[0] != "map"@[0]);
    assert("otf"@[0] != "xml"@[0]);
    assert("otf"@[0] != "svg"@[0]);
    assert("otf"@[0] != "txt"@[0]);
    assert("otf"@[0] != "png"@[0]);
    assert("otf"@[0] != "jpg"@[0]);
    assert("otf"@.len() != "jpeg"@.len());
    assert("otf"@[0] != "gif"@[0]);
    assert("otf"@.len() != "webp"@.len());
    assert("otf"@.len() != "avif"@.len());
    assert("otf"@[0] != "ico"@[0]);
    assert("otf"@.len() != "woff"@.len());
    assert("otf"@.len() != "woff2"@.len());
    assert("otf"@[0] != "ttf"@[0]);
    assert("wasm"@[0] != "html"@[0]);
    assert("wasm"@.len() != "css"@.len());
    assert("wasm"@.len() != "js"@.len());
    assert("wasm"@.len() != "mjs"@.len());
    assert("wasm"@[0] != "json"@[0]);
    assert("wasm"@.len() != "map"@.len());
    assert("wasm"@.len() != "xml"@.len());
    assert("wasm"@.len() != "svg"@.len());
    assert("wasm"@.len() != "txt"@.len());
    assert("wasm"@.len() != "png"@.len());
    assert("wasm"@.len() != "jpg"@.len());
    assert("wasm"@[0] != "jpeg"@[0]);
    assert("wasm"@.len() != "gif"@.len());
    assert("wasm"@[1] != "webp"@[1]);
    assert("wasm"@[0] != "avif"@[0]);
    assert("wasm"@.len() != "ico"@.len());
    assert("wasm"@[1] != "woff"@[1]);
    assert("wasm"@.len() != "woff2"@.len());
    assert("wasm"@.len() != "ttf"@.len());
    assert("wasm"@.len() != "otf"@.len());
}

fn lowercase(v: &Vec<char>) -> (r: Vec<char>)
    ensures
        r@ == ascii_lowercase(v@),
{
    let mut r: Vec<char> = Vec::new();
    let mut i: usize = 0;
    while i < v.len()
        invariant
            0 <= i <= v.len(),
            r@ == ascii_lowercase(v@).take(i as int),
        decreases v.len() - i,
    {
        let c = v[i];
        let l = if 'A' <= c && c <= 'Z' {
            ((c as u8) + 32) as char
        } else {
            c
        };
        assert(l == ascii_lower(v@[i as int]));
        r.push(l);
        assert(ascii_lowercase(v@).take(i as int).push(l) =~= ascii_lowercase(v@).take(i + 1));
        i = i + 1;
    }
    assert(ascii_lowercase(v@).take(v.len() as int) =~= ascii_lowercase(v@));
    r
}

fn eq_str(v: &Vec<char>, s: &str) -> (r: bool)
    ensures
        r == (v@ == s@),
{
    let w = chars_of(s);
    if v.len() != w.len() {
        return false;
    }
    let mut i: usize = 0;
    while i < v.len()
        invariant
            0 <= i <= v.len(),
            v.len() == w.len(),
            w@ == s@,
            forall|k: int| 0 <= k < i ==> v@[k] == w@[k],
        decreases v.len() - i,
    {
        if v[i] != w[i] {
            assert(v@[i as int] != s@[i as int]);
            return false;
        }
        i = i + 1;
    }
    assert(v@ =~= w@);
    true
}

fn table_lookup(e: &Vec<char>) -> (r: Option<(&'static str, bool)>)
    ensures
        match ext_table(e@) {
            Some((ct, c)) => r matches Some((rt, rc)) && rt@ == ct && rc == c,
            None => r is None,
        },
{
    if eq_str(e, "html") {
        Some(("text/html; charset=utf-8", true))
    } else if eq_str(e, "css") {
        Some(("text/css; charset=utf-8", true))
    } else if eq_str(e, "js") || eq_str(e, "mjs") {
        Some(("text/javascript; charset=utf-8", true))
    } else if eq_str(e, "json") || eq_str(e, "map") {
        Some(("application/json; charset=utf-8", true))
    } else if eq_str(e, "xml") {
        Some(("application/xml; charset=utf-8", true))
    } else if eq_str(e, "svg") {
        Some(("image/svg+xml", true))
    } else if eq_str(e, "txt") {
        Some(("text/plain; charset=utf-8", true))
    } else if eq_str(e, "png") {
        Some(("image/png", false))
    } else if eq_str(e, "jpg") || eq_str(e, "jpeg") {
        Some(("image/jpeg", false))
    } else if eq_str(e, "gif") {
        Some(("image/gif", false))
    } else if eq_str(e, "webp") {
        Some(("image/webp", false))
    } else if eq_str(e, "avif") {
        Some(("image/avif", false))
    } else if eq_str(e, "ico") {
        Some(("image/x-icon", false))
    } else if eq_str(e, "woff") {
        Some(("font/woff", false))
    } else if eq_str(e, "woff2") {
        Some(("font/woff2", false))
    } else if eq_str(e, "ttf") {
        Some(("font/ttf", false))
    } else if eq_str(e, "otf") {
        Some(("font/otf", false))
    } else if eq_str(e, "wasm") {
        Some(("application/wasm", false))
    } else {
        None
    }
}

/// Look up extension metadata: `(content_type, is_compressible)` for a
/// known extension, matched without regard to ASCII case.
pub fn lookup_ext(ext: Option<&str>) -> (r: Option<(&'static str, bool)>)
    ensures
        match ext_info(
            match ext {
                Some(e) => Some(e@),
                None => None,
            },
        ) {
            Some((ct, c)) => r matches Some((rt, rc)) && rt@ == ct && rc == c,
            None => r is None,
        },
{
    match ext {
        None => None,
        Some(e) => {
            let lower = lowercase(&chars_of(e));
            table_lookup(&lower)
        },
    }
}


/// Whether the extension warrants pre-compression (text formats only).
pub fn is_compressible_ext(ext: Option<&str>) -> (r: bool)
    ensures
        r == match ext_info(
            match ext {
                Some(e) => Some(e@),
                None => None,
            },
        ) {
            Some((_, c)) => c,
            None => false,
        },
{
    match lookup_ext(ext) {
        Some((_, c)) => c,
        None => false,
    }
}

/// The media type of an extension; `application/octet-stream` for an
/// unknown or absent one.
pub fn content_type_for_ext(ext: Option<&str>) -> (r: &'static str)
    ensures
        r@ == match ext_info(
            match ext {
                Some(e) => Some(e@),
                None => None,
            },
        ) {
            Some((ct, _)) => ct,
            None => "application/octet-stream"@,
        },
{
    match lookup_ext(ext) {
        Some((ct, _)) => ct,
        None => "application/octet-stream",
    }
}

/// Index of the last `c` in `s`, or -1.
pub open spec fn last_index_of(s: Seq<char>, c: char) -> int
    decreases s.len(),
{
    if s.len() == 0 {
        -1
    } else if s.last() == c {
        s.len() - 1
    } else {
        last_index_of(s.drop_last(), c)
    }
}

proof fn lemma_last_index_bounds(s: Seq<char>, c: char)
    ensures
        -1 <= last_index_of(s, c) < s.len(),
        last_index_of(s, c) >= 0 ==> s[last_index_of(s, c)] == c,
    decreases s.len(),
{
    if s.len() > 0 && s.last() != c {
        lemma_last_index_bounds(s.drop_last(), c);
    }
}

/// The extension of a file name: what follows the last `.`, provided
/// something precedes that dot (so `.gitignore` has none).
pub open spec fn file_extension(name: Seq<char>) -> Option<Seq<char>> {
    let i = last_index_of(name, '.');
    if i <= 0 {
        None
    } else {
        Some(name.skip(i + 1))
    }
}

/// The extension of `filename`, as [`file_extension`] defines it.
pub fn extension_of(filename: &str) -> (r: Option<String>)
    ensures
        match file_extension(filename@) {
            Some(e) => r is Some && r->0@ == e,
            None => r is None,
        },
{
    let v = chars_of(filename);
    let mut i: usize = v.len();
    assert(v@.take(v.len() as int) == v@);
    while i > 0 && v[i - 1] != '.'
        invariant
            0 <= i <= v.len(),
            last_index_of(v@, '.') == last_index_of(v@.take(i as int), '.'),
        decreases i,
    {
        assert(v@.take(i as int).drop_last() == v@.take(i - 1));
        i = i - 1;
    }
    assert(v@.take(v.len() as int) == v@) ;
    if i <= 1 {
        proof {
            if i == 1 {
                assert(v@.take(1).last() == '.');
            } else {
                assert(v@.take(0).len() == 0);
            }
        }
        return None;
    }
    assert(v@.take(i as int).last() == '.');
    let mut e: Vec<char> = Vec::new();
    let mut k: usize = i;
    while k < v.len()
        invariant
            i <= k <= v.len(),
            e@ == v@.subrange(i as int, k as int),
        decreases v.len() - k,
    {
        e.push(v[k]);
        assert(v@.subrange(i as int, k as int).push(v@[k as int]) =~= v@.subrange(i as int, k + 1));
        k = k + 1;
    }
    assert(e@ =~= v@.skip(i as int));
    Some(string_from_chars(&e))
}

/// The decimal digit for `d < 10`.
pub open spec fn digit_char(d: int) -> char {
    ((d + 48) as u32) as char
}

/// The decimal representation of `n`, without leading zeros.
pub open spec fn decimal(n: nat) -> Seq<char>
    decreases n,
{
    if n < 10 {
        seq![digit_char(n as int)]
    } else {
        decimal(n / 10).push(digit_char((n % 10) as int))
    }
}

/// The number that the decimal digits `s` spell, most significant first.
pub open spec fn decimal_value(s: Seq<char>) -> int
    decreases s.len(),
{
    if s.len() == 0 {
        0
    } else {
        decimal_value(s.drop_last()) * 10 + (s.last() as int - 48)
    }
}

/// A `Content-Length` value reads back as the length it was made from:
/// it is made of ASCII digits only, has no leading zero (unless it is
/// `0`), and its digits spell `n`.
pub proof fn law_decimal_reads_back(n: nat)
    ensures
        decimal(n).len() >= 1,
        forall|i: int| 0 <= i < decimal(n).len() ==> 48 <= (#[trigger] decimal(n)[i]) as int <= 57,
        n > 0 ==> decimal(n)[0] != '0',
        decimal(n).len() > 1 ==> decimal(n)[0] != '0',
        decimal_value(decimal(n)) == n,
    decreases n,
{
    let last = digit_char((n % 10) as int);
    assert(last as int == (n % 10) + 48);
    let d = decimal(n);
    if n >= 10 {
        law_decimal_reads_back(n / 10);
        assert(d.drop_last() == decimal(n / 10));
        assert(d.last() == last);
        assert(d[0] == decimal(n / 10)[0]);
        assert(n == (n / 10) * 10 + n % 10);
        assert(decimal_value(d) == decimal_value(d.drop_last()) * 10 + (d.last() as int - 48));
    } else {
        assert(d == seq![last]);
        assert(d.drop_last() =~= Seq::<char>::empty());
        assert(n % 10 == n);
        assert(decimal_value(d) == decimal_value(d.drop_last()) * 10 + (d.last() as int - 48));
    }
}

fn decimal_chars(n: usize) -> (v: Vec<char>)
    ensures
        v@ == decimal(n as nat),
    decreases n,
{
    let d = ((n % 10) as u8 + 48) as char;
    assert(d == digit_char((n % 10) as int));
    if n < 10 {
        let mut v = Vec::new();
        v.push(d);
        assert(v@ =~= seq![digit_char(n as int)]);
        v
    } else {
        let mut v = decimal_chars(n / 10);
        v.push(d);
        v
    }
}

/// A `Content-Length` value: the decimal representation of `len`.
pub fn content_length_header(len: usize) -> (s: String)
    ensures
        s@ == decimal(len as nat),
{
    string_from_chars(&decimal_chars(len))
}

/// The SHA-256 digest of `data`.
pub uninterp spec fn sha256(data: Seq<u8>) -> Seq<u8>;

/// SHA-256 of `data`.
///
/// Calls `sha2::Sha256::digest`. The contract claims that the result is
/// the digest of `data` (named [`sha256`]) and that it is 32 bytes long,
/// the output size the crate defines for SHA-256.
#[verifier::external_body]
pub(crate) fn sha256_digest(data: &[u8]) -> (d: Vec<u8>)
    ensures
        d@ == sha256(data@),
        d@.len() == 32,
{
    <sha2::Sha256 as sha2::Digest>::digest(data).to_vec()
}

/// The lower-case hexadecimal digit for `d < 16`.
pub open spec fn hex_char(d: int) -> char {
    if d < 10 {
        ((d + 48) as u32) as char
    } else {
        ((d - 10 + 97) as u32) as char
    }
}

/// Lower-case hexadecimal encoding of `b`, two digits per byte.
pub open spec fn hex_lower(b: Seq<u8>) -> Seq<char>
    decreases b.len(),
{
    if b.len() == 0 {
        Seq::empty()
    } else {
        hex_lower(b.drop_last()) + seq![hex_char((b.last() / 16) as int), hex_char((b.last() % 16) as int)]
    }
}

/// The weak `ETag` for a digest: `W/"…"` around the lower-case hex of
/// its first 16 bytes.
pub open spec fn etag_from_digest(digest: Seq<u8>) -> Seq<char> {
    "W/\""@ + hex_lower(digest.take(16)) + "\""@
}

/// The value of a lower-case hexadecimal digit; `None` for anything else
/// (upper case included).
pub open spec fn lower_hex_value(c: char) -> Option<int> {
    let n = c as int;
    if 48 <= n <= 57 {
        Some(n - 48)
    } else if 97 <= n <= 102 {
        Some(n - 87)
    } else {
        None
    }
}

/// The byte that two lower-case hexadecimal digits spell.
pub open spec fn hex_pair_value(hi: char, lo: char) -> Option<int> {
    match (lower_hex_value(hi), lower_hex_value(lo)) {
        (Some(h), Some(l)) => Some(h * 16 + l),
        _ => None,
    }
}

proof fn lemma_hex_char_value(d: int)
    requires
        0 <= d < 16,
    ensures
        lower_hex_value(hex_char(d)) == Some(d),
{
    if d < 10 {
        assert(hex_char(d) as int == d + 48);
    } else {
        assert(hex_char(d) as int == d - 10 + 97);
    }
}

proof fn lemma_hex_lower_spells(b: Seq<u8>)
    ensures
        hex_lower(b).len() == 2 * b.len(),
        forall|i: int| 0 <= i < b.len() ==> hex_pair_value(hex_lower(b)[2 * i], hex_lower(b)[2 * i + 1])
            == Some(#[trigger] b[i] as int),
    decreases b.len(),
{
    if b.len() > 0 {
        lemma_hex_lower_spells(b.drop_last());
        let x = b.last();
        lemma_hex_char_value((x / 16) as int);
        lemma_hex_char_value((x % 16) as int);
        let h = hex_lower(b);
        let p = hex_lower(b.drop_last());
        assert(h == p + seq![hex_char((x / 16) as int), hex_char((x % 16) as int)]);
        assert forall|i: int| 0 <= i < b.len() implies hex_pair_value(h[2 * i], h[2 * i + 1])
            == Some(#[trigger] b[i] as int) by {
            if i < b.len() - 1 {
                assert(b.drop_last()[i] == b[i]);
                assert(h[2 * i] == p[2 * i]);
                assert(h[2 * i + 1] == p[2 * i + 1]);
            } else {
                assert(h[2 * i] == hex_char((x / 16) as int));
                assert(h[2 * i + 1] == hex_char((x % 16) as int));
                assert((x / 16) * 16 + x % 16 == x);
            }
        }
    }
}

/// The weak ETag spells the first 16 bytes of the digest: `W/"`, then two
/// lower-case hexadecimal digits per byte, most significant first, then
/// `"`; 36 characters in all.
pub proof fn law_etag_spells_digest(d: Seq<u8>)
    requires
        d.len() >= 16,
    ensures
        etag_from_digest(d).len() == 36,
        etag_from_digest(d).take(3) == "W/\""@,
        etag_from_digest(d)[35] == '"',
        forall|i: int| 0 <= i < 16 ==> hex_pair_value(etag_from_digest(d)[3 + 2 * i], etag_from_digest(d)[4 + 2 * i])
            == Some(#[trigger] d[i] as int),
{
    reveal_strlit("W/\"");
    reveal_strlit("\"");
    let t = d.take(16);
    lemma_hex_lower_spells(t);
    let e = etag_from_digest(d);
    let h = hex_lower(t);
    assert(e.take(3) =~= "W/\""@);
    assert forall|i: int| 0 <= i < 16 implies hex_pair_value(e[3 + 2 * i], e[4 + 2 * i])
        == Some(#[trigger] d[i] as int) by {
        assert(t[i] == d[i]);
        assert(e[3 + 2 * i] == h[2 * i]);
        assert(e[4 + 2 * i] == h[2 * i + 1]);
    }
}

/// The weak `ETag` of a body: the one for its SHA-256 digest.
pub open spec fn etag_of(body: Seq<u8>) -> Seq<char> {
    etag_from_digest(sha256(body))
}

fn hex_digit(d: u8) -> (c: char)
    requires
        d < 16,
    ensures
        c == hex_char(d as int),
{
    if d < 10 {
        (d + 48) as char
    } else {
        (d - 10 + 97) as char
    }
}

/// The weak `ETag` for a SHA-256 `digest`, truncated to 16 bytes (32 hex
/// characters).
pub fn etag_for_digest(digest: &[u8]) -> (s: String)
    requires
        digest@.len() >= 16,
    ensures
        s@ == etag_from_digest(digest@),
{
    let mut s = String::new();
    s.append("W/\"");
    let ghost start = s@;
    let mut i: usize = 0;
    while i < 16
        invariant
            0 <= i <= 16,
            digest@.len() >= 16,
            s@ == start + hex_lower(digest@.take(i as int)),
        decreases 16 - i,
    {
        let b = digest[i];
        push_char(&mut s, hex_digit(b / 16));
        push_char(&mut s, hex_digit(b % 16));
        assert(digest@.take(i + 1).drop_last() == digest@.take(i as int));
        assert(digest@.take(i + 1).last() == b);
        assert(s@ =~= start + hex_lower(digest@.take(i + 1)));
        i = i + 1;
    }
    s.append("\"");
    s
}

/// Compute the weak `ETag` of `body` from its SHA-256 digest, truncated
/// to 16 bytes (32 hex characters).
pub fn compute_etag(body: &[u8]) -> (s: String)
    ensures
        s@ == etag_of(body@),
{
    let digest = sha256_digest(body);
    etag_for_digest(digest.as_slice())
}

/// Largest body that is pre-compressed (1 MiB); bounds the worst-case
/// cost of cache population at zstd level 19.
pub const MAX_PRECOMPRESS_BYTES: usize = 1 << 20;

/// The zstd encoding of `data` at `level`, or `None` when the encoder
/// reports an error.
pub uninterp spec fn zstd_encoded(data: Seq<u8>, level: i32) -> Option<Seq<u8>>;

/// The bytes of an optional buffer.
pub open spec fn opt_bytes(o: Option<Vec<u8>>) -> Option<Seq<u8>> {
    match o {
        Some(v) => Some(v@),
        None => None,
    }
}

/// zstd-encodes `data` at `level`.
///
/// Calls `zstd::stream::encode_all` over a cursor on `data`. The contract
/// claims only that the result, with an error mapped to `None`, is the
/// one named [`zstd_encoded`] for these arguments.
#[verifier::external_body]
fn zstd_encode_all(data: &[u8], level: i32) -> (r: Option<Vec<u8>>)
    ensures
        opt_bytes(r) == zstd_encoded(data@, level),
{
    zstd::stream::encode_all(std::io::Cursor::new(data), level).ok()
}

/// Compress `body` with zstd (level 19); `None` for inputs larger than
/// [`MAX_PRECOMPRESS_BYTES`] or when the encoder fails.
pub fn compress_zstd(body: &[u8]) -> (r: Option<Vec<u8>>)
    ensures
        body@.len() > MAX_PRECOMPRESS_BYTES ==> r is None,
        body@.len() <= MAX_PRECOMPRESS_BYTES ==> opt_bytes(r) == zstd_encoded(body@, 19),
{
    if body.len() > MAX_PRECOMPRESS_BYTES {
        return None;
    }
    zstd_encode_all(body, 19)
}

} // verus!
