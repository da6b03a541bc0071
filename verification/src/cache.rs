//! Lookup of cache keys in an in-memory page cache, and the clean-URL
//! fallback chains used by both read surfaces.
use std::collections::HashMap;

use vstd::prelude::*;

use crate::content::last_index_of;
use crate::text::chars_of;

verus! {

broadcast use vstd::string::group_string_axioms;

/// Some key of `m` reads as `key`.
pub open spec fn present<V>(m: Map<String, V>, key: Seq<char>) -> bool {
    exists|k: String| m.contains_key(k) && k@ == key
}

/// `v` is stored in `m` under a key that reads as `key`.
pub open spec fn stored_under<V>(m: Map<String, V>, key: Seq<char>, v: V) -> bool {
    exists|k: String| m.contains_key(k) && k@ == key && m[k] == v
}

/// Looks `key` up in `cache`.
///
/// Calls `HashMap::get` with the key borrowed as `&str`. The contract
/// claims that a value is found exactly when some stored key reads as
/// `key`, and that a found value is stored under such a key.
#[verifier::external_body]
pub(crate) fn cache_get<'a, V>(cache: &'a HashMap<String, V>, key: &str) -> (r: Option<&'a V>)
    ensures
        r is Some <==> present(cache@, key@),
        r matches Some(v) ==> stored_under(cache@, key@, *v),
{
    cache.get(key)
}

/// The keys of `cache`, in the map's walk order.
///
/// Calls `HashMap::keys` and clones each key. The walk order depends on
/// the map's per-process hasher and is not stated; the contract claims
/// that every listed key is stored and every stored key is listed.
#[verifier::external_body]
pub(crate) fn cache_keys<V>(cache: &HashMap<String, V>) -> (keys: Vec<String>)
    ensures
        forall|i: int| 0 <= i < keys@.len() ==> present(cache@, #[trigger] keys@[i]@),
        forall|k: String| #[trigger] cache@.contains_key(k) ==> exists|i: int|
            0 <= i < keys@.len() && keys@[i]@ == k@,
{
    cache.keys().cloned().collect()
}

/// Stores `v` under `key` unless some key reading as `key` is stored.
///
/// Calls `HashMap::entry` and `Entry::or_insert`. The contract claims that
/// the map is unchanged when the key is present, and otherwise gains
/// exactly `key` with `v`.
#[verifier::external_body]
pub(crate) fn cache_insert_absent<V>(cache: &mut HashMap<String, V>, key: String, v: V)
    ensures
        present(old(cache)@, key@) ==> final(cache)@ == old(cache)@,
        !present(old(cache)@, key@) ==> final(cache)@ == old(cache)@.insert(key, v),
{
    cache.entry(key).or_insert(v);
}

/// The first candidate key present in `m`, by index.
pub open spec fn first_present<V>(m: Map<String, V>, cands: Seq<Seq<char>>, i: int) -> bool {
    &&& 0 <= i < cands.len()
    &&& present(m, cands[i])
    &&& forall|j: int| 0 <= j < i ==> !present(m, #[trigger] cands[j])
}

/// What resolving `cands` in order against `m` may return: the value of
/// the first present candidate, or `None` when none is present.
pub open spec fn resolves_to<V>(m: Map<String, V>, cands: Seq<Seq<char>>, r: Option<V>) -> bool {
    match r {
        Some(v) => exists|i: int| first_present(m, cands, i) && stored_under(m, cands[i], v),
        None => forall|j: int| 0 <= j < cands.len() ==> !present(m, #[trigger] cands[j]),
    }
}

/// Resolve candidate keys in order: the value under the first one
/// present in `cache`.
pub fn resolve_first<'a, V>(cache: &'a HashMap<String, V>, cands: &Vec<String>) -> (r: Option<&'a V>)
    ensures
        resolves_to(
            cache@,
            cands@.map_values(|c: String| c@),
            match r {
                Some(v) => Some(*v),
                None => None,
            },
        ),
{
    let ghost cv = cands@.map_values(|c: String| c@);
    let mut i: usize = 0;
    while i < cands.len()
        invariant
            0 <= i <= cands.len(),
            cv == cands@.map_values(|c: String| c@),
            forall|j: int| 0 <= j < i ==> !present(cache@, #[trigger] cv[j]),
        decreases cands.len() - i,
    {
        assert(cands@[i as int]@ == cv[i as int]);
        if let Some(v) = cache_get(cache, cands[i].as_str()) {
            assert(first_present(cache@, cv, i as int));
            return Some(v);
        }
        i = i + 1;
    }
    None
}

/// The last `/`-separated component of `key` holds a `.`.
pub open spec fn has_ext(key: Seq<char>) -> bool {
    key.skip(last_index_of(key, '/') + 1).contains('.')
}

/// `s` ends with `suffix`.
pub open spec fn ends_with(s: Seq<char>, suffix: Seq<char>) -> bool {
    s.len() >= suffix.len() && s.skip(s.len() - suffix.len()) == suffix
}

proof fn lemma_last_index_bounds(s: Seq<char>, c: char)
    ensures
        -1 <= last_index_of(s, c) < s.len(),
    decreases s.len(),
{
    if s.len() > 0 && s.last() != c {
        lemma_last_index_bounds(s.drop_last(), c);
    }
}

/// Check if a key has a file extension: a `.` in its last path
/// component (so `v2.0/about` has none).
pub fn has_extension(key: &str) -> (r: bool)
    ensures
        r == has_ext(key@),
{
    let v = chars_of(key);
    let mut i: usize = v.len();
    assert(v@.take(v.len() as int) == v@);
    while i > 0 && v[i - 1] != '/'
        invariant
            0 <= i <= v.len(),
            v@ == key@,
            last_index_of(v@, '/') == last_index_of(v@.take(i as int), '/'),
            forall|k: int| i <= k < v.len() ==> v@[k] != '/',
        decreases i,
    {
        assert(v@.take(i as int).drop_last() == v@.take(i - 1));
        i = i - 1;
    }
    proof {
        if i == 0 {
            assert(v@.take(0).len() == 0);
        } else {
            assert(v@.take(i as int).last() == '/');
        }
    }
    let mut k: usize = i;
    while k < v.len()
        invariant
            i <= k <= v.len(),
            v@ == key@,
            last_index_of(v@, '/') + 1 == i,
            forall|j: int| i <= j < k ==> v@[j] != '.',
        decreases v.len() - k,
    {
        if v[k] == '.' {
            assert(v@.skip(i as int)[k - i] == '.');
            return true;
        }
        k = k + 1;
    }
    assert forall|j: int| 0 <= j < v@.skip(i as int).len() implies v@.skip(i as int)[j] != '.' by {
        assert(v@.skip(i as int)[j] == v@[i + j]);
    }
    false
}

/// Whether `s` ends with `suffix`.
pub fn ends_with_str(s: &str, suffix: &str) -> (r: bool)
    ensures
        r == ends_with(s@, suffix@),
{
    let a = chars_of(s);
    let b = chars_of(suffix);
    if a.len() < b.len() {
        return false;
    }
    let off = a.len() - b.len();
    let mut i: usize = 0;
    while i < b.len()
        invariant
            0 <= i <= b.len(),
            off == a.len() - b.len(),
            a@ == s@,
            b@ == suffix@,
            forall|j: int| 0 <= j < i ==> a@[off + j] == b@[j],
        decreases b.len() - i,
    {
        if a[off + i] != b[i] {
            assert(s@.skip(off as int)[i as int] != suffix@[i as int]);
            return false;
        }
        i = i + 1;
    }
    assert(s@.skip(off as int) =~= suffix@);
    true
}

/// Whether `s` reads exactly `t`.
pub fn str_eq(s: &str, t: &str) -> (r: bool)
    ensures
        r == (s@ == t@),
{
    let a = chars_of(s);
    let b = chars_of(t);
    if a.len() != b.len() {
        return false;
    }
    let mut i: usize = 0;
    while i < a.len()
        invariant
            0 <= i <= a.len(),
            a.len() == b.len(),
            a@ == s@,
            b@ == t@,
            forall|j: int| 0 <= j < i ==> a@[j] == b@[j],
        decreases a.len() - i,
    {
        if a[i] != b[i] {
            assert(s@[i as int] != t@[i as int]);
            return false;
        }
        i = i + 1;
    }
    assert(a@ =~= b@);
    true
}

/// `key` followed by `suffix`, as a new string.
pub fn append_suffix(key: &str, suffix: &str) -> (s: String)
    ensures
        s@ == key@ + suffix@,
{
    let mut s = key.to_owned();
    s.append(suffix);
    s
}

/// The fallback chain of the serve surface for `key`: the key itself;
/// then `{key}/index.html` when the path had a trailing slash or the key
/// has no extension (unless the key already is, or ends in,
/// `index.html`); then `{key}.html` when there was no trailing slash and
/// no extension.
pub open spec fn serve_candidates(key: Seq<char>, trailing: bool) -> Seq<Seq<char>> {
    let no_ext = !has_ext(key);
    let with_index = (trailing || no_ext) && key != "index.html"@ && !ends_with(key, "/index.html"@);
    let with_html = !trailing && no_ext;
    seq![key] + (if with_index {
        seq![key + "/index.html"@]
    } else {
        Seq::empty()
    }) + (if with_html {
        seq![key + ".html"@]
    } else {
        Seq::empty()
    })
}

/// The fallback chain of the serve surface, as strings.
pub fn serve_candidate_keys(key: &str, has_trailing_slash: bool) -> (c: Vec<String>)
    ensures
        c@.map_values(|s: String| s@) == serve_candidates(key@, has_trailing_slash),
{
    let no_ext = !has_extension(key);
    let mut c: Vec<String> = Vec::new();
    c.push(key.to_owned());
    let with_index = (has_trailing_slash || no_ext) && !str_eq(key, "index.html") && !ends_with_str(key, "/index.html");
    if with_index {
        c.push(append_suffix(key, "/index.html"));
    }
    if !has_trailing_slash && no_ext {
        c.push(append_suffix(key, ".html"));
    }
    assert(c@.map_values(|s: String| s@) =~= serve_candidates(key@, has_trailing_slash));
    c
}

/// Resolve a cache key through the serve surface's fallback chain
/// ([`serve_candidates`]): the page under the first candidate present.
pub fn resolve_cache_key<'a, V>(cache: &'a HashMap<String, V>, key: &str, has_trailing_slash: bool) -> (r: Option<&'a V>)
    ensures
        resolves_to(
            cache@,
            serve_candidates(key@, has_trailing_slash),
            match r {
                Some(v) => Some(*v),
                None => None,
            },
        ),
{
    let cands = serve_candidate_keys(key, has_trailing_slash);
    resolve_first(cache, &cands)
}


/// `s` without trailing `/` characters.
pub open spec fn trim_trailing_slashes(s: Seq<char>) -> Seq<char>
    decreases s.len(),
{
    if s.len() > 0 && s.last() == '/' {
        trim_trailing_slashes(s.drop_last())
    } else {
        s
    }
}

/// The fallback chain of the projection surface for a snapshot key:
/// the key itself; then the directory index of the key with trailing
/// slashes trimmed (the root index for an all-slash key) when the key had
/// a trailing slash or no extension, unless it already names an
/// `index.html`; then `{trimmed}.html` when there was no trailing slash,
/// no extension, and something left after trimming.
pub open spec fn projection_candidates(key: Seq<char>) -> Seq<Seq<char>> {
    let trimmed = trim_trailing_slashes(key);
    let trailing = key.len() > 1 && key.last() == '/';
    let no_ext = !has_ext(trimmed);
    let with_index = (trailing || no_ext) && trimmed != "index.html"@ && !ends_with(
        trimmed,
        "/index.html"@,
    );
    let index_key = if trimmed.len() == 0 {
        "index.html"@
    } else {
        trimmed + "/index.html"@
    };
    let with_html = !trailing && no_ext && trimmed.len() > 0;
    seq![key] + (if with_index {
        seq![index_key]
    } else {
        Seq::empty()
    }) + (if with_html {
        seq![trimmed + ".html"@]
    } else {
        Seq::empty()
    })
}

/// The fallback chain of the projection surface, as strings.
pub fn projection_candidate_keys(key: &str) -> (c: Vec<String>)
    ensures
        c@.map_values(|s: String| s@) == projection_candidates(key@),
{
    let v = chars_of(key);
    let mut n: usize = v.len();
    assert(v@.take(v.len() as int) == v@);
    while n > 0 && v[n - 1] == '/'
        invariant
            0 <= n <= v.len(),
            v@ == key@,
            trim_trailing_slashes(v@) == trim_trailing_slashes(v@.take(n as int)),
        decreases n,
    {
        assert(v@.take(n as int).drop_last() == v@.take(n - 1));
        n = n - 1;
    }
    let mut tv: Vec<char> = Vec::new();
    let mut i: usize = 0;
    while i < n
        invariant
            0 <= i <= n,
            n <= v.len(),
            tv@ == v@.take(i as int),
        decreases n - i,
    {
        tv.push(v[i]);
        assert(v@.take(i as int).push(v@[i as int]) == v@.take(i + 1));
        i = i + 1;
    }
    assert(trim_trailing_slashes(v@.take(n as int)) == v@.take(n as int));
    let trimmed = crate::text::string_from_chars(&tv);
    let trailing = v.len() > 1 && v[v.len() - 1] == '/';
    let no_ext = !has_extension(trimmed.as_str());
    let mut c: Vec<String> = Vec::new();
    c.push(key.to_owned());
    if (trailing || no_ext) && !str_eq(trimmed.as_str(), "index.html") && !ends_with_str(
        trimmed.as_str(),
        "/index.html",
    ) {
        if tv.len() == 0 {
            c.push("index.html".to_owned());
        } else {
            c.push(append_suffix(trimmed.as_str(), "/index.html"));
        }
    }
    if !trailing && no_ext && tv.len() > 0 {
        c.push(append_suffix(trimmed.as_str(), ".html"));
    }
    assert(c@.map_values(|s: String| s@) =~= projection_candidates(key@));
    c
}

/// Resolve a snapshot key through the projection surface's fallback
/// chain ([`projection_candidates`]).
pub fn resolve_page<'a, V>(snapshot: &'a HashMap<String, V>, key: &str) -> (r: Option<&'a V>)
    ensures
        resolves_to(
            snapshot@,
            projection_candidates(key@),
            match r {
                Some(v) => Some(*v),
                None => None,
            },
        ),
{
    let cands = projection_candidate_keys(key);
    resolve_first(snapshot, &cands)
}

/// Every `.` of `key` is followed, later on, by a `/`: the last path
/// component has no extension.
pub open spec fn last_component_has_no_dot(key: Seq<char>) -> bool {
    forall|i: int| 0 <= i < key.len() && key[i] == '.' ==> exists|j: int| i < j < key.len() && key[j] == '/'
}

proof fn lemma_after_last_slash(s: Seq<char>, j: int)
    requires
        last_index_of(s, '/') < j < s.len(),
    ensures
        s[j] != '/',
    decreases s.len(),
{
    lemma_last_index_bounds(s, '/');
    if s.last() != '/' && j < s.len() - 1 {
        assert(last_index_of(s, '/') == last_index_of(s.drop_last(), '/'));
        lemma_after_last_slash(s.drop_last(), j);
        assert(s.drop_last()[j] == s[j]);
    }
}

proof fn lemma_no_ext(key: Seq<char>)
    requires
        last_component_has_no_dot(key),
    ensures
        !has_ext(key),
        key != "index.html"@,
        !ends_with(key, "/index.html"@),
{
    lemma_last_index_bounds(key, '/');
    let start = last_index_of(key, '/') + 1;
    let tail = key.skip(start);
    assert forall|k: int| 0 <= k < tail.len() implies tail[k] != '.' by {
        if tail[k] == '.' {
            let j = choose|j: int| start + k < j < key.len() && key[j] == '/';
            lemma_after_last_slash(key, j);
        }
    }
    reveal_strlit("index.html");
    reveal_strlit("/index.html");
    if key == "index.html"@ {
        assert(key[5] == '.');
        assert(!(exists|j: int| 5 < j < key.len() && key[j] == '/'));
    }
    if ends_with(key, "/index.html"@) {
        let n = key.len();
        assert(key.skip(n - 11)[6] == '.');
        assert(key[n - 5] == '.');
        assert forall|j: int| n - 5 < j < n implies key[j] != '/' by {
            assert(key[j] == key.skip(n - 11)[j - (n - 11)]);
        }
    }
}

/// A key without a trailing slash whose last component has no extension
/// falls back, on both surfaces, to its directory index and then to its
/// `.html` page, in that order; so a cache holding only `{key}.html`
/// serves it for `key`, however deeply the key is nested.
pub proof fn law_extensionless_keys_fall_back(key: Seq<char>)
    requires
        key.len() > 0,
        key.last() != '/',
        last_component_has_no_dot(key),
    ensures
        projection_candidates(key) == seq![key, key + "/index.html"@, key + ".html"@],
        serve_candidates(key, false) == seq![key, key + "/index.html"@, key + ".html"@],
{
    lemma_no_ext(key);
    assert(trim_trailing_slashes(key) == key);
    assert(projection_candidates(key) =~= seq![key, key + "/index.html"@, key + ".html"@]);
    assert(serve_candidates(key, false) =~= seq![key, key + "/index.html"@, key + ".html"@]);
}

/// A key with a trailing slash (over an extensionless last component)
/// falls back to its directory index only, on both surfaces: never to a
/// `.html` page.
pub proof fn law_trailing_slash_keys_fall_back(stem: Seq<char>)
    requires
        stem.len() > 0,
        stem.last() != '/',
        last_component_has_no_dot(stem),
    ensures
        projection_candidates(stem + "/"@) == seq![stem + "/"@, stem + "/index.html"@],
        serve_candidates(stem, true) == seq![stem, stem + "/index.html"@],
{
    lemma_no_ext(stem);
    reveal_strlit("/");
    let key = stem + "/"@;
    assert(key.drop_last() =~= stem);
    assert(trim_trailing_slashes(stem) == stem);
    assert(trim_trailing_slashes(key) == stem);
    assert(projection_candidates(key) =~= seq![key, stem + "/index.html"@]);
    assert(serve_candidates(stem, true) =~= seq![stem, stem + "/index.html"@]);
}

} // verus!
