//! Path-segment validation and request-path normalisation.
//!
//! Pure functions over untrusted text: a segment is checked before it is
//! interpolated into a URL or a cache key, and an inbound request path is
//! turned into a clean relative cache key or rejected.
use std::borrow::Cow;

use vstd::prelude::*;
use vstd::string::StringSliceAdditionalSpecFns;
use vstd::utf8::{
    decode_utf8, encode_scalar, encode_utf8, has_width_1_encoding, has_width_2_encoding,
    has_width_3_encoding, valid_utf8,
};

use crate::text::{
    chars_of, contains_char, contains_dot_dot, has_dot_dot, push_char, string_from_chars,
};

verus! {

broadcast use vstd::string::group_string_axioms;

/// Error returned when a path segment fails validation.
#[derive(Debug, Clone)]
#[non_exhaustive]
pub struct PathSegmentError {
    /// The field name that failed validation (e.g., `"repo_name"`).
    pub field: String,
    /// Human-readable reason for rejection.
    pub reason: String,
}

impl PathSegmentError {
    /// Create a new `PathSegmentError`.
    pub fn new(field: &str, reason: &str) -> (e: Self)
        ensures
            e.field@ == field@,
            e.reason@ == reason@,
    {
        PathSegmentError { field: field.to_owned(), reason: reason.to_owned() }
    }

    /// The rendered message, `"{field}: {reason}"`.
    pub fn to_string(&self) -> (s: String)
        ensures
            s@ == self.field@ + ": "@ + self.reason@,
    {
        let mut s = self.field.clone();
        s.append(": ");
        s.append(self.reason.as_str());
        s
    }
}

/// `c` is a Unicode control character (general category `Cc`), which is
/// what `char::is_control` tests.
pub open spec fn is_control_char(c: char) -> bool {
    (c as u32) <= 0x1f || (0x7f <= (c as u32) && (c as u32) <= 0x9f)
}

/// `s` holds a control character.
pub open spec fn has_control_char(s: Seq<char>) -> bool {
    exists|i: int| 0 <= i < s.len() && is_control_char(#[trigger] s[i])
}

/// `s` holds a traversal sequence, a slash, a backslash or a URI
/// delimiter.
pub open spec fn has_path_delimiter(s: Seq<char>) -> bool {
    has_dot_dot(s) || s.contains('/') || s.contains('\\') || s.contains('?') || s.contains('#')
}

/// `s` is accepted as a path segment.
pub open spec fn is_valid_segment(s: Seq<char>) -> bool {
    s.len() > 0 && !has_path_delimiter(s) && !has_control_char(s)
}

/// A path segment is accepted exactly when it is non-empty and no
/// character of it is a slash, a backslash, `?`, `#` or a control
/// character (code points up to U+001F and U+007F to U+009F), and no two
/// consecutive characters are `..`.
pub proof fn law_segment_rules(s: Seq<char>)
    ensures
        is_valid_segment(s) <==> (s.len() > 0 && (forall|i: int|
            0 <= i < s.len() ==> #[trigger] s[i] != '/' && s[i] != '\\' && s[i] != '?' && s[i] != '#'
                && !((s[i] as u32) <= 0x1f || (0x7f <= (s[i] as u32) && (s[i] as u32) <= 0x9f)))
            && (forall|i: int| 0 <= i < s.len() - 1 ==> !(#[trigger] s[i] == '.' && s[i + 1] == '.'))),
{
    if s.contains('/') {
        let i = choose|i: int| 0 <= i < s.len() && s[i] == '/';
        assert(s[i] == '/');
    }
    if s.contains('\\') {
        let i = choose|i: int| 0 <= i < s.len() && s[i] == '\\';
        assert(s[i] == '\\');
    }
    if s.contains('?') {
        let i = choose|i: int| 0 <= i < s.len() && s[i] == '?';
        assert(s[i] == '?');
    }
    if s.contains('#') {
        let i = choose|i: int| 0 <= i < s.len() && s[i] == '#';
        assert(s[i] == '#');
    }
}

/// At most the first 100 characters of `s`.
pub open spec fn first_hundred(s: Seq<char>) -> Seq<char> {
    if s.len() <= 100 {
        s
    } else {
        s.take(100)
    }
}

/// The rejection reason given for an invalid segment `value` of field
/// `field`; the first failing check decides.
pub open spec fn segment_rejection(value: Seq<char>, field: Seq<char>) -> Seq<char> {
    if value.len() == 0 {
        field + " is empty"@
    } else if has_path_delimiter(value) {
        field + " contains invalid path characters: "@ + first_hundred(value)
    } else {
        field + " contains control characters"@
    }
}

fn has_control(v: &Vec<char>) -> (r: bool)
    ensures
        r == has_control_char(v@),
{
    let mut i: usize = 0;
    while i < v.len()
        invariant
            0 <= i <= v.len(),
            forall|j: int| 0 <= j < i ==> !is_control_char(#[trigger] v@[j]),
        decreases v.len() - i,
    {
        let c = v[i] as u32;
        if c <= 0x1f || (0x7f <= c && c <= 0x9f) {
            assert(is_control_char(v@[i as int]));
            return true;
        }
        i = i + 1;
    }
    false
}

/// Validate and sanitize a path segment from untrusted data.
///
/// Rejects values containing path traversal sequences (`..`), slashes,
/// backslashes, URI delimiters (`?`, `#`), control characters, or empty
/// strings. Returns the value itself, borrowed, when it is accepted.
pub fn sanitize_path_segment<'a>(value: &'a str, field_name: &str) -> (r: Result<
    Cow<'a, str>,
    PathSegmentError,
>)
    ensures
        r is Ok <==> is_valid_segment(value@),
        r is Ok ==> (r matches Ok(Cow::Borrowed(b)) && b@ == value@),
        match r {
            Ok(v) => v@ == value@,
            Err(e) => e.field@ == field_name@ && e.reason@ == segment_rejection(
                value@,
                field_name@,
            ),
        },
{
    let v = chars_of(value);
    if v.len() == 0 {
        let mut reason = field_name.to_owned();
        reason.append(" is empty");
        return Err(PathSegmentError { field: field_name.to_owned(), reason });
    }
    if contains_dot_dot(&v) || contains_char(&v, '/') || contains_char(&v, '\\') || contains_char(
        &v,
        '?',
    ) || contains_char(&v, '#') {
        let mut reason = field_name.to_owned();
        reason.append(" contains invalid path characters: ");
        let mut i: usize = 0;
        let ghost start = reason@;
        while i < v.len() && i < 100
            invariant
                0 <= i <= v.len(),
                i <= 100,
                reason@ == start + v@.take(i as int),
            decreases v.len() - i,
        {
            push_char(&mut reason, v[i]);
            assert(v@.take(i as int).push(v@[i as int]) == v@.take(i + 1));
            i = i + 1;
        }
        assert(v@.take(i as int) == first_hundred(v@));
        return Err(PathSegmentError { field: field_name.to_owned(), reason });
    }
    if has_control(&v) {
        let mut reason = field_name.to_owned();
        reason.append(" contains control characters");
        return Err(PathSegmentError { field: field_name.to_owned(), reason });
    }
    Ok(Cow::Borrowed(value))
}


/// `b` is an ASCII hexadecimal digit.
pub open spec fn is_hex_byte(b: u8) -> bool {
    (0x30 <= b && b <= 0x39) || (0x41 <= b && b <= 0x46) || (0x61 <= b && b <= 0x66)
}

/// The value of the hexadecimal digit `b`.
pub open spec fn hex_byte_value(b: u8) -> int {
    if 0x30 <= b && b <= 0x39 {
        b - 0x30
    } else if 0x41 <= b && b <= 0x46 {
        b - 0x41 + 10
    } else {
        b - 0x61 + 10
    }
}

/// Percent-decoding of `b`: every `%` followed by two hexadecimal digits
/// becomes the byte they spell; every other byte, a lone `%` included,
/// stays as it is.
pub open spec fn percent_decoded(b: Seq<u8>) -> Seq<u8>
    decreases b.len(),
{
    if b.len() == 0 {
        Seq::empty()
    } else if b[0] == 0x25u8 && b.len() >= 3 && is_hex_byte(b[1]) && is_hex_byte(b[2]) {
        seq![(hex_byte_value(b[1]) * 16 + hex_byte_value(b[2])) as u8] + percent_decoded(
            b.skip(3),
        )
    } else {
        seq![b[0]] + percent_decoded(b.skip(1))
    }
}

/// Percent-decodes `raw` and reads the bytes as UTF-8.
///
/// Calls `percent_encoding::percent_decode_str(raw).decode_utf8()`. The
/// contract claims that the result is present exactly when the decoded
/// bytes are well-formed UTF-8, and that it then holds the characters
/// they encode.
#[verifier::external_body]
fn percent_decode_utf8(raw: &str) -> (r: Option<String>)
    ensures
        match r {
            Some(s) => valid_utf8(percent_decoded(raw.spec_bytes())) && s@ == decode_utf8(
                percent_decoded(raw.spec_bytes()),
            ),
            None => !valid_utf8(percent_decoded(raw.spec_bytes())),
        },
{
    percent_encoding::percent_decode_str(raw).decode_utf8().ok().map(|c| c.into_owned())
}

/// The `/`-separated components of `s`, empty ones included, in order.
pub open spec fn split_slash(s: Seq<char>) -> Seq<Seq<char>>
    decreases s.len(),
{
    if s.len() == 0 {
        seq![Seq::empty()]
    } else {
        let prev = split_slash(s.drop_last());
        if s.last() == '/' {
            prev.push(Seq::empty())
        } else {
            prev.update(prev.len() - 1, prev.last().push(s.last()))
        }
    }
}

/// A component that survives normalisation: neither empty nor `.`.
pub open spec fn is_kept_segment(g: Seq<char>) -> bool {
    g.len() > 0 && g != seq!['.']
}

/// The components of `segs` that survive normalisation, in order.
pub open spec fn kept_segments(segs: Seq<Seq<char>>) -> Seq<Seq<char>>
    decreases segs.len(),
{
    if segs.len() == 0 {
        Seq::empty()
    } else {
        let prev = kept_segments(segs.drop_last());
        if is_kept_segment(segs.last()) {
            prev.push(segs.last())
        } else {
            prev
        }
    }
}

/// `segs` joined with `/` between neighbours.
pub open spec fn join_slash(segs: Seq<Seq<char>>) -> Seq<char>
    decreases segs.len(),
{
    if segs.len() == 0 {
        Seq::empty()
    } else if segs.len() == 1 {
        segs[0]
    } else {
        join_slash(segs.drop_last()) + seq!['/'] + segs.last()
    }
}

/// Some component of `segs` holds `..`.
pub open spec fn has_traversal_segment(segs: Seq<Seq<char>>) -> bool {
    exists|i: int| 0 <= i < segs.len() && has_dot_dot(#[trigger] segs[i])
}

/// Normalisation of already-decoded characters `d`: the cache key and
/// whether the path ended with a slash, or `None` when `d` holds a null
/// byte, a backslash, or a component with `..`. An empty key becomes
/// `index.html`.
pub open spec fn normalize_decoded(d: Seq<char>) -> Option<(Seq<char>, bool)> {
    if d.contains('\0') || d.contains('\\') || has_traversal_segment(split_slash(d)) {
        None
    } else {
        let key = join_slash(kept_segments(split_slash(d)));
        if key.len() == 0 {
            Some(("index.html"@, true))
        } else {
            Some((key, d.len() > 1 && d.last() == '/'))
        }
    }
}

/// Normalisation of the raw request path `raw`: `None` when its
/// percent-decoding is not UTF-8, else [`normalize_decoded`] of the
/// decoded characters.
pub open spec fn normalize_spec(raw: &str) -> Option<(Seq<char>, bool)> {
    let bytes = percent_decoded(raw.spec_bytes());
    if valid_utf8(bytes) {
        normalize_decoded(decode_utf8(bytes))
    } else {
        None
    }
}

/// Result of normalising a raw URI path.
///
/// Carries the clean cache lookup key and whether the original path had
/// a trailing slash — needed to choose the correct fallback strategy.
#[derive(Debug, Clone, PartialEq)]
pub struct NormalizedPath {
    /// Clean cache key (e.g., `"about"`, `"index.html"`, `"blog/post"`).
    pub key: String,
    /// Whether the original request path ended with `/`.
    pub has_trailing_slash: bool,
}

proof fn lemma_split_nonempty(s: Seq<char>)
    ensures
        split_slash(s).len() >= 1,
    decreases s.len(),
{
    if s.len() > 0 {
        lemma_split_nonempty(s.drop_last());
    }
}

fn split_components(d: &Vec<char>) -> (segs: Vec<Vec<char>>)
    ensures
        segs@.map_values(|g: Vec<char>| g@) == split_slash(d@),
{
    let mut done: Vec<Vec<char>> = Vec::new();
    let mut cur: Vec<char> = Vec::new();
    let mut i: usize = 0;
    while i < d.len()
        invariant
            0 <= i <= d.len(),
            done@.map_values(|g: Vec<char>| g@).push(cur@) == split_slash(d@.take(i as int)),
        decreases d.len() - i,
    {
        let ghost before = d@.take(i as int);
        assert(d@.take(i + 1).drop_last() == before);
        assert(d@.take(i + 1).last() == d@[i as int]);
        proof {
            lemma_split_nonempty(before);
        }
        let c = d[i];
        if c == '/' {
            let finished = cur;
            done.push(finished);
            cur = Vec::new();
            assert(done@.map_values(|g: Vec<char>| g@) == split_slash(before));
        } else {
            cur.push(c);
            assert(done@.map_values(|g: Vec<char>| g@).push(cur@) =~= split_slash(before).update(
                split_slash(before).len() - 1,
                split_slash(before).last().push(c),
            ));
        }
        i = i + 1;
    }
    assert(d@.take(d.len() as int) == d@);
    done.push(cur);
    done
}

/// Normalise a raw URI path into a safe cache lookup key.
///
/// Returns `None` (→ 400) if the path is not UTF-8 after
/// percent-decoding once, or contains a null byte, a backslash, or a
/// component holding `..`. Empty and `.` components are dropped
/// (collapsing `//`); the remaining ones are re-joined with `/`; an empty
/// result (root `/`) maps to `index.html`.
pub fn normalize_request_path(raw: &str) -> (r: Option<NormalizedPath>)
    ensures
        match normalize_spec(raw) {
            Some((key, slash)) => r is Some && r->0.key@ == key && r->0.has_trailing_slash == slash,
            None => r is None,
        },
{
    let decoded = match percent_decode_utf8(raw) {
        Some(s) => s,
        None => return None,
    };
    let d = chars_of(decoded.as_str());
    assert(normalize_spec(raw) == normalize_decoded(d@));
    if contains_char(&d, '\0') || contains_char(&d, '\\') {
        return None;
    }
    let has_trailing_slash = d.len() > 1 && d[d.len() - 1] == '/';
    let segs = split_components(&d);
    let ghost segv = segs@.map_values(|g: Vec<char>| g@);
    let mut key: Vec<char> = Vec::new();
    let mut j: usize = 0;
    while j < segs.len()
        invariant
            0 <= j <= segs.len(),
            segv == segs@.map_values(|g: Vec<char>| g@),
            segv == split_slash(d@),
            normalize_spec(raw) == normalize_decoded(d@),
            !d@.contains('\0') && !d@.contains('\\'),
            key@ == join_slash(kept_segments(segv.take(j as int))),
            kept_segments(segv.take(j as int)).len() == 0 ==> key@.len() == 0,
            kept_segments(segv.take(j as int)).len() > 0 ==> key@.len() > 0,
            forall|k: int| 0 <= k < j ==> !has_dot_dot(#[trigger] segv[k]),
        decreases segs.len() - j,
    {
        let seg = &segs[j];
        assert(seg@ == segv[j as int]);
        assert(segv.take(j + 1).drop_last() == segv.take(j as int));
        assert(segv.take(j + 1).last() == segv[j as int]);
        if contains_dot_dot(seg) {
            assert(has_traversal_segment(split_slash(d@)));
            assert(normalize_decoded(d@) is None);
            return None;
        }
        let keep = seg.len() > 0 && !(seg.len() == 1 && seg[0] == '.');
        assert(keep == is_kept_segment(seg@)) by {
            if seg@ == seq!['.'] {
                assert(seg@[0] == '.');
            }
            if seg.len() == 1 && seg[0] == '.' {
                assert(seg@ =~= seq!['.']);
            }
        }
        let ghost prev_kept = kept_segments(segv.take(j as int));
        if keep {
            assert(kept_segments(segv.take(j + 1)) == prev_kept.push(seg@));
            let ghost prev_key = key@;
            if key.len() > 0 {
                key.push('/');
            }
            let mut t: usize = 0;
            let ghost mid = key@;
            while t < seg.len()
                invariant
                    0 <= t <= seg.len(),
                    key@ == mid + seg@.take(t as int),
                decreases seg.len() - t,
            {
                key.push(seg[t]);
                assert(seg@.take(t as int).push(seg@[t as int]) == seg@.take(t + 1));
                t = t + 1;
            }
            assert(seg@.take(seg.len() as int) == seg@);
            proof {
                if prev_kept.len() == 0 {
                    assert(prev_kept.push(seg@).len() == 1);
                    assert(prev_kept.push(seg@)[0] == seg@);
                    assert(key@ =~= seg@);
                } else {
                    assert(prev_kept.push(seg@).drop_last() == prev_kept);
                    assert(key@ == prev_key + seq!['/'] + seg@);
                }
            }
            assert(key@ == join_slash(kept_segments(segv.take(j + 1))));
        } else {
            assert(kept_segments(segv.take(j + 1)) == prev_kept);
        }
        j = j + 1;
    }
    assert(segv.take(segs.len() as int) == segv);
    assert(!has_traversal_segment(split_slash(d@)));
    if key.len() == 0 {
        Some(NormalizedPath { key: "index.html".to_owned(), has_trailing_slash: true })
    } else {
        Some(NormalizedPath { key: string_from_chars(&key), has_trailing_slash })
    }
}


/// No character of any piece of `segs` is `c`.
pub open spec fn segments_avoid(segs: Seq<Seq<char>>, c: char) -> bool {
    forall|i: int, j: int| 0 <= i < segs.len() && 0 <= j < segs[i].len() ==> #[trigger] segs[i][j] != c
}

/// Every character of every piece of `segs` occurs in `d`.
pub open spec fn segments_within(segs: Seq<Seq<char>>, d: Seq<char>) -> bool {
    forall|i: int, j: int| 0 <= i < segs.len() && 0 <= j < segs[i].len() ==> d.contains(#[trigger] segs[i][j])
}

proof fn lemma_split_pieces(d: Seq<char>)
    ensures
        segments_avoid(split_slash(d), '/'),
        segments_within(split_slash(d), d),
    decreases d.len(),
{
    if d.len() > 0 {
        let p = d.drop_last();
        lemma_split_pieces(p);
        lemma_split_nonempty(p);
        let prev = split_slash(p);
        let cur = split_slash(d);
        assert forall|i: int, j: int| 0 <= i < cur.len() && 0 <= j < cur[i].len() implies #[trigger] cur[i][j]
            != '/' && d.contains(cur[i][j]) by {
            if d.last() == '/' {
                assert(cur == prev.push(Seq::empty()));
                assert(i < prev.len());
                assert(cur[i] == prev[i]);
                assert(p.contains(prev[i][j]));
                let k = choose|k: int| 0 <= k < p.len() && p[k] == prev[i][j];
                assert(d[k] == p[k]);
            } else if i < prev.len() - 1 {
                assert(cur[i] == prev[i]);
                assert(p.contains(prev[i][j]));
                let k = choose|k: int| 0 <= k < p.len() && p[k] == prev[i][j];
                assert(d[k] == p[k]);
            } else {
                assert(cur[i] == prev.last().push(d.last()));
                if j < prev.last().len() {
                    assert(cur[i][j] == prev[prev.len() - 1][j]);
                    assert(p.contains(prev[prev.len() - 1][j]));
                    let k = choose|k: int| 0 <= k < p.len() && p[k] == prev[prev.len() - 1][j];
                    assert(d[k] == p[k]);
                } else {
                    assert(cur[i][j] == d.last());
                    assert(d[d.len() - 1] == d.last());
                }
            }
        }
    }
}

proof fn lemma_kept_pieces(segs: Seq<Seq<char>>)
    ensures
        forall|i: int| 0 <= i < kept_segments(segs).len() ==> is_kept_segment(#[trigger] kept_segments(segs)[i])
            && exists|k: int| 0 <= k < segs.len() && segs[k] == kept_segments(segs)[i],
    decreases segs.len(),
{
    if segs.len() > 0 {
        lemma_kept_pieces(segs.drop_last());
        let prev = kept_segments(segs.drop_last());
        assert forall|i: int| 0 <= i < kept_segments(segs).len() implies is_kept_segment(
            #[trigger] kept_segments(segs)[i],
        ) && exists|k: int| 0 <= k < segs.len() && segs[k] == kept_segments(segs)[i] by {
            if i < prev.len() {
                assert(kept_segments(segs)[i] == prev[i]);
                let k = choose|k: int| 0 <= k < segs.drop_last().len() && segs.drop_last()[k] == prev[i];
                assert(segs[k] == segs.drop_last()[k]);
            } else {
                assert(kept_segments(segs)[i] == segs.last());
                assert(segs[segs.len() - 1] == segs.last());
            }
        }
    }
}

proof fn lemma_join_clean(segs: Seq<Seq<char>>)
    requires
        forall|i: int| 0 <= i < segs.len() ==> (#[trigger] segs[i]).len() > 0 && !has_dot_dot(segs[i]),
        segments_avoid(segs, '/'),
        segments_avoid(segs, '\0'),
        segments_avoid(segs, '\\'),
    ensures
        !has_dot_dot(join_slash(segs)),
        !join_slash(segs).contains('\0'),
        !join_slash(segs).contains('\\'),
        segs.len() > 0 ==> join_slash(segs).len() > 0 && join_slash(segs)[0] != '/' && join_slash(segs).last()
            != '/',
    decreases segs.len(),
{
    if segs.len() == 1 {
        let g = segs[0];
        assert(join_slash(segs) == g);
        assert(g[0] != '/');
        assert(g[g.len() - 1] != '/');
        assert forall|j: int| 0 <= j < g.len() implies #[trigger] g[j] != '\0' && g[j] != '\\' by {
            assert(segs[0][j] == g[j]);
        }
    } else if segs.len() > 1 {
        let pre = segs.drop_last();
        let last = segs.last();
        assert forall|i: int| 0 <= i < pre.len() implies (#[trigger] pre[i]).len() > 0 && !has_dot_dot(pre[i]) by {
            assert(pre[i] == segs[i]);
        }
        assert forall|i: int, j: int| 0 <= i < pre.len() && 0 <= j < pre[i].len() implies #[trigger] pre[i][j] != '/'
            && pre[i][j] != '\0' && pre[i][j] != '\\' by {
            assert(pre[i] == segs[i]);
        }
        lemma_join_clean(pre);
        let jn = join_slash(pre);
        let s = join_slash(segs);
        assert(s == jn + seq!['/'] + last);
        assert(last == segs[segs.len() - 1]);
        assert forall|j: int| 0 <= j < last.len() implies #[trigger] last[j] != '/' && last[j] != '\0' && last[j]
            != '\\' by {
            assert(segs[segs.len() - 1][j] == last[j]);
        }
        assert forall|i: int| 0 <= i && i + 1 < s.len() implies !(#[trigger] s[i] == '.' && s[i + 1] == '.') by {
            if i + 1 < jn.len() {
                assert(s[i] == jn[i] && s[i + 1] == jn[i + 1]);
            } else if i + 1 == jn.len() {
                assert(s[i + 1] == '/');
            } else if i == jn.len() {
                assert(s[i] == '/');
            } else {
                let k = i - jn.len() - 1;
                assert(s[i] == last[k] && s[i + 1] == last[k + 1]);
                assert(!has_dot_dot(last));
            }
        }
        assert forall|k: int| 0 <= k < s.len() implies #[trigger] s[k] != '\0' && s[k] != '\\' by {
            if k < jn.len() {
                assert(s[k] == jn[k]);
            } else if k > jn.len() {
                assert(s[k] == last[k - jn.len() - 1]);
            }
        }
        assert(s[0] == jn[0]);
        assert(s.last() == last[last.len() - 1]);
    }
}

/// A normalised cache key is safe to look up: it is never empty, never
/// starts or ends with `/`, and holds no `..`, null byte or backslash,
/// whatever the raw request path was.
pub proof fn law_normalized_key_is_traversal_free(raw: &str)
    ensures
        normalize_spec(raw) matches Some((key, _)) ==> {
            &&& key.len() > 0
            &&& key[0] != '/'
            &&& key.last() != '/'
            &&& !has_dot_dot(key)
            &&& !key.contains('\0')
            &&& !key.contains('\\')
        },
{
    let bytes = percent_decoded(raw.spec_bytes());
    if valid_utf8(bytes) {
        let d = decode_utf8(bytes);
        if normalize_decoded(d) is Some {
            let segs = split_slash(d);
            let kept = kept_segments(segs);
            lemma_split_pieces(d);
            lemma_kept_pieces(segs);
            assert forall|i: int| 0 <= i < kept.len() implies (#[trigger] kept[i]).len() > 0 && !has_dot_dot(
                kept[i],
            ) by {
                let k = choose|k: int| 0 <= k < segs.len() && segs[k] == kept[i];
                assert(!has_dot_dot(segs[k]));
            }
            assert forall|i: int, j: int| 0 <= i < kept.len() && 0 <= j < kept[i].len() implies #[trigger] kept[i][j]
                != '/' && kept[i][j] != '\0' && kept[i][j] != '\\' by {
                let k = choose|k: int| 0 <= k < segs.len() && segs[k] == kept[i];
                assert(segs[k][j] == kept[i][j]);
                assert(d.contains(segs[k][j]));
            }
            lemma_join_clean(kept);
            let key = join_slash(kept);
            if key.len() == 0 {
                reveal_strlit("index.html");
                let ix = "index.html"@;
                assert forall|i: int| 0 <= i && i + 1 < ix.len() implies !(#[trigger] ix[i] == '.' && ix[i + 1]
                    == '.') by {}
            }
        }
    }
}


proof fn lemma_join_cons(g: Seq<char>, rest: Seq<Seq<char>>)
    requires
        rest.len() >= 1,
    ensures
        join_slash(seq![g] + rest) == g + seq!['/'] + join_slash(rest),
    decreases rest.len(),
{
    let s = seq![g] + rest;
    if rest.len() == 1 {
        assert(s.drop_last() =~= seq![g]);
        assert(s.last() == rest[0]);
        assert(join_slash(seq![g]) == g);
        assert(join_slash(rest) == rest[0]);
        assert(join_slash(s) == join_slash(s.drop_last()) + seq!['/'] + s.last());
    } else {
        assert(s.drop_last() =~= seq![g] + rest.drop_last());
        lemma_join_cons(g, rest.drop_last());
        assert(s.last() == rest.last());
        assert(join_slash(s) =~= g + seq!['/'] + join_slash(rest));
    }
}

proof fn lemma_split_append(a: Seq<char>, b: Seq<char>)
    requires
        !b.contains('/'),
    ensures
        split_slash(a + b) == split_slash(a).update(
            split_slash(a).len() - 1,
            split_slash(a).last() + b,
        ),
    decreases b.len(),
{
    lemma_split_nonempty(a);
    if b.len() == 0 {
        assert(a + b =~= a);
        assert(split_slash(a).last() + b =~= split_slash(a).last());
        assert(split_slash(a).update(split_slash(a).len() - 1, split_slash(a).last()) =~= split_slash(a));
    } else {
        let pre = b.drop_last();
        assert(!pre.contains('/')) by {
            if pre.contains('/') {
                let i = choose|i: int| 0 <= i < pre.len() && pre[i] == '/';
                assert(b[i] == '/');
            }
        }
        lemma_split_append(a, pre);
        let x = a + b;
        assert(x.drop_last() =~= a + pre);
        assert(x.last() == b.last());
        assert(b[b.len() - 1] == b.last());
        lemma_split_nonempty(a + pre);
        assert(split_slash(a).last() + b =~= (split_slash(a).last() + pre).push(b.last()));
        assert(split_slash(x) =~= split_slash(a).update(split_slash(a).len() - 1, split_slash(a).last() + b));
    }
}

proof fn lemma_split_join(segs: Seq<Seq<char>>)
    requires
        segs.len() >= 1,
        segments_avoid(segs, '/'),
    ensures
        split_slash(join_slash(segs)) == segs,
    decreases segs.len(),
{
    if segs.len() == 1 {
        let g = segs[0];
        assert(!g.contains('/')) by {
            if g.contains('/') {
                let j = choose|j: int| 0 <= j < g.len() && g[j] == '/';
                assert(segs[0][j] == '/');
            }
        }
        lemma_split_append(Seq::empty(), g);
        assert(Seq::<char>::empty() + g =~= g);
        assert(split_slash(Seq::<char>::empty()) == seq![Seq::<char>::empty()]);
        assert(Seq::<char>::empty() + g =~= g);
        assert(split_slash(g) =~= segs);
    } else {
        let pre = segs.drop_last();
        let last = segs.last();
        assert forall|i: int, j: int| 0 <= i < pre.len() && 0 <= j < pre[i].len() implies #[trigger] pre[i][j]
            != '/' by {
            assert(pre[i] == segs[i]);
        }
        lemma_split_join(pre);
        assert(!last.contains('/')) by {
            if last.contains('/') {
                let j = choose|j: int| 0 <= j < last.len() && last[j] == '/';
                assert(segs[segs.len() - 1][j] == '/');
            }
        }
        let jn = join_slash(pre);
        let with_slash = jn.push('/');
        assert(with_slash.drop_last() =~= jn);
        lemma_split_nonempty(jn);
        assert(split_slash(with_slash) == pre.push(Seq::empty()));
        lemma_split_append(with_slash, last);
        assert(jn + seq!['/'] + last =~= with_slash + last);
        assert(Seq::<char>::empty() + last =~= last);
        assert(split_slash(join_slash(segs)) =~= segs);
    }
}

proof fn lemma_kept_after_empty(kept: Seq<Seq<char>>)
    requires
        forall|i: int| 0 <= i < kept.len() ==> is_kept_segment(#[trigger] kept[i]),
    ensures
        kept_segments(seq![Seq::<char>::empty()] + kept) == kept,
    decreases kept.len(),
{
    let s = seq![Seq::<char>::empty()] + kept;
    if kept.len() == 0 {
        assert(s.drop_last() =~= Seq::<Seq<char>>::empty());
        assert(s.last() == Seq::<char>::empty());
        assert(kept_segments(s.drop_last()) == Seq::<Seq<char>>::empty());
        assert(!is_kept_segment(s.last()));
        assert(kept_segments(s) == kept_segments(s.drop_last()));
        assert(kept =~= Seq::<Seq<char>>::empty());
    } else {
        assert(s.drop_last() =~= seq![Seq::<char>::empty()] + kept.drop_last());
        assert forall|i: int| 0 <= i < kept.drop_last().len() implies is_kept_segment(
            #[trigger] kept.drop_last()[i],
        ) by {
            assert(kept.drop_last()[i] == kept[i]);
        }
        lemma_kept_after_empty(kept.drop_last());
        assert(s.last() == kept.last());
        assert(kept[kept.len() - 1] == kept.last());
        assert(kept.drop_last().push(kept.last()) =~= kept);
        assert(is_kept_segment(s.last()));
        assert(kept_segments(s) == kept_segments(s.drop_last()).push(s.last()));
    }
}

/// Normalising is idempotent on decoded text: a normalised key other
/// than the root index, given back with a leading `/`, normalises to
/// itself, without a trailing slash.
pub proof fn law_normalize_decoded_idempotent(d: Seq<char>)
    ensures
        normalize_decoded(d) matches Some((key, _)) ==> (key != "index.html"@ ==> normalize_decoded(
            seq!['/'] + key,
        ) == Some((key, false))),
{
    if normalize_decoded(d) is Some {
        let segs = split_slash(d);
        let kept = kept_segments(segs);
        let key = join_slash(kept);
        if key.len() > 0 && key != "index.html"@ {
            lemma_split_pieces(d);
            lemma_kept_pieces(segs);
            assert forall|i: int| 0 <= i < kept.len() implies (#[trigger] kept[i]).len() > 0 && !has_dot_dot(
                kept[i],
            ) by {
                let k = choose|k: int| 0 <= k < segs.len() && segs[k] == kept[i];
                assert(!has_dot_dot(segs[k]));
            }
            assert forall|i: int, j: int| 0 <= i < kept.len() && 0 <= j < kept[i].len() implies #[trigger] kept[i][j]
                != '/' && kept[i][j] != '\0' && kept[i][j] != '\\' by {
                let k = choose|k: int| 0 <= k < segs.len() && segs[k] == kept[i];
                assert(segs[k][j] == kept[i][j]);
                assert(d.contains(segs[k][j]));
            }
            lemma_join_clean(kept);
            assert(kept.len() >= 1);
            let wrapped_segs = seq![Seq::<char>::empty()] + kept;
            assert forall|i: int, j: int| 0 <= i < wrapped_segs.len() && 0 <= j < wrapped_segs[i].len() implies
                #[trigger] wrapped_segs[i][j] != '/' by {
                assert(wrapped_segs[i] == kept[i - 1]);
            }
            lemma_join_cons(Seq::empty(), kept);
            assert(Seq::<char>::empty() + seq!['/'] + key =~= seq!['/'] + key);
            lemma_split_join(wrapped_segs);
            let w = seq!['/'] + key;
            assert(split_slash(w) == wrapped_segs);
            assert(!has_traversal_segment(wrapped_segs)) by {
                if has_traversal_segment(wrapped_segs) {
                    let i = choose|i: int| 0 <= i < wrapped_segs.len() && has_dot_dot(#[trigger] wrapped_segs[i]);
                    if i == 0 {
                        assert(wrapped_segs[0].len() == 0);
                    } else {
                        assert(wrapped_segs[i] == kept[i - 1]);
                    }
                }
            }
            assert(!w.contains('\0') && !w.contains('\\')) by {
                if w.contains('\0') || w.contains('\\') {
                    let i = choose|i: int| 0 <= i < w.len() && (w[i] == '\0' || w[i] == '\\');
                    assert(i > 0);
                    assert(w[i] == key[i - 1]);
                }
            }
            assert forall|i: int| 0 <= i < kept.len() implies is_kept_segment(#[trigger] kept[i]) by {}
            lemma_kept_after_empty(kept);
            assert(w.last() == key.last());
        }
    }
}


proof fn lemma_percent_free_identity(b: Seq<u8>)
    requires
        !b.contains(0x25u8),
    ensures
        percent_decoded(b) == b,
    decreases b.len(),
{
    if b.len() > 0 {
        assert(b[0] != 0x25u8);
        let t = b.skip(1);
        assert(!t.contains(0x25u8)) by {
            if t.contains(0x25u8) {
                let i = choose|i: int| 0 <= i < t.len() && t[i] == 0x25u8;
                assert(b[i + 1] == 0x25u8);
            }
        }
        lemma_percent_free_identity(t);
        assert(seq![b[0]] + t =~= b);
    }
}

proof fn lemma_scalar_percent_free(c: u32)
    requires
        c != 0x25,
    ensures
        !encode_scalar(c).contains(0x25u8),
{
    let e = encode_scalar(c);
    let b1: u8 = (c & 0x7F) as u8;
    let lead2: u8 = 0xC0 | ((c >> 6) & 0x1F) as u8;
    let lead3: u8 = 0xE0 | ((c >> 12) & 0x0F) as u8;
    let lead4: u8 = 0xF0 | ((c >> 18) & 0x7) as u8;
    let cont1: u8 = 0x80 | (c & 0x3F) as u8;
    let cont2: u8 = 0x80 | ((c >> 6) & 0x3F) as u8;
    let cont3: u8 = 0x80 | ((c >> 12) & 0x3F) as u8;
    assert(c <= 0x7F ==> b1 != 0x25) by (bit_vector)
        requires
            c != 0x25,
            b1 == (c & 0x7F) as u8,
    ;
    assert(lead2 != 0x25 && lead3 != 0x25 && lead4 != 0x25) by (bit_vector)
        requires
            lead2 == 0xC0 | ((c >> 6) & 0x1F) as u8,
            lead3 == 0xE0 | ((c >> 12) & 0x0F) as u8,
            lead4 == 0xF0 | ((c >> 18) & 0x7) as u8,
    ;
    assert(cont1 != 0x25 && cont2 != 0x25 && cont3 != 0x25) by (bit_vector)
        requires
            cont1 == 0x80 | (c & 0x3F) as u8,
            cont2 == 0x80 | ((c >> 6) & 0x3F) as u8,
            cont3 == 0x80 | ((c >> 12) & 0x3F) as u8,
    ;
    assert forall|i: int| 0 <= i < e.len() implies e[i] != 0x25u8 by {
        if has_width_1_encoding(c) {
            assert(e[i] == b1);
        } else if has_width_2_encoding(c) {
            assert(e[i] == lead2 || e[i] == cont1);
        } else if has_width_3_encoding(c) {
            assert(e[i] == lead3 || e[i] == cont2 || e[i] == cont1);
        } else {
            assert(e[i] == lead4 || e[i] == cont3 || e[i] == cont2 || e[i] == cont1);
        }
    }
}

proof fn lemma_encode_percent_free(chars: Seq<char>)
    requires
        !chars.contains('%'),
    ensures
        !encode_utf8(chars).contains(0x25u8),
    decreases chars.len(),
{
    if chars.len() > 0 {
        let rest = chars.drop_first();
        assert(!rest.contains('%')) by {
            if rest.contains('%') {
                let i = choose|i: int| 0 <= i < rest.len() && rest[i] == '%';
                assert(chars[i + 1] == '%');
            }
        }
        lemma_encode_percent_free(rest);
        assert(chars[0] != '%');
        if (chars[0] as u32) == 0x25u32 {
            vstd::utf8::char_u32_cast(chars[0], chars[0] as u32);
            vstd::utf8::char_u32_cast('%', 0x25u32);
            assert(('%' as u32) == 0x25u32);
        }
        lemma_scalar_percent_free(chars[0] as u32);
        let e = encode_utf8(chars);
        let head = encode_scalar(chars[0] as u32);
        assert(e == head + encode_utf8(rest));
        assert forall|i: int| 0 <= i < e.len() implies e[i] != 0x25u8 by {
            if i < head.len() {
                assert(e[i] == head[i]);
            } else {
                assert(e[i] == encode_utf8(rest)[i - head.len()]);
            }
        }
    }
}

/// Normalising is idempotent: a normalised key other than the root
/// index, requested again as `/{key}`, normalises to the same key. Keys
/// that still hold a `%` are left out, since the second request
/// percent-decodes them once more.
pub proof fn law_normalize_idempotent(raw: &str, wrapped: &str)
    ensures
        normalize_spec(raw) matches Some((key, _)) ==> (key != "index.html"@ && !key.contains('%')
            && wrapped@ == seq!['/'] + key ==> normalize_spec(wrapped) == Some((key, false))),
{
    if normalize_spec(raw) is Some {
        let (key, _) = normalize_spec(raw)->0;
        let bytes = percent_decoded(raw.spec_bytes());
        law_normalize_decoded_idempotent(decode_utf8(bytes));
        if key != "index.html"@ && !key.contains('%') && wrapped@ == seq!['/'] + key {
            assert(!wrapped@.contains('%')) by {
                if wrapped@.contains('%') {
                    let i = choose|i: int| 0 <= i < wrapped@.len() && wrapped@[i] == '%';
                    assert(i > 0);
                    assert(wrapped@[i] == key[i - 1]);
                }
            }
            lemma_encode_percent_free(wrapped@);
            lemma_percent_free_identity(wrapped.spec_bytes());
            vstd::utf8::encode_utf8_valid_utf8(wrapped@);
            vstd::utf8::encode_utf8_decode_utf8(wrapped@);
        }
    }
}


/// `c` is an ASCII letter, digit, `_` or `-`.
pub open spec fn is_safe_segment_char(c: char) -> bool {
    ('a' <= c && c <= 'z') || ('A' <= c && c <= 'Z') || ('0' <= c && c <= '9') || c == '_' || c == '-'
}

/// A non-empty segment of ASCII letters, digits, `_` and `-` is always
/// accepted (and handed back unchanged); a segment holding a traversal
/// sequence, a slash, a backslash or a control character never is.
pub proof fn law_segment_alphabet(s: Seq<char>)
    ensures
        s.len() > 0 && (forall|i: int| 0 <= i < s.len() ==> is_safe_segment_char(#[trigger] s[i]))
            ==> is_valid_segment(s),
        has_dot_dot(s) || s.contains('/') || s.contains('\\') || has_control_char(s)
            ==> !is_valid_segment(s),
{
    if s.len() > 0 && (forall|i: int| 0 <= i < s.len() ==> is_safe_segment_char(#[trigger] s[i])) {
        assert(!has_dot_dot(s)) by {
            if has_dot_dot(s) {
                let i = choose|i: int| 0 <= i && i + 1 < s.len() && #[trigger] s[i] == '.' && s[i + 1] == '.';
                assert(is_safe_segment_char(s[i]));
            }
        }
        assert forall|c: char| c == '/' || c == '\\' || c == '?' || c == '#' implies !s.contains(c) by {
            if s.contains(c) {
                let i = choose|i: int| 0 <= i < s.len() && s[i] == c;
                assert(is_safe_segment_char(s[i]));
            }
        }
        assert(!has_control_char(s)) by {
            if has_control_char(s) {
                let i = choose|i: int| 0 <= i < s.len() && is_control_char(#[trigger] s[i]);
                assert(is_safe_segment_char(s[i]));
            }
        }
    }
}

} // verus!
