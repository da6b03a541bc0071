//! Conditional-request helpers: weak `ETag` comparison and evaluation of
//! an `If-None-Match` list against the server's validator.
use vstd::prelude::*;

use crate::serve::runtime::Encoding;

verus! {

/// `W/` prefix stripped from `v`, when present.
pub open spec fn strip_weak(v: Seq<u8>) -> Seq<u8> {
    if v.len() >= 2 && v[0] == 0x57u8 && v[1] == 0x2fu8 {
        v.skip(2)
    } else {
        v
    }
}

/// Weak comparison: the wildcard `*` matches anything; otherwise both
/// values are compared with any leading `W/` removed.
pub open spec fn weak_match(client: Seq<u8>, server: Seq<u8>) -> bool {
    client == seq![0x2au8] || strip_weak(client) == strip_weak(server)
}

fn bytes_equal(a: &[u8], a_lo: usize, b: &[u8], b_lo: usize) -> (r: bool)
    requires
        a_lo <= a@.len(),
        b_lo <= b@.len(),
    ensures
        r == (a@.skip(a_lo as int) == b@.skip(b_lo as int)),
{
    if a.len() - a_lo != b.len() - b_lo {
        assert(a@.skip(a_lo as int).len() != b@.skip(b_lo as int).len());
        return false;
    }
    let mut x = a_lo;
    let mut y = b_lo;
    while x < a.len()
        invariant
            a_lo <= x <= a@.len(),
            b_lo <= y <= b@.len(),
            x - a_lo == y - b_lo,
            a@.len() - a_lo == b@.len() - b_lo,
            forall|k: int| 0 <= k < x - a_lo ==> #[trigger] a@.skip(a_lo as int)[k] == b@.skip(b_lo as int)[k],
        decreases a@.len() - x,
    {
        if a[x] != b[y] {
            assert(a@.skip(a_lo as int)[x - a_lo] != b@.skip(b_lo as int)[x - a_lo]);
            return false;
        }
        x = x + 1;
        y = y + 1;
    }
    assert(a@.skip(a_lo as int) =~= b@.skip(b_lo as int));
    true
}

fn weak_prefix_len(v: &[u8]) -> (n: usize)
    ensures
        n <= v@.len(),
        strip_weak(v@) == v@.skip(n as int),
{
    if v.len() >= 2 && v[0] == 0x57u8 && v[1] == 0x2fu8 {
        2
    } else {
        assert(v@.skip(0) =~= v@);
        0
    }
}

/// Weak `ETag` comparison per RFC 7232 §2.3.2.
///
/// `If-None-Match: *` matches any `ETag`. Otherwise a leading `W/` is
/// stripped from both values before comparing, so a strong client tag
/// matches the weak server tag carrying the same opaque value.
pub fn etag_weak_match(client_val: &[u8], server_val: &[u8]) -> (r: bool)
    ensures
        r == weak_match(client_val@, server_val@),
{
    if client_val.len() == 1 && client_val[0] == 0x2au8 {
        assert(client_val@ =~= seq![0x2au8]);
        return true;
    }
    assert(client_val@ != seq![0x2au8]) by {
        if client_val@ == seq![0x2au8] {
            assert(client_val@[0] == 0x2au8);
        }
    }
    let a = weak_prefix_len(client_val);
    let b = weak_prefix_len(server_val);
    bytes_equal(client_val, a, server_val, b)
}

/// `b` is accepted by `HeaderValue::to_str`: visible ASCII or a tab.
pub open spec fn is_visible_ascii(b: u8) -> bool {
    (32 <= b && b < 127) || b == 9
}

/// Every byte of `v` is visible ASCII or a tab, so the header value reads
/// as text.
pub open spec fn is_header_text(v: Seq<u8>) -> bool {
    forall|i: int| 0 <= i < v.len() ==> is_visible_ascii(#[trigger] v[i])
}

/// `b` is whitespace that `str::trim` removes from header text.
pub open spec fn is_trim_space(b: u8) -> bool {
    b == 32 || b == 9
}

/// `v` without leading whitespace.
pub open spec fn trim_start(v: Seq<u8>) -> Seq<u8>
    decreases v.len(),
{
    if v.len() > 0 && is_trim_space(v[0]) {
        trim_start(v.skip(1))
    } else {
        v
    }
}

/// `v` without trailing whitespace.
pub open spec fn trim_end(v: Seq<u8>) -> Seq<u8>
    decreases v.len(),
{
    if v.len() > 0 && is_trim_space(v.last()) {
        trim_end(v.drop_last())
    } else {
        v
    }
}

/// `v` without leading or trailing whitespace.
pub open spec fn trim(v: Seq<u8>) -> Seq<u8> {
    trim_end(trim_start(v))
}

/// The `sep`-separated pieces of `v`, in order, empty ones included.
pub open spec fn split_on(v: Seq<u8>, sep: u8) -> Seq<Seq<u8>>
    decreases v.len(),
{
    if v.len() == 0 {
        seq![Seq::empty()]
    } else {
        let prev = split_on(v.drop_last(), sep);
        if v.last() == sep {
            prev.push(Seq::empty())
        } else {
            prev.update(prev.len() - 1, prev.last().push(v.last()))
        }
    }
}

/// Some entry of the header value `v`, trimmed, matches `server`.
pub open spec fn value_matches(v: Seq<u8>, server: Seq<u8>) -> bool {
    exists|j: int|
        0 <= j < split_on(v, 0x2cu8).len() && weak_match(trim(#[trigger] split_on(v, 0x2cu8)[j]), server)
}

/// Some `If-None-Match` header instance in `values` reads as text and
/// holds an entry that matches `server`.
pub open spec fn if_none_match_spec(values: Seq<Seq<u8>>, server: Seq<u8>) -> bool {
    exists|i: int|
        0 <= i < values.len() && is_header_text(#[trigger] values[i]) && value_matches(
            values[i],
            server,
        )
}

proof fn lemma_split_without_separator(v: Seq<u8>, sep: u8)
    requires
        forall|i: int| 0 <= i < v.len() ==> #[trigger] v[i] != sep,
    ensures
        split_on(v, sep) == seq![v],
    decreases v.len(),
{
    if v.len() > 0 {
        lemma_split_without_separator(v.drop_last(), sep);
        assert(v.drop_last().push(v.last()) =~= v);
        assert(seq![v.drop_last()].update(0, v.drop_last().push(v.last())) =~= seq![v]);
    } else {
        assert(v =~= Seq::<u8>::empty());
    }
}

/// An `If-None-Match` header holding a single validator (no comma, no
/// surrounding whitespace) matches exactly when it is the wildcard `*` or
/// equals the server's `ETag` once a leading `W/` is ignored on either
/// side; in particular a client that echoes the server's own `ETag` back
/// always gets a match.
pub proof fn law_single_validator(v: Seq<u8>, server: Seq<u8>)
    requires
        is_header_text(v),
        v.len() > 0,
        v[0] != 0x20u8 && v[0] != 0x09u8,
        v.last() != 0x20u8 && v.last() != 0x09u8,
        forall|i: int| 0 <= i < v.len() ==> #[trigger] v[i] != 0x2cu8,
    ensures
        if_none_match_spec(seq![v], server) <==> (v == seq![0x2au8] || strip_weak(v) == strip_weak(
            server,
        )),
        if_none_match_spec(seq![v], v),
{
    lemma_split_without_separator(v, 0x2cu8);
    assert(trim_start(v) == v);
    assert(trim_end(v) == v);
    assert(trim(split_on(v, 0x2cu8)[0]) == v);
    assert(seq![v][0] == v);
}

proof fn lemma_split_on_nonempty(v: Seq<u8>, sep: u8)
    ensures
        split_on(v, sep).len() >= 1,
    decreases v.len(),
{
    if v.len() > 0 {
        lemma_split_on_nonempty(v.drop_last(), sep);
    }
}

fn trimmed(v: &Vec<u8>) -> (t: Vec<u8>)
    ensures
        t@ == trim(v@),
{
    let mut lo: usize = 0;
    assert(v@.subrange(0, v@.len() as int) =~= v@);
    while lo < v.len() && (v[lo] == 32 || v[lo] == 9)
        invariant
            0 <= lo <= v.len(),
            trim_start(v@) == trim_start(v@.subrange(lo as int, v@.len() as int)),
        decreases v.len() - lo,
    {
        let ghost sub = v@.subrange(lo as int, v@.len() as int);
        assert(sub.skip(1) =~= v@.subrange(lo + 1, v@.len() as int));
        lo = lo + 1;
    }
    let ghost start = v@.subrange(lo as int, v@.len() as int);
    assert(trim_start(v@) == start);
    let mut hi: usize = v.len();
    while hi > lo && (v[hi - 1] == 32 || v[hi - 1] == 9)
        invariant
            lo <= hi <= v.len(),
            start == v@.subrange(lo as int, v@.len() as int),
            trim_end(start) == trim_end(v@.subrange(lo as int, hi as int)),
        decreases hi - lo,
    {
        let ghost sub = v@.subrange(lo as int, hi as int);
        assert(sub.drop_last() =~= v@.subrange(lo as int, hi - 1));
        hi = hi - 1;
    }
    let mut t: Vec<u8> = Vec::new();
    let mut k: usize = lo;
    while k < hi
        invariant
            lo <= k <= hi,
            hi <= v.len(),
            t@ == v@.subrange(lo as int, k as int),
        decreases hi - k,
    {
        t.push(v[k]);
        assert(v@.subrange(lo as int, k as int).push(v@[k as int]) =~= v@.subrange(
            lo as int,
            k + 1,
        ));
        k = k + 1;
    }
    t
}

fn is_text(v: &Vec<u8>) -> (r: bool)
    ensures
        r == is_header_text(v@),
{
    let mut i: usize = 0;
    while i < v.len()
        invariant
            0 <= i <= v.len(),
            forall|k: int| 0 <= k < i ==> is_visible_ascii(#[trigger] v@[k]),
        decreases v.len() - i,
    {
        let b = v[i];
        if !((32 <= b && b < 127) || b == 9) {
            assert(!is_visible_ascii(v@[i as int]));
            return false;
        }
        i = i + 1;
    }
    true
}

fn split_bytes(v: &Vec<u8>, sep: u8) -> (segs: Vec<Vec<u8>>)
    ensures
        segs@.map_values(|g: Vec<u8>| g@) == split_on(v@, sep),
{
    let mut done: Vec<Vec<u8>> = Vec::new();
    let mut cur: Vec<u8> = Vec::new();
    let mut i: usize = 0;
    while i < v.len()
        invariant
            0 <= i <= v.len(),
            done@.map_values(|g: Vec<u8>| g@).push(cur@) == split_on(v@.take(i as int), sep),
        decreases v.len() - i,
    {
        let ghost before = v@.take(i as int);
        assert(v@.take(i + 1).drop_last() == before);
        assert(v@.take(i + 1).last() == v@[i as int]);
        proof {
            lemma_split_on_nonempty(before, sep);
        }
        let b = v[i];
        if b == sep {
            let finished = cur;
            done.push(finished);
            cur = Vec::new();
            assert(done@.map_values(|g: Vec<u8>| g@) == split_on(before, sep));
        } else {
            cur.push(b);
            assert(done@.map_values(|g: Vec<u8>| g@).push(cur@) =~= split_on(before, sep).update(
                split_on(before, sep).len() - 1,
                split_on(before, sep).last().push(b),
            ));
        }
        i = i + 1;
    }
    assert(v@.take(v.len() as int) == v@);
    done.push(cur);
    done
}

fn entries_match(v: &Vec<u8>, server: &[u8]) -> (r: bool)
    ensures
        r == value_matches(v@, server@),
{
    let segs = split_bytes(v, 0x2cu8);
    let ghost sv = segs@.map_values(|g: Vec<u8>| g@);
    let mut j: usize = 0;
    while j < segs.len()
        invariant
            0 <= j <= segs.len(),
            sv == segs@.map_values(|g: Vec<u8>| g@),
            sv == split_on(v@, 0x2cu8),
            forall|k: int| 0 <= k < j ==> !weak_match(trim(#[trigger] sv[k]), server@),
        decreases segs.len() - j,
    {
        assert(segs[j as int]@ == sv[j as int]);
        let t = trimmed(&segs[j]);
        if etag_weak_match(t.as_slice(), server) {
            assert(weak_match(trim(split_on(v@, 0x2cu8)[j as int]), server@));
            return true;
        }
        j = j + 1;
    }
    false
}

/// Evaluate `If-None-Match` against the server's `ETag` per RFC 7232
/// §3.2.
///
/// `values` are the raw bytes of every `If-None-Match` header instance
/// in request order. The field is a list: a client may spread it across
/// several header instances as well as commas within one. Instances
/// that do not read as text are skipped; every comma-separated entry of
/// the others is trimmed and compared; a match on any entry means "not
/// modified".
pub fn if_none_match_matches(values: &Vec<Vec<u8>>, server_etag: &[u8]) -> (r: bool)
    ensures
        r == if_none_match_spec(values@.map_values(|v: Vec<u8>| v@), server_etag@),
{
    let ghost vv = values@.map_values(|v: Vec<u8>| v@);
    let mut i: usize = 0;
    while i < values.len()
        invariant
            0 <= i <= values.len(),
            vv == values@.map_values(|v: Vec<u8>| v@),
            forall|k: int|
                0 <= k < i ==> !(is_header_text(#[trigger] vv[k]) && value_matches(
                    vv[k],
                    server_etag@,
                )),
        decreases values.len() - i,
    {
        let v = &values[i];
        assert(v@ == vv[i as int]);
        if is_text(v) && entries_match(v, server_etag) {
            return true;
        }
        i = i + 1;
    }
    false
}


/// `b` with ASCII upper case folded to lower case.
pub open spec fn fold_ascii(b: u8) -> u8 {
    if 0x41 <= b <= 0x5a {
        (b + 32) as u8
    } else {
        b
    }
}

/// The characters of `zstd`.
pub open spec fn zstd_token() -> Seq<u8> {
    seq![0x7au8, 0x73u8, 0x74u8, 0x64u8]
}

/// `s` equals the lower-case `lower`, ignoring ASCII case.
pub open spec fn eq_ignore_ascii_case(s: Seq<u8>, lower: Seq<u8>) -> bool {
    s.len() == lower.len() && forall|i: int| 0 <= i < s.len() ==> fold_ascii(#[trigger] s[i]) == lower[i]
}

/// A quality value of zero: `0`, optionally followed by `.` and at most
/// three `0` digits.
pub open spec fn is_zero_qvalue(v: Seq<u8>) -> bool {
    &&& v.len() >= 1
    &&& v[0] == 0x30u8
    &&& (v.len() == 1 || (v[1] == 0x2eu8 && v.len() <= 5 && forall|i: int|
        2 <= i < v.len() ==> #[trigger] v[i] == 0x30u8))
}

/// A parameter `q=<zero>`, parameter name in either case, surrounding
/// whitespace ignored.
pub open spec fn is_zero_q_param(p: Seq<u8>) -> bool {
    let t = trim(p);
    t.len() >= 2 && fold_ascii(t[0]) == 0x71u8 && t[1] == 0x3du8 && is_zero_qvalue(t.skip(2))
}

/// An `Accept-Encoding` entry that accepts zstd: its coding is `zstd`
/// (any case) and none of its parameters sets the quality to zero.
pub open spec fn accepts_zstd_entry(e: Seq<u8>) -> bool {
    let parts = split_on(e, 0x3bu8);
    eq_ignore_ascii_case(trim(parts[0]), zstd_token()) && forall|k: int|
        1 <= k < parts.len() ==> !is_zero_q_param(#[trigger] parts[k])
}

/// Some entry of the `Accept-Encoding` value `v` accepts zstd.
pub open spec fn accepts_zstd(v: Seq<u8>) -> bool {
    exists|j: int|
        0 <= j < split_on(v, 0x2cu8).len() && accepts_zstd_entry(#[trigger] split_on(v, 0x2cu8)[j])
}

fn is_zstd_token(t: &Vec<u8>) -> (r: bool)
    ensures
        r == eq_ignore_ascii_case(t@, zstd_token()),
{
    if t.len() != 4 {
        return false;
    }
    let mut i: usize = 0;
    while i < 4
        invariant
            0 <= i <= 4,
            t@.len() == 4,
            forall|k: int| 0 <= k < i ==> fold_ascii(#[trigger] t@[k]) == zstd_token()[k],
        decreases 4 - i,
    {
        let b = t[i];
        let lower: u8 = if 0x41 <= b && b <= 0x5a {
            b + 32
        } else {
            b
        };
        let want: u8 = if i == 0 {
            0x7a
        } else if i == 1 {
            0x73
        } else if i == 2 {
            0x74
        } else {
            0x64
        };
        assert(want == zstd_token()[i as int]);
        if lower != want {
            return false;
        }
        i = i + 1;
    }
    true
}

fn zero_q_param(p: &Vec<u8>) -> (r: bool)
    ensures
        r == is_zero_q_param(p@),
{
    let t = trimmed(p);
    if t.len() < 2 {
        return false;
    }
    let first = t[0];
    if !((first == 0x71 || first == 0x51) && t[1] == 0x3d) {
        return false;
    }
    let ghost v = t@.skip(2);
    let n = t.len() - 2;
    if n < 1 || t[2] != 0x30 {
        return false;
    }
    assert(v[0] == t@[2]);
    if n == 1 {
        return true;
    }
    assert(v[1] == t@[3]);
    if t[3] != 0x2e || n > 5 {
        return false;
    }
    let mut i: usize = 4;
    while i < t.len()
        invariant
            4 <= i <= t.len(),
            t.len() <= 7,
            t@ == trim(p@),
            v == t@.skip(2),
            t@[0] == 0x71u8 || t@[0] == 0x51u8,
            t@[1] == 0x3du8,
            v[0] == 0x30u8,
            v[1] == 0x2eu8,
            forall|k: int| 2 <= k < i - 2 ==> #[trigger] v[k] == 0x30u8,
        decreases t.len() - i,
    {
        if t[i] != 0x30 {
            assert(v[i - 2] != 0x30u8);
            return false;
        }
        i = i + 1;
    }
    true
}

fn entry_accepts_zstd(e: &Vec<u8>) -> (r: bool)
    ensures
        r == accepts_zstd_entry(e@),
{
    let parts = split_bytes(e, 0x3bu8);
    let ghost pv = parts@.map_values(|g: Vec<u8>| g@);
    proof {
        lemma_split_on_nonempty(e@, 0x3bu8);
    }
    assert(parts@[0]@ == pv[0]);
    let coding = trimmed(&parts[0]);
    if !is_zstd_token(&coding) {
        return false;
    }
    let mut k: usize = 1;
    while k < parts.len()
        invariant
            1 <= k <= parts.len(),
            pv == parts@.map_values(|g: Vec<u8>| g@),
            pv == split_on(e@, 0x3bu8),
            forall|m: int| 1 <= m < k ==> !is_zero_q_param(#[trigger] pv[m]),
        decreases parts.len() - k,
    {
        assert(parts@[k as int]@ == pv[k as int]);
        if zero_q_param(&parts[k]) {
            return false;
        }
        k = k + 1;
    }
    true
}

/// An `Accept-Encoding` value holding a single coding with no parameters
/// (no comma, no `;`, no surrounding whitespace) accepts zstd exactly when
/// that coding is `zstd` in any ASCII case.
pub proof fn law_single_coding(v: Seq<u8>)
    requires
        v.len() > 0,
        v[0] != 0x20u8 && v[0] != 0x09u8,
        v.last() != 0x20u8 && v.last() != 0x09u8,
        forall|i: int| 0 <= i < v.len() ==> #[trigger] v[i] != 0x2cu8 && v[i] != 0x3bu8,
    ensures
        accepts_zstd(v) <==> (v.len() == 4 && (v[0] == 0x7au8 || v[0] == 0x5au8) && (v[1] == 0x73u8
            || v[1] == 0x53u8) && (v[2] == 0x74u8 || v[2] == 0x54u8) && (v[3] == 0x64u8 || v[3]
            == 0x44u8)),
{
    lemma_split_without_separator(v, 0x2cu8);
    lemma_split_without_separator(v, 0x3bu8);
    assert(trim_start(v) == v);
    assert(trim_end(v) == v);
    assert(split_on(v, 0x2cu8)[0] == v);
    assert(split_on(v, 0x3bu8)[0] == v);
    if accepts_zstd(v) {
        assert(accepts_zstd_entry(v));
        assert(fold_ascii(v[0]) == 0x7au8);
        assert(fold_ascii(v[1]) == 0x73u8);
        assert(fold_ascii(v[2]) == 0x74u8);
        assert(fold_ascii(v[3]) == 0x64u8);
    }
    if v.len() == 4 && (v[0] == 0x7au8 || v[0] == 0x5au8) && (v[1] == 0x73u8 || v[1] == 0x53u8) && (
    v[2] == 0x74u8 || v[2] == 0x54u8) && (v[3] == 0x64u8 || v[3] == 0x44u8) {
        assert(eq_ignore_ascii_case(v, zstd_token()));
        assert(accepts_zstd_entry(split_on(v, 0x2cu8)[0]));
    }
}

/// Choose the response coding from an `Accept-Encoding` header value:
/// zstd when the value reads as text and some entry names `zstd` (any
/// case) without a zero quality; identity otherwise.
pub fn negotiate_encoding(value: &[u8]) -> (e: Encoding)
    ensures
        e == (if is_header_text(value@) && accepts_zstd(value@) {
            Encoding::Zstd
        } else {
            Encoding::Identity
        }),
{
    let mut v: Vec<u8> = Vec::new();
    let mut i: usize = 0;
    while i < value.len()
        invariant
            0 <= i <= value@.len(),
            v@ == value@.take(i as int),
        decreases value@.len() - i,
    {
        v.push(value[i]);
        assert(value@.take(i as int).push(value@[i as int]) =~= value@.take(i + 1));
        i = i + 1;
    }
    assert(value@.take(value@.len() as int) =~= value@);
    if !is_text(&v) {
        return Encoding::Identity;
    }
    let entries = split_bytes(&v, 0x2cu8);
    let ghost ev = entries@.map_values(|g: Vec<u8>| g@);
    let mut j: usize = 0;
    while j < entries.len()
        invariant
            0 <= j <= entries.len(),
            v@ == value@,
            is_header_text(v@),
            ev == entries@.map_values(|g: Vec<u8>| g@),
            ev == split_on(v@, 0x2cu8),
            forall|m: int| 0 <= m < j ==> !accepts_zstd_entry(#[trigger] ev[m]),
        decreases entries.len() - j,
    {
        assert(entries@[j as int]@ == ev[j as int]);
        if entry_accepts_zstd(&entries[j]) {
            assert(accepts_zstd_entry(split_on(value@, 0x2cu8)[j as int]));
            return Encoding::Zstd;
        }
        j = j + 1;
    }
    Encoding::Identity
}

} // verus!
