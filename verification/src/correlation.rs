//! Correlation extraction from inbound request headers.
//!
//! A syntactically valid W3C `traceparent` with non-zero trace and
//! parent-span ids wins; its 64-bit span id is widened losslessly into a
//! 128-bit id. Otherwise an `X-Correlation-ID` that parses as a UUID
//! (after trimming) is used. Otherwise the context is absent: no id is
//! ever synthesised, and a malformed `traceparent` is treated as absent
//! rather than rejecting the request.
use vstd::prelude::*;

use vstd::string::StringSliceAdditionalSpecFns;

use crate::text::{chars_of, string_from_chars};

verus! {

broadcast use vstd::string::group_string_axioms;

/// Correlation ids carried by a request, as 128-bit UUID values.
#[derive(Debug, Clone, Copy, PartialEq, Eq, Structural)]
pub enum Correlation {
    /// From a `traceparent`: the trace id correlates, the parent span
    /// id (zero-padded) is the causation.
    Traced { correlation: u128, causation: u128 },
    /// From an `X-Correlation-ID`: a correlation id with no causation.
    Correlated(u128),
    /// No usable header.
    Absent,
}

/// `b` is an ASCII hexadecimal digit, either case.
pub open spec fn is_hex_digit(b: u8) -> bool {
    (0x30 <= b <= 0x39) || (0x41 <= b <= 0x46) || (0x61 <= b <= 0x66)
}

/// The value of the hexadecimal digit `b`.
pub open spec fn hex_digit_value(b: u8) -> nat {
    if b <= 0x39 {
        (b - 0x30) as nat
    } else if b <= 0x46 {
        (b - 0x41 + 10) as nat
    } else {
        (b - 0x61 + 10) as nat
    }
}

/// The value of the hexadecimal digits `s`, most significant first.
pub open spec fn hex_value(s: Seq<u8>) -> nat
    decreases s.len(),
{
    if s.len() == 0 {
        0
    } else {
        hex_value(s.drop_last()) * 16 + hex_digit_value(s.last())
    }
}

/// Every byte of `s` is a hexadecimal digit.
pub open spec fn all_hex(s: Seq<u8>) -> bool {
    forall|i: int| 0 <= i < s.len() ==> is_hex_digit(#[trigger] s[i])
}

/// What a base-16 parse of an unsigned integer accepts: an optional `+`,
/// then one or more hexadecimal digits. Range is checked by the caller.
pub open spec fn radix16(s: Seq<u8>) -> Option<nat> {
    let digits = if s.len() > 0 && s[0] == 0x2bu8 {
        s.drop_first()
    } else {
        s
    };
    if digits.len() > 0 && all_hex(digits) {
        Some(hex_value(digits))
    } else {
        None
    }
}

/// No `-` in `s`.
pub open spec fn no_dash(s: Seq<u8>) -> bool {
    forall|i: int| 0 <= i < s.len() ==> #[trigger] s[i] != 0x2du8
}

/// The trace id and parent span id of a `traceparent` value, if it is
/// `00-<32 hex>-<16 hex>-<2 hex>` with both ids non-zero.
pub open spec fn traceparent_spec(b: Seq<u8>) -> Option<(nat, nat)> {
    if b.len() == 55 && b[0] == 0x30u8 && b[1] == 0x30u8 && b[2] == 0x2du8 && b[35] == 0x2du8
        && b[52] == 0x2du8 && no_dash(b.subrange(3, 35)) && no_dash(b.subrange(36, 52)) && no_dash(
        b.subrange(53, 55),
    ) {
        match (
            radix16(b.subrange(3, 35)),
            radix16(b.subrange(36, 52)),
            radix16(b.subrange(53, 55)),
        ) {
            (Some(t), Some(p), Some(_)) => if t != 0 && p != 0 {
                Some((t, p))
            } else {
                None
            },
            _ => None,
        }
    } else {
        None
    }
}

/// `16` to the power `n`.
pub open spec fn pow16(n: nat) -> nat
    decreases n,
{
    if n == 0 {
        1
    } else {
        16 * pow16((n - 1) as nat)
    }
}

proof fn lemma_pow16_mono(a: nat, b: nat)
    requires
        a <= b,
    ensures
        pow16(a) <= pow16(b),
    decreases b,
{
    if a < b {
        lemma_pow16_mono(a, (b - 1) as nat);
    }
}

proof fn lemma_hex_value_bound(s: Seq<u8>)
    requires
        all_hex(s),
    ensures
        hex_value(s) < pow16(s.len()),
    decreases s.len(),
{
    if s.len() > 0 {
        lemma_hex_value_bound(s.drop_last());
    }
}

proof fn lemma_pow16_values()
    ensures
        pow16(16) == 0x1_0000_0000_0000_0000,
        pow16(32) == 0x1_0000_0000_0000_0000_0000_0000_0000_0000,
{
    reveal_with_fuel(pow16, 33);
}

fn hex_digit_of(b: u8) -> (r: Option<u8>)
    ensures
        r is Some <==> is_hex_digit(b),
        r matches Some(d) ==> d == hex_digit_value(b) && d < 16,
{
    if 0x30 <= b && b <= 0x39 {
        Some(b - 0x30)
    } else if 0x41 <= b && b <= 0x46 {
        Some(b - 0x41 + 10)
    } else if 0x61 <= b && b <= 0x66 {
        Some(b - 0x61 + 10)
    } else {
        None
    }
}

/// Base-16 parse of `b[lo..hi]`, which is at most 32 bytes long.
fn parse_radix16(b: &[u8], lo: usize, hi: usize) -> (r: Option<u128>)
    requires
        lo <= hi <= b@.len(),
        hi - lo <= 32,
    ensures
        r is Some <==> radix16(b@.subrange(lo as int, hi as int)) is Some,
        r matches Some(x) ==> radix16(b@.subrange(lo as int, hi as int)) == Some(x as nat),
{
    let ghost s = b@.subrange(lo as int, hi as int);
    let mut start = lo;
    if start < hi && b[start] == 0x2b {
        start = start + 1;
    }
    let ghost digits = b@.subrange(start as int, hi as int);
    assert(digits =~= (if s.len() > 0 && s[0] == 0x2bu8 {
        s.drop_first()
    } else {
        s
    }));
    if start == hi {
        return None;
    }
    let mut acc: u128 = 0;
    let mut i = start;
    proof {
        lemma_pow16_values();
    }
    while i < hi
        invariant
            lo <= start <= i <= hi <= b@.len(),
            hi - start <= 32,
            digits == b@.subrange(start as int, hi as int),
            s == b@.subrange(lo as int, hi as int),
            digits == (if s.len() > 0 && s[0] == 0x2bu8 {
                s.drop_first()
            } else {
                s
            }),
            all_hex(b@.subrange(start as int, i as int)),
            acc as nat == hex_value(b@.subrange(start as int, i as int)),
            acc < pow16((i - start) as nat),
            pow16(32) == 0x1_0000_0000_0000_0000_0000_0000_0000_0000,
        decreases hi - i,
    {
        let d = match hex_digit_of(b[i]) {
            Some(d) => d,
            None => {
                assert(digits[i - start] == b@[i as int]);
                assert(!is_hex_digit(digits[i - start]));
                return None;
            },
        };
        proof {
            lemma_pow16_mono((i - start) as nat, 31);
            assert(pow16(32) == 16 * pow16(31));
        }
        let ghost prev = b@.subrange(start as int, i as int);
        let ghost next = b@.subrange(start as int, i + 1);
        assert(next.drop_last() =~= prev);
        assert(next.last() == b@[i as int]);
        acc = acc * 16 + d as u128;
        i = i + 1;
        assert(all_hex(next)) by {
            assert forall|k: int| 0 <= k < next.len() implies is_hex_digit(#[trigger] next[k]) by {
                if k < prev.len() {
                    assert(next[k] == prev[k]);
                }
            }
        }
    }
    assert(b@.subrange(start as int, i as int) =~= digits);
    Some(acc)
}

/// Whether `b[lo..hi]` holds no `-`.
fn dash_free(b: &[u8], lo: usize, hi: usize) -> (r: bool)
    requires
        lo <= hi <= b@.len(),
    ensures
        r == no_dash(b@.subrange(lo as int, hi as int)),
{
    let mut i = lo;
    while i < hi
        invariant
            lo <= i <= hi <= b@.len(),
            no_dash(b@.subrange(lo as int, i as int)),
        decreases hi - i,
    {
        if b[i] == 0x2d {
            assert(b@.subrange(lo as int, hi as int)[i - lo] == 0x2du8);
            return false;
        }
        let ghost prev = b@.subrange(lo as int, i as int);
        let ghost next = b@.subrange(lo as int, i + 1);
        assert forall|k: int| 0 <= k < next.len() implies #[trigger] next[k] != 0x2du8 by {
            if k < prev.len() {
                assert(next[k] == prev[k]);
            }
        }
        i = i + 1;
    }
    assert(b@.subrange(lo as int, i as int) =~= b@.subrange(lo as int, hi as int));
    true
}

/// Parse a W3C Trace Context `traceparent` header value into its trace
/// id and parent span id: `00-<32 hex>-<16 hex>-<2 hex>`, 55 bytes in
/// all. Any deviation, including an all-zero trace or parent span id,
/// gives `None`.
pub fn parse_traceparent(value: &str) -> (r: Option<(u128, u64)>)
    ensures
        r is Some <==> traceparent_spec(value.spec_bytes()) is Some,
        r matches Some((t, p)) ==> traceparent_spec(value.spec_bytes()) == Some((t as nat, p as nat)),
{
    let b = value.as_bytes();
    if b.len() != 55 {
        return None;
    }
    if !(b[0] == 0x30 && b[1] == 0x30 && b[2] == 0x2d && b[35] == 0x2d && b[52] == 0x2d) {
        return None;
    }
    if !(dash_free(b, 3, 35) && dash_free(b, 36, 52) && dash_free(b, 53, 55)) {
        return None;
    }
    let trace = match parse_radix16(b, 3, 35) {
        Some(t) => t,
        None => return None,
    };
    let parent = match parse_radix16(b, 36, 52) {
        Some(p) => p,
        None => return None,
    };
    if parse_radix16(b, 53, 55).is_none() {
        return None;
    }
    if trace == 0 || parent == 0 {
        return None;
    }
    proof {
        let ps = b@.subrange(36, 52);
        let pd = if ps.len() > 0 && ps[0] == 0x2bu8 {
            ps.drop_first()
        } else {
            ps
        };
        lemma_hex_value_bound(pd);
        lemma_pow16_mono(pd.len(), 16);
        lemma_pow16_values();
    }
    Some((trace, parent as u64))
}

/// `c` has the Unicode `White_Space` property.
pub open spec fn is_unicode_space(c: char) -> bool {
    let n = c as u32;
    (0x09 <= n <= 0x0d) || n == 0x20 || n == 0x85 || n == 0xa0 || n == 0x1680 || (0x2000 <= n
        <= 0x200a) || n == 0x2028 || n == 0x2029 || n == 0x202f || n == 0x205f || n == 0x3000
}

/// `s` without leading Unicode whitespace.
pub open spec fn trim_start_space(s: Seq<char>) -> Seq<char>
    decreases s.len(),
{
    if s.len() > 0 && is_unicode_space(s[0]) {
        trim_start_space(s.skip(1))
    } else {
        s
    }
}

/// `s` without trailing Unicode whitespace.
pub open spec fn trim_end_space(s: Seq<char>) -> Seq<char>
    decreases s.len(),
{
    if s.len() > 0 && is_unicode_space(s.last()) {
        trim_end_space(s.drop_last())
    } else {
        s
    }
}

/// `s` without leading or trailing Unicode whitespace, as `str::trim`
/// leaves it.
pub open spec fn trim_space(s: Seq<char>) -> Seq<char> {
    trim_end_space(trim_start_space(s))
}

fn unicode_space(c: char) -> (r: bool)
    ensures
        r == is_unicode_space(c),
{
    let n = c as u32;
    (0x09 <= n && n <= 0x0d) || n == 0x20 || n == 0x85 || n == 0xa0 || n == 0x1680 || (0x2000 <= n
        && n <= 0x200a) || n == 0x2028 || n == 0x2029 || n == 0x202f || n == 0x205f || n == 0x3000
}

/// `s` with leading and trailing Unicode whitespace removed.
pub fn trim_whitespace(s: &str) -> (t: String)
    ensures
        t@ == trim_space(s@),
{
    let v = chars_of(s);
    let mut lo: usize = 0;
    assert(v@.subrange(0, v@.len() as int) =~= v@);
    while lo < v.len() && unicode_space(v[lo])
        invariant
            0 <= lo <= v.len(),
            trim_start_space(v@) == trim_start_space(v@.subrange(lo as int, v@.len() as int)),
        decreases v.len() - lo,
    {
        let ghost sub = v@.subrange(lo as int, v@.len() as int);
        assert(sub.skip(1) =~= v@.subrange(lo + 1, v@.len() as int));
        lo = lo + 1;
    }
    let ghost start = v@.subrange(lo as int, v@.len() as int);
    let mut hi: usize = v.len();
    while hi > lo && unicode_space(v[hi - 1])
        invariant
            lo <= hi <= v.len(),
            start == v@.subrange(lo as int, v@.len() as int),
            trim_end_space(start) == trim_end_space(v@.subrange(lo as int, hi as int)),
        decreases hi - lo,
    {
        let ghost sub = v@.subrange(lo as int, hi as int);
        assert(sub.drop_last() =~= v@.subrange(lo as int, hi - 1));
        hi = hi - 1;
    }
    let mut w: Vec<char> = Vec::new();
    let mut k: usize = lo;
    while k < hi
        invariant
            lo <= k <= hi,
            hi <= v.len(),
            w@ == v@.subrange(lo as int, k as int),
        decreases hi - k,
    {
        w.push(v[k]);
        assert(v@.subrange(lo as int, k as int).push(v@[k as int]) =~= v@.subrange(
            lo as int,
            k + 1,
        ));
        k = k + 1;
    }
    string_from_chars(&w)
}

/// The value of a hexadecimal digit of either case.
pub open spec fn uuid_digit_value(c: char) -> Option<nat> {
    let n = c as int;
    if 0x30 <= n <= 0x39 {
        Some((n - 0x30) as nat)
    } else if 0x61 <= n <= 0x66 {
        Some((n - 0x61 + 10) as nat)
    } else if 0x41 <= n <= 0x46 {
        Some((n - 0x41 + 10) as nat)
    } else {
        None
    }
}

/// The number that the hexadecimal digits `d` spell, most significant
/// first; `None` if one of them is not a hexadecimal digit.
pub open spec fn hex_number(d: Seq<char>) -> Option<nat>
    decreases d.len(),
{
    if d.len() == 0 {
        Some(0)
    } else {
        match (hex_number(d.drop_last()), uuid_digit_value(d.last())) {
            (Some(high), Some(low)) => Some(high * 16 + low),
            _ => None,
        }
    }
}

/// The 32 digits of a hyphenated UUID: 36 characters with `-` at
/// positions 8, 13, 18 and 23.
pub open spec fn hyphenated_digits(s: Seq<char>) -> Option<Seq<char>> {
    if s.len() == 36 && s[8] == '-' && s[13] == '-' && s[18] == '-' && s[23] == '-' {
        Some(
            s.subrange(0, 8) + s.subrange(9, 13) + s.subrange(14, 18) + s.subrange(19, 23)
                + s.subrange(24, 36),
        )
    } else {
        None
    }
}

/// `c` with an ASCII capital letter lowered.
pub open spec fn ascii_lower(c: char) -> char {
    if 0x41 <= (c as int) <= 0x5a {
        ((c as int) + 32) as char
    } else {
        c
    }
}

/// `p` is `urn:uuid:` in any ASCII case.
pub open spec fn is_urn_prefix(p: Seq<char>) -> bool {
    p.len() == 9 && forall|i: int| 0 <= i < 9 ==> ascii_lower(#[trigger] p[i]) == "urn:uuid:"@[i]
}

/// The 32 hexadecimal digits of a UUID text in one of the four forms that
/// `uuid` accepts: simple (32 digits), hyphenated, braced (`{..}` around a
/// hyphenated one) and URN (`urn:uuid:` before a hyphenated one).
pub open spec fn uuid_digits(s: Seq<char>) -> Option<Seq<char>> {
    if s.len() == 32 {
        Some(s)
    } else if s.len() == 36 {
        hyphenated_digits(s)
    } else if s.len() == 38 && s[0] == '{' && s[37] == '}' {
        hyphenated_digits(s.subrange(1, 37))
    } else if s.len() == 45 && is_urn_prefix(s.subrange(0, 9)) {
        hyphenated_digits(s.subrange(9, 45))
    } else {
        None
    }
}

/// The 128-bit value of the UUID text `s`, if it is one.
pub open spec fn uuid_value(s: Seq<char>) -> Option<u128> {
    match uuid_digits(s) {
        Some(d) => match hex_number(d) {
            Some(n) => Some(n as u128),
            None => None,
        },
        None => None,
    }
}

/// The four textual forms of a UUID agree: a 36-character hyphenated text
/// reads the same braced, behind `urn:uuid:` (in any case), and written
/// as its 32 digits without hyphens.
pub proof fn law_uuid_forms_agree(h: Seq<char>, prefix: Seq<char>)
    requires
        h.len() == 36,
        is_urn_prefix(prefix),
    ensures
        uuid_value(seq!['{'] + h + seq!['}']) == uuid_value(h),
        uuid_value(prefix + h) == uuid_value(h),
        hyphenated_digits(h) matches Some(d) ==> uuid_value(d) == uuid_value(h),
{
    let b = seq!['{'] + h + seq!['}'];
    assert(b.subrange(1, 37) =~= h);
    let u = prefix + h;
    assert(u.subrange(0, 9) =~= prefix);
    assert(u.subrange(9, 45) =~= h);
    if hyphenated_digits(h) is Some {
        let d = hyphenated_digits(h)->0;
        assert(d.len() == 32);
    }
}

/// Parses `s` as a UUID and returns its 128-bit value.
///
/// Calls `uuid::Uuid::parse_str` and converts with `Uuid::as_u128`, which
/// reads the 16 bytes big-endian. The contract states the parser's
/// grammar: the simple, hyphenated, braced and URN forms, hexadecimal
/// digits of either case, and nothing else.
#[verifier::external_body]
fn parse_uuid(s: &str) -> (r: Option<u128>)
    ensures
        r == uuid_value(s@),
{
    match uuid::Uuid::parse_str(s) {
        Ok(u) => Some(u.as_u128()),
        Err(_) => None,
    }
}

/// The correlation chosen from a parsed `traceparent` (trace id, parent
/// span id) and a parsed `X-Correlation-ID` fallback: the trace context
/// wins, then the fallback, else absent.
pub fn correlation_from(traced: Option<(u128, u64)>, fallback: Option<u128>) -> (c: Correlation)
    ensures
        c == correlation_choice(traced, fallback),
{
    match traced {
        Some((t, p)) => Correlation::Traced { correlation: t, causation: p as u128 },
        None => match fallback {
            Some(u) => Correlation::Correlated(u),
            None => Correlation::Absent,
        },
    }
}

/// The correlation chosen from a parsed trace context and fallback id.
pub open spec fn correlation_choice(traced: Option<(u128, u64)>, fallback: Option<u128>) -> Correlation {
    match traced {
        Some((t, p)) => Correlation::Traced { correlation: t, causation: p as u128 },
        None => match fallback {
            Some(u) => Correlation::Correlated(u),
            None => Correlation::Absent,
        },
    }
}

/// The trace context of an optional `traceparent` header value.
pub open spec fn traced_of(traceparent: Option<Seq<u8>>) -> Option<(u128, u64)> {
    match traceparent {
        Some(b) => match traceparent_spec(b) {
            Some((t, p)) => Some((t as u128, p as u64)),
            None => None,
        },
        None => None,
    }
}

/// A valid `traceparent` always wins, and its two ids come through as the
/// header spells them: the correlation is the 32-digit trace id and the
/// causation is the 16-digit parent span id, zero-extended to 128 bits
/// (so below `2^64`), whatever the fallback header holds.
pub proof fn law_trace_ids_come_from_the_header(b: Seq<u8>, fallback: Option<u128>)
    requires
        traceparent_spec(b) is Some,
    ensures
        correlation_choice(traced_of(Some(b)), fallback) matches Correlation::Traced {
            correlation: t,
            causation: c,
        } && radix16(b.subrange(3, 35)) == Some(t as nat) && radix16(b.subrange(36, 52)) == Some(
            c as nat,
        ) && c < 0x1_0000_0000_0000_0000,
{
    let ts = b.subrange(3, 35);
    let ps = b.subrange(36, 52);
    let td = if ts.len() > 0 && ts[0] == 0x2bu8 {
        ts.drop_first()
    } else {
        ts
    };
    let pd = if ps.len() > 0 && ps[0] == 0x2bu8 {
        ps.drop_first()
    } else {
        ps
    };
    lemma_hex_value_bound(td);
    lemma_hex_value_bound(pd);
    lemma_pow16_mono(td.len(), 32);
    lemma_pow16_mono(pd.len(), 16);
    lemma_pow16_values();
}

/// Without a valid `traceparent`, the fallback header decides alone: its
/// UUID when it carries one, else no correlation; nothing is invented.
pub proof fn law_fallback_only_without_trace(b: Option<Seq<u8>>, x: Option<Seq<char>>)
    requires
        match b {
            Some(bytes) => traceparent_spec(bytes) is None,
            None => true,
        },
    ensures
        correlation_choice(traced_of(b), fallback_of(x)) == (match fallback_of(x) {
            Some(u) => Correlation::Correlated(u),
            None => Correlation::Absent,
        }),
{
}

/// The fallback id of an optional `X-Correlation-ID` header value.
pub open spec fn fallback_of(x_correlation_id: Option<Seq<char>>) -> Option<u128> {
    match x_correlation_id {
        Some(s) => uuid_value(trim_space(s)),
        None => None,
    }
}

/// Extract the correlation of a request from its `traceparent` and
/// `X-Correlation-ID` header values, each given when present and
/// readable as text. Never synthesises an id.
pub fn extract_correlation(traceparent: Option<&str>, x_correlation_id: Option<&str>) -> (c:
    Correlation)
    ensures
        c == correlation_choice(
            traced_of(
                match traceparent {
                    Some(t) => Some(t.spec_bytes()),
                    None => None,
                },
            ),
            fallback_of(
                match x_correlation_id {
                    Some(x) => Some(x@),
                    None => None,
                },
            ),
        ),
{
    let traced = match traceparent {
        Some(t) => parse_traceparent(t),
        None => None,
    };
    let fallback = match traced {
        Some(_) => None,
        None => match x_correlation_id {
            Some(x) => {
                let trimmed = trim_whitespace(x);
                parse_uuid(trimmed.as_str())
            },
            None => None,
        },
    };
    proof {
        if traced is None {
            assert(fallback == fallback_of(
                match x_correlation_id {
                    Some(x) => Some(x@),
                    None => None,
                },
            ));
        }
    }
    correlation_from(traced, fallback)
}

} // verus!
