//! Character-level helpers shared by the path, header and configuration
//! checks.
use vstd::prelude::*;

verus! {

broadcast use vstd::string::group_string_axioms;

/// `s` holds two consecutive `.` characters somewhere.
pub open spec fn has_dot_dot(s: Seq<char>) -> bool {
    exists|i: int| 0 <= i && i + 1 < s.len() && #[trigger] s[i] == '.' && s[i + 1] == '.'
}

/// The characters of `s`, in order.
pub fn chars_of(s: &str) -> (v: Vec<char>)
    ensures
        v@ == s@,
{
    let mut v: Vec<char> = Vec::new();
    for c in iter: s.chars()
        invariant
            v@ == iter.seq().take(iter.index() as int),
    {
        v.push(c);
    }
    v
}

/// Whether `c` occurs in `v`.
pub fn contains_char(v: &Vec<char>, c: char) -> (r: bool)
    ensures
        r == v@.contains(c),
{
    let mut i: usize = 0;
    while i < v.len()
        invariant
            0 <= i <= v.len(),
            forall|j: int| 0 <= j < i ==> v@[j] != c,
        decreases v.len() - i,
    {
        if v[i] == c {
            assert(v@[i as int] == c);
            return true;
        }
        i = i + 1;
    }
    false
}

/// Whether `v` holds two consecutive `.` characters.
pub fn contains_dot_dot(v: &Vec<char>) -> (r: bool)
    ensures
        r == has_dot_dot(v@),
{
    let n = v.len();
    if n < 2 {
        return false;
    }
    let mut i: usize = 0;
    while i < n - 1
        invariant
            n == v.len(),
            n >= 2,
            0 <= i <= n - 1,
            forall|j: int| 0 <= j < i ==> !(#[trigger] v@[j] == '.' && v@[j + 1] == '.'),
        decreases n - 1 - i,
    {
        if v[i] == '.' && v[i + 1] == '.' {
            return true;
        }
        i = i + 1;
    }
    false
}

/// The code points of `s`, one byte each (exact for ASCII text).
pub(crate) fn ascii_bytes(s: &str) -> (b: Vec<u8>)
    ensures
        b@ == s@.map_values(|c: char| c as u8),
{
    let v = chars_of(s);
    let mut b: Vec<u8> = Vec::new();
    let mut i: usize = 0;
    while i < v.len()
        invariant
            0 <= i <= v.len(),
            v@ == s@,
            b@ == s@.map_values(|c: char| c as u8).take(i as int),
        decreases v.len() - i,
    {
        b.push(v[i] as u8);
        assert(s@.map_values(|c: char| c as u8).take(i as int).push(v[i as int] as u8) =~= s@.map_values(
            |c: char| c as u8,
        ).take(i + 1));
        i = i + 1;
    }
    assert(s@.map_values(|c: char| c as u8).take(v.len() as int) =~= s@.map_values(|c: char| c as u8));
    b
}

/// A `String` holding exactly the characters of `v`.
pub fn string_from_chars(v: &Vec<char>) -> (s: String)
    ensures
        s@ == v@,
{
    let mut s = String::new();
    let mut i: usize = 0;
    while i < v.len()
        invariant
            0 <= i <= v.len(),
            s@ == v@.take(i as int),
        decreases v.len() - i,
    {
        push_char(&mut s, v[i]);
        assert(v@.take(i as int).push(v@[i as int]) == v@.take(i + 1));
        i = i + 1;
    }
    assert(v@.take(v.len() as int) == v@);
    s
}

/// Appends `c` to `s`.
///
/// Calls `String::push`; the contract claims that the character is
/// appended at the end and nothing else changes.
#[verifier::external_body]
pub(crate) fn push_char(s: &mut String, c: char)
    ensures
        final(s)@ == old(s)@.push(c),
{
    s.push(c);
}

} // verus!
