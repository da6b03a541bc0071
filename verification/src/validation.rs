//! Checks on the presentation options shared by both server
//! configurations: the custom error-page cache key and the CSP override.
use vstd::prelude::*;

use crate::text::{chars_of, contains_char, contains_dot_dot, has_dot_dot};

verus! {

broadcast use vstd::string::group_string_axioms;

/// Which check an error-page key fails first, if any.
pub enum KeyProblem {
    /// The key is empty.
    Empty,
    /// The key starts with `/`.
    LeadingSlash,
    /// The key contains `..`.
    Traversal,
    /// The key contains a null character.
    NullByte,
    /// The key contains a backslash.
    Backslash,
}

/// Which check a CSP override fails first, if any.
pub enum CspProblem {
    /// The value holds a non-ASCII character.
    NotAscii,
    /// The value holds a carriage return or a line feed.
    ContainsCrlf,
}

/// The first check that error-page key `k` fails: empty, leading `/`,
/// `..`, null character, backslash, in that order.
pub open spec fn key_problem(k: Seq<char>) -> Option<KeyProblem> {
    if k.len() == 0 {
        Some(KeyProblem::Empty)
    } else if k[0] == '/' {
        Some(KeyProblem::LeadingSlash)
    } else if has_dot_dot(k) {
        Some(KeyProblem::Traversal)
    } else if k.contains('\0') {
        Some(KeyProblem::NullByte)
    } else if k.contains('\\') {
        Some(KeyProblem::Backslash)
    } else {
        None
    }
}

/// The first check that CSP value `c` fails: ASCII, then no CR or LF.
pub open spec fn csp_problem(c: Seq<char>) -> Option<CspProblem> {
    if !vstd::utf8::is_ascii_chars(c) {
        Some(CspProblem::NotAscii)
    } else if c.contains('\r') || c.contains('\n') {
        Some(CspProblem::ContainsCrlf)
    } else {
        None
    }
}

/// An error-page key is accepted exactly when it is non-empty, does not
/// start with `/`, and holds no `..`, no null character and no backslash
/// anywhere.
pub proof fn law_key_rules(k: Seq<char>)
    ensures
        key_problem(k) is None <==> (k.len() > 0 && k[0] != '/' && (forall|i: int|
            0 <= i < k.len() - 1 ==> !(#[trigger] k[i] == '.' && k[i + 1] == '.')) && (forall|i: int|
            0 <= i < k.len() ==> #[trigger] k[i] != '\0' && k[i] != '\\')),
{
    if k.len() > 0 && k[0] != '/' && (forall|i: int|
        0 <= i < k.len() - 1 ==> !(#[trigger] k[i] == '.' && k[i + 1] == '.')) && (forall|i: int|
        0 <= i < k.len() ==> #[trigger] k[i] != '\0' && k[i] != '\\') {
        assert(!k.contains('\0'));
        assert(!k.contains('\\'));
    }
    if k.contains('\0') {
        let i = choose|i: int| 0 <= i < k.len() && k[i] == '\0';
        assert(k[i] == '\0');
    }
    if k.contains('\\') {
        let i = choose|i: int| 0 <= i < k.len() && k[i] == '\\';
        assert(k[i] == '\\');
    }
}

/// A CSP override is accepted exactly when every character is ASCII and
/// none is a carriage return or a line feed.
pub proof fn law_csp_rules(c: Seq<char>)
    ensures
        csp_problem(c) is None <==> (vstd::utf8::is_ascii_chars(c) && forall|i: int|
            0 <= i < c.len() ==> #[trigger] c[i] != '\r' && c[i] != '\n'),
{
    if c.contains('\r') {
        let i = choose|i: int| 0 <= i < c.len() && c[i] == '\r';
        assert(c[i] == '\r');
    }
    if c.contains('\n') {
        let i = choose|i: int| 0 <= i < c.len() && c[i] == '\n';
        assert(c[i] == '\n');
    }
}

/// Checks an error-page key.
pub fn check_error_page_key(key: &str) -> (r: Option<KeyProblem>)
    ensures
        r == key_problem(key@),
{
    let v = chars_of(key);
    if v.len() == 0 {
        return Some(KeyProblem::Empty);
    }
    if v[0] == '/' {
        return Some(KeyProblem::LeadingSlash);
    }
    if contains_dot_dot(&v) {
        return Some(KeyProblem::Traversal);
    }
    if contains_char(&v, '\0') {
        return Some(KeyProblem::NullByte);
    }
    if contains_char(&v, '\\') {
        return Some(KeyProblem::Backslash);
    }
    None
}

/// Checks a CSP override value.
pub fn check_csp(csp: &str) -> (r: Option<CspProblem>)
    ensures
        r == csp_problem(csp@),
{
    if !csp.is_ascii() {
        return Some(CspProblem::NotAscii);
    }
    let v = chars_of(csp);
    if contains_char(&v, '\r') || contains_char(&v, '\n') {
        return Some(CspProblem::ContainsCrlf);
    }
    None
}

/// Borrows the text of an optional owned string.
pub fn opt_as_str(o: &Option<String>) -> (r: Option<&str>)
    ensures
        match o {
            Some(s) => r is Some && r->0@ == s@,
            None => r is None,
        },
{
    match o {
        Some(s) => Some(s.as_str()),
        None => None,
    }
}

/// The text of an optional owned string.
pub open spec fn opt_view(o: Option<String>) -> Option<Seq<char>> {
    match o {
        Some(s) => Some(s@),
        None => None,
    }
}

/// The text of an optional borrowed string.
pub open spec fn opt_str_view(o: Option<&str>) -> Option<Seq<char>> {
    match o {
        Some(s) => Some(s@),
        None => None,
    }
}

} // verus!
