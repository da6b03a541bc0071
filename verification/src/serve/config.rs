//! Presentation options for the generic serve surface.
//!
//! [`ServeOptionsBuilder`] collects the CSP header value and the custom
//! error-page cache key; [`ServeOptions`] is produced only by
//! [`ServeOptionsBuilder::build`], so options that reach the router have
//! always been checked.
use vstd::prelude::*;

use crate::validation::{
    check_csp, check_error_page_key, csp_problem, key_problem, opt_as_str, opt_str_view, opt_view,
    CspProblem, KeyProblem,
};

verus! {

/// Typed errors for options validation.
#[derive(Debug, Clone, PartialEq, Eq, Structural)]
pub enum ConfigError {
    /// `error_page_key` was empty.
    ErrorPageKeyEmpty,
    /// `error_page_key` started with `/`.
    ErrorPageKeyLeadingSlash,
    /// `error_page_key` contained `..`.
    ErrorPageKeyTraversal,
    /// `error_page_key` contained a null byte.
    ErrorPageKeyNullByte,
    /// `error_page_key` contained a backslash.
    ErrorPageKeyBackslash,
    /// `csp_override` contained non-ASCII characters.
    CspNotAscii,
    /// `csp_override` contained CR or LF characters.
    CspContainsCrlf,
}

/// The message of each error.
pub open spec fn config_error_message(e: ConfigError) -> Seq<char> {
    match e {
        ConfigError::ErrorPageKeyEmpty => "error_page_key must not be empty"@,
        ConfigError::ErrorPageKeyLeadingSlash => "error_page_key must not start with '/'"@,
        ConfigError::ErrorPageKeyTraversal => "error_page_key must not contain '..'"@,
        ConfigError::ErrorPageKeyNullByte => "error_page_key must not contain null bytes"@,
        ConfigError::ErrorPageKeyBackslash => "error_page_key must not contain backslashes"@,
        ConfigError::CspNotAscii => "csp_override must be valid ASCII"@,
        ConfigError::CspContainsCrlf => "csp_override must not contain CR or LF characters"@,
    }
}

impl ConfigError {
    /// The human-readable message for this error.
    pub fn to_string(&self) -> (s: String)
        ensures
            s@ == config_error_message(*self),
    {
        match self {
            ConfigError::ErrorPageKeyEmpty => "error_page_key must not be empty".to_owned(),
            ConfigError::ErrorPageKeyLeadingSlash => "error_page_key must not start with '/'".to_owned(),
            ConfigError::ErrorPageKeyTraversal => "error_page_key must not contain '..'".to_owned(),
            ConfigError::ErrorPageKeyNullByte => "error_page_key must not contain null bytes".to_owned(),
            ConfigError::ErrorPageKeyBackslash => "error_page_key must not contain backslashes".to_owned(),
            ConfigError::CspNotAscii => "csp_override must be valid ASCII".to_owned(),
            ConfigError::CspContainsCrlf => "csp_override must not contain CR or LF characters".to_owned(),
        }
    }
}

/// The error for a failed error-page key check.
pub open spec fn key_error(p: KeyProblem) -> ConfigError {
    match p {
        KeyProblem::Empty => ConfigError::ErrorPageKeyEmpty,
        KeyProblem::LeadingSlash => ConfigError::ErrorPageKeyLeadingSlash,
        KeyProblem::Traversal => ConfigError::ErrorPageKeyTraversal,
        KeyProblem::NullByte => ConfigError::ErrorPageKeyNullByte,
        KeyProblem::Backslash => ConfigError::ErrorPageKeyBackslash,
    }
}

/// The error for a failed CSP check.
pub open spec fn csp_error(p: CspProblem) -> ConfigError {
    match p {
        CspProblem::NotAscii => ConfigError::CspNotAscii,
        CspProblem::ContainsCrlf => ConfigError::CspContainsCrlf,
    }
}

/// The first error that options with error-page key `key` and CSP
/// override `csp` have, if any: the key is checked before the CSP.
pub open spec fn options_error(key: Option<Seq<char>>, csp: Option<Seq<char>>) -> Option<
    ConfigError,
> {
    if key is Some && key_problem(key->0) is Some {
        Some(key_error(key_problem(key->0)->0))
    } else if csp is Some && csp_problem(csp->0) is Some {
        Some(csp_error(csp_problem(csp->0)->0))
    } else {
        None
    }
}

fn to_key_error(p: KeyProblem) -> (e: ConfigError)
    ensures
        e == key_error(p),
{
    match p {
        KeyProblem::Empty => ConfigError::ErrorPageKeyEmpty,
        KeyProblem::LeadingSlash => ConfigError::ErrorPageKeyLeadingSlash,
        KeyProblem::Traversal => ConfigError::ErrorPageKeyTraversal,
        KeyProblem::NullByte => ConfigError::ErrorPageKeyNullByte,
        KeyProblem::Backslash => ConfigError::ErrorPageKeyBackslash,
    }
}

fn to_csp_error(p: CspProblem) -> (e: ConfigError)
    ensures
        e == csp_error(p),
{
    match p {
        CspProblem::NotAscii => ConfigError::CspNotAscii,
        CspProblem::ContainsCrlf => ConfigError::CspContainsCrlf,
    }
}

/// Checks the optional error-page key and CSP override, key first.
pub fn check_options(key: &Option<String>, csp: &Option<String>) -> (r: Option<ConfigError>)
    ensures
        r == options_error(opt_view(*key), opt_view(*csp)),
{
    if let Some(k) = key {
        if let Some(p) = check_error_page_key(k.as_str()) {
            return Some(to_key_error(p));
        }
    }
    if let Some(c) = csp {
        if let Some(p) = check_csp(c.as_str()) {
            return Some(to_csp_error(p));
        }
    }
    None
}

/// Builder for [`ServeOptions`].
#[derive(Debug, Clone)]
pub struct ServeOptionsBuilder {
    csp_override: Option<String>,
    error_page_key: Option<String>,
}

impl ServeOptionsBuilder {
    /// The CSP override set so far.
    pub closed spec fn spec_csp(&self) -> Option<Seq<char>> {
        opt_view(self.csp_override)
    }

    /// The error-page key set so far.
    pub closed spec fn spec_key(&self) -> Option<Seq<char>> {
        opt_view(self.error_page_key)
    }

    /// A builder with neither option set.
    pub fn new() -> (b: Self)
        ensures
            b.spec_csp() is None,
            b.spec_key() is None,
    {
        ServeOptionsBuilder { csp_override: None, error_page_key: None }
    }

    /// Override the default Content-Security-Policy header.
    pub fn csp_override(self, csp: &str) -> (b: Self)
        ensures
            b.spec_csp() == Some(csp@),
            b.spec_key() == self.spec_key(),
    {
        ServeOptionsBuilder { csp_override: Some(csp.to_owned()), ..self }
    }

    /// Set the cache key for a custom error page (e.g., `"404.html"`).
    pub fn error_page_key(self, key: &str) -> (b: Self)
        ensures
            b.spec_key() == Some(key@),
            b.spec_csp() == self.spec_csp(),
    {
        ServeOptionsBuilder { error_page_key: Some(key.to_owned()), ..self }
    }

    /// Validate and build the options.
    ///
    /// The error-page key must be non-empty, must not start with `/` and
    /// must not contain `..`, a null character or a backslash; the CSP
    /// override must be ASCII without CR or LF. The first failing check
    /// is reported.
    pub fn build(self) -> (r: Result<ServeOptions, ConfigError>)
        ensures
            match options_error(self.spec_key(), self.spec_csp()) {
                Some(e) => r == Err::<ServeOptions, ConfigError>(e),
                None => r is Ok && r->Ok_0.spec_csp() == self.spec_csp() && r->Ok_0.spec_key()
                    == self.spec_key(),
            },
    {
        if let Some(e) = check_options(&self.error_page_key, &self.csp_override) {
            return Err(e);
        }
        Ok(ServeOptions { csp_override: self.csp_override, error_page_key: self.error_page_key })
    }
}

impl Default for ServeOptionsBuilder {
    fn default() -> (b: Self)
        ensures
            b.spec_csp() is None,
            b.spec_key() is None,
    {
        ServeOptionsBuilder::new()
    }
}

/// Validated, immutable presentation options for the serve surface.
///
/// Produced only by [`ServeOptionsBuilder::build`]; not `Clone`, so the
/// inner values cannot be extracted to bypass validation.
#[derive(Debug, PartialEq)]
#[non_exhaustive]
pub struct ServeOptions {
    csp_override: Option<String>,
    error_page_key: Option<String>,
}

impl ServeOptions {
    /// Every value passed the checks of `build`.
    #[verifier::type_invariant]
    spec fn checked(self) -> bool {
        options_error(opt_view(self.error_page_key), opt_view(self.csp_override)) is None
    }

    /// The CSP override.
    pub closed spec fn spec_csp(&self) -> Option<Seq<char>> {
        opt_view(self.csp_override)
    }

    /// The error-page key.
    pub closed spec fn spec_key(&self) -> Option<Seq<char>> {
        opt_view(self.error_page_key)
    }

    /// Create a new [`ServeOptionsBuilder`] with neither option set.
    pub fn builder() -> (b: ServeOptionsBuilder)
        ensures
            b.spec_csp() is None,
            b.spec_key() is None,
    {
        ServeOptionsBuilder::new()
    }

    /// CSP override, if set.
    pub fn csp_override(&self) -> (r: Option<&str>)
        ensures
            opt_str_view(r) == self.spec_csp(),
            r matches Some(s) ==> csp_problem(s@) is None,
    {
        proof {
            use_type_invariant(self);
        }
        opt_as_str(&self.csp_override)
    }

    /// Error page cache key, if set.
    pub fn error_page_key(&self) -> (r: Option<&str>)
        ensures
            opt_str_view(r) == self.spec_key(),
            r matches Some(k) ==> key_problem(k@) is None,
    {
        proof {
            use_type_invariant(self);
        }
        opt_as_str(&self.error_page_key)
    }
}

} // verus!
