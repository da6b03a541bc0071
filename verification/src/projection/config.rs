//! Projection server configuration with a validating builder.
//!
//! [`ServerConfigBuilder`] collects the settings; [`ValidatedConfig`] is
//! produced only by [`ServerConfigBuilder::build`], so a server that
//! accepts `&ValidatedConfig` never sees unchecked values.
use vstd::prelude::*;

use crate::validation::{
    check_csp, check_error_page_key, csp_problem, key_problem, opt_as_str, opt_str_view, opt_view,
    CspProblem, KeyProblem,
};

verus! {

/// Typed errors for configuration validation, one per rule.
#[derive(Debug, Clone, PartialEq, Eq, Structural)]
pub enum ConfigError {
    /// `concurrency_limit` was set to 0.
    ConcurrencyLimitZero,
    /// `concurrency_limit` exceeds Tokio's semaphore capacity.
    ConcurrencyLimitOverflow,
    /// `ws_max_connections` was set to 0.
    WsMaxConnectionsZero,
    /// `ws_max_connections` exceeds Tokio's semaphore capacity.
    WsMaxConnectionsOverflow,
    /// `max_request_body_bytes` was set to 0.
    MaxRequestBodyBytesZero,
    /// `error_page_key` was empty.
    ErrorPageKeyEmpty,
    /// `error_page_key` started with `/`.
    ErrorPageKeyLeadingSlash,
    /// `error_page_key` contained `..`.
    ErrorPageKeyTraversal,
    /// `error_page_key` contained a null byte.
    ErrorPageKeyNullByte,
    /// `error_page_key` contained a backslash.
    ErrorPageKeyBackslash,
    /// `csp_override` contained non-ASCII characters.
    CspNotAscii,
    /// `csp_override` contained CR or LF characters; a header value with
    /// them would make router construction fail.
    CspContainsCrlf,
}

/// The message of each error.
pub open spec fn config_error_message(e: ConfigError) -> Seq<char> {
    match e {
        ConfigError::ConcurrencyLimitZero => "concurrency_limit must be >= 1"@,
        ConfigError::ConcurrencyLimitOverflow => "concurrency_limit exceeds Semaphore::MAX_PERMITS"@,
        ConfigError::WsMaxConnectionsZero => "ws_max_connections must be >= 1"@,
        ConfigError::WsMaxConnectionsOverflow => "ws_max_connections exceeds Semaphore::MAX_PERMITS"@,
        ConfigError::MaxRequestBodyBytesZero => "max_request_body_bytes must be >= 1"@,
        ConfigError::ErrorPageKeyEmpty => "error_page_key must not be empty"@,
        ConfigError::ErrorPageKeyLeadingSlash => "error_page_key must not start with '/'"@,
        ConfigError::ErrorPageKeyTraversal => "error_page_key must not contain '..'"@,
        ConfigError::ErrorPageKeyNullByte => "error_page_key must not contain null bytes"@,
        ConfigError::ErrorPageKeyBackslash => "error_page_key must not contain backslashes"@,
        ConfigError::CspNotAscii => "csp_override must be valid ASCII"@,
        ConfigError::CspContainsCrlf => "csp_override must not contain CR or LF characters"@,
    }
}

impl ConfigError {
    /// The human-readable message for this error.
    pub fn to_string(&self) -> (s: String)
        ensures
            s@ == config_error_message(*self),
    {
        match self {
            ConfigError::ConcurrencyLimitZero => "concurrency_limit must be >= 1".to_owned(),
            ConfigError::ConcurrencyLimitOverflow => "concurrency_limit exceeds Semaphore::MAX_PERMITS".to_owned(),
            ConfigError::WsMaxConnectionsZero => "ws_max_connections must be >= 1".to_owned(),
            ConfigError::WsMaxConnectionsOverflow => "ws_max_connections exceeds Semaphore::MAX_PERMITS".to_owned(),
            ConfigError::MaxRequestBodyBytesZero => "max_request_body_bytes must be >= 1".to_owned(),
            ConfigError::ErrorPageKeyEmpty => "error_page_key must not be empty".to_owned(),
            ConfigError::ErrorPageKeyLeadingSlash => "error_page_key must not start with '/'".to_owned(),
            ConfigError::ErrorPageKeyTraversal => "error_page_key must not contain '..'".to_owned(),
            ConfigError::ErrorPageKeyNullByte => "error_page_key must not contain null bytes".to_owned(),
            ConfigError::ErrorPageKeyBackslash => "error_page_key must not contain backslashes".to_owned(),
            ConfigError::CspNotAscii => "csp_override must be valid ASCII".to_owned(),
            ConfigError::CspContainsCrlf => "csp_override must not contain CR or LF characters".to_owned(),
        }
    }
}

/// The largest permit count a Tokio semaphore holds, `usize::MAX >> 3`.
pub open spec fn max_permits() -> usize {
    usize::MAX >> 3
}

/// The semaphore ceiling is at least `2^29 - 1` on every target Verus
/// admits (32- and 64-bit `usize`), so the defaults fit under it.
pub proof fn lemma_max_permits_lower_bound()
    ensures
        max_permits() >= 0x1fff_ffff,
{
    let m: usize = usize::MAX;
    assert(m >> 3 == m / 8) by (bit_vector);
    assert(m == 0xffff_ffff || m == 0xffff_ffff_ffff_ffff);
}

/// A configuration builds exactly when both permit counts lie in
/// `1..=max_permits()`, the body limit is at least 1, and the key and CSP,
/// when set, pass their checks; the defaults (1024 requests, 1024 bytes,
/// 200 WebSocket connections, nothing else set) always build.
pub proof fn law_config_accepts(
    concurrency: usize,
    body: usize,
    ws: usize,
    key: Option<Seq<char>>,
    csp: Option<Seq<char>>,
)
    ensures
        config_error(concurrency, body, ws, key, csp) is None <==> (1 <= concurrency <= max_permits()
            && 1 <= ws <= max_permits() && body >= 1 && (key matches Some(k) ==> key_problem(k) is None)
            && (csp matches Some(c) ==> csp_problem(c) is None)),
        config_error(1024, 1024, 200, None, None) is None,
{
    lemma_max_permits_lower_bound();
}

/// Tokio's `Semaphore::MAX_PERMITS`.
///
/// Reads the constant `tokio::sync::Semaphore::MAX_PERMITS`; the contract
/// claims the value its source defines, `usize::MAX >> 3`.
#[verifier::external_body]
pub(crate) fn semaphore_max_permits() -> (n: usize)
    ensures
        n == max_permits(),
{
    tokio::sync::Semaphore::MAX_PERMITS
}

/// The error for a failed error-page key check.
pub open spec fn key_error(p: KeyProblem) -> ConfigError {
    match p {
        KeyProblem::Empty => ConfigError::ErrorPageKeyEmpty,
        KeyProblem::LeadingSlash => ConfigError::ErrorPageKeyLeadingSlash,
        KeyProblem::Traversal => ConfigError::ErrorPageKeyTraversal,
        KeyProblem::NullByte => ConfigError::ErrorPageKeyNullByte,
        KeyProblem::Backslash => ConfigError::ErrorPageKeyBackslash,
    }
}

/// The error for a failed CSP check.
pub open spec fn csp_error(p: CspProblem) -> ConfigError {
    match p {
        CspProblem::NotAscii => ConfigError::CspNotAscii,
        CspProblem::ContainsCrlf => ConfigError::CspContainsCrlf,
    }
}

/// The first error that a configuration with these settings has, if any:
/// sizes in the order concurrency, WebSocket connections, body; then the
/// error-page key; then the CSP override.
pub open spec fn config_error(
    concurrency: usize,
    body: usize,
    ws: usize,
    key: Option<Seq<char>>,
    csp: Option<Seq<char>>,
) -> Option<ConfigError> {
    if concurrency == 0 {
        Some(ConfigError::ConcurrencyLimitZero)
    } else if concurrency > max_permits() {
        Some(ConfigError::ConcurrencyLimitOverflow)
    } else if ws == 0 {
        Some(ConfigError::WsMaxConnectionsZero)
    } else if ws > max_permits() {
        Some(ConfigError::WsMaxConnectionsOverflow)
    } else if body < 1 {
        Some(ConfigError::MaxRequestBodyBytesZero)
    } else if key is Some && key_problem(key->0) is Some {
        Some(key_error(key_problem(key->0)->0))
    } else if csp is Some && csp_problem(csp->0) is Some {
        Some(csp_error(csp_problem(csp->0)->0))
    } else {
        None
    }
}

fn to_key_error(p: KeyProblem) -> (e: ConfigError)
    ensures
        e == key_error(p),
{
    match p {
        KeyProblem::Empty => ConfigError::ErrorPageKeyEmpty,
        KeyProblem::LeadingSlash => ConfigError::ErrorPageKeyLeadingSlash,
        KeyProblem::Traversal => ConfigError::ErrorPageKeyTraversal,
        KeyProblem::NullByte => ConfigError::ErrorPageKeyNullByte,
        KeyProblem::Backslash => ConfigError::ErrorPageKeyBackslash,
    }
}

fn to_csp_error(p: CspProblem) -> (e: ConfigError)
    ensures
        e == csp_error(p),
{
    match p {
        CspProblem::NotAscii => ConfigError::CspNotAscii,
        CspProblem::ContainsCrlf => ConfigError::CspContainsCrlf,
    }
}

/// Entry point for creating projection server configuration; a
/// namespace for [`ServerConfig::builder`].
#[derive(Debug)]
#[non_exhaustive]
pub struct ServerConfig;

impl ServerConfig {
    /// Create a new [`ServerConfigBuilder`] with default values:
    /// concurrency limit 1024, body limit 1024 bytes, 200 WebSocket
    /// connections, no CSP override and no error page.
    pub fn builder() -> (b: ServerConfigBuilder)
        ensures
            b.spec_concurrency_limit() == 1024,
            b.spec_max_request_body_bytes() == 1024,
            b.spec_ws_max_connections() == 200,
            b.spec_csp() is None,
            b.spec_key() is None,
    {
        ServerConfigBuilder::new()
    }
}

/// Builder for projection server configuration.
///
/// Created via [`ServerConfig::builder`]; every setter consumes and
/// returns the builder for chaining.
#[derive(Debug, Clone)]
pub struct ServerConfigBuilder {
    concurrency_limit: usize,
    max_request_body_bytes: usize,
    ws_max_connections: usize,
    csp_override: Option<String>,
    error_page_key: Option<String>,
}

impl ServerConfigBuilder {
    /// The concurrency limit set so far.
    pub closed spec fn spec_concurrency_limit(&self) -> usize {
        self.concurrency_limit
    }

    /// The body limit set so far.
    pub closed spec fn spec_max_request_body_bytes(&self) -> usize {
        self.max_request_body_bytes
    }

    /// The WebSocket connection limit set so far.
    pub closed spec fn spec_ws_max_connections(&self) -> usize {
        self.ws_max_connections
    }

    /// The CSP override set so far.
    pub closed spec fn spec_csp(&self) -> Option<Seq<char>> {
        opt_view(self.csp_override)
    }

    /// The error-page key set so far.
    pub closed spec fn spec_key(&self) -> Option<Seq<char>> {
        opt_view(self.error_page_key)
    }

    /// A builder holding the defaults.
    pub fn new() -> (b: Self)
        ensures
            b.spec_concurrency_limit() == 1024,
            b.spec_max_request_body_bytes() == 1024,
            b.spec_ws_max_connections() == 200,
            b.spec_csp() is None,
            b.spec_key() is None,
    {
        ServerConfigBuilder {
            concurrency_limit: 1024,
            max_request_body_bytes: 1024,
            ws_max_connections: 200,
            csp_override: None,
            error_page_key: None,
        }
    }

    /// Maximum concurrent in-flight HTTP requests (excluding WebSocket).
    pub fn concurrency_limit(self, limit: usize) -> (b: Self)
        ensures
            b.spec_concurrency_limit() == limit,
            b.spec_max_request_body_bytes() == self.spec_max_request_body_bytes(),
            b.spec_ws_max_connections() == self.spec_ws_max_connections(),
            b.spec_csp() == self.spec_csp(),
            b.spec_key() == self.spec_key(),
    {
        ServerConfigBuilder { concurrency_limit: limit, ..self }
    }

    /// Maximum request body size in bytes.
    pub fn max_request_body_bytes(self, limit: usize) -> (b: Self)
        ensures
            b.spec_concurrency_limit() == self.spec_concurrency_limit(),
            b.spec_max_request_body_bytes() == limit,
            b.spec_ws_max_connections() == self.spec_ws_max_connections(),
            b.spec_csp() == self.spec_csp(),
            b.spec_key() == self.spec_key(),
    {
        ServerConfigBuilder { max_request_body_bytes: limit, ..self }
    }

    /// Maximum concurrent WebSocket connections.
    pub fn ws_max_connections(self, limit: usize) -> (b: Self)
        ensures
            b.spec_concurrency_limit() == self.spec_concurrency_limit(),
            b.spec_max_request_body_bytes() == self.spec_max_request_body_bytes(),
            b.spec_ws_max_connections() == limit,
            b.spec_csp() == self.spec_csp(),
            b.spec_key() == self.spec_key(),
    {
        ServerConfigBuilder { ws_max_connections: limit, ..self }
    }

    /// Override the default Content-Security-Policy header.
    pub fn csp_override(self, csp: &str) -> (b: Self)
        ensures
            b.spec_concurrency_limit() == self.spec_concurrency_limit(),
            b.spec_max_request_body_bytes() == self.spec_max_request_body_bytes(),
            b.spec_ws_max_connections() == self.spec_ws_max_connections(),
            b.spec_csp() == Some(csp@),
            b.spec_key() == self.spec_key(),
    {
        ServerConfigBuilder { csp_override: Some(csp.to_owned()), ..self }
    }

    /// Set the cache key for a custom error page (e.g., `"404.html"`).
    pub fn error_page_key(self, key: &str) -> (b: Self)
        ensures
            b.spec_concurrency_limit() == self.spec_concurrency_limit(),
            b.spec_max_request_body_bytes() == self.spec_max_request_body_bytes(),
            b.spec_ws_max_connections() == self.spec_ws_max_connections(),
            b.spec_csp() == self.spec_csp(),
            b.spec_key() == Some(key@),
    {
        ServerConfigBuilder { error_page_key: Some(key.to_owned()), ..self }
    }

    /// Validate and build the configuration, reporting the first failed
    /// check.
    pub fn build(self) -> (r: Result<ValidatedConfig, ConfigError>)
        ensures
            match config_error(
                self.spec_concurrency_limit(),
                self.spec_max_request_body_bytes(),
                self.spec_ws_max_connections(),
                self.spec_key(),
                self.spec_csp(),
            ) {
                Some(e) => r == Err::<ValidatedConfig, ConfigError>(e),
                None => r is Ok && r->Ok_0.spec_concurrency_limit() == self.spec_concurrency_limit()
                    && r->Ok_0.spec_max_request_body_bytes() == self.spec_max_request_body_bytes()
                    && r->Ok_0.spec_ws_max_connections() == self.spec_ws_max_connections()
                    && r->Ok_0.spec_csp() == self.spec_csp() && r->Ok_0.spec_key()
                    == self.spec_key(),
            },
    {
        let max = semaphore_max_permits();
        if self.concurrency_limit == 0 {
            return Err(ConfigError::ConcurrencyLimitZero);
        }
        if self.concurrency_limit > max {
            return Err(ConfigError::ConcurrencyLimitOverflow);
        }
        if self.ws_max_connections == 0 {
            return Err(ConfigError::WsMaxConnectionsZero);
        }
        if self.ws_max_connections > max {
            return Err(ConfigError::WsMaxConnectionsOverflow);
        }
        if self.max_request_body_bytes < 1 {
            return Err(ConfigError::MaxRequestBodyBytesZero);
        }
        if let Some(k) = &self.error_page_key {
            if let Some(p) = check_error_page_key(k.as_str()) {
                return Err(to_key_error(p));
            }
        }
        if let Some(c) = &self.csp_override {
            if let Some(p) = check_csp(c.as_str()) {
                return Err(to_csp_error(p));
            }
        }
        Ok(
            ValidatedConfig {
                concurrency_limit: self.concurrency_limit,
                max_request_body_bytes: self.max_request_body_bytes,
                ws_max_connections: self.ws_max_connections,
                csp_override: self.csp_override,
                error_page_key: self.error_page_key,
            },
        )
    }
}

impl Default for ServerConfigBuilder {
    fn default() -> (b: Self)
        ensures
            b.spec_concurrency_limit() == 1024,
            b.spec_max_request_body_bytes() == 1024,
            b.spec_ws_max_connections() == 200,
            b.spec_csp() is None,
            b.spec_key() is None,
    {
        ServerConfigBuilder::new()
    }
}

/// Validated, immutable projection server configuration.
///
/// Produced only by [`ServerConfigBuilder::build`]; fields are private
/// with read-only accessors, and the type is not `Clone`.
#[derive(Debug, PartialEq)]
#[non_exhaustive]
pub struct ValidatedConfig {
    concurrency_limit: usize,
    max_request_body_bytes: usize,
    ws_max_connections: usize,
    csp_override: Option<String>,
    error_page_key: Option<String>,
}

impl ValidatedConfig {
    /// Every value passed the checks of `build`.
    #[verifier::type_invariant]
    spec fn checked(self) -> bool {
        config_error(
            self.concurrency_limit,
            self.max_request_body_bytes,
            self.ws_max_connections,
            opt_view(self.error_page_key),
            opt_view(self.csp_override),
        ) is None
    }

    /// The concurrency limit.
    pub closed spec fn spec_concurrency_limit(&self) -> usize {
        self.concurrency_limit
    }

    /// The body limit.
    pub closed spec fn spec_max_request_body_bytes(&self) -> usize {
        self.max_request_body_bytes
    }

    /// The WebSocket connection limit.
    pub closed spec fn spec_ws_max_connections(&self) -> usize {
        self.ws_max_connections
    }

    /// The CSP override.
    pub closed spec fn spec_csp(&self) -> Option<Seq<char>> {
        opt_view(self.csp_override)
    }

    /// The error-page key.
    pub closed spec fn spec_key(&self) -> Option<Seq<char>> {
        opt_view(self.error_page_key)
    }

    /// Maximum concurrent in-flight HTTP requests.
    pub fn concurrency_limit(&self) -> (n: usize)
        ensures
            n == self.spec_concurrency_limit(),
            1 <= n <= max_permits(),
    {
        proof {
            use_type_invariant(self);
        }
        self.concurrency_limit
    }

    /// Maximum request body size in bytes.
    pub fn max_request_body_bytes(&self) -> (n: usize)
        ensures
            n == self.spec_max_request_body_bytes(),
            n >= 1,
    {
        proof {
            use_type_invariant(self);
        }
        self.max_request_body_bytes
    }

    /// Maximum concurrent WebSocket connections.
    pub fn ws_max_connections(&self) -> (n: usize)
        ensures
            n == self.spec_ws_max_connections(),
            1 <= n <= max_permits(),
    {
        proof {
            use_type_invariant(self);
        }
        self.ws_max_connections
    }

    /// CSP override, if set.
    pub fn csp_override(&self) -> (r: Option<&str>)
        ensures
            opt_str_view(r) == self.spec_csp(),
            r matches Some(c) ==> csp_problem(c@) is None,
    {
        proof {
            use_type_invariant(self);
        }
        opt_as_str(&self.csp_override)
    }

    /// Error page cache key, if set.
    pub fn error_page_key(&self) -> (r: Option<&str>)
        ensures
            opt_str_view(r) == self.spec_key(),
            r matches Some(k) ==> key_problem(k@) is None,
    {
        proof {
            use_type_invariant(self);
        }
        opt_as_str(&self.error_page_key)
    }
}

} // verus!
