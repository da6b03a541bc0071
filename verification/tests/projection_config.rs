use cherry_pit::projection::config::{ConfigError, ServerConfig, ValidatedConfig};

#[test]
fn builder_defaults_match_expected_values() {
    let config = ServerConfig::builder().build().unwrap();
    assert_eq!(config.concurrency_limit(), 1024);
    assert_eq!(config.max_request_body_bytes(), 1024);
    assert_eq!(config.ws_max_connections(), 200);
    assert!(config.csp_override().is_none());
    assert!(config.error_page_key().is_none());
}

#[test]
fn builder_default_produces_ok() {
    assert!(ServerConfig::builder().build().is_ok());
}

#[test]
fn builder_sets_concurrency_limit() {
    let config = ServerConfig::builder()
        .concurrency_limit(2048)
        .build()
        .unwrap();
    assert_eq!(config.concurrency_limit(), 2048);
}

#[test]
fn builder_sets_max_request_body_bytes() {
    let config = ServerConfig::builder()
        .max_request_body_bytes(4096)
        .build()
        .unwrap();
    assert_eq!(config.max_request_body_bytes(), 4096);
}

#[test]
fn builder_sets_ws_max_connections() {
    let config = ServerConfig::builder()
        .ws_max_connections(50)
        .build()
        .unwrap();
    assert_eq!(config.ws_max_connections(), 50);
}

#[test]
fn builder_sets_csp_override() {
    let config = ServerConfig::builder()
        .csp_override("default-src 'self'")
        .build()
        .unwrap();
    assert_eq!(config.csp_override(), Some("default-src 'self'"));
}

#[test]
fn builder_sets_error_page_key() {
    let config = ServerConfig::builder()
        .error_page_key("404.html")
        .build()
        .unwrap();
    assert_eq!(config.error_page_key(), Some("404.html"));
}

#[test]
fn rejects_zero_concurrency_limit() {
    let err = ServerConfig::builder()
        .concurrency_limit(0)
        .build()
        .unwrap_err();
    assert_eq!(err, ConfigError::ConcurrencyLimitZero);
}

#[test]
fn accepts_minimum_concurrency_limit() {
    let config = ServerConfig::builder()
        .concurrency_limit(1)
        .build()
        .unwrap();
    assert_eq!(config.concurrency_limit(), 1);
}

#[test]
fn accepts_maximum_concurrency_limit() {
    let config = ServerConfig::builder()
        .concurrency_limit(tokio::sync::Semaphore::MAX_PERMITS)
        .build()
        .unwrap();
    assert_eq!(
        config.concurrency_limit(),
        tokio::sync::Semaphore::MAX_PERMITS
    );
}

#[test]
fn rejects_overflow_concurrency_limit() {
    let err = ServerConfig::builder()
        .concurrency_limit(tokio::sync::Semaphore::MAX_PERMITS + 1)
        .build()
        .unwrap_err();
    assert_eq!(err, ConfigError::ConcurrencyLimitOverflow);
}

#[test]
fn rejects_zero_ws_max_connections() {
    let err = ServerConfig::builder()
        .ws_max_connections(0)
        .build()
        .unwrap_err();
    assert_eq!(err, ConfigError::WsMaxConnectionsZero);
}

#[test]
fn accepts_minimum_ws_max_connections() {
    let config = ServerConfig::builder()
        .ws_max_connections(1)
        .build()
        .unwrap();
    assert_eq!(config.ws_max_connections(), 1);
}

#[test]
fn accepts_maximum_ws_max_connections() {
    let config = ServerConfig::builder()
        .ws_max_connections(tokio::sync::Semaphore::MAX_PERMITS)
        .build()
        .unwrap();
    assert_eq!(
        config.ws_max_connections(),
        tokio::sync::Semaphore::MAX_PERMITS
    );
}

#[test]
fn rejects_overflow_ws_max_connections() {
    let err = ServerConfig::builder()
        .ws_max_connections(tokio::sync::Semaphore::MAX_PERMITS + 1)
        .build()
        .unwrap_err();
    assert_eq!(err, ConfigError::WsMaxConnectionsOverflow);
}

#[test]
fn rejects_zero_body_limit() {
    let err = ServerConfig::builder()
        .max_request_body_bytes(0)
        .build()
        .unwrap_err();
    assert_eq!(err, ConfigError::MaxRequestBodyBytesZero);
}

#[test]
fn accepts_minimum_body_limit() {
    let config = ServerConfig::builder()
        .max_request_body_bytes(1)
        .build()
        .unwrap();
    assert_eq!(config.max_request_body_bytes(), 1);
}

#[test]
fn accepts_valid_error_page_key() {
    assert!(
        ServerConfig::builder()
            .error_page_key("404.html")
            .build()
            .is_ok()
    );
}

#[test]
fn rejects_empty_error_page_key() {
    let err = ServerConfig::builder()
        .error_page_key("")
        .build()
        .unwrap_err();
    assert_eq!(err, ConfigError::ErrorPageKeyEmpty);
}

#[test]
fn rejects_error_page_key_leading_slash() {
    let err = ServerConfig::builder()
        .error_page_key("/404.html")
        .build()
        .unwrap_err();
    assert_eq!(err, ConfigError::ErrorPageKeyLeadingSlash);
}

#[test]
fn rejects_error_page_key_traversal() {
    let err = ServerConfig::builder()
        .error_page_key("../secret.html")
        .build()
        .unwrap_err();
    assert_eq!(err, ConfigError::ErrorPageKeyTraversal);
}

#[test]
fn rejects_error_page_key_null_byte() {
    let err = ServerConfig::builder()
        .error_page_key("404\0.html")
        .build()
        .unwrap_err();
    assert_eq!(err, ConfigError::ErrorPageKeyNullByte);
}

#[test]
fn rejects_error_page_key_backslash() {
    let err = ServerConfig::builder()
        .error_page_key("foo\\bar.html")
        .build()
        .unwrap_err();
    assert_eq!(err, ConfigError::ErrorPageKeyBackslash);
}

#[test]
fn rejects_non_ascii_csp() {
    let err = ServerConfig::builder()
        .csp_override("default-src 'self' 🚀")
        .build()
        .unwrap_err();
    assert_eq!(err, ConfigError::CspNotAscii);
}

#[test]
fn rejects_csp_with_cr() {
    let err = ServerConfig::builder()
        .csp_override("default-src 'self'\r")
        .build()
        .unwrap_err();
    assert_eq!(err, ConfigError::CspContainsCrlf);
}

#[test]
fn rejects_csp_with_lf() {
    let err = ServerConfig::builder()
        .csp_override("default-src 'self'\n")
        .build()
        .unwrap_err();
    assert_eq!(err, ConfigError::CspContainsCrlf);
}

#[test]
fn rejects_csp_with_crlf() {
    let err = ServerConfig::builder()
        .csp_override("default-src 'self'\r\nscript-src 'none'")
        .build()
        .unwrap_err();
    assert_eq!(err, ConfigError::CspContainsCrlf);
}

#[test]
fn accepts_valid_ascii_csp() {
    assert!(
        ServerConfig::builder()
            .csp_override("default-src 'self'")
            .build()
            .is_ok()
    );
}

#[test]
fn validated_config_is_send_and_sync() {
    fn assert_send_sync<T: Send + Sync>() {}
    assert_send_sync::<ValidatedConfig>();
}

#[test]
fn config_error_is_send_and_sync() {
    fn assert_send_sync<T: Send + Sync>() {}
    assert_send_sync::<ConfigError>();
}

#[test]
fn config_error_display_matches_expected() {
    assert_eq!(
        ConfigError::ConcurrencyLimitZero.to_string(),
        "concurrency_limit must be >= 1"
    );
    assert_eq!(
        ConfigError::CspContainsCrlf.to_string(),
        "csp_override must not contain CR or LF characters"
    );
}


#[test]
fn every_config_error_has_its_message() {
    let cases = [
        (ConfigError::ConcurrencyLimitZero, "concurrency_limit must be >= 1"),
        (ConfigError::ConcurrencyLimitOverflow, "concurrency_limit exceeds Semaphore::MAX_PERMITS"),
        (ConfigError::WsMaxConnectionsZero, "ws_max_connections must be >= 1"),
        (ConfigError::WsMaxConnectionsOverflow, "ws_max_connections exceeds Semaphore::MAX_PERMITS"),
        (ConfigError::MaxRequestBodyBytesZero, "max_request_body_bytes must be >= 1"),
        (ConfigError::ErrorPageKeyEmpty, "error_page_key must not be empty"),
        (ConfigError::ErrorPageKeyLeadingSlash, "error_page_key must not start with '/'"),
        (ConfigError::ErrorPageKeyTraversal, "error_page_key must not contain '..'"),
        (ConfigError::ErrorPageKeyNullByte, "error_page_key must not contain null bytes"),
        (ConfigError::ErrorPageKeyBackslash, "error_page_key must not contain backslashes"),
        (ConfigError::CspNotAscii, "csp_override must be valid ASCII"),
        (ConfigError::CspContainsCrlf, "csp_override must not contain CR or LF characters"),
    ];
    for (err, msg) in cases {
        assert_eq!(err.to_string(), msg);
    }
}

#[test]
fn first_failing_rule_is_reported() {
    let err = ServerConfig::builder()
        .concurrency_limit(0)
        .ws_max_connections(0)
        .max_request_body_bytes(0)
        .error_page_key("")
        .csp_override("\n")
        .build()
        .unwrap_err();
    assert_eq!(err, ConfigError::ConcurrencyLimitZero);
    let err = ServerConfig::builder()
        .ws_max_connections(0)
        .max_request_body_bytes(0)
        .build()
        .unwrap_err();
    assert_eq!(err, ConfigError::WsMaxConnectionsZero);
    let err = ServerConfig::builder()
        .error_page_key("/x")
        .csp_override("\r")
        .build()
        .unwrap_err();
    assert_eq!(err, ConfigError::ErrorPageKeyLeadingSlash);
}

#[test]
fn default_builder_equals_builder() {
    let a: ValidatedConfig = cherry_pit::projection::config::ServerConfigBuilder::default()
        .build()
        .unwrap();
    let b = ServerConfig::builder().build().unwrap();
    assert_eq!(a, b);
}

#[test]
fn later_setter_call_wins() {
    let config = ServerConfig::builder()
        .concurrency_limit(5)
        .concurrency_limit(7)
        .error_page_key("a.html")
        .error_page_key("b.html")
        .build()
        .unwrap();
    assert_eq!(config.concurrency_limit(), 7);
    assert_eq!(config.error_page_key(), Some("b.html"));
}
