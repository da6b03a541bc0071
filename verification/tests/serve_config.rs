use cherry_pit::serve::config::{ConfigError, ServeOptions};

#[test]
fn config_builder_defaults_match_expected_values() {
    let options = ServeOptions::builder().build().unwrap();
    assert!(options.csp_override().is_none());
    assert!(options.error_page_key().is_none());
}

#[test]
fn config_builder_default_produces_ok() {
    assert!(ServeOptions::builder().build().is_ok());
}

#[test]
fn config_builder_sets_csp_override() {
    let options = ServeOptions::builder()
        .csp_override("default-src 'self'")
        .build()
        .unwrap();
    assert_eq!(options.csp_override(), Some("default-src 'self'"));
}

#[test]
fn config_builder_sets_error_page_key() {
    let options = ServeOptions::builder()
        .error_page_key("404.html")
        .build()
        .unwrap();
    assert_eq!(options.error_page_key(), Some("404.html"));
}

#[test]
fn config_accepts_valid_error_page_key() {
    assert!(
        ServeOptions::builder()
            .error_page_key("404.html")
            .build()
            .is_ok()
    );
}

#[test]
fn config_rejects_empty_error_page_key() {
    let err = ServeOptions::builder()
        .error_page_key("")
        .build()
        .unwrap_err();
    assert_eq!(err, ConfigError::ErrorPageKeyEmpty);
}

#[test]
fn config_rejects_error_page_key_leading_slash() {
    let err = ServeOptions::builder()
        .error_page_key("/404.html")
        .build()
        .unwrap_err();
    assert_eq!(err, ConfigError::ErrorPageKeyLeadingSlash);
}

#[test]
fn config_rejects_error_page_key_traversal() {
    let err = ServeOptions::builder()
        .error_page_key("../secret.html")
        .build()
        .unwrap_err();
    assert_eq!(err, ConfigError::ErrorPageKeyTraversal);
}

#[test]
fn config_rejects_error_page_key_null_byte() {
    let err = ServeOptions::builder()
        .error_page_key("404\0.html")
        .build()
        .unwrap_err();
    assert_eq!(err, ConfigError::ErrorPageKeyNullByte);
}

#[test]
fn config_rejects_error_page_key_backslash() {
    let err = ServeOptions::builder()
        .error_page_key("foo\\bar.html")
        .build()
        .unwrap_err();
    assert_eq!(err, ConfigError::ErrorPageKeyBackslash);
}

#[test]
fn config_rejects_non_ascii_csp() {
    let err = ServeOptions::builder()
        .csp_override("default-src 'self' 🚀")
        .build()
        .unwrap_err();
    assert_eq!(err, ConfigError::CspNotAscii);
}

#[test]
fn config_rejects_csp_with_cr() {
    let err = ServeOptions::builder()
        .csp_override("default-src 'self'\r")
        .build()
        .unwrap_err();
    assert_eq!(err, ConfigError::CspContainsCrlf);
}

#[test]
fn config_rejects_csp_with_lf() {
    let err = ServeOptions::builder()
        .csp_override("default-src 'self'\n")
        .build()
        .unwrap_err();
    assert_eq!(err, ConfigError::CspContainsCrlf);
}

#[test]
fn config_rejects_csp_with_crlf() {
    let err = ServeOptions::builder()
        .csp_override("default-src 'self'\r\nscript-src 'none'")
        .build()
        .unwrap_err();
    assert_eq!(err, ConfigError::CspContainsCrlf);
}

#[test]
fn config_accepts_valid_ascii_csp() {
    assert!(
        ServeOptions::builder()
            .csp_override("default-src 'self'")
            .build()
            .is_ok()
    );
}

#[test]
fn serve_options_is_send_and_sync() {
    fn assert_send_sync<T: Send + Sync>() {}
    assert_send_sync::<ServeOptions>();
}

#[test]
fn config_config_error_is_send_and_sync() {
    fn assert_send_sync<T: Send + Sync>() {}
    assert_send_sync::<ConfigError>();
}

#[test]
fn config_config_error_display_matches_expected() {
    assert_eq!(
        ConfigError::ErrorPageKeyEmpty.to_string(),
        "error_page_key must not be empty"
    );
    assert_eq!(
        ConfigError::CspContainsCrlf.to_string(),
        "csp_override must not contain CR or LF characters"
    );
}


#[test]
fn serve_error_messages_cover_every_variant() {
    let cases = [
        (ConfigError::ErrorPageKeyEmpty, "error_page_key must not be empty"),
        (ConfigError::CspContainsCrlf, "csp_override must not contain CR or LF characters"),
    ];
    for (err, msg) in cases {
        assert_eq!(err.to_string(), msg);
    }
    assert!(ConfigError::CspNotAscii.to_string().contains("csp_override"));
    assert!(ConfigError::ErrorPageKeyTraversal.to_string().contains("error_page_key"));
}

#[test]
fn serve_options_key_checked_before_csp() {
    let err = ServeOptions::builder()
        .error_page_key("a\\b")
        .csp_override("é")
        .build()
        .unwrap_err();
    assert_eq!(err, ConfigError::ErrorPageKeyBackslash);
    let err = ServeOptions::builder().csp_override("é").build().unwrap_err();
    assert_eq!(err, ConfigError::CspNotAscii);
}
