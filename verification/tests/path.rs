use cherry_pit::path::{normalize_request_path, sanitize_path_segment, PathSegmentError};

#[test]
fn accepts_normal_values() {
    assert_eq!(
        sanitize_path_segment("main", "default_branch").unwrap(),
        "main"
    );
    assert_eq!(
        sanitize_path_segment("release-v2.1", "default_branch").unwrap(),
        "release-v2.1"
    );
}

#[test]
fn rejects_traversal() {
    assert!(sanitize_path_segment("../etc/passwd", "default_branch").is_err());
    assert!(sanitize_path_segment("foo/../bar", "default_branch").is_err());
}

#[test]
fn rejects_slashes() {
    assert!(sanitize_path_segment("feature/branch", "default_branch").is_err());
    assert!(sanitize_path_segment("a\\b", "default_branch").is_err());
}

#[test]
fn rejects_uri_delimiters() {
    assert!(sanitize_path_segment("foo?bar", "default_branch").is_err());
    assert!(sanitize_path_segment("foo#bar", "default_branch").is_err());
    assert!(sanitize_path_segment("?query", "default_branch").is_err());
    assert!(sanitize_path_segment("#fragment", "default_branch").is_err());
}

#[test]
fn rejects_empty() {
    assert!(sanitize_path_segment("", "default_branch").is_err());
}

#[test]
fn rejects_control_chars() {
    assert!(sanitize_path_segment("foo\x00bar", "repo_name").is_err());
    assert!(sanitize_path_segment("foo\nbar", "repo_name").is_err());
    assert!(sanitize_path_segment("foo\rbar", "repo_name").is_err());
}

#[test]
fn error_display_includes_field_and_reason() {
    let err = sanitize_path_segment("", "repo_name").unwrap_err();
    let display = err.to_string();
    assert!(display.contains("repo_name"));
}

#[test]
fn segment_error_carries_field_and_reason() {
    let err = sanitize_path_segment("a/b", "repo_name").unwrap_err();
    assert_eq!(err.field, "repo_name");
    assert!(!err.reason.is_empty());
    assert_eq!(err.to_string(), format!("repo_name: {}", err.reason));
}

#[test]
fn segment_error_new_renders_field_colon_reason() {
    let err = PathSegmentError::new("owner", "must not be empty");
    assert_eq!(err.to_string(), "owner: must not be empty");
}

#[test]
fn accepted_segment_is_borrowed_unchanged() {
    let value = "cherry-pit_2";
    let out = sanitize_path_segment(value, "repo_name").unwrap();
    assert!(matches!(out, std::borrow::Cow::Borrowed(_)));
    assert_eq!(out, value);
}

#[test]
fn accepts_single_dots_and_unicode() {
    assert!(sanitize_path_segment("v1.2.3", "tag").is_ok());
    assert!(sanitize_path_segment(".hidden", "tag").is_ok());
    assert!(sanitize_path_segment("café", "tag").is_ok());
}

#[test]
fn rejects_other_control_chars() {
    assert!(sanitize_path_segment("a\tb", "tag").is_err());
    assert!(sanitize_path_segment("a\x7fb", "tag").is_err());
}

#[test]
fn normalize_root_to_index() {
    let result = normalize_request_path("/").unwrap();
    assert_eq!(result.key, "index.html");
    assert!(result.has_trailing_slash);
}

#[test]
fn normalize_simple_path() {
    let result = normalize_request_path("/report.html").unwrap();
    assert_eq!(result.key, "report.html");
    assert!(!result.has_trailing_slash);
}

#[test]
fn normalize_nested_path() {
    let result = normalize_request_path("/owners/acme.html").unwrap();
    assert_eq!(result.key, "owners/acme.html");
    assert!(!result.has_trailing_slash);
}

#[test]
fn normalize_collapses_double_slashes() {
    assert_eq!(
        normalize_request_path("//report.html").unwrap().key,
        "report.html"
    );
    assert_eq!(
        normalize_request_path("/owners///acme.html").unwrap().key,
        "owners/acme.html"
    );
}

#[test]
fn normalize_strips_dot_segments() {
    assert_eq!(
        normalize_request_path("/./report.html").unwrap().key,
        "report.html"
    );
}

#[test]
fn normalize_rejects_dotdot() {
    assert_eq!(normalize_request_path("/../secret.txt"), None);
    assert_eq!(normalize_request_path("/foo/../bar"), None);
    assert_eq!(normalize_request_path("/.."), None);
}

#[test]
fn normalize_rejects_encoded_dotdot() {
    assert_eq!(normalize_request_path("/%2e%2e/secret.txt"), None);
    assert_eq!(normalize_request_path("/%2e%2e%2fsecret.txt"), None);
}

#[test]
fn normalize_rejects_null_byte() {
    assert_eq!(normalize_request_path("/foo%00bar"), None);
}

#[test]
fn normalize_rejects_backslash() {
    assert_eq!(normalize_request_path("/foo%5Cbar"), None);
    assert_eq!(normalize_request_path("/foo\\bar"), None);
}

#[test]
fn normalize_double_encoded_is_harmless() {
    let result = normalize_request_path("/%252e%252e/secret.txt").unwrap();
    assert!(!result.key.contains(".."));
}

#[test]
fn normalize_empty_path() {
    let result = normalize_request_path("").unwrap();
    assert_eq!(result.key, "index.html");
}

#[test]
fn normalize_rejects_invalid_utf8() {
    assert_eq!(normalize_request_path("/%FF"), None);
}

#[test]
fn normalized_path_trailing_slash_about() {
    let result = normalize_request_path("/about/").unwrap();
    assert_eq!(result.key, "about");
    assert!(result.has_trailing_slash);
}

#[test]
fn normalized_path_no_trailing_slash_about() {
    let result = normalize_request_path("/about").unwrap();
    assert_eq!(result.key, "about");
    assert!(!result.has_trailing_slash);
}

#[test]
fn normalize_decodes_percent_escapes_once() {
    let result = normalize_request_path("/caf%C3%A9/menu%20card.html").unwrap();
    assert_eq!(result.key, "café/menu card.html");
}

#[test]
fn normalized_keys_never_hold_traversal() {
    for raw in ["/a/b", "/a/./b/", "//x//y", "/%2e/z", "/a.b/c..d", "/..."] {
        if let Some(n) = normalize_request_path(raw) {
            assert!(!n.key.contains(".."), "{raw}");
            assert!(!n.key.contains('\\'));
            assert!(!n.key.contains('\0'));
            assert!(!n.key.is_empty());
        }
    }
}

#[test]
fn normalize_is_idempotent_under_slash_wrap() {
    for raw in ["/about/", "//a//b/./c.html", "/caf%C3%A9", "/x/y"] {
        let first = normalize_request_path(raw).unwrap();
        let second = normalize_request_path(&format!("/{}", first.key)).unwrap();
        assert_eq!(second.key, first.key);
        assert!(!second.has_trailing_slash);
    }
}

#[test]
fn a_key_that_still_holds_percent_is_decoded_again() {
    let first = normalize_request_path("/%2541").unwrap();
    assert_eq!(first.key, "%41");
    let second = normalize_request_path(&format!("/{}", first.key)).unwrap();
    assert_eq!(second.key, "A");
}
