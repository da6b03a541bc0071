use cherry_pit::content::{
    compress_zstd, compute_etag, content_length_header, content_type_for_ext, extension_of,
    is_compressible_ext, lookup_ext, MAX_PRECOMPRESS_BYTES,
};

#[test]
fn compressible_text_formats() {
    assert!(is_compressible_ext(Some("svg")));
    assert!(is_compressible_ext(Some("json")));
    assert!(is_compressible_ext(Some("xml")));
    assert!(is_compressible_ext(Some("txt")));
    assert!(is_compressible_ext(Some("map")));
    assert!(is_compressible_ext(Some("mjs")));
}

#[test]
fn not_compressible_binary_formats() {
    assert!(!is_compressible_ext(Some("png")));
    assert!(!is_compressible_ext(Some("jpg")));
    assert!(!is_compressible_ext(Some("woff2")));
    assert!(!is_compressible_ext(Some("wasm")));
}

#[test]
fn compute_etag_format() {
    let etag = compute_etag(b"hello world");
    let s = etag.as_str();
    assert!(s.starts_with("W/\""));
    assert!(s.ends_with('"'));
}

#[test]
fn compressible_svg_json_xml() {
    assert!(is_compressible_ext(Some("svg")));
    assert!(is_compressible_ext(Some("json")));
    assert!(is_compressible_ext(Some("xml")));
    assert!(is_compressible_ext(Some("txt")));
    assert!(is_compressible_ext(Some("map")));
    assert!(is_compressible_ext(Some("mjs")));
}

#[test]
fn not_compressible_images_fonts_wasm() {
    assert!(!is_compressible_ext(Some("png")));
    assert!(!is_compressible_ext(Some("jpg")));
    assert!(!is_compressible_ext(Some("gif")));
    assert!(!is_compressible_ext(Some("webp")));
    assert!(!is_compressible_ext(Some("woff2")));
    assert!(!is_compressible_ext(Some("wasm")));
}

#[test]
fn state_compute_etag_format() {
    let etag = compute_etag(b"hello world");
    let s = etag.as_str();
    assert!(s.starts_with("W/\""));
    assert!(s.ends_with('"'));
}

#[test]
fn compute_etag_is_truncated_sha256_hex() {
    // SHA-256("hello world") starts b94d27b9934d3e08a52e52d7da7dabfa.
    assert_eq!(compute_etag(b"hello world"), "W/\"b94d27b9934d3e08a52e52d7da7dabfa\"");
    // SHA-256("") starts e3b0c44298fc1c149afbf4c8996fb924.
    assert_eq!(compute_etag(b""), "W/\"e3b0c44298fc1c149afbf4c8996fb924\"");
}

#[test]
fn compute_etag_depends_on_body() {
    assert_ne!(compute_etag(b"a"), compute_etag(b"b"));
    assert_eq!(compute_etag(b"same"), compute_etag(b"same"));
}

#[test]
fn extension_lookup_is_case_insensitive() {
    assert_eq!(content_type_for_ext(Some("HTML")), content_type_for_ext(Some("html")));
    assert_eq!(content_type_for_ext(Some("Css")), content_type_for_ext(Some("css")));
    assert!(is_compressible_ext(Some("SVG")));
    assert!(!is_compressible_ext(Some("PNG")));
}

#[test]
fn content_types_of_the_table() {
    assert_eq!(content_type_for_ext(Some("html")), "text/html; charset=utf-8");
    assert_eq!(content_type_for_ext(Some("js")), "text/javascript; charset=utf-8");
    assert_eq!(content_type_for_ext(Some("map")), "application/json; charset=utf-8");
    assert_eq!(content_type_for_ext(Some("svg")), "image/svg+xml");
    assert_eq!(content_type_for_ext(Some("ico")), "image/x-icon");
    assert_eq!(content_type_for_ext(Some("wasm")), "application/wasm");
    assert_eq!(content_type_for_ext(Some("exe")), "application/octet-stream");
    assert_eq!(content_type_for_ext(None), "application/octet-stream");
    assert_eq!(lookup_ext(Some("jpeg")), Some(("image/jpeg", false)));
    assert_eq!(lookup_ext(Some("bin")), None);
    assert_eq!(lookup_ext(None), None);
}

#[test]
fn extension_of_takes_last_dot_component() {
    assert_eq!(extension_of("index.html").as_deref(), Some("html"));
    assert_eq!(extension_of("archive.tar.gz").as_deref(), Some("gz"));
    assert_eq!(extension_of(".gitignore"), None);
    assert_eq!(extension_of("Makefile"), None);
    assert_eq!(extension_of("trailing."), Some(String::new()));
}

#[test]
fn content_length_header_format() {
    assert_eq!(content_length_header(42), "42");
    assert_eq!(content_length_header(0), "0");
    assert_eq!(content_length_header(1048576), "1048576");
}

#[test]
fn compress_zstd_produces_output() {
    let compressed = compress_zstd(b"<html>hello world</html>").unwrap();
    assert!(!compressed.is_empty());
    let decoded = zstd::stream::decode_all(compressed.as_slice()).unwrap();
    assert_eq!(decoded, b"<html>hello world</html>");
}

#[test]
fn compress_zstd_rejects_oversize_input() {
    let oversize = vec![0u8; MAX_PRECOMPRESS_BYTES + 1];
    assert!(compress_zstd(&oversize).is_none());
}

#[test]
fn compress_zstd_accepts_at_limit() {
    let at_limit = vec![0u8; MAX_PRECOMPRESS_BYTES];
    assert!(compress_zstd(&at_limit).is_some());
}
