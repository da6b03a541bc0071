use std::sync::Arc;

use cherry_pit::content::{compress_zstd, compute_etag, MAX_PRECOMPRESS_BYTES};
use cherry_pit::projection::state::{PageEntry, ProjectionState};
use cherry_pit::serve::state::{CachedBody, CachedPage, HeaderText};

/// A source type that deliberately implements neither `Debug` nor `Clone`.
struct NonDebugProjection;

#[test]
fn projection_state_debug_independent_of_p_debug() {
    let state = ProjectionState::new(NonDebugProjection);
    let formatted = state.debug_string();
    assert!(formatted.contains("ProjectionState"));
    assert!(formatted.contains("strong="));
}

#[test]
fn projection_state_clone_is_cheap() {
    let state = ProjectionState::new(NonDebugProjection);
    let _cloned = state.clone();
    let formatted = state.debug_string();
    assert!(formatted.contains("strong=2"));
}

#[test]
fn projection_state_shares_the_source() {
    let source = Arc::new(NonDebugProjection);
    let state = ProjectionState::from_arc(Arc::clone(&source));
    assert!(Arc::ptr_eq(state.source(), &source));
    let cloned = state.clone();
    assert!(Arc::ptr_eq(cloned.source(), &source));
    assert_eq!(
        state.debug_string(),
        "ProjectionState { source: Arc<P>(strong=3) }"
    );
}

#[test]
fn page_entry_body_is_bytes() {
    let body = b"<html>test</html>";
    let entry = PageEntry::new("index.html", body.to_vec());
    let cloned = entry.body;
    assert_eq!(cloned, body[..]);
}

#[test]
fn page_entry_dotfile_has_no_extension() {
    let entry = PageEntry::new(".gitignore", b"node_modules".to_vec());
    assert_eq!(entry.content_type, "application/octet-stream");
    assert!(entry.body_zstd.is_none());
}

#[test]
fn page_entry_no_extension_returns_octet_stream() {
    let entry = PageEntry::new("Makefile", b"all:".to_vec());
    assert_eq!(entry.content_type, "application/octet-stream");
}

#[test]
fn page_entry_fields_follow_the_body() {
    let body = b"<html>hello world</html>".to_vec();
    let entry = PageEntry::new("report.html", body.clone());
    assert_eq!(entry.content_type, "text/html; charset=utf-8");
    assert_eq!(entry.etag, compute_etag(&body));
    assert_eq!(entry.content_length, body.len().to_string());
    let z = entry.body_zstd.as_ref().unwrap();
    assert_eq!(z, &compress_zstd(&body).unwrap());
    assert_eq!(entry.content_length_zstd, Some(z.len().to_string()));
}

#[test]
fn page_entry_binary_is_not_compressed() {
    let entry = PageEntry::new("logo.png", vec![1, 2, 3]);
    assert_eq!(entry.content_type, "image/png");
    assert!(entry.body_zstd.is_none());
    assert!(entry.content_length_zstd.is_none());
}

#[test]
fn page_entry_oversize_html_serves_identity_only() {
    let oversize = vec![b'x'; MAX_PRECOMPRESS_BYTES + 1];
    let entry = PageEntry::new("big.html", oversize);
    assert!(entry.body_zstd.is_none());
    assert!(entry.content_length_zstd.is_none());
}

#[test]
fn cached_page_body_is_bytes() {
    let body = b"<html>test</html>";
    let page = CachedPage::new("index.html", body.to_vec());
    let identity = page.body.identity_bytes().unwrap();
    assert_eq!(identity, body[..]);
}

#[test]
fn cached_page_dotfile_has_no_extension() {
    let page = CachedPage::new(".gitignore", b"node_modules".to_vec());
    assert_eq!(page.content_type, "application/octet-stream");
}

#[test]
fn cached_page_front_page_keeps_both_bodies() {
    let body = b"<html>front</html>".to_vec();
    let page = CachedPage::new("index.html", body.clone());
    match &page.body {
        CachedBody::Dual { zstd, raw } => {
            assert_eq!(raw, &body);
            assert_eq!(zstd::stream::decode_all(zstd.as_slice()).unwrap(), body);
        }
        other => panic!("expected a dual body, got {other:?}"),
    }
}

#[test]
fn cached_page_other_html_keeps_only_compressed_body() {
    let body = b"<html>about us</html>".to_vec();
    let page = CachedPage::new("about.html", body.clone());
    match &page.body {
        CachedBody::Compressed { raw_len, .. } => assert_eq!(*raw_len, body.len()),
        other => panic!("expected a compressed body, got {other:?}"),
    }
    assert_eq!(page.body.identity_bytes().unwrap(), body);
    assert!(page.body.zstd().is_some());
}

#[test]
fn cached_page_binary_is_raw_only() {
    let page = CachedPage::new("font.woff2", vec![9; 10]);
    assert!(matches!(page.body, CachedBody::RawOnly { .. }));
    assert!(page.body.zstd().is_none());
    assert!(page.content_length_zstd.is_none());
}

#[test]
fn bounded_decode_guard_rejects_mismatched_decoded_length() {
    let real = b"<html>some content that compresses fine</html>";
    let zstd_bytes = compress_zstd(real).expect("small body should compress");
    let mismatched = CachedBody::Compressed { zstd: zstd_bytes.clone(), raw_len: real.len() + 1 };
    assert!(mismatched.identity_bytes().is_none());
    let shorter = CachedBody::Compressed { zstd: zstd_bytes, raw_len: real.len() - 1 };
    assert!(shorter.identity_bytes().is_none());
}

#[test]
fn bounded_decode_rejects_garbage() {
    let garbage = CachedBody::Compressed { zstd: vec![1, 2, 3, 4], raw_len: 4 };
    assert!(garbage.identity_bytes().is_none());
}

fn header<'a>(fields: &'a [cherry_pit::serve::state::HeaderField], name: &str) -> Option<&'a HeaderText> {
    fields.iter().find(|f| f.name == name).map(|f| &f.value)
}

fn text_of(h: Option<&HeaderText>) -> Option<&str> {
    match h {
        Some(HeaderText::Value(s)) => Some(s.as_str()),
        _ => None,
    }
}

#[test]
fn cached_page_prepares_headers() {
    let body = b"<svg xmlns='http://www.w3.org/2000/svg'/>".to_vec();
    let page = CachedPage::new("icon.svg", body.clone());
    let etag = compute_etag(&body);
    assert_eq!(text_of(header(&page.headers_304, "etag")), Some(etag.as_str()));
    assert_eq!(text_of(header(&page.headers_304, "cache-control")), Some("no-cache"));
    assert_eq!(text_of(header(&page.headers_304, "vary")), Some("Accept-Encoding"));
    assert_eq!(text_of(header(&page.headers_raw, "content-type")), Some("image/svg+xml"));
    assert_eq!(
        text_of(header(&page.headers_raw, "content-length")),
        Some(body.len().to_string().as_str())
    );
    assert!(matches!(header(&page.headers_raw, "content-security-policy"), Some(HeaderText::SvgCsp)));
    assert_eq!(text_of(header(&page.headers_zstd, "content-encoding")), Some("zstd"));
    assert_eq!(
        text_of(header(&page.headers_zstd, "content-length")),
        page.content_length_zstd.as_deref()
    );
}

#[test]
fn uncompressed_page_headers_have_no_vary() {
    let page = CachedPage::new("a.png", vec![0; 3]);
    assert!(header(&page.headers_304, "vary").is_none());
    assert!(header(&page.headers_raw, "vary").is_none());
    assert!(header(&page.headers_zstd, "content-encoding").is_none());
    assert_eq!(text_of(header(&page.headers_zstd, "content-length")), Some("3"));
    assert!(header(&page.headers_raw, "content-security-policy").is_none());
}

#[test]
fn page_entry_debug_elides_body_bytes() {
    let entry = PageEntry::new("index.html", b"<html>hi</html>".to_vec());
    let formatted = entry.debug_string();
    assert!(formatted.contains("<15 bytes>"));
    assert!(!formatted.contains("<html>hi</html>"));
    assert!(formatted.starts_with("PageEntry { body: <15 bytes>, body_zstd: <"));
    assert!(formatted.contains(&format!("etag: {}", entry.etag)));
}

#[test]
fn pages_from_parts_take_the_given_digest_and_encoding() {
    let digest: Vec<u8> = (0u8..32).collect();
    let encoded = Some(vec![9u8, 9, 9]);
    let page = CachedPage::from_parts("about.html", b"hello".to_vec(), &digest, encoded.clone());
    assert_eq!(page.etag, "W/\"000102030405060708090a0b0c0d0e0f\"");
    assert_eq!(page.content_length_zstd.as_deref(), Some("3"));
    assert!(matches!(&page.body, CachedBody::Compressed { zstd, raw_len: 5 } if zstd == &vec![9u8, 9, 9]));
    let index = CachedPage::from_parts("index.html", b"hello".to_vec(), &digest, encoded.clone());
    assert!(matches!(&index.body, CachedBody::Dual { raw, .. } if raw == b"hello"));
    let image = CachedPage::from_parts("logo.png", b"png".to_vec(), &digest, encoded.clone());
    assert!(matches!(&image.body, CachedBody::RawOnly { body } if body == b"png"));
    assert_eq!(image.content_length_zstd, None);
    let entry = PageEntry::from_parts("page.html", b"hello".to_vec(), &digest, encoded);
    assert_eq!(entry.etag, "W/\"000102030405060708090a0b0c0d0e0f\"");
    assert_eq!(entry.body_zstd, Some(vec![9u8, 9, 9]));
    let plain = PageEntry::from_parts("page.html", b"hello".to_vec(), &digest, None);
    assert_eq!(plain.body_zstd, None);
    assert_eq!(plain.content_length_zstd, None);
}

#[test]
fn new_matches_from_parts_over_the_real_encoders() {
    let body = b"<html>hello</html>".to_vec();
    let page = CachedPage::new("page.html", body.clone());
    assert_eq!(page.etag, compute_etag(&body));
    let z = compress_zstd(&body).expect("small text compresses");
    assert_eq!(page.content_length_zstd, Some(z.len().to_string()));
}
