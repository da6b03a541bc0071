use std::collections::HashMap;

use cherry_pit::content::compute_etag;
use cherry_pit::projection::handlers::{serve_entry, snapshot_plan, SnapshotPlan};
use cherry_pit::projection::state::PageEntry;
use cherry_pit::serve::runtime::{
    cache_fallback_plan, clamp_permits, serve_page, Encoding, FallbackPlan, PageResponse,
};
use cherry_pit::serve::state::CachedPage;

fn inm(v: &str) -> Vec<Vec<u8>> {
    vec![v.as_bytes().to_vec()]
}

#[test]
fn matching_validator_gives_not_modified() {
    let page = CachedPage::new("about.html", b"<html>about</html>".to_vec());
    let etag = page.etag.clone();
    match serve_page(&page, &inm(&etag), Encoding::Identity, 200, false) {
        PageResponse::NotModified { vary } => assert!(vary),
        other => panic!("expected 304, got {other:?}"),
    }
}

#[test]
fn skipped_etag_check_serves_the_body() {
    let page = CachedPage::new("404.html", b"<html>missing</html>".to_vec());
    let etag = page.etag.clone();
    match serve_page(&page, &inm(&etag), Encoding::Identity, 404, true) {
        PageResponse::Full { status, body, zstd, content_length, .. } => {
            assert_eq!(status, 404);
            assert_eq!(body, b"<html>missing</html>");
            assert!(!zstd);
            assert_eq!(content_length.as_deref(), Some("20"));
        }
        other => panic!("expected a full response, got {other:?}"),
    }
}

#[test]
fn zstd_client_gets_the_compressed_variant() {
    let body = b"<html>zstd me</html>".to_vec();
    let page = CachedPage::new("z.html", body.clone());
    match serve_page(&page, &vec![], Encoding::Zstd, 200, false) {
        PageResponse::Full { body: z, zstd, vary, content_length, svg_csp, .. } => {
            assert!(zstd && vary && !svg_csp);
            assert_eq!(zstd::stream::decode_all(z.as_slice()).unwrap(), body);
            assert_eq!(content_length, page.content_length_zstd);
        }
        other => panic!("expected a full response, got {other:?}"),
    }
    match serve_page(&page, &vec![], Encoding::Identity, 200, false) {
        PageResponse::Full { body: raw, zstd, vary, .. } => {
            assert!(!zstd && vary);
            assert_eq!(raw, body);
        }
        other => panic!("expected a full response, got {other:?}"),
    }
}

#[test]
fn svg_responses_carry_the_svg_policy() {
    let page = CachedPage::new("logo.svg", b"<svg/>".to_vec());
    match serve_page(&page, &vec![], Encoding::Identity, 200, false) {
        PageResponse::Full { svg_csp, .. } => assert!(svg_csp),
        other => panic!("expected a full response, got {other:?}"),
    }
}

fn cache() -> HashMap<String, CachedPage> {
    let mut m = HashMap::new();
    for (k, b) in [("index.html", "root"), ("about.html", "about"), ("404.html", "nf")] {
        m.insert(k.to_string(), CachedPage::new(k, b.as_bytes().to_vec()));
    }
    m
}

#[test]
fn fallback_plan_decides_each_status() {
    let c = cache();
    assert!(matches!(cache_fallback_plan(false, "/", Some(&c), None), FallbackPlan::MethodNotAllowed));
    assert!(matches!(cache_fallback_plan(true, "/../x", Some(&c), None), FallbackPlan::BadRequest));
    assert!(matches!(cache_fallback_plan(true, "/", None, None), FallbackPlan::NotReady));
    match cache_fallback_plan(true, "/about", Some(&c), None) {
        FallbackPlan::Page { page, status, skip_etag_check } => {
            assert_eq!(status, 200);
            assert!(!skip_etag_check);
            assert_eq!(page.etag, compute_etag(b"about"));
        }
        other => panic!("expected a page, got {other:?}"),
    }
    match cache_fallback_plan(true, "/missing", Some(&c), Some("404.html")) {
        FallbackPlan::Page { page, status, skip_etag_check } => {
            assert_eq!(status, 404);
            assert!(skip_etag_check);
            assert_eq!(page.etag, compute_etag(b"nf"));
        }
        other => panic!("expected the error page, got {other:?}"),
    }
    assert!(matches!(
        cache_fallback_plan(true, "/missing", Some(&c), Some("nope.html")),
        FallbackPlan::NotFound
    ));
    assert!(matches!(cache_fallback_plan(true, "/missing", Some(&c), None), FallbackPlan::NotFound));
}

#[test]
fn snapshot_plan_resolves_below_v1() {
    let mut snap = HashMap::new();
    snap.insert("index.html".to_string(), PageEntry::new("index.html", b"root".to_vec()));
    snap.insert("docs/index.html".to_string(), PageEntry::new("docs/index.html", b"docs".to_vec()));
    assert!(matches!(snapshot_plan(false, "/v1/", Some(&snap)), SnapshotPlan::MethodNotAllowed));
    assert!(matches!(snapshot_plan(true, "/v1/", None), SnapshotPlan::NotReady));
    match snapshot_plan(true, "/v1/docs/", Some(&snap)) {
        SnapshotPlan::Page(p) => assert_eq!(p.body, b"docs"),
        _ => panic!("expected a page"),
    }
    match snapshot_plan(true, "/v1", Some(&snap)) {
        SnapshotPlan::Page(p) => assert_eq!(p.body, b"root"),
        _ => panic!("expected the index"),
    }
    assert!(matches!(snapshot_plan(true, "/v1/nothing", Some(&snap)), SnapshotPlan::NotFound));
    assert!(matches!(snapshot_plan(true, "/v1/../x", Some(&snap)), SnapshotPlan::NotFound));
}

#[test]
fn serve_entry_honours_validators_and_encoding() {
    let entry = PageEntry::new("a.json", b"{\"k\":1}".to_vec());
    let etag = entry.etag.clone();
    assert!(matches!(
        serve_entry(&entry, &inm(&format!("\"x\", {etag}")), Encoding::Zstd, 200),
        PageResponse::NotModified { vary: true }
    ));
    match serve_entry(&entry, &vec![], Encoding::Zstd, 200) {
        PageResponse::Full { zstd, body, .. } => {
            assert!(zstd);
            assert_eq!(&body, entry.body_zstd.as_ref().unwrap());
        }
        other => panic!("expected zstd, got {other:?}"),
    }
    match serve_entry(&entry, &vec![], Encoding::Identity, 200) {
        PageResponse::Full { zstd, body, content_length, .. } => {
            assert!(!zstd);
            assert_eq!(body, entry.body);
            assert_eq!(content_length.as_deref(), Some("7"));
        }
        other => panic!("expected identity, got {other:?}"),
    }
}

#[test]
fn permits_saturate_at_the_semaphore_ceiling() {
    assert_eq!(clamp_permits(1), 1);
    assert_eq!(clamp_permits(200), 200);
    assert_eq!(clamp_permits(tokio::sync::Semaphore::MAX_PERMITS), tokio::sync::Semaphore::MAX_PERMITS);
    assert_eq!(clamp_permits(usize::MAX), tokio::sync::Semaphore::MAX_PERMITS);
}
