use std::collections::HashMap;

use cherry_pit::cache::{
    append_suffix, ends_with_str, has_extension, projection_candidate_keys, resolve_cache_key,
    resolve_first, resolve_page, serve_candidate_keys, str_eq,
};

fn map(keys: &[&str]) -> HashMap<String, String> {
    keys.iter().map(|k| (k.to_string(), format!("page:{k}"))).collect()
}

#[test]
fn extension_lives_in_the_last_component() {
    assert!(has_extension("report.html"));
    assert!(has_extension("a/b/c.css"));
    assert!(!has_extension("v2.0/about"));
    assert!(!has_extension("about"));
    assert!(!has_extension(""));
}

#[test]
fn string_helpers() {
    assert!(ends_with_str("dir/index.html", "/index.html"));
    assert!(!ends_with_str("index.html", "/index.html"));
    assert!(str_eq("a", "a"));
    assert!(!str_eq("a", "ab"));
    assert_eq!(append_suffix("dir", "/index.html"), "dir/index.html");
}

#[test]
fn serve_candidates_follow_the_fallback_chain() {
    assert_eq!(serve_candidate_keys("about", false), vec!["about", "about/index.html", "about.html"]);
    assert_eq!(serve_candidate_keys("about", true), vec!["about", "about/index.html"]);
    assert_eq!(serve_candidate_keys("report.html", false), vec!["report.html"]);
    assert_eq!(serve_candidate_keys("index.html", true), vec!["index.html"]);
    assert_eq!(serve_candidate_keys("v2.0", true), vec!["v2.0", "v2.0/index.html"]);
}

#[test]
fn projection_candidates_trim_trailing_slashes() {
    assert_eq!(projection_candidate_keys("about"), vec!["about", "about/index.html", "about.html"]);
    assert_eq!(projection_candidate_keys("docs/"), vec!["docs/", "docs/index.html"]);
    assert_eq!(projection_candidate_keys("a.css"), vec!["a.css"]);
    assert_eq!(projection_candidate_keys("blog/index.html"), vec!["blog/index.html"]);
}

#[test]
fn resolution_returns_the_first_present_candidate() {
    let cache = map(&["about/index.html", "about.html"]);
    assert_eq!(resolve_cache_key(&cache, "about", false), Some(&"page:about/index.html".to_string()));
    let cache = map(&["about.html"]);
    assert_eq!(resolve_cache_key(&cache, "about", false), Some(&"page:about.html".to_string()));
    assert_eq!(resolve_cache_key(&cache, "about", true), None);
    let cands = vec!["x".to_string(), "about.html".to_string()];
    assert_eq!(resolve_first(&cache, &cands), Some(&"page:about.html".to_string()));
}

#[test]
fn projection_resolution_uses_its_own_chain() {
    let snap = map(&["docs/index.html", "about.html"]);
    assert_eq!(resolve_page(&snap, "docs/"), Some(&"page:docs/index.html".to_string()));
    assert_eq!(resolve_page(&snap, "about"), Some(&"page:about.html".to_string()));
    assert_eq!(resolve_page(&snap, "missing"), None);
}
