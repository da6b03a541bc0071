use std::collections::HashMap;

use cherry_pit::aliases::route_aliases;
use cherry_pit::serve::state::{populate_route_aliases, CachedPage};

fn keys(v: &[&str]) -> Vec<String> {
    v.iter().map(|s| s.to_string()).collect()
}

fn pairs(v: &[(&str, &str)]) -> Vec<(String, String)> {
    v.iter().map(|(a, b)| (a.to_string(), b.to_string())).collect()
}

#[test]
fn populate_route_aliases_inserts_dir_and_clean_html_aliases() {
    let mut cache = HashMap::new();
    cache.insert("index.html".to_string(), CachedPage::new("index.html", b"root".to_vec()));
    cache.insert("dir/index.html".to_string(), CachedPage::new("dir/index.html", b"dir index".to_vec()));
    cache.insert("about.html".to_string(), CachedPage::new("about.html", b"about".to_vec()));

    populate_route_aliases(&mut cache);

    assert!(cache.contains_key("dir"));
    assert_eq!(cache.get("dir").unwrap().etag, cache.get("dir/index.html").unwrap().etag);

    assert!(cache.contains_key("about"));
    assert_eq!(cache.get("about").unwrap().etag, cache.get("about.html").unwrap().etag);

    assert!(!cache.contains_key("index"));
}

#[test]
fn alias_plan_for_dir_and_html_pages() {
    let plan = route_aliases(&keys(&["index.html", "dir/index.html", "about.html"]));
    assert_eq!(plan, pairs(&[("dir", "dir/index.html"), ("about", "about.html")]));
    assert!(!plan.iter().any(|(a, _)| a == "index"));
}

#[test]
fn populating_never_overwrites_and_copies_whole_pages() {
    let mut cache = HashMap::new();
    cache.insert("dir/index.html".to_string(), CachedPage::new("dir/index.html", b"dir index".to_vec()));
    cache.insert("dir".to_string(), CachedPage::new("dir", b"kept".to_vec()));
    cache.insert("x.html/index.html".to_string(), CachedPage::new("x.html/index.html", b"<p>x</p>".to_vec()));
    populate_route_aliases(&mut cache);
    assert_eq!(cache.len(), 5);
    assert_eq!(cache["dir"].etag, CachedPage::new("dir", b"kept".to_vec()).etag);
    let source = &cache["x.html/index.html"];
    for alias in ["x.html", "x"] {
        let page = &cache[alias];
        assert_eq!(page.etag, source.etag);
        assert_eq!(page.content_type, source.content_type);
        assert_eq!(page.content_length_zstd, source.content_length_zstd);
        assert_eq!(format!("{:?}", page.body), format!("{:?}", source.body));
        assert_eq!(format!("{:?}", page.headers_raw), format!("{:?}", source.headers_raw));
    }
}

#[test]
fn existing_keys_are_never_aliased_over() {
    let plan = route_aliases(&keys(&["dir", "dir/index.html", "about", "about.html"]));
    assert!(plan.is_empty());
}

#[test]
fn html_alias_of_a_directory_alias_follows_it() {
    let plan = route_aliases(&keys(&["x.html/index.html"]));
    assert_eq!(plan, pairs(&[("x.html", "x.html/index.html"), ("x", "x.html")]));
}

#[test]
fn nested_index_pages_get_no_html_alias() {
    let plan = route_aliases(&keys(&["a/b/index.html", "/index.html", ".html"]));
    assert_eq!(plan, pairs(&[("a/b", "a/b/index.html")]));
}
