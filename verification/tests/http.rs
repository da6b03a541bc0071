use cherry_pit::http::{etag_weak_match, if_none_match_matches, negotiate_encoding};
use cherry_pit::serve::runtime::Encoding;

#[test]
fn weak_comparison_ignores_the_weak_prefix() {
    assert!(etag_weak_match(b"W/\"abc\"", b"W/\"abc\""));
    assert!(etag_weak_match(b"\"abc\"", b"W/\"abc\""));
    assert!(etag_weak_match(b"W/\"abc\"", b"\"abc\""));
    assert!(!etag_weak_match(b"W/\"abc\"", b"W/\"abd\""));
    assert!(!etag_weak_match(b"abc", b"W/\"abc\""));
}

#[test]
fn if_none_match_lists_are_split_and_trimmed() {
    let server = b"W/\"abc\"";
    assert!(if_none_match_matches(&vec![b"\"x\", W/\"abc\"".to_vec()], server));
    assert!(if_none_match_matches(&vec![b"  W/\"abc\"  ".to_vec()], server));
    assert!(if_none_match_matches(&vec![b"\"x\"".to_vec(), b"\"abc\"".to_vec()], server));
    assert!(!if_none_match_matches(&vec![b"\"x\", \"y\"".to_vec()], server));
    assert!(!if_none_match_matches(&vec![], server));
}

#[test]
fn non_text_header_values_never_match() {
    let server = b"W/\"abc\"";
    assert!(!if_none_match_matches(&vec![b"W/\"abc\"\xff".to_vec()], server));
}

#[test]
fn wildcard_matches_any_etag() {
    assert!(etag_weak_match(b"*", b"W/\"anything\""));
    assert!(if_none_match_matches(&vec![b"*".to_vec()], b"W/\"z\""));
    assert!(!etag_weak_match(b"**", b"W/\"z\""));
}

#[test]
fn negotiate_prefers_zstd() {
    assert_eq!(negotiate_encoding(b"gzip, deflate, zstd"), Encoding::Zstd);
}

#[test]
fn negotiate_identity_when_no_zstd() {
    assert_eq!(negotiate_encoding(b"gzip, deflate"), Encoding::Identity);
}

#[test]
fn negotiate_identity_for_unknown() {
    assert_eq!(negotiate_encoding(b"deflate"), Encoding::Identity);
}

#[test]
fn negotiate_rejects_q_zero() {
    assert_eq!(negotiate_encoding(b"zstd;q=0, gzip"), Encoding::Identity);
}

#[test]
fn negotiate_rejects_q_zero_with_preceding_params() {
    assert_eq!(negotiate_encoding(b"zstd;level=1;q=0, gzip"), Encoding::Identity);
}

#[test]
fn negotiate_accepts_positive_quality_and_any_case() {
    assert_eq!(negotiate_encoding(b"ZSTD;q=0.5"), Encoding::Zstd);
    assert_eq!(negotiate_encoding(b" zstd ; q=1"), Encoding::Zstd);
    assert_eq!(negotiate_encoding(b"zstd;Q=0.000"), Encoding::Identity);
    assert_eq!(negotiate_encoding(b"zstd;q=0.0001"), Encoding::Zstd);
    assert_eq!(negotiate_encoding(b"zstd;q=0, zstd"), Encoding::Zstd);
    assert_eq!(negotiate_encoding(b""), Encoding::Identity);
    assert_eq!(negotiate_encoding(b"zstd\xff"), Encoding::Identity);
}
