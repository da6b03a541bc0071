//! Request decisions of the serve surface: which cached page answers a
//! request path, and how a page is turned into a response (304, zstd or
//! identity body).
use std::collections::HashMap;

use vstd::prelude::*;

use crate::cache::{resolve_cache_key, resolves_to, serve_candidates, stored_under, present, cache_get};
use crate::http::{if_none_match_matches, if_none_match_spec};
use crate::path::{normalize_request_path, normalize_spec};
use crate::serve::state::{bounded_identity, CachedBody, CachedPage};
use crate::text::ascii_bytes;

verus! {

broadcast use vstd::string::group_string_axioms;

/// The content coding chosen for a response.
#[derive(Debug, Clone, Copy, PartialEq, Eq, Structural)]
pub enum Encoding {
    /// Zstandard.
    Zstd,
    /// No coding.
    Identity,
}

/// How a cached page answers a request.
#[derive(Debug)]
pub enum PageResponse {
    /// 304 Not Modified: validator and `Cache-Control`, plus `Vary` when
    /// the page has a compressed variant.
    NotModified {
        /// Whether `Vary: Accept-Encoding` is sent.
        vary: bool,
    },
    /// 500: the identity body could not be produced.
    Unavailable,
    /// A full response with `Content-Type`, `ETag` and `Cache-Control`.
    Full {
        /// The status code.
        status: u16,
        /// The body bytes.
        body: Vec<u8>,
        /// Whether the body is zstd-encoded (`Content-Encoding: zstd`).
        zstd: bool,
        /// The `Content-Length` value, when known.
        content_length: Option<String>,
        /// Whether `Vary: Accept-Encoding` is sent.
        vary: bool,
        /// Whether the SVG Content-Security-Policy is sent.
        svg_csp: bool,
    },
}

/// The zstd bytes of a page body, if any.
pub open spec fn zstd_of(b: CachedBody) -> Option<Seq<u8>> {
    match b {
        CachedBody::RawOnly { .. } => None,
        CachedBody::Compressed { zstd, .. } => Some(zstd@),
        CachedBody::Dual { zstd, .. } => Some(zstd@),
    }
}

/// The identity bytes of a page body, if they can be produced.
pub open spec fn identity_of(b: CachedBody) -> Option<Seq<u8>> {
    match b {
        CachedBody::RawOnly { body } => Some(body@),
        CachedBody::Dual { raw, .. } => Some(raw@),
        CachedBody::Compressed { zstd, raw_len } => bounded_identity(zstd@, raw_len),
    }
}

/// The text of an optional string.
pub open spec fn opt_text(o: Option<String>) -> Option<Seq<char>> {
    match o {
        Some(s) => Some(s@),
        None => None,
    }
}

/// How `page` answers a request whose `If-None-Match` instances are
/// `inm` and whose negotiated coding is `encoding`: a matching validator
/// (unless the check is skipped) gives 304; otherwise a zstd client gets
/// the zstd body when there is one and everyone else the identity body,
/// which when it cannot be produced gives 500.
pub open spec fn page_response_ok(
    page: CachedPage,
    inm: Seq<Seq<u8>>,
    encoding: Encoding,
    status: u16,
    skip_etag_check: bool,
    r: PageResponse,
) -> bool {
    let compressed = zstd_of(page.body) is Some;
    if !skip_etag_check && if_none_match_spec(inm, page.etag@.map_values(|c: char| c as u8)) {
        r == PageResponse::NotModified { vary: compressed }
    } else if encoding == Encoding::Zstd && compressed {
        r matches PageResponse::Full { status: s, body, zstd, content_length, vary, svg_csp } && s
            == status && body@ == zstd_of(page.body)->0 && zstd && opt_text(content_length)
            == opt_text(page.content_length_zstd) && vary == compressed && svg_csp == (
        page.content_type@ == "image/svg+xml"@)
    } else {
        match identity_of(page.body) {
            Some(b) => r matches PageResponse::Full {
                status: s,
                body,
                zstd,
                content_length,
                vary,
                svg_csp,
            } && s == status && body@ == b && !zstd && opt_text(content_length) == Some(
                page.content_length@,
            ) && vary == compressed && svg_csp == (page.content_type@ == "image/svg+xml"@),
            None => r is Unavailable,
        }
    }
}


fn clone_text(o: &Option<String>) -> (r: Option<String>)
    ensures
        opt_text(r) == opt_text(*o),
{
    match o {
        Some(s) => Some(s.clone()),
        None => None,
    }
}

/// Build the response for a cached page (see [`page_response_ok`]).
/// `skip_etag_check` suppresses `If-None-Match` for error pages, where a
/// 304 for a 404 would be wrong.
pub fn serve_page(
    page: &CachedPage,
    if_none_match: &Vec<Vec<u8>>,
    encoding: Encoding,
    status: u16,
    skip_etag_check: bool,
) -> (r: PageResponse)
    ensures
        page_response_ok(
            *page,
            if_none_match@.map_values(|v: Vec<u8>| v@),
            encoding,
            status,
            skip_etag_check,
            r,
        ),
{
    let has_compressed = page.body.zstd().is_some();
    if !skip_etag_check {
        let tag = ascii_bytes(page.etag.as_str());
        if if_none_match_matches(if_none_match, tag.as_slice()) {
            return PageResponse::NotModified { vary: has_compressed };
        }
    }
    let svg_csp = crate::cache::str_eq(page.content_type, "image/svg+xml");
    if encoding == Encoding::Zstd {
        if let Some(z) = page.body.zstd() {
            let body = z.clone();
            assert(body@ =~= z@);
            return PageResponse::Full {
                status,
                body,
                zstd: true,
                content_length: clone_text(&page.content_length_zstd),
                vary: has_compressed,
                svg_csp,
            };
        }
    }
    match page.body.identity_bytes() {
        Some(body) => PageResponse::Full {
            status,
            body,
            zstd: false,
            content_length: Some(page.content_length.clone()),
            vary: has_compressed,
            svg_csp,
        },
        None => PageResponse::Unavailable,
    }
}

/// Which answer the cache fallback handler gives.
#[derive(Debug)]
pub enum FallbackPlan<'a> {
    /// 405 for methods other than GET and HEAD.
    MethodNotAllowed,
    /// 400 for paths that fail normalisation.
    BadRequest,
    /// 503 while no cache has been published.
    NotReady,
    /// Serve this page with this status, skipping the validator check for
    /// an error page.
    Page { page: &'a CachedPage, status: u16, skip_etag_check: bool },
    /// 404 with a plain body.
    NotFound,
}

/// Decide how the cache fallback handler answers: a method other than
/// GET or HEAD gets 405; a path that does not normalise gets 400; no
/// published cache gets 503; a page found through the fallback chain is
/// served with 200; otherwise the configured error page, when present in
/// the cache, is served with 404 (validator check skipped); otherwise a
/// plain 404.
pub fn cache_fallback_plan<'a>(
    is_get_or_head: bool,
    raw_path: &str,
    cache: Option<&'a HashMap<String, CachedPage>>,
    error_page_key: Option<&str>,
) -> (r: FallbackPlan<'a>)
    ensures
        !is_get_or_head ==> r is MethodNotAllowed,
        is_get_or_head && normalize_spec(raw_path) is None ==> r is BadRequest,
        is_get_or_head && normalize_spec(raw_path) is Some && cache is None ==> r is NotReady,
        is_get_or_head && normalize_spec(raw_path) is Some && cache is Some ==> ({
            let (key, slash) = normalize_spec(raw_path)->0;
            let m = cache->0@;
            let cands = serve_candidates(key, slash);
            if exists|i: int| 0 <= i < cands.len() && present(m, #[trigger] cands[i]) {
                r matches FallbackPlan::Page { page, status, skip_etag_check } && status == 200
                    && !skip_etag_check && resolves_to(m, cands, Some(*page))
            } else if error_page_key is Some && present(m, error_page_key->0@) {
                r matches FallbackPlan::Page { page, status, skip_etag_check } && status == 404
                    && skip_etag_check && stored_under(m, error_page_key->0@, *page)
            } else {
                r is NotFound
            }
        }),
{
    if !is_get_or_head {
        return FallbackPlan::MethodNotAllowed;
    }
    let normalized = match normalize_request_path(raw_path) {
        Some(n) => n,
        None => return FallbackPlan::BadRequest,
    };
    let cache = match cache {
        Some(c) => c,
        None => return FallbackPlan::NotReady,
    };
    if let Some(page) = resolve_cache_key(cache, normalized.key.as_str(), normalized.has_trailing_slash) {
        return FallbackPlan::Page { page, status: 200, skip_etag_check: false };
    }
    if let Some(epk) = error_page_key {
        if let Some(error_page) = cache_get(cache, epk) {
            return FallbackPlan::Page { page: error_page, status: 404, skip_etag_check: true };
        }
    }
    FallbackPlan::NotFound
}

/// Discards the outcome of a best-effort close frame: a failed close on
/// a connection that is ending needs no handling.
pub fn best_effort_close_outcome<E>(_outcome: Result<(), E>) {
}

/// Discards the outcome of a best-effort notification of the bound
/// address: a caller that stopped listening needs no handling.
pub fn best_effort_addr_notification<T>(_outcome: Result<(), T>) {
}


/// A requested permit count saturated at Tokio's semaphore ceiling, so
/// an oversized limit saturates rather than failing at construction.
pub fn clamp_permits(requested: usize) -> (n: usize)
    requires
        requested > 0,
    ensures
        n == (if requested <= crate::projection::config::max_permits() {
            requested
        } else {
            crate::projection::config::max_permits()
        }),
        n > 0,
{
    let ceiling = crate::projection::config::semaphore_max_permits();
    proof {
        let m: usize = usize::MAX;
        assert(m >> 3 > 0) by (bit_vector)
            requires
                m >= 0xFFFF_FFFF,
        ;
    }
    if requested <= ceiling {
        requested
    } else {
        ceiling
    }
}

} // verus!
