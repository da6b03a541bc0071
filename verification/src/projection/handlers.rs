//! Request decisions of the projection surface's snapshot endpoint.
use std::collections::HashMap;

use vstd::prelude::*;

use crate::cache::{projection_candidates, resolve_page, resolves_to};
use crate::http::{if_none_match_matches, if_none_match_spec};
use crate::path::{normalize_request_path, normalize_spec};
use crate::projection::state::PageEntry;
use crate::serve::runtime::{Encoding, PageResponse, opt_text};
use crate::text::ascii_bytes;

verus! {

broadcast use vstd::string::group_string_axioms;

/// How `page` answers a snapshot request (see [`serve_entry`]).
pub open spec fn entry_response_ok(page: PageEntry, inm: Seq<Seq<u8>>, encoding: Encoding, status: u16, r: PageResponse) -> bool {
    let compressed = page.body_zstd is Some;
    if if_none_match_spec(inm, page.etag@.map_values(|c: char| c as u8)) {
        r == PageResponse::NotModified { vary: compressed }
    } else if encoding == Encoding::Zstd && compressed {
        r matches PageResponse::Full { status: s, body, zstd, content_length, vary, svg_csp } && s == status
            && body@ == page.body_zstd->0@ && zstd && opt_text(content_length) == opt_text(page.content_length_zstd)
            && vary && !svg_csp
    } else {
        r matches PageResponse::Full { status: s, body, zstd, content_length, vary, svg_csp } && s == status
            && body@ == page.body@ && !zstd && opt_text(content_length) == Some(page.content_length@)
            && vary == compressed && !svg_csp
    }
}


/// Build the response for a snapshot page: a matching validator gives
/// 304; a zstd client gets the zstd variant when there is one; everyone
/// else gets the raw body.
pub fn serve_entry(page: &PageEntry, if_none_match: &Vec<Vec<u8>>, encoding: Encoding, status: u16) -> (r: PageResponse)
    ensures
        entry_response_ok(*page, if_none_match@.map_values(|v: Vec<u8>| v@), encoding, status, r),
{
    let has_compressed = page.body_zstd.is_some();
    let tag = ascii_bytes(page.etag.as_str());
    if if_none_match_matches(if_none_match, tag.as_slice()) {
        return PageResponse::NotModified { vary: has_compressed };
    }
    if encoding == Encoding::Zstd {
        if let Some(z) = &page.body_zstd {
            let body = z.clone();
            assert(body@ =~= z@);
            let content_length = match &page.content_length_zstd {
                Some(s) => Some(s.clone()),
                None => None,
            };
            return PageResponse::Full { status, body, zstd: true, content_length, vary: true, svg_csp: false };
        }
    }
    let body = page.body.clone();
    assert(body@ =~= page.body@);
    PageResponse::Full {
        status,
        body,
        zstd: false,
        content_length: Some(page.content_length.clone()),
        vary: has_compressed,
        svg_csp: false,
    }
}

/// The request path below the `/v1` mount: `raw` without a leading
/// `/v1`, or `raw` itself.
pub open spec fn strip_v1(raw: Seq<char>) -> Seq<char> {
    if raw.len() >= 3 && raw.take(3) == "/v1"@ {
        raw.skip(3)
    } else {
        raw
    }
}

/// Which answer the snapshot endpoint gives.
pub enum SnapshotPlan<'a> {
    /// 405 for methods other than GET and HEAD.
    MethodNotAllowed,
    /// 503 while no snapshot is available.
    NotReady,
    /// 404.
    NotFound,
    /// Serve this page with 200.
    Page(&'a PageEntry),
}

/// Decide how the snapshot endpoint answers: a method other than GET or
/// HEAD gets 405; no snapshot gets 503; the path below `/v1` that does
/// not normalise, or finds no page through the fallback chain, gets 404;
/// otherwise the page is served.
pub fn snapshot_plan<'a>(
    is_get_or_head: bool,
    raw_path: &str,
    snapshot: Option<&'a HashMap<String, PageEntry>>,
) -> (r: SnapshotPlan<'a>)
    ensures
        !is_get_or_head ==> r is MethodNotAllowed,
        is_get_or_head && snapshot is None ==> r is NotReady,
        is_get_or_head && snapshot is Some ==> exists|suffix: &str| suffix@ == strip_v1(raw_path@) && match normalize_spec(suffix) {
            None => r is NotFound,
            Some((key, _)) => resolves_to(
                snapshot->0@,
                projection_candidates(key),
                match r {
                    SnapshotPlan::Page(p) => Some(*p),
                    _ => None,
                },
            ) && (r is Page || r is NotFound),
        },
{
    if !is_get_or_head {
        return SnapshotPlan::MethodNotAllowed;
    }
    let snapshot = match snapshot {
        Some(s) => s,
        None => return SnapshotPlan::NotReady,
    };
    let suffix = strip_v1_prefix(raw_path);
    let normalized = match normalize_request_path(suffix.as_str()) {
        Some(n) => n,
        None => return SnapshotPlan::NotFound,
    };
    match resolve_page(snapshot, normalized.key.as_str()) {
        Some(p) => SnapshotPlan::Page(p),
        None => SnapshotPlan::NotFound,
    }
}

fn strip_v1_prefix(raw: &str) -> (s: String)
    ensures
        s@ == strip_v1(raw@),
{
    let v = crate::text::chars_of(raw);
    if v.len() >= 3 && v[0] == '/' && v[1] == 'v' && v[2] == '1' {
        let mut rest: Vec<char> = Vec::new();
        let mut i: usize = 3;
        while i < v.len()
            invariant
                3 <= i <= v.len(),
                rest@ == v@.subrange(3, i as int),
            decreases v.len() - i,
        {
            rest.push(v[i]);
            assert(v@.subrange(3, i as int).push(v@[i as int]) =~= v@.subrange(3, i + 1));
            i = i + 1;
        }
        proof {
            reveal_strlit("/v1");
            assert(raw@.take(3) =~= "/v1"@);
            assert(rest@ =~= raw@.skip(3));
        }
        crate::text::string_from_chars(&rest)
    } else {
        proof {
            reveal_strlit("/v1");
            if raw@.len() >= 3 && raw@.take(3) == "/v1"@ {
                assert(raw@[0] == raw@.take(3)[0]);
                assert(raw@[1] == raw@.take(3)[1]);
                assert(raw@[2] == raw@.take(3)[2]);
            }
        }
        raw.to_owned()
    }
}

} // verus!
