//! Cached snapshot pages and adapter state of the projection surface.
use std::sync::Arc;

use vstd::prelude::*;

use crate::content::{
    compress_zstd, content_length_header, content_type_for_ext, decimal, etag_for_digest,
    etag_from_digest, etag_of, extension_of, is_compressible_ext, opt_bytes, sha256_digest,
    MAX_PRECOMPRESS_BYTES,
};
use crate::serve::state::{content_type_of, variant_of, zstd_variant};
use crate::validation::opt_as_str;

verus! {

broadcast use vstd::string::group_string_axioms;

/// A single cached page of a projection snapshot.
#[derive(Clone)]
#[non_exhaustive]
pub struct PageEntry {
    /// Raw response body.
    pub body: Vec<u8>,
    /// Pre-compressed zstd body, if the content type is compressible.
    pub body_zstd: Option<Vec<u8>>,
    /// `Content-Type` value.
    pub content_type: &'static str,
    /// Weak `ETag` derived from the body hash.
    pub etag: String,
    /// `Content-Length` of the raw body.
    pub content_length: String,
    /// `Content-Length` of the zstd body, when one exists.
    pub content_length_zstd: Option<String>,
}

impl PageEntry {
    /// Create an entry: media type from the extension of `filename`,
    /// weak `ETag` and `Content-Length` from the body, and a zstd variant
    /// for text types up to the pre-compression limit.
    pub fn new(filename: &str, body: Vec<u8>) -> (p: Self)
        ensures
            p.body@ == body@,
            p.content_type@ == content_type_of(filename@),
            p.etag@ == etag_of(body@),
            p.content_length@ == decimal(body@.len()),
            opt_bytes(p.body_zstd) == zstd_variant(filename@, body@),
            match zstd_variant(filename@, body@) {
                Some(z) => p.content_length_zstd matches Some(l) && l@ == decimal(z.len()),
                None => p.content_length_zstd is None,
            },
    {
        let ext = extension_of(filename);
        let compressible = is_compressible_ext(opt_as_str(&ext));
        let digest = sha256_digest(body.as_slice());
        let encoded = if compressible {
            compress_zstd(body.as_slice())
        } else {
            None
        };
        PageEntry::from_parts(filename, body, digest.as_slice(), encoded)
    }

    /// Assemble an entry from `body`, its SHA-256 `digest` and what the
    /// zstd encoder made of it (`encoded`): as [`Self::new`] describes,
    /// with the `ETag` taken from `digest` and the zstd variant being
    /// `encoded` for a compressible name and a body within the
    /// pre-compression limit.
    pub fn from_parts(filename: &str, body: Vec<u8>, digest: &[u8], encoded: Option<Vec<u8>>) -> (p:
        Self)
        requires
            digest@.len() >= 16,
        ensures
            p.body@ == body@,
            p.content_type@ == content_type_of(filename@),
            p.etag@ == etag_from_digest(digest@),
            p.content_length@ == decimal(body@.len()),
            opt_bytes(p.body_zstd) == variant_of(filename@, body@, opt_bytes(encoded)),
            match variant_of(filename@, body@, opt_bytes(encoded)) {
                Some(z) => p.content_length_zstd matches Some(l) && l@ == decimal(z.len()),
                None => p.content_length_zstd is None,
            },
    {
        let ext = extension_of(filename);
        let content_type = content_type_for_ext(opt_as_str(&ext));
        let etag = etag_for_digest(digest);
        let content_length = content_length_header(body.len());
        let compressible = is_compressible_ext(opt_as_str(&ext));
        let body_zstd = if compressible && body.len() <= MAX_PRECOMPRESS_BYTES {
            encoded
        } else {
            None
        };
        let content_length_zstd = match &body_zstd {
            Some(z) => Some(content_length_header(z.len())),
            None => None,
        };
        PageEntry { body, body_zstd, content_type, etag, content_length, content_length_zstd }
    }

    /// The debug rendering, with the bodies elided to their sizes:
    /// `PageEntry { body: <N bytes>, body_zstd: <M bytes> or None,
    /// content_type: .., etag: .., content_length: .., content_length_zstd: .. }`.
    pub fn debug_string(&self) -> (s: String)
        ensures
            s@ == page_entry_debug(*self),
    {
        let mut s = String::new();
        s.append("PageEntry { body: <");
        s.append(content_length_header(self.body.len()).as_str());
        s.append(" bytes>, body_zstd: ");
        match &self.body_zstd {
            Some(z) => {
                s.append("<");
                s.append(content_length_header(z.len()).as_str());
                s.append(" bytes>");
            },
            None => s.append("None"),
        }
        s.append(", content_type: ");
        s.append(self.content_type);
        s.append(", etag: ");
        s.append(self.etag.as_str());
        s.append(", content_length: ");
        s.append(self.content_length.as_str());
        s.append(", content_length_zstd: ");
        match &self.content_length_zstd {
            Some(l) => s.append(l.as_str()),
            None => s.append("None"),
        }
        s.append(" }");
        s
    }
}

/// What a `Some` text or `None` renders as.
pub open spec fn opt_render(o: Option<Seq<char>>) -> Seq<char> {
    match o {
        Some(t) => t,
        None => "None"@,
    }
}

/// The debug rendering of `p`: sizes in place of body bytes.
pub open spec fn page_entry_debug(p: PageEntry) -> Seq<char> {
    "PageEntry { body: <"@ + decimal(p.body@.len()) + " bytes>, body_zstd: "@ + opt_render(
        match p.body_zstd {
            Some(z) => Some("<"@ + decimal(z@.len()) + " bytes>"@),
            None => None,
        },
    ) + ", content_type: "@ + p.content_type@ + ", etag: "@ + p.etag@ + ", content_length: "@
        + p.content_length@ + ", content_length_zstd: "@ + opt_render(
        match p.content_length_zstd {
            Some(l) => Some(l@),
            None => None,
        },
    ) + " }"@
}

/// A new handle to the value `a` points to.
///
/// Calls `Arc::clone`; the contract claims that the handle points to the
/// same value.
#[verifier::external_body]
fn arc_clone<P>(a: &Arc<P>) -> (r: Arc<P>)
    ensures
        r == *a,
{
    Arc::clone(a)
}

/// Number of handles to the value `a` points to.
///
/// Calls `Arc::strong_count`; the contract claims only that the count is
/// at least one, `a` itself being a handle. The value depends on other
/// holders of the value.
#[verifier::external_body]
fn arc_strong_count<P>(a: &Arc<P>) -> (n: usize)
    ensures
        n >= 1,
{
    Arc::strong_count(a)
}

/// Adapter state threaded through the projection router: a shared handle
/// to the projection source. Cloning is a handle copy.
pub struct ProjectionState<P> {
    source: Arc<P>,
}

impl<P> ProjectionState<P> {
    /// The projection source.
    pub closed spec fn spec_source(&self) -> Arc<P> {
        self.source
    }

    /// Wrap an owned projection source for use by the web adapter.
    pub fn new(source: P) -> (s: Self)
        ensures
            *s.spec_source() == source,
    {
        ProjectionState { source: Arc::new(source) }
    }

    /// Wrap an already-shared projection source.
    pub fn from_arc(source: Arc<P>) -> (s: Self)
        ensures
            s.spec_source() == source,
    {
        ProjectionState { source }
    }

    /// Borrow the underlying projection source.
    pub fn source(&self) -> (r: &Arc<P>)
        ensures
            *r == self.spec_source(),
    {
        &self.source
    }

    /// The debug rendering, `ProjectionState { source: Arc<P>(strong=N) }`
    /// with `N` the number of handles to the source; independent of
    /// whether `P` can be rendered.
    pub fn debug_string(&self) -> (s: String)
        ensures
            exists|n: usize|
                n >= 1 && s@ == "ProjectionState { source: Arc<P>(strong="@ + decimal(n as nat)
                    + ") }"@,
    {
        let n = arc_strong_count(&self.source);
        let mut s = String::new();
        s.append("ProjectionState { source: Arc<P>(strong=");
        let d = content_length_header(n);
        s.append(d.as_str());
        s.append(") }");
        s
    }
}

impl<P> Clone for ProjectionState<P> {
    fn clone(&self) -> (c: Self)
        ensures
            c.spec_source() == self.spec_source(),
    {
        ProjectionState { source: arc_clone(&self.source) }
    }
}

} // verus!
