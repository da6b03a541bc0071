//! Cached pages of the serve surface.
//!
//! A [`CachedPage`] is built once, at cache-population time: the media
//! type comes from the file extension, the weak `ETag` and the
//! `Content-Length` from the raw body, and text types are pre-compressed
//! with zstd so that requests never compress. The three header sets a
//! response can carry (zstd, identity, 304) are prepared alongside.
use std::collections::HashMap;

use vstd::prelude::*;

use crate::aliases::{alias_plan, route_aliases, views};
use crate::cache::{cache_get, cache_insert_absent, cache_keys, present, stored_under};
use crate::content::{
    compress_zstd, content_length_header, content_type_for_ext, decimal, etag_for_digest,
    etag_from_digest, etag_of, ext_info, extension_of, file_extension, is_compressible_ext,
    opt_bytes, sha256_digest, zstd_encoded, MAX_PRECOMPRESS_BYTES,
};
use crate::validation::{opt_as_str, opt_view};

verus! {

broadcast use vstd::string::group_string_axioms;

/// The value of a prepared header.
#[derive(Debug, Clone)]
pub enum HeaderText {
    /// This text.
    Value(String),
    /// The restrictive Content-Security-Policy applied to SVG images,
    /// which the security middleware defines.
    SvgCsp,
}

/// A prepared response header.
#[derive(Debug, Clone)]
pub struct HeaderField {
    /// The lower-case header name.
    pub name: &'static str,
    /// The header value.
    pub value: HeaderText,
}

/// A header as name and value; `None` stands for the SVG policy.
pub open spec fn field_view(f: HeaderField) -> (Seq<char>, Option<Seq<char>>) {
    (
        f.name@,
        match f.value {
            HeaderText::Value(s) => Some(s@),
            HeaderText::SvgCsp => None,
        },
    )
}

/// The headers of a prepared set.
pub open spec fn fields_view(v: Seq<HeaderField>) -> Seq<(Seq<char>, Option<Seq<char>>)> {
    v.map_values(|f: HeaderField| field_view(f))
}

/// Headers of a 304 response: validator, revalidation, and `Vary` when a
/// compressed variant exists.
pub open spec fn headers_304_spec(etag: Seq<char>, compressed: bool) -> Seq<(Seq<char>, Option<Seq<char>>)> {
    seq![("etag"@, Some(etag)), ("cache-control"@, Some("no-cache"@))] + if compressed {
        seq![("vary"@, Some("Accept-Encoding"@))]
    } else {
        Seq::empty()
    }
}

/// Headers of an identity response.
pub open spec fn headers_raw_spec(
    content_type: Seq<char>,
    etag: Seq<char>,
    content_length: Seq<char>,
    compressed: bool,
) -> Seq<(Seq<char>, Option<Seq<char>>)> {
    seq![
        ("content-type"@, Some(content_type)),
        ("etag"@, Some(etag)),
        ("cache-control"@, Some("no-cache"@)),
        ("content-length"@, Some(content_length)),
    ] + (if compressed {
        seq![("vary"@, Some("Accept-Encoding"@))]
    } else {
        Seq::empty()
    }) + (if content_type == "image/svg+xml"@ {
        seq![("content-security-policy"@, None)]
    } else {
        Seq::empty()
    })
}

/// Headers of a zstd response (identity length and no encoding when no
/// compressed variant exists).
pub open spec fn headers_zstd_spec(
    content_type: Seq<char>,
    etag: Seq<char>,
    content_length: Seq<char>,
    zstd_length: Option<Seq<char>>,
) -> Seq<(Seq<char>, Option<Seq<char>>)> {
    seq![
        ("content-type"@, Some(content_type)),
        ("etag"@, Some(etag)),
        ("cache-control"@, Some("no-cache"@)),
    ] + (match zstd_length {
        Some(z) => seq![
            ("content-length"@, Some(z)),
            ("content-encoding"@, Some("zstd"@)),
            ("vary"@, Some("Accept-Encoding"@)),
        ],
        None => seq![("content-length"@, Some(content_length))],
    }) + (if content_type == "image/svg+xml"@ {
        seq![("content-security-policy"@, None)]
    } else {
        Seq::empty()
    })
}

fn text(s: &str) -> (h: HeaderText)
    ensures
        h matches HeaderText::Value(v) && v@ == s@,
{
    HeaderText::Value(s.to_owned())
}

fn field(name: &'static str, value: HeaderText) -> (f: HeaderField)
    ensures
        f.name == name,
        f.value == value,
{
    HeaderField { name, value }
}

/// Prepared 304 headers.
pub fn headers_304(etag: &str, compressed: bool) -> (h: Vec<HeaderField>)
    ensures
        fields_view(h@) == headers_304_spec(etag@, compressed),
{
    let mut h = Vec::new();
    h.push(field("etag", text(etag)));
    h.push(field("cache-control", text("no-cache")));
    if compressed {
        h.push(field("vary", text("Accept-Encoding")));
    }
    assert(fields_view(h@) =~= headers_304_spec(etag@, compressed));
    h
}

/// Prepared identity-response headers.
pub fn headers_raw(content_type: &str, etag: &str, content_length: &str, compressed: bool) -> (h: Vec<HeaderField>)
    ensures
        fields_view(h@) == headers_raw_spec(content_type@, etag@, content_length@, compressed),
{
    let mut h = Vec::new();
    h.push(field("content-type", text(content_type)));
    h.push(field("etag", text(etag)));
    h.push(field("cache-control", text("no-cache")));
    h.push(field("content-length", text(content_length)));
    if compressed {
        h.push(field("vary", text("Accept-Encoding")));
    }
    if crate::cache::str_eq(content_type, "image/svg+xml") {
        h.push(field("content-security-policy", HeaderText::SvgCsp));
    }
    assert(fields_view(h@) =~= headers_raw_spec(content_type@, etag@, content_length@, compressed));
    h
}

/// Prepared zstd-response headers.
pub fn headers_zstd(content_type: &str, etag: &str, content_length: &str, zstd_length: Option<&str>) -> (h: Vec<HeaderField>)
    ensures
        fields_view(h@) == headers_zstd_spec(
            content_type@,
            etag@,
            content_length@,
            match zstd_length {
                Some(z) => Some(z@),
                None => None,
            },
        ),
{
    let mut h = Vec::new();
    h.push(field("content-type", text(content_type)));
    h.push(field("etag", text(etag)));
    h.push(field("cache-control", text("no-cache")));
    match zstd_length {
        Some(z) => {
            h.push(field("content-length", text(z)));
            h.push(field("content-encoding", text("zstd")));
            h.push(field("vary", text("Accept-Encoding")));
        },
        None => {
            h.push(field("content-length", text(content_length)));
        },
    }
    if crate::cache::str_eq(content_type, "image/svg+xml") {
        h.push(field("content-security-policy", HeaderText::SvgCsp));
    }
    assert(fields_view(h@) =~= headers_zstd_spec(
        content_type@,
        etag@,
        content_length@,
        match zstd_length {
            Some(z) => Some(z@),
            None => None,
        },
    ));
    h
}

/// The first `limit` bytes (at most) of the zstd decoding of `data`, or
/// `None` when the stream cannot be opened or read.
pub uninterp spec fn zstd_decoded_prefix(data: Seq<u8>, limit: u64) -> Option<Seq<u8>>;

/// zstd-decodes `data`, reading at most `limit` bytes of output.
///
/// Opens `zstd::stream::read::Decoder` on `data` and reads it, limited
/// to `limit` bytes, to its end. The contract claims that the result
/// (`None` on an error) is the one named [`zstd_decoded_prefix`] for these
/// arguments and holds at most `limit` bytes, and that a stream which
/// `zstd::stream::encode_all` produced from some bytes decodes back to
/// those bytes, cut at `limit`.
#[verifier::external_body]
fn zstd_decode_limited(data: &[u8], limit: u64) -> (r: Option<Vec<u8>>)
    ensures
        opt_bytes(r) == zstd_decoded_prefix(data@, limit),
        r matches Some(v) ==> v@.len() <= limit,
        forall|d: Seq<u8>, level: i32|
            #![trigger zstd_encoded(d, level)]
            zstd_encoded(d, level) == Some(data@) ==> opt_bytes(r) == Some(
                if d.len() <= limit {
                    d
                } else {
                    d.take(limit as int)
                },
            ),
{
    let decoder = zstd::stream::read::Decoder::new(data).ok()?;
    let mut buf = Vec::new();
    std::io::Read::read_to_end(&mut std::io::Read::take(decoder, limit), &mut buf).ok()?;
    Some(buf)
}

fn clone_bytes(v: &Vec<u8>) -> (r: Vec<u8>)
    ensures
        r@ == v@,
{
    let r = v.clone();
    assert(r@ =~= v@);
    r
}

/// Type-distinct body storage: a page body is in exactly one of its
/// legal shapes.
#[derive(Debug, Clone)]
#[non_exhaustive]
pub enum CachedBody {
    /// Raw body is the only copy (oversized page or non-compressible
    /// type).
    RawOnly {
        /// The raw response body.
        body: Vec<u8>,
    },
    /// Zstd-compressed body only; the raw body was dropped after
    /// compression, and `raw_len` bounds decoding on demand.
    Compressed {
        /// The pre-compressed zstd body.
        zstd: Vec<u8>,
        /// The exact decoded length of `zstd`.
        raw_len: usize,
    },
    /// Both the zstd-compressed and the raw body (the front page).
    Dual {
        /// The pre-compressed zstd body.
        zstd: Vec<u8>,
        /// The raw response body.
        raw: Vec<u8>,
    },
}

/// Identity bytes of a compressed body: its decoding, when that is
/// exactly `raw_len` bytes long (read bounded to `raw_len + 1`).
pub open spec fn bounded_identity(zstd: Seq<u8>, raw_len: usize) -> Option<Seq<u8>> {
    let limit: u64 = if raw_len as int + 1 > u64::MAX { u64::MAX } else { (raw_len + 1) as u64 };
    match zstd_decoded_prefix(zstd, limit) {
        Some(d) => if d.len() == raw_len {
            Some(d)
        } else {
            None
        },
        None => None,
    }
}

impl CachedBody {
    /// The pre-compressed zstd body, if this page has one.
    pub fn zstd(&self) -> (r: Option<&Vec<u8>>)
        ensures
            match self {
                CachedBody::RawOnly { .. } => r is None,
                CachedBody::Compressed { zstd, .. } => r == Some(zstd),
                CachedBody::Dual { zstd, .. } => r == Some(zstd),
            },
    {
        match self {
            CachedBody::Compressed { zstd, .. } => Some(zstd),
            CachedBody::Dual { zstd, .. } => Some(zstd),
            CachedBody::RawOnly { .. } => None,
        }
    }

    /// Identity (uncompressed) bytes: the stored raw body, or the
    /// bounded decoding of the compressed one, which must be exactly the
    /// recorded length (never partial or over-length data).
    pub fn identity_bytes(&self) -> (r: Option<Vec<u8>>)
        ensures
            opt_bytes(r) == match self {
                CachedBody::RawOnly { body } => Some(body@),
                CachedBody::Dual { raw, .. } => Some(raw@),
                CachedBody::Compressed { zstd, raw_len } => bounded_identity(zstd@, *raw_len),
            },
            self matches CachedBody::Compressed { zstd, raw_len } ==> forall|d: Seq<u8>, level: i32|
                #![trigger zstd_encoded(d, level)]
                zstd_encoded(d, level) == Some(zstd@) && d.len() == raw_len ==> opt_bytes(r) == Some(d),
    {
        match self {
            CachedBody::RawOnly { body } => Some(clone_bytes(body)),
            CachedBody::Dual { raw, .. } => Some(clone_bytes(raw)),
            CachedBody::Compressed { zstd, raw_len } => {
                let limit: u64 = if *raw_len as u128 + 1 > u64::MAX as u128 {
                    u64::MAX
                } else {
                    (*raw_len as u64) + 1
                };
                match zstd_decode_limited(zstd.as_slice(), limit) {
                    Some(d) => if d.len() == *raw_len {
                        Some(d)
                    } else {
                        None
                    },
                    None => None,
                }
            },
        }
    }
}

/// A single cached page ready to serve.
#[derive(Debug, Clone)]
#[non_exhaustive]
pub struct CachedPage {
    /// The response body, in exactly one of its legal shapes.
    pub body: CachedBody,
    /// `Content-Type` value.
    pub content_type: &'static str,
    /// Weak `ETag` derived from the raw body's hash.
    pub etag: String,
    /// `Content-Length` of the raw (identity) body.
    pub content_length: String,
    /// `Content-Length` of the zstd body, when one exists.
    pub content_length_zstd: Option<String>,
    /// Headers of a zstd-encoded response.
    pub headers_zstd: Vec<HeaderField>,
    /// Headers of an uncompressed response.
    pub headers_raw: Vec<HeaderField>,
    /// Headers of a 304 Not Modified response.
    pub headers_304: Vec<HeaderField>,
}

/// The media type of a file name.
pub open spec fn content_type_of(name: Seq<char>) -> Seq<char> {
    match ext_info(file_extension(name)) {
        Some((ct, _)) => ct,
        None => "application/octet-stream"@,
    }
}

/// Whether a file name's type is pre-compressed.
pub open spec fn compressible_name(name: Seq<char>) -> bool {
    match ext_info(file_extension(name)) {
        Some((_, c)) => c,
        None => false,
    }
}

/// The zstd variant a page of this name and body gets: compressible
/// types at most [`MAX_PRECOMPRESS_BYTES`] long are encoded at level 19.
pub open spec fn zstd_variant(name: Seq<char>, body: Seq<u8>) -> Option<Seq<u8>> {
    variant_of(name, body, zstd_encoded(body, 19))
}

/// The zstd variant kept for a file, given what the encoder made of its
/// body: the encoding for a compressible name and a body within
/// [`MAX_PRECOMPRESS_BYTES`], else none.
pub open spec fn variant_of(name: Seq<char>, body: Seq<u8>, encoded: Option<Seq<u8>>) -> Option<
    Seq<u8>,
> {
    if compressible_name(name) && body.len() <= MAX_PRECOMPRESS_BYTES {
        encoded
    } else {
        None
    }
}

fn ext_ref(e: &Option<String>) -> (r: Option<&str>)
    ensures
        match e {
            Some(s) => r is Some && r->0@ == s@,
            None => r is None,
        },
{
    opt_as_str(e)
}

impl CachedPage {
    /// Create a page: media type from the extension of `filename`, weak
    /// `ETag` and `Content-Length` from the raw body, zstd pre-compression
    /// for text types up to [`MAX_PRECOMPRESS_BYTES`]. With a zstd variant
    /// the raw body is dropped, except for `index.html`, which keeps both;
    /// without one the raw body is the only copy.
    pub fn new(filename: &str, body: Vec<u8>) -> (p: Self)
        ensures
            p.content_type@ == content_type_of(filename@),
            p.etag@ == etag_of(body@),
            p.content_length@ == decimal(body@.len()),
            match zstd_variant(filename@, body@) {
                Some(z) => {
                    &&& p.content_length_zstd matches Some(l) && l@ == decimal(z.len())
                    &&& if filename@ == "index.html"@ {
                        p.body matches CachedBody::Dual { zstd, raw } && zstd@ == z && raw@ == body@
                    } else {
                        p.body matches CachedBody::Compressed { zstd, raw_len } && zstd@ == z
                            && raw_len == body@.len()
                    }
                },
                None => {
                    &&& p.content_length_zstd is None
                    &&& p.body matches CachedBody::RawOnly { body: b } && b@ == body@
                },
            },
            fields_view(p.headers_304@) == headers_304_spec(
                etag_of(body@),
                zstd_variant(filename@, body@) is Some,
            ),
            fields_view(p.headers_raw@) == headers_raw_spec(
                content_type_of(filename@),
                etag_of(body@),
                decimal(body@.len()),
                zstd_variant(filename@, body@) is Some,
            ),
            fields_view(p.headers_zstd@) == headers_zstd_spec(
                content_type_of(filename@),
                etag_of(body@),
                decimal(body@.len()),
                match zstd_variant(filename@, body@) {
                    Some(z) => Some(decimal(z.len())),
                    None => None,
                },
            ),
    {
        let ext = extension_of(filename);
        let compressible = is_compressible_ext(ext_ref(&ext));
        let digest = sha256_digest(body.as_slice());
        let encoded = if compressible {
            compress_zstd(body.as_slice())
        } else {
            None
        };
        CachedPage::from_parts(filename, body, digest.as_slice(), encoded)
    }

    /// Assemble a page from `body`, its SHA-256 `digest` and what the zstd
    /// encoder made of it (`encoded`): as [`Self::new`] describes, with the
    /// `ETag` taken from `digest` and the zstd variant being `encoded` for a
    /// compressible name and a body within the pre-compression limit.
    pub fn from_parts(
        filename: &str,
        body: Vec<u8>,
        digest: &[u8],
        encoded: Option<Vec<u8>>,
    ) -> (p: Self)
        requires
            digest@.len() >= 16,
        ensures
            p.content_type@ == content_type_of(filename@),
            p.etag@ == etag_from_digest(digest@),
            p.content_length@ == decimal(body@.len()),
            match variant_of(filename@, body@, opt_bytes(encoded)) {
                Some(z) => {
                    &&& p.content_length_zstd matches Some(l) && l@ == decimal(z.len())
                    &&& if filename@ == "index.html"@ {
                        p.body matches CachedBody::Dual { zstd, raw } && zstd@ == z && raw@ == body@
                    } else {
                        p.body matches CachedBody::Compressed { zstd, raw_len } && zstd@ == z
                            && raw_len == body@.len()
                    }
                },
                None => {
                    &&& p.content_length_zstd is None
                    &&& p.body matches CachedBody::RawOnly { body: b } && b@ == body@
                },
            },
            fields_view(p.headers_304@) == headers_304_spec(
                etag_from_digest(digest@),
                variant_of(filename@, body@, opt_bytes(encoded)) is Some,
            ),
            fields_view(p.headers_raw@) == headers_raw_spec(
                content_type_of(filename@),
                etag_from_digest(digest@),
                decimal(body@.len()),
                variant_of(filename@, body@, opt_bytes(encoded)) is Some,
            ),
            fields_view(p.headers_zstd@) == headers_zstd_spec(
                content_type_of(filename@),
                etag_from_digest(digest@),
                decimal(body@.len()),
                match variant_of(filename@, body@, opt_bytes(encoded)) {
                    Some(z) => Some(decimal(z.len())),
                    None => None,
                },
            ),
    {
        let ext = extension_of(filename);
        let content_type = content_type_for_ext(ext_ref(&ext));
        let etag = etag_for_digest(digest);
        let content_length = content_length_header(body.len());
        let compressible = is_compressible_ext(ext_ref(&ext));
        let raw_len = body.len();
        let body_zstd = if compressible && raw_len <= MAX_PRECOMPRESS_BYTES {
            encoded
        } else {
            None
        };
        let content_length_zstd = match &body_zstd {
            Some(z) => Some(content_length_header(z.len())),
            None => None,
        };
        let has_compressed = body_zstd.is_some();
        let headers_304 = headers_304(etag.as_str(), has_compressed);
        let headers_raw = headers_raw(content_type, etag.as_str(), content_length.as_str(), has_compressed);
        let headers_zstd = headers_zstd(
            content_type,
            etag.as_str(),
            content_length.as_str(),
            opt_as_str(&content_length_zstd),
        );
        let cached_body = match body_zstd {
            Some(zstd) => if crate::cache::str_eq(filename, "index.html") {
                CachedBody::Dual { zstd, raw: body }
            } else {
                CachedBody::Compressed { zstd, raw_len }
            },
            None => CachedBody::RawOnly { body },
        };
        CachedPage {
            body: cached_body,
            content_type,
            etag,
            content_length,
            content_length_zstd,
            headers_zstd,
            headers_raw,
            headers_304,
        }
    }
}

/// `a` and `b` hold the same body in the same shape.
pub open spec fn same_body(a: CachedBody, b: CachedBody) -> bool {
    match (a, b) {
        (CachedBody::RawOnly { body: x }, CachedBody::RawOnly { body: y }) => x@ == y@,
        (CachedBody::Compressed { zstd: x, raw_len: n }, CachedBody::Compressed { zstd: y, raw_len: m }) => {
            x@ == y@ && n == m
        },
        (CachedBody::Dual { zstd: x, raw: r }, CachedBody::Dual { zstd: y, raw: q }) => x@ == y@ && r@
            == q@,
        _ => false,
    }
}

/// `a` and `b` serve the same responses: the same body, media type,
/// validator, lengths and prepared headers.
pub open spec fn same_page(a: CachedPage, b: CachedPage) -> bool {
    &&& same_body(a.body, b.body)
    &&& a.content_type@ == b.content_type@
    &&& a.etag@ == b.etag@
    &&& a.content_length@ == b.content_length@
    &&& opt_view(a.content_length_zstd) == opt_view(b.content_length_zstd)
    &&& fields_view(a.headers_zstd@) == fields_view(b.headers_zstd@)
    &&& fields_view(a.headers_raw@) == fields_view(b.headers_raw@)
    &&& fields_view(a.headers_304@) == fields_view(b.headers_304@)
}

fn copy_bytes(v: &Vec<u8>) -> (w: Vec<u8>)
    ensures
        w@ == v@,
{
    let mut w: Vec<u8> = Vec::new();
    let mut i: usize = 0;
    while i < v.len()
        invariant
            0 <= i <= v.len(),
            w@ == v@.take(i as int),
        decreases v.len() - i,
    {
        w.push(v[i]);
        assert(v@.take(i + 1) =~= v@.take(i as int).push(v@[i as int]));
        i = i + 1;
    }
    assert(v@.take(i as int) =~= v@);
    w
}

fn copy_fields(v: &Vec<HeaderField>) -> (w: Vec<HeaderField>)
    ensures
        fields_view(w@) == fields_view(v@),
{
    let mut w: Vec<HeaderField> = Vec::new();
    let mut i: usize = 0;
    while i < v.len()
        invariant
            0 <= i <= v.len(),
            fields_view(w@) == fields_view(v@.take(i as int)),
        decreases v.len() - i,
    {
        let f = &v[i];
        let value = match &f.value {
            HeaderText::Value(t) => HeaderText::Value(t.clone()),
            HeaderText::SvgCsp => HeaderText::SvgCsp,
        };
        let g = HeaderField { name: f.name, value };
        assert(field_view(g) == field_view(v@[i as int]));
        let ghost before = w@;
        w.push(g);
        assert(w@ =~= before.push(g));
        assert(v@.take(i + 1) =~= v@.take(i as int).push(v@[i as int]));
        assert(fields_view(before.push(g)) =~= fields_view(before).push(field_view(g)));
        assert(fields_view(v@.take(i as int).push(v@[i as int])) =~= fields_view(
            v@.take(i as int),
        ).push(field_view(v@[i as int])));
        i = i + 1;
    }
    assert(v@.take(i as int) =~= v@);
    w
}

fn copy_body(b: &CachedBody) -> (c: CachedBody)
    ensures
        same_body(c, *b),
{
    match b {
        CachedBody::RawOnly { body } => CachedBody::RawOnly { body: copy_bytes(body) },
        CachedBody::Compressed { zstd, raw_len } => CachedBody::Compressed {
            zstd: copy_bytes(zstd),
            raw_len: *raw_len,
        },
        CachedBody::Dual { zstd, raw } => CachedBody::Dual { zstd: copy_bytes(zstd), raw: copy_bytes(raw) },
    }
}

fn copy_page(p: &CachedPage) -> (c: CachedPage)
    ensures
        same_page(c, *p),
{
    CachedPage {
        body: copy_body(&p.body),
        content_type: p.content_type,
        etag: p.etag.clone(),
        content_length: p.content_length.clone(),
        content_length_zstd: match &p.content_length_zstd {
            Some(l) => Some(l.clone()),
            None => None,
        },
        headers_zstd: copy_fields(&p.headers_zstd),
        headers_raw: copy_fields(&p.headers_raw),
        headers_304: copy_fields(&p.headers_304),
    }
}

/// One alias step on a cache, from `before` to `after`: when `source` is
/// stored and `alias` is not, `alias` is added with a copy of the page
/// under `source`; otherwise nothing changes.
pub open spec fn alias_step(
    before: Map<String, CachedPage>,
    after: Map<String, CachedPage>,
    alias: Seq<char>,
    source: Seq<char>,
) -> bool {
    if present(before, source) && !present(before, alias) {
        exists|k: String, p: CachedPage, q: CachedPage|
            k@ == alias && stored_under(before, source, q) && same_page(p, q) && after
                == before.insert(k, p)
    } else {
        after == before
    }
}

/// `states` walks from its first map to its last through the alias steps
/// of `plan`, in order.
pub open spec fn follows_plan(
    states: Seq<Map<String, CachedPage>>,
    plan: Seq<(Seq<char>, Seq<char>)>,
) -> bool {
    &&& states.len() == plan.len() + 1
    &&& forall|j: int|
        0 <= j < plan.len() ==> alias_step(#[trigger] states[j], states[j + 1], plan[j].0, plan[j].1)
}

/// `keys` lists the keys of `m`, by their characters.
pub open spec fn lists_keys(m: Map<String, CachedPage>, keys: Seq<Seq<char>>) -> bool {
    &&& forall|i: int| 0 <= i < keys.len() ==> present(m, #[trigger] keys[i])
    &&& forall|k: String| #[trigger] m.contains_key(k) ==> keys.contains(k@)
}

/// Add the clean-URL aliases of [`route_aliases`] to `cache`: for each
/// planned `(alias, source)` in order, `alias` gets a copy of the page
/// under `source`, and a key already stored is never overwritten. The plan
/// is made from the cache's keys in the map's walk order.
pub fn populate_route_aliases(cache: &mut HashMap<String, CachedPage>)
    ensures
        exists|keys: Seq<Seq<char>>, states: Seq<Map<String, CachedPage>>|
            lists_keys(old(cache)@, keys) && follows_plan(states, alias_plan(keys)) && states[0]
                == old(cache)@ && states.last() == final(cache)@,
{
    let keys = cache_keys(cache);
    let plan = route_aliases(&keys);
    let ghost kv = views(keys@);
    let ghost pv = alias_plan(kv);
    let ghost mut states: Seq<Map<String, CachedPage>> = seq![cache@];
    proof {
        assert forall|k: String| #[trigger] old(cache)@.contains_key(k) implies kv.contains(k@) by {
            let i = choose|i: int| 0 <= i < keys@.len() && keys@[i]@ == k@;
            assert(kv[i] == k@);
        }
        assert forall|i: int| 0 <= i < kv.len() implies present(old(cache)@, #[trigger] kv[i]) by {
            assert(kv[i] == keys@[i]@);
        }
    }
    let mut j: usize = 0;
    while j < plan.len()
        invariant
            0 <= j <= plan.len(),
            plan.len() == pv.len(),
            forall|i: int| 0 <= i < plan.len() ==> (#[trigger] plan@[i]).0@ == pv[i].0 && plan@[i].1@
                == pv[i].1,
            states.len() == j + 1,
            states[0] == old(cache)@,
            states.last() == cache@,
            forall|i: int| 0 <= i < j ==> alias_step(#[trigger] states[i], states[i + 1], pv[i].0, pv[i].1),
        decreases plan.len() - j,
    {
        let ghost before = cache@;
        let alias = &plan[j].0;
        let source = &plan[j].1;
        assert(plan@[j as int].0@ == pv[j as int].0);
        if let Some(page) = cache_get(cache, source.as_str()) {
            let copy = copy_page(page);
            cache_insert_absent(cache, alias.clone(), copy);
        }
        assert(alias_step(before, cache@, pv[j as int].0, pv[j as int].1));
        proof {
            states = states.push(cache@);
        }
        j = j + 1;
    }
    proof {
        assert(follows_plan(states, pv));
    }
}

} // verus!
