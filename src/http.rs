//! Decisions of the HTTP layer: which handler a path goes to, which static
//! file a path names, the content type of a file, and the final body of a
//! response (compressed or not).

use vstd::prelude::*;
use flate2::write::GzEncoder;
use flate2::Compression;
use std::io::Write;
use crate::config::GzipConfig;
use crate::text::{contains, has_infix, has_prefix, starts_with, str_eq};

verus! {

/// Where a request goes.
#[derive(Debug, PartialEq, Eq)]
pub enum Route {
    /// The snapshot as JSON (`/metrics` asking for JSON).
    MetricsJson,
    /// The metrics in the scrape text format (`/metrics`).
    MetricsPrometheus,
    /// The server status (`/status`).
    Status,
    /// Liveness (`/health`).
    Health,
    /// A cached icon, by (decoded) service name.
    Icon(String),
    /// Nothing to serve.
    NotFound,
    /// A static file, by request path.
    Static(String),
}

/// The path prefix of the icon endpoint.
pub const ICON_PREFIX: &'static str = "/icons/services/";

/// What percent-decoding yields for a text, or nothing where the result is
/// not UTF-8.
pub uninterp spec fn url_decoded(s: Seq<char>) -> Option<Seq<char>>;

/// Relies on `urlencoding::decode`: the percent-decoded text, or its error
/// when the decoded bytes are not UTF-8.
#[verifier::external_body]
fn percent_decode(s: &str) -> (r: Option<String>)
    ensures
        match r {
            Some(d) => url_decoded(s@) == Some(d@),
            None => url_decoded(s@).is_none(),
        },
{
    urlencoding::decode(s).ok().map(|d| d.into_owned())
}

/// Chooses the handler of a request. `/metrics` is served as JSON to clients
/// that accept JSON, else in the scrape text format; under
/// `/icons/services/` the rest of the path is the percent-encoded service
/// name (taken as it is when it does not decode), and an empty name is not
/// found; any other path is a static file.
pub fn route(path: &str, wants_json: bool) -> (r: Route)
    ensures
        path@ == "/metrics"@ ==> r == if wants_json {
            Route::MetricsJson
        } else {
            Route::MetricsPrometheus
        },
        path@ == "/status"@ ==> r == Route::Status,
        path@ == "/health"@ ==> r == Route::Health,
        path@ != "/metrics"@ && path@ != "/status"@ && path@ != "/health"@ ==> if has_prefix(
            path@,
            ICON_PREFIX@,
        ) {
            let name = path@.subrange(ICON_PREFIX@.len() as int, path@.len() as int);
            if name.len() == 0 {
                r == Route::NotFound
            } else {
                r matches Route::Icon(n) && n@ == match url_decoded(name) {
                    Some(d) => d,
                    None => name,
                }
            }
        } else {
            r matches Route::Static(p) && p@ == path@
        },
{
    proof {
        reveal_strlit("/metrics");
        reveal_strlit("/status");
        reveal_strlit("/health");
        assert("/metrics"@.len() != "/status"@.len());
        assert("/metrics"@.len() != "/health"@.len());
        assert("/status"@[1] != "/health"@[1]);
    }
    if str_eq(path, "/metrics") {
        return if wants_json {
            Route::MetricsJson
        } else {
            Route::MetricsPrometheus
        };
    }
    if str_eq(path, "/status") {
        return Route::Status;
    }
    if str_eq(path, "/health") {
        return Route::Health;
    }
    if starts_with(path, ICON_PREFIX) {
        let n = path.unicode_len();
        let name = path.substring_char(ICON_PREFIX.unicode_len(), n);
        if name.unicode_len() == 0 {
            return Route::NotFound;
        }
        return match percent_decode(name) {
            Some(d) => Route::Icon(d),
            None => Route::Icon(name.to_owned()),
        };
    }
    Route::Static(path.to_owned())
}

/// Whether a header value names a media type or coding (a plain substring
/// test, as in `Accept: application/json` or `Accept-Encoding: gzip`).
pub fn header_mentions(value: Option<&str>, token: &str) -> (r: bool)
    ensures
        r == match value {
            Some(v) => has_infix(v@, token@),
            None => false,
        },
{
    match value {
        Some(v) => contains(v, token),
        None => false,
    }
}

/// `s` without its leading slashes.
pub open spec fn strip_slashes(s: Seq<char>) -> Seq<char>
    decreases s.len(),
{
    if s.len() > 0 && s[0] == '/' {
        strip_slashes(s.drop_first())
    } else {
        s
    }
}

/// What a static request names.
#[derive(Debug, PartialEq, Eq)]
pub enum StaticTarget {
    /// The path climbs out of the static directory.
    Forbidden,
    /// The file at this path under the static directory.
    File(String),
}

/// The file a static request names: the path without leading slashes, the
/// index page for an empty path, and nothing for a path holding `..`.
pub fn static_target(path: &str) -> (r: StaticTarget)
    ensures
        has_infix(strip_slashes(path@), ".."@) ==> r == StaticTarget::Forbidden,
        !has_infix(strip_slashes(path@), ".."@) ==> (r matches StaticTarget::File(f) && f@ == if strip_slashes(
            path@,
        ).len() == 0 {
            "index.html"@
        } else {
            strip_slashes(path@)
        }),
{
    let n = path.unicode_len();
    let mut k: usize = 0;
    assert(path@.subrange(0, n as int) =~= path@);
    while k < n && path.get_char(k) == '/'
        invariant
            n == path@.len(),
            0 <= k <= n,
            strip_slashes(path@) == strip_slashes(path@.subrange(k as int, n as int)),
        decreases n - k,
    {
        assert(path@.subrange(k as int, n as int).drop_first() =~= path@.subrange(k + 1, n as int));
        k += 1;
    }
    let clean = path.substring_char(k, n);
    assert(strip_slashes(clean@) == clean@);
    if contains(clean, "..") {
        return StaticTarget::Forbidden;
    }
    if clean.unicode_len() == 0 {
        return StaticTarget::File("index.html".to_owned());
    }
    StaticTarget::File(clean.to_owned())
}

/// Whether a missing static file falls back to the index page: paths with no
/// dot are routes of the single-page front end.
pub fn falls_back_to_index(clean_path: &str) -> (r: bool)
    ensures
        r == !has_infix(clean_path@, "."@),
{
    !contains(clean_path, ".")
}

/// What `Path::extension` gives for a path: the text after the last dot of
/// the file name, if any.
pub uninterp spec fn extension_of(path: Seq<char>) -> Option<Seq<char>>;

/// Relies on `std::path::Path::extension` (std): the extension of the file
/// name, if it has one.
#[verifier::external_body]
fn path_extension(path: &str) -> (r: Option<String>)
    ensures
        match r {
            Some(e) => extension_of(path@) == Some(e@),
            None => extension_of(path@).is_none(),
        },
{
    std::path::Path::new(path).extension().and_then(|e| e.to_str()).map(|e| e.to_owned())
}

/// The content type served for a file extension.
pub open spec fn mime_spec(ext: Option<Seq<char>>) -> Seq<char> {
    match ext {
        Some(e) => if e == "html"@ || e == "htm"@ {
            "text/html; charset=utf-8"@
        } else if e == "css"@ {
            "text/css; charset=utf-8"@
        } else if e == "js"@ || e == "mjs"@ {
            "application/javascript; charset=utf-8"@
        } else if e == "json"@ {
            "application/json; charset=utf-8"@
        } else if e == "png"@ {
            "image/png"@
        } else if e == "jpg"@ || e == "jpeg"@ {
            "image/jpeg"@
        } else if e == "gif"@ {
            "image/gif"@
        } else if e == "svg"@ {
            "image/svg+xml"@
        } else if e == "ico"@ {
            "image/x-icon"@
        } else if e == "woff"@ {
            "font/woff"@
        } else if e == "woff2"@ {
            "font/woff2"@
        } else if e == "ttf"@ {
            "font/ttf"@
        } else if e == "txt"@ {
            "text/plain; charset=utf-8"@
        } else if e == "xml"@ {
            "application/xml; charset=utf-8"@
        } else if e == "webp"@ {
            "image/webp"@
        } else if e == "map"@ {
            "application/json"@
        } else {
            "application/octet-stream"@
        },
        None => "application/octet-stream"@,
    }
}

/// The content type served for a file extension.
pub fn mime_for_extension(ext: Option<&str>) -> (r: &'static str)
    ensures
        r@ == mime_spec(match ext {
            Some(e) => Some(e@),
            None => None,
        }),
{
    let e = match ext {
        Some(e) => e,
        None => {
            return "application/octet-stream";
        },
    };
    if str_eq(e, "html") || str_eq(e, "htm") {
        "text/html; charset=utf-8"
    } else if str_eq(e, "css") {
        "text/css; charset=utf-8"
    } else if str_eq(e, "js") || str_eq(e, "mjs") {
        "application/javascript; charset=utf-8"
    } else if str_eq(e, "json") {
        "application/json; charset=utf-8"
    } else if str_eq(e, "png") {
        "image/png"
    } else if str_eq(e, "jpg") || str_eq(e, "jpeg") {
        "image/jpeg"
    } else if str_eq(e, "gif") {
        "image/gif"
    } else if str_eq(e, "svg") {
        "image/svg+xml"
    } else if str_eq(e, "ico") {
        "image/x-icon"
    } else if str_eq(e, "woff") {
        "font/woff"
    } else if str_eq(e, "woff2") {
        "font/woff2"
    } else if str_eq(e, "ttf") {
        "font/ttf"
    } else if str_eq(e, "txt") {
        "text/plain; charset=utf-8"
    } else if str_eq(e, "xml") {
        "application/xml; charset=utf-8"
    } else if str_eq(e, "webp") {
        "image/webp"
    } else if str_eq(e, "map") {
        "application/json"
    } else {
        "application/octet-stream"
    }
}

/// The content type served for a file path, by its extension.
pub fn mime_type(path: &str) -> (r: &'static str)
    ensures
        r@ == mime_spec(extension_of(path@)),
{
    let ext = path_extension(path);
    match &ext {
        Some(e) => mime_for_extension(Some(e.as_str())),
        None => mime_for_extension(None),
    }
}

/// The content type served for a file path (see `mime_type`).
pub fn get_mime_type(path: &str) -> (r: &'static str)
    ensures
        r@ == mime_spec(extension_of(path@)),
{
    mime_type(path)
}

/// What gzip at `level` makes of some bytes.
pub uninterp spec fn gzip_of(data: Seq<u8>, level: u32) -> Seq<u8>;

/// Relies on `flate2::write::GzEncoder` (with `Compression::new(level)`): the
/// gzip stream of the bytes, or nothing if the encoder reports an error.
#[verifier::external_body]
fn gzip_compress(data: &Vec<u8>, level: u32) -> (r: Option<Vec<u8>>)
    requires
        level <= 9,
    ensures
        r matches Some(c) ==> c@ == gzip_of(data@, level),
{
    let mut encoder = GzEncoder::new(Vec::new(), Compression::new(level));
    match encoder.write_all(data) {
        Ok(()) => encoder.finish().ok(),
        Err(_) => None,
    }
}

/// A response body after the final touches.
#[derive(Debug)]
pub struct Finalized {
    pub body: Vec<u8>,
    /// Add the CORS header.
    pub cors: bool,
    /// The body is gzip-compressed.
    pub gzipped: bool,
}

/// Whether a body is worth compressing: gzip on, asked for by the client,
/// and the body larger than the minimum size.
pub open spec fn should_compress(len: int, gzip_requested: bool, config: GzipConfig) -> bool {
    config.enabled && gzip_requested && len > config.min_size
}

/// Finishes a response body given the outcome of compressing it (`None`
/// when it was not compressed, or compression failed): the compressed body is
/// sent, marked gzip, exactly when compression is due and came out smaller.
pub fn finish_body(
    body: Vec<u8>,
    cors_enabled: bool,
    gzip_requested: bool,
    gzip_config: &GzipConfig,
    compressed: Option<Vec<u8>>,
) -> (r: Finalized)
    ensures
        r.cors == cors_enabled,
        r.gzipped == (should_compress(body@.len() as int, gzip_requested, *gzip_config) && (
        compressed matches Some(c) && c@.len() < body@.len())),
        r.gzipped ==> (compressed matches Some(c) && r.body@ == c@),
        !r.gzipped ==> r.body@ == body@,
{
    let due = gzip_config.enabled && gzip_requested && body.len() > gzip_config.min_size;
    match compressed {
        Some(c) => if due && c.len() < body.len() {
            Finalized { body: c, cors: cors_enabled, gzipped: true }
        } else {
            Finalized { body, cors: cors_enabled, gzipped: false }
        },
        None => Finalized { body, cors: cors_enabled, gzipped: false },
    }
}

/// The final form of a response body: CORS as configured, and gzip when it
/// is due (on, asked for, body above the minimum size) and the compressed
/// body is smaller. Compression is attempted only when due.
pub fn finalize(body: Vec<u8>, cors_enabled: bool, gzip_requested: bool, gzip_config: &GzipConfig) -> (r:
    Finalized)
    requires
        gzip_config.level <= 9,
    ensures
        r.cors == cors_enabled,
        r.gzipped ==> should_compress(body@.len() as int, gzip_requested, *gzip_config),
        !should_compress(body@.len() as int, gzip_requested, *gzip_config) ==> r.body@ == body@
            && !r.gzipped,
        r.gzipped ==> r.body@ == gzip_of(body@, gzip_config.level) && r.body@.len() < body@.len(),
        !r.gzipped ==> r.body@ == body@,
        gzip_of(body@, gzip_config.level).len() >= body@.len() ==> !r.gzipped,
{
    let compressed = if gzip_config.enabled && gzip_requested && body.len() > gzip_config.min_size {
        gzip_compress(&body, gzip_config.level)
    } else {
        None
    };
    finish_body(body, cors_enabled, gzip_requested, gzip_config, compressed)
}

} // verus!
