//! How static assets are answered: the headers every asset carries, the ETag
//! revalidation, the CORS headers of the vendored libraries, the gzip
//! fallback, and the content security policies of sandboxed artifacts.
use crate::bytes::copy_bytes;
use crate::headers::{header_inserted, lemma_inserted_distinct, HeaderList};
use crate::text::{
    before_first, before_first_chars, chars_of, extend_str, is_ascii_alnum, is_ascii_alnum_char,
    split_chars, split_pieces, str_eq, string_of, trim_chars, trim_seq,
};
use vstd::prelude::*;
use vstd::string::StringSliceAdditionalSpecFns;

verus! {

/// The content security policy of every front-end asset.
pub const ASSET_CSP: &'static str = "default-src 'self'; img-src 'self' blob:; media-src 'self' https: http:; style-src 'self'; script-src 'self'; connect-src 'self'; base-uri 'none'; frame-ancestors 'none'; form-action 'self'";

/// The policy of active content that may run no script at all.
pub const STRICT_CSP: &'static str = "sandbox; default-src 'none'; style-src 'unsafe-inline'; img-src data: blob:";

/// The content type `axum` gives a byte body before the asset's own is set.
pub const OCTET_STREAM: &'static str = "application/octet-stream";

/// The content type `axum` gives a `String` body.
pub const PLAIN_TEXT: &'static str = "text/plain; charset=utf-8";

pub type Headers = Seq<(Seq<char>, Seq<char>)>;

/// A response to an asset request: status, headers and body.
pub struct AssetResponse {
    pub status: u16,
    pub headers: HeaderList,
    pub body: Vec<u8>,
}

/// The headers an asset response carries after `finish_asset_response`.
pub open spec fn finished_headers(h: Headers, content_type: Seq<char>) -> Headers {
    let h1 = header_inserted(h, "content-type"@, content_type);
    let h2 = header_inserted(h1, "cache-control"@, "no-cache"@);
    let h3 = header_inserted(h2, "x-content-type-options"@, "nosniff"@);
    let h4 = header_inserted(h3, "content-security-policy"@, ASSET_CSP@);
    header_inserted(h4, "referrer-policy"@, "no-referrer"@)
}

/// Sets the content type and the headers every asset carries: no-cache,
/// nosniff, the asset CSP and no-referrer.
pub fn finish_asset_response(response: AssetResponse, content_type: &str) -> (out: AssetResponse)
    requires
        response.headers.wf(),
    ensures
        out.status == response.status,
        out.body@ == response.body@,
        out.headers.wf(),
        out.headers.view() == finished_headers(response.headers.view(), content_type@),
{
    let mut r = response;
    r.headers.insert("content-type", content_type);
    r.headers.insert("cache-control", "no-cache");
    r.headers.insert("x-content-type-options", "nosniff");
    r.headers.insert("content-security-policy", ASSET_CSP);
    r.headers.insert("referrer-policy", "no-referrer");
    r
}

/// The headers of a fresh byte body.
pub open spec fn body_headers() -> Headers {
    seq![("content-type"@, OCTET_STREAM@)]
}

fn byte_body(content: &[u8]) -> (r: AssetResponse)
    ensures
        r.status == 200,
        r.body@ == content@,
        r.headers.wf(),
        r.headers.view() == body_headers(),
{
    let mut headers = HeaderList::new();
    headers.insert("content-type", OCTET_STREAM);
    AssetResponse { status: 200, headers, body: copy_bytes(content) }
}

/// A `200` answer with the given bytes as an asset of the given type.
pub fn asset_response(content: &[u8], content_type: &str) -> (out: AssetResponse)
    ensures
        out.status == 200,
        out.body@ == content@,
        out.headers.wf(),
        out.headers.view() == finished_headers(body_headers(), content_type@),
{
    finish_asset_response(byte_body(content), content_type)
}

/// [`asset_response`] for text.
pub fn text_asset(content: &str, content_type: &str) -> (out: AssetResponse)
    ensures
        out.status == 200,
        out.body@ == content.spec_bytes(),
        out.headers.wf(),
        out.headers.view() == finished_headers(body_headers(), content_type@),
{
    asset_response(content.as_bytes(), content_type)
}

/// [`asset_response`] for bytes.
pub fn binary_asset(content: &[u8], content_type: &str) -> (out: AssetResponse)
    ensures
        out.status == 200,
        out.body@ == content@,
        out.headers.wf(),
        out.headers.view() == finished_headers(body_headers(), content_type@),
{
    asset_response(content, content_type)
}

/// The ETag of the embedded assets: the build id in double quotes.
pub open spec fn etag_of(build_id: Seq<char>) -> Seq<char> {
    seq!['"'] + build_id + seq!['"']
}

pub fn build_etag(build_id: &str) -> (out: String)
    ensures
        out@ == etag_of(build_id@),
{
    let mut v: Vec<char> = Vec::new();
    v.push('"');
    extend_str(&mut v, build_id);
    v.push('"');
    assert(v@ =~= etag_of(build_id@));
    string_of(&v)
}

/// Whether the request's `If-None-Match` names the current ETag.
pub open spec fn revalidates(if_none_match: Option<Seq<char>>, etag: Seq<char>) -> bool {
    if_none_match == Some(etag)
}

/// The answer to a request for an embedded asset: `304` with the ETag when the
/// client already holds this build's copy, else the asset with the ETag.
pub open spec fn embedded_outcome(
    if_none_match: Option<Seq<char>>,
    content: Seq<u8>,
    content_type: Seq<char>,
    etag: Seq<char>,
) -> (u16, Headers, Seq<u8>) {
    if revalidates(if_none_match, etag) {
        (304, seq![("etag"@, etag)], Seq::empty())
    } else {
        (
            200,
            header_inserted(finished_headers(body_headers(), content_type), "etag"@, etag),
            content,
        )
    }
}


pub open spec fn opt_view(o: Option<&str>) -> Option<Seq<char>> {
    match o {
        Some(s) => Some(s@),
        None => None,
    }
}

pub fn embedded_asset(
    if_none_match: Option<&str>,
    content: &[u8],
    content_type: &str,
    etag: &str,
) -> (out: AssetResponse)
    ensures
        out.headers.wf(),
        (out.status, out.headers.view(), out.body@) == embedded_outcome(
            opt_view(if_none_match),
            content@,
            content_type@,
            etag@,
        ),
{
    let fresh = match if_none_match {
        Some(v) => str_eq(v, etag),
        None => false,
    };
    if fresh {
        let mut headers = HeaderList::new();
        headers.insert("etag", etag);
        assert(headers.view() =~= seq![("etag"@, etag@)]);
        return AssetResponse { status: 304, headers, body: Vec::new() };
    }
    let mut r = asset_response(content, content_type);
    r.headers.insert("etag", etag);
    r
}

/// The headers that let an opaque-origin iframe load a public library.
pub open spec fn sandbox_frame_headers(h: Headers) -> Headers {
    let h1 = header_inserted(h, "access-control-allow-origin"@, "*"@);
    let h2 = header_inserted(h1, "access-control-allow-private-network"@, "true"@);
    let h3 = header_inserted(h2, "access-control-allow-methods"@, "GET, OPTIONS"@);
    header_inserted(h3, "access-control-max-age"@, "600"@)
}

/// Adds the CORS and private-network headers that the sandboxed artifact
/// frames need to read `/vendor/`.
pub fn allow_sandboxed_frames(headers: &mut HeaderList)
    requires
        old(headers).wf(),
    ensures
        final(headers).wf(),
        final(headers).view() == sandbox_frame_headers(old(headers).view()),
{
    headers.insert("access-control-allow-origin", "*");
    headers.insert("access-control-allow-private-network", "true");
    headers.insert("access-control-allow-methods", "GET, OPTIONS");
    headers.insert("access-control-max-age", "600");
}

/// A vendored library: an embedded asset with the sandbox-frame headers.
pub fn vendor_asset(
    if_none_match: Option<&str>,
    content: &[u8],
    content_type: &str,
    etag: &str,
) -> (out: AssetResponse)
    ensures
        out.headers.wf(),
        out.status == embedded_outcome(opt_view(if_none_match), content@, content_type@, etag@).0,
        out.body@ == embedded_outcome(opt_view(if_none_match), content@, content_type@, etag@).2,
        out.headers.view() == sandbox_frame_headers(
            embedded_outcome(opt_view(if_none_match), content@, content_type@, etag@).1,
        ),
{
    let mut r = embedded_asset(if_none_match, content, content_type, etag);
    allow_sandboxed_frames(&mut r.headers);
    r
}

/// ASCII case folding of one character, as a code point.
pub open spec fn ascii_lower(c: char) -> u32 {
    if 'A' <= c && c <= 'Z' {
        (c as u32 + 32) as u32
    } else {
        c as u32
    }
}

/// `str::eq_ignore_ascii_case`.
pub open spec fn eq_ignore_ascii_case(a: Seq<char>, b: Seq<char>) -> bool {
    a.len() == b.len() && forall|i: int| 0 <= i < a.len() ==> ascii_lower(#[trigger] a[i]) == ascii_lower(b[i])
}

fn lower(c: char) -> (r: u32)
    ensures
        r == ascii_lower(c),
{
    if 'A' <= c && c <= 'Z' {
        (c as u32) + 32
    } else {
        c as u32
    }
}

/// `str::eq_ignore_ascii_case` on character vectors.
pub fn ascii_case_eq(a: &[char], b: &[char]) -> (r: bool)
    ensures
        r == eq_ignore_ascii_case(a@, b@),
{
    if a.len() != b.len() {
        return false;
    }
    let mut i: usize = 0;
    while i < a.len()
        invariant
            i <= a.len() == b.len(),
            forall|k: int| 0 <= k < i ==> ascii_lower(#[trigger] a@[k]) == ascii_lower(b@[k]),
        decreases a.len() - i,
    {
        if lower(a[i]) != lower(b[i]) {
            assert(ascii_lower(a@[i as int]) != ascii_lower(b@[i as int]));
            return false;
        }
        i += 1;
    }
    true
}

/// Whether one entry of `Accept-Encoding` names gzip: its coding, before any
/// `;` parameters, trimmed, is `gzip` in any ASCII case.
pub open spec fn names_gzip(part: Seq<char>) -> bool {
    eq_ignore_ascii_case(trim_seq(before_first(part, seq![';'])), "gzip"@)
}

/// Whether some comma-separated entry of an `Accept-Encoding` value names
/// gzip.
pub open spec fn lists_gzip(v: Seq<char>) -> bool {
    exists|i: int| 0 <= i < split_pieces(v, ',').len() && names_gzip(#[trigger] split_pieces(v, ',')[i])
}

/// Whether an `Accept-Encoding` header is present and lists gzip.
pub open spec fn gzip_accepted(value: Option<Seq<char>>) -> bool {
    match value {
        Some(v) => lists_gzip(v),
        None => false,
    }
}

fn names_gzip_chars(part: &[char]) -> (r: bool)
    ensures
        r == names_gzip(part@),
{
    let semi = vec![';'];
    assert(semi@ =~= seq![';']);
    let coding = trim_chars(&before_first_chars(part, &semi));
    let gzip = chars_of("gzip");
    if coding.len() != gzip.len() {
        return false;
    }
    let mut i: usize = 0;
    while i < coding.len()
        invariant
            i <= coding.len() == gzip.len(),
            coding@ == trim_seq(before_first(part@, seq![';'])),
            gzip@ == "gzip"@,
            forall|k: int| 0 <= k < i ==> ascii_lower(#[trigger] coding@[k]) == ascii_lower(gzip@[k]),
        decreases coding.len() - i,
    {
        if lower(coding[i]) != lower(gzip[i]) {
            assert(ascii_lower(coding@[i as int]) != ascii_lower(gzip@[i as int]));
            return false;
        }
        i += 1;
    }
    true
}

/// Whether the client takes gzip-encoded bodies.
pub fn accepts_gzip(accept_encoding: Option<&str>) -> (r: bool)
    ensures
        r == gzip_accepted(opt_view(accept_encoding)),
{
    let value = match accept_encoding {
        Some(v) => v,
        None => return false,
    };
    let chars = chars_of(value);
    let parts = split_chars(&chars, ',');
    let mut i: usize = 0;
    while i < parts.len()
        invariant
            i <= parts.len(),
            chars@ == value@,
            opt_view(accept_encoding) == Some(value@),
            parts@.len() == split_pieces(value@, ',').len(),
            forall|k: int| 0 <= k < parts@.len() ==> (#[trigger] parts@[k])@ == split_pieces(value@, ',')[k],
            forall|k: int| 0 <= k < i ==> !names_gzip(#[trigger] split_pieces(value@, ',')[k]),
        decreases parts.len() - i,
    {
        if names_gzip_chars(&parts[i]) {
            assert(names_gzip(split_pieces(value@, ',')[i as int]));
            assert(exists|k: int| 0 <= k < split_pieces(value@, ',').len() && names_gzip(
                #[trigger] split_pieces(value@, ',')[k],
            ));
            assert(lists_gzip(value@));
            return true;
        }
        i += 1;
    }
    false
}

/// What gzip decoding gives for a byte string (`flate2::read::GzDecoder` read
/// to the end), or `None` when the bytes are not a valid gzip stream.
pub uninterp spec fn gunzipped(data: Seq<u8>) -> Option<Seq<u8>>;

/// Decodes a gzip stream with `flate2::read::GzDecoder`. Trusted: the result
/// is the decoder's output, named [`gunzipped`]; a read error gives `None`.
#[verifier::external_body]
fn inflate(gzipped: &[u8]) -> (r: Option<Vec<u8>>)
    ensures
        match r {
            Some(v) => gunzipped(gzipped@) == Some(v@),
            None => gunzipped(gzipped@) is None,
        },
{
    let mut out = Vec::new();
    match std::io::Read::read_to_end(&mut flate2::read::GzDecoder::new(gzipped), &mut out) {
        Ok(_) => Some(out),
        Err(_) => None,
    }
}

/// The answer for a vendored library stored gzip-compressed: the stored bytes
/// with `Content-Encoding: gzip` for clients that take gzip (or when the bytes
/// do not decode); the decoded bytes for the rest. `Vary: accept-encoding`
/// either way.
pub open spec fn gzip_outcome(
    if_none_match: Option<Seq<char>>,
    accept_encoding: Option<Seq<char>>,
    gzipped: Seq<u8>,
    content_type: Seq<char>,
    etag: Seq<char>,
) -> (u16, Headers, Seq<u8>) {
    if !gzip_accepted(accept_encoding) && gunzipped(gzipped) is Some {
        let h = header_inserted(finished_headers(body_headers(), content_type), "etag"@, etag);
        (
            200,
            header_inserted(sandbox_frame_headers(h), "vary"@, "accept-encoding"@),
            gunzipped(gzipped).unwrap(),
        )
    } else {
        let (status, h, body) = embedded_outcome(if_none_match, gzipped, content_type, etag);
        let h1 = sandbox_frame_headers(h);
        let h2 = if status == 200 {
            header_inserted(h1, "content-encoding"@, "gzip"@)
        } else {
            h1
        };
        (status, header_inserted(h2, "vary"@, "accept-encoding"@), body)
    }
}

pub fn vendor_gzip_asset(
    if_none_match: Option<&str>,
    accept_encoding: Option<&str>,
    gzipped: &[u8],
    content_type: &str,
    etag: &str,
) -> (out: AssetResponse)
    ensures
        out.headers.wf(),
        (out.status, out.headers.view(), out.body@) == gzip_outcome(
            opt_view(if_none_match),
            opt_view(accept_encoding),
            gzipped@,
            content_type@,
            etag@,
        ),
{
    if !accepts_gzip(accept_encoding) {
        if let Some(plain) = inflate(gzipped) {
            let mut r = finish_asset_response(byte_body(&plain), content_type);
            r.headers.insert("etag", etag);
            allow_sandboxed_frames(&mut r.headers);
            r.headers.insert("vary", "accept-encoding");
            return r;
        }
    }
    let mut r = vendor_asset(if_none_match, gzipped, content_type, etag);
    if r.status == 200 {
        r.headers.insert("content-encoding", "gzip");
    }
    r.headers.insert("vary", "accept-encoding");
    r
}

/// A byte a `Host` header may hold to be copied into a policy.
pub open spec fn host_char(c: char) -> bool {
    is_ascii_alnum_char(c) || c == '.' || c == '-' || c == ':' || c == '[' || c == ']'
}

/// The origin of the request as its `Host` and `X-Forwarded-Proto` give it:
/// only a host of 1 to 260 whitelisted characters is trusted; the scheme is
/// `https` when the first forwarded protocol says so, else `http`.
pub open spec fn origin_of(host: Option<Seq<char>>, forwarded_proto: Option<Seq<char>>) -> Option<Seq<char>> {
    match host {
        None => None,
        Some(h) => if 0 < h.len() <= 260 && forall|i: int| 0 <= i < h.len() ==> host_char(#[trigger] h[i]) {
            let scheme = match forwarded_proto {
                Some(p) => if trim_seq(before_first(p, seq![','])) == "https"@ {
                    "https"@
                } else {
                    "http"@
                },
                None => "http"@,
            };
            Some(scheme + "://"@ + h)
        } else {
            None
        },
    }
}

pub fn request_origin(host: Option<&str>, forwarded_proto: Option<&str>) -> (r: Option<String>)
    ensures
        match r {
            Some(o) => origin_of(opt_view(host), opt_view(forwarded_proto)) == Some(o@),
            None => origin_of(opt_view(host), opt_view(forwarded_proto)) is None,
        },
{
    let hs = match host {
        Some(h) => h,
        None => return None,
    };
    let h = chars_of(hs);
    if h.len() == 0 || h.len() > 260 {
        return None;
    }
    let mut i: usize = 0;
    while i < h.len()
        invariant
            i <= h.len(),
            0 < h.len() <= 260,
            h@ == hs@,
            opt_view(host) == Some(hs@),
            forall|k: int| 0 <= k < i ==> host_char(#[trigger] h@[k]),
        decreases h.len() - i,
    {
        let c = h[i];
        if !(is_ascii_alnum(c) || c == '.' || c == '-' || c == ':' || c == '[' || c == ']') {
            assert(!host_char(h@[i as int]));
            return None;
        }
        i += 1;
    }
    let https = match forwarded_proto {
        Some(p) => {
            let pv = chars_of(p);
            let comma = vec![','];
            assert(comma@ =~= seq![',']);
            let first = trim_chars(&before_first_chars(&pv, &comma));
            crate::text::eq_str(&first, "https")
        },
        None => false,
    };
    let mut out: Vec<char> = Vec::new();
    if https {
        extend_str(&mut out, "https");
    } else {
        extend_str(&mut out, "http");
    }
    extend_str(&mut out, "://");
    crate::text::extend_chars(&mut out, &h);
    Some(string_of(&out))
}

/// The policy of an artifact page that may run scripts, with the daemon's own
/// origin as the one source it may load from.
pub open spec fn html_csp(origin: Seq<char>) -> Seq<char> {
    "sandbox allow-scripts allow-modals; default-src 'none'; script-src 'unsafe-inline' 'unsafe-eval' "@
        + origin + "; style-src 'unsafe-inline' "@ + origin + "; font-src data: "@ + origin
        + "; img-src data: blob: "@ + origin + "; media-src data: blob: "@ + origin
        + "; connect-src 'none'; form-action 'none'; frame-src 'none'; object-src 'none'; base-uri 'none'"@
}

/// The policy of active artifact content: svg gets the strict policy, html the
/// script policy with the request's origin (the strict one when the origin is
/// not trusted), other kinds none.
pub open spec fn artifact_policy(kind: Seq<char>, origin: Option<Seq<char>>) -> Option<Seq<char>> {
    if kind == "svg"@ {
        Some(STRICT_CSP@)
    } else if kind == "html"@ {
        match origin {
            Some(o) => Some(html_csp(o)),
            None => Some(STRICT_CSP@),
        }
    } else {
        None
    }
}

fn html_csp_string(origin: &str) -> (out: String)
    ensures
        out@ == html_csp(origin@),
{
    let mut v: Vec<char> = Vec::new();
    extend_str(&mut v, "sandbox allow-scripts allow-modals; default-src 'none'; script-src 'unsafe-inline' 'unsafe-eval' ");
    extend_str(&mut v, origin);
    extend_str(&mut v, "; style-src 'unsafe-inline' ");
    extend_str(&mut v, origin);
    extend_str(&mut v, "; font-src data: ");
    extend_str(&mut v, origin);
    extend_str(&mut v, "; img-src data: blob: ");
    extend_str(&mut v, origin);
    extend_str(&mut v, "; media-src data: blob: ");
    extend_str(&mut v, origin);
    extend_str(&mut v, "; connect-src 'none'; form-action 'none'; frame-src 'none'; object-src 'none'; base-uri 'none'");
    string_of(&v)
}

pub fn artifact_csp(kind: &str, host: Option<&str>, forwarded_proto: Option<&str>) -> (r: Option<String>)
    ensures
        match r {
            Some(p) => artifact_policy(kind@, origin_of(opt_view(host), opt_view(forwarded_proto)))
                == Some(p@),
            None => artifact_policy(kind@, origin_of(opt_view(host), opt_view(forwarded_proto))) is None,
        },
{
    if str_eq(kind, "svg") {
        Some(STRICT_CSP.to_owned())
    } else if str_eq(kind, "html") {
        match request_origin(host, forwarded_proto) {
            Some(origin) => Some(html_csp_string(origin.as_str())),
            None => Some(STRICT_CSP.to_owned()),
        }
    } else {
        None
    }
}

/// The policy of the fence sandbox host page: the html artifact policy, with
/// the page's own origin as the one that may frame it.
pub open spec fn fence_frame_policy(origin: Option<Seq<char>>) -> Seq<char> {
    match origin {
        Some(o) => html_csp(o) + "; frame-ancestors "@ + o,
        None => STRICT_CSP@,
    }
}

/// The answer for the fence sandbox host page: the page as HTML, uncached,
/// with its own policy.
pub fn fence_frame_asset(html: &str, host: Option<&str>, forwarded_proto: Option<&str>) -> (out: AssetResponse)
    ensures
        out.status == 200,
        out.body@ == html.spec_bytes(),
        out.headers.wf(),
        out.headers.view() == ({
            let h0 = seq![("content-type"@, PLAIN_TEXT@)];
            let h1 = header_inserted(h0, "content-type"@, "text/html; charset=utf-8"@);
            let h2 = header_inserted(h1, "cache-control"@, "no-cache"@);
            let h3 = header_inserted(h2, "x-content-type-options"@, "nosniff"@);
            let h4 = header_inserted(h3, "referrer-policy"@, "no-referrer"@);
            header_inserted(
                h4,
                "content-security-policy"@,
                fence_frame_policy(origin_of(opt_view(host), opt_view(forwarded_proto))),
            )
        }),
{
    let policy = match request_origin(host, forwarded_proto) {
        Some(origin) => {
            let mut v = chars_of(html_csp_string(origin.as_str()).as_str());
            extend_str(&mut v, "; frame-ancestors ");
            extend_str(&mut v, origin.as_str());
            string_of(&v)
        },
        None => STRICT_CSP.to_owned(),
    };
    let mut headers = HeaderList::new();
    headers.insert("content-type", PLAIN_TEXT);
    headers.insert("content-type", "text/html; charset=utf-8");
    headers.insert("cache-control", "no-cache");
    headers.insert("x-content-type-options", "nosniff");
    headers.insert("referrer-policy", "no-referrer");
    headers.insert("content-security-policy", policy.as_str());
    AssetResponse { status: 200, headers, body: copy_bytes(html.as_bytes()) }
}

} // verus!
