//! Request-level web rules: cross-site request refusal, redaction of
//! tokens in logged URLs, the session cookie, byte ranges, content types,
//! and the small text transformations responses rely on.

use vstd::prelude::*;
use vstd::utf8::encode_utf8;
use crate::lexical::{
    decode_utf8_lossy, eq_ignore_ascii_case, eq_ignore_ascii_case_exec, is_text_ignore_case,
    last_index_of, last_index_of_exec, next_word, parse_u64, skip_ws_from, spec_parse_u64,
    utf8_lossy, word_end_from, push_digits, nat_digits,
};
use crate::text::{
    append_chars, chars_of, is_text, lowercase_of, slice_chars, split_chars, split_on, string_of,
    to_lowercase, trim_ws, trim_ws_exec, is_control, spec_is_control,
};

verus! {

/// The cookie that carries a browser session.
pub const SESSION_COOKIE: &'static str = "clouddesk_session";

/// Longest `User-Agent` kept for audit records, in characters.
pub const MAX_USER_AGENT_CHARS: usize = 512;

/// Longest runtime log text returned, in bytes.
pub const MAX_RUNTIME_LOG_BYTES: usize = 65536;

/// What `http::Uri` parsing reads as the authority of `s`, when `s` parses
/// as a URI that has one.
pub uninterp spec fn uri_authority(s: Seq<char>) -> Option<Seq<char>>;

/// The authority (`host[:port]`) of a URI.
///
/// Trusted: parses with `str::parse::<http::Uri>` and formats
/// `Uri::authority`; the contract names the result, a function of the text
/// alone.
#[verifier::external_body]
fn parse_uri_authority(s: &str) -> (r: Option<String>)
    ensures
        match r {
            Some(a) => uri_authority(s@) == Some(a@),
            None => uri_authority(s@) is None,
        },
{
    s.parse::<http::Uri>().ok().and_then(|uri| uri.authority().map(|a| a.to_string()))
}

/// An `Origin` matches the request when it parses with an authority equal,
/// ignoring ASCII case, to the `Host` header.
pub open spec fn spec_origin_matches_host(origin: Seq<char>, host: Option<Seq<char>>) -> bool {
    match host {
        None => false,
        Some(h) => match uri_authority(origin) {
            Some(a) => eq_ignore_ascii_case(a, h),
            None => false,
        },
    }
}

/// Whether a request's `Origin` names the host it was sent to.
pub fn origin_matches_host(origin: &str, host: Option<&str>) -> (r: bool)
    ensures
        r == spec_origin_matches_host(
            origin@,
            match host {
                Some(h) => Some(h@),
                None => None,
            },
        ),
{
    let h = match host {
        None => {
            return false;
        },
        Some(h) => h,
    };
    match parse_uri_authority(origin) {
        Some(a) => eq_ignore_ascii_case_exec(
            chars_of(a.as_str()).as_slice(),
            chars_of(h).as_slice(),
        ),
        None => false,
    }
}

pub open spec fn opt_view(s: Option<&str>) -> Option<Seq<char>> {
    match s {
        Some(v) => Some(v@),
        None => None,
    }
}

/// The cross-site rule: a state-changing request (any method but `GET`,
/// `HEAD` and `OPTIONS`, or any WebSocket upgrade) is refused when the
/// browser marks it cross-site (`Sec-Fetch-Site` is `cross-site` or
/// `none`) or its `Origin` does not name the host.
pub open spec fn spec_cross_site_rejected(
    method: Seq<char>,
    upgrade: Option<Seq<char>>,
    fetch_site: Option<Seq<char>>,
    origin: Option<Seq<char>>,
    host: Option<Seq<char>>,
) -> bool {
    let websocket = match upgrade {
        Some(u) => eq_ignore_ascii_case(u, "websocket"@),
        None => false,
    };
    let unsafe_method = websocket || !(method == "GET"@ || method == "HEAD"@ || method
        == "OPTIONS"@);
    let cross_site = match fetch_site {
        Some(s) => s == "cross-site"@ || s == "none"@,
        None => false,
    };
    let origin_mismatch = match origin {
        Some(o) => !spec_origin_matches_host(o, host),
        None => false,
    };
    unsafe_method && (cross_site || origin_mismatch)
}

/// Decides whether a request is refused as cross-site (`403`).
pub fn cross_site_rejected(
    method: &str,
    upgrade: Option<&str>,
    fetch_site: Option<&str>,
    origin: Option<&str>,
    host: Option<&str>,
) -> (r: bool)
    ensures
        r == spec_cross_site_rejected(
            method@,
            opt_view(upgrade),
            opt_view(fetch_site),
            opt_view(origin),
            opt_view(host),
        ),
{
    let websocket = match upgrade {
        Some(u) => is_text_ignore_case(chars_of(u).as_slice(), "websocket"),
        None => false,
    };
    let m = chars_of(method);
    let safe = is_text(m.as_slice(), "GET") || is_text(m.as_slice(), "HEAD") || is_text(
        m.as_slice(),
        "OPTIONS",
    );
    let unsafe_method = websocket || !safe;
    let cross_site = match fetch_site {
        Some(s) => {
            let v = chars_of(s);
            is_text(v.as_slice(), "cross-site") || is_text(v.as_slice(), "none")
        },
        None => false,
    };
    let origin_mismatch = match origin {
        Some(o) => !origin_matches_host(o, host),
        None => false,
    };
    unsafe_method && (cross_site || origin_mismatch)
}

/// A safe-method request that is not a WebSocket upgrade is never refused.
pub proof fn lemma_safe_methods_pass(
    method: Seq<char>,
    fetch_site: Option<Seq<char>>,
    origin: Option<Seq<char>>,
    host: Option<Seq<char>>,
)
    requires
        method == "GET"@ || method == "HEAD"@ || method == "OPTIONS"@,
    ensures
        !spec_cross_site_rejected(method, None, fetch_site, origin, host),
{
}

} // verus!

verus! {

/// The key of a `key=value` query pair: the text before its first `=`.
pub open spec fn pair_key(pair: Seq<char>) -> Seq<char> {
    split_on(pair, '=')[0]
}

/// A query pair as logged: a token's value is replaced by `***`.
pub open spec fn redact_pair(pair: Seq<char>) -> Seq<char> {
    let key = pair_key(pair);
    if eq_ignore_ascii_case(key, "access_token"@) || eq_ignore_ascii_case(key, "token"@) {
        key + "=***"@
    } else {
        pair
    }
}

/// `pieces` redacted and joined with `&`.
pub open spec fn redacted_join(pieces: Seq<Seq<char>>) -> Seq<char>
    decreases pieces.len(),
{
    if pieces.len() == 0 {
        Seq::empty()
    } else if pieces.len() == 1 {
        redact_pair(pieces[0])
    } else {
        redacted_join(pieces.drop_last()) + seq!['&'] + redact_pair(pieces.last())
    }
}

/// A request URI as logged: the path, then the query with every
/// `access_token` or `token` value (key compared without regard to ASCII
/// case) replaced by `***`.
pub open spec fn spec_redact_token_query(path: Seq<char>, query: Option<Seq<char>>) -> Seq<char> {
    match query {
        None => path,
        Some(q) => path + seq!['?'] + redacted_join(split_on(q, '&')),
    }
}

fn redact_pair_exec(pair: &Vec<char>) -> (r: Vec<char>)
    ensures
        r@ == redact_pair(pair@),
{
    let parts = split_chars(pair.as_slice(), '=');
    proof {
        crate::text::lemma_split_on_nonempty(pair@, '=');
    }
    let key = &parts[0];
    if is_text_ignore_case(key.as_slice(), "access_token") || is_text_ignore_case(
        key.as_slice(),
        "token",
    ) {
        let mut out = slice_chars(key.as_slice(), 0, key.len());
        let suffix = chars_of("=***");
        append_chars(&mut out, suffix.as_slice());
        out
    } else {
        slice_chars(pair.as_slice(), 0, pair.len())
    }
}

/// Formats a request URI for logs without its access tokens.
pub fn redact_token_query(path: &str, query: Option<&str>) -> (r: String)
    ensures
        r@ == spec_redact_token_query(path@, opt_view(query)),
{
    let q = match query {
        None => {
            return string_of(chars_of(path).as_slice());
        },
        Some(q) => q,
    };
    let pieces = split_chars(chars_of(q).as_slice(), '&');
    let ghost all = split_on(q@, '&');
    proof {
        crate::text::lemma_split_on_nonempty(q@, '&');
    }
    let mut out = chars_of(path);
    out.push('?');
    let ghost head = out@;
    let mut i: usize = 0;
    proof {
        assert(all.take(0) =~= Seq::<Seq<char>>::empty());
        assert(out@ =~= head + redacted_join(all.take(0)));
    }
    while i < pieces.len()
        invariant
            i <= pieces@.len(),
            pieces@.len() == all.len(),
            all == split_on(q@, '&'),
            forall|k: int| 0 <= k < pieces@.len() ==> #[trigger] pieces@[k]@ == all[k],
            out@ == head + redacted_join(all.take(i as int)),
        decreases pieces@.len() - i,
    {
        if i > 0 {
            out.push('&');
        }
        let red = redact_pair_exec(&pieces[i]);
        append_chars(&mut out, red.as_slice());
        proof {
            assert(all.take(i + 1).drop_last() =~= all.take(i as int));
            assert(all.take(i + 1).last() == all[i as int]);
            if i == 0 {
                assert(all.take(1) =~= seq![all[0]]);
            }
            assert(out@ =~= head + redacted_join(all.take(i + 1)));
        }
        i = i + 1;
    }
    proof {
        assert(all.take(all.len() as int) =~= all);
    }
    string_of(out.as_slice())
}

} // verus!

verus! {

/// The value of the `clouddesk_session` cookie in a `Cookie` header: the
/// first `name=value` piece (split at `;`, trimmed, split at its first
/// `=`) named exactly so; `None` when there is none or its value is empty.
pub open spec fn cookie_from(pieces: Seq<Seq<char>>, i: int) -> Option<Seq<char>>
    decreases pieces.len() - i,
{
    if i < 0 || i >= pieces.len() {
        None
    } else {
        let piece = trim_ws(pieces[i]);
        let parts = split_on(piece, '=');
        if parts.len() >= 2 && parts[0] == "clouddesk_session"@ {
            let value = piece.skip(parts[0].len() as int + 1);
            if value.len() == 0 {
                None
            } else {
                Some(value)
            }
        } else {
            cookie_from(pieces, i + 1)
        }
    }
}

pub open spec fn spec_session_token(cookie_header: Option<Seq<char>>) -> Option<Seq<char>> {
    match cookie_header {
        None => None,
        Some(c) => cookie_from(split_on(c, ';'), 0),
    }
}

/// Extracts the session token from the `Cookie` header (`None` answers
/// `401`).
pub fn session_token(cookie_header: Option<&str>) -> (r: Option<String>)
    ensures
        match r {
            Some(t) => spec_session_token(opt_view(cookie_header)) == Some(t@),
            None => spec_session_token(opt_view(cookie_header)) is None,
        },
{
    let c = match cookie_header {
        None => {
            return None;
        },
        Some(c) => c,
    };
    let pieces = split_chars(chars_of(c).as_slice(), ';');
    let ghost all = split_on(c@, ';');
    let mut i: usize = 0;
    while i < pieces.len()
        invariant
            i <= pieces@.len(),
            pieces@.len() == all.len(),
            all == split_on(c@, ';'),
            opt_view(cookie_header) == Some(c@),
            forall|k: int| 0 <= k < pieces@.len() ==> #[trigger] pieces@[k]@ == all[k],
            cookie_from(all, 0) == cookie_from(all, i as int),
        decreases pieces@.len() - i,
    {
        let piece = trim_ws_exec(pieces[i].as_slice());
        let parts = split_chars(piece.as_slice(), '=');
        proof {
            assert(pieces@[i as int]@ == all[i as int]);
        }
        if parts.len() >= 2 && is_text(parts[0].as_slice(), "clouddesk_session") {
            let name_len = parts[0].len();
            let plen = piece.len();
            proof {
                crate::text::lemma_split_on_first(piece@, '=');
                assert(parts@[0]@ == split_on(piece@, '=')[0]);
                assert(name_len < plen);
            }
            let value = slice_chars(piece.as_slice(), name_len + 1, plen);
            proof {
                assert(value@ =~= piece@.skip(name_len + 1));
                assert(piece@ == trim_ws(all[i as int]));
                assert(parts@[0]@ == "clouddesk_session"@);
                assert(split_on(piece@, '=').len() >= 2);
            }
            if value.len() == 0 {
                return None;
            }
            return Some(string_of(value.as_slice()));
        }
        i = i + 1;
    }
    None
}

/// The `User-Agent` kept for audit: at most [`MAX_USER_AGENT_CHARS`]
/// characters, `unknown` when absent.
pub fn user_agent(header: Option<&str>) -> (r: String)
    ensures
        r@ == (match header {
            Some(h) => if h@.len() <= 512 {
                h@
            } else {
                h@.take(512)
            },
            None => "unknown"@,
        }),
{
    let v = match header {
        Some(h) => chars_of(h),
        None => {
            proof {
                reveal_strlit("unknown");
            }
            chars_of("unknown")
        },
    };
    if v.len() <= MAX_USER_AGENT_CHARS {
        string_of(v.as_slice())
    } else {
        let t = slice_chars(v.as_slice(), 0, MAX_USER_AGENT_CHARS);
        proof {
            assert(t@ =~= v@.take(512));
        }
        string_of(t.as_slice())
    }
}

} // verus!

verus! {

/// The text after the first `-` of a range spec, when there is one.
pub open spec fn after_dash(spec: Seq<char>) -> Seq<char> {
    spec.skip(split_on(spec, '-')[0].len() as int + 1)
}

/// A single byte-range spec (`start-end`, `start-` or `-suffix`) against a
/// body of `total` bytes: `None` when it is not a range at all (serve the
/// whole body), `Some(Err)` when it cannot be satisfied (`416`), else the
/// inclusive range clamped to the body.
pub open spec fn spec_parse_single_range(spec: Seq<char>, total: u64) -> Option<
    Result<(u64, u64), ()>,
> {
    let parts = split_on(spec, '-');
    if parts.len() < 2 {
        None
    } else {
        let start_s = parts[0];
        let end_s = after_dash(spec);
        if start_s.len() == 0 {
            match spec_parse_u64(end_s) {
                None => None,
                Some(n) => if n == 0 || total == 0 {
                    Some(Err(()))
                } else {
                    Some(
                        Ok(
                            (
                                if total >= n {
                                    (total - n) as u64
                                } else {
                                    0u64
                                },
                                (total - 1) as u64,
                            ),
                        ),
                    )
                },
            }
        } else {
            match spec_parse_u64(start_s) {
                None => None,
                Some(start) => {
                    let end: Option<Option<u64>> = if end_s.len() == 0 {
                        Some(None)
                    } else {
                        match spec_parse_u64(end_s) {
                            Some(e) => Some(Some(e)),
                            None => None,
                        }
                    };
                    match end {
                        None => None,
                        Some(end) => if start >= total {
                            Some(Err(()))
                        } else {
                            let last = (total - 1) as u64;
                            let e = match end {
                                Some(e) => if e < last {
                                    e
                                } else {
                                    last
                                },
                                None => last,
                            };
                            if start > e {
                                Some(Err(()))
                            } else {
                                Some(Ok((start, e)))
                            }
                        },
                    }
                },
            }
        }
    }
}

/// Parses one byte-range spec against a body of `total_len` bytes.
pub fn parse_single_range(spec: &str, total_len: u64) -> (r: Option<Result<(u64, u64), ()>>)
    ensures
        r == spec_parse_single_range(spec@, total_len),
{
    let s = chars_of(spec);
    let parts = split_chars(s.as_slice(), '-');
    proof {
        crate::text::lemma_split_on_nonempty(s@, '-');
        crate::text::lemma_split_on_first(s@, '-');
    }
    if parts.len() < 2 {
        return None;
    }
    let start_s = &parts[0];
    let n = s.len();
    let end_s = slice_chars(s.as_slice(), start_s.len() + 1, n);
    proof {
        assert(end_s@ =~= after_dash(spec@));
    }
    if start_s.len() == 0 {
        let suffix = match parse_u64(end_s.as_slice()) {
            None => {
                return None;
            },
            Some(v) => v,
        };
        if suffix == 0 || total_len == 0 {
            return Some(Err(()));
        }
        let start = if total_len >= suffix {
            total_len - suffix
        } else {
            0
        };
        return Some(Ok((start, total_len - 1)));
    }
    let start = match parse_u64(start_s.as_slice()) {
        None => {
            return None;
        },
        Some(v) => v,
    };
    let end: Option<u64> = if end_s.len() == 0 {
        None
    } else {
        match parse_u64(end_s.as_slice()) {
            None => {
                return None;
            },
            Some(v) => Some(v),
        }
    };
    if start >= total_len {
        return Some(Err(()));
    }
    let last = total_len - 1;
    let e = match end {
        Some(e) => if e < last {
            e
        } else {
            last
        },
        None => last,
    };
    if start > e {
        return Some(Err(()));
    }
    Some(Ok((start, e)))
}

/// A `Range` header: a single spec after `bytes=` with no `,`; anything
/// else is ignored.
pub open spec fn spec_range_request(header: Option<Seq<char>>, total: u64) -> Option<
    Result<(u64, u64), ()>,
> {
    match header {
        None => None,
        Some(h) => if h.len() >= 6 && h.take(6) == "bytes="@ && !h.skip(6).contains(',') {
            spec_parse_single_range(h.skip(6), total)
        } else {
            None
        },
    }
}

/// Decides how a `Range` request header is answered.
pub fn range_request(header: Option<&str>, total_len: u64) -> (r: Option<Result<(u64, u64), ()>>)
    ensures
        r == spec_range_request(opt_view(header), total_len),
{
    let h = match header {
        None => {
            return None;
        },
        Some(h) => h,
    };
    let v = chars_of(h);
    if v.len() < 6 {
        return None;
    }
    let head = slice_chars(v.as_slice(), 0, 6);
    proof {
        assert(head@ =~= v@.take(6));
    }
    if !is_text(head.as_slice(), "bytes=") {
        return None;
    }
    let n = v.len();
    let rest = slice_chars(v.as_slice(), 6, n);
    proof {
        assert(rest@ =~= v@.skip(6));
    }
    if crate::text::contains_char(rest.as_slice(), ',') {
        return None;
    }
    parse_single_range(string_of(rest.as_slice()).as_str(), total_len)
}

/// `bytes {start}-{end}/{total}`.
pub fn content_range(start: u64, end: u64, total_len: u64) -> (r: String)
    ensures
        r@ == "bytes "@ + nat_digits(start as nat) + seq!['-'] + nat_digits(end as nat) + seq!['/']
            + nat_digits(total_len as nat),
{
    let mut out = chars_of("bytes ");
    push_digits(start, &mut out);
    out.push('-');
    push_digits(end, &mut out);
    out.push('/');
    push_digits(total_len, &mut out);
    proof {
        assert(out@ =~= "bytes "@ + nat_digits(start as nat) + seq!['-'] + nat_digits(end as nat)
            + seq!['/'] + nat_digits(total_len as nat));
    }
    string_of(out.as_slice())
}

/// `bytes */{total}`, for an unsatisfiable range.
pub fn unsatisfied_range(total_len: u64) -> (r: String)
    ensures
        r@ == "bytes */"@ + nat_digits(total_len as nat),
{
    let mut out = chars_of("bytes */");
    push_digits(total_len, &mut out);
    string_of(out.as_slice())
}

} // verus!

verus! {

/// The content type served for a file extension (already lower-cased).
pub open spec fn spec_mime(ext: Seq<char>) -> Seq<char> {
    if ext == "png"@ {
        "image/png"@
    } else if ext == "jpg"@ || ext == "jpeg"@ {
        "image/jpeg"@
    } else if ext == "gif"@ {
        "image/gif"@
    } else if ext == "webp"@ {
        "image/webp"@
    } else if ext == "svg"@ {
        "image/svg+xml"@
    } else if ext == "bmp"@ {
        "image/bmp"@
    } else if ext == "ico"@ {
        "image/x-icon"@
    } else if ext == "tiff"@ || ext == "tif"@ {
        "image/tiff"@
    } else if ext == "mp4"@ || ext == "m4v"@ {
        "video/mp4"@
    } else if ext == "webm"@ {
        "video/webm"@
    } else if ext == "mkv"@ {
        "video/x-matroska"@
    } else if ext == "mov"@ {
        "video/quicktime"@
    } else if ext == "mp3"@ {
        "audio/mpeg"@
    } else if ext == "ogg"@ || ext == "oga"@ {
        "audio/ogg"@
    } else if ext == "wav"@ {
        "audio/wav"@
    } else if ext == "flac"@ {
        "audio/flac"@
    } else if ext == "aac"@ {
        "audio/aac"@
    } else if ext == "m4a"@ {
        "audio/mp4"@
    } else if ext == "pdf"@ {
        "application/pdf"@
    } else if ext == "json"@ {
        "application/json"@
    } else if ext == "txt"@ || ext == "log"@ || ext == "md"@ || ext == "toml"@ || ext == "yaml"@
        || ext == "yml"@ || ext == "sh"@ || ext == "rs"@ || ext == "ts"@ || ext == "js"@ || ext
        == "css"@ || ext == "html"@ {
        "text/plain; charset=utf-8"@
    } else {
        "application/octet-stream"@
    }
}

/// The extension of a path: the text after its last `.` (all of it when
/// there is none).
pub open spec fn spec_extension(path: Seq<char>) -> Seq<char> {
    match last_index_of(path, '.') {
        Some(k) => path.skip(k + 1),
        None => path,
    }
}

/// The content type for a path, by its lower-cased extension.
pub fn mime_for_path(path: &str) -> (m: &'static str)
    ensures
        m@ == spec_mime(spec_extension(lowercase_of(path@))),
{
    let lower = to_lowercase(path);
    let l = chars_of(lower.as_str());
    let ext = match last_index_of_exec(l.as_slice(), '.') {
        Some(k) => {
            let n = l.len();
            let e = slice_chars(l.as_slice(), k + 1, n);
            proof {
                assert(e@ =~= l@.skip(k + 1));
            }
            e
        },
        None => l,
    };
    let e = ext.as_slice();
    if is_text(e, "png") {
        "image/png"
    } else if is_text(e, "jpg") || is_text(e, "jpeg") {
        "image/jpeg"
    } else if is_text(e, "gif") {
        "image/gif"
    } else if is_text(e, "webp") {
        "image/webp"
    } else if is_text(e, "svg") {
        "image/svg+xml"
    } else if is_text(e, "bmp") {
        "image/bmp"
    } else if is_text(e, "ico") {
        "image/x-icon"
    } else if is_text(e, "tiff") || is_text(e, "tif") {
        "image/tiff"
    } else if is_text(e, "mp4") || is_text(e, "m4v") {
        "video/mp4"
    } else if is_text(e, "webm") {
        "video/webm"
    } else if is_text(e, "mkv") {
        "video/x-matroska"
    } else if is_text(e, "mov") {
        "video/quicktime"
    } else if is_text(e, "mp3") {
        "audio/mpeg"
    } else if is_text(e, "ogg") || is_text(e, "oga") {
        "audio/ogg"
    } else if is_text(e, "wav") {
        "audio/wav"
    } else if is_text(e, "flac") {
        "audio/flac"
    } else if is_text(e, "aac") {
        "audio/aac"
    } else if is_text(e, "m4a") {
        "audio/mp4"
    } else if is_text(e, "pdf") {
        "application/pdf"
    } else if is_text(e, "json") {
        "application/json"
    } else if is_text(e, "txt") || is_text(e, "log") || is_text(e, "md") || is_text(e, "toml")
        || is_text(e, "yaml") || is_text(e, "yml") || is_text(e, "sh") || is_text(e, "rs")
        || is_text(e, "ts") || is_text(e, "js") || is_text(e, "css") || is_text(e, "html") {
        "text/plain; charset=utf-8"
    } else {
        "application/octet-stream"
    }
}

} // verus!

verus! {

/// The first line among `pieces[j..]` (as `str::lines` yields them) that
/// starts with `key` and whose first word after it parses as a `u64`.
pub open spec fn memory_value_from(pieces: Seq<Seq<char>>, key: Seq<char>, j: int) -> Option<u64>
    decreases pieces.len() - j,
{
    if j < 0 || j >= pieces.len() {
        None
    } else {
        let line = if j + 1 < pieces.len() {
            crate::egress::strip_cr(pieces[j])
        } else {
            pieces[j]
        };
        let found = if line.len() >= key.len() && line.take(key.len() as int) == key {
            let rest = line.skip(key.len() as int);
            let b = skip_ws_from(rest, 0);
            spec_parse_u64(rest.subrange(b, word_end_from(rest, b)))
        } else {
            None
        };
        if found is Some {
            found
        } else {
            memory_value_from(pieces, key, j + 1)
        }
    }
}

/// Reads a value such as `MemTotal:   16384 kB` from `/proc/meminfo` text:
/// the number after `key` on the first line where one parses.
pub fn proc_memory_value(contents: &str, key: &str) -> (r: Option<u64>)
    ensures
        r == memory_value_from(split_on(contents@, '\n'), key@, 0),
{
    let pieces = split_chars(chars_of(contents).as_slice(), '\n');
    let ghost all = split_on(contents@, '\n');
    let k = chars_of(key);
    let mut j: usize = 0;
    while j < pieces.len()
        invariant
            j <= pieces@.len(),
            pieces@.len() == all.len(),
            all == split_on(contents@, '\n'),
            k@ == key@,
            forall|i: int| 0 <= i < pieces@.len() ==> #[trigger] pieces@[i]@ == all[i],
            memory_value_from(all, key@, 0) == memory_value_from(all, key@, j as int),
        decreases pieces@.len() - j,
    {
        let piece = &pieces[j];
        proof {
            assert(piece@ == all[j as int]);
        }
        let line = if j + 1 < pieces.len() && piece.len() > 0 && piece[piece.len() - 1] == '\r' {
            slice_chars(piece.as_slice(), 0, piece.len() - 1)
        } else {
            slice_chars(piece.as_slice(), 0, piece.len())
        };
        proof {
            if j + 1 < pieces@.len() {
                assert(line@ =~= crate::egress::strip_cr(all[j as int]));
            } else {
                assert(line@ =~= all[j as int]);
            }
        }
        if line.len() >= k.len() {
            let head = slice_chars(line.as_slice(), 0, k.len());
            proof {
                assert(head@ =~= line@.take(k@.len() as int));
            }
            if crate::text::chars_equal(head.as_slice(), k.as_slice()) {
                let n = line.len();
                let rest = slice_chars(line.as_slice(), k.len(), n);
                proof {
                    assert(rest@ =~= line@.skip(k@.len() as int));
                }
                let (b, e) = next_word(rest.as_slice(), 0);
                let word = slice_chars(rest.as_slice(), b, e);
                let parsed = parse_u64(word.as_slice());
                if parsed.is_some() {
                    return parsed;
                }
            }
        }
        j = j + 1;
    }
    None
}

} // verus!

verus! {

/// How many bytes `c` takes in UTF-8.
pub open spec fn char_width(c: char) -> nat {
    let u = c as u32;
    if u <= 0x7F {
        1
    } else if u <= 0x7FF {
        2
    } else if u <= 0xFFFF {
        3
    } else {
        4
    }
}

/// A log character as returned: control characters other than newline
/// and tab become U+FFFD.
pub open spec fn log_char(c: char) -> char {
    if c == '\n' || c == '\t' || !spec_is_control(c) {
        c
    } else {
        '\u{FFFD}'
    }
}

/// How many characters of `cs` are kept: the longest prefix whose
/// sanitized form fits in [`MAX_RUNTIME_LOG_BYTES`] bytes.
pub open spec fn kept_count(cs: Seq<char>, i: int, used: int) -> int
    decreases cs.len() - i,
{
    if i < 0 || i >= cs.len() {
        i
    } else if used + char_width(log_char(cs[i])) > MAX_RUNTIME_LOG_BYTES {
        i
    } else {
        kept_count(cs, i + 1, used + char_width(log_char(cs[i])))
    }
}

pub open spec fn spec_sanitize_log_text(raw: Seq<u8>) -> Seq<char> {
    let cs = utf8_lossy(raw);
    cs.take(kept_count(cs, 0, 0)).map_values(|c: char| log_char(c))
}

/// Makes runtime output safe to return: decoded as UTF-8 (invalid bytes
/// replaced), control characters other than newline and tab replaced, and
/// cut so its UTF-8 form stays within [`MAX_RUNTIME_LOG_BYTES`] bytes.
pub fn sanitize_log_text(raw: &[u8]) -> (r: String)
    ensures
        r@ == spec_sanitize_log_text(raw@),
{
    let text = decode_utf8_lossy(raw);
    let cs = chars_of(text.as_str());
    let ghost all = cs@;
    let mut out: Vec<char> = Vec::new();
    let mut used: usize = 0;
    let mut i: usize = 0;
    while i < cs.len()
        invariant
            i <= cs@.len(),
            all == cs@,
            all == utf8_lossy(raw@),
            used <= MAX_RUNTIME_LOG_BYTES,
            out@ == all.take(i as int).map_values(|c: char| log_char(c)),
            kept_count(all, 0, 0) == kept_count(all, i as int, used as int),
        decreases cs@.len() - i,
    {
        let c = cs[i];
        let mapped = if c == '\n' || c == '\t' || !is_control(c) {
            c
        } else {
            '\u{FFFD}'
        };
        let u = mapped as u32;
        let w: usize = if u <= 0x7F {
            1
        } else if u <= 0x7FF {
            2
        } else if u <= 0xFFFF {
            3
        } else {
            4
        };
        if used + w > MAX_RUNTIME_LOG_BYTES {
            proof {
                assert(kept_count(all, i as int, used as int) == i);
                assert(all.take(i as int).map_values(|c: char| log_char(c)) =~= all.take(
                    kept_count(all, 0, 0),
                ).map_values(|c: char| log_char(c)));
            }
            return string_of(out.as_slice());
        }
        out.push(mapped);
        used = used + w;
        proof {
            assert(all.take(i + 1).map_values(|c: char| log_char(c)) =~= all.take(
                i as int,
            ).map_values(|c: char| log_char(c)).push(log_char(all[i as int])));
        }
        i = i + 1;
    }
    proof {
        assert(kept_count(all, i as int, used as int) == i);
    }
    string_of(out.as_slice())
}

} // verus!

verus! {

/// Bytes left as they are in a query value: ASCII letters, digits and
/// `-`, `_`, `.`, `~`.
pub open spec fn is_unreserved(b: u8) -> bool {
    (65 <= b && b <= 90) || (97 <= b && b <= 122) || (48 <= b && b <= 57) || b == 45 || b == 95
        || b == 46 || b == 126
}

/// The upper-case hexadecimal digit for `n < 16`.
pub open spec fn hex_upper(n: int) -> char {
    if n < 10 {
        (48 + n) as char
    } else {
        (55 + n) as char
    }
}

pub open spec fn encode_query_byte(b: u8) -> Seq<char> {
    if is_unreserved(b) {
        seq![b as char]
    } else {
        seq!['%', hex_upper(b as int / 16), hex_upper(b as int % 16)]
    }
}

/// Percent-encoding of a byte string.
pub open spec fn spec_percent_encode(bytes: Seq<u8>) -> Seq<char>
    decreases bytes.len(),
{
    if bytes.len() == 0 {
        Seq::empty()
    } else {
        spec_percent_encode(bytes.drop_last()) + encode_query_byte(bytes.last())
    }
}

fn hex_upper_exec(n: u8) -> (c: char)
    requires
        n < 16,
    ensures
        c == hex_upper(n as int),
{
    if n < 10 {
        (48 + n) as char
    } else {
        (55 + n) as char
    }
}

/// Percent-encodes a query value: every byte of its UTF-8 form outside the
/// unreserved set becomes `%` and two upper-case hexadecimal digits.
pub fn urlencode(value: &str) -> (r: String)
    ensures
        r@ == spec_percent_encode(encode_utf8(value@)),
{
    let bytes = value.as_bytes();
    let mut out: Vec<char> = Vec::new();
    let mut i: usize = 0;
    while i < bytes.len()
        invariant
            i <= bytes@.len(),
            bytes@ == encode_utf8(value@),
            out@ == spec_percent_encode(bytes@.take(i as int)),
        decreases bytes@.len() - i,
    {
        let b = bytes[i];
        proof {
            assert(bytes@.take(i + 1).drop_last() =~= bytes@.take(i as int));
        }
        let unreserved = (65 <= b && b <= 90) || (97 <= b && b <= 122) || (48 <= b && b <= 57) || b
            == 45 || b == 95 || b == 46 || b == 126;
        if unreserved {
            out.push(b as char);
        } else {
            out.push('%');
            out.push(hex_upper_exec(b / 16));
            out.push(hex_upper_exec(b % 16));
        }
        proof {
            assert(out@ =~= spec_percent_encode(bytes@.take(i as int)) + encode_query_byte(b));
        }
        i = i + 1;
    }
    proof {
        assert(bytes@.take(bytes@.len() as int) =~= bytes@);
    }
    string_of(out.as_slice())
}

/// Starting as root is refused.
#[derive(Clone, Copy, Debug, PartialEq, Eq)]
pub struct RootProcessError;

impl RootProcessError {
    /// The refusal's message.
    pub fn message(&self) -> (m: &'static str)
        ensures
            m@ == "cloudeskd refuses to run as root; use the dedicated clouddesk service account"@,
    {
        "cloudeskd refuses to run as root; use the dedicated clouddesk service account"
    }
}

/// Refuses to run with effective user id 0.
pub fn require_unprivileged(effective_uid: u32) -> (r: Result<(), RootProcessError>)
    ensures
        r is Err <==> effective_uid == 0,
{
    if effective_uid == 0 {
        Err(RootProcessError)
    } else {
        Ok(())
    }
}

/// Constant-time equality of two byte strings.
///
/// Trusted: calls `subtle::ConstantTimeEq::ct_eq` on the two slices and
/// converts the `Choice` with `bool::from`; subtle's slice comparison is
/// true exactly when both have the same length and the same bytes.
#[verifier::external_body]
fn ct_eq(a: &[u8], b: &[u8]) -> (r: bool)
    ensures
        r == (a@ == b@),
{
    bool::from(subtle::ConstantTimeEq::ct_eq(a, b))
}

/// The bootstrap secret check: the SHA-256 digests of the trimmed expected
/// and supplied secrets are equal, compared in constant time.
pub fn bootstrap_secret_matches(expected: &str, supplied: &str) -> (r: bool)
    ensures
        r == (crate::wopi::sha256_of(encode_utf8(trim_ws(expected@))) == crate::wopi::sha256_of(
            encode_utf8(trim_ws(supplied@)),
        )),
{
    let e = crate::text::trim_str(expected);
    let s = crate::text::trim_str(supplied);
    let eh = crate::wopi::sha256(e.as_str().as_bytes());
    let sh = crate::wopi::sha256(s.as_str().as_bytes());
    ct_eq(eh.as_slice(), sh.as_slice())
}

} // verus!

verus! {

/// The interface mode a first administrator gets when none is asked for.
pub fn desktop_mode() -> (m: String)
    ensures
        m@ == "desktop"@,
{
    string_of(chars_of("desktop").as_slice())
}

/// The interface modes an administrator can be created with.
pub fn check_ui_mode(ui_mode: &str) -> (r: Result<(), crate::api::ApiError>)
    ensures
        (ui_mode@ == "desktop"@ || ui_mode@ == "dashboard"@) <==> r is Ok,
        r matches Err(e) ==> crate::api::answers(e, 400, "ui_mode must be 'desktop' or 'dashboard'"@),
{
    let v = chars_of(ui_mode);
    if is_text(v.as_slice(), "desktop") || is_text(v.as_slice(), "dashboard") {
        Ok(())
    } else {
        Err(crate::api::ApiError::bad_request("ui_mode must be 'desktop' or 'dashboard'"))
    }
}

/// The Linux account the first administrator asks to be mapped to: the
/// trimmed name, or none when absent or blank.
pub fn bootstrap_linux_username(name: Option<&str>) -> (r: Option<String>)
    ensures
        match name {
            None => r is None,
            Some(n) => if trim_ws(n@).len() == 0 {
                r is None
            } else {
                r matches Some(t) && t@ == trim_ws(n@)
            },
        },
{
    match name {
        None => None,
        Some(n) => {
            let t = trim_ws_exec(chars_of(n).as_slice());
            if t.len() == 0 {
                None
            } else {
                Some(string_of(t.as_slice()))
            }
        },
    }
}

/// The first administrator may not be mapped to the root user or group.
pub fn check_bootstrap_identity(uid: u32, gid: u32) -> (r: Result<(), crate::api::ApiError>)
    ensures
        (uid != 0 && gid != 0) <==> r is Ok,
        r matches Err(e) ==> crate::api::answers(
            e,
            400,
            "the initial administrator cannot map to root"@,
        ),
{
    if uid == 0 || gid == 0 {
        Err(crate::api::ApiError::bad_request("the initial administrator cannot map to root"))
    } else {
        Ok(())
    }
}

} // verus!
