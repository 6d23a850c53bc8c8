//! The Browser egress policy: which resolved destination addresses the
//! browser's forward proxy may dial, and how it reads a client's request
//! line and headers before deciding.

use vstd::prelude::*;
use crate::lexical::{
    decode_utf8_lossy, eq_ignore_ascii_case, is_text_ignore_case, last_index_of,
    last_index_of_exec, next_word, parse_u16, skip_ws_from, spec_parse_u16, utf8_lossy,
    word_end_from,
};
use crate::text::{chars_of, slice_chars, split_chars, split_on, string_of, trim_end_ws, trim_ws, trim_ws_exec};

verus! {

/// The fixed port the browser's proxy setting points at.
pub const BROWSER_EGRESS_PROXY_PORT: u16 = 9819;

/// Longest request line, or header block, read before giving up.
pub const MAX_REQUEST_LINE_BYTES: usize = 8192;

/// A resolved destination address: four octets, or eight 16-bit segments.
#[derive(Clone, Copy, Debug, PartialEq, Eq)]
pub enum IpAddress {
    V4([u8; 4]),
    V6([u16; 8]),
}

/// 127.0.0.0/8.
pub open spec fn v4_is_loopback(a: u8, b: u8, c: u8, d: u8) -> bool {
    a == 127
}

/// 169.254.0.0/16, which holds cloud metadata addresses.
pub open spec fn v4_is_link_local(a: u8, b: u8, c: u8, d: u8) -> bool {
    a == 169 && b == 254
}

/// 10.0.0.0/8, 172.16.0.0/12 and 192.168.0.0/16.
pub open spec fn v4_is_private(a: u8, b: u8, c: u8, d: u8) -> bool {
    a == 10 || (a == 172 && 16 <= b && b <= 31) || (a == 192 && b == 168)
}

/// 0.0.0.0.
pub open spec fn v4_is_unspecified(a: u8, b: u8, c: u8, d: u8) -> bool {
    a == 0 && b == 0 && c == 0 && d == 0
}

/// 255.255.255.255.
pub open spec fn v4_is_broadcast(a: u8, b: u8, c: u8, d: u8) -> bool {
    a == 255 && b == 255 && c == 255 && d == 255
}

/// 192.0.2.0/24, 198.51.100.0/24 and 203.0.113.0/24.
pub open spec fn v4_is_documentation(a: u8, b: u8, c: u8, d: u8) -> bool {
    (a == 192 && b == 0 && c == 2) || (a == 198 && b == 51 && c == 100) || (a == 203 && b == 0
        && c == 113)
}

/// 100.64.0.0/10, shared carrier-grade NAT space.
pub open spec fn v4_is_shared(a: u8, b: u8, c: u8, d: u8) -> bool {
    a == 100 && 64 <= b && b <= 127
}

/// An IPv4 destination the policy denies.
pub open spec fn v4_blocked(a: u8, b: u8, c: u8, d: u8) -> bool {
    ||| v4_is_loopback(a, b, c, d)
    ||| v4_is_link_local(a, b, c, d)
    ||| v4_is_private(a, b, c, d)
    ||| v4_is_unspecified(a, b, c, d)
    ||| v4_is_broadcast(a, b, c, d)
    ||| v4_is_documentation(a, b, c, d)
    ||| v4_is_shared(a, b, c, d)
}

/// `::ffff:a.b.c.d`, an IPv4 address carried in IPv6 form.
pub open spec fn v6_is_v4_mapped(s: Seq<u16>) -> bool {
    s[0] == 0 && s[1] == 0 && s[2] == 0 && s[3] == 0 && s[4] == 0 && s[5] == 0xffff
}

/// An IPv6 destination the policy denies: loopback `::1`, unspecified `::`,
/// unique local `fc00::/7`, link-local `fe80::/10`, and a mapped IPv4
/// address the IPv4 policy denies.
pub open spec fn v6_blocked(s: Seq<u16>) -> bool {
    let leading_zero = s[0] == 0 && s[1] == 0 && s[2] == 0 && s[3] == 0 && s[4] == 0 && s[5]
        == 0 && s[6] == 0;
    ||| leading_zero && s[7] == 1
    ||| leading_zero && s[7] == 0
    ||| 0xfc00 <= s[0] && s[0] <= 0xfdff
    ||| 0xfe80 <= s[0] && s[0] <= 0xfebf
    ||| v6_is_v4_mapped(s) && v4_blocked(
        (s[6] / 256) as u8,
        (s[6] % 256) as u8,
        (s[7] / 256) as u8,
        (s[7] % 256) as u8,
    )
}

/// `ip` is one of the exact IPv4 addresses a test opted in.
pub open spec fn test_allowed(ip: IpAddress, allowlist: Seq<[u8; 4]>) -> bool {
    match ip {
        IpAddress::V4(o) => exists|i: int| 0 <= i < allowlist.len() && #[trigger] allowlist[i]@ == o@,
        IpAddress::V6(_) => false,
    }
}

/// The destination policy: denied unless a test opted the exact address
/// in, and otherwise by the address family's own rules.
pub open spec fn spec_is_blocked_destination(ip: IpAddress, allowlist: Seq<[u8; 4]>) -> bool {
    if test_allowed(ip, allowlist) {
        false
    } else {
        match ip {
            IpAddress::V4(o) => v4_blocked(o@[0], o@[1], o@[2], o@[3]),
            IpAddress::V6(s) => v6_blocked(s@),
        }
    }
}

fn is_blocked_v4(o: [u8; 4]) -> (r: bool)
    ensures
        r == v4_blocked(o@[0], o@[1], o@[2], o@[3]),
{
    let a = o[0];
    let b = o[1];
    let c = o[2];
    let d = o[3];
    a == 127 || (a == 169 && b == 254) || a == 10 || (a == 172 && 16 <= b && b <= 31) || (a == 192
        && b == 168) || (a == 0 && b == 0 && c == 0 && d == 0) || (a == 255 && b == 255 && c
        == 255 && d == 255) || (a == 192 && b == 0 && c == 2) || (a == 198 && b == 51 && c == 100)
        || (a == 203 && b == 0 && c == 113) || (a == 100 && 64 <= b && b <= 127)
}

fn is_blocked_v6(s: [u16; 8]) -> (r: bool)
    ensures
        r == v6_blocked(s@),
{
    let s0 = s[0];
    let leading_zero = s[0] == 0 && s[1] == 0 && s[2] == 0 && s[3] == 0 && s[4] == 0 && s[5] == 0
        && s[6] == 0;
    let loopback = leading_zero && s[7] == 1;
    let unspecified = leading_zero && s[7] == 0;
    let unique_local = (s0 & 0xfe00) == 0xfc00;
    let link_local = (s0 & 0xffc0) == 0xfe80;
    proof {
        assert(((s0 & 0xfe00) == 0xfc00) == (0xfc00 <= s0 && s0 <= 0xfdff)) by (bit_vector);
        assert(((s0 & 0xffc0) == 0xfe80) == (0xfe80 <= s0 && s0 <= 0xfebf)) by (bit_vector);
    }
    let mapped = s[0] == 0 && s[1] == 0 && s[2] == 0 && s[3] == 0 && s[4] == 0 && s[5] == 0xffff;
    let mapped_blocked = if mapped {
        let s6 = s[6];
        let s7 = s[7];
        proof {
            assert((s6 >> 8) == s6 / 256) by (bit_vector);
            assert((s6 & 0xff) == s6 % 256) by (bit_vector);
            assert((s7 >> 8) == s7 / 256) by (bit_vector);
            assert((s7 & 0xff) == s7 % 256) by (bit_vector);
        }
        let octets: [u8; 4] = [(s6 >> 8) as u8, (s6 & 0xff) as u8, (s7 >> 8) as u8, (s7 & 0xff) as u8];
        is_blocked_v4(octets)
    } else {
        false
    };
    loopback || unspecified || unique_local || link_local || mapped_blocked
}

fn is_test_allowed(ip: IpAddress, allowlist: &[[u8; 4]]) -> (r: bool)
    ensures
        r == test_allowed(ip, allowlist@),
{
    match ip {
        IpAddress::V4(o) => {
            let mut i: usize = 0;
            while i < allowlist.len()
                invariant
                    i <= allowlist@.len(),
                    ip == IpAddress::V4(o),
                    forall|j: int| 0 <= j < i ==> #[trigger] allowlist@[j]@ != o@,
                decreases allowlist@.len() - i,
            {
                let e = allowlist[i];
                if e[0] == o[0] && e[1] == o[1] && e[2] == o[2] && e[3] == o[3] {
                    proof {
                        assert(e@ =~= o@);
                        assert(allowlist@[i as int] == e);
                        assert(allowlist@[i as int]@ == o@);
                        assert(test_allowed(ip, allowlist@));
                    }
                    return true;
                }
                proof {
                    if e@ == o@ {
                        assert(e@[0] == o@[0]);
                    }
                }
                i = i + 1;
            }
            false
        },
        IpAddress::V6(_) => false,
    }
}

/// Whether the proxy refuses to dial `ip`: loopback, link-local
/// (metadata), private, unspecified, broadcast, documentation and shared
/// IPv4 space, and the IPv6 equivalents including mapped IPv4 addresses;
/// public addresses are allowed. `allowlist` holds the exact IPv4
/// addresses a test opted in.
pub fn is_blocked_destination(ip: IpAddress, allowlist: &[[u8; 4]]) -> (blocked: bool)
    ensures
        blocked == spec_is_blocked_destination(ip, allowlist@),
{
    if is_test_allowed(ip, allowlist) {
        return false;
    }
    match ip {
        IpAddress::V4(o) => is_blocked_v4(o),
        IpAddress::V6(s) => is_blocked_v6(s),
    }
}

/// Every resolved candidate is allowed, and there is at least one.
pub open spec fn spec_all_safe(addrs: Seq<IpAddress>, allowlist: Seq<[u8; 4]>) -> bool {
    &&& addrs.len() > 0
    &&& forall|i: int|
        0 <= i < addrs.len() ==> !spec_is_blocked_destination(#[trigger] addrs[i], allowlist)
}

/// Whether every address a host name resolved to may be dialled: one
/// denied answer condemns the whole name.
pub fn all_safe(addrs: &[IpAddress], allowlist: &[[u8; 4]]) -> (safe: bool)
    ensures
        safe == spec_all_safe(addrs@, allowlist@),
{
    if addrs.len() == 0 {
        return false;
    }
    let mut i: usize = 0;
    while i < addrs.len()
        invariant
            i <= addrs@.len(),
            forall|j: int|
                0 <= j < i ==> !spec_is_blocked_destination(#[trigger] addrs@[j], allowlist@),
        decreases addrs@.len() - i,
    {
        if is_blocked_destination(addrs[i], allowlist) {
            return false;
        }
        i = i + 1;
    }
    true
}

/// What the proxy does with a resolved destination.
#[derive(Clone, Copy, Debug, PartialEq, Eq)]
pub enum DialDecision {
    /// Answer `403 Forbidden`.
    Forbidden,
    /// Dial this address, the first candidate.
    Dial(IpAddress),
}

/// Refuses a destination unless every candidate is allowed, and otherwise
/// dials the first.
pub fn destination_decision(addrs: &[IpAddress], allowlist: &[[u8; 4]]) -> (d: DialDecision)
    ensures
        d == (if spec_all_safe(addrs@, allowlist@) {
            DialDecision::Dial(addrs@[0])
        } else {
            DialDecision::Forbidden
        }),
{
    if all_safe(addrs, allowlist) {
        DialDecision::Dial(addrs[0])
    } else {
        DialDecision::Forbidden
    }
}

} // verus!

verus! {

/// `\r\n` starts at `i`.
pub open spec fn crlf_at(buf: Seq<u8>, i: int) -> bool {
    0 <= i && i + 2 <= buf.len() && buf[i] == 13 && buf[i + 1] == 10
}

/// `\r\n\r\n`, the end of a header block, starts at `i`.
pub open spec fn blank_line_at(buf: Seq<u8>, i: int) -> bool {
    crlf_at(buf, i) && crlf_at(buf, i + 2)
}

/// The end of the first request line: just past its `\r\n`.
pub fn find_line_end(buf: &[u8]) -> (r: Option<usize>)
    ensures
        match r {
            Some(e) => 2 <= e <= buf@.len() && crlf_at(buf@, e - 2) && forall|j: int|
                0 <= j < e - 2 ==> !#[trigger] crlf_at(buf@, j),
            None => forall|j: int| !#[trigger] crlf_at(buf@, j),
        },
{
    let mut i: usize = 0;
    while buf.len() >= 2 && i <= buf.len() - 2
        invariant
            forall|j: int| 0 <= j < i ==> !#[trigger] crlf_at(buf@, j),
        decreases buf@.len() - i,
    {
        if buf[i] == 13 && buf[i + 1] == 10 {
            return Some(i + 2);
        }
        i = i + 1;
    }
    None
}

/// The end of the header block: just past the first `\r\n\r\n`.
pub fn find_header_end(buf: &[u8]) -> (r: Option<usize>)
    ensures
        match r {
            Some(e) => 4 <= e <= buf@.len() && blank_line_at(buf@, e - 4) && forall|j: int|
                0 <= j < e - 4 ==> !#[trigger] blank_line_at(buf@, j),
            None => forall|j: int| !#[trigger] blank_line_at(buf@, j),
        },
{
    let mut i: usize = 0;
    while buf.len() >= 4 && i <= buf.len() - 4
        invariant
            forall|j: int| 0 <= j < i ==> !#[trigger] blank_line_at(buf@, j),
        decreases buf@.len() - i,
    {
        if buf[i] == 13 && buf[i + 1] == 10 && buf[i + 2] == 13 && buf[i + 3] == 10 {
            return Some(i + 4);
        }
        i = i + 1;
    }
    None
}

/// Where reading a request line or header block stands.
#[derive(Clone, Copy, Debug, PartialEq, Eq)]
pub enum ReadStep {
    /// Complete; the part ends before this offset.
    Complete(usize),
    /// Longer than allowed without an end: refuse.
    TooLong,
    /// Read more.
    NeedMore,
}

/// After each read of a request line: complete at the first `\r\n`, else
/// too long past [`MAX_REQUEST_LINE_BYTES`] (`414`), else read on.
pub fn request_line_step(total: &[u8]) -> (step: ReadStep)
    ensures
        match step {
            ReadStep::Complete(e) => 2 <= e <= total@.len() && crlf_at(total@, e - 2) && forall|
                j: int,
            | 0 <= j < e - 2 ==> !#[trigger] crlf_at(total@, j),
            ReadStep::TooLong => (forall|j: int| !#[trigger] crlf_at(total@, j)) && total@.len()
                > MAX_REQUEST_LINE_BYTES,
            ReadStep::NeedMore => (forall|j: int| !#[trigger] crlf_at(total@, j)) && total@.len()
                <= MAX_REQUEST_LINE_BYTES,
        },
{
    match find_line_end(total) {
        Some(e) => ReadStep::Complete(e),
        None => if total.len() > MAX_REQUEST_LINE_BYTES {
            ReadStep::TooLong
        } else {
            ReadStep::NeedMore
        },
    }
}

/// After each read of a header block: complete at the first blank line,
/// else too large past [`MAX_REQUEST_LINE_BYTES`] (`431`), else read on.
pub fn header_block_step(headers: &[u8]) -> (step: ReadStep)
    ensures
        match step {
            ReadStep::Complete(e) => 4 <= e <= headers@.len() && blank_line_at(headers@, e - 4)
                && forall|j: int| 0 <= j < e - 4 ==> !#[trigger] blank_line_at(headers@, j),
            ReadStep::TooLong => (forall|j: int| !#[trigger] blank_line_at(headers@, j))
                && headers@.len() > MAX_REQUEST_LINE_BYTES,
            ReadStep::NeedMore => (forall|j: int| !#[trigger] blank_line_at(headers@, j))
                && headers@.len() <= MAX_REQUEST_LINE_BYTES,
        },
{
    match find_header_end(headers) {
        Some(e) => ReadStep::Complete(e),
        None => if headers.len() > MAX_REQUEST_LINE_BYTES {
            ReadStep::TooLong
        } else {
            ReadStep::NeedMore
        },
    }
}

} // verus!

verus! {

/// The first white-space separated word of a request line.
pub open spec fn request_method(line: Seq<char>) -> Seq<char> {
    let b = skip_ws_from(line, 0);
    line.subrange(b, word_end_from(line, b))
}

/// The second white-space separated word of a request line.
pub open spec fn request_target(line: Seq<char>) -> Seq<char> {
    let b = skip_ws_from(line, word_end_from(line, skip_ws_from(line, 0)));
    line.subrange(b, word_end_from(line, b))
}

/// A `CONNECT` target `host:port`, split at its last colon, with the port
/// parsed as a `u16` once trailing white space is trimmed.
pub open spec fn spec_connect_target(target: Seq<char>) -> Option<(Seq<char>, u16)> {
    match last_index_of(target, ':') {
        Some(k) => match spec_parse_u16(trim_end_ws(target.skip(k + 1))) {
            Some(port) => Some((target.take(k), port)),
            None => None,
        },
        None => None,
    }
}

/// The methods forwarded as plain HTTP.
pub open spec fn is_plain_method(method: Seq<char>) -> bool {
    ||| eq_ignore_ascii_case(method, "GET"@)
    ||| eq_ignore_ascii_case(method, "HEAD"@)
    ||| eq_ignore_ascii_case(method, "POST"@)
    ||| eq_ignore_ascii_case(method, "PUT"@)
    ||| eq_ignore_ascii_case(method, "OPTIONS"@)
}

/// How the proxy handles a request line.
#[derive(Clone, Debug)]
pub enum ProxyRequest {
    /// Open a tunnel to `host:port`.
    Connect { host: String, port: u16 },
    /// Forward a plain HTTP request; the destination comes from `Host`.
    PlainHttp,
    /// Answer `400 Bad Request`.
    BadRequest,
    /// Answer `405 Method Not Allowed`.
    MethodNotAllowed,
}

/// Decides what a request line asks for: a `CONNECT` tunnel (method
/// compared without regard to ASCII case) to a `host:port` target, a plain
/// `GET`/`HEAD`/`POST`/`PUT`/`OPTIONS` request, or neither.
pub fn route_request(request_line: &str) -> (r: ProxyRequest)
    ensures
        ({
            let method = request_method(request_line@);
            let target = request_target(request_line@);
            let connect = eq_ignore_ascii_case(method, "CONNECT"@);
            match r {
                ProxyRequest::Connect { host, port } => connect && spec_connect_target(target)
                    == Some((host@, port)),
                ProxyRequest::BadRequest => connect && spec_connect_target(target) is None,
                ProxyRequest::PlainHttp => !connect && is_plain_method(method),
                ProxyRequest::MethodNotAllowed => !connect && !is_plain_method(method),
            }
        }),
{
    let line = chars_of(request_line);
    let (mb, me) = next_word(line.as_slice(), 0);
    let (tb, te) = next_word(line.as_slice(), me);
    let method = slice_chars(line.as_slice(), mb, me);
    let target = slice_chars(line.as_slice(), tb, te);
    if is_text_ignore_case(method.as_slice(), "CONNECT") {
        match last_index_of_exec(target.as_slice(), ':') {
            Some(k) => {
                let port_text = slice_chars(target.as_slice(), k + 1, target.len());
                let trimmed = trim_end_chars(port_text.as_slice());
                proof {
                    assert(port_text@ =~= target@.skip(k + 1));
                }
                match parse_u16(trimmed.as_slice()) {
                    Some(port) => {
                        let host = slice_chars(target.as_slice(), 0, k);
                        proof {
                            assert(host@ =~= target@.take(k as int));
                        }
                        ProxyRequest::Connect { host: string_of(host.as_slice()), port }
                    },
                    None => ProxyRequest::BadRequest,
                }
            },
            None => ProxyRequest::BadRequest,
        }
    } else if is_text_ignore_case(method.as_slice(), "GET") || is_text_ignore_case(
        method.as_slice(),
        "HEAD",
    ) || is_text_ignore_case(method.as_slice(), "POST") || is_text_ignore_case(
        method.as_slice(),
        "PUT",
    ) || is_text_ignore_case(method.as_slice(), "OPTIONS") {
        ProxyRequest::PlainHttp
    } else {
        ProxyRequest::MethodNotAllowed
    }
}

/// `str::trim_end` on characters.
fn trim_end_chars(s: &[char]) -> (r: Vec<char>)
    ensures
        r@ == trim_end_ws(s@),
{
    let mut n = s.len();
    proof {
        assert(s@.take(n as int) =~= s@);
    }
    while n > 0 && crate::text::is_whitespace(s[n - 1])
        invariant
            n <= s@.len(),
            trim_end_ws(s@) == trim_end_ws(s@.take(n as int)),
        decreases n,
    {
        proof {
            assert(s@.take(n as int).drop_last() =~= s@.take(n - 1));
        }
        n = n - 1;
    }
    slice_chars(s, 0, n)
}

/// Decodes the request line (the first `line_end` bytes received) and
/// decides what it asks for.
pub fn route_request_bytes(total: &[u8], line_end: usize) -> (r: ProxyRequest)
    requires
        line_end <= total@.len(),
    ensures
        ({
            let line = utf8_lossy(total@.take(line_end as int));
            let method = request_method(line);
            let target = request_target(line);
            let connect = eq_ignore_ascii_case(method, "CONNECT"@);
            match r {
                ProxyRequest::Connect { host, port } => connect && spec_connect_target(target)
                    == Some((host@, port)),
                ProxyRequest::BadRequest => connect && spec_connect_target(target) is None,
                ProxyRequest::PlainHttp => !connect && is_plain_method(method),
                ProxyRequest::MethodNotAllowed => !connect && !is_plain_method(method),
            }
        }),
{
    let head = crate::lexical::bytes_prefix(total, line_end);
    let text = decode_utf8_lossy(head.as_slice());
    route_request(text.as_str())
}

} // verus!

verus! {

/// A line without one trailing carriage return.
pub open spec fn strip_cr(line: Seq<char>) -> Seq<char> {
    if line.len() > 0 && line.last() == '\r' {
        line.drop_last()
    } else {
        line
    }
}

/// The line starts with `Host:` or `host:`.
pub open spec fn has_host_prefix(line: Seq<char>) -> bool {
    line.len() >= 5 && (line.take(5) == seq!['H', 'o', 's', 't', ':'] || line.take(5) == seq![
        'h',
        'o',
        's',
        't',
        ':',
    ])
}

/// The trimmed value of the first `Host` line among `pieces[j..]`, the
/// pieces of a text between `\n`s; each piece but the last is a line
/// without its `\r\n` ending (as `str::lines` yields them).
pub open spec fn host_in_pieces(pieces: Seq<Seq<char>>, j: int) -> Option<Seq<char>>
    decreases pieces.len() - j,
{
    if j < 0 || j >= pieces.len() {
        None
    } else {
        let line = if j + 1 < pieces.len() {
            strip_cr(pieces[j])
        } else {
            pieces[j]
        };
        if has_host_prefix(line) {
            Some(trim_ws(line.skip(5)))
        } else {
            host_in_pieces(pieces, j + 1)
        }
    }
}

/// The value of the first `Host:` (or `host:`) header line of a header
/// block, trimmed.
pub open spec fn spec_host_header(text: Seq<char>) -> Option<Seq<char>> {
    host_in_pieces(split_on(text, '\n'), 0)
}

/// Where a plain HTTP request goes: the `Host` value split at its last
/// colon, the port defaulting to 80 when absent or not a `u16`.
pub open spec fn spec_plain_target(text: Seq<char>) -> Option<(Seq<char>, u16)> {
    match spec_host_header(text) {
        None => None,
        Some(h) => match last_index_of(h, ':') {
            Some(k) => Some(
                (
                    h.take(k),
                    match spec_parse_u16(h.skip(k + 1)) {
                        Some(p) => p,
                        None => 80u16,
                    },
                ),
            ),
            None => Some((h, 80u16)),
        },
    }
}

fn strip_cr_exec(line: &Vec<char>) -> (r: Vec<char>)
    ensures
        r@ == strip_cr(line@),
{
    if line.len() > 0 && line[line.len() - 1] == '\r' {
        slice_chars(line.as_slice(), 0, line.len() - 1)
    } else {
        slice_chars(line.as_slice(), 0, line.len())
    }
}

fn has_host_prefix_exec(line: &Vec<char>) -> (r: bool)
    ensures
        r == has_host_prefix(line@),
{
    if line.len() < 5 {
        return false;
    }
    let first = line[0] == 'H' || line[0] == 'h';
    let r = first && line[1] == 'o' && line[2] == 's' && line[3] == 't' && line[4] == ':';
    proof {
        if r {
            if line@[0] == 'H' {
                assert(line@.take(5) =~= seq!['H', 'o', 's', 't', ':']);
            } else {
                assert(line@.take(5) =~= seq!['h', 'o', 's', 't', ':']);
            }
        } else {
            assert(line@.take(5)[0] == line@[0]);
            assert(line@.take(5)[1] == line@[1]);
            assert(line@.take(5)[2] == line@[2]);
            assert(line@.take(5)[3] == line@[3]);
            assert(line@.take(5)[4] == line@[4]);
        }
    }
    r
}

/// Finds where a plain HTTP request should go from its decoded header
/// block: `None` when there is no `Host` line (`400 Bad Request`).
pub fn plain_http_target(header_text: &str) -> (r: Option<(String, u16)>)
    ensures
        match r {
            Some((host, port)) => spec_plain_target(header_text@) == Some((host@, port)),
            None => spec_plain_target(header_text@) is None,
        },
{
    let text = chars_of(header_text);
    let pieces = split_chars(text.as_slice(), '\n');
    let ghost all = split_on(header_text@, '\n');
    let mut j: usize = 0;
    let mut found: Option<Vec<char>> = None;
    while j < pieces.len() && found.is_none()
        invariant
            j <= pieces@.len(),
            pieces@.len() == all.len(),
            forall|i: int| 0 <= i < pieces@.len() ==> #[trigger] pieces@[i]@ == all[i],
            all == split_on(header_text@, '\n'),
            found is None ==> host_in_pieces(all, 0) == host_in_pieces(all, j as int),
            found matches Some(h) ==> host_in_pieces(all, 0) == Some(h@),
        decreases pieces@.len() - j,
    {
        let line = if j + 1 < pieces.len() {
            strip_cr_exec(&pieces[j])
        } else {
            slice_chars(pieces[j].as_slice(), 0, pieces[j].len())
        };
        proof {
            assert(pieces@[j as int]@ == all[j as int]);
            if j + 1 >= pieces@.len() {
                assert(line@ =~= all[j as int]);
            }
        }
        if has_host_prefix_exec(&line) {
            let value = slice_chars(line.as_slice(), 5, line.len());
            proof {
                assert(value@ =~= line@.skip(5));
            }
            found = Some(trim_ws_exec(value.as_slice()));
        }
        j = j + 1;
    }
    match found {
        None => None,
        Some(h) => match last_index_of_exec(h.as_slice(), ':') {
            Some(k) => {
                assert(k < h.len());
                let host = slice_chars(h.as_slice(), 0, k);
                let port_text = slice_chars(h.as_slice(), k + 1, h.len());
                proof {
                    assert(host@ =~= h@.take(k as int));
                    assert(port_text@ =~= h@.skip(k + 1));
                }
                let port = match parse_u16(port_text.as_slice()) {
                    Some(p) => p,
                    None => 80,
                };
                Some((string_of(host.as_slice()), port))
            },
            None => Some((string_of(h.as_slice()), 80)),
        },
    }
}

/// Decodes the header block (the first `header_end` bytes) and finds
/// where a plain HTTP request should go.
pub fn plain_http_target_bytes(headers: &[u8], header_end: usize) -> (r: Option<(String, u16)>)
    requires
        header_end <= headers@.len(),
    ensures
        match r {
            Some((host, port)) => spec_plain_target(utf8_lossy(headers@.take(header_end as int)))
                == Some((host@, port)),
            None => spec_plain_target(utf8_lossy(headers@.take(header_end as int))) is None,
        },
{
    let head = crate::lexical::bytes_prefix(headers, header_end);
    let text = decode_utf8_lossy(head.as_slice());
    plain_http_target(text.as_str())
}

} // verus!

verus! {

/// An IPv4 address written as `::ffff:a.b.c.d` is judged exactly as the
/// IPv4 address itself, so a denied address cannot be smuggled in IPv6
/// form.
pub proof fn lemma_mapped_v4_judged_as_v4(a: u8, b: u8, c: u8, d: u8)
    ensures
        v6_blocked(seq![0u16, 0u16, 0u16, 0u16, 0u16, 0xffffu16, (a * 256 + b) as u16, (c * 256 + d) as u16])
            == v4_blocked(a, b, c, d),
{
    let s = seq![0u16, 0u16, 0u16, 0u16, 0u16, 0xffffu16, (a * 256 + b) as u16, (c * 256 + d) as u16];
    assert(s[6] == a * 256 + b);
    assert(s[7] == c * 256 + d);
    assert(s[6] / 256 == a && s[6] % 256 == b);
    assert(s[7] / 256 == c && s[7] % 256 == d);
}

/// A destination is dialled only when every address its name resolved to
/// is allowed, and then it is the first of them.
pub proof fn lemma_dial_needs_every_answer_allowed(addrs: Seq<IpAddress>, allowlist: Seq<[u8; 4]>, i: int)
    requires
        0 <= i < addrs.len(),
        spec_is_blocked_destination(addrs[i], allowlist),
    ensures
        !spec_all_safe(addrs, allowlist),
{
}

} // verus!
