use clouddesk::egress::{
    all_safe, destination_decision, find_header_end, header_block_step, is_blocked_destination,
    plain_http_target, plain_http_target_bytes, request_line_step, route_request,
    route_request_bytes, DialDecision, IpAddress, ProxyRequest, ReadStep,
};

fn blocked(ip: IpAddress) -> bool {
    is_blocked_destination(ip, &[])
}

#[test]
fn blocks_loopback_and_metadata_and_private_ranges() {
    assert!(blocked(IpAddress::V4([127, 0, 0, 1])));
    assert!(blocked(IpAddress::V4([169, 254, 169, 254])));
    assert!(blocked(IpAddress::V4([10, 1, 2, 3])));
    assert!(blocked(IpAddress::V4([172, 16, 5, 5])));
    assert!(blocked(IpAddress::V4([192, 168, 1, 1])));
    assert!(blocked(IpAddress::V4([100, 64, 0, 1])));
    assert!(blocked(IpAddress::V6([0, 0, 0, 0, 0, 0, 0, 1])));
    assert!(blocked(IpAddress::V6([0xfe80, 0, 0, 0, 0, 0, 0, 1])));
    assert!(blocked(IpAddress::V6([0xfc00, 0, 0, 0, 0, 0, 0, 1])));
    assert!(blocked(IpAddress::V6([0, 0, 0, 0, 0, 0xffff, 0xa9fe, 0xa9fe])));
}

#[test]
fn allows_public_addresses() {
    assert!(!blocked(IpAddress::V4([1, 1, 1, 1])));
    assert!(!blocked(IpAddress::V4([8, 8, 8, 8])));
    assert!(!blocked(IpAddress::V6([0x2606, 0x4700, 0x4700, 0, 0, 0, 0, 0x1111])));
}

#[test]
fn denies_the_remaining_special_ranges() {
    assert!(blocked(IpAddress::V4([0, 0, 0, 0])));
    assert!(blocked(IpAddress::V4([255, 255, 255, 255])));
    assert!(blocked(IpAddress::V4([192, 0, 2, 7])));
    assert!(blocked(IpAddress::V4([198, 51, 100, 7])));
    assert!(blocked(IpAddress::V4([203, 0, 113, 7])));
    assert!(blocked(IpAddress::V4([172, 31, 255, 255])));
    assert!(!blocked(IpAddress::V4([172, 32, 0, 1])));
    assert!(!blocked(IpAddress::V4([100, 128, 0, 1])));
    assert!(blocked(IpAddress::V6([0, 0, 0, 0, 0, 0, 0, 0])));
    assert!(blocked(IpAddress::V6([0xfdff, 1, 0, 0, 0, 0, 0, 1])));
    assert!(blocked(IpAddress::V6([0xfebf, 0, 0, 0, 0, 0, 0, 1])));
    assert!(!blocked(IpAddress::V6([0xfec0, 0, 0, 0, 0, 0, 0, 1])));
    assert!(!blocked(IpAddress::V6([0, 0, 0, 0, 0, 0xffff, 0x0808, 0x0808])));
}

#[test]
fn test_allowlist_opts_in_one_exact_v4_address() {
    let allow = [[10, 1, 2, 3]];
    assert!(!is_blocked_destination(IpAddress::V4([10, 1, 2, 3]), &allow));
    assert!(is_blocked_destination(IpAddress::V4([10, 1, 2, 4]), &allow));
    assert!(is_blocked_destination(IpAddress::V6([0, 0, 0, 0, 0, 0xffff, 0x0a01, 0x0203]), &allow));
}

#[test]
fn one_denied_answer_condemns_the_name() {
    let public = IpAddress::V4([93, 184, 216, 34]);
    let private = IpAddress::V4([192, 168, 0, 10]);
    assert!(all_safe(&[public], &[]));
    assert!(!all_safe(&[public, private], &[]));
    assert!(!all_safe(&[], &[]));
    assert_eq!(destination_decision(&[public, public], &[]), DialDecision::Dial(public));
    assert_eq!(destination_decision(&[public, private], &[]), DialDecision::Forbidden);
}

#[test]
fn request_line_and_header_block_limits() {
    assert_eq!(request_line_step(b"GET / HTTP/1.1\r\nHost"), ReadStep::Complete(16));
    assert_eq!(request_line_step(b"GET / HT"), ReadStep::NeedMore);
    assert_eq!(request_line_step(&vec![b'a'; 8193]), ReadStep::TooLong);
    assert_eq!(find_header_end(b"Host: a\r\n\r\nbody"), Some(11));
    assert_eq!(find_header_end(b"Host: a\r\n"), None);
    assert_eq!(header_block_step(&vec![b'a'; 8193]), ReadStep::TooLong);
    assert_eq!(header_block_step(b"Host: a\r\n"), ReadStep::NeedMore);
}

#[test]
fn routes_connect_plain_and_refused_methods() {
    match route_request("CONNECT example.com:443 HTTP/1.1\r\n") {
        ProxyRequest::Connect { host, port } => {
            assert_eq!(host, "example.com");
            assert_eq!(port, 443);
        }
        other => panic!("unexpected {other:?}"),
    }
    match route_request("connect [::1]:8443 HTTP/1.1\r\n") {
        ProxyRequest::Connect { host, port } => {
            assert_eq!(host, "[::1]");
            assert_eq!(port, 8443);
        }
        other => panic!("unexpected {other:?}"),
    }
    assert!(matches!(route_request("CONNECT example.com HTTP/1.1\r\n"), ProxyRequest::BadRequest));
    assert!(matches!(route_request("CONNECT example.com:99999 HTTP/1.1\r\n"), ProxyRequest::BadRequest));
    assert!(matches!(route_request("get http://a/ HTTP/1.1\r\n"), ProxyRequest::PlainHttp));
    assert!(matches!(route_request("OPTIONS * HTTP/1.1\r\n"), ProxyRequest::PlainHttp));
    assert!(matches!(route_request("DELETE /x HTTP/1.1\r\n"), ProxyRequest::MethodNotAllowed));
    assert!(matches!(route_request("\r\n"), ProxyRequest::MethodNotAllowed));
}

#[test]
fn invalid_utf8_in_the_request_line_is_replaced_not_trusted() {
    let line = b"GET\xff / HTTP/1.1\r\n";
    assert!(matches!(route_request_bytes(line, line.len()), ProxyRequest::MethodNotAllowed));
    let ok = b"GET / HTTP/1.1\r\n";
    assert!(matches!(route_request_bytes(ok, ok.len()), ProxyRequest::PlainHttp));
}

#[test]
fn plain_http_destination_comes_from_the_host_header() {
    assert_eq!(
        plain_http_target("User-Agent: x\r\nHost: example.com:8080\r\n\r\n"),
        Some(("example.com".to_string(), 8080))
    );
    assert_eq!(
        plain_http_target("host:   example.org  \r\n\r\n"),
        Some(("example.org".to_string(), 80))
    );
    assert_eq!(
        plain_http_target("Host: example.net:notaport\r\n\r\n"),
        Some(("example.net".to_string(), 80))
    );
    assert_eq!(plain_http_target("Accept: */*\r\n\r\n"), None);
    let bytes = b"Host: a.example\r\n\r\n";
    assert_eq!(
        plain_http_target_bytes(bytes, bytes.len()),
        Some(("a.example".to_string(), 80))
    );
}
