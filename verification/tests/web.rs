use clouddesk::web::{
    bootstrap_linux_username, bootstrap_secret_matches, check_bootstrap_identity, check_ui_mode,
    desktop_mode, content_range, cross_site_rejected, mime_for_path,
    origin_matches_host, parse_single_range, proc_memory_value, range_request,
    redact_token_query, require_unprivileged, sanitize_log_text, session_token,
    unsatisfied_range, urlencode, user_agent, MAX_RUNTIME_LOG_BYTES,
};

#[test]
fn tokens_are_redacted_from_logged_urls() {
    assert_eq!(
        redact_token_query("/wopi/files/1", Some("access_token=secret&x=1&TOKEN=t&y")),
        "/wopi/files/1?access_token=***&x=1&TOKEN=***&y"
    );
    assert_eq!(redact_token_query("/a", None), "/a");
    assert_eq!(redact_token_query("/a", Some("")), "/a?");
}

#[test]
fn origin_must_name_the_host() {
    assert!(origin_matches_host("https://Desk.Example:8443", Some("desk.example:8443")));
    assert!(!origin_matches_host("https://evil.example", Some("desk.example")));
    assert!(!origin_matches_host("https://desk.example", None));
    assert!(!origin_matches_host("not a uri", Some("desk.example")));
}

#[test]
fn cross_site_state_changes_are_refused() {
    assert!(cross_site_rejected("POST", None, Some("cross-site"), None, Some("h")));
    assert!(cross_site_rejected("POST", None, None, Some("https://evil"), Some("h")));
    assert!(!cross_site_rejected("POST", None, Some("same-origin"), Some("https://h"), Some("h")));
    assert!(!cross_site_rejected("GET", None, Some("cross-site"), Some("https://evil"), Some("h")));
    assert!(cross_site_rejected("GET", Some("WebSocket"), Some("none"), None, Some("h")));
}

#[test]
fn session_cookie_is_found_by_exact_name() {
    assert_eq!(session_token(Some("a=1; clouddesk_session=tok=en; b=2")), Some("tok=en".to_string()));
    assert_eq!(session_token(Some("clouddesk_session=")), None);
    assert_eq!(session_token(Some("Clouddesk_session=x")), None);
    assert_eq!(session_token(None), None);
    assert_eq!(user_agent(None), "unknown");
    assert_eq!(user_agent(Some(&"é".repeat(600))).chars().count(), 512);
}

#[test]
fn byte_ranges_follow_the_rfc_cases() {
    assert_eq!(parse_single_range("0-9", 100), Some(Ok((0, 9))));
    assert_eq!(parse_single_range("90-", 100), Some(Ok((90, 99))));
    assert_eq!(parse_single_range("-10", 100), Some(Ok((90, 99))));
    assert_eq!(parse_single_range("-1000", 100), Some(Ok((0, 99))));
    assert_eq!(parse_single_range("50-1000", 100), Some(Ok((50, 99))));
    assert_eq!(parse_single_range("100-", 100), Some(Err(())));
    assert_eq!(parse_single_range("9-3", 100), Some(Err(())));
    assert_eq!(parse_single_range("-0", 100), Some(Err(())));
    assert_eq!(parse_single_range("abc", 100), None);
    assert_eq!(parse_single_range("a-3", 100), None);
    assert_eq!(range_request(Some("bytes=0-1,3-4"), 100), None);
    assert_eq!(range_request(Some("bytes=1-2"), 100), Some(Ok((1, 2))));
    assert_eq!(range_request(Some("items=1-2"), 100), None);
    assert_eq!(content_range(1, 2, 100), "bytes 1-2/100");
    assert_eq!(unsatisfied_range(100), "bytes */100");
}

#[test]
fn content_types_by_extension() {
    assert_eq!(mime_for_path("/x/Photo.JPG"), "image/jpeg");
    assert_eq!(mime_for_path("notes.md"), "text/plain; charset=utf-8");
    assert_eq!(mime_for_path("archive.tar.gz"), "application/octet-stream");
    assert_eq!(mime_for_path("README"), "application/octet-stream");
}

#[test]
fn meminfo_values_and_log_sanitizing() {
    let meminfo = "MemTotal:       16384 kB\nMemAvailable:   8192 kB\n";
    assert_eq!(proc_memory_value(meminfo, "MemAvailable:"), Some(8192));
    assert_eq!(proc_memory_value(meminfo, "SwapTotal:"), None);
    assert_eq!(sanitize_log_text(b"ok\tline\n\x1b[31mred"), "ok\tline\n\u{FFFD}[31mred");
    assert_eq!(sanitize_log_text(b"a\xffb"), "a\u{FFFD}b");
    let big = vec![0x07_u8; MAX_RUNTIME_LOG_BYTES];
    assert!(sanitize_log_text(&big).len() <= MAX_RUNTIME_LOG_BYTES);
}

#[test]
fn urlencode_and_privilege_and_bootstrap() {
    assert_eq!(urlencode("a b/é~"), "a%20b%2F%C3%A9~");
    assert!(require_unprivileged(0).is_err());
    assert!(require_unprivileged(1000).is_ok());
    assert!(bootstrap_secret_matches("  s3cret\n", "s3cret"));
    assert!(!bootstrap_secret_matches("s3cret", "s3creT"));
}

#[test]
fn bootstrap_requests_are_checked() {
    assert_eq!(desktop_mode(), "desktop");
    assert!(check_ui_mode("desktop").is_ok());
    assert!(check_ui_mode("dashboard").is_ok());
    let err = check_ui_mode("Desktop").unwrap_err();
    assert_eq!(err.status, 400);
    assert_eq!(err.public_message, "ui_mode must be 'desktop' or 'dashboard'");
    assert_eq!(bootstrap_linux_username(Some("  alice ")).as_deref(), Some("alice"));
    assert_eq!(bootstrap_linux_username(Some("   ")), None);
    assert_eq!(bootstrap_linux_username(None), None);
    assert!(check_bootstrap_identity(1000, 1000).is_ok());
    assert_eq!(check_bootstrap_identity(0, 1000).unwrap_err().status, 400);
    assert_eq!(
        check_bootstrap_identity(1000, 0).unwrap_err().public_message,
        "the initial administrator cannot map to root"
    );
}
