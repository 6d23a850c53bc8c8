use clouddesk::reason;
use clouddesk::status::{marker_line, strict_from};

#[test]
fn marker_line_is_stable_and_greppable() {
    let line = marker_line("task_example", reason::SSH_ACCEPTANCE_FIXTURE_UNAVAILABLE);
    assert_eq!(
        line,
        "CLOUDDESK_TEST_STATUS=BLOCKED_BY_ENVIRONMENT \
         CLOUDDESK_TEST_REASON=SSH_ACCEPTANCE_FIXTURE_UNAVAILABLE \
         CLOUDDESK_TEST_NAME=task_example"
    );
    assert_eq!(line.lines().count(), 1, "must stay a single line");
    assert!(
        !line.to_lowercase().contains("pass"),
        "the marker must never contain the token 'pass'"
    );
}

#[test]
fn strict_requires_an_exact_one() {
    assert!(strict_from(Some("1")));
    assert!(!strict_from(Some("0")));
    assert!(!strict_from(Some("true")));
    assert!(!strict_from(Some("yes")));
    assert!(!strict_from(Some("")));
    assert!(!strict_from(None));
}

#[test]
fn marker_line_carries_name_and_reason_verbatim() {
    let line = marker_line("t", reason::MEDIA_TOOLING_UNAVAILABLE);
    assert!(line.ends_with("CLOUDDESK_TEST_NAME=t"));
    assert!(line.contains("CLOUDDESK_TEST_REASON=MEDIA_TOOLING_UNAVAILABLE "));
    assert!(!strict_from(Some("11")));
    assert!(!strict_from(Some(" 1")));
}
