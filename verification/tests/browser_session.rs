use clouddesk::browser::{
    chooser_file_check, clipboard_write_check, select_file_refusal, MAX_UPLOAD_MATERIALIZE_BYTES,
    clamp_viewport, clipboard_read_text, new_tab_url, session_check, upload_container_path, validate_navigation_url,
    BrowserSession, ChooserLookup, MouseButton, NextTab, CHOOSER_EXPIRY_MILLIS, MAX_CLIPBOARD_BYTES,
    MAX_TABS_PER_SESSION,
};

#[test]
fn only_web_urls_and_blank_are_navigable() {
    assert_eq!(validate_navigation_url("  https://example.com/ "), Ok("https://example.com/".to_string()));
    assert_eq!(validate_navigation_url("HTTP://EXAMPLE.COM"), Ok("HTTP://EXAMPLE.COM".to_string()));
    assert_eq!(validate_navigation_url("about:blank"), Ok("about:blank".to_string()));
    assert_eq!(validate_navigation_url("file:///etc/passwd"), Err("navigation scheme not permitted"));
    assert_eq!(validate_navigation_url("javascript:alert(1)"), Err("navigation scheme not permitted"));
    assert_eq!(validate_navigation_url("   "), Err("empty URL"));
    assert_eq!(clamp_viewport(50_000, 10), (1920, 150));
    assert_eq!(MouseButton::Middle.as_cdp(), "middle");
}

#[test]
fn tabs_are_bounded_and_the_active_one_is_real() {
    let mut s = BrowserSession::new();
    for seq in 0..(MAX_TABS_PER_SESSION as u64) {
        assert!(s.register_tab(seq, &format!("t{seq}"), &format!("s{seq}")).is_some());
    }
    assert!(s.register_tab(99, "t99", "s99").is_none());
    assert!(s.activate("tab-42").is_none());
    let plan = s.activate("tab-3").unwrap();
    assert_eq!(plan.session_id, "s3");
    assert!(plan.stop_session.is_none());
    let plan = s.activate("tab-4").unwrap();
    assert_eq!(plan.stop_session.as_deref(), Some("s3"));
    assert_eq!(s.active_session().as_deref(), Some("s4"));
    assert!(s.is_active_session("s4") && !s.is_active_session("s3"));
    let (target, next) = s.close_tab("tab-4").unwrap();
    assert_eq!(target, "t4");
    match next {
        NextTab::Activate(id) => assert_eq!(id, "tab-0"),
        other => panic!("{other:?}"),
    }
    assert!(s.close_tab("tab-4").is_none());
}

#[test]
fn closing_the_last_tab_asks_for_a_blank_one() {
    let mut s = BrowserSession::new();
    s.register_tab(1, "t1", "s1").unwrap();
    s.activate("tab-1").unwrap();
    let (_, next) = s.close_tab("tab-1").unwrap();
    assert!(matches!(next, NextTab::OpenBlank));
    assert!(s.active_tab.is_none());
}

#[test]
fn popups_are_attached_once_and_choosers_expire() {
    let mut s = BrowserSession::new();
    assert!(s.note_target("p1", true));
    assert!(!s.note_target("p1", true));
    assert!(!s.note_target("w1", false));
    let id = s.open_chooser(7, "s1", 42, 1_000);
    assert_eq!(id, "chooser-7");
    assert!(matches!(s.take_chooser(&id, 1_000 + CHOOSER_EXPIRY_MILLIS + 1), ChooserLookup::Expired));
    assert!(matches!(s.take_chooser(&id, 1_000), ChooserLookup::Unknown));
    let id = s.open_chooser(8, "s1", 43, 1_000);
    match s.take_chooser(&id, 2_000) {
        ChooserLookup::Ready(c) => assert_eq!(c.backend_node_id, 43),
        other => panic!("{other:?}"),
    }
    assert_eq!(upload_container_path(3, "a.txt"), "/state/uploads/upload-3/a.txt");
}

#[test]
fn page_state_and_clipboard() {
    let mut s = BrowserSession::new();
    s.register_tab(1, "t1", "s1").unwrap();
    assert_eq!(s.frame_navigated("s1", "https://a/").as_deref(), Some("tab-1"));
    assert_eq!(s.tabs[0].url, "https://a/");
    assert!(s.tabs[0].loading);
    s.load_finished("s1").unwrap();
    assert!(!s.tabs[0].loading);
    assert!(s.frame_navigated("nope", "x").is_none());
    let big = "é".repeat(MAX_CLIPBOARD_BYTES);
    let cut = clipboard_read_text(&big);
    assert!(cut.len() <= MAX_CLIPBOARD_BYTES);
    assert_eq!(cut.len(), MAX_CLIPBOARD_BYTES);
    assert_eq!(clipboard_read_text("short"), "short");
    assert_eq!(s.resize(10, 10).is_none(), true);
    assert_eq!((s.width, s.height), (200, 150));
}

#[test]
fn new_tabs_open_blank_or_an_admitted_url() {
    assert_eq!(new_tab_url(None).unwrap(), "about:blank");
    assert_eq!(new_tab_url(Some("  https://example.org/ ")).unwrap(), "https://example.org/");
    assert_eq!(new_tab_url(Some("file:///etc/passwd")), Err("navigation scheme not permitted"));
    assert_eq!(new_tab_url(Some("   ")), Err("navigation scheme not permitted"));
}

#[test]
fn page_events_update_only_their_tab() {
    let mut s = BrowserSession::new();
    s.register_tab(1, "t1", "s1").unwrap();
    s.register_tab(2, "t2", "s2").unwrap();
    assert_eq!(s.frame_navigated("s2", "https://b/").as_deref(), Some("tab-2"));
    assert_eq!(s.tabs[1].url, "https://b/");
    assert!(s.tabs[1].loading);
    assert_eq!(s.tabs[0].url, "");
    assert_eq!(s.load_finished("s2").as_deref(), Some("tab-2"));
    assert!(!s.tabs[1].loading);
    assert!(s.tabs[0].loading);
    assert!(s.load_finished("s9").is_none());
    s.activate("tab-2").unwrap();
    match s.target_destroyed("t2") {
        Some((id, NextTab::Activate(next))) => {
            assert_eq!(id, "tab-2");
            assert_eq!(next, "tab-1");
        }
        other => panic!("unexpected {other:?}"),
    }
    assert!(s.active_tab.is_none());
    assert!(s.target_destroyed("t2").is_none());
    s.activate("tab-1").unwrap();
    assert!(matches!(s.target_destroyed("t1"), Some((_, NextTab::Unchanged))));
    assert!(s.tabs.is_empty());
    assert!(s.note_target("p", true));
    assert_eq!(s.known_target_ids, vec!["p".to_string()]);
    assert!(!s.note_target("p", true));
    assert_eq!(s.known_target_ids.len(), 1);
}

#[test]
fn closing_and_choosers_keep_their_values() {
    let mut s = BrowserSession::new();
    s.register_tab(1, "t1", "s1").unwrap();
    s.register_tab(2, "t2", "s2").unwrap();
    let plan = s.activate("tab-1").unwrap();
    assert_eq!(plan.session_id, "s1");
    assert!(plan.stop_session.is_none());
    let plan = s.activate("tab-2").unwrap();
    assert_eq!(plan.session_id, "s2");
    assert_eq!(plan.stop_session.as_deref(), Some("s1"));
    match s.close_tab("tab-2") {
        Some((target, NextTab::Activate(next))) => {
            assert_eq!(target, "t2");
            assert_eq!(next, "tab-1");
        }
        other => panic!("unexpected {other:?}"),
    }
    let id = s.open_chooser(7, "s1", 42, 1_000);
    let c = s.pending_choosers.last().unwrap();
    assert_eq!((c.id.as_str(), c.session_id.as_str(), c.backend_node_id, c.created_at_ms), (id.as_str(), "s1", 42, 1_000));
}

#[test]
fn sessions_close_when_their_runtime_stops_or_is_replaced() {
    assert_eq!(session_check(false, Some(1), Some(1)), Some("runtime_stopped"));
    assert_eq!(session_check(true, Some(1), Some(2)), Some("stale_generation"));
    assert_eq!(session_check(true, Some(1), None), Some("stale_generation"));
    assert_eq!(session_check(true, Some(1), Some(1)), None);
    assert_eq!(session_check(true, None, Some(3)), None);
}

#[test]
fn chooser_files_are_checked_in_order() {
    assert_eq!(chooser_file_check(false, false, u64::MAX), Err("file is outside the authorized root"));
    assert_eq!(chooser_file_check(true, false, 1), Err("not a file"));
    assert_eq!(chooser_file_check(true, true, MAX_UPLOAD_MATERIALIZE_BYTES + 1), Err("file is too large"));
    assert_eq!(chooser_file_check(true, true, MAX_UPLOAD_MATERIALIZE_BYTES), Ok(()));
    assert_eq!(clipboard_write_check(MAX_CLIPBOARD_BYTES + 1), Err("clipboard text is too large"));
    assert_eq!(clipboard_write_check(MAX_CLIPBOARD_BYTES), Ok(()));
    assert_eq!(select_file_refusal(true), Some("remote file selection not supported"));
    assert_eq!(select_file_refusal(false), None);
}

#[test]
fn a_resize_goes_to_the_active_tabs_session_with_the_clamped_size() {
    let mut s = BrowserSession::new();
    let first = s.register_tab(1, "t1", "s1").unwrap();
    let second = s.register_tab(2, "t2", "s2").unwrap();
    s.activate(&second).unwrap();
    assert_eq!(s.resize(5000, 10), Some(("s2".to_string(), 1920, 150)));
    s.activate(&first).unwrap();
    assert_eq!(s.resize(800, 600), Some(("s1".to_string(), 800, 600)));
}

#[test]
fn a_reopened_chooser_id_replaces_the_pending_one() {
    let mut s = BrowserSession::new();
    let id = s.open_chooser(7, "s1", 42, 1_000);
    assert_eq!(s.open_chooser(7, "s2", 43, 2_000), id);
    assert_eq!(s.pending_choosers.len(), 1);
    match s.take_chooser(&id, 2_000) {
        ChooserLookup::Ready(c) => assert_eq!((c.session_id.as_str(), c.backend_node_id), ("s2", 43)),
        other => panic!("unexpected {other:?}"),
    }
    assert!(s.note_target("page-1", true));
    assert!(!s.note_target("page-1", true));
    assert_eq!(s.known_target_ids.len(), 1);
}
