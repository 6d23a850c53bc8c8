use clouddesk::wopi::{
    authorize_path, base_file_name, check_token, file_info, hash_token, live_lock, lock_expiry,
    lock_outcome, lock_request, save_decision, size_column, size_from_column, token_expiry,
    unix_seconds, version_string, LockInfo, LockOperation, LockRequest, LockWrite, SaveDecision,
    VerifiedToken, WopiError, LOCK_TTL_SECONDS, TOKEN_TTL_SECONDS,
};

fn lock(value: &str) -> LockInfo {
    LockInfo {
        lock_value: value.to_string(),
        owner_user_id: "u1".to_string(),
        expires_at: 1_000,
    }
}

#[test]
fn token_hash_is_hex_sha256_of_the_raw_token() {
    assert_eq!(
        hash_token("abc"),
        "ba7816bf8f01cfea414140de5dae2223b00361a396177a9cb410ff61f20015ad"
    );
    assert_eq!(hash_token("abc").len(), 64);
    assert_ne!(hash_token("abc"), hash_token("abd"));
}

#[test]
fn token_checks_expiry_then_file_binding() {
    assert!(matches!(check_token(100, "f1", 100, None), Err(WopiError::TokenExpired)));
    assert!(matches!(check_token(100, "f1", 99, Some("f2")), Err(WopiError::FileMismatch)));
    assert!(check_token(100, "f1", 99, Some("f1")).is_ok());
    assert!(check_token(100, "f1", 99, None).is_ok());
    assert_eq!(token_expiry(10), 10 + TOKEN_TTL_SECONDS);
    assert_eq!(lock_expiry(10), 10 + LOCK_TTL_SECONDS);
    assert_eq!(WopiError::FileMismatch.status(), 401);
    assert_eq!(WopiError::NotAuthorized.status(), 403);
}

#[test]
fn most_specific_root_decides_access() {
    let roots = vec![
        ("/home/alice/shared".to_string(), false),
        ("/srv/data".to_string(), true),
    ];
    assert_eq!(authorize_path("/home/alice/doc.odt", "/home/alice", &roots), Some(true));
    assert_eq!(authorize_path("/home/alice/shared/doc.odt", "/home/alice", &roots), Some(false));
    assert_eq!(authorize_path("/srv/data/x.odt", "/home/alice", &roots), Some(true));
    assert_eq!(authorize_path("/home/alicex/doc.odt", "/home/alice", &roots), None);
    assert_eq!(authorize_path("/etc/passwd", "/home/alice", &roots), None);
}

#[test]
fn lock_protocol_follows_the_held_value() {
    assert_eq!(lock_request(None, "v", true), LockRequest::Respond(400));
    assert_eq!(lock_request(Some("LOCK"), "v", false), LockRequest::Respond(403));
    assert_eq!(lock_request(Some("LOCK"), "v", true), LockRequest::Consult(LockOperation::Lock));
    assert_eq!(lock_request(Some("RENAME_FILE"), "v", true), LockRequest::Respond(501));
    assert_eq!(lock_request(Some("lock"), "v", true), LockRequest::Respond(400));
    assert_eq!(lock_request(Some("GET_LOCK"), &"x".repeat(1025), true), LockRequest::Respond(400));

    let held = lock("abc");
    let r = lock_outcome(LockOperation::Lock, "abc", None);
    assert_eq!((r.status, r.write), (200, LockWrite::Acquire));
    let r = lock_outcome(LockOperation::Lock, "abc", Some(&held));
    assert_eq!((r.status, r.write), (200, LockWrite::Refresh));
    let r = lock_outcome(LockOperation::Lock, "other", Some(&held));
    assert_eq!((r.status, r.lock_header.as_deref(), r.write), (409, Some("abc"), LockWrite::Keep));
    let r = lock_outcome(LockOperation::Unlock, "abc", Some(&held));
    assert_eq!((r.status, r.write), (200, LockWrite::Release));
    let r = lock_outcome(LockOperation::Unlock, "abc", None);
    assert_eq!((r.status, r.lock_header), (409, None));
    let r = lock_outcome(LockOperation::RefreshLock, "abc", None);
    assert_eq!(r.status, 404);
    let r = lock_outcome(LockOperation::GetLock, "", Some(&held));
    assert_eq!(r.lock_header.as_deref(), Some("abc"));
    let r = lock_outcome(LockOperation::GetLock, "", None);
    assert_eq!(r.lock_header.as_deref(), Some(""));
}

#[test]
fn expired_lock_counts_as_absent() {
    assert!(live_lock("v".into(), "u".into(), 100, 100).is_none());
    let l = live_lock("v".into(), "u".into(), 100, 99).unwrap();
    assert_eq!(l.lock_value, "v");
    assert_eq!(l.expires_at, 100);
}

#[test]
fn save_needs_write_access_the_lock_and_an_unchanged_file() {
    let held = lock("abc");
    assert!(matches!(save_decision(false, 10, "abc", Some(&held), None, None), SaveDecision::Forbidden));
    assert!(matches!(save_decision(true, 0, "", None, None, None), SaveDecision::Proceed));
    assert!(matches!(save_decision(true, 10, "abc", None, None, None), SaveDecision::Conflict(None)));
    match save_decision(true, 10, "zzz", Some(&held), None, None) {
        SaveDecision::Conflict(Some(v)) => assert_eq!(v, "abc"),
        _ => panic!("expected a conflict naming the lock"),
    }
    assert!(matches!(
        save_decision(true, 10, "abc", Some(&held), Some((10, 5)), Some((11, 5))),
        SaveDecision::Conflict(None)
    ));
    assert!(matches!(
        save_decision(true, 10, "abc", Some(&held), Some((10, 5)), Some((10, 5))),
        SaveDecision::Proceed
    ));
}

#[test]
fn version_and_file_info() {
    assert_eq!(version_string(3, 1024, -7), "3-1024--7");
    assert_eq!(version_string(i64::MIN, 0, 0), "-9223372036854775808-0-0");
    assert_eq!(base_file_name("/home/a/report.odt"), "report.odt");
    assert_eq!(base_file_name("/"), "");
    assert_eq!(base_file_name("/home/a/.."), "");
    let t = VerifiedToken {
        user_id: "u1".into(),
        file_id: "f".into(),
        canonical_path: "/home/a/x.docx".into(),
        read_write: false,
    };
    let info = file_info(&t, 12, "1-12-0".into());
    assert_eq!(info.base_file_name, "x.docx");
    assert!(info.read_only && !info.user_can_write && !info.supports_update);
    assert_eq!(unix_seconds(None), 0);
    assert_eq!(unix_seconds(Some(u64::MAX)), i64::MAX);
    assert_eq!(size_column(u64::MAX), i64::MAX);
    assert_eq!(size_from_column(-5), 0);
}
