use clouddesk::transfers::{
    claim_next, job_from_columns, list_limit, parse_state, parse_strategy, prepare_enqueue,
    select_strategy, state_name, strategy_name, NewTransfer, TransferEndpoint, TransferError,
    TransferJob, TransferState, TransferStrategy, MAX_TRANSFER_ATTEMPTS,
};

#[test]
fn remote_to_remote_never_selects_a_browser_data_path() {
    let sftp = TransferEndpoint::Sftp {
        server_id: "a".into(),
        path: "/x".into(),
    };
    let s3 = TransferEndpoint::S3 {
        connection_id: "b".into(),
        bucket: "bucket".into(),
        key: "x".into(),
    };
    assert_eq!(select_strategy(&sftp, &s3), TransferStrategy::ServerRelay);
    assert_eq!(select_strategy(&sftp, &sftp), TransferStrategy::Direct);
}

fn job(id: &str, created_at: i64) -> TransferJob {
    TransferJob {
        id: id.into(),
        owner_user_id: "u1".into(),
        source: TransferEndpoint::Local { path: "/a".into() },
        destination: TransferEndpoint::Sftp {
            server_id: "s".into(),
            path: "/b".into(),
        },
        strategy: TransferStrategy::ServerRelay,
        state: TransferState::Queued,
        bytes_total: None,
        bytes_transferred: 0,
        attempts: 0,
        next_attempt_at: 0,
        last_error: None,
        created_at,
        updated_at: created_at,
    }
}

#[test]
fn names_round_trip_and_unknown_names_are_corrupt() {
    for s in [
        TransferState::Queued,
        TransferState::Running,
        TransferState::Paused,
        TransferState::Completed,
        TransferState::Failed,
        TransferState::Cancelled,
    ] {
        assert_eq!(parse_state(state_name(s)).unwrap(), s);
    }
    assert_eq!(strategy_name(TransferStrategy::ServerRelay), "server-relay");
    assert_eq!(
        parse_strategy("direct").unwrap(),
        TransferStrategy::Direct
    );
    assert!(matches!(parse_state("QUEUED"), Err(TransferError::Corrupt)));
    assert!(matches!(parse_strategy("relay"), Err(TransferError::Corrupt)));
}

#[test]
fn permanent_error_fails_immediately_without_retrying() {
    let mut j = job("a", 1);
    j.claim(10).unwrap();
    assert_eq!(j.attempts, 1);
    j.retry("authorization denied", true, 10).unwrap();
    assert_eq!(j.state, TransferState::Failed);
    assert_eq!(j.attempts, 1);
    assert_eq!(j.last_error.as_deref(), Some("authorization denied"));
}

#[test]
fn transient_error_requeues_with_backoff_until_the_budget_is_spent() {
    let mut j = job("a", 1);
    for attempt in 1..=MAX_TRANSFER_ATTEMPTS {
        j.claim(1_000).unwrap();
        j.retry(&format!("attempt {attempt} failed"), false, 1_000)
            .unwrap();
        if attempt < MAX_TRANSFER_ATTEMPTS {
            assert_eq!(j.state, TransferState::Queued);
            assert_eq!(j.next_attempt_at, 1_000 + (1_i64 << attempt));
            j.next_attempt_at = 0;
        } else {
            assert_eq!(j.state, TransferState::Failed);
        }
    }
    assert!(matches!(j.claim(5_000), Err(TransferError::InvalidTransition)));
    assert!(matches!(
        j.retry_failed("someone-else", 6_000),
        Err(TransferError::InvalidTransition)
    ));
    j.retry_failed("u1", 6_000).unwrap();
    assert_eq!(j.state, TransferState::Queued);
    assert_eq!(j.attempts, 0);
    assert!(j.last_error.is_none());
}

#[test]
fn long_errors_are_truncated_to_1024_characters() {
    let mut j = job("a", 1);
    j.claim(1).unwrap();
    let long = "é".repeat(2000);
    j.fail(&long, 2).unwrap();
    assert_eq!(j.last_error.unwrap().chars().count(), 1024);
}

#[test]
fn manual_transitions_follow_the_allowed_table() {
    let mut j = job("a", 1);
    assert!(matches!(
        j.set_state(TransferState::Queued, 2),
        Err(TransferError::InvalidTransition)
    ));
    j.set_state(TransferState::Paused, 2).unwrap();
    j.set_state(TransferState::Queued, 3).unwrap();
    j.set_state(TransferState::Cancelled, 4).unwrap();
    assert_eq!(j.state, TransferState::Cancelled);
    assert!(matches!(
        j.set_state(TransferState::Queued, 5),
        Err(TransferError::InvalidTransition)
    ));
    assert!(matches!(
        j.set_state(TransferState::Completed, 5),
        Err(TransferError::InvalidTransition)
    ));
}

#[test]
fn claim_next_takes_the_oldest_due_job_once() {
    let mut jobs = vec![job("b", 5), job("c", 3), job("a", 3)];
    jobs[0].next_attempt_at = 0;
    assert_eq!(claim_next(&mut jobs, 10), Some(2));
    assert_eq!(jobs[2].state, TransferState::Running);
    assert_eq!(jobs[2].attempts, 1);
    assert_eq!(claim_next(&mut jobs, 10), Some(1));
    assert_eq!(claim_next(&mut jobs, 10), Some(0));
    assert_eq!(claim_next(&mut jobs, 10), None);
    let mut later = vec![job("x", 1)];
    later[0].next_attempt_at = 100;
    assert_eq!(claim_next(&mut later, 99), None);
}

#[test]
fn recovery_requeues_only_running_jobs() {
    let mut j = job("a", 1);
    j.claim(2).unwrap();
    j.record_progress(40, 3).unwrap();
    assert!(j.recover_interrupted(9));
    assert_eq!(j.state, TransferState::Queued);
    assert_eq!(j.bytes_transferred, 40);
    assert_eq!(
        j.last_error.as_deref(),
        Some("service restarted during transfer")
    );
    assert!(!j.recover_interrupted(10));
    assert!(matches!(
        j.record_progress(u64::MAX, 11),
        Err(TransferError::TooLarge)
    ));
}

#[test]
fn enqueue_checks_endpoints_and_size() {
    let ok = NewTransfer {
        source: TransferEndpoint::Local { path: "/a".into() },
        destination: TransferEndpoint::Local { path: "/b".into() },
        bytes_total: Some(100),
    };
    assert_eq!(
        prepare_enqueue(&ok, true, true).unwrap(),
        (TransferStrategy::Direct, Some(100))
    );
    let empty = NewTransfer {
        source: TransferEndpoint::S3 {
            connection_id: "c".into(),
            bucket: "".into(),
            key: "k".into(),
        },
        destination: TransferEndpoint::Local { path: "/b".into() },
        bytes_total: None,
    };
    assert!(matches!(
        prepare_enqueue(&empty, true, true),
        Err(TransferError::InvalidEndpoint)
    ));
    let huge = NewTransfer {
        bytes_total: Some(u64::MAX),
        ..ok.clone()
    };
    assert!(matches!(
        prepare_enqueue(&huge, true, true),
        Err(TransferError::TooLarge)
    ));
    let scp = NewTransfer {
        source: TransferEndpoint::Scp {
            server_id: "s".into(),
            path: "/etc/x".into(),
        },
        ..ok
    };
    assert!(matches!(
        prepare_enqueue(&scp, false, true),
        Err(TransferError::InvalidEndpoint)
    ));
    assert_eq!(list_limit(0), 1);
    assert_eq!(list_limit(500), 200);
    assert_eq!(list_limit(17), 17);
}

#[test]
fn stored_rows_are_checked_when_read_back() {
    let ok = job_from_columns(
        "id".into(),
        "u".into(),
        TransferEndpoint::Local { path: "/a".into() },
        TransferEndpoint::Local { path: "/b".into() },
        "direct",
        "running",
        Some(5),
        3,
        2,
        0,
        None,
        1,
        1,
    )
    .unwrap();
    assert_eq!(ok.state, TransferState::Running);
    assert_eq!(ok.attempts, 2);
    assert!(matches!(
        job_from_columns(
            "id".into(),
            "u".into(),
            TransferEndpoint::Local { path: "/a".into() },
            TransferEndpoint::Local { path: "/b".into() },
            "direct",
            "running",
            Some(-1),
            3,
            2,
            0,
            None,
            1,
            1,
        ),
        Err(TransferError::Corrupt)
    ));
    let (message, permanent) = TransferError::Permanent("denied".into()).retry_classification();
    assert_eq!((message.as_str(), permanent), ("denied", true));
    let (message, permanent) = TransferError::Io("reset".into()).retry_classification();
    assert_eq!((message.as_str(), permanent), ("I/O error: reset", false));
}

#[test]
fn jobs_persist_and_interrupted_work_recovers_after_restart() {
    let mut jobs = vec![job("id", 1)];
    jobs[0].bytes_total = Some(100);
    assert_eq!(claim_next(&mut jobs, 2), Some(0));
    jobs[0].record_progress(40, 3).unwrap();
    let mut recovered = 0;
    for j in jobs.iter_mut() {
        if j.recover_interrupted(4) {
            recovered += 1;
        }
    }
    assert_eq!(recovered, 1);
    assert_eq!(jobs[0].state, TransferState::Queued);
    assert_eq!(jobs[0].bytes_transferred, 40);
}

#[test]
fn concurrent_claims_never_claim_one_job_twice() {
    let mut jobs = vec![job("id", 1)];
    let mut claims = Vec::new();
    for _ in 0..12 {
        if let Some(i) = claim_next(&mut jobs, 2) {
            claims.push(jobs[i].id.clone());
        }
    }
    assert_eq!(claims, vec!["id".to_string()]);
    let j = &mut jobs[0];
    assert!(matches!(
        j.set_state(TransferState::Queued, 3),
        Err(TransferError::InvalidTransition)
    ));
    j.set_state(TransferState::Paused, 3).unwrap();
    j.set_state(TransferState::Queued, 3).unwrap();
    j.set_state(TransferState::Cancelled, 3).unwrap();
    assert!(matches!(
        j.set_state(TransferState::Queued, 3),
        Err(TransferError::InvalidTransition)
    ));
}

#[test]
fn transient_error_retries_then_succeeds() {
    let mut jobs = vec![job("id", 1)];
    let now = 1_000;
    assert_eq!(claim_next(&mut jobs, now), Some(0));
    jobs[0].retry("connection reset", false, now).unwrap();
    assert_eq!(jobs[0].state, TransferState::Queued);
    assert_eq!(jobs[0].attempts, 1);
    assert!(jobs[0].next_attempt_at > now);
    jobs[0].next_attempt_at = 0;
    assert_eq!(claim_next(&mut jobs, now), Some(0));
    assert_eq!(jobs[0].attempts, 2);
    jobs[0].complete(now).unwrap();
    assert_eq!(jobs[0].state, TransferState::Completed);
}

#[test]
fn retry_budget_exhaustion_becomes_failed() {
    let mut jobs = vec![job("id", 1)];
    for attempt in 1..=MAX_TRANSFER_ATTEMPTS {
        claim_next(&mut jobs, 10);
        jobs[0]
            .retry(&format!("attempt {attempt} failed"), false, 10)
            .unwrap();
        if attempt < MAX_TRANSFER_ATTEMPTS {
            assert_eq!(jobs[0].state, TransferState::Queued);
            jobs[0].next_attempt_at = 0;
        } else {
            assert_eq!(jobs[0].state, TransferState::Failed);
        }
    }
    assert_eq!(claim_next(&mut jobs, 10), None);
}

#[test]
fn manual_retry_is_owner_scoped_and_resets_attempts() {
    let mut jobs = vec![job("id", 1)];
    claim_next(&mut jobs, 2);
    jobs[0].retry("authorization denied", true, 2).unwrap();
    assert_eq!(jobs[0].state, TransferState::Failed);
    assert!(matches!(
        jobs[0].retry_failed("someone-else", 3),
        Err(TransferError::InvalidTransition)
    ));
    assert_eq!(jobs[0].state, TransferState::Failed);
    jobs[0].retry_failed("u1", 3).unwrap();
    assert_eq!(jobs[0].state, TransferState::Queued);
    assert_eq!(jobs[0].attempts, 0);
    assert!(jobs[0].last_error.is_none());
}

#[test]
fn cancellation_remains_distinct_from_failure() {
    let mut jobs = vec![job("id", 1)];
    jobs[0].set_state(TransferState::Cancelled, 2).unwrap();
    assert_eq!(jobs[0].state, TransferState::Cancelled);
    assert_eq!(claim_next(&mut jobs, 3), None);
}

#[test]
fn claim_next_passes_over_jobs_it_cannot_claim() {
    let mut jobs = vec![job("done", 1), job("next", 2)];
    jobs[0].state = TransferState::Completed;
    jobs[0].attempts = u32::MAX;
    assert_eq!(claim_next(&mut jobs, 10), Some(1));
    assert_eq!(jobs[0].attempts, u32::MAX);
    assert_eq!(jobs[1].attempts, 1);
}
