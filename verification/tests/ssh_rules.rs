use clouddesk::ssh::{
    audit_result, check_bastion, check_identity, classify_ssh_resolve_error, first_hop,
    is_scp_job, mapped_ids, remote_upload_temp, scp_plan, HopPlan, ScpPlan, SshResolveError,
};
use clouddesk::transfers::{TransferEndpoint, TransferError, TransferJob, TransferState, TransferStrategy};

fn job(source: TransferEndpoint, destination: TransferEndpoint) -> TransferJob {
    TransferJob {
        id: "j".into(),
        owner_user_id: "u".into(),
        source,
        destination,
        strategy: TransferStrategy::ServerRelay,
        state: TransferState::Running,
        bytes_total: None,
        bytes_transferred: 0,
        attempts: 0,
        next_attempt_at: 0,
        last_error: None,
        created_at: 0,
        updated_at: 0,
    }
}

#[test]
fn permanent_ssh_failures_are_not_retried() {
    match classify_ssh_resolve_error(&SshResolveError::ChainTooDeep) {
        TransferError::Permanent(m) => assert_eq!(m, "ProxyJump chain exceeds the maximum supported depth (2 hops)"),
        other => panic!("{other:?}"),
    }
    let changed = SshResolveError::Remote { host_key_changed: true, message: "host key changed".into() };
    assert!(matches!(classify_ssh_resolve_error(&changed), TransferError::Permanent(_)));
    match classify_ssh_resolve_error(&SshResolveError::Connect("timeout".into())) {
        TransferError::Io(m) => assert_eq!(m, "SSH connection failed: timeout"),
        other => panic!("{other:?}"),
    }
}

#[test]
fn proxy_jump_chain_is_one_bastion_deep() {
    assert!(matches!(first_hop("a", None), HopPlan::Direct));
    assert!(matches!(first_hop("a", Some("a")), HopPlan::SelfReference));
    match first_hop("a", Some("b")) {
        HopPlan::ThroughBastion(b) => assert_eq!(b, "b"),
        other => panic!("{other:?}"),
    }
    assert!(check_bastion(None).is_ok());
    assert!(matches!(check_bastion(Some("c")), Err(SshResolveError::ChainTooDeep)));
}

#[test]
fn mapped_identity_must_exist_and_not_be_root() {
    assert_eq!(mapped_ids(Some((Some(1000), Some(1000)))).unwrap(), (1000, 1000));
    assert!(matches!(mapped_ids(None), Err(TransferError::Permanent(m)) if m == "this user has no mapped Linux identity"));
    assert!(matches!(mapped_ids(Some((Some(0), Some(5)))), Err(TransferError::Permanent(m)) if m == "mapped Linux identity is not permitted"));
    assert!(matches!(mapped_ids(Some((Some(-1), Some(5)))), Err(TransferError::Permanent(m)) if m == "invalid mapped UID"));
    assert!(check_identity(Some(5), 5).is_ok());
    assert!(check_identity(Some(6), 5).is_err());
    assert!(check_identity(None, 5).is_err());
}

#[test]
fn scp_jobs_pair_local_with_scp_only() {
    let local = TransferEndpoint::Local { path: "/a".into() };
    let scp = TransferEndpoint::Scp { server_id: "s".into(), path: "/r".into() };
    let sftp = TransferEndpoint::Sftp { server_id: "s".into(), path: "/r".into() };
    assert!(matches!(scp_plan(&job(local.clone(), scp.clone())), ScpPlan::Upload { .. }));
    assert!(matches!(scp_plan(&job(scp.clone(), local.clone())), ScpPlan::Download { .. }));
    assert!(matches!(scp_plan(&job(scp.clone(), sftp.clone())), ScpPlan::Unsupported));
    assert!(is_scp_job(&job(sftp.clone(), scp)));
    assert!(!is_scp_job(&job(sftp, local)));
    assert_eq!(remote_upload_temp("/r/f.txt", "abc"), "/r/f.txt.clouddesk-upload-abc.part");
    assert_eq!(audit_result("scp.upload.failed"), "failure");
    assert_eq!(audit_result("scp.upload.completed"), "success");
}
