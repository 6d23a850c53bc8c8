use clouddesk::checksum::{local_transfer_plan, relay_checksum, LocalTransfer, TransferChecksum};
use clouddesk::transfers::{TransferEndpoint, TransferJob, TransferState, TransferStrategy};

fn job(source: TransferEndpoint, destination: TransferEndpoint) -> TransferJob {
    TransferJob {
        id: "j".into(),
        owner_user_id: "u".into(),
        source,
        destination,
        strategy: TransferStrategy::Direct,
        state: TransferState::Running,
        bytes_total: None,
        bytes_transferred: 0,
        attempts: 1,
        next_attempt_at: 0,
        last_error: None,
        created_at: 0,
        updated_at: 0,
    }
}

#[test]
fn streamed_checksum_is_hex_sha256_of_all_bytes() {
    let mut whole = TransferChecksum::new();
    whole.update(b"transfer-payload-data");
    let mut parts = TransferChecksum::new();
    parts.update(b"transfer-");
    parts.update(b"");
    parts.update(b"payload-data");
    let a = whole.finish();
    assert_eq!(a, parts.finish());
    let mut abc = TransferChecksum::new();
    abc.update(b"abc");
    assert_eq!(
        abc.finish(),
        "ba7816bf8f01cfea414140de5dae2223b00361a396177a9cb410ff61f20015ad"
    );
    assert_eq!(
        TransferChecksum::new().finish(),
        "e3b0c44298fc1c149afbf4c8996fb92427ae41e4649b934ca495991b7852b855"
    );
}

#[test]
fn only_local_pairs_are_copied() {
    let plan = local_transfer_plan(&job(
        TransferEndpoint::Local { path: "/source.txt".into() },
        TransferEndpoint::Local { path: "//dest.txt".into() },
    ));
    match plan {
        LocalTransfer::Copy { source, destination } => {
            assert_eq!((source.as_str(), destination.as_str()), ("source.txt", "dest.txt"));
        }
        other => panic!("unexpected {other:?}"),
    }
    let relay = local_transfer_plan(&job(
        TransferEndpoint::Local { path: "/a".into() },
        TransferEndpoint::Sftp { server_id: "s".into(), path: "/b".into() },
    ));
    assert!(matches!(relay, LocalTransfer::Relay));
    assert_eq!(relay_checksum(), "sha256:relay_complete");
}
