use clouddesk::api::{
    default_persistence, kind_capability, map_start_error, map_stop_error, selectable_kind,
    ApiError, Persistence, RuntimeKind, StartError, StopError,
};
use clouddesk::downloads::{save_download_plan, DownloadRecord, DownloadStateKind};
use clouddesk::transfers::TransferError;
use clouddesk::uploads::{accept_chunk, check_owner, finalize_check, UploadError};
use clouddesk::vault::VaultError;
use clouddesk::wopi::WopiError;

#[test]
fn errors_map_to_fixed_public_answers() {
    let e = ApiError::from_vault(VaultError::NotFound);
    assert_eq!((e.status, e.public_message), (404, "secret not found"));
    let e = ApiError::from_vault(VaultError::Database("locked".into()));
    assert_eq!((e.status, e.public_message, e.internal.as_deref()), (500, "internal server error", Some("database error: locked")));
    let e = ApiError::from_transfer(TransferError::InvalidTransition);
    assert_eq!(e.status, 409);
    let e = ApiError::from_wopi(WopiError::TokenExpired);
    assert_eq!((e.status, e.public_message), (401, "authentication required"));
    let a = map_start_error(StartError::NotOwner);
    let b = map_start_error(StartError::NotFound);
    assert_eq!((a.status, a.public_message), (b.status, b.public_message));
    assert_eq!(map_start_error(StartError::GlobalLimitReached).status, 429);
    assert_eq!(map_stop_error(StopError::NotOwner).status, 404);
    assert_eq!(kind_capability(RuntimeKind::Office), Some("apps.office.use"));
    assert_eq!(kind_capability(RuntimeKind::TestFixture), None);
    assert_eq!(default_persistence(RuntimeKind::Browser), Persistence::Ephemeral);
    assert!(selectable_kind(Some(RuntimeKind::TestFixture), false).is_err());
    assert!(selectable_kind(Some(RuntimeKind::TestFixture), true).is_ok());
}

#[test]
fn uploads_respect_declared_size_owner_and_checksum() {
    assert_eq!(check_owner("u1", "u2"), Err(UploadError::Forbidden));
    assert_eq!(accept_chunk(10, 4, 0, 6), Ok(6));
    assert_eq!(accept_chunk(10, 4, 0, 7), Err(UploadError::ChunkTooLarge));
    assert_eq!(accept_chunk(10, 10, 0, 0), Ok(0));
    assert_eq!(finalize_check(10, 9, None, &[]), Err(UploadError::Incomplete));
    assert_eq!(finalize_check(2, 2, Some("ABFF"), &[0xab, 0xff]), Ok(()));
    assert_eq!(finalize_check(2, 2, Some("abfe"), &[0xab, 0xff]), Err(UploadError::ChecksumMismatch));
}

fn record(guid: &str, state: DownloadStateKind) -> DownloadRecord {
    DownloadRecord {
        guid: guid.into(),
        suggested_filename: "r.pdf".into(),
        sanitized_filename: "r.pdf".into(),
        url: "https://x/r.pdf".into(),
        total_bytes: Some(3),
        received_bytes: 3,
        state,
        failure_reason: None,
        staging_path: format!("/state/downloads/{guid}"),
    }
}

#[test]
fn only_completed_downloads_are_saved() {
    let records = vec![record("g1", DownloadStateKind::InProgress), record("g2", DownloadStateKind::Completed)];
    assert_eq!(save_download_plan(&records, "g1", ""), Err("download is not completed"));
    assert_eq!(save_download_plan(&records, "zz", ""), Err("unknown download"));
    assert_eq!(
        save_download_plan(&records, "g2", "  "),
        Ok(("/state/downloads/g2".to_string(), "r.pdf".to_string()))
    );
    assert_eq!(
        save_download_plan(&records, "g2", "../x/y.pdf"),
        Ok(("/state/downloads/g2".to_string(), "y.pdf".to_string()))
    );
}
