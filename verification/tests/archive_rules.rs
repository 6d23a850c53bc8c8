use clouddesk::archive::{
    add_extracted_bytes, check_zip_entry_count, create_archive_plan, extract_archive_plan,
    safe_entry_path, tar_entry_step, zip_entry_target, ArchiveEntryType, ArchiveOutcome,
    ArchiveWalk, ExtractTarget, WalkAction, WalkEvent, MAX_EXTRACT_BYTES, MAX_EXTRACT_ENTRIES,
};
use clouddesk::vfs::VfsError;

#[test]
fn create_plan_checks_write_then_selection_then_paths() {
    let sources = vec!["/docs".to_string(), "notes/./a.txt".to_string()];
    assert!(matches!(
        create_archive_plan(false, &sources, "/out.zip"),
        Err(VfsError::ReadOnly)
    ));
    assert!(matches!(
        create_archive_plan(true, &[], "/out.zip"),
        Err(VfsError::EmptyArchiveSelection)
    ));
    assert!(matches!(
        create_archive_plan(true, &sources, "/"),
        Err(VfsError::InvalidPath)
    ));
    let bad = vec!["/docs".to_string(), "/../etc".to_string()];
    assert!(matches!(
        create_archive_plan(true, &bad, "/out.zip"),
        Err(VfsError::Traversal)
    ));
    let (destination, normalized) = create_archive_plan(true, &sources, "//backups/out.zip").unwrap();
    assert_eq!(destination, "backups/out.zip");
    assert_eq!(normalized, vec!["docs".to_string(), "notes/a.txt".to_string()]);
}

#[test]
fn extract_plan_allows_the_root_as_destination() {
    assert!(matches!(
        extract_archive_plan(false, "/a.zip", "/"),
        Err(VfsError::ReadOnly)
    ));
    assert!(matches!(
        extract_archive_plan(true, "/", "/"),
        Err(VfsError::InvalidPath)
    ));
    assert!(matches!(
        extract_archive_plan(true, "/a.zip", "/x/../.."),
        Err(VfsError::Traversal)
    ));
    let (archive, destination) = extract_archive_plan(true, "/in/a.zip", "/").unwrap();
    assert_eq!(archive, "in/a.zip");
    assert_eq!(destination, ".");
}

#[test]
fn extracted_bytes_are_capped() {
    assert_eq!(add_extracted_bytes(10, 20).unwrap(), 30);
    assert_eq!(
        add_extracted_bytes(MAX_EXTRACT_BYTES - 1, 1).unwrap(),
        MAX_EXTRACT_BYTES
    );
    assert!(matches!(
        add_extracted_bytes(MAX_EXTRACT_BYTES, 1),
        Err(VfsError::ArchiveQuotaExceeded)
    ));
    assert!(matches!(
        add_extracted_bytes(0, u64::MAX),
        Err(VfsError::ArchiveQuotaExceeded)
    ));
}

#[test]
fn zip_entries_are_admitted_or_refused() {
    assert!(check_zip_entry_count(MAX_EXTRACT_ENTRIES as usize).is_ok());
    assert!(matches!(
        check_zip_entry_count(MAX_EXTRACT_ENTRIES as usize + 1),
        Err(VfsError::ArchiveQuotaExceeded)
    ));
    assert!(matches!(
        zip_entry_target(true, false, "link"),
        Err(VfsError::ArchiveEntryLinkDenied)
    ));
    assert!(matches!(
        zip_entry_target(false, false, "../../evil.sh"),
        Err(VfsError::UnsafeArchiveEntry(name)) if name == "../../evil.sh"
    ));
    assert_eq!(
        zip_entry_target(false, true, "nested/dir/").unwrap(),
        ExtractTarget::Directory("nested/dir".to_string())
    );
    assert_eq!(
        zip_entry_target(false, false, "./nested/file.txt").unwrap(),
        ExtractTarget::File("nested/file.txt".to_string())
    );
}

#[test]
fn tar_entries_are_counted_then_admitted() {
    assert_eq!(
        tar_entry_step(0, ArchiveEntryType::File, "a/b.txt").unwrap(),
        (1, ExtractTarget::File("a/b.txt".to_string()))
    );
    assert_eq!(
        tar_entry_step(4, ArchiveEntryType::Directory, "a/").unwrap(),
        (5, ExtractTarget::Directory("a".to_string()))
    );
    assert!(matches!(
        tar_entry_step(MAX_EXTRACT_ENTRIES, ArchiveEntryType::File, "a"),
        Err(VfsError::ArchiveQuotaExceeded)
    ));
    assert!(matches!(
        tar_entry_step(0, ArchiveEntryType::HardLink, "a"),
        Err(VfsError::ArchiveEntryLinkDenied)
    ));
    assert!(matches!(
        tar_entry_step(0, ArchiveEntryType::Symlink, "a"),
        Err(VfsError::ArchiveEntryLinkDenied)
    ));
    assert!(matches!(
        tar_entry_step(0, ArchiveEntryType::Other, "fifo"),
        Err(VfsError::ArchiveEntryLinkDenied)
    ));
    assert!(matches!(
        tar_entry_step(0, ArchiveEntryType::File, "/etc/passwd"),
        Err(VfsError::UnsafeArchiveEntry(_))
    ));
}

#[test]
fn unsafe_entry_names_are_refused() {
    for raw in ["", "/abs", "a/../b", "C:evil", "a\\b", "a\0b", "./."] {
        assert!(
            matches!(safe_entry_path(raw), Err(VfsError::UnsafeArchiveEntry(_))),
            "{raw:?} must be refused"
        );
    }
    assert_eq!(safe_entry_path("a//b/./c").unwrap(), "a/b/c");
}

#[test]
fn archive_walk_never_follows_a_symlinked_source() {
    let (walk, action) = ArchiveWalk::new(&vec!["link".to_string()]);
    match &action {
        WalkAction::Inspect { relative } => assert_eq!(relative, "link"),
        other => panic!("unexpected {other:?}"),
    }
    let (_, action) = walk.step(WalkEvent::Inspected { is_symlink: true, is_dir: true });
    match action {
        WalkAction::Finish(outcome) => assert_eq!(outcome, ArchiveOutcome { entries: 0, bytes: 0 }),
        other => panic!("unexpected {other:?}"),
    }
}

#[test]
fn archive_walk_visits_trees_depth_first_in_name_order() {
    let (mut walk, mut action) = ArchiveWalk::new(&vec!["docs".to_string(), "a\\b.txt".to_string()]);
    let mut seen = Vec::new();
    loop {
        let event = match action {
            WalkAction::Inspect { relative } => {
                seen.push(format!("inspect {relative}"));
                WalkEvent::Inspected { is_symlink: false, is_dir: relative == "docs" }
            }
            WalkAction::AddDirectory { name, relative } => {
                seen.push(format!("dir {name}"));
                assert_eq!(relative, "docs");
                WalkEvent::DirectoryAdded { children: vec!["y.txt".to_string(), "x.txt".to_string()] }
            }
            WalkAction::AddFile { name, relative } => {
                seen.push(format!("file {name} from {relative}"));
                WalkEvent::FileAdded { bytes: 5 }
            }
            WalkAction::Finish(outcome) => {
                assert_eq!(outcome, ArchiveOutcome { entries: 4, bytes: 15 });
                break;
            }
        };
        (walk, action) = walk.step(event);
    }
    assert_eq!(
        seen,
        vec![
            "inspect docs",
            "dir docs/",
            "inspect docs/x.txt",
            "file docs/x.txt from docs/x.txt",
            "inspect docs/y.txt",
            "file docs/y.txt from docs/y.txt",
            "inspect a\\b.txt",
            "file a/b.txt from a\\b.txt",
        ]
    );
}
