use std::cell::RefCell;
use std::collections::BTreeMap;

use clouddesk::acl::{AclEntry, AclQualifierKind};
use clouddesk::archive::{ArchiveFormat, ArchiveOutcome};
use clouddesk::archive::ExtractTarget;
use clouddesk::localfs::{
    answer_local, execute_local, preview_gate, provider_request, CleanupStep, EntryStat,
    ExtractionLog, IoAnswer, IoCall, LocalOutcome, LocalRequest, LocalStep, SetfaclRun,
};
use clouddesk::vfs::{
    search_matches, sort_listing, trash_plan, EntryKind, LocalFileOperation, LocalFileResult,
    VfsEntry, VfsError,
};

fn entry(name: &str, kind: EntryKind) -> VfsEntry {
    VfsEntry {
        name: name.to_string(),
        path: format!("/{name}"),
        kind,
        size: 0,
        modified_at: None,
        mode: 0o644,
        uid: 0,
        gid: 0,
    }
}

#[test]
fn listings_put_directories_first_then_names_without_case() {
    let sorted = sort_listing(vec![
        entry("beta.txt", EntryKind::File),
        entry("Zeta", EntryKind::Directory),
        entry("Alpha.txt", EntryKind::File),
        entry("docs", EntryKind::Directory),
        entry("link", EntryKind::Symlink),
    ]);
    let names: Vec<&str> = sorted.iter().map(|e| e.name.as_str()).collect();
    assert_eq!(names, vec!["docs", "Zeta", "Alpha.txt", "beta.txt", "link"]);
}

#[test]
fn search_matches_ignore_case() {
    assert!(search_matches("Quarterly-REPORT.pdf", "report"));
    assert!(search_matches("anything", ""));
    assert!(!search_matches("notes.txt", "report"));
}

#[test]
fn trash_moves_into_a_time_stamped_name() {
    let plan = trash_plan(true, "/docs//old.txt", 1_700_000_000).unwrap();
    assert_eq!(plan.source, "docs/old.txt");
    assert_eq!(plan.destination, ".Trash/clouddesk/1700000000-old.txt");
    assert_eq!(plan.virtual_path, "/.Trash/clouddesk/1700000000-old.txt");
    assert!(matches!(
        trash_plan(false, "/docs/old.txt", 1),
        Err(VfsError::ReadOnly)
    ));
    assert!(matches!(trash_plan(true, "/", 1), Err(VfsError::InvalidPath)));
    assert!(matches!(
        trash_plan(true, "/../x", 1),
        Err(VfsError::Traversal)
    ));
}

#[test]
fn error_messages_read_as_before() {
    assert_eq!(VfsError::ReadOnly.message(), "provider is read-only");
    assert_eq!(
        VfsError::Io("disk full".to_string()).message(),
        "filesystem operation failed: disk full"
    );
    assert_eq!(
        VfsError::InvalidAclEntry("no ACL entries supplied".to_string()).message(),
        "invalid ACL entry: no ACL entries supplied"
    );
}

/// Runs an operation that must be refused before any filesystem call.
fn run_untouched(writable: bool, op: LocalFileOperation) -> Result<LocalFileResult, VfsError> {
    match execute_local(writable, op, 0) {
        Ok((_, call)) => panic!("filesystem reached: {call:?}"),
        Err(e) => Err(e),
    }
}

/// An in-memory tree of files (paths relative to the root) and directories.
#[derive(Default)]
struct MemFs {
    files: RefCell<BTreeMap<String, (Vec<u8>, u32)>>,
    dirs: RefCell<BTreeMap<String, ()>>,
    setfacl_args: RefCell<Vec<String>>,
    calls: RefCell<Vec<String>>,
}

fn file_stat(len: usize, mode: u32) -> EntryStat {
    EntryStat { kind: EntryKind::File, size: len as u64, modified_at: None, mode, uid: 1, gid: 1 }
}

fn dir_stat() -> EntryStat {
    EntryStat { kind: EntryKind::Directory, size: 0, modified_at: None, mode: 0o755, uid: 1, gid: 1 }
}

fn missing() -> VfsError {
    VfsError::Io("No such file or directory".to_string())
}

impl MemFs {
    fn put_file(&self, relative: &str, content: &[u8]) {
        self.files.borrow_mut().insert(relative.to_string(), (content.to_vec(), 0o644));
    }

    fn put_dir_all(&self, relative: &str) {
        let mut acc = String::new();
        for piece in relative.split('/') {
            if !acc.is_empty() {
                acc.push('/');
            }
            acc.push_str(piece);
            self.dirs.borrow_mut().insert(acc.clone(), ());
        }
    }

    fn children(&self, relative: &str) -> Vec<(String, EntryStat)> {
        let prefix = if relative == "." { String::new() } else { format!("{relative}/") };
        let mut out = Vec::new();
        for (path, (data, mode)) in self.files.borrow().iter() {
            if let Some(rest) = path.strip_prefix(&prefix) {
                if !rest.contains('/') {
                    out.push((rest.to_string(), file_stat(data.len(), *mode)));
                }
            }
        }
        for path in self.dirs.borrow().keys() {
            if let Some(rest) = path.strip_prefix(&prefix) {
                if !rest.is_empty() && !rest.contains('/') {
                    out.push((rest.to_string(), dir_stat()));
                }
            }
        }
        out
    }

    fn stat(&self, relative: &str) -> Result<EntryStat, VfsError> {
        match self.files.borrow().get(relative) {
            Some((data, mode)) => Ok(file_stat(data.len(), *mode)),
            None if self.dirs.borrow().contains_key(relative) => Ok(dir_stat()),
            None => Err(missing()),
        }
    }

    fn perform(&self, call: IoCall) -> IoAnswer {
        self.calls.borrow_mut().push(format!("{call:?}"));
        match call {
            IoCall::ListChildren { relative } | IoCall::ScanDirectory { relative } => {
                IoAnswer::Children(Ok(self.children(&relative)))
            }
            IoCall::Stat { relative } => IoAnswer::Stat(self.stat(&relative)),
            IoCall::CreateDir { relative } => {
                self.dirs.borrow_mut().insert(relative, ());
                IoAnswer::Done(Ok(()))
            }
            IoCall::CreateDirAll { relative } => {
                self.put_dir_all(&relative);
                IoAnswer::Done(Ok(()))
            }
            IoCall::Rename { from, to } => {
                let moved = self.files.borrow_mut().remove(&from);
                IoAnswer::Done(match moved {
                    Some(value) => {
                        self.files.borrow_mut().insert(to, value);
                        Ok(())
                    }
                    None => Err(missing()),
                })
            }
            IoCall::Copy { from, to } => {
                let value = self.files.borrow().get(&from).cloned();
                IoAnswer::Copied(match value {
                    Some(value) => {
                        let n = value.0.len() as u64;
                        self.files.borrow_mut().insert(to, value);
                        Ok(n)
                    }
                    None => Err(missing()),
                })
            }
            IoCall::LinkFacts { relative } => IoAnswer::Facts(
                self.files
                    .borrow()
                    .get(&relative)
                    .map(|(d, _)| (false, d.len() as u64))
                    .ok_or_else(missing),
            ),
            IoCall::Read { relative } => IoAnswer::Data(
                self.files.borrow().get(&relative).map(|(d, _)| d.clone()).ok_or_else(missing),
            ),
            IoCall::Write { relative, content } => {
                self.put_file(&relative, &content);
                IoAnswer::Done(Ok(()))
            }
            IoCall::SetMode { relative, mode } => {
                IoAnswer::Done(match self.files.borrow_mut().get_mut(&relative) {
                    Some(entry) => {
                        entry.1 = mode;
                        Ok(())
                    }
                    None => Err(missing()),
                })
            }
            IoCall::WriteArchive { sources, .. } => {
                IoAnswer::Archive(Ok(ArchiveOutcome { entries: sources.len() as u64, bytes: 7 }))
            }
            IoCall::ExtractArchive { .. } => IoAnswer::Archive(Ok(ArchiveOutcome { entries: 2, bytes: 9 })),
            IoCall::OpenTarget { relative } => IoAnswer::Done(self.stat(&relative).map(|_| ())),
            IoCall::Getfacl { .. } => {
                IoAnswer::AclText(Ok(Some("user::rw-\ngroup::r--\nother::r--\n".to_string())))
            }
            IoCall::Setfacl { modify_arg, .. } => {
                self.setfacl_args.borrow_mut().push(modify_arg);
                IoAnswer::Setfacl(Ok(SetfaclRun::Failed(
                    "setfacl: Operation not supported".to_string(),
                )))
            }
        }
    }

    /// Runs one operation against this tree, as the service's loop does.
    fn run(&self, writable: bool, op: LocalFileOperation, now: i64) -> Result<LocalFileResult, VfsError> {
        let (mut run, mut call) = execute_local(writable, op, now)?;
        loop {
            let answer = self.perform(call);
            assert!(run.accepts(&answer));
            match run.resume(answer) {
                LocalStep::Call(next, next_call) => {
                    run = next;
                    call = next_call;
                }
                LocalStep::Finish(result) => return result,
            }
        }
    }
}

#[test]
fn read_only_roots_reject_all_mutations() {
    let ops = vec![
        LocalFileOperation::CreateDirectory { path: "/blocked".into() },
        LocalFileOperation::WriteFile { path: "/blocked.txt".into(), content: b"data".to_vec() },
        LocalFileOperation::Chmod { path: "/blocked.txt".into(), mode: 0o644 },
        LocalFileOperation::Rename { from: "/a".into(), to: "/b".into() },
        LocalFileOperation::CopyFile { from: "/a".into(), to: "/b".into() },
        LocalFileOperation::Trash { path: "/a".into() },
        LocalFileOperation::CreateArchive {
            sources: vec!["/a".into()],
            destination: "/a.zip".into(),
            format: ArchiveFormat::Zip,
        },
        LocalFileOperation::ExtractArchive {
            archive: "/a.zip".into(),
            destination: "/".into(),
            format: ArchiveFormat::Zip,
        },
        LocalFileOperation::SetAcl { path: "/a".into(), entries: Vec::new() },
    ];
    for op in ops {
        assert!(op.requires_write());
        assert!(matches!(run_untouched(false, op), Err(VfsError::ReadOnly)));
    }
}

#[test]
fn read_acl_denied_outside_authorized_root() {
    let result = run_untouched(true, LocalFileOperation::ReadAcl { path: "../../etc/passwd".into() });
    assert!(matches!(result, Err(VfsError::Traversal)));
}

#[test]
fn traversal_and_nul_paths_never_reach_the_filesystem() {
    assert!(matches!(
        run_untouched(false, LocalFileOperation::List { path: "/../".into() }),
        Err(VfsError::Traversal)
    ));
    assert!(matches!(
        run_untouched(true, LocalFileOperation::Stat { path: "a\0b".into() }),
        Err(VfsError::InvalidPath)
    ));
    assert!(matches!(
        run_untouched(true, LocalFileOperation::CreateArchive {
            sources: Vec::new(),
            destination: "/a.zip".into(),
            format: ArchiveFormat::TarGz,
        }),
        Err(VfsError::EmptyArchiveSelection)
    ));
    match run_untouched(true, LocalFileOperation::SetAcl { path: "/a".into(), entries: Vec::new() }) {
        Err(VfsError::InvalidAclEntry(m)) => assert_eq!(m, "no ACL entries supplied"),
        other => panic!("unexpected {other:?}"),
    }
}

#[test]
fn write_file_chmod_and_search_operate_within_root() {
    let fs = MemFs::default();
    let written = fs.run(true,
        LocalFileOperation::WriteFile { path: "/sub/nested/file.txt".into(), content: b"hello world".to_vec() },
        0,
    )
    .unwrap();
    assert!(matches!(written, LocalFileResult::Written { bytes: 11 }));
    assert!(fs.dirs.borrow().contains_key("sub/nested"));
    match fs.run(false, LocalFileOperation::ReadPreview { path: "/sub/nested/file.txt".into(), maximum_bytes: 32 }, 0).unwrap() {
        LocalFileResult::Preview { bytes } => assert_eq!(bytes, b"hello world"),
        other => panic!("unexpected {other:?}"),
    }
    assert!(matches!(
        fs.run(false, LocalFileOperation::ReadPreview { path: "/sub/nested/file.txt".into(), maximum_bytes: 5 }, 0),
        Err(VfsError::TooLarge)
    ));
    fs.run(true, LocalFileOperation::Chmod { path: "/sub/nested/file.txt".into(), mode: 0o100600 }, 0).unwrap();
    match fs.run(false, LocalFileOperation::Stat { path: "sub//nested/file.txt/".into() }, 0).unwrap() {
        LocalFileResult::Entry { entry } => {
            assert_eq!(entry.mode & 0o777, 0o600);
            assert_eq!(entry.name, "file.txt");
            assert_eq!(entry.path, "/sub//nested/file.txt");
        }
        other => panic!("unexpected {other:?}"),
    }
    match fs.run(false, LocalFileOperation::Search { path: "/".into(), query: "file".into(), maximum_results: 10 }, 0).unwrap() {
        LocalFileResult::SearchResults { entries } => {
            assert_eq!(entries.len(), 1);
            assert_eq!(entries[0].name, "file.txt");
            assert_eq!(entries[0].path, "/sub/nested/file.txt");
        }
        other => panic!("unexpected {other:?}"),
    }
    match fs.run(false, LocalFileOperation::Search { path: "/".into(), query: "nonexistent".into(), maximum_results: 10 }, 0).unwrap() {
        LocalFileResult::SearchResults { entries } => assert!(entries.is_empty()),
        other => panic!("unexpected {other:?}"),
    }
}

#[test]
fn listings_are_sorted_with_the_roots_capabilities() {
    let fs = MemFs::default();
    for name in ["b.txt", "A.txt"] {
        fs.put_file(name, b"x");
    }
    fs.put_dir_all("zeta");
    match fs.run(false, LocalFileOperation::List { path: "/".into() }, 0).unwrap() {
        LocalFileResult::Entries { entries, capabilities } => {
            let names: Vec<&str> = entries.iter().map(|e| e.name.as_str()).collect();
            assert_eq!(names, vec!["zeta", "A.txt", "b.txt"]);
            assert_eq!(entries[1].path, "/A.txt");
            assert_eq!(capabilities.len(), 1);
        }
        other => panic!("unexpected {other:?}"),
    }
}

#[test]
fn trash_archives_and_acls_go_through_the_plans() {
    let fs = MemFs::default();
    fs.put_file("docs/old.txt", b"x");
    match fs.run(true, LocalFileOperation::Trash { path: "/docs/old.txt".into() }, 42).unwrap() {
        LocalFileResult::Trashed { path } => assert_eq!(path, "/.Trash/clouddesk/42-old.txt"),
        other => panic!("unexpected {other:?}"),
    }
    assert!(fs.files.borrow().contains_key(".Trash/clouddesk/42-old.txt"));
    match fs.run(true, LocalFileOperation::CreateArchive {
        sources: vec!["/a".into(), "/b".into()],
        destination: "backups//x.zip/".into(),
        format: ArchiveFormat::Zip,
    }, 0).unwrap() {
        LocalFileResult::ArchiveCreated { path, entries, bytes } => {
            assert_eq!(path, "/backups//x.zip");
            assert_eq!((entries, bytes), (2, 7));
        }
        other => panic!("unexpected {other:?}"),
    }
    assert!(fs.dirs.borrow().contains_key("backups"));
    match fs.run(false, LocalFileOperation::ReadAcl { path: "/docs".into() }, 0).unwrap() {
        LocalFileResult::Acl { entries, supported } => {
            assert!(supported);
            assert_eq!(entries.len(), 3);
        }
        other => panic!("unexpected {other:?}"),
    }
    let unsafe_name = AclEntry {
        kind: AclQualifierKind::User,
        name: Some("evil:x:0:0".into()),
        read: true,
        write: false,
        execute: false,
    };
    fs.put_file("f.txt", b"x");
    assert!(matches!(
        fs.run(true, LocalFileOperation::SetAcl { path: "/f.txt".into(), entries: vec![unsafe_name] }, 0),
        Err(VfsError::InvalidAclEntry(_))
    ));
    assert!(fs.setfacl_args.borrow().is_empty());
    let nobody = AclEntry {
        kind: AclQualifierKind::User,
        name: Some("nobody".into()),
        read: true,
        write: false,
        execute: false,
    };
    assert!(matches!(
        fs.run(true, LocalFileOperation::SetAcl { path: "/f.txt".into(), entries: vec![nobody] }, 0),
        Err(VfsError::Unsupported)
    ));
    assert_eq!(fs.setfacl_args.borrow().as_slice(), ["u:nobody:r--".to_string()]);
}

#[test]
fn requests_carry_the_plans_values() {
    match provider_request(true, LocalFileOperation::ReadPreview { path: "/a".into(), maximum_bytes: 1 << 20 }, 0).unwrap() {
        LocalRequest::ReadPreview { relative, limit } => assert_eq!((relative.as_str(), limit), ("a", 12 * 1024)),
        other => panic!("unexpected {other:?}"),
    }
    match provider_request(true, LocalFileOperation::Search { path: "/x/".into(), query: "q".into(), maximum_results: 0 }, 0).unwrap() {
        LocalRequest::Search { relative, display, limit, .. } => {
            assert_eq!((relative.as_str(), display.as_str(), limit), ("x", "/x", 1));
        }
        other => panic!("unexpected {other:?}"),
    }
    match provider_request(true, LocalFileOperation::Chmod { path: "/a".into(), mode: 0o170777 }, 0).unwrap() {
        LocalRequest::Chmod { mode, .. } => assert_eq!(mode, 0o777),
        other => panic!("unexpected {other:?}"),
    }
    assert!(preview_gate(true, 1, 10).is_err());
    assert!(matches!(preview_gate(false, 11, 10), Err(VfsError::TooLarge)));
    let answered = answer_local(
        true,
        &LocalRequest::ReadPreview { relative: "a".into(), limit: 4 },
        LocalOutcome::Previewed { facts: Ok((true, 1)), read: None },
    );
    assert!(matches!(answered, Err(VfsError::SymlinkReadDenied)));
}

#[test]
fn trash_makes_its_directory_then_moves_the_entry() {
    let fs = MemFs::default();
    fs.put_file("a.txt", b"x");
    fs.run(true, LocalFileOperation::Trash { path: "/a.txt".into() }, 7).unwrap();
    let calls = fs.calls.borrow();
    assert_eq!(calls.len(), 2);
    assert!(calls[0].contains("CreateDirAll") && calls[0].contains(".Trash/clouddesk"));
    assert!(calls[1].contains("Rename") && calls[1].contains("7-a.txt"));
}

#[test]
fn a_failed_first_call_ends_the_run() {
    let (run, call) = execute_local(true, LocalFileOperation::Trash { path: "/a.txt".into() }, 7).unwrap();
    assert!(matches!(call, IoCall::CreateDirAll { .. }));
    match run.resume(IoAnswer::Done(Err(VfsError::Io("denied".into())))) {
        LocalStep::Finish(Err(VfsError::Io(m))) => assert_eq!(m, "denied"),
        other => panic!("unexpected {other:?}"),
    }
    let (run, _) = execute_local(false, LocalFileOperation::ReadPreview { path: "/l".into(), maximum_bytes: 9 }, 0).unwrap();
    assert!(!run.accepts(&IoAnswer::Data(Ok(Vec::new()))));
    assert!(matches!(
        run.resume(IoAnswer::Facts(Ok((true, 1)))),
        LocalStep::Finish(Err(VfsError::SymlinkReadDenied))
    ));
}

#[test]
fn searches_stop_at_their_limit_and_report_only_matches() {
    let fs = MemFs::default();
    for name in ["report-1.txt", "Report-2.txt", "REPORT-3.txt", "notes.txt"] {
        fs.put_file(name, b"x");
    }
    fs.put_file("deep/report-4.txt", b"x");
    fs.put_dir_all("deep");
    match fs.run(false, LocalFileOperation::Search { path: "/".into(), query: "report".into(), maximum_results: 2 }, 0).unwrap() {
        LocalFileResult::SearchResults { entries } => {
            assert_eq!(entries.len(), 2);
            assert!(entries.iter().all(|e| search_matches(&e.name, "report")));
        }
        other => panic!("unexpected {other:?}"),
    }
    match fs.run(false, LocalFileOperation::Search { path: "/".into(), query: "report".into(), maximum_results: 500 }, 0).unwrap() {
        LocalFileResult::SearchResults { entries } => {
            assert_eq!(entries.len(), 4);
            assert!(entries.iter().any(|e| e.path == "/deep/report-4.txt"));
        }
        other => panic!("unexpected {other:?}"),
    }
}

#[test]
fn searches_skip_a_directory_that_cannot_be_read() {
    let (run, call) = execute_local(false, LocalFileOperation::Search { path: "/x".into(), query: "a".into(), maximum_results: 5 }, 0).unwrap();
    match call {
        IoCall::ScanDirectory { relative } => assert_eq!(relative, "x"),
        other => panic!("unexpected {other:?}"),
    }
    match run.resume(IoAnswer::Children(Err(VfsError::Io("denied".into())))) {
        LocalStep::Finish(Ok(LocalFileResult::SearchResults { entries })) => assert!(entries.is_empty()),
        other => panic!("unexpected {other:?}"),
    }
}

#[test]
fn extraction_logs_each_path_and_cleans_up_files_before_directories() {
    let mut log = ExtractionLog::new();
    let dir = log.materialize("out", ExtractTarget::Directory("sub".into()));
    assert_eq!((dir.path.as_str(), dir.is_file), ("out/sub", false));
    let file = log.materialize("out", ExtractTarget::File("sub/first-ok.txt".into()));
    assert_eq!((file.path.as_str(), file.is_file), ("out/sub/first-ok.txt", true));
    let at_root = log.materialize(".", ExtractTarget::File("top.txt".into()));
    assert_eq!(at_root.path, "top.txt");
    let plan: Vec<String> = log
        .cleanup_plan()
        .into_iter()
        .map(|step| match step {
            CleanupStep::RemoveFile(p) => format!("file {p}"),
            CleanupStep::RemoveDir(p) => format!("dir {p}"),
        })
        .collect();
    assert_eq!(
        plan,
        vec![
            "file top.txt",
            "file out/sub/first-ok.txt",
            "file out/sub",
            "dir top.txt",
            "dir out/sub/first-ok.txt",
            "dir out/sub",
        ]
    );
}
