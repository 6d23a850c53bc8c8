use clouddesk::ospath::{file_name, path_extension, relative_components, starts_with};

#[test]
fn path_prefixes_compare_whole_components() {
    assert!(starts_with("/home/alice/docs", "/home/alice"));
    assert!(starts_with("/home/alice/", "/home/alice"));
    assert!(!starts_with("/home/alicex", "/home/alice"));
    assert!(starts_with("/home//alice/./x", "/home/alice"));
    assert!(!starts_with("home/alice", "/home/alice"));
}

#[test]
fn file_names_and_extensions() {
    assert_eq!(file_name("/a/b.tar.gz").as_deref(), Some("b.tar.gz"));
    assert_eq!(file_name("/"), None);
    assert_eq!(file_name("/a/.."), None);
    assert_eq!(path_extension("/a/b.tar.gz"), "gz");
    assert_eq!(path_extension("/a/.bashrc"), "");
    assert_eq!(path_extension("/a/README"), "");
    assert_eq!(path_extension("/a/report.odt"), "odt");
}

#[test]
fn client_paths_stay_relative_and_never_climb() {
    assert_eq!(relative_components("/docs/./a.txt").unwrap(), vec!["docs".to_string(), "a.txt".to_string()]);
    assert_eq!(relative_components("../etc/passwd"), Err("path traversal denied"));
    assert_eq!(relative_components("a\0b"), Err("invalid path"));
    assert!(relative_components("/").unwrap().is_empty());
}
