use clouddesk::downloads::{begin_download, sanitize_download_filename, DownloadStateKind};

#[test]
fn sanitizes_hostile_filenames() {
    assert_eq!(sanitize_download_filename("../../evil"), "evil");
    assert_eq!(sanitize_download_filename("../"), "download");
    assert_eq!(sanitize_download_filename("/etc/passwd"), "passwd");
    assert_eq!(
        sanitize_download_filename("C:\\Windows\\system32\\evil.exe"),
        "evil.exe"
    );
    assert_eq!(sanitize_download_filename(".hidden"), "hidden");
    assert_eq!(sanitize_download_filename(""), "download");
    assert_eq!(sanitize_download_filename("   "), "download");
    assert!(!sanitize_download_filename("a\0b").contains('\0'));
    assert!(!sanitize_download_filename("a\nb\r").contains('\n'));
    let long = "a".repeat(500);
    assert!(sanitize_download_filename(&long).len() <= 200);
    assert_eq!(sanitize_download_filename("réal.txt"), "réal.txt");
}

#[test]
fn sanitize_replaces_colons_and_keeps_inner_spaces() {
    assert_eq!(sanitize_download_filename("a:b.txt"), "a_b.txt");
    assert_eq!(sanitize_download_filename("  my file.pdf  "), "my file.pdf");
    assert_eq!(sanitize_download_filename("...x"), "x");
    assert_eq!(sanitize_download_filename("a\u{7}b"), "ab");
    let long = "é".repeat(300);
    assert_eq!(sanitize_download_filename(&long).chars().count(), 200);
}

#[test]
fn a_begun_download_starts_fresh_and_replaces_its_namesake() {
    let mut records = Vec::new();
    begin_download(&mut records, "g1", "https://x/a", "../evil.sh", "/state/downloads/g1");
    begin_download(&mut records, "g2", "https://x/b", "b.txt", "/state/downloads/g2");
    assert_eq!(records.len(), 2);
    assert_eq!(records[0].sanitized_filename, "evil.sh");
    assert_eq!(records[0].suggested_filename, "../evil.sh");
    assert_eq!(records[0].received_bytes, 0);
    assert_eq!(records[0].state, DownloadStateKind::InProgress);
    records[0].received_bytes = 10;
    begin_download(&mut records, "g1", "https://x/c", "c.txt", "/state/downloads/g1");
    assert_eq!(records.len(), 2);
    assert_eq!(records[0].url, "https://x/c");
    assert_eq!(records[0].received_bytes, 0);
    assert_eq!(records[1].guid, "g2");
}

#[test]
fn download_ids_stay_distinct() {
    let mut records = Vec::new();
    for guid in ["g1", "g2", "g1", "g3", "g2"] {
        begin_download(&mut records, guid, "https://x/a", "a.txt", "/state/downloads/a");
    }
    let mut ids: Vec<&str> = records.iter().map(|r| r.guid.as_str()).collect();
    assert_eq!(ids, vec!["g1", "g2", "g3"]);
    ids.dedup();
    assert_eq!(ids.len(), 3);
}
