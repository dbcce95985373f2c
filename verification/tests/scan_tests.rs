use file_organizer::scan::{collect_files, list_folder, validate_path, EntryKind, ScanEntry};
use file_organizer::OrganizeError;

fn entry(name: &str, kind: EntryKind) -> ScanEntry {
    ScanEntry { name: name.to_string(), path: format!("/d/{}", name), kind }
}

#[test]
fn collect_keeps_matching_files() {
    let entries = vec![
        entry("a.pdf", EntryKind::File),
        entry("b.png", EntryKind::File),
        entry("c.pdf", EntryKind::File),
    ];
    let wl = vec![".pdf".to_string()];
    let out = collect_files(&entries, &wl);
    let names: Vec<&str> = out.iter().map(|f| f.name.as_str()).collect();
    assert_eq!(names, vec!["a.pdf", "c.pdf"]);
    assert_eq!(out[0].path, "/d/a.pdf");
}

#[test]
fn collect_matches_extension_case_insensitively() {
    let entries = vec![entry("report.PDF", EntryKind::File)];
    let wl = vec![".pdf".to_string()];
    let out = collect_files(&entries, &wl);
    assert_eq!(out.len(), 1);
    assert_eq!(out[0].name, "report.PDF");
}

#[test]
fn collect_never_keeps_files_without_extension() {
    let entries = vec![
        entry("README", EntryKind::File),
        entry("Makefile", EntryKind::File),
    ];
    let wl = vec![".pdf".to_string(), "README".to_string(), "".to_string()];
    let out = collect_files(&entries, &wl);
    assert!(out.is_empty());
}

#[test]
fn collect_skips_directories_and_unreadable_entries() {
    let entries = vec![
        entry("sub.pdf", EntryKind::Dir),
        entry("other.pdf", EntryKind::Other),
        entry("broken.pdf", EntryKind::Unknown),
        entry("kept.pdf", EntryKind::File),
    ];
    let wl = vec![".pdf".to_string()];
    let out = collect_files(&entries, &wl);
    assert_eq!(out.len(), 1);
    assert_eq!(out[0].name, "kept.pdf");
}

#[test]
fn collect_last_duplicate_wins() {
    let mut first = entry("same.pdf", EntryKind::File);
    first.path = "/d/one/same.pdf".to_string();
    let mut second = entry("same.pdf", EntryKind::File);
    second.path = "/d/two/same.pdf".to_string();
    let entries = vec![first, second];
    let wl = vec![".pdf".to_string()];
    let out = collect_files(&entries, &wl);
    assert_eq!(out.len(), 1);
    assert_eq!(out[0].path, "/d/two/same.pdf");
}

#[test]
fn validate_path_reports_missing_path() {
    match validate_path(false, false, "/nowhere") {
        Err(OrganizeError::PathNotFound { path }) => assert_eq!(path, "/nowhere"),
        other => panic!("expected PathNotFound, got {:?}", other),
    }
}

#[test]
fn validate_path_reports_non_directory() {
    match validate_path(true, false, "/a/file.txt") {
        Err(OrganizeError::NotADirectory { path }) => assert_eq!(path, "/a/file.txt"),
        other => panic!("expected NotADirectory, got {:?}", other),
    }
}

#[test]
fn validate_path_accepts_directory() {
    assert_eq!(validate_path(true, true, "/a/dir"), Ok(()));
}

#[test]
fn list_folder_returns_sorted_directories_only() {
    // a regular file, a directory, and a symlink to a directory: the caller
    // stats each entry, so the symlink arrives as a directory
    let entries = vec![
        entry("a.txt", EntryKind::File),
        entry("sub", EntryKind::Dir),
        entry("link", EntryKind::Dir),
    ];
    let out = list_folder("/d", true, true, &entries).unwrap();
    assert_eq!(out, vec!["link".to_string(), "sub".to_string()]);
}

#[test]
fn list_folder_skips_unreadable_entries() {
    let entries = vec![
        entry("ok", EntryKind::Dir),
        entry("broken", EntryKind::Unknown),
    ];
    let out = list_folder("/d", true, true, &entries).unwrap();
    assert_eq!(out, vec!["ok".to_string()]);
}

#[test]
fn list_folder_missing_path_fails() {
    match list_folder("/nope", false, false, &Vec::new()) {
        Err(OrganizeError::PathNotFound { path }) => assert_eq!(path, "/nope"),
        other => panic!("expected PathNotFound, got {:?}", other),
    }
}

#[test]
fn list_folder_non_directory_fails() {
    match list_folder("/a/file", true, false, &Vec::new()) {
        Err(OrganizeError::NotADirectory { path }) => assert_eq!(path, "/a/file"),
        other => panic!("expected NotADirectory, got {:?}", other),
    }
}
