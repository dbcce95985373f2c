use file_organizer::organize::{Action, Event, Organizer};
use file_organizer::scan::{EntryKind, ScanEntry};
use file_organizer::{OrganizeError, OrganizeResult};

/// A small in-memory stand-in for the filesystem, answering the machine's
/// actions the way the real shell would.
struct FakeFs {
    src_stat: (bool, bool),
    bak_stat: (bool, bool),
    move_ok: bool,
    src_entries: Vec<ScanEntry>,
    bak_entries: Vec<ScanEntry>,
    existing_dirs: Vec<String>,
    mkdir_fail: Vec<String>,
    copy_fail: Vec<String>,
    performed_mkdirs: Vec<String>,
    performed_copies: Vec<(String, String)>,
}

impl FakeFs {
    fn new(src_entries: Vec<ScanEntry>, bak_entries: Vec<ScanEntry>) -> FakeFs {
        FakeFs {
            src_stat: (true, true),
            bak_stat: (true, true),
            move_ok: true,
            src_entries,
            bak_entries,
            existing_dirs: Vec::new(),
            mkdir_fail: Vec::new(),
            copy_fail: Vec::new(),
            performed_mkdirs: Vec::new(),
            performed_copies: Vec::new(),
        }
    }

    fn run(&mut self, mut org: Organizer) -> Result<OrganizeResult, OrganizeError> {
        while !org.is_finished() {
            let ev = match org.next_action() {
                Action::Stat { path } => {
                    let (exists, is_dir) = if path.ends_with("/src") {
                        self.src_stat
                    } else {
                        self.bak_stat
                    };
                    Event::Stat { exists, is_dir }
                }
                Action::MakeDir { path } => {
                    if self.mkdir_fail.iter().any(|p| *p == path) {
                        Event::Made { ok: false }
                    } else if path.ends_with("/move") {
                        self.performed_mkdirs.push(path);
                        Event::Made { ok: self.move_ok }
                    } else {
                        self.performed_mkdirs.push(path.clone());
                        self.existing_dirs.push(path);
                        Event::Made { ok: true }
                    }
                }
                Action::Scan { path } => {
                    let entries = if path.ends_with("/src") {
                        self.src_entries.clone()
                    } else {
                        self.bak_entries.clone()
                    };
                    Event::Scanned { entries }
                }
                Action::CheckDir { path } => Event::Found {
                    exists: self.existing_dirs.iter().any(|p| *p == path),
                },
                Action::Copy { from, to } => {
                    if self.copy_fail.iter().any(|p| *p == from) {
                        Event::Copied { ok: false }
                    } else {
                        self.performed_copies.push((from, to));
                        Event::Copied { ok: true }
                    }
                }
                Action::Report => unreachable!("finished machines report"),
            };
            org.step(ev);
        }
        org.into_result()
    }
}

fn file(dir: &str, name: &str) -> ScanEntry {
    ScanEntry {
        name: name.to_string(),
        path: format!("{}/{}", dir, name),
        kind: EntryKind::File,
    }
}

fn organizer(src_exts: &[&str], bak_exts: &[&str]) -> Organizer {
    Organizer::new(
        "/root".to_string(),
        "src".to_string(),
        "bak".to_string(),
        src_exts.iter().map(|s| s.to_string()).collect(),
        bak_exts.iter().map(|s| s.to_string()).collect(),
    )
}

#[test]
fn moves_source_and_matching_backup() {
    let mut fs = FakeFs::new(
        vec![file("/root/src", "x.pdf")],
        vec![file("/root/bak", "x.png")],
    );
    let res = fs.run(organizer(&[".pdf"], &[".png"])).unwrap();
    assert_eq!(res.moved_files, vec!["move/.pdf/x.pdf", "move/.pdf/x.png"]);
    assert_eq!(res.created_folders, vec!["move/.pdf"]);
    assert!(res.skipped_files.is_empty());
    assert_eq!(
        fs.performed_copies,
        vec![
            (
                "/root/src/x.pdf".to_string(),
                "/root/move/.pdf/x.pdf".to_string()
            ),
            (
                "/root/bak/x.png".to_string(),
                "/root/move/.pdf/x.png".to_string()
            ),
        ]
    );
}

#[test]
fn missing_source_folder_aborts_before_any_mutation() {
    let mut fs = FakeFs::new(Vec::new(), Vec::new());
    fs.src_stat = (false, false);
    let err = fs.run(organizer(&[".pdf"], &[".png"])).unwrap_err();
    assert_eq!(
        err,
        OrganizeError::PathNotFound {
            path: "/root/src".to_string()
        }
    );
    assert!(fs.performed_mkdirs.is_empty());
    assert!(fs.performed_copies.is_empty());
}

#[test]
fn backup_folder_not_a_directory_aborts() {
    let mut fs = FakeFs::new(Vec::new(), Vec::new());
    fs.bak_stat = (true, false);
    let err = fs.run(organizer(&[".pdf"], &[".png"])).unwrap_err();
    assert_eq!(
        err,
        OrganizeError::NotADirectory {
            path: "/root/bak".to_string()
        }
    );
    assert!(fs.performed_mkdirs.is_empty());
}

#[test]
fn move_folder_creation_failure_aborts() {
    let mut fs = FakeFs::new(vec![file("/root/src", "x.pdf")], Vec::new());
    fs.move_ok = false;
    let err = fs.run(organizer(&[".pdf"], &[".png"])).unwrap_err();
    assert_eq!(
        err,
        OrganizeError::IOError {
            path: "/root/move".to_string()
        }
    );
    assert!(fs.performed_copies.is_empty());
}

#[test]
fn upper_case_file_matches_lower_case_whitelist() {
    let mut fs = FakeFs::new(vec![file("/root/src", "report.PDF")], Vec::new());
    let res = fs.run(organizer(&[".pdf"], &[])).unwrap();
    assert_eq!(res.moved_files, vec!["move/.pdf/report.PDF"]);
    assert_eq!(res.created_folders, vec!["move/.pdf"]);
}

#[test]
fn backup_matches_by_base_name_despite_extension() {
    let mut fs = FakeFs::new(
        vec![file("/root/src", "invoice.pdf")],
        vec![
            file("/root/bak", "invoice.docx"),
            file("/root/bak", "other.docx"),
        ],
    );
    let res = fs.run(organizer(&[".pdf"], &[".docx"])).unwrap();
    assert_eq!(
        res.moved_files,
        vec!["move/.pdf/invoice.pdf", "move/.pdf/invoice.docx"]
    );
}

#[test]
fn one_source_may_match_several_backups() {
    let mut fs = FakeFs::new(
        vec![file("/root/src", "x.pdf")],
        vec![
            file("/root/bak", "x.png"),
            file("/root/bak", "x.jpg"),
            file("/root/bak", "y.png"),
        ],
    );
    let res = fs.run(organizer(&[".pdf"], &[".png", ".jpg"])).unwrap();
    assert_eq!(
        res.moved_files,
        vec!["move/.pdf/x.pdf", "move/.pdf/x.png", "move/.pdf/x.jpg"]
    );
}

#[test]
fn files_without_extension_are_ignored() {
    let mut fs = FakeFs::new(
        vec![file("/root/src", "README"), file("/root/src", "x.pdf")],
        vec![file("/root/bak", "NOTES")],
    );
    let res = fs.run(organizer(&[".pdf", "README"], &["NOTES"])).unwrap();
    assert_eq!(res.moved_files, vec!["move/.pdf/x.pdf"]);
    assert!(res.skipped_files.is_empty());
}

#[test]
fn extension_folder_failure_abandons_the_file() {
    let mut fs = FakeFs::new(
        vec![file("/root/src", "a.pdf"), file("/root/src", "b.txt")],
        vec![file("/root/bak", "a.png")],
    );
    fs.mkdir_fail.push("/root/move/.pdf".to_string());
    let res = fs.run(organizer(&[".pdf", ".txt"], &[".png"])).unwrap();
    // exactly one skip note for the abandoned file, none of its copies
    // attempted, and the other file still processed
    assert_eq!(res.skipped_files, vec!["cannot create folder .pdf"]);
    assert_eq!(res.moved_files, vec!["move/.txt/b.txt"]);
    assert_eq!(res.created_folders, vec!["move/.txt"]);
    assert!(fs
        .performed_copies
        .iter()
        .all(|(from, _)| !from.contains("a.p")));
}

#[test]
fn failed_source_copy_still_copies_backups() {
    let mut fs = FakeFs::new(
        vec![file("/root/src", "x.pdf")],
        vec![file("/root/bak", "x.png")],
    );
    fs.copy_fail.push("/root/src/x.pdf".to_string());
    let res = fs.run(organizer(&[".pdf"], &[".png"])).unwrap();
    assert_eq!(res.skipped_files, vec!["cannot copy file: x.pdf"]);
    assert_eq!(res.moved_files, vec!["move/.pdf/x.png"]);
}

#[test]
fn failed_backup_copy_is_reported_and_run_continues() {
    let mut fs = FakeFs::new(
        vec![file("/root/src", "x.pdf")],
        vec![file("/root/bak", "x.png"), file("/root/bak", "x.jpg")],
    );
    fs.copy_fail.push("/root/bak/x.png".to_string());
    let res = fs.run(organizer(&[".pdf"], &[".png", ".jpg"])).unwrap();
    assert_eq!(res.skipped_files, vec!["cannot copy backup file: x.png"]);
    assert_eq!(res.moved_files, vec!["move/.pdf/x.pdf", "move/.pdf/x.jpg"]);
}

#[test]
fn second_run_over_unchanged_folders_creates_nothing_and_moves_the_same() {
    let src = vec![file("/root/src", "a.pdf"), file("/root/src", "b.PDF")];
    let bak = vec![file("/root/bak", "a.docx")];
    let mut first = FakeFs::new(src.clone(), bak.clone());
    let res1 = first.run(organizer(&[".pdf"], &[".docx"])).unwrap();
    // second run: the extension folders made by the first run now exist
    let mut second = FakeFs::new(src, bak);
    second.existing_dirs = first.existing_dirs.clone();
    let res2 = second.run(organizer(&[".pdf"], &[".docx"])).unwrap();
    assert_eq!(res1.moved_files, res2.moved_files);
    assert_eq!(res1.created_folders, vec!["move/.pdf"]);
    assert!(res2.created_folders.is_empty());
    assert!(res1.skipped_files.is_empty() && res2.skipped_files.is_empty());
}

#[test]
fn duplicate_source_names_keep_the_last_scanned_path() {
    let mut a = file("/root/src", "same.pdf");
    a.path = "/root/src/one/same.pdf".to_string();
    let mut b = file("/root/src", "same.pdf");
    b.path = "/root/src/two/same.pdf".to_string();
    let mut fs = FakeFs::new(vec![a, b], Vec::new());
    let res = fs.run(organizer(&[".pdf"], &[])).unwrap();
    assert_eq!(res.moved_files, vec!["move/.pdf/same.pdf"]);
    assert_eq!(
        fs.performed_copies,
        vec![(
            "/root/src/two/same.pdf".to_string(),
            "/root/move/.pdf/same.pdf".to_string()
        )]
    );
}
