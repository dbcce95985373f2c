//! The organizing run as a verified state machine.
//!
//! One [`Organizer`] value is one complete run of the file-organizing
//! operation. The machine holds every decision: path validation before any
//! mutation, the scan filters, the iteration over source files, the matching
//! of backup files by base name, and what each outcome appends to the
//! result. The caller owns the filesystem: it repeatedly asks
//! [`Organizer::next_action`] what to do, performs exactly that action, and
//! hands the outcome back through [`Organizer::step`], until
//! [`Organizer::is_finished`] holds and [`Organizer::into_result`] yields
//! the outcome.

use vstd::prelude::*;
use crate::names::spec_extension;
use crate::names::spec_base_name;
use crate::scan::ScanEntry;
use crate::scan::FileEntry;
use crate::scan::FileModel;
use crate::scan::entries_view;
use crate::scan::files_view;
use crate::scan::strs_view;
use crate::scan::spec_collect;
use crate::scan::collect_files;
use crate::OrganizeError;
use crate::OrganizeResult;

verus! {

/// Where the run stands: which event the machine waits for next.
#[derive(Clone, Copy, Debug, PartialEq, Eq, Structural)]
pub enum Phase {
    /// Waiting for the metadata of the source folder.
    StatSource,
    /// Waiting for the metadata of the backup folder.
    StatBackup,
    /// Waiting for the creation of the top-level `move` folder.
    MakeMoveDir,
    /// Waiting for the entries of the source folder.
    ScanSource,
    /// Waiting for the entries of the backup folder.
    ScanBackup,
    /// Waiting to hear whether the extension folder of the current source
    /// file already exists.
    CheckDir,
    /// Waiting for the creation of that extension folder.
    MakeExtDir,
    /// Waiting for the copy of the current source file.
    CopySource,
    /// Waiting for the copy of the current matching backup file.
    CopyBackup,
    /// The run is complete; a result is available.
    Done,
    /// The run was aborted by a hard failure; an error is available.
    Failed,
}

/// What the caller must do next.
#[derive(Debug)]
pub enum Action {
    /// Report whether `path` exists and whether it is a directory.
    Stat { path: String },
    /// Create the directory `path` (and any missing parent).
    MakeDir { path: String },
    /// List the immediate entries of the directory `path`.
    Scan { path: String },
    /// Report whether `path` exists.
    CheckDir { path: String },
    /// Copy the file `from` to `to`.
    Copy { from: String, to: String },
    /// Nothing is left to do: collect the result or the error.
    Report,
}

/// The outcome of one performed action.
#[derive(Debug)]
pub enum Event {
    /// Outcome of `Action::Stat`.
    Stat { exists: bool, is_dir: bool },
    /// Outcome of `Action::MakeDir`: whether creation succeeded.
    Made { ok: bool },
    /// Outcome of `Action::Scan`.
    Scanned { entries: Vec<ScanEntry> },
    /// Outcome of `Action::CheckDir`.
    Found { exists: bool },
    /// Outcome of `Action::Copy`: whether the copy succeeded.
    Copied { ok: bool },
}

/// Mathematical model of a hard failure.
pub enum ErrorModel {
    PathNotFound(Seq<char>),
    NotADirectory(Seq<char>),
    IOError(Seq<char>),
}

/// The view of an error value.
pub open spec fn err_view(e: OrganizeError) -> ErrorModel {
    match e {
        OrganizeError::PathNotFound { path } => ErrorModel::PathNotFound(path@),
        OrganizeError::NotADirectory { path } => ErrorModel::NotADirectory(path@),
        OrganizeError::IOError { path } => ErrorModel::IOError(path@),
    }
}

/// Mathematical model of a run.
#[verifier::ext_equal]
pub struct Model {
    pub main: Seq<char>,
    pub source_path: Seq<char>,
    pub backup_path: Seq<char>,
    pub source_exts: Seq<Seq<char>>,
    pub backup_exts: Seq<Seq<char>>,
    pub sources: Seq<FileModel>,
    pub backups: Seq<FileModel>,
    pub si: int,
    pub bi: int,
    pub phase: Phase,
    pub error: Option<ErrorModel>,
    pub moved: Seq<Seq<char>>,
    pub skipped: Seq<Seq<char>>,
    pub created: Seq<Seq<char>>,
}

/// One organizing run.
pub struct Organizer {
    main_folder: String,
    source_path: String,
    backup_path: String,
    source_extensions: Vec<String>,
    backup_extensions: Vec<String>,
    sources: Vec<FileEntry>,
    backups: Vec<FileEntry>,
    si: usize,
    bi: usize,
    phase: Phase,
    error: Option<OrganizeError>,
    moved_files: Vec<String>,
    skipped_files: Vec<String>,
    created_folders: Vec<String>,
}

impl View for Organizer {
    type V = Model;

    closed spec fn view(&self) -> Model {
        Model {
            main: self.main_folder@,
            source_path: self.source_path@,
            backup_path: self.backup_path@,
            source_exts: strs_view(self.source_extensions@),
            backup_exts: strs_view(self.backup_extensions@),
            sources: files_view(self.sources@),
            backups: files_view(self.backups@),
            si: self.si as int,
            bi: self.bi as int,
            phase: self.phase,
            error: match self.error {
                Some(e) => Some(err_view(e)),
                None => None,
            },
            moved: strs_view(self.moved_files@),
            skipped: strs_view(self.skipped_files@),
            created: strs_view(self.created_folders@),
        }
    }
}

/// The extension of the current source file (the machine only reads it in
/// phases where it exists).
pub open spec fn cur_ext(m: Model) -> Seq<char> {
    match spec_extension(m.sources[m.si].name) {
        Some(x) => x,
        None => Seq::empty(),
    }
}

/// A `moved_files` entry: the relative destination of a copied file.
pub open spec fn moved_entry(ext: Seq<char>, name: Seq<char>) -> Seq<char> {
    "move/"@ + ext + "/"@ + name
}

/// A `created_folders` entry.
pub open spec fn created_entry(ext: Seq<char>) -> Seq<char> {
    "move/"@ + ext
}

/// The skip note for a failed extension-folder creation.
pub open spec fn skip_mkdir(ext: Seq<char>) -> Seq<char> {
    "cannot create folder "@ + ext
}

/// The skip note for a failed source-file copy.
pub open spec fn skip_copy(name: Seq<char>) -> Seq<char> {
    "cannot copy file: "@ + name
}

/// The skip note for a failed backup-file copy.
pub open spec fn skip_copy_backup(name: Seq<char>) -> Seq<char> {
    "cannot copy backup file: "@ + name
}

/// The first index at or after `i` of a source file that has an extension,
/// or the length when none is left. A kept file always has one; files
/// without one are skipped defensively, with no report.
pub open spec fn next_file_index(sources: Seq<FileModel>, i: int) -> int
    decreases sources.len() - i,
{
    if i >= sources.len() {
        sources.len() as int
    } else if spec_extension(sources[i].name) is Some {
        i
    } else {
        next_file_index(sources, i + 1)
    }
}

/// The machine after moving on to the source file at or after `i`: at the
/// next file with an extension, or done.
pub open spec fn spec_enter_file(m: Model, i: int) -> Model {
    let n = next_file_index(m.sources, i);
    if n >= m.sources.len() {
        Model { si: n, phase: Phase::Done, ..m }
    } else {
        Model { si: n, phase: Phase::CheckDir, ..m }
    }
}

/// The first index at or after `j` of a backup file whose base name is
/// `base`, or the length when none is left.
pub open spec fn next_backup_index(backups: Seq<FileModel>, base: Seq<char>, j: int) -> int
    decreases backups.len() - j,
{
    if j >= backups.len() {
        backups.len() as int
    } else if spec_base_name(backups[j].name) == base {
        j
    } else {
        next_backup_index(backups, base, j + 1)
    }
}

/// The machine after moving on to the backup file at or after `j` matching
/// the current source file, or to the next source file when none is left.
pub open spec fn spec_enter_backup(m: Model, j: int) -> Model {
    let n = next_backup_index(m.backups, spec_base_name(m.sources[m.si].name), j);
    if n >= m.backups.len() {
        spec_enter_file(m, m.si + 1)
    } else {
        Model { bi: n, phase: Phase::CopyBackup, ..m }
    }
}

/// A model that has failed hard.
pub open spec fn spec_fail(m: Model, e: ErrorModel) -> Model {
    Model { phase: Phase::Failed, error: Some(e), ..m }
}

/// Whether the event answers the action the machine waits for.
pub open spec fn spec_expects(m: Model, ev: Event) -> bool {
    match m.phase {
        Phase::StatSource => ev is Stat,
        Phase::StatBackup => ev is Stat,
        Phase::MakeMoveDir => ev is Made,
        Phase::ScanSource => ev is Scanned,
        Phase::ScanBackup => ev is Scanned,
        Phase::CheckDir => ev is Found,
        Phase::MakeExtDir => ev is Made,
        Phase::CopySource => ev is Copied,
        Phase::CopyBackup => ev is Copied,
        Phase::Done => false,
        Phase::Failed => false,
    }
}

/// How one event advances the machine. An event that does not answer the
/// awaited action leaves the machine unchanged.
pub open spec fn spec_step(m: Model, ev: Event) -> Model {
    match (m.phase, ev) {
        (Phase::StatSource, Event::Stat { exists, is_dir }) => {
            if !exists {
                spec_fail(m, ErrorModel::PathNotFound(m.source_path))
            } else if !is_dir {
                spec_fail(m, ErrorModel::NotADirectory(m.source_path))
            } else {
                Model { phase: Phase::StatBackup, ..m }
            }
        },
        (Phase::StatBackup, Event::Stat { exists, is_dir }) => {
            if !exists {
                spec_fail(m, ErrorModel::PathNotFound(m.backup_path))
            } else if !is_dir {
                spec_fail(m, ErrorModel::NotADirectory(m.backup_path))
            } else {
                Model { phase: Phase::MakeMoveDir, ..m }
            }
        },
        (Phase::MakeMoveDir, Event::Made { ok }) => {
            if ok {
                Model { phase: Phase::ScanSource, ..m }
            } else {
                spec_fail(m, ErrorModel::IOError(m.main + "/move"@))
            }
        },
        (Phase::ScanSource, Event::Scanned { entries }) => {
            Model {
                sources: spec_collect(entries_view(entries@), m.source_exts),
                phase: Phase::ScanBackup,
                ..m
            }
        },
        (Phase::ScanBackup, Event::Scanned { entries }) => {
            let m2 = Model {
                backups: spec_collect(entries_view(entries@), m.backup_exts),
                ..m
            };
            spec_enter_file(m2, 0)
        },
        (Phase::CheckDir, Event::Found { exists }) => {
            if exists {
                Model { phase: Phase::CopySource, ..m }
            } else {
                Model { phase: Phase::MakeExtDir, ..m }
            }
        },
        (Phase::MakeExtDir, Event::Made { ok }) => {
            if ok {
                Model {
                    created: m.created.push(created_entry(cur_ext(m))),
                    phase: Phase::CopySource,
                    ..m
                }
            } else {
                // the whole source file is abandoned: neither it nor its
                // matching backup files are copied
                let m2 = Model { skipped: m.skipped.push(skip_mkdir(cur_ext(m))), ..m };
                spec_enter_file(m2, m.si + 1)
            }
        },
        (Phase::CopySource, Event::Copied { ok }) => {
            let name = m.sources[m.si].name;
            let m2 = if ok {
                Model { moved: m.moved.push(moved_entry(cur_ext(m), name)), ..m }
            } else {
                Model { skipped: m.skipped.push(skip_copy(name)), ..m }
            };
            spec_enter_backup(m2, 0)
        },
        (Phase::CopyBackup, Event::Copied { ok }) => {
            let name = m.backups[m.bi].name;
            let m2 = if ok {
                Model { moved: m.moved.push(moved_entry(cur_ext(m), name)), ..m }
            } else {
                Model { skipped: m.skipped.push(skip_copy_backup(name)), ..m }
            };
            spec_enter_backup(m2, m.bi + 1)
        },
        _ => m,
    }
}

/// The machine's invariant: indices in range, and in the copying phases the
/// current source file exists, has an extension, and — while copying
/// backups — the current backup file matches it by base name.
pub open spec fn wf(m: Model) -> bool {
    &&& 0 <= m.si <= m.sources.len()
    &&& (m.phase is StatSource || m.phase is StatBackup || m.phase is MakeMoveDir
        || m.phase is ScanSource || m.phase is ScanBackup) ==> m.si == 0
    &&& (m.phase is CheckDir || m.phase is MakeExtDir || m.phase is CopySource
        || m.phase is CopyBackup) ==> (m.si < m.sources.len() && spec_extension(
        m.sources[m.si].name,
    ) is Some)
    &&& m.phase is CopyBackup ==> (0 <= m.bi < m.backups.len() && spec_base_name(
        m.backups[m.bi].name,
    ) == spec_base_name(m.sources[m.si].name))
    &&& (m.phase is Failed <==> m.error is Some)
}

/// What `next_file_index` returns: the first index at or after `i` bearing
/// an extension.
pub proof fn lemma_next_file_index(sources: Seq<FileModel>, i: int)
    requires
        0 <= i <= sources.len(),
    ensures
        i <= next_file_index(sources, i) <= sources.len(),
        next_file_index(sources, i) < sources.len() ==> spec_extension(
            sources[next_file_index(sources, i)].name,
        ) is Some,
    decreases sources.len() - i,
{
    if i >= sources.len() {
    } else if spec_extension(sources[i].name) is Some {
    } else {
        lemma_next_file_index(sources, i + 1);
    }
}

/// What `next_backup_index` returns: the first index at or after `j` whose
/// base name is `base`.
pub proof fn lemma_next_backup_index(backups: Seq<FileModel>, base: Seq<char>, j: int)
    requires
        0 <= j <= backups.len(),
    ensures
        j <= next_backup_index(backups, base, j) <= backups.len(),
        next_backup_index(backups, base, j) < backups.len() ==> spec_base_name(
            backups[next_backup_index(backups, base, j)].name,
        ) == base,
    decreases backups.len() - j,
{
    if j >= backups.len() {
    } else if spec_base_name(backups[j].name) == base {
    } else {
        lemma_next_backup_index(backups, base, j + 1);
    }
}

/// Entering a file preserves the invariant.
pub proof fn lemma_enter_file_wf(m: Model, i: int)
    requires
        0 <= i <= m.sources.len(),
        m.phase is Failed <==> m.error is Some,
        !(m.phase is Failed),
    ensures
        wf(spec_enter_file(m, i)),
        !(spec_enter_file(m, i).phase is Failed),
{
    lemma_next_file_index(m.sources, i);
}

/// Entering a backup preserves the invariant.
pub proof fn lemma_enter_backup_wf(m: Model, j: int)
    requires
        0 <= j <= m.backups.len(),
        wf(m),
        m.si < m.sources.len(),
        spec_extension(m.sources[m.si].name) is Some,
        !(m.phase is Failed),
    ensures
        wf(spec_enter_backup(m, j)),
        !(spec_enter_backup(m, j).phase is Failed),
{
    lemma_next_backup_index(m.backups, spec_base_name(m.sources[m.si].name), j);
    let n = next_backup_index(m.backups, spec_base_name(m.sources[m.si].name), j);
    if n >= m.backups.len() {
        lemma_enter_file_wf(m, m.si + 1);
    }
}

/// One step preserves the invariant.
pub proof fn lemma_step_wf(m: Model, ev: Event)
    requires
        wf(m),
    ensures
        wf(spec_step(m, ev)),
{
    match (m.phase, ev) {
        (Phase::ScanBackup, Event::Scanned { entries }) => {
            let m2 = Model {
                backups: spec_collect(entries_view(entries@), m.backup_exts),
                ..m
            };
            lemma_enter_file_wf(m2, 0);
        },
        (Phase::MakeExtDir, Event::Made { ok }) => {
            if !ok {
                let m2 = Model { skipped: m.skipped.push(skip_mkdir(cur_ext(m))), ..m };
                lemma_enter_file_wf(m2, m.si + 1);
            }
        },
        (Phase::CopySource, Event::Copied { ok }) => {
            let name = m.sources[m.si].name;
            let m2 = if ok {
                Model { moved: m.moved.push(moved_entry(cur_ext(m), name)), ..m }
            } else {
                Model { skipped: m.skipped.push(skip_copy(name)), ..m }
            };
            lemma_enter_backup_wf(m2, 0);
        },
        (Phase::CopyBackup, Event::Copied { ok }) => {
            let name = m.backups[m.bi].name;
            let m2 = if ok {
                Model { moved: m.moved.push(moved_entry(cur_ext(m), name)), ..m }
            } else {
                Model { skipped: m.skipped.push(skip_copy_backup(name)), ..m }
            };
            lemma_enter_backup_wf(m2, m.bi + 1);
        },
        _ => {},
    }
}

/// Returns the first source index at or after `start` whose file name has
/// an extension, or the length.
fn find_next_file(sources: &Vec<FileEntry>, start: usize) -> (r: usize)
    requires
        start <= sources@.len(),
    ensures
        r == next_file_index(files_view(sources@), start as int),
        start as int <= r <= sources@.len(),
{
    let ghost v = files_view(sources@);
    let mut i: usize = start;
    while i < sources.len()
        invariant
            start <= i,
            i <= sources.len(),
            v == files_view(sources@),
            next_file_index(v, start as int) == next_file_index(v, i as int),
        decreases sources.len() - i,
    {
        match crate::names::find_last_dot(sources[i].name.as_str()) {
            Some(_) => {
                return i;
            },
            None => {},
        }
        i = i + 1;
    }
    i
}

/// Returns the first backup index at or after `start` whose base name
/// equals that of `src_name`, or the length.
fn find_next_backup(backups: &Vec<FileEntry>, src_name: &str, start: usize) -> (r: usize)
    requires
        start <= backups@.len(),
    ensures
        r == next_backup_index(files_view(backups@), spec_base_name(src_name@), start as int),
        start as int <= r <= backups@.len(),
{
    let ghost v = files_view(backups@);
    let ghost base = spec_base_name(src_name@);
    let mut j: usize = start;
    while j < backups.len()
        invariant
            start <= j,
            j <= backups.len(),
            v == files_view(backups@),
            base == spec_base_name(src_name@),
            next_backup_index(v, base, start as int) == next_backup_index(v, base, j as int),
        decreases backups.len() - j,
    {
        if crate::names::name_matches(backups[j].name.as_str(), src_name) {
            return j;
        }
        j = j + 1;
    }
    j
}

impl Organizer {
    /// Begins a run: the source and backup folders are resolved as
    /// `main_folder/<name>`, and the machine first asks for their metadata,
    /// so that nothing is created before both are validated.
    pub fn new(
        main_folder: String,
        source_folder: String,
        backup_folder: String,
        source_extensions: Vec<String>,
        backup_extensions: Vec<String>,
    ) -> (r: Organizer)
        ensures
            r@.phase is StatSource,
            r@.main == main_folder@,
            r@.source_path == main_folder@ + "/"@ + source_folder@,
            r@.backup_path == main_folder@ + "/"@ + backup_folder@,
            r@.source_exts == strs_view(source_extensions@),
            r@.backup_exts == strs_view(backup_extensions@),
            r@.sources.len() == 0,
            r@.backups.len() == 0,
            r@.moved.len() == 0,
            r@.skipped.len() == 0,
            r@.created.len() == 0,
            r@.error is None,
            wf(r@),
    {
        let source_path = crate::strings::concat3(main_folder.as_str(), "/", source_folder.as_str());
        let backup_path = crate::strings::concat3(main_folder.as_str(), "/", backup_folder.as_str());
        let r = Organizer {
            main_folder,
            source_path,
            backup_path,
            source_extensions,
            backup_extensions,
            sources: Vec::new(),
            backups: Vec::new(),
            si: 0,
            bi: 0,
            phase: Phase::StatSource,
            error: None,
            moved_files: Vec::new(),
            skipped_files: Vec::new(),
            created_folders: Vec::new(),
        };
        proof {
            assert(files_view(r.sources@) =~= Seq::<FileModel>::empty());
            assert(files_view(r.backups@) =~= Seq::<FileModel>::empty());
            assert(strs_view(r.moved_files@) =~= Seq::<Seq<char>>::empty());
            assert(strs_view(r.skipped_files@) =~= Seq::<Seq<char>>::empty());
            assert(strs_view(r.created_folders@) =~= Seq::<Seq<char>>::empty());
        }
        r
    }

    /// Whether the run has ended, in success or in failure.
    pub fn is_finished(&self) -> (b: bool)
        ensures
            b == (self@.phase is Done || self@.phase is Failed),
    {
        match self.phase {
            Phase::Done => true,
            Phase::Failed => true,
            _ => false,
        }
    }

    /// The extension of the current source file, as an owned string.
    fn current_ext(&self) -> (r: String)
        requires
            0 <= self@.si < self@.sources.len(),
            spec_extension(self@.sources[self@.si].name) is Some,
        ensures
            r@ == cur_ext(self@),
    {
        match crate::names::extract_extension(self.sources[self.si].name.as_str()) {
            Some(x) => x,
            None => {
                proof {
                    assert(false);
                }
                String::new()
            },
        }
    }

    /// What the caller must do next. The machine asks for nothing that
    /// mutates the filesystem before both folders are validated, and the
    /// only directories it ever asks to create are `move` and its
    /// extension subfolders.
    pub fn next_action(&self) -> (a: Action)
        requires
            wf(self@),
        ensures
            self@.phase is StatSource ==> (a matches Action::Stat { path } && path@
                == self@.source_path),
            self@.phase is StatBackup ==> (a matches Action::Stat { path } && path@
                == self@.backup_path),
            self@.phase is MakeMoveDir ==> (a matches Action::MakeDir { path } && path@
                == self@.main + "/move"@),
            self@.phase is ScanSource ==> (a matches Action::Scan { path } && path@
                == self@.source_path),
            self@.phase is ScanBackup ==> (a matches Action::Scan { path } && path@
                == self@.backup_path),
            self@.phase is CheckDir ==> (a matches Action::CheckDir { path } && path@
                == self@.main + "/move/"@ + cur_ext(self@)),
            self@.phase is MakeExtDir ==> (a matches Action::MakeDir { path } && path@
                == self@.main + "/move/"@ + cur_ext(self@)),
            self@.phase is CopySource ==> (a matches Action::Copy { from, to } && from@
                == self@.sources[self@.si].path && to@ == self@.main + "/move/"@ + cur_ext(self@)
                + "/"@ + self@.sources[self@.si].name),
            self@.phase is CopyBackup ==> (a matches Action::Copy { from, to } && from@
                == self@.backups[self@.bi].path && to@ == self@.main + "/move/"@ + cur_ext(self@)
                + "/"@ + self@.backups[self@.bi].name),
            (self@.phase is Done || self@.phase is Failed) ==> a is Report,
    {
        match self.phase {
            Phase::StatSource => Action::Stat { path: self.source_path.clone() },
            Phase::StatBackup => Action::Stat { path: self.backup_path.clone() },
            Phase::MakeMoveDir => Action::MakeDir {
                path: crate::strings::concat2(self.main_folder.as_str(), "/move"),
            },
            Phase::ScanSource => Action::Scan { path: self.source_path.clone() },
            Phase::ScanBackup => Action::Scan { path: self.backup_path.clone() },
            Phase::CheckDir => {
                let ext = self.current_ext();
                Action::CheckDir {
                    path: crate::strings::concat3(self.main_folder.as_str(), "/move/", ext.as_str()),
                }
            },
            Phase::MakeExtDir => {
                let ext = self.current_ext();
                Action::MakeDir {
                    path: crate::strings::concat3(self.main_folder.as_str(), "/move/", ext.as_str()),
                }
            },
            Phase::CopySource => {
                let ext = self.current_ext();
                Action::Copy {
                    from: self.sources[self.si].path.clone(),
                    to: crate::strings::concat5(
                        self.main_folder.as_str(),
                        "/move/",
                        ext.as_str(),
                        "/",
                        self.sources[self.si].name.as_str(),
                    ),
                }
            },
            Phase::CopyBackup => {
                let ext = self.current_ext();
                Action::Copy {
                    from: self.backups[self.bi].path.clone(),
                    to: crate::strings::concat5(
                        self.main_folder.as_str(),
                        "/move/",
                        ext.as_str(),
                        "/",
                        self.backups[self.bi].name.as_str(),
                    ),
                }
            },
            Phase::Done => Action::Report,
            Phase::Failed => Action::Report,
        }
    }

    /// Consumes the outcome of the action the machine asked for, and
    /// advances exactly as [`spec_step`] describes.
    pub fn step(&mut self, ev: Event)
        requires
            wf(old(self)@),
            spec_expects(old(self)@, ev),
        ensures
            final(self)@ == spec_step(old(self)@, ev),
            wf(final(self)@),
    {
        proof {
            lemma_step_wf(self@, ev);
        }
        match self.phase {
            Phase::StatSource => {
                match ev {
                    Event::Stat { exists, is_dir } => {
                        if !exists {
                            self.error = Some(
                                OrganizeError::PathNotFound { path: self.source_path.clone() },
                            );
                            self.phase = Phase::Failed;
                        } else if !is_dir {
                            self.error = Some(
                                OrganizeError::NotADirectory { path: self.source_path.clone() },
                            );
                            self.phase = Phase::Failed;
                        } else {
                            self.phase = Phase::StatBackup;
                        }
                    },
                    _ => {},
                }
            },
            Phase::StatBackup => {
                match ev {
                    Event::Stat { exists, is_dir } => {
                        if !exists {
                            self.error = Some(
                                OrganizeError::PathNotFound { path: self.backup_path.clone() },
                            );
                            self.phase = Phase::Failed;
                        } else if !is_dir {
                            self.error = Some(
                                OrganizeError::NotADirectory { path: self.backup_path.clone() },
                            );
                            self.phase = Phase::Failed;
                        } else {
                            self.phase = Phase::MakeMoveDir;
                        }
                    },
                    _ => {},
                }
            },
            Phase::MakeMoveDir => {
                match ev {
                    Event::Made { ok } => {
                        if ok {
                            self.phase = Phase::ScanSource;
                        } else {
                            self.error = Some(
                                OrganizeError::IOError {
                                    path: crate::strings::concat2(
                                        self.main_folder.as_str(),
                                        "/move",
                                    ),
                                },
                            );
                            self.phase = Phase::Failed;
                        }
                    },
                    _ => {},
                }
            },
            Phase::ScanSource => {
                match ev {
                    Event::Scanned { entries } => {
                        self.sources = collect_files(&entries, &self.source_extensions);
                        self.phase = Phase::ScanBackup;
                    },
                    _ => {},
                }
            },
            Phase::ScanBackup => {
                match ev {
                    Event::Scanned { entries } => {
                        self.backups = collect_files(&entries, &self.backup_extensions);
                        let n = find_next_file(&self.sources, 0);
                        self.si = n;
                        if n < self.sources.len() {
                            self.phase = Phase::CheckDir;
                        } else {
                            self.phase = Phase::Done;
                        }
                    },
                    _ => {},
                }
            },
            Phase::CheckDir => {
                match ev {
                    Event::Found { exists } => {
                        if exists {
                            self.phase = Phase::CopySource;
                        } else {
                            self.phase = Phase::MakeExtDir;
                        }
                    },
                    _ => {},
                }
            },
            Phase::MakeExtDir => {
                match ev {
                    Event::Made { ok } => {
                        let ext = self.current_ext();
                        if ok {
                            self.created_folders.push(
                                crate::strings::concat2("move/", ext.as_str()),
                            );
                            self.phase = Phase::CopySource;
                        } else {
                            self.skipped_files.push(
                                crate::strings::concat2("cannot create folder ", ext.as_str()),
                            );
                            let len = self.sources.len();
                            proof {
                                assert(self.si < len);
                            }
                            let n = find_next_file(&self.sources, self.si + 1);
                            self.si = n;
                            if n < self.sources.len() {
                                self.phase = Phase::CheckDir;
                            } else {
                                self.phase = Phase::Done;
                            }
                        }
                    },
                    _ => {},
                }
            },
            Phase::CopySource => {
                match ev {
                    Event::Copied { ok } => {
                        let ext = self.current_ext();
                        let name = self.sources[self.si].name.clone();
                        if ok {
                            self.moved_files.push(
                                crate::strings::concat4("move/", ext.as_str(), "/", name.as_str()),
                            );
                        } else {
                            self.skipped_files.push(
                                crate::strings::concat2("cannot copy file: ", name.as_str()),
                            );
                        }
                        let len = self.sources.len();
                        proof {
                            assert(self.si < len);
                        }
                        let n = find_next_backup(&self.backups, name.as_str(), 0);
                        if n < self.backups.len() {
                            self.bi = n;
                            self.phase = Phase::CopyBackup;
                        } else {
                            let f = find_next_file(&self.sources, self.si + 1);
                            self.si = f;
                            if f < self.sources.len() {
                                self.phase = Phase::CheckDir;
                            } else {
                                self.phase = Phase::Done;
                            }
                        }
                    },
                    _ => {},
                }
            },
            Phase::CopyBackup => {
                match ev {
                    Event::Copied { ok } => {
                        let ext = self.current_ext();
                        let name = self.backups[self.bi].name.clone();
                        if ok {
                            self.moved_files.push(
                                crate::strings::concat4("move/", ext.as_str(), "/", name.as_str()),
                            );
                        } else {
                            self.skipped_files.push(
                                crate::strings::concat2(
                                    "cannot copy backup file: ",
                                    name.as_str(),
                                ),
                            );
                        }
                        let src_name = self.sources[self.si].name.clone();
                        let slen = self.sources.len();
                        let blen = self.backups.len();
                        proof {
                            assert(self.si < slen);
                            assert(self.bi < blen);
                        }
                        let n = find_next_backup(&self.backups, src_name.as_str(), self.bi + 1);
                        if n < self.backups.len() {
                            self.bi = n;
                            self.phase = Phase::CopyBackup;
                        } else {
                            let f = find_next_file(&self.sources, self.si + 1);
                            self.si = f;
                            if f < self.sources.len() {
                                self.phase = Phase::CheckDir;
                            } else {
                                self.phase = Phase::Done;
                            }
                        }
                    },
                    _ => {},
                }
            },
            Phase::Done => {},
            Phase::Failed => {},
        }
        proof {
            assert(self@ =~= spec_step(old(self)@, ev));
        }
    }

    /// Ends the run: the accumulated result on success, the hard failure
    /// otherwise.
    pub fn into_result(self) -> (r: Result<OrganizeResult, OrganizeError>)
        requires
            self@.phase is Done || self@.phase is Failed,
            wf(self@),
        ensures
            self@.phase is Done ==> (r matches Ok(res) && strs_view(res.moved_files@)
                == self@.moved && strs_view(res.skipped_files@) == self@.skipped && strs_view(
                res.created_folders@,
            ) == self@.created),
            self@.phase is Failed ==> (r matches Err(e) && Some(err_view(e)) == self@.error),
    {
        let Organizer { moved_files, skipped_files, created_folders, error, phase, .. } = self;
        match phase {
            Phase::Failed => {
                match error {
                    Some(e) => Err(e),
                    None => {
                        proof {
                            assert(false);
                        }
                        Err(OrganizeError::IOError { path: String::new() })
                    },
                }
            },
            _ => Ok(OrganizeResult { moved_files, skipped_files, created_folders }),
        }
    }
}

} // verus!
