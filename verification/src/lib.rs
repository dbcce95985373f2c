//! Organizes files from a source folder and a backup folder into
//! extension-named subfolders under a `move` directory.
//!
//! All decisions — path validation, extension filtering, base-name matching,
//! and the order of filesystem operations — are made by verified code in this
//! crate. The filesystem itself is driven by an unverified shell that performs
//! exactly the actions the [`organize::Organizer`] state machine emits and
//! feeds the outcomes back as events.

use vstd::prelude::*;

pub mod laws;
pub mod names;
pub mod organize;
pub mod picker;
pub mod scan;
pub mod strings;

verus! {

/// The outcome of one organizing run: which files were copied, which were
/// skipped (with a human-readable reason), and which extension folders were
/// newly created, each in processing order.
#[derive(Debug)]
pub struct OrganizeResult {
    pub moved_files: Vec<String>,
    pub skipped_files: Vec<String>,
    pub created_folders: Vec<String>,
}

/// A hard failure: the whole call is aborted and no result is returned.
#[derive(Clone, Debug, PartialEq, Eq)]
pub enum OrganizeError {
    /// The named path does not exist.
    PathNotFound { path: String },
    /// The named path exists but is not a directory.
    NotADirectory { path: String },
    /// The top-level `move` folder could not be created.
    IOError { path: String },
}

} // verus!
