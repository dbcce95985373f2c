//! The folder-picker operation: turning what the native dialog reported
//! into the operation's result. The dialog itself is the caller's; this
//! decision is verified.

use vstd::prelude::*;

verus! {

/// What the native folder dialog reported.
pub enum PickOutcome {
    /// The dialog was dismissed without a choice.
    Cancelled,
    /// A folder was chosen but its path is not representable as text.
    Unrepresentable,
    /// A folder was chosen, with its absolute path.
    Chosen(String),
}

/// Why no folder path is returned.
#[derive(Clone, Copy, Debug, PartialEq, Eq, Structural)]
pub enum PickError {
    /// No folder was chosen.
    UserCancelled,
    /// The chosen path cannot be represented as valid text.
    InvalidPath,
}

/// Returns the chosen folder's path, or says why there is none.
pub fn select_folder(outcome: PickOutcome) -> (r: Result<String, PickError>)
    ensures
        match outcome {
            PickOutcome::Cancelled => r matches Err(e) && e is UserCancelled,
            PickOutcome::Unrepresentable => r matches Err(e) && e is InvalidPath,
            PickOutcome::Chosen(p) => r matches Ok(q) && q@ == p@,
        },
{
    match outcome {
        PickOutcome::Cancelled => Err(PickError::UserCancelled),
        PickOutcome::Unrepresentable => Err(PickError::InvalidPath),
        PickOutcome::Chosen(p) => Ok(p),
    }
}

} // verus!
