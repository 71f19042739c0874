//! The ways an operation can fail.

use vstd::prelude::*;

verus! {

/// Why an operation was refused or did not go through.
#[derive(Clone, Copy, Debug, PartialEq, Eq, Structural)]
pub enum ErrorKind {
    /// The root cannot be resolved to an existing entry.
    InvalidRoot,
    /// A path other than the root cannot be resolved to an existing entry.
    InvalidPath,
    /// The resolved path lies outside the canonical root.
    Escape,
    /// A regular file was expected and something else was found.
    NotAFile,
    /// The directory to move into does not exist and was not to be created.
    DestinationMissing,
    /// Creating a directory failed.
    CreateFailed,
    /// Renaming a file failed.
    RenameFailed,
    /// Removing a file failed.
    DeleteFailed,
    /// Moving a file failed.
    MoveFailed,
}

/// A failed operation: its kind, a message for display, and what the
/// operation left on disk before it failed.
#[derive(Clone, Debug)]
pub struct FsError {
    pub kind: ErrorKind,
    pub message: String,
    /// The directory that the operation created before it failed, if it
    /// created one. `None` means that nothing was changed.
    pub left_behind: Option<String>,
}

/// The mathematical value of an [`FsError`].
pub struct FsErrorView {
    pub kind: ErrorKind,
    pub message: Seq<char>,
    pub left_behind: Option<Seq<char>>,
}

impl View for FsError {
    type V = FsErrorView;

    open spec fn view(&self) -> FsErrorView {
        FsErrorView {
            kind: self.kind,
            message: self.message@,
            left_behind: match self.left_behind {
                Some(text) => Some(text@),
                None => None,
            },
        }
    }
}

/// The error of kind `kind` whose message is `lead` followed by `detail`,
/// raised before anything was changed.
pub open spec fn failure(kind: ErrorKind, lead: Seq<char>, detail: Seq<char>) -> FsErrorView {
    FsErrorView { kind, message: lead + detail, left_behind: None }
}

impl FsErrorView {
    /// The same error, raised after `residue` was created, where there is one.
    pub open spec fn after(self, residue: Option<Seq<char>>) -> FsErrorView {
        FsErrorView { left_behind: residue, ..self }
    }
}

impl FsError {
    /// Builds the error of kind `kind` whose message is `lead` followed by
    /// `detail`.
    pub fn new(kind: ErrorKind, lead: &str, detail: &str) -> (error: FsError)
        ensures
            error@ == failure(kind, lead@, detail@),
    {
        let message = String::from_str(lead).concat(detail);
        FsError { kind, message, left_behind: None }
    }

    /// Records what the operation had created before it failed.
    pub fn after(self, residue: Option<String>) -> (error: FsError)
        ensures
            error@ == self@.after(
                match residue {
                    Some(text) => Some(text@),
                    None => None,
                },
            ),
    {
        FsError { kind: self.kind, message: self.message, left_behind: residue }
    }

    /// Whether the operation failed before it changed anything.
    pub fn changed_nothing(&self) -> (yes: bool)
        ensures
            yes == self@.left_behind.is_none(),
    {
        self.left_behind.is_none()
    }
}

} // verus!
