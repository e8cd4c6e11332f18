//! Portable filesystem errors.
use vstd::prelude::*;

verus! {

/// What went wrong, independent of any operating system's error numbers.
#[derive(Clone, Copy, Debug, PartialEq, Eq, Structural)]
pub enum FsErrorKind {
    NotFound,
    PermissionDenied,
    AlreadyExists,
    NotDirectory,
    IsDirectory,
    NotEmpty,
    InvalidInput,
    Unsupported,
    ReadOnly,
    Offline,
    TimedOut,
    Io,
}

/// An error kind with a message for people.
#[derive(Debug)]
pub struct FsError {
    pub kind: FsErrorKind,
    pub message: String,
}

/// What an [`FsError`] says: its kind and the characters of its message.
#[verifier::ext_equal]
pub struct FsErrorView {
    pub kind: FsErrorKind,
    pub message: Seq<char>,
}

/// An error of `kind` with `message`.
pub open spec fn error_of(kind: FsErrorKind, message: Seq<char>) -> FsErrorView {
    FsErrorView { kind, message }
}

impl View for FsError {
    type V = FsErrorView;

    open spec fn view(&self) -> FsErrorView {
        FsErrorView { kind: self.kind, message: self.message@ }
    }
}

impl Clone for FsError {
    fn clone(&self) -> (copy: Self)
        ensures
            copy@ == self@,
    {
        FsError { kind: self.kind, message: self.message.clone() }
    }
}

impl FsError {
    pub fn new(kind: FsErrorKind, message: &str) -> (error: Self)
        ensures
            error@ == error_of(kind, message@),
    {
        FsError { kind, message: message.to_owned() }
    }

    /// The text shown to people.
    pub fn display(&self) -> (text: String)
        ensures
            text@ == self@.message,
    {
        self.message.clone()
    }
}

pub type FsResult<T> = Result<T, FsError>;

/// The result is an error that says `error`.
pub open spec fn fails_with<T>(result: FsResult<T>, error: FsErrorView) -> bool {
    result matches Err(e) && e@ == error
}

} // verus!
