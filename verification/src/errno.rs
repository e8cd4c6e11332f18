//! Unix error numbers by name, and which one answers which provider error.
use vstd::prelude::*;
use crate::error::{FsError, FsErrorKind};

verus! {

/// The error numbers that mounted operations answer with.
#[derive(Clone, Copy, Debug, PartialEq, Eq, Structural)]
pub enum Errno {
    ENOENT,
    EACCES,
    EEXIST,
    ENOTDIR,
    EISDIR,
    ENOTEMPTY,
    EINVAL,
    EOPNOTSUPP,
    EROFS,
    ENOTCONN,
    ETIMEDOUT,
    EIO,
    ESTALE,
    EILSEQ,
    EOVERFLOW,
    EBADF,
}

/// The error number for each kind of provider error.
pub open spec fn errno_of(kind: FsErrorKind) -> Errno {
    match kind {
        FsErrorKind::NotFound => Errno::ENOENT,
        FsErrorKind::PermissionDenied => Errno::EACCES,
        FsErrorKind::AlreadyExists => Errno::EEXIST,
        FsErrorKind::NotDirectory => Errno::ENOTDIR,
        FsErrorKind::IsDirectory => Errno::EISDIR,
        FsErrorKind::NotEmpty => Errno::ENOTEMPTY,
        FsErrorKind::InvalidInput => Errno::EINVAL,
        FsErrorKind::Unsupported => Errno::EOPNOTSUPP,
        FsErrorKind::ReadOnly => Errno::EROFS,
        FsErrorKind::Offline => Errno::ENOTCONN,
        FsErrorKind::TimedOut => Errno::ETIMEDOUT,
        FsErrorKind::Io => Errno::EIO,
    }
}

/// The error number that answers a provider error.
pub fn errno(e: FsError) -> (number: Errno)
    ensures
        number == errno_of(e@.kind),
{
    match e.kind {
        FsErrorKind::NotFound => Errno::ENOENT,
        FsErrorKind::PermissionDenied => Errno::EACCES,
        FsErrorKind::AlreadyExists => Errno::EEXIST,
        FsErrorKind::NotDirectory => Errno::ENOTDIR,
        FsErrorKind::IsDirectory => Errno::EISDIR,
        FsErrorKind::NotEmpty => Errno::ENOTEMPTY,
        FsErrorKind::InvalidInput => Errno::EINVAL,
        FsErrorKind::Unsupported => Errno::EOPNOTSUPP,
        FsErrorKind::ReadOnly => Errno::EROFS,
        FsErrorKind::Offline => Errno::ENOTCONN,
        FsErrorKind::TimedOut => Errno::ETIMEDOUT,
        FsErrorKind::Io => Errno::EIO,
    }
}

/// Different kinds of provider errors stay distinguishable to local applications.
pub proof fn law_error_kinds_stay_distinct(a: FsErrorKind, b: FsErrorKind)
    requires
        errno_of(a) == errno_of(b),
    ensures
        a == b,
{
}

/// A local application is told what went wrong in the words of its own system:
/// each error number comes for one kind of failure, and for that kind alone.
pub proof fn law_failures_keep_their_meaning(kind: FsErrorKind)
    ensures
        errno_of(kind) == Errno::ENOENT <==> kind == FsErrorKind::NotFound,
        errno_of(kind) == Errno::EACCES <==> kind == FsErrorKind::PermissionDenied,
        errno_of(kind) == Errno::EEXIST <==> kind == FsErrorKind::AlreadyExists,
        errno_of(kind) == Errno::ENOTDIR <==> kind == FsErrorKind::NotDirectory,
        errno_of(kind) == Errno::EISDIR <==> kind == FsErrorKind::IsDirectory,
        errno_of(kind) == Errno::ENOTEMPTY <==> kind == FsErrorKind::NotEmpty,
        errno_of(kind) == Errno::EINVAL <==> kind == FsErrorKind::InvalidInput,
        errno_of(kind) == Errno::EOPNOTSUPP <==> kind == FsErrorKind::Unsupported,
        errno_of(kind) == Errno::EROFS <==> kind == FsErrorKind::ReadOnly,
        errno_of(kind) == Errno::ENOTCONN <==> kind == FsErrorKind::Offline,
        errno_of(kind) == Errno::ETIMEDOUT <==> kind == FsErrorKind::TimedOut,
        errno_of(kind) == Errno::EIO <==> kind == FsErrorKind::Io,
{
}

} // verus!
