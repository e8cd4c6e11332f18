//! The Windows read-only attribute for providers that keep POSIX permissions.
use vstd::prelude::*;
use crate::error::{error_of, fails_with, FsError, FsErrorKind, FsErrorView, FsResult};
use crate::metadata::{FsKind, FsMetadata};

verus! {

pub const READONLY: u32 = 0x1;

pub const DIRECTORY: u32 = 0x10;

pub const ARCHIVE: u32 = 0x20;

pub const NORMAL: u32 = 0x80;

/// The attributes that a provider can keep.
pub const KEPT: u32 = 0x91;

/// The write permissions of owner, group and others.
pub const WRITE_BITS: u32 = 0o222;

/// The owner's write permission.
pub const OWNER_WRITE: u32 = 0o200;

/// The special permissions: set-user, set-group and sticky.
pub const SPECIAL_BITS: u32 = 0o7000;

/// Asks for no change of attributes.
pub const UNCHANGED: u32 = 0xffff_ffff;

pub open spec fn unsupported(message: Seq<char>) -> FsErrorView {
    error_of(FsErrorKind::Unsupported, message)
}

/// The error for attributes that cannot be kept.
pub open spec fn cannot_keep() -> FsErrorView {
    unsupported(
        "This provider cannot persist Windows hidden, system, archive or other DOS attributes"@,
    )
}

/// Nothing but kept attributes is asked for.
pub open spec fn can_keep(requested: u32) -> bool {
    requested & !KEPT == 0
}

fn validate_attributes(requested: u32) -> (result: FsResult<()>)
    ensures
        result is Ok <==> can_keep(requested),
        result is Err ==> fails_with(result, cannot_keep()),
{
    if requested & !KEPT != 0 {
        return Err(
            FsError::new(
                FsErrorKind::Unsupported,
                "This provider cannot persist Windows hidden, system, archive or other DOS attributes",
            ),
        );
    }
    Ok(())
}

/// The attributes that a new entry is to have, of those asked for.
pub open spec fn creation_of(requested: u32, directory: bool) -> Result<u32, FsErrorView> {
    let wanted = requested & !ARCHIVE;
    if !can_keep(wanted) {
        Err(cannot_keep())
    } else if directory && wanted & READONLY != 0 {
        Err(unsupported("Read-only creation is supported only for regular files"@))
    } else {
        Ok(wanted)
    }
}

/// The attributes to create an entry with. The archive mark is advice that no
/// provider keeps: it is dropped, and does not fail an ordinary save.
pub fn creation_attributes(requested: u32, directory: bool) -> (kept: FsResult<u32>)
    ensures
        match creation_of(requested, directory) {
            Ok(wanted) => kept == Ok::<u32, FsError>(wanted),
            Err(e) => fails_with(kept, e),
        },
{
    let wanted: u32 = requested & !ARCHIVE;
    match validate_attributes(wanted) {
        Err(e) => {
            return Err(e);
        },
        Ok(_) => {},
    }
    if directory && wanted & READONLY != 0 {
        return Err(
            FsError::new(
                FsErrorKind::Unsupported,
                "Read-only creation is supported only for regular files",
            ),
        );
    }
    Ok(wanted)
}

/// A file that nobody may write is read-only.
pub open spec fn attributes_of(meta: FsMetadata) -> u32 {
    if meta.kind == FsKind::Directory {
        DIRECTORY
    } else if meta.kind == FsKind::File && meta.permissions is Some && meta.permissions->0
        & WRITE_BITS == 0 {
        READONLY
    } else {
        NORMAL
    }
}

pub fn attributes(meta: &FsMetadata) -> (attributes: u32)
    ensures
        attributes == attributes_of(*meta),
{
    if meta.kind == FsKind::Directory {
        return DIRECTORY;
    }
    let protected = match meta.permissions {
        Some(bits) => bits & WRITE_BITS == 0,
        None => false,
    };
    if meta.kind == FsKind::File && protected {
        READONLY
    } else {
        NORMAL
    }
}

/// What a request for attributes asks of the permissions: `Ok(None)` for no
/// change.
pub open spec fn permissions_for(meta: FsMetadata, requested: u32) -> Result<
    Option<u32>,
    FsErrorView,
> {
    let readonly = requested & READONLY != 0;
    if requested == UNCHANGED {
        Ok(None)
    } else if !can_keep(requested) {
        Err(cannot_keep())
    } else if meta.kind != FsKind::File {
        if readonly {
            Err(unsupported("Read-only attribute changes are supported only for regular files"@))
        } else {
            Ok(None)
        }
    } else if readonly == (attributes_of(meta) == READONLY) {
        Ok(None)
    } else {
        match meta.permissions {
            None => Err(unsupported("Remote permissions are unavailable"@)),
            Some(current) => if current & SPECIAL_BITS != 0 {
                Err(unsupported("Change special Unix permissions on the remote host"@))
            } else if readonly {
                Ok(Some(current & !WRITE_BITS))
            } else {
                Ok(Some(current | OWNER_WRITE))
            },
        }
    }
}

/// The permissions to set for a request for attributes.
pub fn permissions(meta: &FsMetadata, requested: u32) -> (result: FsResult<Option<u32>>)
    ensures
        match permissions_for(*meta, requested) {
            Ok(bits) => result == Ok::<Option<u32>, FsError>(bits),
            Err(e) => fails_with(result, e),
        },
{
    if requested == UNCHANGED {
        return Ok(None);
    }
    match validate_attributes(requested) {
        Err(e) => {
            return Err(e);
        },
        Ok(_) => {},
    }
    let readonly = requested & READONLY != 0;
    if meta.kind != FsKind::File {
        if readonly {
            return Err(
                FsError::new(
                    FsErrorKind::Unsupported,
                    "Read-only attribute changes are supported only for regular files",
                ),
            );
        }
        return Ok(None);
    }
    if readonly == (attributes(meta) == READONLY) {
        return Ok(None);
    }
    let current: u32 = match meta.permissions {
        Some(bits) => bits,
        None => {
            return Err(
                FsError::new(FsErrorKind::Unsupported, "Remote permissions are unavailable"),
            );
        },
    };
    if current & SPECIAL_BITS != 0 {
        return Err(
            FsError::new(
                FsErrorKind::Unsupported,
                "Change special Unix permissions on the remote host",
            ),
        );
    }
    if readonly {
        Ok(Some(current & !WRITE_BITS))
    } else {
        Ok(Some(current | OWNER_WRITE))
    }
}

/// A change that is accepted touches write permissions only, never grants group
/// or others a write permission, and leaves special permissions as they are.
pub proof fn law_changes_touch_write_permissions_only(meta: FsMetadata, requested: u32)
    ensures
        permissions_for(meta, requested) matches Ok(Some(bits)) ==> meta.permissions is Some && {
            let current = meta.permissions->0;
            &&& bits & !WRITE_BITS == current & !WRITE_BITS
            &&& bits & 0o022 == current & 0o022 || bits & 0o022 == 0
            &&& bits & SPECIAL_BITS == current & SPECIAL_BITS
        },
{
    if let Ok(Some(bits)) = permissions_for(meta, requested) {
        let current = meta.permissions->0;
        assert((current & !0o222u32) & !0o222u32 == current & !0o222u32) by (bit_vector);
        assert((current & !0o222u32) & 0o022u32 == 0) by (bit_vector);
        assert((current & !0o222u32) & 0o7000u32 == current & 0o7000u32) by (bit_vector);
        assert((current | 0o200u32) & !0o222u32 == current & !0o222u32) by (bit_vector);
        assert((current | 0o200u32) & 0o022u32 == current & 0o022u32) by (bit_vector);
        assert((current | 0o200u32) & 0o7000u32 == current & 0o7000u32) by (bit_vector);
    }
}

/// An accepted change shows: the attribute asked for is the attribute read back.
pub proof fn law_accepted_changes_show(meta: FsMetadata, requested: u32)
    requires
        meta.kind == FsKind::File,
        requested != UNCHANGED,
    ensures
        permissions_for(meta, requested) matches Ok(change) ==> {
            let after = FsMetadata {
                permissions: match change {
                    Some(bits) => Some(bits),
                    None => meta.permissions,
                },
                ..meta
            };
            (attributes_of(after) == READONLY) == (requested & READONLY != 0)
        },
{
    if let Ok(Some(bits)) = permissions_for(meta, requested) {
        let current = meta.permissions->0;
        assert((current & !0o222u32) & 0o222u32 == 0) by (bit_vector);
        assert((current | 0o200u32) & 0o222u32 != 0) by (bit_vector);
    }
}

/// Clearing the attribute after setting it gives back the permissions, but for
/// write permissions of group and others and a missing one of the owner.
pub proof fn law_read_only_round_trip(meta: FsMetadata)
    requires
        meta.kind == FsKind::File,
        meta.permissions is Some,
        meta.permissions->0 & WRITE_BITS != 0,
        meta.permissions->0 & SPECIAL_BITS == 0,
    ensures
        ({
            let current = meta.permissions->0;
            let protected = FsMetadata { permissions: Some(current & !WRITE_BITS), ..meta };
            &&& permissions_for(meta, READONLY) == Ok::<Option<u32>, FsErrorView>(
                protected.permissions,
            )
            &&& permissions_for(protected, NORMAL) == Ok::<Option<u32>, FsErrorView>(
                Some(current & !WRITE_BITS | OWNER_WRITE),
            )
        }),
{
    let current = meta.permissions->0;
    assert(0x1u32 & !0x91u32 == 0) by (bit_vector);
    assert(0x80u32 & !0x91u32 == 0) by (bit_vector);
    assert(0x1u32 & 0x1u32 != 0) by (bit_vector);
    assert(0x80u32 & 0x1u32 == 0) by (bit_vector);
    assert((current & !0o222u32) & 0o222u32 == 0) by (bit_vector);
    assert(current & 0o7000u32 == 0 ==> (current & !0o222u32) & 0o7000u32 == 0) by (bit_vector);
}

/// Only read-only, directory and normal can be kept; every other attribute asks for
/// something that no provider keeps. The archive mark is one of those.
pub proof fn law_attributes_that_can_be_kept(requested: u32)
    ensures
        can_keep(requested) <==> (requested & 0x1) | (requested & 0x10) | (requested & 0x80)
            == requested,
        READONLY == 0x1 && DIRECTORY == 0x10 && ARCHIVE == 0x20 && NORMAL == 0x80,
        !can_keep(0x20),
        UNCHANGED == u32::MAX,
{
    assert((requested & !0x91u32 == 0) <==> (requested & 0x1) | (requested & 0x10) | (requested
        & 0x80) == requested) by (bit_vector);
    assert(0x20u32 & !0x91u32 != 0) by (bit_vector);
}

/// What a request for attributes comes to. All ones ask for no change; attributes
/// that cannot be kept are refused. Only a file can become read-only, and a file that
/// already is what is asked for stays as it is. Otherwise a file becomes read-only by
/// losing all three write permissions and nothing else, and writable by gaining its
/// owner's and nothing else; special permissions, and permissions that are not
/// known, are not touched.
pub proof fn law_requests_for_attributes(meta: FsMetadata, requested: u32)
    ensures
        requested == u32::MAX ==> permissions_for(meta, requested) == Ok::<
            Option<u32>,
            FsErrorView,
        >(None),
        requested != u32::MAX && !can_keep(requested) ==> (permissions_for(
            meta,
            requested,
        ) matches Err(e) && e.kind == FsErrorKind::Unsupported),
        requested != u32::MAX && can_keep(requested) ==> {
            let readonly = requested & 0x1 != 0;
            let answer = permissions_for(meta, requested);
            let protected = meta.permissions matches Some(p) && p & 0o222 == 0;
            &&& meta.kind != FsKind::File && readonly ==> (answer matches Err(e) && e.kind
                == FsErrorKind::Unsupported)
            &&& meta.kind != FsKind::File && !readonly ==> answer == Ok::<
                Option<u32>,
                FsErrorView,
            >(None)
            &&& meta.kind == FsKind::File && readonly == protected ==> answer == Ok::<
                Option<u32>,
                FsErrorView,
            >(None)
            &&& meta.kind == FsKind::File && readonly != protected ==> match meta.permissions {
                None => answer matches Err(e) && e.kind == FsErrorKind::Unsupported,
                Some(current) => if current & 0o7000 != 0 {
                    answer matches Err(e) && e.kind == FsErrorKind::Unsupported
                } else if readonly {
                    answer matches Ok(Some(bits)) && bits & 0o222 == 0 && bits | (current & 0o222)
                        == current
                } else {
                    answer matches Ok(Some(bits)) && bits & 0o200 == 0o200 && bits & !0o200u32
                        == current & !0o200u32
                },
            }
        },
{
    if let Some(current) = meta.permissions {
        assert((current & !0o222u32) & 0o222u32 == 0 && (current & !0o222u32) | (current & 0o222u32)
            == current && (current | 0o200u32) & 0o200u32 == 0o200u32 && (current | 0o200u32)
            & !0o200u32 == current & !0o200u32) by (bit_vector);
    }
}

/// A new entry is made exactly where nothing is asked for but attributes that can be
/// kept and the archive mark, and where a directory is not to be read-only. The mark
/// is dropped, and everything else asked for is there.
pub proof fn law_new_entries_have_what_can_be_kept(requested: u32, directory: bool)
    ensures
        creation_of(requested, directory) is Ok <==> {
            &&& (requested & 0x1) | (requested & 0x10) | (requested & 0x20) | (requested & 0x80)
                == requested
            &&& !(directory && requested & 0x1 != 0)
        },
        creation_of(requested, directory) matches Ok(kept) ==> kept & 0x20 == 0 && kept | (requested
            & 0x20) == requested,
        creation_of(requested, directory) matches Err(e) ==> e.kind == FsErrorKind::Unsupported,
{
    assert(((requested & !0x20u32) & !0x91u32 == 0) <==> (requested & 0x1) | (requested & 0x10) | (
    requested & 0x20) | (requested & 0x80) == requested) by (bit_vector);
    assert((requested & !0x20u32) & 0x1u32 == requested & 0x1u32 && (requested & !0x20u32) & 0x20u32
        == 0 && (requested & !0x20u32) | (requested & 0x20u32) == requested) by (bit_vector);
}

/// What cannot be kept is refused as unsupported, with the message given.
pub proof fn law_what_cannot_be_kept_is_unsupported(message: Seq<char>)
    ensures
        unsupported(message).kind == FsErrorKind::Unsupported,
        unsupported(message).message == message,
        cannot_keep().kind == FsErrorKind::Unsupported,
{
}

} // verus!
