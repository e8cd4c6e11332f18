//! What a provider says about entries, space and capabilities.
use std::collections::VecDeque;
use vstd::prelude::*;
use crate::error::{error_of, fails_with, FsError, FsErrorKind, FsResult};

verus! {

/// The most that one read or write request carries.
pub const MOUNT_IO_CHUNK: usize = 32768;

#[derive(Clone, Copy, Debug, PartialEq, Eq, Structural)]
pub enum FsKind {
    File,
    Directory,
    Symlink,
    Other,
}

/// One entry's attributes. Times are Unix seconds; an absent one is unknown.
#[derive(Clone, Copy, Debug, PartialEq, Eq)]
pub struct FsMetadata {
    pub kind: FsKind,
    pub size: u64,
    pub accessed: Option<u64>,
    pub modified: Option<u64>,
    pub permissions: Option<u32>,
}

#[derive(Debug)]
pub struct FsDirectoryEntry {
    pub name: String,
    pub metadata: FsMetadata,
}

/// What an [`FsDirectoryEntry`] says.
#[verifier::ext_equal]
pub struct EntryView {
    pub name: Seq<char>,
    pub metadata: FsMetadata,
}

impl View for FsDirectoryEntry {
    type V = EntryView;

    open spec fn view(&self) -> EntryView {
        EntryView { name: self.name@, metadata: self.metadata }
    }
}

/// What a sequence of entries says.
pub open spec fn entries_view(entries: Seq<FsDirectoryEntry>) -> Seq<EntryView> {
    entries.map_values(|entry: FsDirectoryEntry| entry@)
}

/// Appends `entries` to those not passed on yet.
pub fn append_entries(pending: &mut VecDeque<FsDirectoryEntry>, entries: Vec<FsDirectoryEntry>)
    ensures
        final(pending)@ == old(pending)@ + entries@,
{
    let ghost all = entries@;
    proof {
        assert(all.take(0) =~= Seq::<FsDirectoryEntry>::empty());
        assert(pending@ =~= pending@ + all.take(0));
    }
    for entry in it: entries
        invariant
            it.seq() == all,
            pending@ == old(pending)@ + all.take(it.index() as int),
    {
        pending.push_back(entry);
        assert(pending@ =~= old(pending)@ + all.take(it.index() + 1));
    }
    assert(all.take(all.len() as int) =~= all);
}

/// The parts in which a provider lists a directory: the last one, and no other,
/// is empty.
pub open spec fn ends_with_nothing(parts: Seq<Seq<EntryView>>) -> bool {
    &&& parts.len() > 0
    &&& parts.last().len() == 0
    &&& forall|k: int| 0 <= k < parts.len() - 1 ==> (#[trigger] parts[k]).len() > 0
}

/// The room of several requests together.
pub open spec fn together(rooms: Seq<nat>) -> nat
    decreases rooms.len(),
{
    if rooms.len() == 0 {
        0
    } else {
        together(rooms.drop_last()) + rooms.last()
    }
}

/// The smaller of two counts.
pub open spec fn at_most(count: nat, limit: nat) -> int {
    if count <= limit {
        count as int
    } else {
        limit as int
    }
}

#[derive(Clone, Copy, Debug, PartialEq, Eq)]
pub struct FsSpace {
    pub block_size: u64,
    pub blocks: u64,
    pub blocks_free: u64,
    pub blocks_available: u64,
    pub files: u64,
    pub files_free: u64,
    pub name_max: u64,
}

#[derive(Clone, Copy, Debug, PartialEq, Eq)]
pub struct FsCapabilities {
    pub writable: bool,
    pub atomic_replace: bool,
    pub durable_flush: bool,
}

#[derive(Clone, Copy, Debug, PartialEq, Eq, Structural)]
pub enum FsCreate {
    OpenExisting,
    CreateNew,
    OpenOrCreate,
}

#[derive(Clone, Copy, Debug, PartialEq, Eq)]
pub struct FsOpenOptions {
    pub read: bool,
    pub write: bool,
    pub create: FsCreate,
    pub truncate: bool,
}

impl FsOpenOptions {
    /// A handle can do something, and only a writable one creates or truncates.
    pub open spec fn is_valid(self) -> bool {
        self.write || (self.read && !self.truncate && self.create == FsCreate::OpenExisting)
    }

    pub fn validate(self) -> (result: FsResult<()>)
        ensures
            result is Ok <==> self.is_valid(),
            result is Err ==> fails_with(
                result,
                error_of(FsErrorKind::InvalidInput, "Invalid file open options"@),
            ),
    {
        if !self.write && (!self.read || self.truncate || self.create != FsCreate::OpenExisting) {
            return Err(FsError::new(FsErrorKind::InvalidInput, "Invalid file open options"));
        }
        Ok(())
    }
}

/// Attributes to change; an absent one stays as it is.
#[derive(Clone, Copy, Debug, PartialEq, Eq)]
pub struct FsSetMetadata {
    pub size: Option<u64>,
    pub accessed: Option<u64>,
    pub modified: Option<u64>,
    pub permissions: Option<u32>,
}

impl FsSetMetadata {
    /// The change of nothing.
    pub open spec fn nothing() -> Self {
        FsSetMetadata { size: None, accessed: None, modified: None, permissions: None }
    }

    /// A change of the size alone.
    pub open spec fn only_size(size: u64) -> Self {
        FsSetMetadata { size: Some(size), ..Self::nothing() }
    }

    /// A change of the permissions alone.
    pub open spec fn only_permissions(permissions: u32) -> Self {
        FsSetMetadata { permissions: Some(permissions), ..Self::nothing() }
    }
}

impl Default for FsSetMetadata {
    fn default() -> (metadata: Self)
        ensures
            metadata == FsSetMetadata::nothing(),
    {
        FsSetMetadata { size: None, accessed: None, modified: None, permissions: None }
    }
}

/// What a handle is opened for makes sense: it reads or writes, and only one that
/// writes makes or cuts its file.
pub proof fn law_sensible_opens(options: FsOpenOptions)
    ensures
        options.is_valid() <==> {
            &&& options.read || options.write
            &&& options.truncate ==> options.write
            &&& options.create != FsCreate::OpenExisting ==> options.write
        },
{
}

/// A change of one attribute changes that one, to the value given, and no other.
pub proof fn law_single_changes(size: u64, permissions: u32)
    ensures
        FsSetMetadata::only_size(size).size == Some(size),
        FsSetMetadata::only_size(size).accessed is None,
        FsSetMetadata::only_size(size).modified is None,
        FsSetMetadata::only_size(size).permissions is None,
        FsSetMetadata::only_permissions(permissions).permissions == Some(permissions),
        FsSetMetadata::only_permissions(permissions).size is None,
        FsSetMetadata::only_permissions(permissions).accessed is None,
        FsSetMetadata::only_permissions(permissions).modified is None,
        FsSetMetadata::nothing().size is None,
        FsSetMetadata::nothing().accessed is None,
        FsSetMetadata::nothing().modified is None,
        FsSetMetadata::nothing().permissions is None,
        MOUNT_IO_CHUNK == 32768,
{
}

} // verus!
