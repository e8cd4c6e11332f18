//! The mounted root as a Windows filesystem: what each driver request asks of
//! the provider, and what it is answered.
pub mod contexts;
pub mod directories;
pub mod entries;
pub mod files;
pub mod names;
pub mod session;

pub use crate::windows::session::run;

use std::collections::VecDeque;
use vstd::prelude::*;
use crate::bridge_control::text_view;
use crate::error::{FsError, FsErrorKind, FsResult};
use crate::metadata::{
    entries_view, EntryView, FsCapabilities, FsDirectoryEntry, FsKind, FsMetadata,
};
use crate::mount_gate::{GateView, MountGate, OpenGuard};
use crate::path::{MountPath, PathView};
use crate::windows_attributes::{attributes, attributes_of};
use crate::windows_handles::{distinct, handle_of, knows, HandlesView, OpenHandles};
use crate::windows_times::{filetime, filetime_of};
use crate::wire::{reply_view, Operation, OperationView, ReplyView, Value, ValueView};

verus! {

/// The status that a driver request ends with when it fails.
#[derive(Clone, Copy, Debug, PartialEq, Eq, Structural)]
pub enum NtStatus {
    ObjectNameNotFound,
    AccessDenied,
    ObjectNameCollision,
    NotADirectory,
    FileIsADirectory,
    DirectoryNotEmpty,
    ObjectNameInvalid,
    NotSupported,
    MediaWriteProtected,
    DeviceNotConnected,
    IoTimeout,
    IoDeviceError,
    InvalidParameter,
}

pub type NtResult<T> = Result<T, NtStatus>;

/// The status for an error of the provider.
pub open spec fn status_of(kind: FsErrorKind) -> NtStatus {
    match kind {
        FsErrorKind::NotFound => NtStatus::ObjectNameNotFound,
        FsErrorKind::PermissionDenied => NtStatus::AccessDenied,
        FsErrorKind::AlreadyExists => NtStatus::ObjectNameCollision,
        FsErrorKind::NotDirectory => NtStatus::NotADirectory,
        FsErrorKind::IsDirectory => NtStatus::FileIsADirectory,
        FsErrorKind::NotEmpty => NtStatus::DirectoryNotEmpty,
        FsErrorKind::InvalidInput => NtStatus::ObjectNameInvalid,
        FsErrorKind::Unsupported => NtStatus::NotSupported,
        FsErrorKind::ReadOnly => NtStatus::MediaWriteProtected,
        FsErrorKind::Offline => NtStatus::DeviceNotConnected,
        FsErrorKind::TimedOut => NtStatus::IoTimeout,
        FsErrorKind::Io => NtStatus::IoDeviceError,
    }
}

pub fn failure(e: FsError) -> (status: NtStatus)
    ensures
        status == status_of(e.kind),
{
    match e.kind {
        FsErrorKind::NotFound => NtStatus::ObjectNameNotFound,
        FsErrorKind::PermissionDenied => NtStatus::AccessDenied,
        FsErrorKind::AlreadyExists => NtStatus::ObjectNameCollision,
        FsErrorKind::NotDirectory => NtStatus::NotADirectory,
        FsErrorKind::IsDirectory => NtStatus::FileIsADirectory,
        FsErrorKind::NotEmpty => NtStatus::DirectoryNotEmpty,
        FsErrorKind::InvalidInput => NtStatus::ObjectNameInvalid,
        FsErrorKind::Unsupported => NtStatus::NotSupported,
        FsErrorKind::ReadOnly => NtStatus::MediaWriteProtected,
        FsErrorKind::Offline => NtStatus::DeviceNotConnected,
        FsErrorKind::TimedOut => NtStatus::IoTimeout,
        FsErrorKind::Io => NtStatus::IoDeviceError,
    }
}

/// The kinds of error stay apart, so that Windows sees which one it was.
pub proof fn law_error_kinds_stay_distinct(a: FsErrorKind, b: FsErrorKind)
    ensures
        status_of(a) == status_of(b) ==> a == b,
        status_of(a) != NtStatus::InvalidParameter,
{
}

/// Seconds from the start of Windows file times to the Unix epoch.
pub const EPOCH_SECONDS: u64 = 11644473600;

/// File-time ticks in a second.
pub const TICKS: u64 = 10000000;

/// The file time of a Unix time, held at the largest number. No time counts as
/// the Unix epoch.
pub open spec fn timestamp_of(seconds: Option<u64>) -> u64 {
    let value = match seconds {
        Some(s) => s as int,
        None => 0,
    };
    let time = (value + EPOCH_SECONDS) * TICKS;
    if time <= u64::MAX {
        time as u64
    } else {
        u64::MAX
    }
}

pub fn timestamp(seconds: Option<u64>) -> (time: u64)
    ensures
        time == timestamp_of(seconds),
{
    let value: u64 = match seconds {
        Some(s) => s,
        None => 0,
    };
    match value.checked_add(EPOCH_SECONDS) {
        None => u64::MAX,
        Some(shifted) => match shifted.checked_mul(TICKS) {
            None => u64::MAX,
            Some(time) => time,
        },
    }
}

/// The Unix seconds of a file time, held at the epoch. Zero and the largest
/// number ask for no change.
pub open spec fn unix_timestamp_of(time: u64) -> Option<u64> {
    if time == 0 || time == u64::MAX {
        None
    } else if time / TICKS >= EPOCH_SECONDS {
        Some((time / TICKS - EPOCH_SECONDS) as u64)
    } else {
        Some(0)
    }
}

pub fn unix_timestamp(time: u64) -> (seconds: Option<u64>)
    ensures
        seconds == unix_timestamp_of(time),
{
    if time == 0 || time == u64::MAX {
        return None;
    }
    let whole: u64 = time / TICKS;
    if whole >= EPOCH_SECONDS {
        Some(whole - EPOCH_SECONDS)
    } else {
        Some(0)
    }
}

/// The unit in which space is said to be allocated.
pub const ALLOCATION_UNIT: u64 = 4096;

/// What the driver is told of an entry.
#[derive(Clone, Copy, Debug, PartialEq, Eq)]
pub struct FileInfo {
    pub file_attributes: u32,
    pub file_size: u64,
    pub allocation_size: u64,
    pub creation_time: u64,
    pub last_access_time: u64,
    pub last_write_time: u64,
    pub change_time: u64,
}

/// The size in whole units, held at the largest number.
pub open spec fn allocated(size: u64) -> u64 {
    let units = (size + ALLOCATION_UNIT - 1) / ALLOCATION_UNIT as int;
    if units * ALLOCATION_UNIT <= u64::MAX {
        (units * ALLOCATION_UNIT) as u64
    } else {
        u64::MAX
    }
}

/// Creation and change times are unknown to providers, and no other time stands
/// in for them.
pub open spec fn info_of(meta: FsMetadata) -> FileInfo {
    FileInfo {
        file_attributes: attributes_of(meta),
        file_size: meta.size,
        allocation_size: allocated(meta.size),
        creation_time: 0,
        last_access_time: filetime_of(meta.accessed),
        last_write_time: filetime_of(meta.modified),
        change_time: 0,
    }
}

pub fn fill(meta: &FsMetadata) -> (info: FileInfo)
    ensures
        info == info_of(*meta),
{
    let whole: u64 = meta.size / ALLOCATION_UNIT;
    let units: u64 = if meta.size % ALLOCATION_UNIT == 0 {
        whole
    } else {
        whole + 1
    };
    assert(units == (meta.size + ALLOCATION_UNIT - 1) / ALLOCATION_UNIT as int);
    let allocation_size: u64 = match units.checked_mul(ALLOCATION_UNIT) {
        Some(size) => size,
        None => u64::MAX,
    };
    FileInfo {
        file_attributes: attributes(meta),
        file_size: meta.size,
        allocation_size,
        creation_time: 0,
        last_access_time: filetime(meta.accessed),
        last_write_time: filetime(meta.modified),
        change_time: 0,
    }
}

/// A directory being listed: the provider's handle, the entries received but not
/// listed yet, and the name listed last.
pub struct Directory {
    handle: Option<u64>,
    pending: VecDeque<FsDirectoryEntry>,
    last: Option<String>,
    eof: bool,
}

#[verifier::ext_equal]
pub struct DirectoryView {
    pub handle: Option<u64>,
    pub pending: Seq<EntryView>,
    pub last: Option<Seq<char>>,
    pub eof: bool,
}

impl View for Directory {
    type V = DirectoryView;

    closed spec fn view(&self) -> DirectoryView {
        DirectoryView {
            handle: self.handle,
            pending: entries_view(self.pending@),
            last: text_view(self.last),
            eof: self.eof,
        }
    }
}

impl DirectoryView {
    /// A directory that is not being listed.
    pub open spec fn initial() -> Self {
        DirectoryView { handle: None, pending: Seq::empty(), last: None, eof: false }
    }
}

/// What stands behind one open handle of Windows.
pub struct Context {
    open: Option<OpenGuard>,
    id: u64,
    file: Option<u64>,
    is_dir: bool,
    directory: Directory,
}

/// What a [`Context`] says. `counted` means that it keeps the drive in use.
#[verifier::ext_equal]
pub struct ContextView {
    pub counted: bool,
    pub id: u64,
    pub file: Option<u64>,
    pub is_dir: bool,
    pub directory: DirectoryView,
}

impl View for Context {
    type V = ContextView;

    closed spec fn view(&self) -> ContextView {
        ContextView {
            counted: self.open is Some,
            id: self.id,
            file: self.file,
            is_dir: self.is_dir,
            directory: self.directory@,
        }
    }
}

/// The filesystem: the handles of Windows, the mount gate they pass, and what the
/// provider can do.
pub struct Fs {
    handles: OpenHandles,
    gate: MountGate,
    caps: FsCapabilities,
}

#[verifier::ext_equal]
pub struct FsView {
    pub handles: HandlesView,
    pub gate: GateView,
    pub caps: FsCapabilities,
}

impl View for Fs {
    type V = FsView;

    closed spec fn view(&self) -> FsView {
        FsView { handles: self.handles@, gate: self.gate@, caps: self.caps }
    }
}

/// The attributes that a reply describes.
pub open spec fn description(reply: ReplyView) -> NtResult<FsMetadata> {
    match reply {
        Ok(ValueView::Metadata(meta)) => Ok(meta),
        Ok(_) => Err(NtStatus::InvalidParameter),
        Err(e) => Err(status_of(e.kind)),
    }
}

fn described(reply: FsResult<Value>) -> (meta: NtResult<FsMetadata>)
    ensures
        meta == description(reply_view(reply)),
{
    match reply {
        Ok(Value::Metadata(meta)) => Ok(meta),
        Ok(_) => Err(NtStatus::InvalidParameter),
        Err(e) => Err(failure(e)),
    }
}

/// The information that a reply describes.
pub open spec fn information(reply: ReplyView) -> NtResult<FileInfo> {
    match description(reply) {
        Ok(meta) => Ok(info_of(meta)),
        Err(status) => Err(status),
    }
}

fn informed(reply: FsResult<Value>) -> (info: NtResult<FileInfo>)
    ensures
        info == information(reply_view(reply)),
{
    match described(reply) {
        Ok(meta) => Ok(fill(&meta)),
        Err(status) => Err(status),
    }
}

impl FsView {
    /// The context belongs to this filesystem and has not been closed.
    pub open spec fn holds(self, context: ContextView) -> bool {
        knows(self.handles, context.id)
    }

    /// Where the entry of a context is now.
    pub open spec fn path(self, context: ContextView) -> PathView {
        handle_of(self.handles, context.id).path
    }

    /// The request for a context's attributes: through the provider's handle where
    /// there is one, and by path otherwise.
    pub open spec fn metadata(self, context: ContextView) -> OperationView {
        match context.file {
            Some(handle) => OperationView::FileMetadata { handle },
            None => OperationView::Metadata { path: self.path(context) },
        }
    }
}

impl Fs {
    /// No two handles share a number.
    pub open spec fn wf(&self) -> bool {
        distinct(self@.handles) && self@.gate.handles >= 0
    }

    pub fn new(caps: FsCapabilities) -> (fs: Self)
        ensures
            fs.wf(),
            fs@ == (FsView {
                handles: HandlesView::empty(),
                gate: GateView { handles: 0, detaching: false },
                caps,
            }),
    {
        Fs { handles: OpenHandles::default(), gate: MountGate::default(), caps }
    }

    /// Closes the mount gate, unless handles are open.
    pub fn begin_detach(&mut self) -> (result: Result<(), String>)
        requires
            old(self).wf(),
        ensures
            final(self).wf(),
            result is Ok <==> old(self)@.gate.handles == 0,
            result is Ok ==> final(self)@ == (FsView {
                gate: old(self)@.gate.detached(),
                ..old(self)@
            }),
            result matches Err(text) ==> final(self)@ == old(self)@ && text@
                == crate::mount_gate::busy_message(old(self)@.gate.handles),
    {
        self.gate.begin_detach()
    }

    fn path(&self, context: &Context) -> (path: MountPath)
        requires
            self.wf(),
            self@.holds(context@),
        ensures
            path@ == self@.path(context@),
    {
        self.handles.path(context.id)
    }

    fn metadata(&self, context: &Context) -> (operation: Operation)
        requires
            self.wf(),
            self@.holds(context@),
        ensures
            operation@ == self@.metadata(context@),
    {
        match context.file {
            Some(handle) => Operation::FileMetadata { handle },
            None => Operation::Metadata { path: self.path(context) },
        }
    }
}

/// Windows is told what went wrong in its own words: each status comes for one kind
/// of failure, and for that kind alone.
pub proof fn law_failures_keep_their_meaning(kind: FsErrorKind)
    ensures
        status_of(kind) == NtStatus::ObjectNameNotFound <==> kind == FsErrorKind::NotFound,
        status_of(kind) == NtStatus::AccessDenied <==> kind == FsErrorKind::PermissionDenied,
        status_of(kind) == NtStatus::ObjectNameCollision <==> kind == FsErrorKind::AlreadyExists,
        status_of(kind) == NtStatus::NotADirectory <==> kind == FsErrorKind::NotDirectory,
        status_of(kind) == NtStatus::FileIsADirectory <==> kind == FsErrorKind::IsDirectory,
        status_of(kind) == NtStatus::DirectoryNotEmpty <==> kind == FsErrorKind::NotEmpty,
        status_of(kind) == NtStatus::ObjectNameInvalid <==> kind == FsErrorKind::InvalidInput,
        status_of(kind) == NtStatus::NotSupported <==> kind == FsErrorKind::Unsupported,
        status_of(kind) == NtStatus::MediaWriteProtected <==> kind == FsErrorKind::ReadOnly,
        status_of(kind) == NtStatus::DeviceNotConnected <==> kind == FsErrorKind::Offline,
        status_of(kind) == NtStatus::IoTimeout <==> kind == FsErrorKind::TimedOut,
        status_of(kind) == NtStatus::IoDeviceError <==> kind == FsErrorKind::Io,
{
}

/// What Windows is told of an entry is what the provider says: its size, its times
/// where they are known, whether it is a directory, and whether a file can be
/// written. The space said to be allocated holds the file in whole units, and no
/// unit more.
pub proof fn law_information_shows_the_entry(meta: FsMetadata)
    ensures
        ({
            let info = info_of(meta);
            &&& info.file_size == meta.size
            &&& meta.size <= 0xffff_ffff_ffff_f000 ==> info.allocation_size % 4096 == 0 && meta.size
                <= info.allocation_size < meta.size + 4096
            &&& meta.size > 0xffff_ffff_ffff_f000 ==> info.allocation_size == u64::MAX
            &&& info.creation_time == 0 && info.change_time == 0
            &&& meta.modified is None ==> info.last_write_time == 0
            &&& meta.accessed is None ==> info.last_access_time == 0
            &&& meta.modified matches Some(t) ==> t <= 900_000_000_000 ==> info.last_write_time
                == (t + 11_644_473_600) * 10_000_000
            &&& meta.accessed matches Some(t) ==> t <= 900_000_000_000 ==> info.last_access_time
                == (t + 11_644_473_600) * 10_000_000
            &&& info.file_attributes == 0x10 <==> meta.kind == FsKind::Directory
            &&& info.file_attributes == 0x1 <==> meta.kind == FsKind::File && (
            meta.permissions matches Some(p) && p & 0o222 == 0)
            &&& info.file_attributes == 0x1 || info.file_attributes == 0x10
                || info.file_attributes == 0x80
        }),
{
}

/// A reply describes an entry exactly if it holds attributes, and then those.
pub proof fn law_only_attributes_describe(reply: ReplyView, meta: FsMetadata)
    ensures
        description(Ok(ValueView::Metadata(meta))) == Ok::<FsMetadata, NtStatus>(meta),
        information(Ok(ValueView::Metadata(meta))) == Ok::<FileInfo, NtStatus>(info_of(meta)),
        description(reply) is Ok ==> reply is Ok && reply->Ok_0 is Metadata,
        information(reply) is Ok <==> description(reply) is Ok,
        reply matches Err(e) ==> description(reply) == Err::<FsMetadata, NtStatus>(
            status_of(e.kind),
        ) && information(reply) == Err::<FileInfo, NtStatus>(status_of(e.kind)),
        reply is Ok && reply->Ok_0 !is Metadata ==> description(reply) == Err::<
            FsMetadata,
            NtStatus,
        >(NtStatus::InvalidParameter),
{
}

/// An entry's attributes are asked for through the provider's handle where there is
/// one, and otherwise where the entry is now.
pub proof fn law_attributes_come_from_the_handle(fs: FsView, context: ContextView)
    ensures
        context.file matches Some(handle) ==> fs.metadata(context) == (
        OperationView::FileMetadata { handle }),
        context.file is None ==> fs.metadata(context) == (OperationView::Metadata {
            path: handle_of(fs.handles, context.id).path,
        }),
{
}

/// A Unix time and its file time stand for each other, as far as file times reach.
/// No time counts as the epoch, a time before the epoch counts as the epoch, and the
/// two marks for no change are no times.
pub proof fn law_timestamps_round_trip(seconds: u64, early: u64)
    requires
        seconds <= 900_000_000_000,
        0 < early < 116_444_736_000_000_000,
    ensures
        timestamp_of(Some(seconds)) == (seconds + 11_644_473_600) * 10_000_000,
        unix_timestamp_of(timestamp_of(Some(seconds))) == Some(seconds),
        timestamp_of(None) == timestamp_of(Some(0)),
        unix_timestamp_of(0) is None,
        unix_timestamp_of(u64::MAX) is None,
        unix_timestamp_of(early) == Some(0u64),
{
    assert((seconds + 11_644_473_600) * 10_000_000 <= u64::MAX) by (nonlinear_arith)
        requires
            seconds <= 900_000_000_000,
    ;
}

} // verus!
