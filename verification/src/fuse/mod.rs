//! The mounted root as a FUSE filesystem: what each kernel request asks of the
//! provider, what it does to the inode table, and what it answers.
pub mod directories;
pub mod entries;
pub mod files;
pub mod replies;
pub mod session;
pub mod unmount;

pub use crate::fuse::session::run;

use vstd::prelude::*;
use crate::errno::{errno, errno_of, Errno};
use crate::error::FsResult;
use crate::inodes::{State, StateView};
use crate::metadata::{FsCreate, FsKind, FsMetadata, FsOpenOptions};
use crate::path::{is_component, MountPath, PathView};
use crate::wire::{reply_view, ReplyView, Value, ValueView};

verus! {

/// What a kernel request is answered with.
pub type Answer<T> = Result<T, Errno>;

#[derive(Clone, Copy, Debug, PartialEq, Eq, Structural)]
pub enum FileType {
    RegularFile,
    Directory,
    Symlink,
}

/// Attributes as the kernel takes them. Times are Unix seconds.
#[derive(Clone, Copy, Debug, PartialEq, Eq)]
pub struct FileAttr {
    pub ino: u64,
    pub size: u64,
    pub blocks: u64,
    pub atime: u64,
    pub mtime: u64,
    pub ctime: u64,
    pub crtime: u64,
    pub kind: FileType,
    pub perm: u16,
    pub nlink: u32,
    pub uid: u32,
    pub gid: u32,
    pub rdev: u32,
    pub blksize: u32,
    pub flags: u32,
}

/// Special files appear as regular ones.
pub open spec fn file_type(kind: FsKind) -> FileType {
    match kind {
        FsKind::Directory => FileType::Directory,
        FsKind::Symlink => FileType::Symlink,
        FsKind::File => FileType::RegularFile,
        FsKind::Other => FileType::RegularFile,
    }
}

pub fn kind(m: FsKind) -> (file_type: FileType)
    ensures
        file_type == self::file_type(m),
{
    match m {
        FsKind::Directory => FileType::Directory,
        FsKind::Symlink => FileType::Symlink,
        _ => FileType::RegularFile,
    }
}

/// The permission bits shown for an entry: the provider's, or the owner's alone
/// where it gives none.
pub open spec fn permission_bits(m: FsMetadata) -> u32 {
    match m.permissions {
        Some(permissions) => permissions & 0o777,
        None => if m.kind == FsKind::Directory {
            0o700
        } else {
            0o600
        },
    }
}

/// A time that the provider does not give is shown as the epoch.
pub open spec fn shown_time(time: Option<u64>) -> u64 {
    match time {
        Some(seconds) => seconds,
        None => 0,
    }
}

/// The attributes that number `ino` shows.
pub open spec fn attr_of(ino: u64, m: FsMetadata, uid: u32, gid: u32) -> FileAttr {
    FileAttr {
        ino,
        size: m.size,
        blocks: ((m.size + 511) / 512) as u64,
        atime: shown_time(m.accessed),
        mtime: shown_time(m.modified),
        ctime: shown_time(m.modified),
        crtime: shown_time(m.modified),
        kind: file_type(m.kind),
        perm: permission_bits(m) as u16,
        nlink: if m.kind == FsKind::Directory {
            2
        } else {
            1
        },
        uid,
        gid,
        rdev: 0,
        blksize: 4096,
        flags: 0,
    }
}

pub fn attr(ino: u64, m: FsMetadata, uid: u32, gid: u32) -> (attributes: FileAttr)
    ensures
        attributes == attr_of(ino, m, uid, gid),
{
    let directory = m.kind == FsKind::Directory;
    let modified: u64 = match m.modified {
        Some(seconds) => seconds,
        None => 0,
    };
    let accessed: u64 = match m.accessed {
        Some(seconds) => seconds,
        None => 0,
    };
    let permissions: u32 = match m.permissions {
        Some(permissions) => permissions,
        None => if directory {
            0o700
        } else {
            0o600
        },
    };
    assert(0o700u32 & 0o777u32 == 0o700u32) by (bit_vector);
    assert(0o600u32 & 0o777u32 == 0o600u32) by (bit_vector);
    let blocks: u64 = m.size / 512 + (if m.size % 512 == 0 {
        0u64
    } else {
        1u64
    });
    FileAttr {
        ino,
        size: m.size,
        blocks,
        atime: accessed,
        mtime: modified,
        ctime: modified,
        crtime: modified,
        kind: kind(m.kind),
        perm: (permissions & 0o777) as u16,
        nlink: if directory {
            2
        } else {
            1
        },
        uid,
        gid,
        rdev: 0,
        blksize: 4096,
        flags: 0,
    }
}

/// The bits that this system's open flags use. `access_mode` masks the access mode.
#[derive(Clone, Copy, Debug, PartialEq, Eq)]
pub struct HostFlags {
    pub access_mode: i32,
    pub read_only: i32,
    pub write_only: i32,
    pub read_write: i32,
    pub exclusive: i32,
    pub truncate: i32,
}

impl HostFlags {
    /// The access modes can be told apart, and the flags are there.
    pub open spec fn are_distinct(self) -> bool {
        &&& self.read_only != self.write_only
        &&& self.read_only != self.read_write
        &&& self.write_only != self.read_write
        &&& self.exclusive != 0
        &&& self.truncate != 0
        &&& self.exclusive != self.truncate
    }

    /// The access modes ascend: reading, writing, both.
    pub open spec fn modes_ascend(self) -> bool {
        self.read_only < self.write_only < self.read_write
    }

    /// The mask keeps each access mode as it is.
    pub open spec fn masks_modes(self) -> bool {
        &&& self.read_only & self.access_mode == self.read_only
        &&& self.write_only & self.access_mode == self.write_only
        &&& self.read_write & self.access_mode == self.read_write
    }

    /// The constants `O_RDONLY`, `O_WRONLY`, `O_RDWR`, `O_EXCL` and `O_TRUNC` of
    /// the `libc` crate, with the mask given. Their values differ between systems;
    /// on all of them the three access modes ascend in the order named, and the two
    /// flags differ and are not zero. No more is claimed of them: which of the two
    /// flags is the larger differs too. The mask is handed in because the crate has
    /// no `O_ACCMODE` on Windows.
    #[verifier::external_body]
    fn native(access_mode: i32) -> (flags: HostFlags)
        ensures
            flags.are_distinct(),
            flags.modes_ascend(),
            flags.access_mode == access_mode,
    {
        HostFlags {
            access_mode,
            read_only: libc::O_RDONLY,
            write_only: libc::O_WRONLY,
            read_write: libc::O_RDWR,
            exclusive: libc::O_EXCL,
            truncate: libc::O_TRUNC,
        }
    }
}

/// What open flags ask for. A file that is created is opened for writing too.
pub open spec fn open_options(flags: i32, create: bool, host: HostFlags) -> FsOpenOptions {
    let mode = flags & host.access_mode;
    FsOpenOptions {
        read: mode != host.write_only,
        write: mode != host.read_only || create,
        create: if !create {
            FsCreate::OpenExisting
        } else if flags & host.exclusive != 0 {
            FsCreate::CreateNew
        } else {
            FsCreate::OpenOrCreate
        },
        truncate: flags & host.truncate != 0,
    }
}

pub fn options(flags: i32, create: bool, host: &HostFlags) -> (options: FsOpenOptions)
    ensures
        options == open_options(flags, create, *host),
{
    let mode: i32 = flags & host.access_mode;
    FsOpenOptions {
        read: mode != host.write_only,
        write: mode != host.read_only || create,
        create: if !create {
            FsCreate::OpenExisting
        } else if flags & host.exclusive != 0 {
            FsCreate::CreateNew
        } else {
            FsCreate::OpenOrCreate
        },
        truncate: flags & host.truncate != 0,
    }
}

/// Each access mode asks for what its name says, and an open of an existing file
/// never creates one.
pub proof fn law_access_modes_mean_what_they_say(host: HostFlags)
    requires
        host.are_distinct(),
        host.masks_modes(),
    ensures
        ({
            let reading = open_options(host.read_only, false, host);
            let writing = open_options(host.write_only, false, host);
            let both = open_options(host.read_write, false, host);
            &&& reading.read && !reading.write
            &&& !writing.read && writing.write
            &&& both.read && both.write
            &&& reading.create == FsCreate::OpenExisting
            &&& writing.create == FsCreate::OpenExisting
            &&& both.create == FsCreate::OpenExisting
        }),
{
}

/// A moment in whole seconds from the Unix epoch, rounded down; negative before it.
#[derive(Clone, Copy, Debug, PartialEq, Eq)]
pub struct UnixTime {
    pub seconds: i64,
}

/// A time to set: a given one, or the present.
#[derive(Clone, Copy, Debug, PartialEq, Eq)]
pub enum TimeOrNow {
    SpecificTime(UnixTime),
    Now,
}

/// The Unix seconds to set. Times before the epoch cannot be set and are left alone.
pub open spec fn seconds_of(time: Option<TimeOrNow>, now: UnixTime) -> Option<u64> {
    match time {
        None => None,
        Some(t) => {
            let moment = match t {
                TimeOrNow::SpecificTime(given) => given,
                TimeOrNow::Now => now,
            };
            if moment.seconds >= 0 {
                Some(moment.seconds as u64)
            } else {
                None
            }
        },
    }
}

/// `now` is the present, read by the caller.
pub fn seconds(time: Option<TimeOrNow>, now: UnixTime) -> (seconds: Option<u64>)
    ensures
        seconds == seconds_of(time, now),
{
    match time {
        None => None,
        Some(t) => {
            let moment = match t {
                TimeOrNow::SpecificTime(given) => given,
                TimeOrNow::Now => now,
            };
            if moment.seconds >= 0 {
                Some(moment.seconds as u64)
            } else {
                None
            }
        },
    }
}

/// The filesystem: its inode table, the owner that every entry shows, and the
/// host's open flags.
pub struct Fs {
    state: State,
    uid: u32,
    gid: u32,
    flags: HostFlags,
}

#[verifier::ext_equal]
pub struct FsView {
    pub state: StateView,
    pub uid: u32,
    pub gid: u32,
    pub flags: HostFlags,
}

impl View for Fs {
    type V = FsView;

    closed spec fn view(&self) -> FsView {
        FsView { state: self.state@, uid: self.uid, gid: self.gid, flags: self.flags }
    }
}

/// What a file name says; `None` for one that is not Unicode.
pub open spec fn name_view(name: Option<&str>) -> Option<Seq<char>> {
    match name {
        Some(text) => Some(text@),
        None => None,
    }
}

/// What an answer that is a path says.
pub open spec fn path_answer(answer: Answer<MountPath>) -> Answer<PathView> {
    match answer {
        Ok(path) => Ok(path@),
        Err(number) => Err(number),
    }
}

/// The answer to a request whose reply carries nothing that is used.
pub open spec fn acknowledged(reply: ReplyView) -> Answer<()> {
    match reply {
        Ok(_) => Ok(()),
        Err(e) => Err(errno_of(e.kind)),
    }
}

/// The reply describes an entry.
pub open spec fn describes(reply: ReplyView) -> bool {
    reply matches Ok(ValueView::Metadata(_))
}

fn acknowledge(reply: FsResult<Value>) -> (answer: Answer<()>)
    ensures
        answer == acknowledged(reply_view(reply)),
{
    match reply {
        Ok(_) => Ok(()),
        Err(e) => Err(errno(e)),
    }
}

impl FsView {
    pub open spec fn with_state(self, state: StateView) -> Self {
        FsView { state, ..self }
    }

    /// The path of a number that the kernel uses.
    pub open spec fn path(self, ino: u64) -> Answer<PathView> {
        match self.state.path_of(ino) {
            Some(path) => Ok(path),
            None => Err(Errno::ESTALE),
        }
    }

    /// The path of an entry of a directory.
    pub open spec fn child(self, parent: u64, name: Option<Seq<char>>) -> Answer<PathView> {
        match self.path(parent) {
            Err(number) => Err(number),
            Ok(directory) => match name {
                None => Err(Errno::EILSEQ),
                Some(n) => if is_component(n) {
                    Ok(directory.push(n))
                } else {
                    Err(Errno::EINVAL)
                },
            },
        }
    }

    /// The table and the answer once the provider has described the entry at `path`.
    pub open spec fn entry_found(self, path: PathView, reply: ReplyView) -> (Self, Answer<
        FileAttr,
    >) {
        match reply {
            Ok(ValueView::Metadata(m)) => match self.state.looked_up(path) {
                Some((state, ino)) => (
                    self.with_state(state),
                    Ok(attr_of(ino, m, self.uid, self.gid)),
                ),
                None => (self, Err(Errno::EOVERFLOW)),
            },
            Ok(_) => (self, Err(Errno::EIO)),
            Err(e) => (self, Err(errno_of(e.kind))),
        }
    }
}

impl Fs {
    /// The table is consistent.
    pub open spec fn wf(&self) -> bool {
        self@.state.is_consistent()
    }

    /// A filesystem whose entries belong to `uid` and `gid`, on this host.
    /// `access_mode` is the host's mask for access modes, `O_ACCMODE`.
    pub fn new(uid: u32, gid: u32, access_mode: i32) -> (fs: Self)
        ensures
            fs.wf(),
            fs@ == (FsView {
                state: StateView::initial(),
                uid,
                gid,
                flags: fs@.flags,
            }),
            fs@.flags.are_distinct(),
            fs@.flags.modes_ascend(),
            fs@.flags.access_mode == access_mode,
    {
        Fs::with_flags(uid, gid, HostFlags::native(access_mode))
    }

    /// A filesystem whose kernel requests use the open flags `flags`.
    pub fn with_flags(uid: u32, gid: u32, flags: HostFlags) -> (fs: Self)
        ensures
            fs.wf(),
            fs@ == (FsView { state: StateView::initial(), uid, gid, flags }),
    {
        Fs { state: State::new(), uid, gid, flags }
    }

    /// Whether another lookup of `path` can be counted.
    pub fn can_look_up(&self, path: &MountPath) -> (can: bool)
        requires
            self.wf(),
        ensures
            can == self@.state.can_look_up(path@),
    {
        self.state.can_look_up(path)
    }

    /// Whether another handle on `ino` can be counted.
    pub fn can_open(&self, ino: u64) -> (can: bool)
        ensures
            can == self@.state.can_open(ino),
    {
        self.state.can_open(ino)
    }

    pub fn path(&self, ino: u64) -> (answer: Answer<MountPath>)
        ensures
            path_answer(answer) == self@.path(ino),
    {
        match self.state.path_of(ino) {
            Some(path) => Ok(path),
            None => Err(Errno::ESTALE),
        }
    }

    /// `name` is `None` where it is not Unicode.
    pub fn child(&self, parent: u64, name: Option<&str>) -> (answer: Answer<MountPath>)
        ensures
            path_answer(answer) == self@.child(parent, name_view(name)),
    {
        let directory = match self.path(parent) {
            Ok(path) => path,
            Err(number) => {
                return Err(number);
            },
        };
        match name {
            None => Err(Errno::EILSEQ),
            Some(text) => match directory.child(text) {
                Ok(path) => Ok(path),
                Err(e) => Err(errno(e)),
            },
        }
    }

    /// Counts a lookup of `path` once the provider has described the entry there.
    fn entry_found(&mut self, path: MountPath, reply: FsResult<Value>) -> (answer: Answer<
        FileAttr,
    >)
        requires
            old(self).wf(),
            describes(reply_view(reply)) ==> old(self)@.state.can_look_up(path@),
        ensures
            final(self).wf(),
            (final(self)@, answer) == old(self)@.entry_found(path@, reply_view(reply)),
    {
        match reply {
            Ok(Value::Metadata(m)) => match self.state.lookup(path) {
                Ok(ino) => Ok(attr(ino, m, self.uid, self.gid)),
                Err(number) => Err(number),
            },
            Ok(_) => Err(Errno::EIO),
            Err(e) => Err(errno(e)),
        }
    }
}

/// The attributes shown are those of the entry: its number, its size, as many
/// blocks as hold it and no more, its times where they are known, and all nine
/// permission bits that the provider gives. Without permissions the owner alone
/// may use the entry. Directories and links are told from files.
pub proof fn law_attributes_show_the_entry(ino: u64, m: FsMetadata, uid: u32, gid: u32)
    ensures
        ({
            let shown = attr_of(ino, m, uid, gid);
            &&& shown.ino == ino
            &&& shown.size == m.size
            &&& m.size <= 512 * shown.blocks < m.size + 512
            &&& m.modified matches Some(t) ==> shown.mtime == t && shown.ctime == t && shown.crtime
                == t
            &&& m.modified is None ==> shown.mtime == 0 && shown.ctime == 0 && shown.crtime == 0
            &&& m.accessed matches Some(t) ==> shown.atime == t
            &&& m.accessed is None ==> shown.atime == 0
            &&& m.permissions matches Some(p) ==> shown.perm == p % 512
            &&& m.permissions matches Some(p) ==> p <= 0o777 ==> shown.perm == p
            &&& m.permissions is None ==> shown.perm == (if m.kind == FsKind::Directory {
                0o700u16
            } else {
                0o600u16
            })
            &&& shown.kind == FileType::Directory <==> m.kind == FsKind::Directory
            &&& shown.kind == FileType::Symlink <==> m.kind == FsKind::Symlink
            &&& shown.nlink == (if m.kind == FsKind::Directory {
                2u32
            } else {
                1u32
            })
            &&& shown.uid == uid && shown.gid == gid
            &&& shown.rdev == 0 && shown.blksize == 4096 && shown.flags == 0
        }),
{
    if let Some(p) = m.permissions {
        assert(p & 0o777u32 == p % 512u32) by (bit_vector);
    }
}

/// Whatever other flags come with an access mode, the file is opened for what the
/// mode says: for reading, for writing, or for both. Only a create makes a file,
/// anew where the exclusive flag is set, and is always open for writing. The file
/// is cut exactly where the truncate flag is set.
pub proof fn law_open_flags_ask_for_what_they_say(
    host: HostFlags,
    mode: i32,
    others: i32,
    create: bool,
)
    requires
        host.are_distinct(),
        host.masks_modes(),
        mode == host.read_only || mode == host.write_only || mode == host.read_write,
        others & host.access_mode == 0,
    ensures
        ({
            let flags = mode | others;
            let asked = open_options(flags, create, host);
            &&& asked.read <==> mode == host.read_only || mode == host.read_write
            &&& asked.write <==> mode == host.write_only || mode == host.read_write || create
            &&& asked.create == FsCreate::OpenExisting <==> !create
            &&& asked.create == FsCreate::CreateNew <==> create && flags & host.exclusive != 0
            &&& asked.truncate <==> flags & host.truncate != 0
        }),
{
    let mask = host.access_mode;
    assert((mode | others) & mask == mode) by (bit_vector)
        requires
            mode & mask == mode,
            others & mask == 0,
    ;
}

/// A time to set is the one given, or the present where the present is asked for.
/// One before the epoch, or none, changes nothing.
pub proof fn law_times_to_set(given: UnixTime, now: UnixTime)
    ensures
        given.seconds >= 0 ==> seconds_of(Some(TimeOrNow::SpecificTime(given)), now) == Some(
            given.seconds as u64,
        ),
        given.seconds < 0 ==> seconds_of(Some(TimeOrNow::SpecificTime(given)), now) is None,
        now.seconds >= 0 ==> seconds_of(Some(TimeOrNow::Now), now) == Some(now.seconds as u64),
        now.seconds < 0 ==> seconds_of(Some(TimeOrNow::Now), now) is None,
        seconds_of(None, now) is None,
{
}

/// The kernel's numbers stand for paths as the table has them: the entry `name` of
/// the directory under a number is that directory's path with the name after it.
/// A number without a path is stale, a name that is not Unicode cannot be meant,
/// and a name that is no component is refused.
pub proof fn law_numbers_stand_for_paths(
    fs: FsView,
    parent: u64,
    path: PathView,
    name: Seq<char>,
)
    ensures
        fs.state.nodes.contains_key(parent) && fs.state.nodes[parent].path == Some(path) ==> {
            &&& fs.path(parent) == Ok::<PathView, Errno>(path)
            &&& fs.child(parent, None) == Err::<PathView, Errno>(Errno::EILSEQ)
            &&& is_component(name) ==> (fs.child(parent, Some(name)) matches Ok(child)
                && child.drop_last() == path && child.last() == name && child.len() == path.len()
                + 1)
            &&& !is_component(name) ==> fs.child(parent, Some(name)) == Err::<PathView, Errno>(
                Errno::EINVAL,
            )
        },
        !fs.state.nodes.contains_key(parent) || fs.state.nodes[parent].path is None ==> {
            &&& fs.path(parent) == Err::<PathView, Errno>(Errno::ESTALE)
            &&& fs.child(parent, Some(name)) == Err::<PathView, Errno>(Errno::ESTALE)
            &&& fs.child(parent, None) == Err::<PathView, Errno>(Errno::ESTALE)
        },
{
    assert(path.push(name).drop_last() =~= path);
}

/// An entry that the provider describes gets a number that stands for its path,
/// and is shown as described. Any other reply changes nothing and is an error.
pub proof fn law_found_entries_get_their_number(
    fs: FsView,
    path: PathView,
    m: FsMetadata,
    reply: ReplyView,
)
    requires
        fs.state.is_consistent(),
        fs.state.can_look_up(path),
    ensures
        ({
            let (after, answer) = fs.entry_found(path, Ok(ValueView::Metadata(m)));
            match answer {
                Ok(shown) => {
                    &&& after.state.nodes.contains_key(shown.ino)
                    &&& after.state.nodes[shown.ino].path == Some(path)
                    &&& after.state.paths.contains_key(path) && after.state.paths[path] == shown.ino
                    &&& fs.state.paths.contains_key(path) ==> shown.ino == fs.state.paths[path]
                        && after.state.nodes[shown.ino].lookups
                        == fs.state.nodes[shown.ino].lookups + 1
                    &&& !fs.state.paths.contains_key(path) ==> !fs.state.nodes.contains_key(
                        shown.ino,
                    ) && after.state.nodes[shown.ino].lookups == 1
                    &&& shown.size == m.size && shown.uid == fs.uid && shown.gid == fs.gid
                    &&& shown == attr_of(shown.ino, m, fs.uid, fs.gid)
                },
                Err(number) => after == fs && number == Errno::EOVERFLOW
                    && !fs.state.paths.contains_key(path) && fs.state.next == u64::MAX,
            }
        }),
        match reply {
            Ok(ValueView::Metadata(_)) => true,
            Ok(_) => fs.entry_found(path, reply) == (fs, Err::<FileAttr, Errno>(Errno::EIO)),
            Err(e) => fs.entry_found(path, reply) == (
                fs,
                Err::<FileAttr, Errno>(errno_of(e.kind)),
            ),
        },
{
}

/// A request that only has to be carried out succeeds exactly if the provider says so.
pub proof fn law_only_confirmed_requests_succeed(reply: ReplyView)
    ensures
        acknowledged(reply) is Ok <==> reply is Ok,
        reply matches Err(e) ==> acknowledged(reply) == Err::<(), Errno>(errno_of(e.kind)),
{
}

/// A name that is Unicode says what it says; any other says nothing.
pub proof fn law_names_are_shown(name: Option<&str>)
    ensures
        name_view(name) is Some <==> name is Some,
        name matches Some(text) ==> name_view(name) == Some(text@),
{
}

} // verus!
