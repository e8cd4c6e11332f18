//! Requests on directory entries and their attributes.
use vstd::prelude::*;
use crate::errno::{errno, errno_of, Errno};
use crate::error::FsResult;
use crate::exchange::{Step, StepView};
use crate::fuse::{
    acknowledge, acknowledged, attr, attr_of, describes, name_view, seconds, seconds_of, Answer, FileAttr, Fs,
    FsView, TimeOrNow, UnixTime,
};
use crate::metadata::{FsMetadata, FsSetMetadata};
use crate::path::{is_component, MountPath, PathView};
use crate::wire::{reply_view, Operation, OperationView, ReplyView, Value, ValueView};

verus! {

/// A lookup that waits for the description of the entry at `path`.
pub struct LookupTask {
    pub path: MountPath,
}

#[verifier::ext_equal]
pub struct LookupView {
    pub path: PathView,
}

impl View for LookupTask {
    type V = LookupView;

    open spec fn view(&self) -> LookupView {
        LookupView { path: self.path@ }
    }
}

/// A request for the attributes of `ino` that waits for them.
pub struct GetattrTask {
    pub ino: u64,
}

impl View for GetattrTask {
    type V = u64;

    open spec fn view(&self) -> u64 {
        self.ino
    }
}

/// Attributes to change. `flags` are BSD file flags; `fh` is a handle to change
/// them through.
#[derive(Clone, Copy, Debug)]
pub struct SetAttr {
    pub mode: Option<u32>,
    pub uid: Option<u32>,
    pub gid: Option<u32>,
    pub size: Option<u64>,
    pub atime: Option<TimeOrNow>,
    pub mtime: Option<TimeOrNow>,
    pub fh: Option<u64>,
    pub flags: Option<u32>,
}

/// A change of attributes: first asked for, then read back.
pub enum SetattrTask {
    Change { ino: u64, fh: Option<u64> },
    Read { ino: u64 },
}

impl View for SetattrTask {
    type V = SetattrTask;

    open spec fn view(&self) -> SetattrTask {
        *self
    }
}

/// A removal of the entry at `path` that waits to be confirmed.
pub struct RemoveTask {
    pub path: MountPath,
}

impl View for RemoveTask {
    type V = PathView;

    open spec fn view(&self) -> PathView {
        self.path@
    }
}

/// A new directory: made, given its permissions, described.
pub enum MkdirTask {
    Make { path: MountPath, permissions: u32 },
    Permissions { path: MountPath },
    Lookup { path: MountPath },
}

pub enum MkdirView {
    Make { path: PathView, permissions: u32 },
    Permissions { path: PathView },
    Lookup { path: PathView },
}

impl View for MkdirTask {
    type V = MkdirView;

    open spec fn view(&self) -> MkdirView {
        match *self {
            MkdirTask::Make { path, permissions } => MkdirView::Make { path: path@, permissions },
            MkdirTask::Permissions { path } => MkdirView::Permissions { path: path@ },
            MkdirTask::Lookup { path } => MkdirView::Lookup { path: path@ },
        }
    }
}

/// A rename that waits to be confirmed.
pub struct RenameTask {
    pub from: MountPath,
    pub to: MountPath,
}

#[verifier::ext_equal]
pub struct RenameView {
    pub from: PathView,
    pub to: PathView,
}

impl View for RenameTask {
    type V = RenameView;

    open spec fn view(&self) -> RenameView {
        RenameView { from: self.from@, to: self.to@ }
    }
}

/// A request for the provider's space.
pub struct StatfsTask;

impl View for StatfsTask {
    type V = ();

    open spec fn view(&self) -> () {
        ()
    }
}

/// Space figures as the kernel takes them.
#[derive(Clone, Copy, Debug, PartialEq, Eq)]
pub struct StatFs {
    pub blocks: u64,
    pub bfree: u64,
    pub bavail: u64,
    pub files: u64,
    pub ffree: u64,
    pub bsize: u32,
    pub namelen: u32,
    pub frsize: u32,
}

/// A figure limited to 32 bits.
pub open spec fn limited(value: u64) -> u32 {
    if value <= u32::MAX {
        value as u32
    } else {
        u32::MAX
    }
}

fn limit(value: u64) -> (limited: u32)
    ensures
        limited == self::limited(value),
{
    if value <= u32::MAX as u64 {
        value as u32
    } else {
        u32::MAX
    }
}

impl FsView {
    pub open spec fn lookup(self, parent: u64, name: Option<Seq<char>>) -> StepView<
        LookupView,
        Answer<FileAttr>,
    > {
        match self.child(parent, name) {
            Ok(path) => StepView::Call {
                operation: OperationView::Metadata { path },
                then: LookupView { path },
            },
            Err(number) => StepView::Done { result: Err(number) },
        }
    }

    /// Attributes are read through `handle` where it is an open file, and by path otherwise.
    pub open spec fn getattr(self, ino: u64, handle: Option<u64>) -> StepView<
        u64,
        Answer<FileAttr>,
    > {
        if handle is Some && self.state.files.contains_key(handle->0) {
            StepView::Call {
                operation: OperationView::FileMetadata { handle: handle->0 },
                then: ino,
            }
        } else {
            match self.path(ino) {
                Ok(path) => StepView::Call {
                    operation: OperationView::Metadata { path },
                    then: ino,
                },
                Err(number) => StepView::Done { result: Err(number) },
            }
        }
    }

    pub open spec fn getattr_resumed(self, ino: u64, reply: ReplyView) -> Answer<FileAttr> {
        match reply {
            Ok(ValueView::Metadata(m)) => Ok(attr_of(ino, m, self.uid, self.gid)),
            Ok(_) => Err(Errno::EIO),
            Err(e) => Err(errno_of(e.kind)),
        }
    }

    /// The change asks for another owner or for file flags.
    pub open spec fn unsupported(self, change: SetAttr) -> bool {
        ||| change.uid is Some && change.uid->0 != self.uid
        ||| change.gid is Some && change.gid->0 != self.gid
        ||| change.flags is Some && change.flags->0 != 0
    }

    pub open spec fn setattr(self, ino: u64, change: SetAttr, now: UnixTime) -> StepView<
        SetattrTask,
        Answer<FileAttr>,
    > {
        let metadata = FsSetMetadata {
            size: change.size,
            accessed: seconds_of(change.atime, now),
            modified: seconds_of(change.mtime, now),
            permissions: change.mode,
        };
        let then = SetattrTask::Change { ino, fh: change.fh };
        if self.unsupported(change) {
            StepView::Done { result: Err(Errno::EOPNOTSUPP) }
        } else {
            match change.fh {
                Some(handle) => StepView::Call {
                    operation: OperationView::SetFileMetadata { handle, metadata },
                    then,
                },
                None => match self.path(ino) {
                    Ok(path) => StepView::Call {
                        operation: OperationView::SetMetadata { path, metadata },
                        then,
                    },
                    Err(number) => StepView::Done { result: Err(number) },
                },
            }
        }
    }

    pub open spec fn setattr_resumed(self, task: SetattrTask, reply: ReplyView) -> StepView<
        SetattrTask,
        Answer<FileAttr>,
    > {
        match task {
            SetattrTask::Change { ino, fh } => match reply {
                Ok(_) => match self.getattr(ino, fh) {
                    StepView::Call { operation, then } => StepView::Call {
                        operation,
                        then: SetattrTask::Read { ino },
                    },
                    StepView::Done { result } => StepView::Done { result },
                },
                Err(e) => StepView::Done { result: Err(errno_of(e.kind)) },
            },
            SetattrTask::Read { ino } => StepView::Done {
                result: self.getattr_resumed(ino, reply),
            },
        }
    }

    pub open spec fn remove(self, parent: u64, name: Option<Seq<char>>, directory: bool) -> StepView<
        PathView,
        Answer<()>,
    > {
        match self.child(parent, name) {
            Ok(path) => StepView::Call {
                operation: OperationView::Remove { path, directory },
                then: path,
            },
            Err(number) => StepView::Done { result: Err(number) },
        }
    }

    pub open spec fn unlink(self, parent: u64, name: Option<Seq<char>>) -> StepView<
        PathView,
        Answer<()>,
    > {
        self.remove(parent, name, false)
    }

    pub open spec fn rmdir(self, parent: u64, name: Option<Seq<char>>) -> StepView<
        PathView,
        Answer<()>,
    > {
        self.remove(parent, name, true)
    }

    /// Only a confirmed removal retires the path.
    pub open spec fn remove_resumed(self, path: PathView, reply: ReplyView) -> Self {
        if reply is Ok {
            self.with_state(self.state.retired(path))
        } else {
            self
        }
    }

    pub open spec fn mkdir(
        self,
        parent: u64,
        name: Option<Seq<char>>,
        mode: u32,
        umask: u32,
    ) -> StepView<MkdirView, Answer<FileAttr>> {
        match self.child(parent, name) {
            Ok(path) => StepView::Call {
                operation: OperationView::Mkdir { path },
                then: MkdirView::Make { path, permissions: mode & !umask },
            },
            Err(number) => StepView::Done { result: Err(number) },
        }
    }

    pub open spec fn mkdir_resumed(self, task: MkdirView, reply: ReplyView) -> (Self, StepView<
        MkdirView,
        Answer<FileAttr>,
    >) {
        match task {
            MkdirView::Make { path, permissions } => (
                self,
                match reply {
                    Ok(_) => StepView::Call {
                        operation: OperationView::SetMetadata {
                            path,
                            metadata: FsSetMetadata::only_permissions(permissions),
                        },
                        then: MkdirView::Permissions { path },
                    },
                    Err(e) => StepView::Done { result: Err(errno_of(e.kind)) },
                },
            ),
            MkdirView::Permissions { path } => (
                self,
                match reply {
                    Ok(_) => StepView::Call {
                        operation: OperationView::Metadata { path },
                        then: MkdirView::Lookup { path },
                    },
                    Err(e) => StepView::Done { result: Err(errno_of(e.kind)) },
                },
            ),
            MkdirView::Lookup { path } => {
                let (fs, result) = self.entry_found(path, reply);
                (fs, StepView::Done { result })
            },
        }
    }

    /// The only flag known is the one that forbids replacing.
    pub open spec fn rename(
        self,
        parent: u64,
        name: Option<Seq<char>>,
        new_parent: u64,
        new_name: Option<Seq<char>>,
        flags: u32,
    ) -> StepView<RenameView, Answer<()>> {
        if flags != 0 && flags != 1 {
            StepView::Done { result: Err(Errno::EOPNOTSUPP) }
        } else {
            match self.child(parent, name) {
                Err(number) => StepView::Done { result: Err(number) },
                Ok(from) => match self.child(new_parent, new_name) {
                    Err(number) => StepView::Done { result: Err(number) },
                    Ok(to) => StepView::Call {
                        operation: OperationView::Rename { from, to, replace: flags == 0 },
                        then: RenameView { from, to },
                    },
                },
            }
        }
    }

    /// `after` is the filesystem after the reply to a rename: unchanged where it
    /// was refused or where nothing moved.
    pub open spec fn rename_resumed(self, task: RenameView, reply: ReplyView, after: Self) -> bool {
        if reply is Ok && task.from != task.to {
            &&& self.state.renamed_to(task.from, task.to, after.state)
            &&& after == self.with_state(after.state)
        } else {
            after == self
        }
    }

    pub open spec fn statfs(self, ino: u64) -> StepView<(), Answer<StatFs>> {
        match self.path(ino) {
            Ok(path) => StepView::Call { operation: OperationView::Space { path }, then: () },
            Err(number) => StepView::Done { result: Err(number) },
        }
    }

    pub open spec fn statfs_resumed(reply: ReplyView) -> Answer<StatFs> {
        match reply {
            Ok(ValueView::Space(s)) => Ok(
                StatFs {
                    blocks: s.blocks,
                    bfree: s.blocks_free,
                    bavail: s.blocks_available,
                    files: s.files,
                    ffree: s.files_free,
                    bsize: limited(s.block_size),
                    namelen: limited(s.name_max),
                    frsize: limited(s.block_size),
                },
            ),
            Ok(_) => Err(Errno::EIO),
            Err(e) => Err(errno_of(e.kind)),
        }
    }
}

impl Fs {
    pub fn lookup(&self, parent: u64, name: Option<&str>) -> (step: Step<
        LookupTask,
        Answer<FileAttr>,
    >)
        ensures
            step@ == self@.lookup(parent, name_view(name)),
    {
        match self.child(parent, name) {
            Ok(path) => Step::Call {
                operation: Operation::Metadata { path: path.clone() },
                then: LookupTask { path },
            },
            Err(number) => Step::Done { result: Err(number) },
        }
    }

    pub fn lookup_resume(&mut self, task: LookupTask, reply: FsResult<Value>) -> (answer: Answer<
        FileAttr,
    >)
        requires
            old(self).wf(),
            describes(reply_view(reply)) ==> old(self)@.state.can_look_up(task@.path),
        ensures
            final(self).wf(),
            (final(self)@, answer) == old(self)@.entry_found(task@.path, reply_view(reply)),
    {
        self.entry_found(task.path, reply)
    }

    /// Takes back `count` lookups of `ino`.
    pub fn forget(&mut self, ino: u64, count: u64)
        requires
            old(self).wf(),
        ensures
            final(self).wf(),
            final(self)@ == old(self)@.with_state(old(self)@.state.forgotten(ino, count)),
    {
        self.state.forget(ino, count);
    }

    pub fn getattr(&self, ino: u64, handle: Option<u64>) -> (step: Step<
        GetattrTask,
        Answer<FileAttr>,
    >)
        ensures
            step@ == self@.getattr(ino, handle),
    {
        if let Some(h) = handle {
            if self.state.has_file(h) {
                return Step::Call {
                    operation: Operation::FileMetadata { handle: h },
                    then: GetattrTask { ino },
                };
            }
        }
        match self.path(ino) {
            Ok(path) => Step::Call {
                operation: Operation::Metadata { path },
                then: GetattrTask { ino },
            },
            Err(number) => Step::Done { result: Err(number) },
        }
    }

    pub fn getattr_resume(&self, task: GetattrTask, reply: FsResult<Value>) -> (answer: Answer<
        FileAttr,
    >)
        ensures
            answer == self@.getattr_resumed(task@, reply_view(reply)),
    {
        match reply {
            Ok(Value::Metadata(m)) => Ok(attr(task.ino, m, self.uid, self.gid)),
            Ok(_) => Err(Errno::EIO),
            Err(e) => Err(errno(e)),
        }
    }

    /// `now` is the present, for times to be set to it.
    pub fn setattr(&self, ino: u64, change: SetAttr, now: UnixTime) -> (step: Step<
        SetattrTask,
        Answer<FileAttr>,
    >)
        ensures
            step@ == self@.setattr(ino, change, now),
    {
        let other_uid = match change.uid {
            Some(uid) => uid != self.uid,
            None => false,
        };
        let other_gid = match change.gid {
            Some(gid) => gid != self.gid,
            None => false,
        };
        let file_flags = match change.flags {
            Some(bits) => bits != 0,
            None => false,
        };
        if other_uid || other_gid || file_flags {
            return Step::Done { result: Err(Errno::EOPNOTSUPP) };
        }
        let metadata = FsSetMetadata {
            size: change.size,
            accessed: seconds(change.atime, now),
            modified: seconds(change.mtime, now),
            permissions: change.mode,
        };
        let then = SetattrTask::Change { ino, fh: change.fh };
        match change.fh {
            Some(handle) => Step::Call {
                operation: Operation::SetFileMetadata { handle, metadata },
                then,
            },
            None => match self.path(ino) {
                Ok(path) => Step::Call {
                    operation: Operation::SetMetadata { path, metadata },
                    then,
                },
                Err(number) => Step::Done { result: Err(number) },
            },
        }
    }

    pub fn setattr_resume(&self, task: SetattrTask, reply: FsResult<Value>) -> (step: Step<
        SetattrTask,
        Answer<FileAttr>,
    >)
        ensures
            step@ == self@.setattr_resumed(task@, reply_view(reply)),
    {
        match task {
            SetattrTask::Change { ino, fh } => match reply {
                Ok(_) => match self.getattr(ino, fh) {
                    Step::Call { operation, then } => Step::Call {
                        operation,
                        then: SetattrTask::Read { ino },
                    },
                    Step::Done { result } => Step::Done { result },
                },
                Err(e) => Step::Done { result: Err(errno(e)) },
            },
            SetattrTask::Read { ino } => Step::Done {
                result: self.getattr_resume(GetattrTask { ino }, reply),
            },
        }
    }

    fn remove(&self, parent: u64, name: Option<&str>, directory: bool) -> (step: Step<
        RemoveTask,
        Answer<()>,
    >)
        ensures
            step@ == self@.remove(parent, name_view(name), directory),
            step matches Step::Call { then, .. } ==> then@.len() > 0,
    {
        match self.child(parent, name) {
            Ok(path) => Step::Call {
                operation: Operation::Remove { path: path.clone(), directory },
                then: RemoveTask { path },
            },
            Err(number) => Step::Done { result: Err(number) },
        }
    }

    pub fn unlink(&self, parent: u64, name: Option<&str>) -> (step: Step<RemoveTask, Answer<()>>)
        ensures
            step@ == self@.unlink(parent, name_view(name)),
            step matches Step::Call { then, .. } ==> then@.len() > 0,
    {
        self.remove(parent, name, false)
    }

    pub fn rmdir(&self, parent: u64, name: Option<&str>) -> (step: Step<RemoveTask, Answer<()>>)
        ensures
            step@ == self@.rmdir(parent, name_view(name)),
            step matches Step::Call { then, .. } ==> then@.len() > 0,
    {
        self.remove(parent, name, true)
    }

    pub fn remove_resume(&mut self, task: RemoveTask, reply: FsResult<Value>) -> (answer: Answer<
        (),
    >)
        requires
            old(self).wf(),
            task@.len() > 0,
        ensures
            final(self).wf(),
            final(self)@ == old(self)@.remove_resumed(task@, reply_view(reply)),
            answer == acknowledged(reply_view(reply)),
    {
        if reply.is_ok() {
            self.state.retire_path(&task.path);
        }
        acknowledge(reply)
    }

    pub fn mkdir(&self, parent: u64, name: Option<&str>, mode: u32, umask: u32) -> (step: Step<
        MkdirTask,
        Answer<FileAttr>,
    >)
        ensures
            step@ == self@.mkdir(parent, name_view(name), mode, umask),
    {
        match self.child(parent, name) {
            Ok(path) => Step::Call {
                operation: Operation::Mkdir { path: path.clone() },
                then: MkdirTask::Make { path, permissions: mode & !umask },
            },
            Err(number) => Step::Done { result: Err(number) },
        }
    }

    pub fn mkdir_resume(&mut self, task: MkdirTask, reply: FsResult<Value>) -> (step: Step<
        MkdirTask,
        Answer<FileAttr>,
    >)
        requires
            old(self).wf(),
            task@ matches MkdirView::Lookup { path } ==> describes(reply_view(reply)) ==> old(
                self,
            )@.state.can_look_up(path),
        ensures
            final(self).wf(),
            (final(self)@, step@) == old(self)@.mkdir_resumed(task@, reply_view(reply)),
    {
        match task {
            MkdirTask::Make { path, permissions } => match reply {
                Ok(_) => Step::Call {
                    operation: Operation::SetMetadata {
                        path: path.clone(),
                        metadata: FsSetMetadata {
                            size: None,
                            accessed: None,
                            modified: None,
                            permissions: Some(permissions),
                        },
                    },
                    then: MkdirTask::Permissions { path },
                },
                Err(e) => Step::Done { result: Err(errno(e)) },
            },
            MkdirTask::Permissions { path } => match reply {
                Ok(_) => Step::Call {
                    operation: Operation::Metadata { path: path.clone() },
                    then: MkdirTask::Lookup { path },
                },
                Err(e) => Step::Done { result: Err(errno(e)) },
            },
            MkdirTask::Lookup { path } => Step::Done { result: self.entry_found(path, reply) },
        }
    }

    pub fn rename(
        &self,
        parent: u64,
        name: Option<&str>,
        new_parent: u64,
        new_name: Option<&str>,
        flags: u32,
    ) -> (step: Step<RenameTask, Answer<()>>)
        ensures
            step@ == self@.rename(
                parent,
                name_view(name),
                new_parent,
                name_view(new_name),
                flags,
            ),
            step matches Step::Call { then, .. } ==> then@.from.len() > 0 && then@.to.len() > 0,
    {
        if flags != 0 && flags != 1 {
            return Step::Done { result: Err(Errno::EOPNOTSUPP) };
        }
        let from = match self.child(parent, name) {
            Ok(path) => path,
            Err(number) => {
                return Step::Done { result: Err(number) };
            },
        };
        let to = match self.child(new_parent, new_name) {
            Ok(path) => path,
            Err(number) => {
                return Step::Done { result: Err(number) };
            },
        };
        Step::Call {
            operation: Operation::Rename {
                from: from.clone(),
                to: to.clone(),
                replace: flags == 0,
            },
            then: RenameTask { from, to },
        }
    }

    pub fn rename_resume(&mut self, task: RenameTask, reply: FsResult<Value>) -> (answer: Answer<
        (),
    >)
        requires
            old(self).wf(),
            task@.from.len() > 0,
            task@.to.len() > 0,
        ensures
            final(self).wf(),
            old(self)@.rename_resumed(task@, reply_view(reply), final(self)@),
            answer == acknowledged(reply_view(reply)),
    {
        if reply.is_ok() && !task.from.same(&task.to) {
            self.state.rename_paths(&task.from, &task.to);
        }
        acknowledge(reply)
    }

    pub fn statfs(&self, ino: u64) -> (step: Step<StatfsTask, Answer<StatFs>>)
        ensures
            step@ == self@.statfs(ino),
    {
        match self.path(ino) {
            Ok(path) => Step::Call { operation: Operation::Space { path }, then: StatfsTask },
            Err(number) => Step::Done { result: Err(number) },
        }
    }

    pub fn statfs_resume(&self, task: StatfsTask, reply: FsResult<Value>) -> (answer: Answer<
        StatFs,
    >)
        ensures
            answer == FsView::statfs_resumed(reply_view(reply)),
    {
        match reply {
            Ok(Value::Space(s)) => Ok(
                StatFs {
                    blocks: s.blocks,
                    bfree: s.blocks_free,
                    bavail: s.blocks_available,
                    files: s.files,
                    ffree: s.files_free,
                    bsize: limit(s.block_size),
                    namelen: limit(s.name_max),
                    frsize: limit(s.block_size),
                },
            ),
            Ok(_) => Err(Errno::EIO),
            Err(e) => Err(errno(e)),
        }
    }
}

/// The number `ino` stands for `path` in the table.
pub open spec fn stands_for(fs: FsView, ino: u64, path: PathView) -> bool {
    fs.state.nodes.contains_key(ino) && fs.state.nodes[ino].path == Some(path)
}

/// A lookup asks the provider about the entry `name` of the directory that the
/// kernel names, and about no other.
pub proof fn law_a_lookup_asks_about_the_entry_named(
    fs: FsView,
    parent: u64,
    directory: PathView,
    name: Seq<char>,
)
    requires
        stands_for(fs, parent, directory),
        is_component(name),
    ensures
        fs.lookup(parent, Some(name)) matches StepView::Call { operation, then } && operation
            == (OperationView::Metadata { path: directory + seq![name] }) && then.path == directory
            + seq![name],
{
    assert(directory.push(name) =~= directory + seq![name]);
}

/// Attributes are read through a handle of an open file, so that they are those of
/// the file that was opened, whatever its entry is now. Without one they are read
/// where the table has the number. What the provider describes is what is shown,
/// under the number asked for.
pub proof fn law_attributes_come_from_the_file_asked_for(
    fs: FsView,
    ino: u64,
    path: PathView,
    handle: u64,
    m: FsMetadata,
    reply: ReplyView,
)
    ensures
        fs.state.files.contains_key(handle) ==> fs.getattr(ino, Some(handle)) == (StepView::<
            u64,
            Answer<FileAttr>,
        >::Call { operation: OperationView::FileMetadata { handle }, then: ino }),
        stands_for(fs, ino, path) ==> fs.getattr(ino, None) == (StepView::<
            u64,
            Answer<FileAttr>,
        >::Call { operation: OperationView::Metadata { path }, then: ino }),
        stands_for(fs, ino, path) && !fs.state.files.contains_key(handle) ==> fs.getattr(
            ino,
            Some(handle),
        ) == fs.getattr(ino, None),
        fs.getattr_resumed(ino, Ok(ValueView::Metadata(m))) matches Ok(shown) && shown.ino == ino
            && shown.size == m.size && shown.uid == fs.uid && shown.gid == fs.gid && (
        m.permissions matches Some(p) ==> shown.perm == p % 512) && (m.modified matches Some(t)
            ==> shown.mtime == t) && (m.accessed matches Some(t) ==> shown.atime == t),
        fs.getattr_resumed(ino, reply) is Ok ==> describes(reply),
        reply matches Err(e) ==> fs.getattr_resumed(ino, reply) == Err::<FileAttr, Errno>(
            errno_of(e.kind),
        ),
{
    crate::fuse::law_attributes_show_the_entry(ino, m, fs.uid, fs.gid);
}

/// A change of attributes asks the provider for exactly what is to change: the size,
/// the mode and the times given, and nothing that was not given. It goes through
/// the handle that the kernel names, or to the path of the number. Another owner or
/// file flags are refused before anything is asked; the owner that every entry
/// shows is no change.
pub proof fn law_exactly_the_changes_asked_for_are_made(
    fs: FsView,
    ino: u64,
    path: PathView,
    change: SetAttr,
    now: UnixTime,
)
    requires
        stands_for(fs, ino, path),
        now.seconds >= 0,
    ensures
        ({
            let refused = (change.uid is Some && change.uid != Some(fs.uid)) || (change.gid is Some
                && change.gid != Some(fs.gid)) || (change.flags is Some && change.flags != Some(
                0u32,
            ));
            let step = fs.setattr(ino, change, now);
            let asked = match step {
                StepView::Call {
                    operation: OperationView::SetFileMetadata { handle, metadata },
                    ..
                } => if change.fh == Some(handle) {
                    Some(metadata)
                } else {
                    None
                },
                StepView::Call {
                    operation: OperationView::SetMetadata { path: place, metadata },
                    ..
                } => if change.fh is None && place == path {
                    Some(metadata)
                } else {
                    None
                },
                _ => None,
            };
            &&& refused ==> step == (StepView::<SetattrTask, Answer<FileAttr>>::Done {
                result: Err(Errno::EOPNOTSUPP),
            })
            &&& !refused ==> (asked matches Some(metadata) && {
                &&& metadata.size == change.size
                &&& metadata.permissions == change.mode
                &&& change.atime is None ==> metadata.accessed is None
                &&& change.mtime is None ==> metadata.modified is None
                &&& change.atime == Some(TimeOrNow::Now) ==> metadata.accessed == Some(
                    now.seconds as u64,
                )
                &&& change.mtime == Some(TimeOrNow::Now) ==> metadata.modified == Some(
                    now.seconds as u64,
                )
                &&& change.atime matches Some(TimeOrNow::SpecificTime(t)) ==> t.seconds >= 0
                    ==> metadata.accessed == Some(t.seconds as u64)
                &&& change.mtime matches Some(TimeOrNow::SpecificTime(t)) ==> t.seconds >= 0
                    ==> metadata.modified == Some(t.seconds as u64)
            })
        }),
{
}

/// A change that the provider makes is answered with the attributes read back
/// afterwards, through the same handle where there is one; one that it refuses is
/// answered with its error, and nothing is read. A mode that the provider keeps
/// is the mode that is shown.
pub proof fn law_a_change_of_attributes_reads_back(
    fs: FsView,
    ino: u64,
    path: PathView,
    handle: u64,
    done: ValueView,
    error: crate::error::FsErrorView,
    m: FsMetadata,
)
    requires
        stands_for(fs, ino, path),
        fs.state.files.contains_key(handle),
    ensures
        fs.setattr_resumed(SetattrTask::Change { ino, fh: None }, Ok(done)) == (StepView::<
            SetattrTask,
            Answer<FileAttr>,
        >::Call { operation: OperationView::Metadata { path }, then: SetattrTask::Read { ino } }),
        fs.setattr_resumed(SetattrTask::Change { ino, fh: Some(handle) }, Ok(done)) == (StepView::<
            SetattrTask,
            Answer<FileAttr>,
        >::Call {
            operation: OperationView::FileMetadata { handle },
            then: SetattrTask::Read { ino },
        }),
        fs.setattr_resumed(SetattrTask::Change { ino, fh: None }, Err(error)) == (StepView::<
            SetattrTask,
            Answer<FileAttr>,
        >::Done { result: Err(errno_of(error.kind)) }),
        fs.setattr_resumed(SetattrTask::Read { ino }, Ok(ValueView::Metadata(m))) matches
            StepView::Done { result: Ok(shown) } && shown.ino == ino && shown.size == m.size && (
        m.permissions matches Some(p) ==> p <= 0o777 ==> shown.perm == p),
{
    crate::fuse::law_attributes_show_the_entry(ino, m, fs.uid, fs.gid);
}

/// A removal asks the provider to remove the entry `name` of the directory that the
/// kernel names, as a directory or as a file, as the kernel says. Confirmed, it
/// leaves the path without a number; refused, it changes nothing.
pub proof fn law_a_removal_removes_the_entry_named(
    fs: FsView,
    parent: u64,
    place: PathView,
    name: Seq<char>,
    directory: bool,
    done: ValueView,
    error: crate::error::FsErrorView,
    other: PathView,
)
    requires
        fs.state.is_consistent(),
        stands_for(fs, parent, place),
        is_component(name),
    ensures
        ({
            let path = place + seq![name];
            let after = fs.remove_resumed(path, Ok(done));
            &&& fs.remove(parent, Some(name), directory) == (StepView::<PathView, Answer<()>>::Call {
                operation: OperationView::Remove { path, directory },
                then: path,
            })
            &&& fs.unlink(parent, Some(name)) == (StepView::<PathView, Answer<()>>::Call {
                operation: OperationView::Remove { path, directory: false },
                then: path,
            })
            &&& fs.rmdir(parent, Some(name)) == (StepView::<PathView, Answer<()>>::Call {
                operation: OperationView::Remove { path, directory: true },
                then: path,
            })
            &&& !after.state.paths.contains_key(path)
            &&& other != path ==> after.state.paths.contains_key(other)
                == fs.state.paths.contains_key(other)
            &&& after.state.files == fs.state.files && after.state.dirs == fs.state.dirs
            &&& fs.remove_resumed(path, Err(error)) == fs
        }),
{
    assert(place.push(name) =~= place + seq![name]);
}

/// Bit `i` of a number.
pub open spec fn has_bit(value: u32, i: u32) -> bool {
    (value >> i) & 1 == 1
}

/// The permissions of a new entry hold a bit exactly if the mode asked for holds it
/// and the mask of the process does not.
pub proof fn law_new_permissions_are_masked(mode: u32, umask: u32, permissions: u32)
    ensures
        permissions == mode & !umask <==> forall|i: u32|
            i < 32 ==> (#[trigger] has_bit(permissions, i) <==> has_bit(mode, i) && !has_bit(
                umask,
                i,
            )),
        permissions == mode & !umask ==> permissions & !mode == 0 && permissions & umask == 0,
{
    let kept = mode & !umask;
    assert forall|i: u32| i < 32 implies (#[trigger] has_bit(kept, i) <==> has_bit(mode, i)
        && !has_bit(umask, i)) by {
        assert((((mode & !umask) >> i) & 1 == 1) <==> ((mode >> i) & 1 == 1) && !((umask >> i) & 1
            == 1)) by (bit_vector)
            requires
                i < 32,
        ;
    }
    assert((mode & !umask) & !mode == 0 && (mode & !umask) & umask == 0) by (bit_vector);
    if forall|i: u32|
        i < 32 ==> (#[trigger] has_bit(permissions, i) <==> has_bit(mode, i) && !has_bit(
            umask,
            i,
        )) {
        assert forall|i: u32| i < 32 implies #[trigger] has_bit(permissions, i) == has_bit(
            kept,
            i,
        ) by {}
        lemma_same_bits(permissions, kept);
    }
}

/// Numbers with the same bits are the same.
proof fn lemma_same_bits(a: u32, b: u32)
    requires
        forall|i: u32| i < 32 ==> #[trigger] has_bit(a, i) == has_bit(b, i),
    ensures
        a == b,
{
    if a != b {
        let difference = a ^ b;
        assert(a != b ==> a ^ b != 0) by (bit_vector);
        lemma_some_bit(difference);
        let i = choose|i: u32| i < 32 && #[trigger] has_bit(difference, i);
        assert((((a ^ b) >> i) & 1 == 1) ==> ((a >> i) & 1 == 1) != ((b >> i) & 1 == 1))
            by (bit_vector)
            requires
                i < 32,
        ;
        assert(has_bit(a, i) == has_bit(b, i));
    }
}

/// A number that is not zero has a bit.
proof fn lemma_some_bit(value: u32)
    requires
        value != 0,
    ensures
        exists|i: u32| i < 32 && #[trigger] has_bit(value, i),
{
    lemma_some_bit_below(value, 32);
}

proof fn lemma_some_bit_below(value: u32, count: u32)
    requires
        value != 0,
        count <= 32,
        count < 32 ==> value >> count == 0,
    ensures
        exists|i: u32| i < 32 && #[trigger] has_bit(value, i),
    decreases count,
{
    if count == 0 {
        assert(value >> 0u32 == value) by (bit_vector);
    } else {
        let i = (count - 1) as u32;
        if !has_bit(value, i) {
            assert(value >> i == 0) by (bit_vector)
                requires
                    i < 32,
                    i + 1 < 32 ==> value >> ((i + 1) as u32) == 0,
                    (value >> i) & 1 != 1,
            ;
            lemma_some_bit_below(value, i);
        }
    }
}

/// A new directory is made as the entry `name` of the directory that the kernel
/// names, then given exactly the permissions of the mode asked for that the mask
/// leaves, and nothing else, and then described. A step that the provider refuses
/// ends it with the provider's error.
pub proof fn law_a_new_directory_is_made_as_asked(
    fs: FsView,
    parent: u64,
    place: PathView,
    name: Seq<char>,
    mode: u32,
    umask: u32,
    i: u32,
    done: ValueView,
    error: crate::error::FsErrorView,
)
    requires
        stands_for(fs, parent, place),
        is_component(name),
        i < 32,
    ensures
        ({
            let path = place + seq![name];
            match fs.mkdir(parent, Some(name), mode, umask) {
                StepView::Call { operation, then } => {
                    &&& operation == (OperationView::Mkdir { path })
                    &&& match fs.mkdir_resumed(then, Ok(done)) {
                        (
                            same,
                            StepView::Call {
                                operation: OperationView::SetMetadata { path: target, metadata },
                                then: next,
                            },
                        ) => {
                            &&& same == fs
                            &&& target == path
                            &&& metadata.size is None && metadata.accessed is None
                                && metadata.modified is None
                            &&& metadata.permissions matches Some(p) && has_bit(p, i) == (has_bit(
                                mode,
                                i,
                            ) && !has_bit(umask, i))
                            &&& fs.mkdir_resumed(next, Ok(done)) == (
                                fs,
                                StepView::<MkdirView, Answer<FileAttr>>::Call {
                                    operation: OperationView::Metadata { path },
                                    then: MkdirView::Lookup { path },
                                },
                            )
                            &&& fs.mkdir_resumed(next, Err(error)) == (
                                fs,
                                StepView::<MkdirView, Answer<FileAttr>>::Done {
                                    result: Err(errno_of(error.kind)),
                                },
                            )
                        },
                        _ => false,
                    }
                    &&& fs.mkdir_resumed(then, Err(error)) == (
                        fs,
                        StepView::<MkdirView, Answer<FileAttr>>::Done {
                            result: Err(errno_of(error.kind)),
                        },
                    )
                },
                _ => false,
            }
        }),
{
    assert(place.push(name) =~= place + seq![name]);
    law_new_permissions_are_masked(mode, umask, mode & !umask);
    assert(has_bit(mode & !umask, i) <==> has_bit(mode, i) && !has_bit(umask, i));
}

/// A rename moves the entry `name` of the one directory to the entry `new_name` of
/// the other, each directory being where the table has it; the flag says only
/// whether something there may be replaced. Renames that differ in a directory or
/// in a name ask for different places.
pub proof fn law_a_rename_moves_between_the_places_named(
    fs: FsView,
    parent: u64,
    place: PathView,
    name: Seq<char>,
    new_parent: u64,
    new_place: PathView,
    new_name: Seq<char>,
)
    requires
        stands_for(fs, parent, place),
        stands_for(fs, new_parent, new_place),
        is_component(name),
        is_component(new_name),
    ensures
        ({
            let from = place + seq![name];
            let to = new_place + seq![new_name];
            &&& fs.rename(parent, Some(name), new_parent, Some(new_name), 0) == (StepView::<
                RenameView,
                Answer<()>,
            >::Call {
                operation: OperationView::Rename { from, to, replace: true },
                then: RenameView { from, to },
            })
            &&& fs.rename(parent, Some(name), new_parent, Some(new_name), 1) == (StepView::<
                RenameView,
                Answer<()>,
            >::Call {
                operation: OperationView::Rename { from, to, replace: false },
                then: RenameView { from, to },
            })
            &&& from.drop_last() == place && from.last() == name
            &&& to.drop_last() == new_place && to.last() == new_name
        }),
{
    assert(place.push(name) =~= place + seq![name]);
    assert(new_place.push(new_name) =~= new_place + seq![new_name]);
    assert((place + seq![name]).drop_last() =~= place);
    assert((new_place + seq![new_name]).drop_last() =~= new_place);
}

/// Flags that are not known, a stale directory, and a name that is no component are
/// refused before the provider is asked.
pub proof fn law_unclear_renames_are_refused(
    fs: FsView,
    parent: u64,
    name: Option<Seq<char>>,
    new_parent: u64,
    new_name: Option<Seq<char>>,
    flags: u32,
)
    ensures
        flags > 1 ==> fs.rename(parent, name, new_parent, new_name, flags) == (StepView::<
            RenameView,
            Answer<()>,
        >::Done { result: Err(Errno::EOPNOTSUPP) }),
        fs.rename(parent, name, new_parent, new_name, flags) is Call ==> {
            &&& flags <= 1
            &&& fs.state.path_of(parent) is Some && fs.state.path_of(new_parent) is Some
            &&& name matches Some(n) && is_component(n)
            &&& new_name matches Some(n) && is_component(n)
        },
{
}

/// After a confirmed rename the numbers follow: what stood at the old place stands
/// at the new one, under the same number, where neither place lies within the
/// other; nothing is listed at the old place any more. A refused rename, and one to
/// the same place, change nothing.
pub proof fn law_numbers_follow_a_rename(
    fs: FsView,
    from: PathView,
    to: PathView,
    below: PathView,
    done: ValueView,
    error: crate::error::FsErrorView,
    after: FsView,
    refused: FsView,
)
    requires
        fs.state.is_consistent(),
        from.len() > 0,
        to.len() > 0,
        !crate::path::within(from, to),
        !crate::path::within(to, from),
        fs.rename_resumed(RenameView { from, to }, Ok(done), after),
        fs.rename_resumed(RenameView { from, to }, Err(error), refused),
    ensures
        refused == fs,
        fs.state.paths.contains_key(from + below) ==> {
            &&& after.state.paths.contains_key(to + below)
            &&& after.state.paths[to + below] == fs.state.paths[from + below]
            &&& !after.state.paths.contains_key(from + below)
        },
        after.state.files == fs.state.files,
        after.state.next == fs.state.next,
        after.uid == fs.uid && after.gid == fs.gid && after.flags == fs.flags,
{
    assert(from != to) by {
        if from == to {
            assert(from.take(to.len() as int) =~= to);
        }
    }
    crate::inodes::law_rename_moves_exactly_the_subtree(fs.state, from, to, after.state);
    let path = from + below;
    let place = to + below;
    crate::path::law_renamed_subtrees_keep_their_shape(path, from, to, below);
    crate::path::law_renamed_subtrees_keep_their_shape(place, to, from, below);
    if fs.state.paths.contains_key(path) {
        assert(path != to) by {
            if path == to {
                assert(crate::path::within(to, from));
            }
        }
        assert(fs.state.retired(to).paths.contains_key(path));
        crate::inodes::law_removal_affects_one_path(fs.state, to, path);
        assert(!crate::inodes::arrives(fs.state.retired(to).paths, from, to, path)) by {
            if crate::path::within(path, to) {
                crate::inodes::lemma_apart(path, to, from);
            }
        }
    }
}

/// The figures of the provider's space are shown as they are, but for those that
/// the kernel takes in 32 bits, which stop at the largest such number.
pub proof fn law_space_is_shown_as_it_is(
    fs: FsView,
    ino: u64,
    path: PathView,
    s: crate::metadata::FsSpace,
)
    requires
        stands_for(fs, ino, path),
    ensures
        fs.statfs(ino) == (StepView::<(), Answer<StatFs>>::Call {
            operation: OperationView::Space { path },
            then: (),
        }),
        FsView::statfs_resumed(Ok(ValueView::Space(s))) matches Ok(shown) && {
            &&& shown.blocks == s.blocks && shown.bfree == s.blocks_free && shown.bavail
                == s.blocks_available
            &&& shown.files == s.files && shown.ffree == s.files_free
            &&& s.block_size <= u32::MAX ==> shown.bsize == s.block_size && shown.frsize
                == s.block_size
            &&& s.block_size > u32::MAX ==> shown.bsize == u32::MAX && shown.frsize == u32::MAX
            &&& s.name_max <= u32::MAX ==> shown.namelen == s.name_max
            &&& s.name_max > u32::MAX ==> shown.namelen == u32::MAX
        },
{
}

} // verus!
