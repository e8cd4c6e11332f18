//! Requests on file handles.
use vstd::prelude::*;
use crate::errno::{errno, errno_of, Errno};
use crate::error::{FsErrorView, FsResult};
use crate::exchange::{Step, StepView};
use crate::fuse::{
    acknowledge, acknowledged, describes, name_view, open_options, options, Answer, FileAttr, Fs,
    FsView, UnixTime,
};
use crate::fuse::entries::{
    has_bit, law_new_permissions_are_masked, stands_for, RenameView, SetAttr,
};
use crate::inodes::{law_held_numbers_survive_rename, StateView};
use crate::metadata::{FsCreate, FsSetMetadata};
use crate::path::{is_component, MountPath, PathView};
use crate::transfer::{
    count32, ReadStep, ReadStepView, ReadView, TransferError, TransferErrorView, WriteStep,
    WriteStepView, WriteView,
};
use crate::wire::{reply_view, Operation, OperationView, ReplyView, Value, ValueView};

verus! {

/// An open of `ino` that waits for the provider's handle.
pub struct OpenTask {
    pub ino: u64,
}

impl View for OpenTask {
    type V = u64;

    open spec fn view(&self) -> u64 {
        self.ino
    }
}

/// A new file: opened, given its permissions, described. One that fails once it
/// is open is closed again before the failure is answered.
pub enum CreateTask {
    Open { path: MountPath, permissions: u32 },
    Permissions { path: MountPath, handle: u64 },
    Lookup { path: MountPath, handle: u64 },
    Close { number: Errno },
}

pub enum CreateView {
    Open { path: PathView, permissions: u32 },
    Permissions { path: PathView, handle: u64 },
    Lookup { path: PathView, handle: u64 },
    Close { number: Errno },
}

impl View for CreateTask {
    type V = CreateView;

    open spec fn view(&self) -> CreateView {
        match *self {
            CreateTask::Open { path, permissions } => CreateView::Open { path: path@, permissions },
            CreateTask::Permissions { path, handle } => CreateView::Permissions {
                path: path@,
                handle,
            },
            CreateTask::Lookup { path, handle } => CreateView::Lookup { path: path@, handle },
            CreateTask::Close { number } => CreateView::Close { number },
        }
    }
}

/// A flush that waits to be confirmed.
pub struct FlushTask;

impl View for FlushTask {
    type V = ();

    open spec fn view(&self) -> () {
        ()
    }
}

/// A release of the handle `fh` on `ino` that waits to be confirmed.
#[derive(Clone, Copy, Debug)]
pub struct ReleaseTask {
    pub ino: u64,
    pub fh: u64,
}

impl View for ReleaseTask {
    type V = ReleaseTask;

    open spec fn view(&self) -> ReleaseTask {
        *self
    }
}

/// The error number of a transfer that stopped.
pub open spec fn transfer_errno(error: TransferErrorView) -> Errno {
    match error {
        TransferErrorView::Overflow => Errno::EOVERFLOW,
        TransferErrorView::Malformed => Errno::EIO,
        TransferErrorView::Provider(e) => errno_of(e.kind),
    }
}

fn transfer_failure(error: TransferError) -> (number: Errno)
    ensures
        number == transfer_errno(error@),
{
    match error {
        TransferError::Overflow => Errno::EOVERFLOW,
        TransferError::Malformed => Errno::EIO,
        TransferError::Provider(e) => errno(e),
    }
}

/// What a finished read is answered with.
pub fn read_answer(result: Result<Vec<u8>, TransferError>) -> (answer: Answer<Vec<u8>>)
    ensures
        match result {
            Ok(bytes) => answer == Ok::<Vec<u8>, Errno>(bytes),
            Err(e) => answer == Err::<Vec<u8>, Errno>(transfer_errno(e@)),
        },
{
    match result {
        Ok(bytes) => Ok(bytes),
        Err(e) => Err(transfer_failure(e)),
    }
}

/// What a finished write is answered with: the count, in 32 bits.
pub fn write_answer(result: Result<usize, TransferError>) -> (answer: Answer<u32>)
    ensures
        match result {
            Ok(count) => answer matches Ok(written) && written == count as int % 0x1_0000_0000,
            Err(e) => answer == Err::<u32, Errno>(transfer_errno(e@)),
        },
{
    match result {
        Ok(count) => Ok(count32(count)),
        Err(e) => Err(transfer_failure(e)),
    }
}

/// The reply gives a handle.
pub open spec fn gives_handle(reply: ReplyView) -> bool {
    reply matches Ok(ValueView::Handle(_))
}

impl StateView {
    /// The table with the handle `handle` noted as a file opened on `id`.
    pub open spec fn with_file(self, handle: u64, id: u64) -> Self {
        StateView { files: self.files.insert(handle, id), ..self }
    }

    /// The table after the handle `fh` on `ino` has been given back.
    pub open spec fn released(self, ino: u64, fh: u64) -> Self {
        StateView { files: self.files.remove(fh), ..self }.closed(ino)
    }

    /// A handle on the entry at `path` can still be counted.
    pub open spec fn can_create(self, path: PathView) -> bool {
        &&& self.can_look_up(path)
        &&& self.paths.contains_key(path) ==> self.can_open(self.paths[path])
    }
}

impl FsView {
    pub open spec fn open(self, ino: u64, flags: i32) -> StepView<u64, Answer<u64>> {
        match self.path(ino) {
            Ok(path) => StepView::Call {
                operation: OperationView::Open {
                    path,
                    options: open_options(flags, false, self.flags),
                },
                then: ino,
            },
            Err(number) => StepView::Done { result: Err(number) },
        }
    }

    /// The handle is noted even where `ino` has gone meanwhile.
    pub open spec fn open_resumed(self, ino: u64, reply: ReplyView) -> (Self, Answer<u64>) {
        match reply {
            Ok(ValueView::Handle(handle)) => {
                let noted = self.state.with_file(handle, ino);
                if noted.nodes.contains_key(ino) {
                    (self.with_state(noted.opened(ino)), Ok(handle))
                } else {
                    (self.with_state(noted), Err(Errno::ESTALE))
                }
            },
            Ok(_) => (self, Err(Errno::EIO)),
            Err(e) => (self, Err(errno_of(e.kind))),
        }
    }

    pub open spec fn create(
        self,
        parent: u64,
        name: Option<Seq<char>>,
        mode: u32,
        umask: u32,
        flags: i32,
    ) -> StepView<CreateView, Answer<(FileAttr, u64)>> {
        match self.child(parent, name) {
            Ok(path) => StepView::Call {
                operation: OperationView::Open {
                    path,
                    options: open_options(flags, true, self.flags),
                },
                then: CreateView::Open { path, permissions: mode & !umask },
            },
            Err(number) => StepView::Done { result: Err(number) },
        }
    }

    pub open spec fn create_resumed(self, task: CreateView, reply: ReplyView) -> (Self, StepView<
        CreateView,
        Answer<(FileAttr, u64)>,
    >) {
        match task {
            CreateView::Open { path, permissions } => (
                self,
                match reply {
                    Ok(ValueView::Handle(handle)) => StepView::Call {
                        operation: OperationView::SetFileMetadata {
                            handle,
                            metadata: FsSetMetadata::only_permissions(permissions),
                        },
                        then: CreateView::Permissions { path, handle },
                    },
                    Ok(_) => StepView::Done { result: Err(Errno::EIO) },
                    Err(e) => StepView::Done { result: Err(errno_of(e.kind)) },
                },
            ),
            CreateView::Permissions { path, handle } => (
                self,
                match reply {
                    Ok(_) => StepView::Call {
                        operation: OperationView::Metadata { path },
                        then: CreateView::Lookup { path, handle },
                    },
                    Err(e) => StepView::Call {
                        operation: OperationView::Close { handle },
                        then: CreateView::Close { number: errno_of(e.kind) },
                    },
                },
            ),
            CreateView::Lookup { path, handle } => {
                let (fs, answer) = self.entry_found(path, reply);
                match answer {
                    Ok(attr) => (
                        fs.with_state(fs.state.with_file(handle, attr.ino).opened(attr.ino)),
                        StepView::Done { result: Ok((attr, handle)) },
                    ),
                    Err(number) => (
                        fs,
                        StepView::Call {
                            operation: OperationView::Close { handle },
                            then: CreateView::Close { number },
                        },
                    ),
                }
            },
            CreateView::Close { number } => (self, StepView::Done { result: Err(number) }),
        }
    }

    /// A read that has received nothing yet.
    pub open spec fn read(self, fh: u64, offset: u64, size: u32) -> ReadView {
        ReadView { handle: fh, offset, size: size as int, bytes: Seq::empty() }
    }

    /// A write of which nothing is acknowledged yet.
    pub open spec fn write(self, fh: u64, offset: u64, bytes: Seq<u8>) -> WriteView {
        WriteView { handle: fh, offset, bytes, done: 0 }
    }

    pub open spec fn flush(self, fh: u64) -> StepView<(), Answer<()>> {
        StepView::Call { operation: OperationView::Flush { handle: fh }, then: () }
    }

    pub open spec fn release(self, ino: u64, fh: u64) -> StepView<ReleaseTask, Answer<()>> {
        StepView::Call {
            operation: OperationView::Close { handle: fh },
            then: ReleaseTask { ino, fh },
        }
    }

    /// The handle is given back whatever the provider says.
    pub open spec fn release_resumed(self, task: ReleaseTask) -> Self {
        self.with_state(self.state.released(task.ino, task.fh))
    }
}

impl Fs {
    /// Whether another handle on the entry at `path` can be counted.
    pub fn can_create(&self, path: &MountPath) -> (can: bool)
        requires
            self.wf(),
        ensures
            can == self@.state.can_create(path@),
    {
        if !self.state.can_look_up(path) {
            return false;
        }
        match self.state.number_of(path) {
            Some(id) => self.state.can_open(id),
            None => true,
        }
    }

    pub fn open(&self, ino: u64, flags: i32) -> (step: Step<OpenTask, Answer<u64>>)
        ensures
            step@ == self@.open(ino, flags),
    {
        match self.path(ino) {
            Ok(path) => Step::Call {
                operation: Operation::Open { path, options: options(flags, false, &self.flags) },
                then: OpenTask { ino },
            },
            Err(number) => Step::Done { result: Err(number) },
        }
    }

    pub fn open_resume(&mut self, task: OpenTask, reply: FsResult<Value>) -> (answer: Answer<u64>)
        requires
            old(self).wf(),
            gives_handle(reply_view(reply)) ==> old(self)@.state.can_open(task@),
        ensures
            final(self).wf(),
            (final(self)@, answer) == old(self)@.open_resumed(task@, reply_view(reply)),
    {
        match reply {
            Ok(Value::Handle(handle)) => {
                self.state.add_file(handle, task.ino);
                if self.state.count_open(task.ino) {
                    Ok(handle)
                } else {
                    Err(Errno::ESTALE)
                }
            },
            Ok(_) => Err(Errno::EIO),
            Err(e) => Err(errno(e)),
        }
    }

    pub fn create(
        &self,
        parent: u64,
        name: Option<&str>,
        mode: u32,
        umask: u32,
        flags: i32,
    ) -> (step: Step<CreateTask, Answer<(FileAttr, u64)>>)
        ensures
            step@ == self@.create(parent, name_view(name), mode, umask, flags),
    {
        match self.child(parent, name) {
            Ok(path) => Step::Call {
                operation: Operation::Open {
                    path: path.clone(),
                    options: options(flags, true, &self.flags),
                },
                then: CreateTask::Open { path, permissions: mode & !umask },
            },
            Err(number) => Step::Done { result: Err(number) },
        }
    }

    pub fn create_resume(&mut self, task: CreateTask, reply: FsResult<Value>) -> (step: Step<
        CreateTask,
        Answer<(FileAttr, u64)>,
    >)
        requires
            old(self).wf(),
            task@ matches CreateView::Lookup { path, handle } ==> describes(reply_view(reply))
                ==> old(self)@.state.can_create(path),
        ensures
            final(self).wf(),
            (final(self)@, step@) == old(self)@.create_resumed(task@, reply_view(reply)),
    {
        match task {
            CreateTask::Open { path, permissions } => match reply {
                Ok(Value::Handle(handle)) => Step::Call {
                    operation: Operation::SetFileMetadata {
                        handle,
                        metadata: FsSetMetadata {
                            size: None,
                            accessed: None,
                            modified: None,
                            permissions: Some(permissions),
                        },
                    },
                    then: CreateTask::Permissions { path, handle },
                },
                Ok(_) => Step::Done { result: Err(Errno::EIO) },
                Err(e) => Step::Done { result: Err(errno(e)) },
            },
            CreateTask::Permissions { path, handle } => match reply {
                Ok(_) => Step::Call {
                    operation: Operation::Metadata { path: path.clone() },
                    then: CreateTask::Lookup { path, handle },
                },
                Err(e) => Step::Call {
                    operation: Operation::Close { handle },
                    then: CreateTask::Close { number: errno(e) },
                },
            },
            CreateTask::Lookup { path, handle } => match self.entry_found(path, reply) {
                Ok(attr) => {
                    self.state.add_file(handle, attr.ino);
                    let _ = self.state.count_open(attr.ino);
                    Step::Done { result: Ok((attr, handle)) }
                },
                Err(number) => Step::Call {
                    operation: Operation::Close { handle },
                    then: CreateTask::Close { number },
                },
            },
            CreateTask::Close { number } => Step::Done { result: Err(number) },
        }
    }

    /// Starts a read; see [`read_answer`] for its end.
    pub fn read(&self, fh: u64, offset: u64, size: u32) -> (step: ReadStep)
        ensures
            step@ == self@.read(fh, offset, size).step(),
    {
        crate::transfer::read(fh, offset, size as usize)
    }

    /// Starts a write; see [`write_answer`] for its end.
    pub fn write(&self, fh: u64, offset: u64, bytes: Vec<u8>) -> (step: WriteStep)
        ensures
            step@ == self@.write(fh, offset, bytes@).step(),
    {
        crate::transfer::write(fh, offset, bytes)
    }

    pub fn flush(&self, fh: u64) -> (step: Step<FlushTask, Answer<()>>)
        ensures
            step@ == self@.flush(fh),
    {
        Step::Call { operation: Operation::Flush { handle: fh }, then: FlushTask }
    }

    /// A flush and a synchronisation are the same to the provider.
    pub fn fsync(&self, fh: u64) -> (step: Step<FlushTask, Answer<()>>)
        ensures
            step@ == self@.flush(fh),
    {
        self.flush(fh)
    }

    pub fn flush_resume(&self, task: FlushTask, reply: FsResult<Value>) -> (answer: Answer<()>)
        ensures
            answer == acknowledged(reply_view(reply)),
    {
        acknowledge(reply)
    }

    pub fn release(&self, ino: u64, fh: u64) -> (step: Step<ReleaseTask, Answer<()>>)
        ensures
            step@ == self@.release(ino, fh),
    {
        Step::Call { operation: Operation::Close { handle: fh }, then: ReleaseTask { ino, fh } }
    }

    pub fn release_resume(&mut self, task: ReleaseTask, reply: FsResult<Value>) -> (answer: Answer<
        (),
    >)
        requires
            old(self).wf(),
        ensures
            final(self).wf(),
            final(self)@ == old(self)@.release_resumed(task@),
            answer == acknowledged(reply_view(reply)),
    {
        self.state.remove_file(task.fh);
        self.state.count_close(task.ino);
        acknowledge(reply)
    }
}

/// A new file that fails once the provider has opened it is closed again, with
/// the same handle, before the failure is answered, and the table knows nothing
/// of that handle. One that succeeds answers with that handle and notes it.
pub proof fn law_a_failed_create_closes_its_handle(
    fs: FsView,
    path: PathView,
    handle: u64,
    reply: ReplyView,
)
    requires
        fs.state.is_consistent(),
    ensures
        reply matches Err(e) ==> fs.create_resumed(
            CreateView::Permissions { path, handle },
            reply,
        ) == (
            fs,
            StepView::<CreateView, Answer<(FileAttr, u64)>>::Call {
                operation: OperationView::Close { handle },
                then: CreateView::Close { number: errno_of(e.kind) },
            },
        ),
        match fs.create_resumed(CreateView::Lookup { path, handle }, reply) {
            (after, StepView::Done { result }) => {
                &&& result matches Ok((attr, given)) && given == handle
                    && after.state.files.contains_key(handle)
                    && after.state.files[handle] == attr.ino && after.state.path_of(attr.ino)
                    == Some(path)
            },
            (after, StepView::Call { operation, then }) => {
                &&& operation == OperationView::Close { handle }
                &&& then is Close
                &&& after == fs
                &&& forall|last: ReplyView| #[trigger]
                    after.create_resumed(then, last) == (
                        fs,
                        StepView::<CreateView, Answer<(FileAttr, u64)>>::Done {
                            result: Err(then->number),
                        },
                    )
            },
        },
{
    let (after, step) = fs.create_resumed(CreateView::Lookup { path, handle }, reply);
    if step is Done {
        let (found, answer) = fs.entry_found(path, reply);
        let (state, ino) = fs.state.looked_up(path)->0;
        assert(found.state == state);
        assert(state.path_of(ino) == Some(path));
    }
}

/// Releasing a handle undoes its open: the file is forgotten and the count of
/// handles is what it was.
pub proof fn law_release_undoes_open(fs: FsView, ino: u64, handle: u64)
    requires
        fs.state.is_consistent(),
        fs.state.nodes.contains_key(ino),
        !fs.state.is_unused(ino),
        fs.state.can_open(ino),
        !fs.state.files.contains_key(handle),
    ensures
        ({
            let (opened, answer) = fs.open_resumed(ino, Ok(ValueView::Handle(handle)));
            &&& answer == Ok::<u64, Errno>(handle)
            &&& opened.state.nodes[ino].opens == fs.state.nodes[ino].opens + 1
            &&& opened.release_resumed(ReleaseTask { ino, fh: handle }) == fs
        }),
{
    let (opened, _) = fs.open_resumed(ino, Ok(ValueView::Handle(handle)));
    let after = opened.release_resumed(ReleaseTask { ino, fh: handle });
    assert(after.state.files =~= fs.state.files);
    assert(after.state.nodes =~= fs.state.nodes);
    assert(after =~= fs);
}

/// A file that is open stays usable when its entry is removed, renamed or
/// replaced: its number and its handle remain, and its attributes are still read
/// and changed through the handle.
pub proof fn law_open_files_outlive_their_entries(
    fs: FsView,
    after: FsView,
    path: PathView,
    rename: RenameView,
    reply: ReplyView,
    ino: u64,
    handle: u64,
    change: SetAttr,
    now: UnixTime,
)
    requires
        fs.state.is_consistent(),
        fs.state.files.contains_key(handle),
        fs.state.nodes.contains_key(ino),
        fs.state.nodes[ino].opens > 0,
        after == fs.remove_resumed(path, reply) || fs.rename_resumed(rename, reply, after),
        change.fh == Some(handle),
        !fs.unsupported(change),
    ensures
        after.state.files == fs.state.files,
        after.state.nodes.contains_key(ino),
        after.state.nodes[ino].opens == fs.state.nodes[ino].opens,
        after.getattr(ino, Some(handle)) == (StepView::<u64, Answer<FileAttr>>::Call {
            operation: OperationView::FileMetadata { handle },
            then: ino,
        }),
        after.setattr(ino, change, now) matches StepView::Call { operation, .. } && (
        operation matches OperationView::SetFileMetadata { handle: asked, .. } && asked == handle),
{
    if after != fs.remove_resumed(path, reply) && after != fs {
        law_held_numbers_survive_rename(
            fs.state,
            rename.from,
            rename.to,
            after.state,
            ino,
        );
    }
}

/// An open asks the provider for the file that the number stands for, never makes
/// one, and asks for the access that the flags say. The handle that the provider
/// gives is the one answered, and it is counted on that number.
pub proof fn law_an_open_opens_the_file_asked_for(
    fs: FsView,
    ino: u64,
    path: PathView,
    flags: i32,
    handle: u64,
    reply: ReplyView,
)
    requires
        stands_for(fs, ino, path),
        fs.state.can_open(ino),
    ensures
        fs.open(ino, flags) matches StepView::Call {
            operation: OperationView::Open { path: asked, options },
            then,
        } && {
            &&& asked == path
            &&& then == ino
            &&& options == open_options(flags, false, fs.flags)
            &&& options.create == FsCreate::OpenExisting
        },
        ({
            let (after, answer) = fs.open_resumed(ino, Ok(ValueView::Handle(handle)));
            &&& answer == Ok::<u64, Errno>(handle)
            &&& after.state.files.contains_key(handle) && after.state.files[handle] == ino
            &&& after.state.nodes[ino].opens == fs.state.nodes[ino].opens + 1
            &&& after.state.nodes[ino].path == Some(path)
            &&& after.state.paths == fs.state.paths && after.state.dirs == fs.state.dirs
        }),
        !gives_handle(reply) ==> fs.open_resumed(ino, reply).0 == fs && fs.open_resumed(
            ino,
            reply,
        ).1 is Err,
        reply matches Err(e) ==> fs.open_resumed(ino, reply).1 == Err::<u64, Errno>(
            errno_of(e.kind),
        ),
{
}

/// A new file is opened as the entry `name` of the directory that the kernel names,
/// for writing, and anew where the exclusive flag is set. It is then given exactly
/// the permissions of the mode asked for that the mask leaves, and nothing else, and
/// described. The answer holds the provider's handle.
pub proof fn law_a_new_file_is_made_as_asked(
    fs: FsView,
    parent: u64,
    place: PathView,
    name: Seq<char>,
    mode: u32,
    umask: u32,
    flags: i32,
    handle: u64,
    i: u32,
    done: ValueView,
    error: FsErrorView,
)
    requires
        stands_for(fs, parent, place),
        is_component(name),
        i < 32,
    ensures
        ({
            let path = place + seq![name];
            match fs.create(parent, Some(name), mode, umask, flags) {
                StepView::Call {
                    operation: OperationView::Open { path: asked, options },
                    then,
                } => {
                    &&& asked == path
                    &&& options.write
                    &&& options.create == (if flags & fs.flags.exclusive != 0 {
                        FsCreate::CreateNew
                    } else {
                        FsCreate::OpenOrCreate
                    })
                    &&& options.truncate == (flags & fs.flags.truncate != 0)
                    &&& options == open_options(flags, true, fs.flags)
                    &&& match fs.create_resumed(then, Ok(ValueView::Handle(handle))) {
                        (
                            same,
                            StepView::Call {
                                operation: OperationView::SetFileMetadata {
                                    handle: changed,
                                    metadata,
                                },
                                then: next,
                            },
                        ) => {
                            &&& same == fs
                            &&& changed == handle
                            &&& metadata.size is None && metadata.accessed is None
                                && metadata.modified is None
                            &&& metadata.permissions matches Some(p) && has_bit(p, i) == (has_bit(
                                mode,
                                i,
                            ) && !has_bit(umask, i))
                            &&& metadata.permissions matches Some(p) && p & !mode == 0 && p & umask
                                == 0
                            &&& fs.create_resumed(next, Ok(done)) == (
                                fs,
                                StepView::<CreateView, Answer<(FileAttr, u64)>>::Call {
                                    operation: OperationView::Metadata { path },
                                    then: CreateView::Lookup { path, handle },
                                },
                            )
                        },
                        _ => false,
                    }
                    &&& fs.create_resumed(then, Err(error)) == (
                        fs,
                        StepView::<CreateView, Answer<(FileAttr, u64)>>::Done {
                            result: Err(errno_of(error.kind)),
                        },
                    )
                },
                _ => false,
            }
        }),
{
    assert(place.push(name) =~= place + seq![name]);
    law_new_permissions_are_masked(mode, umask, mode & !umask);
    assert(has_bit(mode & !umask, i) <==> has_bit(mode, i) && !has_bit(umask, i));
}

/// A new file that the provider describes is shown as described, under the number
/// of its path, with its handle noted and counted.
pub proof fn law_a_new_file_is_open(
    fs: FsView,
    path: PathView,
    handle: u64,
    m: crate::metadata::FsMetadata,
)
    requires
        fs.state.is_consistent(),
        fs.state.can_create(path),
        fs.state.next < u64::MAX,
    ensures
        fs.create_resumed(
            CreateView::Lookup { path, handle },
            Ok(ValueView::Metadata(m)),
        ) matches (after, StepView::Done { result: Ok((shown, given)) }) && {
            &&& given == handle
            &&& shown.size == m.size
            &&& m.permissions matches Some(p) ==> shown.perm == p % 512
            &&& after.state.paths.contains_key(path) && after.state.paths[path] == shown.ino
            &&& after.state.nodes[shown.ino].path == Some(path)
            &&& after.state.files.contains_key(handle) && after.state.files[handle] == shown.ino
            &&& after.state.nodes[shown.ino].opens == 1 + (if fs.state.paths.contains_key(path) {
                fs.state.nodes[fs.state.paths[path]].opens as int
            } else {
                0
            })
        },
{
    let (after, _) = fs.create_resumed(
        CreateView::Lookup { path, handle },
        Ok(ValueView::Metadata(m)),
    );
    let (_, ino) = fs.state.looked_up(path)->0;
    crate::fuse::law_attributes_show_the_entry(ino, m, fs.uid, fs.gid);
}

/// A release gives back the handle that the kernel names, and no other, whatever
/// the provider answers.
pub proof fn law_a_release_gives_one_handle_back(fs: FsView, ino: u64, handle: u64, other: u64)
    requires
        fs.state.nodes.contains_key(ino),
        fs.state.nodes[ino].opens > 1,
        other != handle,
    ensures
        ({
            let after = fs.release_resumed(ReleaseTask { ino, fh: handle });
            &&& !after.state.files.contains_key(handle)
            &&& after.state.files.contains_key(other) == fs.state.files.contains_key(other)
            &&& fs.state.files.contains_key(other) ==> after.state.files[other]
                == fs.state.files[other]
            &&& after.state.nodes[ino].opens == fs.state.nodes[ino].opens - 1
            &&& after.state.nodes[ino].lookups == fs.state.nodes[ino].lookups
            &&& after.state.nodes[ino].path == fs.state.nodes[ino].path
            &&& after.state.paths == fs.state.paths && after.state.dirs == fs.state.dirs
        }),
{
}

/// A transfer that stops says why: a range past the largest offset is an overflow,
/// an answer that makes no sense is an input or output error, and what the provider
/// says is passed on.
pub proof fn law_stopped_transfers_say_why(error: FsErrorView)
    ensures
        transfer_errno(TransferErrorView::Overflow) == Errno::EOVERFLOW,
        transfer_errno(TransferErrorView::Malformed) == Errno::EIO,
        transfer_errno(TransferErrorView::Provider(error)) == errno_of(error.kind),
{
}

/// Reads, writes, flushes and releases go to the handle that the kernel names, and
/// reads and writes to the place and of the length that it names: the first request
/// of a read or a write starts exactly there.
pub proof fn law_requests_go_to_the_handle_named(
    fs: FsView,
    ino: u64,
    fh: u64,
    offset: u64,
    size: u32,
    bytes: Seq<u8>,
)
    requires
        size > 0,
        bytes.len() > 0,
    ensures
        fs.read(fh, offset, size).step() matches ReadStepView::Call {
            operation: OperationView::Read { handle, offset: at, length },
            ..
        } && handle == fh && at == offset && (size <= 32768 ==> length == size),
        fs.write(fh, offset, bytes).step() matches WriteStepView::Call {
            operation: OperationView::Write { handle, offset: at, bytes: part },
            ..
        } && handle == fh && at == offset && (bytes.len() <= 32768 ==> part == bytes),
        fs.read(fh, offset, size).size == size,
        fs.read(fh, offset, size).bytes.len() == 0,
        fs.write(fh, offset, bytes).bytes == bytes,
        fs.write(fh, offset, bytes).done == 0,
        fs.flush(fh) matches StepView::Call { operation, .. } && operation == (
        OperationView::Flush { handle: fh }),
        fs.release(ino, fh) matches StepView::Call { operation, then } && operation == (
        OperationView::Close { handle: fh }) && then.ino == ino && then.fh == fh,
{
    assert(bytes.subrange(0, bytes.len() as int) =~= bytes);
}

} // verus!
