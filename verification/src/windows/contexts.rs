//! How handles of Windows come and go.
use std::collections::VecDeque;
use vstd::prelude::*;
use crate::error::FsResult;
use crate::metadata::{EntryView, FsCreate, FsKind, FsMetadata, FsOpenOptions};
use crate::mount_gate::OpenGuard;
use crate::path::{MountPath, PathView};
use crate::text::joined;
use crate::windows::{
    described, description, failure, fill, info_of, information, informed, status_of, Context,
    ContextView, Directory, DirectoryView, FileInfo, Fs, FsView, NtResult, NtStatus,
};
use crate::windows::names::{name_view, path, path_named};
use crate::windows_handles::{
    blocking, blocks_detach, handle_of, knows, with_file_closed, without, HandleView, OpenHandle,
};
use crate::wire::{reply_view, Operation, OperationView, ReplyView, Value, ValueView};

verus! {

/// The right to read data.
pub const READ_DATA: u32 = 0x1;

/// The rights to write and to append data.
pub const WRITE_DATA: u32 = 0x6;

/// The entry must be, or is to be, a directory.
pub const DIRECTORY_FILE: u32 = 0x1;

/// The entry must not be a directory.
pub const NON_DIRECTORY_FILE: u32 = 0x40;

/// What the provider is asked to open for a handle with the rights `access`. A
/// handle without data rights reads, to have a stable identity; creating an empty
/// file takes writing, whatever the rights.
pub open spec fn options_for(access: u32, create: FsCreate) -> FsOpenOptions {
    FsOpenOptions {
        read: access & READ_DATA != 0 || access & WRITE_DATA == 0,
        write: access & WRITE_DATA != 0 || create != FsCreate::OpenExisting,
        create,
        truncate: false,
    }
}

fn open_options(access: u32, create: FsCreate) -> (options: FsOpenOptions)
    ensures
        options == options_for(access, create),
{
    FsOpenOptions {
        read: access & READ_DATA != 0 || access & WRITE_DATA == 0,
        write: access & WRITE_DATA != 0 || create != FsCreate::OpenExisting,
        create,
        truncate: false,
    }
}

/// An entry about to be opened, once nothing can fail any more.
pub struct Opening {
    pub path: PathView,
    pub access: u32,
    pub create: FsCreate,
    pub file: Option<u64>,
    pub is_dir: bool,
}

impl Opening {
    pub open spec fn handle(self) -> HandleView {
        HandleView {
            path: self.path,
            file: self.file,
            writable: self.access & WRITE_DATA != 0 || self.create != FsCreate::OpenExisting,
        }
    }

    /// Only handles that keep the drive in use stay counted.
    pub open spec fn context(self, id: u64) -> ContextView {
        ContextView {
            counted: blocking(self.is_dir, self.access),
            id,
            file: self.file,
            is_dir: self.is_dir,
            directory: DirectoryView::initial(),
        }
    }
}

impl FsView {
    pub open spec fn entered(self) -> Self {
        FsView { gate: self.gate.entered(), ..self }
    }

    pub open spec fn left(self) -> Self {
        FsView { gate: self.gate.left(), ..self }
    }

    /// The filesystem after `opening` has become the handle `id`. The mount gate was
    /// entered before.
    pub open spec fn opened(self, opening: Opening, id: u64) -> Self {
        FsView {
            handles: self.handles.push((id, opening.handle())),
            gate: if blocking(opening.is_dir, opening.access) {
                self.gate
            } else {
                self.gate.left()
            },
            ..self
        }
    }

    /// The filesystem after a context has gone.
    pub open spec fn closed(self, context: ContextView) -> Self {
        FsView {
            handles: without(self.handles, context.id),
            gate: if context.counted {
                self.gate.left()
            } else {
                self.gate
            },
            ..self
        }
    }
}

impl FsView {
    /// The path that may be opened under a name: none while the drive is being
    /// detached, and none where the name stands for no path.
    pub open spec fn admitted(self, name: Option<Seq<char>>) -> NtResult<PathView> {
        if !self.gate.is_open() {
            Err(NtStatus::DeviceNotConnected)
        } else {
            path_named(name)
        }
    }

    /// The path that may be created under a name: none on a root that cannot be written.
    pub open spec fn creatable(self, name: Option<Seq<char>>) -> NtResult<PathView> {
        if !self.caps.writable {
            Err(NtStatus::MediaWriteProtected)
        } else {
            self.admitted(name)
        }
    }
}

/// An open that waits for the entry's attributes, or for the provider's handle.
pub enum OpenTask {
    Metadata { guard: OpenGuard, path: MountPath, options: u32, access: u32 },
    Handle { guard: OpenGuard, path: MountPath, access: u32, metadata: FsMetadata },
}

pub enum OpenTaskView {
    Metadata { path: PathView, options: u32, access: u32 },
    Handle { path: PathView, access: u32, metadata: FsMetadata },
}

impl View for OpenTask {
    type V = OpenTaskView;

    open spec fn view(&self) -> OpenTaskView {
        match *self {
            OpenTask::Metadata { guard, path, options, access } => OpenTaskView::Metadata {
                path: path@,
                options,
                access,
            },
            OpenTask::Handle { guard, path, access, metadata } => OpenTaskView::Handle {
                path: path@,
                access,
                metadata,
            },
        }
    }
}

pub enum OpenStep {
    Call { operation: Operation, then: OpenTask },
    Done { result: NtResult<(Context, FileInfo)> },
}

/// What a reply to an open leads to.
pub enum OpenDecision {
    Call { operation: OperationView, then: OpenTaskView },
    Fail { status: NtStatus },
    Open { opening: Opening, info: FileInfo },
}

/// An entry of the wrong kind is refused before it is opened.
pub open spec fn open_decision(task: OpenTaskView, reply: ReplyView) -> OpenDecision {
    match task {
        OpenTaskView::Metadata { path, options, access } => match description(reply) {
            Err(status) => OpenDecision::Fail { status },
            Ok(metadata) => {
                let is_dir = metadata.kind == FsKind::Directory;
                if options & DIRECTORY_FILE != 0 && !is_dir {
                    OpenDecision::Fail { status: NtStatus::NotADirectory }
                } else if options & NON_DIRECTORY_FILE != 0 && is_dir {
                    OpenDecision::Fail { status: NtStatus::FileIsADirectory }
                } else if is_dir {
                    OpenDecision::Open {
                        opening: Opening {
                            path,
                            access,
                            create: FsCreate::OpenExisting,
                            file: None,
                            is_dir,
                        },
                        info: info_of(metadata),
                    }
                } else {
                    OpenDecision::Call {
                        operation: OperationView::Open {
                            path,
                            options: options_for(access, FsCreate::OpenExisting),
                        },
                        then: OpenTaskView::Handle { path, access, metadata },
                    }
                }
            },
        },
        OpenTaskView::Handle { path, access, metadata } => match reply {
            Ok(ValueView::Handle(handle)) => OpenDecision::Open {
                opening: Opening {
                    path,
                    access,
                    create: FsCreate::OpenExisting,
                    file: Some(handle),
                    is_dir: false,
                },
                info: info_of(metadata),
            },
            Ok(_) => OpenDecision::Fail { status: NtStatus::InvalidParameter },
            Err(e) => OpenDecision::Fail { status: status_of(e.kind) },
        },
    }
}

/// `step` is what a decision asks for, with `before` and `after` the filesystem
/// around it. A failure gives the place at the mount gate back.
pub open spec fn follows_open(
    decision: OpenDecision,
    before: FsView,
    after: FsView,
    step: OpenStep,
) -> bool {
    match (decision, step) {
        (
            OpenDecision::Call { operation, then },
            OpenStep::Call { operation: asked, then: next },
        ) => asked@ == operation && next@ == then && after == before,
        (OpenDecision::Fail { status }, OpenStep::Done { result: Err(given) }) => given == status
            && after == before.left(),
        (OpenDecision::Open { opening, info }, OpenStep::Done { result: Ok((context, given)) }) => {
            &&& !knows(before.handles, context@.id)
            &&& context@ == opening.context(context@.id)
            &&& given == info
            &&& after == before.opened(opening, context@.id)
            &&& after.holds(context@)
        },
        _ => false,
    }
}

impl Fs {
    /// Keeps a new handle. `path` is where its entry is.
    fn keep(
        &mut self,
        guard: OpenGuard,
        path: MountPath,
        access: u32,
        create: FsCreate,
        file: Option<u64>,
        is_dir: bool,
    ) -> (context: Context)
        requires
            old(self).wf(),
        ensures
            final(self).wf(),
            !knows(old(self)@.handles, context@.id),
            ({
                let opening = Opening { path: path@, access, create, file, is_dir };
                &&& context@ == opening.context(context@.id)
                &&& final(self)@ == old(self)@.opened(opening, context@.id)
                &&& final(self)@.holds(context@)
                &&& final(self)@.path(context@) == path@
            }),
    {
        let ghost opening = Opening { path: path@, access, create, file, is_dir };
        let writable = access & WRITE_DATA != 0 || create != FsCreate::OpenExisting;
        let id: u64 = self.handles.register(OpenHandle { path, file, writable });
        let open = if blocks_detach(is_dir, access) {
            Some(guard)
        } else {
            self.gate.leave(guard);
            None
        };
        let directory = Directory {
            handle: None,
            pending: VecDeque::new(),
            last: None,
            eof: false,
        };
        assert(directory@.pending =~= Seq::<EntryView>::empty());
        let context = Context { open, id, file, is_dir, directory };
        proof {
            let place = old(self)@.handles.len() as int;
            assert(crate::windows_handles::is_at(self@.handles, id, place));
            assert forall|other: int| #[trigger]
                crate::windows_handles::is_at(self@.handles, id, other) implies other == place by {
                if other != place {
                    assert(crate::windows_handles::is_at(old(self)@.handles, id, other));
                }
            }
        }
        context
    }

    /// Starts to open the entry `name`; `None` is a name that is not Unicode.
    pub fn open(&mut self, name: Option<&str>, options: u32, access: u32) -> (step: OpenStep)
        requires
            old(self).wf(),
        ensures
            final(self).wf(),
            match old(self)@.admitted(name_view(name)) {
                Err(wrong) => final(self)@ == old(self)@ && (step matches OpenStep::Done {
                    result: Err(status),
                } && status == wrong),
                Ok(p) => final(self)@ == old(self)@.entered() && (step matches OpenStep::Call {
                    operation,
                    then,
                } && operation@ == (OperationView::Metadata { path: p }) && then@
                    == (OpenTaskView::Metadata { path: p, options, access })),
            },
    {
        let guard = match self.gate.enter() {
            Ok(guard) => guard,
            Err(_) => {
                return OpenStep::Done { result: Err(NtStatus::DeviceNotConnected) };
            },
        };
        match path(name) {
            Err(status) => {
                self.gate.leave(guard);
                OpenStep::Done { result: Err(status) }
            },
            Ok(p) => OpenStep::Call {
                operation: Operation::Metadata { path: p.clone() },
                then: OpenTask::Metadata { guard, path: p, options, access },
            },
        }
    }

    /// Goes on with the provider's reply.
    pub fn open_resume(&mut self, task: OpenTask, reply: FsResult<Value>) -> (step: OpenStep)
        requires
            old(self).wf(),
        ensures
            final(self).wf(),
            follows_open(
                open_decision(task@, reply_view(reply)),
                old(self)@,
                final(self)@,
                step,
            ),
    {
        match task {
            OpenTask::Metadata { guard, path, options, access } => {
                let metadata = match described(reply) {
                    Ok(metadata) => metadata,
                    Err(status) => {
                        self.gate.leave(guard);
                        return OpenStep::Done { result: Err(status) };
                    },
                };
                let is_dir = metadata.kind == FsKind::Directory;
                if options & DIRECTORY_FILE != 0 && !is_dir {
                    self.gate.leave(guard);
                    return OpenStep::Done { result: Err(NtStatus::NotADirectory) };
                }
                if options & NON_DIRECTORY_FILE != 0 && is_dir {
                    self.gate.leave(guard);
                    return OpenStep::Done { result: Err(NtStatus::FileIsADirectory) };
                }
                if is_dir {
                    let context = self.keep(
                        guard,
                        path,
                        access,
                        FsCreate::OpenExisting,
                        None,
                        true,
                    );
                    return OpenStep::Done { result: Ok((context, fill(&metadata))) };
                }
                OpenStep::Call {
                    operation: Operation::Open {
                        path: path.clone(),
                        options: open_options(access, FsCreate::OpenExisting),
                    },
                    then: OpenTask::Handle { guard, path, access, metadata },
                }
            },
            OpenTask::Handle { guard, path, access, metadata } => match reply {
                Ok(Value::Handle(handle)) => {
                    let context = self.keep(
                        guard,
                        path,
                        access,
                        FsCreate::OpenExisting,
                        Some(handle),
                        false,
                    );
                    OpenStep::Done { result: Ok((context, fill(&metadata))) }
                },
                Ok(_) => {
                    self.gate.leave(guard);
                    OpenStep::Done { result: Err(NtStatus::InvalidParameter) }
                },
                Err(e) => {
                    self.gate.leave(guard);
                    OpenStep::Done { result: Err(failure(e)) }
                },
            },
        }
    }
}

/// Which reply a close waits for. A close that was not confirmed is reported, and
/// the reply to that report is not looked at.
#[derive(Clone, Copy, Debug, PartialEq, Eq, Structural)]
pub enum CloseStage {
    File,
    FileReport,
    Directory,
    DirectoryReport,
}

/// A context on its way out.
pub struct CloseTask {
    context: Context,
    stage: CloseStage,
}

#[verifier::ext_equal]
pub struct CloseTaskView {
    pub context: ContextView,
    pub stage: CloseStage,
}

impl View for CloseTask {
    type V = CloseTaskView;

    closed spec fn view(&self) -> CloseTaskView {
        CloseTaskView { context: self.context@, stage: self.stage }
    }
}

pub enum CloseStep {
    Call { operation: Operation, then: CloseTask },
    /// Print `message` and report it as a warning, then resume with the reply.
    Warn { message: String, then: CloseTask },
    Done,
}

pub enum CloseView {
    Call { operation: OperationView, then: CloseTaskView },
    Warn { message: Seq<char>, then: CloseTaskView },
    Done,
}

impl View for CloseStep {
    type V = CloseView;

    open spec fn view(&self) -> CloseView {
        match *self {
            CloseStep::Call { operation, then } => CloseView::Call {
                operation: operation@,
                then: then@,
            },
            CloseStep::Warn { message, then } => CloseView::Warn {
                message: message@,
                then: then@,
            },
            CloseStep::Done => CloseView::Done,
        }
    }
}

impl ContextView {
    /// The context without its directory's handle.
    pub open spec fn directory_closed(self) -> Self {
        ContextView {
            directory: DirectoryView { handle: None, ..self.directory },
            ..self
        }
    }
}

impl FsView {
    /// The provider's file handle is closed first, if there is one.
    pub open spec fn close(self, context: ContextView) -> (Self, CloseView) {
        match handle_of(self.handles, context.id).file {
            Some(handle) => (
                FsView { handles: with_file_closed(self.handles, context.id), ..self },
                CloseView::Call {
                    operation: OperationView::Close { handle },
                    then: CloseTaskView { context, stage: CloseStage::File },
                },
            ),
            None => self.close_directory(context),
        }
    }

    /// Then its directory handle, if there is one; then the context goes.
    pub open spec fn close_directory(self, context: ContextView) -> (Self, CloseView) {
        match context.directory.handle {
            Some(handle) => (
                self,
                CloseView::Call {
                    operation: OperationView::CloseDirectory { handle },
                    then: CloseTaskView {
                        context: context.directory_closed(),
                        stage: CloseStage::Directory,
                    },
                },
            ),
            None => (self.closed(context), CloseView::Done),
        }
    }

    pub open spec fn close_resumed(self, task: CloseTaskView, reply: ReplyView) -> (
        Self,
        CloseView,
    ) {
        match (task.stage, reply) {
            (CloseStage::File, Err(e)) => (
                self,
                CloseView::Warn {
                    message: "Remote file close was not confirmed: "@ + e.message,
                    then: CloseTaskView { stage: CloseStage::FileReport, ..task },
                },
            ),
            (CloseStage::File, Ok(_)) => self.close_directory(task.context),
            (CloseStage::FileReport, _) => self.close_directory(task.context),
            (CloseStage::Directory, Err(e)) => (
                self,
                CloseView::Warn {
                    message: "Remote directory close was not confirmed: "@ + e.message,
                    then: CloseTaskView { stage: CloseStage::DirectoryReport, ..task },
                },
            ),
            (CloseStage::Directory, Ok(_)) => (self.closed(task.context), CloseView::Done),
            (CloseStage::DirectoryReport, _) => (self.closed(task.context), CloseView::Done),
        }
    }
}

impl Fs {
    /// Starts to close a context. What the provider does not confirm is reported,
    /// and the context goes all the same.
    pub fn close(&mut self, context: Context) -> (step: CloseStep)
        requires
            old(self).wf(),
            old(self)@.holds(context@),
        ensures
            final(self).wf(),
            (final(self)@, step@) == old(self)@.close(context@),
    {
        match self.handles.file(context.id) {
            Some(handle) => {
                self.handles.close_file(context.id);
                CloseStep::Call {
                    operation: Operation::Close { handle },
                    then: CloseTask { context, stage: CloseStage::File },
                }
            },
            None => self.close_directory(context),
        }
    }

    fn close_directory(&mut self, context: Context) -> (step: CloseStep)
        requires
            old(self).wf(),
        ensures
            final(self).wf(),
            (final(self)@, step@) == old(self)@.close_directory(context@),
    {
        let ghost before = context@;
        let mut context = context;
        match context.directory.handle {
            Some(handle) => {
                context.directory.handle = None;
                assert(context@ == before.directory_closed());
                CloseStep::Call {
                    operation: Operation::CloseDirectory { handle },
                    then: CloseTask { context, stage: CloseStage::Directory },
                }
            },
            None => {
                self.finish(context);
                CloseStep::Done
            },
        }
    }

    fn finish(&mut self, context: Context)
        requires
            old(self).wf(),
        ensures
            final(self).wf(),
            final(self)@ == old(self)@.closed(context@),
    {
        self.handles.release(context.id);
        if let Some(guard) = context.open {
            self.gate.leave(guard);
        }
    }

    /// Goes on with the provider's reply.
    pub fn close_resume(&mut self, task: CloseTask, reply: FsResult<Value>) -> (step: CloseStep)
        requires
            old(self).wf(),
        ensures
            final(self).wf(),
            (final(self)@, step@) == old(self)@.close_resumed(task@, reply_view(reply)),
    {
        match task.stage {
            CloseStage::File => match reply {
                Err(e) => CloseStep::Warn {
                    message: joined("Remote file close was not confirmed: ", e.message.as_str()),
                    then: CloseTask { context: task.context, stage: CloseStage::FileReport },
                },
                Ok(_) => self.close_directory(task.context),
            },
            CloseStage::FileReport => self.close_directory(task.context),
            CloseStage::Directory => match reply {
                Err(e) => CloseStep::Warn {
                    message: joined(
                        "Remote directory close was not confirmed: ",
                        e.message.as_str(),
                    ),
                    then: CloseTask { context: task.context, stage: CloseStage::DirectoryReport },
                },
                Ok(_) => {
                    self.finish(task.context);
                    CloseStep::Done
                },
            },
            CloseStage::DirectoryReport => {
                self.finish(task.context);
                CloseStep::Done
            },
        }
    }
}

/// A new entry: made if it is a directory, opened if it is a file, described. One
/// that cannot be described is closed again before the failure is answered.
pub enum CreateTask {
    Mkdir { guard: OpenGuard, path: MountPath, access: u32 },
    Open { guard: OpenGuard, path: MountPath, access: u32 },
    Metadata { context: Context },
    Close { close: CloseTask, status: NtStatus },
}

pub enum CreateTaskView {
    Mkdir { path: PathView, access: u32 },
    Open { path: PathView, access: u32 },
    Metadata { context: ContextView },
    Close { close: CloseTaskView, status: NtStatus },
}

impl View for CreateTask {
    type V = CreateTaskView;

    open spec fn view(&self) -> CreateTaskView {
        match *self {
            CreateTask::Mkdir { guard, path, access } => CreateTaskView::Mkdir {
                path: path@,
                access,
            },
            CreateTask::Open { guard, path, access } => CreateTaskView::Open {
                path: path@,
                access,
            },
            CreateTask::Metadata { context } => CreateTaskView::Metadata { context: context@ },
            CreateTask::Close { close, status } => CreateTaskView::Close { close: close@, status },
        }
    }
}

pub enum CreateStep {
    Call { operation: Operation, then: CreateTask },
    /// Print `message` and report it as a warning, then resume with the reply.
    Warn { message: String, then: CreateTask },
    Done { result: NtResult<(Context, FileInfo)> },
}

/// What a create asks first: for a directory, or for a new file.
pub open spec fn first_request(path: PathView, options: u32, access: u32) -> (
    OperationView,
    CreateTaskView,
) {
    if options & DIRECTORY_FILE != 0 {
        (OperationView::Mkdir { path }, CreateTaskView::Mkdir { path, access })
    } else {
        (
            OperationView::Open { path, options: options_for(access, FsCreate::CreateNew) },
            CreateTaskView::Open { path, access },
        )
    }
}

/// What a reply to the first requests of a create leads to.
pub enum CreateDecision {
    Fail { status: NtStatus },
    Open { opening: Opening },
}

/// The entry is open once its directory is made or its file opened.
pub open spec fn create_decision(task: CreateTaskView, reply: ReplyView) -> CreateDecision {
    match (task, reply) {
        (_, Err(e)) => CreateDecision::Fail { status: status_of(e.kind) },
        (CreateTaskView::Mkdir { path, access }, Ok(_)) => CreateDecision::Open {
            opening: Opening {
                path,
                access,
                create: FsCreate::CreateNew,
                file: None,
                is_dir: true,
            },
        },
        (
            CreateTaskView::Open { path, access },
            Ok(ValueView::Handle(handle)),
        ) => CreateDecision::Open {
            opening: Opening {
                path,
                access,
                create: FsCreate::CreateNew,
                file: Some(handle),
                is_dir: false,
            },
        },
        _ => CreateDecision::Fail { status: NtStatus::InvalidParameter },
    }
}

/// `step` is what the reply to `task` asks for, with `before` and `after` the
/// filesystem around it.
pub open spec fn follows_create(
    task: CreateTaskView,
    reply: ReplyView,
    before: FsView,
    after: FsView,
    step: CreateStep,
) -> bool {
    match task {
        CreateTaskView::Metadata { context } => match information(reply) {
            Ok(info) => after == before && (step matches CreateStep::Done {
                result: Ok((given, shown)),
            } && given@ == context && shown == info),
            Err(status) => closing(before.close(context), status, after, step),
        },
        CreateTaskView::Close { close, status } => closing(
            before.close_resumed(close, reply),
            status,
            after,
            step,
        ),
        _ => match create_decision(task, reply) {
            CreateDecision::Fail { status } => after == before.left() && (
            step matches CreateStep::Done { result: Err(given) } && given == status),
            CreateDecision::Open { opening } => step matches CreateStep::Call { operation, then }
                && then matches CreateTask::Metadata { context } && {
                &&& !knows(before.handles, context@.id)
                &&& context@ == opening.context(context@.id)
                &&& after == before.opened(opening, context@.id)
                &&& after.holds(context@)
                &&& operation@ == (match opening.file {
                    Some(handle) => OperationView::FileMetadata { handle },
                    None => OperationView::Metadata { path: opening.path },
                })
            },
        },
    }
}

/// `step` passes a close on, and answers with `status` once it is done.
pub open spec fn closing(
    close: (FsView, CloseView),
    status: NtStatus,
    after: FsView,
    step: CreateStep,
) -> bool {
    &&& after == close.0
    &&& match close.1 {
        CloseView::Call { operation, then } => step matches CreateStep::Call {
            operation: asked,
            then: next,
        } && asked@ == operation && next@ == (CreateTaskView::Close { close: then, status }),
        CloseView::Warn { message, then } => step matches CreateStep::Warn {
            message: text,
            then: next,
        } && text@ == message && next@ == (CreateTaskView::Close { close: then, status }),
        CloseView::Done => step matches CreateStep::Done { result: Err(given) } && given == status,
    }
}

impl Fs {
    /// Starts to create the entry `name`, a directory where `options` say so.
    pub fn create(&mut self, name: Option<&str>, options: u32, access: u32) -> (step: CreateStep)
        requires
            old(self).wf(),
        ensures
            final(self).wf(),
            match old(self)@.creatable(name_view(name)) {
                Err(wrong) => final(self)@ == old(self)@ && (step matches CreateStep::Done {
                    result: Err(status),
                } && status == wrong),
                Ok(p) => final(self)@ == old(self)@.entered() && (step matches CreateStep::Call {
                    operation,
                    then,
                } && (operation@, then@) == first_request(p, options, access)),
            },
    {
        if !self.caps.writable {
            return CreateStep::Done { result: Err(NtStatus::MediaWriteProtected) };
        }
        let guard = match self.gate.enter() {
            Ok(guard) => guard,
            Err(_) => {
                return CreateStep::Done { result: Err(NtStatus::DeviceNotConnected) };
            },
        };
        match path(name) {
            Err(status) => {
                self.gate.leave(guard);
                CreateStep::Done { result: Err(status) }
            },
            Ok(p) => if options & DIRECTORY_FILE != 0 {
                CreateStep::Call {
                    operation: Operation::Mkdir { path: p.clone() },
                    then: CreateTask::Mkdir { guard, path: p, access },
                }
            } else {
                CreateStep::Call {
                    operation: Operation::Open {
                        path: p.clone(),
                        options: open_options(access, FsCreate::CreateNew),
                    },
                    then: CreateTask::Open { guard, path: p, access },
                }
            },
        }
    }

    /// Goes on with the provider's reply.
    pub fn create_resume(&mut self, task: CreateTask, reply: FsResult<Value>) -> (step: CreateStep)
        requires
            old(self).wf(),
            task@ matches CreateTaskView::Metadata { context } ==> old(self)@.holds(context),
        ensures
            final(self).wf(),
            follows_create(task@, reply_view(reply), old(self)@, final(self)@, step),
    {
        match task {
            CreateTask::Mkdir { guard, path, access } => match reply {
                Err(e) => {
                    self.gate.leave(guard);
                    CreateStep::Done { result: Err(failure(e)) }
                },
                Ok(_) => {
                    let context = self.keep(
                        guard,
                        path,
                        access,
                        FsCreate::CreateNew,
                        None,
                        true,
                    );
                    CreateStep::Call {
                        operation: self.metadata(&context),
                        then: CreateTask::Metadata { context },
                    }
                },
            },
            CreateTask::Open { guard, path, access } => match reply {
                Err(e) => {
                    self.gate.leave(guard);
                    CreateStep::Done { result: Err(failure(e)) }
                },
                Ok(Value::Handle(handle)) => {
                    let context = self.keep(
                        guard,
                        path,
                        access,
                        FsCreate::CreateNew,
                        Some(handle),
                        false,
                    );
                    CreateStep::Call {
                        operation: self.metadata(&context),
                        then: CreateTask::Metadata { context },
                    }
                },
                Ok(_) => {
                    self.gate.leave(guard);
                    CreateStep::Done { result: Err(NtStatus::InvalidParameter) }
                },
            },
            CreateTask::Metadata { context } => match informed(reply) {
                Ok(info) => CreateStep::Done { result: Ok((context, info)) },
                Err(status) => {
                    let close = self.close(context);
                    pass_on(close, status)
                },
            },
            CreateTask::Close { close, status } => {
                let next = self.close_resume(close, reply);
                pass_on(next, status)
            },
        }
    }
}

fn pass_on(close: CloseStep, status: NtStatus) -> (step: CreateStep)
    ensures
        forall|fs: FsView| #[trigger] closing((fs, close@), status, fs, step),
{
    match close {
        CloseStep::Call { operation, then } => CreateStep::Call {
            operation,
            then: CreateTask::Close { close: then, status },
        },
        CloseStep::Warn { message, then } => CreateStep::Warn {
            message,
            then: CreateTask::Close { close: then, status },
        },
        CloseStep::Done => CreateStep::Done { result: Err(status) },
    }
}

/// Where a close gets with a series of replies.
pub open spec fn close_run(at: (FsView, CloseView), replies: Seq<ReplyView>) -> (FsView, CloseView)
    decreases replies.len(),
{
    if replies.len() == 0 {
        at
    } else {
        let rest = replies.skip(1);
        match at.1 {
            CloseView::Call { operation, then } => close_run(
                at.0.close_resumed(then, replies[0]),
                rest,
            ),
            CloseView::Warn { message, then } => close_run(
                at.0.close_resumed(then, replies[0]),
                rest,
            ),
            CloseView::Done => at,
        }
    }
}

/// Whatever the provider answers, a close ends after at most four exchanges, and
/// the context and its place at the mount gate are given back.
pub proof fn law_a_close_always_ends(fs: FsView, context: ContextView, replies: Seq<ReplyView>)
    requires
        replies.len() >= 4,
    ensures
        close_run(fs.close(context), replies) == (fs.closed(context), CloseView::Done),
{
    reveal_with_fuel(close_run, 5);
    lemma_without_closed_file(fs.handles, context.id);
    let partly = FsView { handles: with_file_closed(fs.handles, context.id), ..fs };
    assert(partly.closed(context) == fs.closed(context));
    assert(partly.closed(context.directory_closed()) == fs.closed(context));
}

proof fn lemma_without_closed_file(handles: crate::windows_handles::HandlesView, id: u64)
    ensures
        without(with_file_closed(handles, id), id) == without(handles, id),
    decreases handles.len(),
{
    reveal(Seq::filter);
    if handles.len() > 0 {
        lemma_without_closed_file(handles.drop_last(), id);
        assert(with_file_closed(handles, id).drop_last() =~= with_file_closed(
            handles.drop_last(),
            id,
        ));
    }
}

/// Closing a handle undoes its open: the filesystem is as it was before the mount gate
/// was entered.
pub proof fn law_close_undoes_open(fs: FsView, opening: Opening, id: u64)
    requires
        fs.gate.handles >= 0,
        !knows(fs.handles, id),
    ensures
        fs.entered().opened(opening, id).closed(opening.context(id)) == fs,
{
    crate::windows_handles::law_release_undoes_register(fs.handles, id, opening.handle());
}

/// Handles that only browse a directory do not keep the drive in use; every other
/// handle does.
pub proof fn law_only_passive_handles_let_detach(fs: FsView, opening: Opening, id: u64)
    requires
        fs.gate.handles >= 0,
    ensures
        !blocking(opening.is_dir, opening.access) ==> fs.entered().opened(opening, id).gate
            == fs.gate,
        blocking(opening.is_dir, opening.access) ==> fs.entered().opened(opening, id).gate.handles
            == fs.gate.handles + 1,
        !opening.is_dir ==> blocking(opening.is_dir, opening.access),
{
}

/// A close that the provider does not confirm is reported with its reason, for
/// files and for directories.
pub proof fn law_unconfirmed_closes_are_reported(
    fs: FsView,
    task: CloseTaskView,
    error: crate::error::FsErrorView,
)
    ensures
        task.stage == CloseStage::File ==> (fs.close_resumed(task, Err(error)).1 matches CloseView::Warn {
            message,
            ..
        } && message == "Remote file close was not confirmed: "@ + error.message),
        task.stage == CloseStage::Directory ==> (fs.close_resumed(
            task,
            Err(error),
        ).1 matches CloseView::Warn { message, .. } && message
            == "Remote directory close was not confirmed: "@ + error.message),
{
}

/// A new entry that cannot be described leaves no handle behind: once it is closed
/// again, the filesystem is as it was before the create.
pub proof fn law_an_undescribed_create_leaves_nothing(
    fs: FsView,
    opening: Opening,
    id: u64,
    replies: Seq<ReplyView>,
)
    requires
        fs.gate.handles >= 0,
        !knows(fs.handles, id),
        replies.len() >= 4,
    ensures
        close_run(fs.entered().opened(opening, id).close(opening.context(id)), replies) == (
            fs,
            CloseView::Done,
        ),
{
    law_a_close_always_ends(fs.entered().opened(opening, id), opening.context(id), replies);
    law_close_undoes_open(fs, opening, id);
}

/// A handle can do at the provider what Windows grants: it writes exactly if the
/// right to write data or to append data is granted, or the file is new, and reads
/// exactly if the right to read data is granted, or neither of the others is. The
/// file is never cut by an open, and it is made only where it is to be made.
pub proof fn law_handles_can_do_what_is_granted(access: u32, create: FsCreate)
    ensures
        ({
            let asked = options_for(access, create);
            let reads = (access >> 0u32) & 1 == 1;
            let writes = (access >> 1u32) & 1 == 1;
            let appends = (access >> 2u32) & 1 == 1;
            &&& asked.write <==> writes || appends || create != FsCreate::OpenExisting
            &&& asked.read <==> reads || !(writes || appends)
            &&& asked.create == create
            &&& !asked.truncate
        }),
{
    assert((access & 0x1u32 != 0) <==> (access >> 0u32) & 1 == 1) by (bit_vector);
    assert((access & 0x6u32 != 0) <==> ((access >> 1u32) & 1 == 1 || (access >> 2u32) & 1 == 1))
        by (bit_vector);
}

/// A file keeps the drive in use. A directory does exactly if its handle may change
/// something: entries, their attributes, the directory itself or its protection.
pub proof fn law_rights_to_change_keep_the_drive_in_use(access: u32)
    ensures
        blocking(false, access),
        blocking(true, access) <==> {
            ||| access & 0x2 != 0
            ||| access & 0x4 != 0
            ||| access & 0x10 != 0
            ||| access & 0x100 != 0
            ||| access & 0x10000 != 0
            ||| access & 0x40000 != 0
            ||| access & 0x80000 != 0
        },
{
    assert((access & 0xd0116u32 != 0) <==> (access & 0x2u32 != 0 || access & 0x4u32 != 0 || access
        & 0x10u32 != 0 || access & 0x100u32 != 0 || access & 0x10000u32 != 0 || access & 0x40000u32
        != 0 || access & 0x80000u32 != 0)) by (bit_vector);
}

/// What is opened is the entry described: a directory needs nothing of the provider,
/// a file is opened where it was described, as an existing one, with the rights
/// granted. Where Windows insists on a directory, or on none, an entry of the other
/// kind is refused.
pub proof fn law_an_open_opens_the_entry_described(
    path: PathView,
    options: u32,
    access: u32,
    metadata: FsMetadata,
    handle: u64,
)
    ensures
        ({
            let is_dir = metadata.kind == FsKind::Directory;
            let wants_dir = options & 0x1 != 0;
            let wants_file = options & 0x40 != 0;
            let decision = open_decision(
                OpenTaskView::Metadata { path, options, access },
                Ok(ValueView::Metadata(metadata)),
            );
            &&& wants_dir && !is_dir ==> decision == (OpenDecision::Fail {
                status: NtStatus::NotADirectory,
            })
            &&& wants_file && is_dir ==> decision == (OpenDecision::Fail {
                status: NtStatus::FileIsADirectory,
            })
            &&& is_dir && !wants_file ==> (decision matches OpenDecision::Open { opening, info } && {
                &&& opening.path == path && opening.access == access
                &&& opening.is_dir && opening.file is None
                &&& opening.create == FsCreate::OpenExisting
                &&& info == info_of(metadata)
            })
            &&& !is_dir && !wants_dir ==> (decision matches OpenDecision::Call {
                operation: OperationView::Open { path: asked, options: how },
                then,
            } && {
                &&& asked == path
                &&& how == options_for(access, FsCreate::OpenExisting)
                &&& how.create == FsCreate::OpenExisting && !how.truncate
                &&& open_decision(then, Ok(ValueView::Handle(handle))) matches
                    OpenDecision::Open { opening, info } && {
                    &&& opening.path == path && opening.access == access
                    &&& !opening.is_dir && opening.file == Some(handle)
                    &&& opening.create == FsCreate::OpenExisting
                    &&& info == info_of(metadata)
                }
            })
        }),
{
}

/// An open that the provider refuses, or answers with something else, fails with
/// that status, at every stage.
pub proof fn law_a_refused_open_fails(
    task: OpenTaskView,
    error: crate::error::FsErrorView,
)
    ensures
        open_decision(task, Err(error)) == (OpenDecision::Fail { status: status_of(error.kind) }),
        open_decision(task, Ok(ValueView::Unit)) == (OpenDecision::Fail {
            status: NtStatus::InvalidParameter,
        }),
{
}

/// A new handle is registered where its entry is, with the provider's handle, and as
/// a writer exactly if it may write or its file is new. It is at the end of the
/// list, the others stay, and its listing has not started.
pub proof fn law_a_new_handle_is_registered_as_opened(fs: FsView, opening: Opening, id: u64)
    ensures
        ({
            let after = fs.opened(opening, id);
            let (number, handle) = after.handles.last();
            let context = opening.context(id);
            let writes = (opening.access >> 1u32) & 1 == 1 || (opening.access >> 2u32) & 1 == 1;
            &&& after.handles.drop_last() == fs.handles
            &&& number == id
            &&& handle.path == opening.path && handle.file == opening.file
            &&& handle.writable <==> writes || opening.create != FsCreate::OpenExisting
            &&& context.id == id && context.file == opening.file && context.is_dir
                == opening.is_dir
            &&& context.counted <==> blocking(opening.is_dir, opening.access)
            &&& context.directory.handle is None && context.directory.pending.len() == 0
                && context.directory.last is None && !context.directory.eof
            &&& after.caps == fs.caps && after.gate.detaching == fs.gate.detaching
        }),
{
    let access = opening.access;
    assert((access & 0x6u32 != 0) <==> ((access >> 1u32) & 1 == 1 || (access >> 2u32) & 1 == 1))
        by (bit_vector);
    assert(fs.opened(opening, id).handles.drop_last() =~= fs.handles);
}

/// A new directory is open once it is made, a new file once it is opened, in both
/// cases as a new entry where it was asked for; anything else is a failure.
pub proof fn law_a_create_opens_the_new_entry(
    path: PathView,
    access: u32,
    handle: u64,
    error: crate::error::FsErrorView,
)
    ensures
        create_decision(CreateTaskView::Mkdir { path, access }, Ok(ValueView::Unit)) matches
            CreateDecision::Open { opening } && opening.path == path && opening.access == access
            && opening.is_dir && opening.file is None && opening.create == FsCreate::CreateNew,
        create_decision(CreateTaskView::Open { path, access }, Ok(ValueView::Handle(handle))) matches
            CreateDecision::Open { opening } && opening.path == path && opening.access == access
            && !opening.is_dir && opening.file == Some(handle) && opening.create
            == FsCreate::CreateNew,
        create_decision(CreateTaskView::Open { path, access }, Ok(ValueView::Unit)) == (
        CreateDecision::Fail { status: NtStatus::InvalidParameter }),
        create_decision(CreateTaskView::Mkdir { path, access }, Err(error)) == (
        CreateDecision::Fail { status: status_of(error.kind) }),
        create_decision(CreateTaskView::Open { path, access }, Err(error)) == (
        CreateDecision::Fail { status: status_of(error.kind) }),
{
}

/// A close gives the provider's handles back, each once: that of the file first, then
/// that of the listing. Both are closed under their own numbers.
pub proof fn law_a_close_closes_what_was_open(
    fs: FsView,
    context: ContextView,
    file: u64,
    listing: u64,
    reply: ReplyView,
)
    requires
        reply is Ok,
    ensures
        handle_of(fs.handles, context.id).file == Some(file) ==> (fs.close(
            context,
        ).1 matches CloseView::Call { operation, then } && operation == (OperationView::Close {
            handle: file,
        }) && then.context == context && then.stage == CloseStage::File),
        handle_of(fs.handles, context.id).file is None && context.directory.handle == Some(listing)
            ==> (fs.close(context).1 matches CloseView::Call { operation, then } && operation == (
        OperationView::CloseDirectory { handle: listing }) && then.context.directory.handle is None),
        context.directory.handle == Some(listing) ==> (fs.close_resumed(
            CloseTaskView { context, stage: CloseStage::File },
            reply,
        ).1 matches CloseView::Call { operation, .. } && operation == (
        OperationView::CloseDirectory { handle: listing })),
        handle_of(fs.handles, context.id).file is None && context.directory.handle is None
            ==> fs.close(context).1 == CloseView::Done,
{
}

/// A drive that is being detached opens nothing, a root that cannot be written creates
/// nothing, and otherwise a name is taken exactly as the path that it stands for.
pub proof fn law_who_may_open_and_create(fs: FsView, name: Option<Seq<char>>)
    ensures
        fs.gate.detaching ==> fs.admitted(name) == Err::<PathView, NtStatus>(
            NtStatus::DeviceNotConnected,
        ),
        !fs.gate.detaching && fs.gate.handles < usize::MAX ==> fs.admitted(name) == path_named(name),
        !fs.caps.writable ==> fs.creatable(name) == Err::<PathView, NtStatus>(
            NtStatus::MediaWriteProtected,
        ),
        fs.caps.writable ==> fs.creatable(name) == fs.admitted(name),
{
}

/// A create makes a directory exactly if Windows asks for one, and otherwise a new
/// file, which must not be there yet and is open for writing; both where the name
/// says.
pub proof fn law_a_create_makes_what_is_asked_for(path: PathView, options: u32, access: u32)
    ensures
        options & 0x1 != 0 ==> first_request(path, options, access) == (
            OperationView::Mkdir { path },
            CreateTaskView::Mkdir { path, access },
        ),
        options & 0x1 == 0 ==> (first_request(path, options, access) matches (
            OperationView::Open { path: asked, options: how },
            then,
        ) && {
            &&& asked == path
            &&& how.create == FsCreate::CreateNew && how.write && !how.truncate
            &&& how == options_for(access, FsCreate::CreateNew)
            &&& then == (CreateTaskView::Open { path, access })
        }),
{
}

/// A handle has a place at the mount gate exactly while it keeps the drive in use: an
/// open takes a place, keeps it only for a handle that counts, and gives it back where
/// the open fails, which registers nothing.
pub proof fn law_failed_opens_leave_no_trace(
    fs: FsView,
    task: OpenTaskView,
    reply: ReplyView,
    after: FsView,
    step: OpenStep,
)
    requires
        fs.gate.handles >= 0,
        follows_open(open_decision(task, reply), fs.entered(), after, step),
    ensures
        fs.entered().handles == fs.handles && fs.entered().gate.handles == fs.gate.handles + 1,
        step is Call ==> after == fs.entered(),
        step matches OpenStep::Done { result: Err(_) } ==> after == fs,
        step matches OpenStep::Done { result: Ok((context, _)) } ==> {
            &&& after.gate.handles == fs.gate.handles + (if context@.counted {
                1int
            } else {
                0
            })
            &&& after.handles.len() == fs.handles.len() + 1
            &&& knows(after.handles, context@.id)
        },
        reply is Err ==> (step matches OpenStep::Done { result: Err(_) }),
{
    if let OpenStep::Done { result: Ok((context, info)) } = step {
        let id = context@.id;
        assert(after.handles.last().0 == id);
    }
}

/// A create takes a place at the mount gate like an open, and gives it back where the
/// entry cannot be made. An entry that was made and cannot be described is closed
/// again, and the create fails with the reason for that, whatever becomes of the close.
pub proof fn law_failed_creates_leave_no_trace(
    fs: FsView,
    task: CreateTaskView,
    reply: ReplyView,
    error: crate::error::FsErrorView,
    after: FsView,
    step: CreateStep,
)
    requires
        fs.gate.handles >= 0,
    ensures
        !(task is Metadata) && !(task is Close) && follows_create(
            task,
            Err(error),
            fs.entered(),
            after,
            step,
        ) ==> after == fs && (step matches CreateStep::Done { result: Err(status) } && status
            == status_of(error.kind)),
        task is Metadata && follows_create(task, Err(error), fs, after, step) ==> match step {
            CreateStep::Done { result } => result matches Err(status) && status == status_of(
                error.kind,
            ),
            CreateStep::Call { then, .. } => then@ matches CreateTaskView::Close { status, .. }
                && status == status_of(error.kind),
            CreateStep::Warn { then, .. } => then@ matches CreateTaskView::Close { status, .. }
                && status == status_of(error.kind),
        },
        task matches CreateTaskView::Close { status: reason, .. } ==> (follows_create(
            task,
            reply,
            fs,
            after,
            step,
        ) ==> match step {
            CreateStep::Done { result } => result matches Err(status) && status == reason,
            CreateStep::Call { then, .. } => then@ matches CreateTaskView::Close { status, .. }
                && status == reason,
            CreateStep::Warn { then, .. } => then@ matches CreateTaskView::Close { status, .. }
                && status == reason,
        }),
{
}

} // verus!
