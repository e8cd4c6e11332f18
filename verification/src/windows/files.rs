//! Requests on open files and on the volume.
use vstd::prelude::*;
use crate::error::FsResult;
use crate::exchange::{Step, StepView};
use crate::metadata::{FsMetadata, FsSetMetadata};
use crate::path::{MountPath, PathView};
use crate::transfer::{
    copy_range, count32, ReadStep, ReadView, TransferError, TransferErrorView, WriteStep,
    WriteStepView, WriteTask, WriteView,
};
use crate::windows::{
    described, description, failure, information, informed, status_of, Context, ContextView,
    FileInfo, Fs, FsView, NtResult, NtStatus,
};
use crate::windows::names::{name_view, path, path_named};
use crate::windows_attributes::{attributes, attributes_of, permissions, permissions_for};
use crate::windows_handles::{writers, FlushAllStep, FlushAllView};
use crate::windows_times::{
    is_unix_time, unix_seconds, validate_unsupported_times, EPOCH, TICKS_PER_SECOND,
};
use crate::wire::{reply_view, Operation, OperationView, ReplyView, Value, ValueView};

verus! {

/// A request whose last reply describes an entry.
pub struct InfoTask;

impl View for InfoTask {
    type V = ();

    open spec fn view(&self) -> () {
        ()
    }
}

/// What Windows is told of an entry before it is opened. No access control is kept.
#[derive(Clone, Copy, Debug, PartialEq, Eq)]
pub struct FileSecurity {
    pub reparse: bool,
    pub descriptor_size: u64,
    pub attributes: u32,
}

/// The status of a transfer that stopped.
pub open spec fn transfer_status(error: TransferErrorView) -> NtStatus {
    match error {
        TransferErrorView::Overflow => NtStatus::InvalidParameter,
        TransferErrorView::Malformed => NtStatus::InvalidParameter,
        TransferErrorView::Provider(e) => status_of(e.kind),
    }
}

fn transfer_failure(error: TransferError) -> (status: NtStatus)
    ensures
        status == transfer_status(error@),
{
    match error {
        TransferError::Overflow => NtStatus::InvalidParameter,
        TransferError::Malformed => NtStatus::InvalidParameter,
        TransferError::Provider(e) => failure(e),
    }
}

/// What a finished read is answered with: the bytes and their count, in 32 bits.
pub fn read_result(result: Result<Vec<u8>, TransferError>) -> (answer: NtResult<(Vec<u8>, u32)>)
    ensures
        match result {
            Ok(bytes) => answer matches Ok((given, count)) && given == bytes && count
                == bytes@.len() as int % 0x1_0000_0000,
            Err(e) => answer == Err::<(Vec<u8>, u32), NtStatus>(transfer_status(e@)),
        },
{
    match result {
        Ok(bytes) => {
            let count: u32 = count32(bytes.len());
            Ok((bytes, count))
        },
        Err(e) => Err(transfer_failure(e)),
    }
}

/// A write: the file's size is asked for, the bytes are sent, and the file is
/// described.
pub enum FileWriteTask {
    Size { handle: u64, bytes: Vec<u8>, offset: u64, eof: bool, constrained: bool },
    Data { task: WriteTask },
    Describe { count: usize },
}

pub enum FileWriteView {
    Size { handle: u64, bytes: Seq<u8>, offset: u64, eof: bool, constrained: bool },
    Data { task: WriteView },
    Describe { count: int },
}

impl View for FileWriteTask {
    type V = FileWriteView;

    open spec fn view(&self) -> FileWriteView {
        match *self {
            FileWriteTask::Size { handle, bytes, offset, eof, constrained } => FileWriteView::Size {
                handle,
                bytes: bytes@,
                offset,
                eof,
                constrained,
            },
            FileWriteTask::Data { task } => FileWriteView::Data { task: task@ },
            FileWriteTask::Describe { count } => FileWriteView::Describe { count: count as int },
        }
    }
}

/// Where a write of `bytes` goes: to the end of the file if asked to, and never
/// past it if constrained.
pub open spec fn placed(
    handle: u64,
    bytes: Seq<u8>,
    offset: u64,
    eof: bool,
    constrained: bool,
    size: u64,
) -> WriteView {
    let at = if eof {
        size
    } else {
        offset
    };
    let room = if size >= at {
        size - at
    } else {
        0
    };
    let length = if constrained && room < bytes.len() {
        room
    } else {
        bytes.len() as int
    };
    WriteView { handle, offset: at, bytes: bytes.take(length), done: 0 }
}

/// What the state of a transfer asks for.
pub open spec fn after_data(handle: u64, step: WriteStepView) -> StepView<
    FileWriteView,
    NtResult<(u32, FileInfo)>,
> {
    match step {
        WriteStepView::Call { operation, then } => StepView::Call {
            operation,
            then: FileWriteView::Data { task: then },
        },
        WriteStepView::Done { result: Ok(count) } => StepView::Call {
            operation: OperationView::FileMetadata { handle },
            then: FileWriteView::Describe { count },
        },
        WriteStepView::Done { result: Err(e) } => StepView::Done {
            result: Err(transfer_status(e)),
        },
    }
}

fn go_on(handle: u64, step: WriteStep) -> (next: Step<FileWriteTask, NtResult<(u32, FileInfo)>>)
    ensures
        next@ == after_data(handle, step@),
{
    match step {
        WriteStep::Call { operation, then } => Step::Call {
            operation,
            then: FileWriteTask::Data { task: then },
        },
        WriteStep::Done { result } => match result {
            Ok(count) => Step::Call {
                operation: Operation::FileMetadata { handle },
                then: FileWriteTask::Describe { count },
            },
            Err(e) => Step::Done { result: Err(transfer_failure(e)) },
        },
    }
}

pub open spec fn write_resumed(task: FileWriteView, reply: ReplyView) -> StepView<
    FileWriteView,
    NtResult<(u32, FileInfo)>,
> {
    match task {
        FileWriteView::Size { handle, bytes, offset, eof, constrained } => match description(
            reply,
        ) {
            Err(status) => StepView::Done { result: Err(status) },
            Ok(meta) => after_data(
                handle,
                placed(handle, bytes, offset, eof, constrained, meta.size).step(),
            ),
        },
        FileWriteView::Data { task: data } => after_data(data.handle, data.resumed(reply)),
        FileWriteView::Describe { count } => StepView::Done {
            result: match information(reply) {
                Ok(info) => Ok(((count % 0x1_0000_0000) as u32, info)),
                Err(status) => Err(status),
            },
        },
    }
}

/// A flush of one handle: confirmed by the provider, then described.
#[derive(Clone, Copy, Debug)]
pub enum FlushTask {
    Flush { handle: u64 },
    Describe,
}

impl View for FlushTask {
    type V = FlushTask;

    open spec fn view(&self) -> FlushTask {
        *self
    }
}

pub open spec fn flush_resumed(task: FlushTask, reply: ReplyView) -> StepView<
    FlushTask,
    NtResult<FileInfo>,
> {
    match task {
        FlushTask::Flush { handle } => match reply {
            Ok(_) => StepView::Call {
                operation: OperationView::FileMetadata { handle },
                then: FlushTask::Describe,
            },
            Err(e) => StepView::Done { result: Err(status_of(e.kind)) },
        },
        FlushTask::Describe => StepView::Done { result: information(reply) },
    }
}

/// A change of size: compared with the size there is where only the allocation
/// is to change, made, then described.
#[derive(Clone, Copy, Debug)]
pub enum ResizeTask {
    Compare { handle: u64, size: u64 },
    Resize { handle: u64 },
    Describe,
}

impl View for ResizeTask {
    type V = ResizeTask;

    open spec fn view(&self) -> ResizeTask {
        *self
    }
}

pub open spec fn resize(handle: u64, size: u64) -> StepView<ResizeTask, NtResult<FileInfo>> {
    StepView::Call {
        operation: OperationView::SetFileMetadata {
            handle,
            metadata: FsSetMetadata::only_size(size),
        },
        then: ResizeTask::Resize { handle },
    }
}

/// Space is never allocated ahead; less of it than the file holds cuts the file.
pub open spec fn resize_resumed(task: ResizeTask, reply: ReplyView) -> StepView<
    ResizeTask,
    NtResult<FileInfo>,
> {
    match task {
        ResizeTask::Compare { handle, size } => match description(reply) {
            Err(status) => StepView::Done { result: Err(status) },
            Ok(meta) => if size < meta.size {
                resize(handle, size)
            } else {
                StepView::Call {
                    operation: OperationView::FileMetadata { handle },
                    then: ResizeTask::Describe,
                }
            },
        },
        ResizeTask::Resize { handle } => match reply {
            Ok(_) => StepView::Call {
                operation: OperationView::FileMetadata { handle },
                then: ResizeTask::Describe,
            },
            Err(e) => StepView::Done { result: Err(status_of(e.kind)) },
        },
        ResizeTask::Describe => StepView::Done { result: information(reply) },
    }
}

/// A change of times and attributes: the entry is looked at, changed if there is
/// something to change, then described.
#[derive(Clone, Copy, Debug)]
pub enum BasicTask {
    Look { attributes: u32, accessed: Option<u64>, modified: Option<u64> },
    Change,
    Describe,
}

impl View for BasicTask {
    type V = BasicTask;

    open spec fn view(&self) -> BasicTask {
        *self
    }
}

/// A time that can be set, or that asks for no change.
pub open spec fn is_settable(time: u64) -> bool {
    time == 0 || is_unix_time(time)
}

/// The Unix seconds that a settable time stands for.
pub open spec fn settable_seconds(time: u64) -> Option<u64> {
    if time == 0 {
        None
    } else {
        Some(((time - EPOCH) as u64 / TICKS_PER_SECOND) as u64)
    }
}

/// The entry that a name stands for is asked about.
pub open spec fn security_step(name: Option<Seq<char>>) -> StepView<(), NtResult<FileSecurity>> {
    match path_named(name) {
        Ok(path) => StepView::Call { operation: OperationView::Metadata { path }, then: () },
        Err(status) => StepView::Done { result: Err(status) },
    }
}

/// What Windows is told of an entry before it is opened.
pub open spec fn security_of(reply: ReplyView) -> NtResult<FileSecurity> {
    match description(reply) {
        Ok(meta) => Ok(
            FileSecurity { reparse: false, descriptor_size: 0, attributes: attributes_of(meta) },
        ),
        Err(status) => Err(status),
    }
}

impl ContextView {
    /// A read that has received nothing yet; a directory cannot be read.
    pub open spec fn read(self, size: int, offset: u64) -> NtResult<ReadView> {
        match self.file {
            Some(handle) => Ok(ReadView { handle, offset, size, bytes: Seq::empty() }),
            None => Err(NtStatus::InvalidParameter),
        }
    }

    /// A write asks for the file's size first; a directory cannot be written.
    pub open spec fn write(
        self,
        bytes: Seq<u8>,
        offset: u64,
        eof: bool,
        constrained: bool,
    ) -> StepView<FileWriteView, NtResult<(u32, FileInfo)>> {
        match self.file {
            Some(handle) => StepView::Call {
                operation: OperationView::FileMetadata { handle },
                then: FileWriteView::Size { handle, bytes, offset, eof, constrained },
            },
            None => StepView::Done { result: Err(NtStatus::InvalidParameter) },
        }
    }

    /// A change of size, or of the allocation alone; a directory has neither.
    pub open spec fn set_file_size(self, size: u64, allocation: bool) -> StepView<
        ResizeTask,
        NtResult<FileInfo>,
    > {
        match self.file {
            None => StepView::Done { result: Err(NtStatus::InvalidParameter) },
            Some(handle) => if allocation {
                StepView::Call {
                    operation: OperationView::FileMetadata { handle },
                    then: ResizeTask::Compare { handle, size },
                }
            } else {
                resize(handle, size)
            },
        }
    }

    /// A file is emptied.
    pub open spec fn overwrite(self) -> StepView<ResizeTask, NtResult<FileInfo>> {
        self.set_file_size(0, false)
    }
}

impl FsView {
    /// A file is flushed; a directory is only described.
    pub open spec fn flush(self, context: ContextView) -> StepView<FlushTask, NtResult<FileInfo>> {
        match context.file {
            Some(handle) => StepView::Call {
                operation: OperationView::Flush { handle },
                then: FlushTask::Flush { handle },
            },
            None => StepView::Call {
                operation: OperationView::Metadata { path: self.path(context) },
                then: FlushTask::Describe,
            },
        }
    }

    /// Times that cannot be set are refused before anything is asked.
    pub open spec fn set_basic_info(
        self,
        context: ContextView,
        attributes: u32,
        created: u64,
        accessed: u64,
        written: u64,
        changed: u64,
    ) -> StepView<BasicTask, NtResult<FileInfo>> {
        if created != 0 || changed != 0 || !is_settable(accessed) || !is_settable(written) {
            StepView::Done { result: Err(NtStatus::NotSupported) }
        } else {
            StepView::Call {
                operation: self.metadata(context),
                then: BasicTask::Look {
                    attributes,
                    accessed: settable_seconds(accessed),
                    modified: settable_seconds(written),
                },
            }
        }
    }

    pub open spec fn basic_resumed(
        self,
        context: ContextView,
        task: BasicTask,
        reply: ReplyView,
    ) -> StepView<BasicTask, NtResult<FileInfo>> {
        let describe = StepView::Call {
            operation: self.metadata(context),
            then: BasicTask::Describe,
        };
        match task {
            BasicTask::Look { attributes, accessed, modified } => match description(reply) {
                Err(status) => StepView::Done { result: Err(status) },
                Ok(meta) => match permissions_for(meta, attributes) {
                    Err(e) => StepView::Done { result: Err(status_of(e.kind)) },
                    Ok(permissions) => {
                        let metadata = FsSetMetadata {
                            size: None,
                            accessed,
                            modified,
                            permissions,
                        };
                        if accessed is None && modified is None && permissions is None {
                            describe
                        } else if !self.caps.writable {
                            StepView::Done { result: Err(NtStatus::MediaWriteProtected) }
                        } else {
                            StepView::Call {
                                operation: match context.file {
                                    Some(handle) => OperationView::SetFileMetadata {
                                        handle,
                                        metadata,
                                    },
                                    None => OperationView::SetMetadata {
                                        path: self.path(context),
                                        metadata,
                                    },
                                },
                                then: BasicTask::Change,
                            }
                        }
                    },
                },
            },
            BasicTask::Change => match reply {
                Ok(_) => describe,
                Err(e) => StepView::Done { result: Err(status_of(e.kind)) },
            },
            BasicTask::Describe => StepView::Done { result: information(reply) },
        }
    }
}

/// The size of the volume in bytes.
#[derive(Clone, Copy, Debug, PartialEq, Eq)]
pub struct VolumeInfo {
    pub total_size: u64,
    pub free_size: u64,
}

/// A product held at the largest number.
pub open spec fn held(a: u64, b: u64) -> u64 {
    if a * b <= u64::MAX {
        (a * b) as u64
    } else {
        u64::MAX
    }
}

fn product(a: u64, b: u64) -> (result: u64)
    ensures
        result == held(a, b),
{
    match a.checked_mul(b) {
        Some(value) => value,
        None => u64::MAX,
    }
}

/// The label of the volume.
pub fn volume_label() -> (label: &'static str)
    ensures
        label@ == "ShellCanvas"@,
{
    "ShellCanvas"
}

pub open spec fn volume_information(reply: ReplyView) -> NtResult<VolumeInfo> {
    match reply {
        Ok(ValueView::Space(space)) => Ok(
            VolumeInfo {
                total_size: held(space.blocks, space.block_size),
                free_size: held(space.blocks_available, space.block_size),
            },
        ),
        Ok(_) => Err(NtStatus::InvalidParameter),
        Err(e) => Err(status_of(e.kind)),
    }
}

impl Fs {
    /// Asks what the entry `name` is, before it is opened.
    pub fn get_security_by_name(&self, name: Option<&str>) -> (step: Step<
        InfoTask,
        NtResult<FileSecurity>,
    >)
        ensures
            step@ == security_step(name_view(name)),
    {
        match path(name) {
            Ok(p) => Step::Call { operation: Operation::Metadata { path: p }, then: InfoTask },
            Err(status) => Step::Done { result: Err(status) },
        }
    }

    pub fn security_resume(&self, task: InfoTask, reply: FsResult<Value>) -> (security: NtResult<
        FileSecurity,
    >)
        ensures
            security == security_of(reply_view(reply)),
    {
        match described(reply) {
            Ok(meta) => Ok(
                FileSecurity {
                    reparse: false,
                    descriptor_size: 0,
                    attributes: attributes(&meta),
                },
            ),
            Err(status) => Err(status),
        }
    }

    pub fn get_file_info(&self, context: &Context) -> (step: Step<InfoTask, NtResult<FileInfo>>)
        requires
            self.wf(),
            self@.holds(context@),
        ensures
            step@ == (StepView::<(), NtResult<FileInfo>>::Call {
                operation: self@.metadata(context@),
                then: (),
            }),
    {
        Step::Call { operation: self.metadata(context), then: InfoTask }
    }

    pub fn info_resume(&self, task: InfoTask, reply: FsResult<Value>) -> (info: NtResult<FileInfo>)
        ensures
            info == information(reply_view(reply)),
    {
        informed(reply)
    }

    /// Starts a read of `size` bytes; see [`read_result`] for its end.
    pub fn read(&self, context: &Context, size: usize, offset: u64) -> (step: NtResult<ReadStep>)
        ensures
            match context@.read(size as int, offset) {
                Ok(task) => step matches Ok(s) && s@ == task.step(),
                Err(status) => step == Err::<ReadStep, NtStatus>(status),
            },
    {
        match context.file {
            Some(handle) => Ok(crate::transfer::read(handle, offset, size)),
            None => Err(NtStatus::InvalidParameter),
        }
    }

    /// Starts a write of `bytes`.
    pub fn write(
        &self,
        context: &Context,
        bytes: Vec<u8>,
        offset: u64,
        eof: bool,
        constrained: bool,
    ) -> (step: Step<FileWriteTask, NtResult<(u32, FileInfo)>>)
        ensures
            step@ == context@.write(bytes@, offset, eof, constrained),
    {
        match context.file {
            Some(handle) => Step::Call {
                operation: Operation::FileMetadata { handle },
                then: FileWriteTask::Size { handle, bytes, offset, eof, constrained },
            },
            None => Step::Done { result: Err(NtStatus::InvalidParameter) },
        }
    }

    pub fn write_resume(&self, task: FileWriteTask, reply: FsResult<Value>) -> (step: Step<
        FileWriteTask,
        NtResult<(u32, FileInfo)>,
    >)
        requires
            task@ matches FileWriteView::Data { task: data } ==> data.done < data.bytes.len(),
        ensures
            step@ == write_resumed(task@, reply_view(reply)),
    {
        match task {
            FileWriteTask::Size { handle, bytes, offset, eof, constrained } => {
                let size: u64 = match described(reply) {
                    Ok(meta) => meta.size,
                    Err(status) => {
                        return Step::Done { result: Err(status) };
                    },
                };
                let at: u64 = if eof {
                    size
                } else {
                    offset
                };
                let room: u64 = if size >= at {
                    size - at
                } else {
                    0
                };
                let length: usize = if constrained && room < bytes.len() as u64 {
                    room as usize
                } else {
                    bytes.len()
                };
                let part = copy_range(&bytes, 0, length);
                assert(part@ =~= bytes@.take(length as int));
                go_on(handle, crate::transfer::write(handle, at, part))
            },
            FileWriteTask::Data { task: data } => {
                let handle: u64 = data.handle;
                go_on(handle, data.resume(reply))
            },
            FileWriteTask::Describe { count } => match informed(reply) {
                Ok(info) => Step::Done { result: Ok((count32(count), info)) },
                Err(status) => Step::Done { result: Err(status) },
            },
        }
    }

    /// Starts a flush of one handle.
    pub fn flush(&self, context: &Context) -> (step: Step<FlushTask, NtResult<FileInfo>>)
        requires
            self.wf(),
            self@.holds(context@),
        ensures
            step@ == self@.flush(context@),
    {
        match context.file {
            Some(handle) => Step::Call {
                operation: Operation::Flush { handle },
                then: FlushTask::Flush { handle },
            },
            None => Step::Call {
                operation: Operation::Metadata { path: self.path(context) },
                then: FlushTask::Describe,
            },
        }
    }

    pub fn flush_resume(&self, task: FlushTask, reply: FsResult<Value>) -> (step: Step<
        FlushTask,
        NtResult<FileInfo>,
    >)
        ensures
            step@ == flush_resumed(task@, reply_view(reply)),
    {
        match task {
            FlushTask::Flush { handle } => match reply {
                Ok(_) => Step::Call {
                    operation: Operation::FileMetadata { handle },
                    then: FlushTask::Describe,
                },
                Err(e) => Step::Done { result: Err(failure(e)) },
            },
            FlushTask::Describe => Step::Done { result: informed(reply) },
        }
    }

    /// Starts a flush of the volume: of every handle that can have written.
    pub fn flush_volume(&self) -> (step: FlushAllStep)
        ensures
            step@ == (FlushAllView {
                files: writers(self@.handles),
                done: 0,
                error: None,
            }).step(),
    {
        self.handles.flush()
    }

    /// What a finished flush of the volume is answered with.
    pub fn volume_flushed(&self, result: FsResult<()>) -> (answer: NtResult<()>)
        ensures
            answer == (match result {
                Ok(_) => Ok::<(), NtStatus>(()),
                Err(e) => Err(status_of(e.kind)),
            }),
    {
        match result {
            Ok(_) => Ok(()),
            Err(e) => Err(failure(e)),
        }
    }

    /// Starts a change of size, or of the allocation alone.
    pub fn set_file_size(&self, context: &Context, size: u64, allocation: bool) -> (step: Step<
        ResizeTask,
        NtResult<FileInfo>,
    >)
        ensures
            step@ == context@.set_file_size(size, allocation),
    {
        match context.file {
            None => Step::Done { result: Err(NtStatus::InvalidParameter) },
            Some(handle) => if allocation {
                Step::Call {
                    operation: Operation::FileMetadata { handle },
                    then: ResizeTask::Compare { handle, size },
                }
            } else {
                change_size(handle, size)
            },
        }
    }

    pub fn resize_resume(&self, task: ResizeTask, reply: FsResult<Value>) -> (step: Step<
        ResizeTask,
        NtResult<FileInfo>,
    >)
        ensures
            step@ == resize_resumed(task@, reply_view(reply)),
    {
        match task {
            ResizeTask::Compare { handle, size } => match described(reply) {
                Err(status) => Step::Done { result: Err(status) },
                Ok(meta) => if size < meta.size {
                    change_size(handle, size)
                } else {
                    Step::Call {
                        operation: Operation::FileMetadata { handle },
                        then: ResizeTask::Describe,
                    }
                },
            },
            ResizeTask::Resize { handle } => match reply {
                Ok(_) => Step::Call {
                    operation: Operation::FileMetadata { handle },
                    then: ResizeTask::Describe,
                },
                Err(e) => Step::Done { result: Err(failure(e)) },
            },
            ResizeTask::Describe => Step::Done { result: informed(reply) },
        }
    }

    /// Starts to empty a file.
    pub fn overwrite(&self, context: &Context) -> (step: Step<ResizeTask, NtResult<FileInfo>>)
        ensures
            step@ == context@.overwrite(),
    {
        self.set_file_size(context, 0, false)
    }

    /// Starts a change of times and attributes. Times are Windows file times, and
    /// zero asks for no change.
    pub fn set_basic_info(
        &self,
        context: &Context,
        attributes: u32,
        created: u64,
        accessed: u64,
        written: u64,
        changed: u64,
    ) -> (step: Step<BasicTask, NtResult<FileInfo>>)
        requires
            self.wf(),
            self@.holds(context@),
        ensures
            step@ == self@.set_basic_info(
                context@,
                attributes,
                created,
                accessed,
                written,
                changed,
            ),
    {
        if let Err(e) = validate_unsupported_times(created, changed) {
            return Step::Done { result: Err(failure(e)) };
        }
        let accessed: Option<u64> = match unix_seconds(accessed) {
            Ok(seconds) => seconds,
            Err(e) => {
                return Step::Done { result: Err(failure(e)) };
            },
        };
        let modified: Option<u64> = match unix_seconds(written) {
            Ok(seconds) => seconds,
            Err(e) => {
                return Step::Done { result: Err(failure(e)) };
            },
        };
        Step::Call {
            operation: self.metadata(context),
            then: BasicTask::Look { attributes, accessed, modified },
        }
    }

    pub fn basic_resume(&self, context: &Context, task: BasicTask, reply: FsResult<Value>) -> (step:
        Step<BasicTask, NtResult<FileInfo>>)
        requires
            self.wf(),
            self@.holds(context@),
        ensures
            step@ == self@.basic_resumed(context@, task@, reply_view(reply)),
    {
        match task {
            BasicTask::Look { attributes, accessed, modified } => {
                let meta = match described(reply) {
                    Ok(meta) => meta,
                    Err(status) => {
                        return Step::Done { result: Err(status) };
                    },
                };
                let bits: Option<u32> = match permissions(&meta, attributes) {
                    Ok(bits) => bits,
                    Err(e) => {
                        return Step::Done { result: Err(failure(e)) };
                    },
                };
                if accessed.is_none() && modified.is_none() && bits.is_none() {
                    return Step::Call {
                        operation: self.metadata(context),
                        then: BasicTask::Describe,
                    };
                }
                if !self.caps.writable {
                    return Step::Done { result: Err(NtStatus::MediaWriteProtected) };
                }
                let metadata = FsSetMetadata { size: None, accessed, modified, permissions: bits };
                let operation = match context.file {
                    Some(handle) => Operation::SetFileMetadata { handle, metadata },
                    None => Operation::SetMetadata { path: self.path(context), metadata },
                };
                Step::Call { operation, then: BasicTask::Change }
            },
            BasicTask::Change => match reply {
                Ok(_) => Step::Call {
                    operation: self.metadata(context),
                    then: BasicTask::Describe,
                },
                Err(e) => Step::Done { result: Err(failure(e)) },
            },
            BasicTask::Describe => Step::Done { result: informed(reply) },
        }
    }

    /// Asks for the space of the volume.
    pub fn get_volume_info(&self) -> (step: Step<InfoTask, NtResult<VolumeInfo>>)
        ensures
            step@ == (StepView::<(), NtResult<VolumeInfo>>::Call {
                operation: OperationView::Space { path: PathView::empty() },
                then: (),
            }),
    {
        Step::Call { operation: Operation::Space { path: MountPath::root() }, then: InfoTask }
    }

    pub fn volume_resume(&self, task: InfoTask, reply: FsResult<Value>) -> (info: NtResult<
        VolumeInfo,
    >)
        ensures
            info == volume_information(reply_view(reply)),
    {
        match reply {
            Ok(Value::Space(space)) => Ok(
                VolumeInfo {
                    total_size: product(space.blocks, space.block_size),
                    free_size: product(space.blocks_available, space.block_size),
                },
            ),
            Ok(_) => Err(NtStatus::InvalidParameter),
            Err(e) => Err(failure(e)),
        }
    }
}

fn change_size(handle: u64, size: u64) -> (step: Step<ResizeTask, NtResult<FileInfo>>)
    ensures
        step@ == resize(handle, size),
{
    Step::Call {
        operation: Operation::SetFileMetadata {
            handle,
            metadata: FsSetMetadata {
                size: Some(size),
                accessed: None,
                modified: None,
                permissions: None,
            },
        },
        then: ResizeTask::Resize { handle },
    }
}

/// A constrained write never reaches past the end of the file, and one to the
/// end of the file starts there.
pub proof fn law_writes_keep_their_place(
    handle: u64,
    bytes: Seq<u8>,
    offset: u64,
    eof: bool,
    constrained: bool,
    size: u64,
)
    ensures
        ({
            let write = placed(handle, bytes, offset, eof, constrained, size);
            &&& constrained && write.bytes.len() > 0 ==> write.offset + write.bytes.len() <= size
            &&& eof ==> write.offset == size
            &&& !eof ==> write.offset == offset
            &&& !constrained ==> write.bytes == bytes
            &&& write.bytes.len() <= bytes.len()
            &&& write.bytes == bytes.take(write.bytes.len() as int)
        }),
{
    let write = placed(handle, bytes, offset, eof, constrained, size);
    assert(bytes.take(bytes.len() as int) =~= bytes);
}

/// A change that holds anything unsupported asks the provider to change nothing:
/// unsettable times end it at once, and unsupported attributes end it after a look.
pub proof fn law_unsupported_changes_change_nothing(
    fs: FsView,
    context: ContextView,
    attributes: u32,
    created: u64,
    accessed: u64,
    written: u64,
    changed: u64,
    meta: FsMetadata,
)
    ensures
        created != 0 || changed != 0 || !is_settable(accessed) || !is_settable(written)
            ==> fs.set_basic_info(context, attributes, created, accessed, written, changed) is Done,
        match fs.set_basic_info(context, attributes, created, accessed, written, changed) {
            StepView::Call { operation, then } => {
                &&& operation == fs.metadata(context)
                &&& permissions_for(meta, attributes) is Err ==> fs.basic_resumed(
                    context,
                    then,
                    Ok(ValueView::Metadata(meta)),
                ) is Done
                &&& !fs.caps.writable ==> match fs.basic_resumed(
                    context,
                    then,
                    Ok(ValueView::Metadata(meta)),
                ) {
                    StepView::Call { operation: next, .. } => next == fs.metadata(context),
                    StepView::Done { .. } => true,
                }
            },
            StepView::Done { .. } => true,
        },
{
}

/// A time of whole seconds that was set is the time that is shown.
pub proof fn law_times_read_back(time: u64)
    requires
        is_unix_time(time),
        (time - EPOCH) % TICKS_PER_SECOND as int == 0,
    ensures
        crate::windows_times::filetime_of(settable_seconds(time)) == time,
{
}

/// A write stores as much as it may: an unconstrained one every byte given, a
/// constrained one every byte that falls within the file's size. So a constrained
/// write that ends within the file is the same as an unconstrained one, and one
/// that starts at or past the end stores nothing. A write to the end starts there.
pub proof fn law_a_write_stores_what_fits(
    handle: u64,
    bytes: Seq<u8>,
    offset: u64,
    eof: bool,
    constrained: bool,
    size: u64,
    k: int,
)
    requires
        0 <= k < bytes.len(),
    ensures
        ({
            let write = placed(handle, bytes, offset, eof, constrained, size);
            let start = if eof {
                size as int
            } else {
                offset as int
            };
            &&& write.handle == handle && write.offset == start && write.done == 0
            &&& k < write.bytes.len() <==> !constrained || start + k < size
            &&& k < write.bytes.len() ==> write.bytes[k] == bytes[k]
            &&& write.bytes.len() <= bytes.len()
            &&& start + bytes.len() <= size ==> write == placed(
                handle,
                bytes,
                offset,
                eof,
                false,
                size,
            )
        }),
{
    assert(bytes.take(bytes.len() as int) =~= bytes);
}

/// A write first asks for the file's size, then sends what is to be stored to the
/// place asked for, and describes the file once all of it is acknowledged. The
/// answer is the count of the bytes stored.
pub proof fn law_a_write_sends_its_bytes_where_asked(
    handle: u64,
    bytes: Seq<u8>,
    offset: u64,
    meta: FsMetadata,
    done: ValueView,
)
    requires
        0 < bytes.len() <= 32768,
        offset + bytes.len() <= u64::MAX,
    ensures
        write_resumed(
            FileWriteView::Size { handle, bytes, offset, eof: false, constrained: false },
            Ok(ValueView::Metadata(meta)),
        ) matches StepView::Call { operation, then } && {
            &&& operation == (OperationView::Write { handle, offset, bytes })
            &&& write_resumed(then, Ok(done)) matches StepView::Call {
                operation: asked,
                then: last,
            } && {
                &&& asked == (OperationView::FileMetadata { handle })
                &&& write_resumed(last, Ok(ValueView::Metadata(meta))) matches StepView::Done {
                    result: Ok((count, info)),
                } && count == bytes.len() && info.file_size == meta.size
            }
        },
{
    assert(bytes.take(bytes.len() as int) =~= bytes);
    assert(bytes.subrange(0, bytes.len() as int) =~= bytes);
}

/// A write that fails at any stage fails with the provider's reason, and neither
/// goes on nor is sent again.
pub proof fn law_a_failed_write_fails(task: FileWriteView, error: crate::error::FsErrorView)
    ensures
        write_resumed(task, Err(error)) == (StepView::<
            FileWriteView,
            NtResult<(u32, FileInfo)>,
        >::Done { result: Err(status_of(error.kind)) }),
{
}

/// A transfer that stops says why: a range past the largest offset and an answer that
/// makes no sense are invalid, and what the provider says is passed on.
pub proof fn law_stopped_transfers_say_why(error: crate::error::FsErrorView)
    ensures
        transfer_status(TransferErrorView::Overflow) == NtStatus::InvalidParameter,
        transfer_status(TransferErrorView::Malformed) == NtStatus::InvalidParameter,
        transfer_status(TransferErrorView::Provider(error)) == status_of(error.kind),
{
}

/// A flush succeeds only once the provider has confirmed it, and is then answered
/// with the file as it is.
pub proof fn law_a_flush_is_confirmed(
    handle: u64,
    done: ValueView,
    error: crate::error::FsErrorView,
    meta: FsMetadata,
)
    ensures
        flush_resumed(FlushTask::Flush { handle }, Err(error)) == (StepView::<
            FlushTask,
            NtResult<FileInfo>,
        >::Done { result: Err(status_of(error.kind)) }),
        flush_resumed(FlushTask::Flush { handle }, Ok(done)) == (StepView::<
            FlushTask,
            NtResult<FileInfo>,
        >::Call {
            operation: OperationView::FileMetadata { handle },
            then: FlushTask::Describe,
        }),
        flush_resumed(FlushTask::Describe, Ok(ValueView::Metadata(meta))) matches StepView::Done {
            result: Ok(info),
        } && info == crate::windows::info_of(meta),
{
}

/// A change of size asks the provider for exactly that size, and for no other
/// change. A change of the allocation alone does so only where the file holds more
/// than that; otherwise it changes nothing.
pub proof fn law_sizes_change_as_asked(
    handle: u64,
    size: u64,
    meta: FsMetadata,
    done: ValueView,
    error: crate::error::FsErrorView,
)
    ensures
        resize(handle, size) matches StepView::Call {
            operation: OperationView::SetFileMetadata { handle: changed, metadata },
            then,
        } && {
            &&& changed == handle
            &&& metadata.size == Some(size)
            &&& metadata.accessed is None && metadata.modified is None && metadata.permissions is None
            &&& resize_resumed(then, Ok(done)) == (StepView::<ResizeTask, NtResult<FileInfo>>::Call {
                operation: OperationView::FileMetadata { handle },
                then: ResizeTask::Describe,
            })
            &&& resize_resumed(then, Err(error)) == (StepView::<
                ResizeTask,
                NtResult<FileInfo>,
            >::Done { result: Err(status_of(error.kind)) })
        },
        meta.size > size ==> resize_resumed(
            ResizeTask::Compare { handle, size },
            Ok(ValueView::Metadata(meta)),
        ) == resize(handle, size),
        meta.size <= size ==> resize_resumed(
            ResizeTask::Compare { handle, size },
            Ok(ValueView::Metadata(meta)),
        ) == (StepView::<ResizeTask, NtResult<FileInfo>>::Call {
            operation: OperationView::FileMetadata { handle },
            then: ResizeTask::Describe,
        }),
        resize_resumed(ResizeTask::Describe, Ok(ValueView::Metadata(meta))) matches
            StepView::Done { result: Ok(info) } && info == crate::windows::info_of(meta),
{
}

/// A time that Windows sets is the Unix second that it falls in; zero sets none, and
/// every other time that is not a Unix time cannot be set.
pub proof fn law_settable_times(time: u64, seconds: u64, part: u64)
    requires
        seconds <= 900_000_000_000,
        part < 10_000_000,
    ensures
        settable_seconds(0) is None,
        is_settable(0),
        time == (seconds + 11_644_473_600) * 10_000_000 + part ==> is_settable(time)
            && settable_seconds(time) == Some(seconds),
        0 < time < 116_444_736_000_000_000 ==> !is_settable(time),
        time > 9_223_372_036_854_775_807 ==> !is_settable(time),
{
    if time == (seconds + 11_644_473_600) * 10_000_000 + part {
        assert(time - EPOCH == seconds * 10_000_000 + part);
    }
}

/// A change of times and attributes asks the provider for exactly the times given
/// and the permissions that the attributes stand for, and leaves the size alone; it
/// goes through the provider's handle, or to where the entry is. Where nothing is to
/// change, nothing is asked; on a root that cannot be written a change is refused.
pub proof fn law_basic_changes_are_made_as_asked(
    fs: FsView,
    context: ContextView,
    attributes: u32,
    accessed: Option<u64>,
    modified: Option<u64>,
    meta: FsMetadata,
    permissions: Option<u32>,
)
    requires
        permissions_for(meta, attributes) == Ok::<Option<u32>, crate::error::FsErrorView>(
            permissions,
        ),
    ensures
        ({
            let step = fs.basic_resumed(
                context,
                BasicTask::Look { attributes, accessed, modified },
                Ok(ValueView::Metadata(meta)),
            );
            let nothing = accessed is None && modified is None && permissions is None;
            let metadata = FsSetMetadata { size: None, accessed, modified, permissions };
            &&& nothing ==> step == (StepView::<BasicTask, NtResult<FileInfo>>::Call {
                operation: fs.metadata(context),
                then: BasicTask::Describe,
            })
            &&& !nothing && !fs.caps.writable ==> step == (StepView::<
                BasicTask,
                NtResult<FileInfo>,
            >::Done { result: Err(NtStatus::MediaWriteProtected) })
            &&& !nothing && fs.caps.writable ==> (context.file matches Some(handle) ==> step == (
            StepView::<BasicTask, NtResult<FileInfo>>::Call {
                operation: OperationView::SetFileMetadata { handle, metadata },
                then: BasicTask::Change,
            }))
            &&& !nothing && fs.caps.writable && context.file is None ==> step == (StepView::<
                BasicTask,
                NtResult<FileInfo>,
            >::Call {
                operation: OperationView::SetMetadata { path: fs.path(context), metadata },
                then: BasicTask::Change,
            })
        }),
{
}

/// The times and attributes of a request reach the look at the entry as they were
/// given, and a change that the provider makes is answered with the entry as it
/// then is.
pub proof fn law_basic_requests_keep_their_parts(
    fs: FsView,
    context: ContextView,
    attributes: u32,
    accessed: u64,
    written: u64,
    done: ValueView,
    error: crate::error::FsErrorView,
    meta: FsMetadata,
)
    requires
        is_settable(accessed),
        is_settable(written),
    ensures
        fs.set_basic_info(context, attributes, 0, accessed, written, 0) == (StepView::<
            BasicTask,
            NtResult<FileInfo>,
        >::Call {
            operation: fs.metadata(context),
            then: BasicTask::Look {
                attributes,
                accessed: settable_seconds(accessed),
                modified: settable_seconds(written),
            },
        }),
        fs.basic_resumed(context, BasicTask::Change, Ok(done)) == (StepView::<
            BasicTask,
            NtResult<FileInfo>,
        >::Call { operation: fs.metadata(context), then: BasicTask::Describe }),
        fs.basic_resumed(context, BasicTask::Change, Err(error)) == (StepView::<
            BasicTask,
            NtResult<FileInfo>,
        >::Done { result: Err(status_of(error.kind)) }),
        fs.basic_resumed(context, BasicTask::Describe, Ok(ValueView::Metadata(meta))) matches
            StepView::Done { result: Ok(info) } && info == crate::windows::info_of(meta),
{
}

/// The volume is as large as the provider's blocks together, and has free what is
/// available of them; what goes past the largest number stops there.
pub proof fn law_the_volume_shows_the_space(space: crate::metadata::FsSpace)
    ensures
        volume_information(Ok(ValueView::Space(space))) matches Ok(info) && {
            &&& space.blocks * space.block_size <= u64::MAX ==> info.total_size == space.blocks
                * space.block_size
            &&& space.blocks * space.block_size > u64::MAX ==> info.total_size == u64::MAX
            &&& space.blocks_available * space.block_size <= u64::MAX ==> info.free_size
                == space.blocks_available * space.block_size
            &&& space.blocks_available * space.block_size > u64::MAX ==> info.free_size == u64::MAX
        },
        volume_information(Ok(ValueView::Unit)) == Err::<VolumeInfo, NtStatus>(
            NtStatus::InvalidParameter,
        ),
{
}

/// Reads, writes, flushes and changes of size go to the provider's handle of the
/// context, with the place and the length that Windows names; a directory has no
/// data and no size to change.
pub proof fn law_requests_go_to_the_file_of_the_context(
    fs: FsView,
    context: ContextView,
    handle: u64,
    size: int,
    offset: u64,
    bytes: Seq<u8>,
    eof: bool,
    constrained: bool,
    length: u64,
)
    requires
        context.file == Some(handle),
    ensures
        context.read(size, offset) matches Ok(task) && task.handle == handle && task.offset == offset
            && task.size == size && task.bytes.len() == 0,
        context.write(bytes, offset, eof, constrained) == (StepView::<
            FileWriteView,
            NtResult<(u32, FileInfo)>,
        >::Call {
            operation: OperationView::FileMetadata { handle },
            then: FileWriteView::Size { handle, bytes, offset, eof, constrained },
        }),
        fs.flush(context) == (StepView::<FlushTask, NtResult<FileInfo>>::Call {
            operation: OperationView::Flush { handle },
            then: FlushTask::Flush { handle },
        }),
        context.set_file_size(length, false) matches StepView::Call {
            operation: OperationView::SetFileMetadata { handle: changed, metadata },
            ..
        } && changed == handle && metadata.size == Some(length),
        context.set_file_size(length, true) == (StepView::<ResizeTask, NtResult<FileInfo>>::Call {
            operation: OperationView::FileMetadata { handle },
            then: ResizeTask::Compare { handle, size: length },
        }),
        context.overwrite() matches StepView::Call {
            operation: OperationView::SetFileMetadata { handle: changed, metadata },
            ..
        } && changed == handle && metadata.size == Some(0u64) && metadata.permissions is None,
{
}

/// A directory can be described, but neither read, written, flushed nor resized.
pub proof fn law_directories_have_no_data(
    fs: FsView,
    context: ContextView,
    size: int,
    offset: u64,
    bytes: Seq<u8>,
    length: u64,
    allocation: bool,
)
    requires
        context.file is None,
    ensures
        context.read(size, offset) == Err::<ReadView, NtStatus>(NtStatus::InvalidParameter),
        context.write(bytes, offset, false, false) == (StepView::<
            FileWriteView,
            NtResult<(u32, FileInfo)>,
        >::Done { result: Err(NtStatus::InvalidParameter) }),
        context.set_file_size(length, allocation) == (StepView::<
            ResizeTask,
            NtResult<FileInfo>,
        >::Done { result: Err(NtStatus::InvalidParameter) }),
        context.overwrite() == (StepView::<ResizeTask, NtResult<FileInfo>>::Done {
            result: Err(NtStatus::InvalidParameter),
        }),
        fs.flush(context) == (StepView::<FlushTask, NtResult<FileInfo>>::Call {
            operation: OperationView::Metadata { path: fs.path(context) },
            then: FlushTask::Describe,
        }),
{
}

/// What Windows is told before an open is what the entry named shows: its attributes,
/// no redirection, and no access control.
pub proof fn law_security_shows_the_entry_named(
    text: Seq<char>,
    path: PathView,
    meta: FsMetadata,
    error: crate::error::FsErrorView,
)
    requires
        path_named(Some(text)) == Ok::<PathView, NtStatus>(path),
    ensures
        security_step(Some(text)) == (StepView::<(), NtResult<FileSecurity>>::Call {
            operation: OperationView::Metadata { path },
            then: (),
        }),
        security_of(Ok(ValueView::Metadata(meta))) matches Ok(shown) && !shown.reparse
            && shown.descriptor_size == 0 && shown.attributes == crate::windows::info_of(
            meta,
        ).file_attributes,
        security_of(Err(error)) == Err::<FileSecurity, NtStatus>(status_of(error.kind)),
{
}

/// What a write sends first is the front of what is to be stored, at the place where it
/// is to be stored: as many of the bytes as the file has room for where the write is
/// constrained, all of them otherwise, and at most one request's worth. Where nothing is
/// to be stored, nothing is sent. The count in the answer is that of the bytes stored,
/// in 32 bits.
pub proof fn law_a_write_starts_with_what_is_stored(
    handle: u64,
    bytes: Seq<u8>,
    offset: u64,
    eof: bool,
    constrained: bool,
    meta: FsMetadata,
    count: int,
)
    requires
        count >= 0,
    ensures
        ({
            let start = if eof {
                meta.size
            } else {
                offset
            };
            let stored = if !constrained || start + bytes.len() <= meta.size {
                bytes.len() as int
            } else if start >= meta.size {
                0
            } else {
                meta.size - start
            };
            let first = write_resumed(
                FileWriteView::Size { handle, bytes, offset, eof, constrained },
                Ok(ValueView::Metadata(meta)),
            );
            &&& stored == 0 ==> (first matches StepView::Call { operation, then } && operation == (
            OperationView::FileMetadata { handle }) && (write_resumed(
                then,
                Ok(ValueView::Metadata(meta)),
            ) matches StepView::Done { result: Ok((none, _)) } && none == 0))
            &&& stored > 0 ==> (first matches StepView::Call { operation, then } && operation == (
            OperationView::Write {
                handle,
                offset: start,
                bytes: bytes.take(
                    if stored <= 32768 {
                        stored
                    } else {
                        32768
                    },
                ),
            }))
        }),
        write_resumed(FileWriteView::Describe { count }, Ok(ValueView::Metadata(meta))) matches
            StepView::Done { result: Ok((given, info)) } && (count - given) % 0x1_0000_0000 == 0
            && info.file_size == meta.size,
{
    let write = placed(handle, bytes, offset, eof, constrained, meta.size);
    let stored = write.bytes.len() as int;
    if stored > 0 {
        let part = if stored <= 32768 {
            stored
        } else {
            32768
        };
        assert(write.bytes.subrange(0, part) =~= bytes.take(part));
    }
}

} // verus!
