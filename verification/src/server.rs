//! The granting end of the pipes: which handles are open, and what each request
//! asks of the provider.
use std::collections::{HashMap, HashSet, VecDeque};
use vstd::prelude::*;
use crate::bridge_control::{BridgeControl, ControlView};
use crate::error::{error_of, fails_with, FsError, FsErrorKind, FsErrorView, FsResult};
use crate::metadata::{
    append_entries, entries_view, EntryView, FsDirectoryEntry, FsOpenOptions, MOUNT_IO_CHUNK,
};
use crate::path::{MountPath, PathView};
use crate::wire::{
    reply_view, Operation, OperationView, ReplyView, Request, Value, ValueView, PROTOCOL,
};

verus! {

broadcast use vstd::std_specs::hash::group_hash_axioms;

/// The most entries that one reply lists.
pub const PAGE: usize = 64;

/// An open directory: entries received from the provider but not handed out.
pub struct Pages {
    pending: VecDeque<FsDirectoryEntry>,
    eof: bool,
}

#[verifier::ext_equal]
pub struct PagesView {
    pub pending: Seq<EntryView>,
    pub eof: bool,
}

impl View for Pages {
    type V = PagesView;

    closed spec fn view(&self) -> PagesView {
        PagesView { pending: entries_view(self.pending@), eof: self.eof }
    }
}

impl PagesView {
    pub open spec fn initial() -> Self {
        PagesView { pending: Seq::empty(), eof: false }
    }

    /// The directory after a batch of the provider. An empty one is the last.
    pub open spec fn received(self, entries: Seq<EntryView>) -> Self {
        PagesView { pending: self.pending + entries, eof: entries.len() == 0 }
    }

    /// The number of entries in the next reply.
    pub open spec fn take(self) -> int {
        if self.pending.len() <= PAGE {
            self.pending.len() as int
        } else {
            PAGE as int
        }
    }

    /// The directory after the next reply.
    pub open spec fn taken(self) -> Self {
        PagesView { pending: self.pending.skip(self.take()), ..self }
    }
}

/// Serves one granted root. Numbers of handles are never used again.
pub struct Server {
    next: u64,
    files: HashSet<u64>,
    directories: HashMap<u64, Pages>,
    control: BridgeControl,
}

/// The state of a [`Server`]. `next` is the last number given out.
#[verifier::ext_equal]
pub struct ServerView {
    pub next: u64,
    pub files: Set<u64>,
    pub directories: Map<u64, PagesView>,
    pub control: ControlView,
}

impl View for Server {
    type V = ServerView;

    closed spec fn view(&self) -> ServerView {
        ServerView {
            next: self.next,
            files: self.files@,
            directories: self.directories@.map_values(|pages: Pages| pages@),
            control: self.control@,
        }
    }
}

/// The handles that a server gave up: of files and of directories.
#[derive(Clone, Debug, PartialEq, Eq)]
pub struct Released {
    pub files: Vec<u64>,
    pub directories: Vec<u64>,
}

/// What is asked of the provider.
pub enum ProviderCall {
    /// Whether it is still there.
    CheckAvailable,
    /// What an operation names, on the file or directory that its handle stands for.
    Forward { operation: Operation },
    /// A file, to be kept under `handle`.
    Open { handle: u64, path: MountPath, options: FsOpenOptions },
    /// A directory, to be kept under `handle`.
    OpenDirectory { handle: u64, path: MountPath },
}

pub enum ProviderCallView {
    CheckAvailable,
    Forward { operation: OperationView },
    Open { handle: u64, path: PathView, options: FsOpenOptions },
    OpenDirectory { handle: u64, path: PathView },
}

impl View for ProviderCall {
    type V = ProviderCallView;

    open spec fn view(&self) -> ProviderCallView {
        match *self {
            ProviderCall::CheckAvailable => ProviderCallView::CheckAvailable,
            ProviderCall::Forward { operation } => ProviderCallView::Forward {
                operation: operation@,
            },
            ProviderCall::Open { handle, path, options } => ProviderCallView::Open {
                handle,
                path: path@,
                options,
            },
            ProviderCall::OpenDirectory { handle, path } => ProviderCallView::OpenDirectory {
                handle,
                path: path@,
            },
        }
    }
}

/// What to do with the provider's answer.
#[derive(Clone, Copy, Debug)]
pub enum ServerTask {
    /// Ask for the capabilities.
    Available,
    /// Pass it on.
    Pass,
    /// Say that it is done.
    Acknowledge,
    /// Keep the file under this handle.
    Open { handle: u64 },
    /// Keep the directory under this handle.
    OpenDirectory { handle: u64 },
    /// Hand out entries of the directory under this handle.
    Page { handle: u64 },
    /// Pass on at most so many bytes.
    Read { length: u32 },
}

impl View for ServerTask {
    type V = ServerTask;

    open spec fn view(&self) -> ServerTask {
        *self
    }
}

pub enum ServerStep {
    Ask { call: ProviderCall, then: ServerTask },
    Done { result: FsResult<Value> },
}

pub enum ServerStepView {
    Ask { call: ProviderCallView, then: ServerTask },
    Done { result: ReplyView },
}

impl View for ServerStep {
    type V = ServerStepView;

    open spec fn view(&self) -> ServerStepView {
        match *self {
            ServerStep::Ask { call, then } => ServerStepView::Ask { call: call@, then },
            ServerStep::Done { result } => ServerStepView::Done { result: reply_view(result) },
        }
    }
}

pub open spec fn refused(kind: FsErrorKind, message: Seq<char>) -> ServerStepView {
    ServerStepView::Done { result: Err(error_of(kind, message)) }
}

pub open spec fn forwarded(operation: OperationView, then: ServerTask) -> ServerStepView {
    ServerStepView::Ask { call: ProviderCallView::Forward { operation }, then }
}

pub open spec fn acknowledged() -> ServerStepView {
    ServerStepView::Done { result: Ok(ValueView::Unit) }
}

impl ServerView {
    pub open spec fn initial(control: ControlView) -> Self {
        ServerView { next: 0, files: Set::empty(), directories: Map::empty(), control }
    }

    /// Numbers in use have been given out.
    pub open spec fn is_consistent(self) -> bool {
        &&& forall|handle: u64| #[trigger] self.files.contains(handle) ==> handle <= self.next
        &&& forall|handle: u64| #[trigger]
            self.directories.contains_key(handle) ==> handle <= self.next
    }

    /// The state after the next number has been given out.
    pub open spec fn allocated(self) -> Self {
        ServerView { next: (self.next + 1) as u64, ..self }
    }

    /// An operation on an open file is passed on; one on another handle is refused.
    pub open spec fn on_file(
        self,
        handle: u64,
        operation: OperationView,
        then: ServerTask,
    ) -> ServerStepView {
        if self.files.contains(handle) {
            forwarded(operation, then)
        } else {
            refused(FsErrorKind::Offline, "Unknown or closed file handle"@)
        }
    }

    /// The next entries of an open directory are handed out.
    pub open spec fn handed_out(self, handle: u64, pages: PagesView) -> (Self, ServerStepView) {
        (
            ServerView {
                directories: self.directories.insert(handle, pages.taken()),
                ..self
            },
            ServerStepView::Done {
                result: Ok(ValueView::Entries(pages.pending.take(pages.take()))),
            },
        )
    }

    pub open spec fn dispatched(self, operation: OperationView) -> (Self, ServerStepView) {
        match operation {
            OperationView::Capabilities => (
                self,
                ServerStepView::Ask {
                    call: ProviderCallView::CheckAvailable,
                    then: ServerTask::Available,
                },
            ),
            OperationView::Space { .. } => (self, forwarded(operation, ServerTask::Pass)),
            OperationView::Metadata { .. } => (self, forwarded(operation, ServerTask::Pass)),
            OperationView::Open { path, options } => if !options.is_valid() {
                (self, refused(FsErrorKind::InvalidInput, "Invalid file open options"@))
            } else if self.next == u64::MAX {
                (self, refused(FsErrorKind::Io, "Handle identity exhausted"@))
            } else {
                let handle = self.allocated().next;
                (
                    self.allocated(),
                    ServerStepView::Ask {
                        call: ProviderCallView::Open { handle, path, options },
                        then: ServerTask::Open { handle },
                    },
                )
            },
            OperationView::OpenDirectory { path } => if self.next == u64::MAX {
                (self, refused(FsErrorKind::Io, "Handle identity exhausted"@))
            } else {
                let handle = self.allocated().next;
                (
                    self.allocated(),
                    ServerStepView::Ask {
                        call: ProviderCallView::OpenDirectory { handle, path },
                        then: ServerTask::OpenDirectory { handle },
                    },
                )
            },
            OperationView::ReadDirectory { handle } => if !self.directories.contains_key(handle) {
                (self, refused(FsErrorKind::Offline, "Directory handle is closed"@))
            } else if self.directories[handle].pending.len() == 0
                && !self.directories[handle].eof {
                (self, forwarded(operation, ServerTask::Page { handle }))
            } else {
                self.handed_out(handle, self.directories[handle])
            },
            OperationView::CloseDirectory { handle } => if self.directories.contains_key(handle) {
                (
                    ServerView { directories: self.directories.remove(handle), ..self },
                    forwarded(operation, ServerTask::Acknowledge),
                )
            } else {
                (self, acknowledged())
            },
            OperationView::FileMetadata { handle } => (
                self,
                self.on_file(handle, operation, ServerTask::Pass),
            ),
            OperationView::Read { handle, offset, length } => (
                self,
                if length > MOUNT_IO_CHUNK {
                    refused(FsErrorKind::InvalidInput, "Read exceeds chunk size"@)
                } else {
                    self.on_file(handle, operation, ServerTask::Read { length })
                },
            ),
            OperationView::Write { handle, offset, bytes } => (
                self,
                if bytes.len() > MOUNT_IO_CHUNK {
                    refused(FsErrorKind::InvalidInput, "Write exceeds chunk size"@)
                } else {
                    self.on_file(handle, operation, ServerTask::Acknowledge)
                },
            ),
            OperationView::SetFileMetadata { handle, metadata } => (
                self,
                self.on_file(handle, operation, ServerTask::Acknowledge),
            ),
            OperationView::Flush { handle } => (
                self,
                self.on_file(handle, operation, ServerTask::Acknowledge),
            ),
            OperationView::Close { handle } => if self.files.contains(handle) {
                (
                    ServerView { files: self.files.remove(handle), ..self },
                    forwarded(operation, ServerTask::Acknowledge),
                )
            } else {
                (self, acknowledged())
            },
            OperationView::Report { event } => match self.control.reported(event) {
                Some(control) => (ServerView { control, ..self }, acknowledged()),
                None => (
                    self,
                    refused(FsErrorKind::InvalidInput, "Unexpected attachment lifecycle event"@),
                ),
            },
            OperationView::Poll => if self.control.is_retired() {
                (self, refused(FsErrorKind::Offline, "Attachment is retired"@))
            } else {
                (
                    ServerView { control: self.control.polled(), ..self },
                    ServerStepView::Done {
                        result: Ok(
                            ValueView::Directive(self.control.directive()),
                        ),
                    },
                )
            },
            _ => (self, forwarded(operation, ServerTask::Acknowledge)),
        }
    }

    pub open spec fn answered(self, task: ServerTask, reply: ReplyView) -> (Self, ServerStepView) {
        match reply {
            Err(e) => (self, ServerStepView::Done { result: Err(e) }),
            Ok(value) => match task {
                ServerTask::Available => (
                    self,
                    forwarded(OperationView::Capabilities, ServerTask::Pass),
                ),
                ServerTask::Pass => (self, ServerStepView::Done { result: Ok(value) }),
                ServerTask::Acknowledge => (self, acknowledged()),
                ServerTask::Open { handle } => (
                    ServerView { files: self.files.insert(handle), ..self },
                    ServerStepView::Done { result: Ok(ValueView::Handle(handle)) },
                ),
                ServerTask::OpenDirectory { handle } => (
                    ServerView {
                        directories: self.directories.insert(handle, PagesView::initial()),
                        ..self
                    },
                    ServerStepView::Done { result: Ok(ValueView::Handle(handle)) },
                ),
                ServerTask::Page { handle } => match value {
                    ValueView::Entries(entries) => self.handed_out(
                        handle,
                        self.directories[handle].received(entries),
                    ),
                    other => (self, ServerStepView::Done { result: Ok(other) }),
                },
                ServerTask::Read { length } => match value {
                    ValueView::Data(bytes) => (
                        self,
                        if bytes.len() > length {
                            refused(FsErrorKind::Io, "Provider exceeded requested read length"@)
                        } else {
                            ServerStepView::Done { result: Ok(value) }
                        },
                    ),
                    other => (self, ServerStepView::Done { result: Ok(other) }),
                },
            },
        }
    }
}

fn refuse(kind: FsErrorKind, message: &str) -> (step: ServerStep)
    ensures
        step@ == refused(kind, message@),
{
    ServerStep::Done { result: Err(FsError::new(kind, message)) }
}

fn forward(operation: Operation, then: ServerTask) -> (step: ServerStep)
    ensures
        step@ == forwarded(operation@, then),
{
    ServerStep::Ask { call: ProviderCall::Forward { operation }, then }
}

fn acknowledge() -> (step: ServerStep)
    ensures
        step@ == acknowledged(),
{
    ServerStep::Done { result: Ok(Value::Unit) }
}

impl Pages {
    /// Takes out the next entries to hand out.
    fn take(&mut self) -> (entries: Vec<FsDirectoryEntry>)
        ensures
            entries_view(entries@) == old(self)@.pending.take(old(self)@.take()),
            final(self)@ == old(self)@.taken(),
    {
        let have: usize = self.pending.len();
        let count: usize = if have <= PAGE {
            have
        } else {
            PAGE
        };
        let ghost all = self.pending@;
        let mut entries: Vec<FsDirectoryEntry> = Vec::new();
        let mut i: usize = 0;
        proof {
            assert(all.skip(0) =~= all);
            assert(all.take(0) =~= Seq::<FsDirectoryEntry>::empty());
        }
        while i < count
            invariant
                i <= count <= all.len(),
                self.pending@ == all.skip(i as int),
                self.eof == old(self).eof,
                entries@ == all.take(i as int),
            decreases count - i,
        {
            if let Some(entry) = self.pending.pop_front() {
                entries.push(entry);
            }
            i += 1;
            proof {
                assert(self.pending@ =~= all.skip(i as int));
                assert(entries@ =~= all.take(i as int));
            }
        }
        proof {
            assert(entries_view(entries@) =~= entries_view(all).take(count as int));
            assert(entries_view(self.pending@) =~= entries_view(all).skip(count as int));
        }
        entries
    }
}

impl Server {
    /// Numbers in use have been given out.
    pub open spec fn wf(&self) -> bool {
        self@.is_consistent()
    }

    /// Serves a root whose attachment is followed by `control`.
    pub fn with_control(control: BridgeControl) -> (server: Self)
        ensures
            server.wf(),
            server@ == ServerView::initial(control@),
    {
        let server = Server {
            next: 0,
            files: HashSet::new(),
            directories: HashMap::new(),
            control,
        };
        assert(server@ =~= ServerView::initial(control@));
        server
    }

    /// Serves a root whose attachment has yet to start.
    pub fn new() -> (server: Self)
        ensures
            server.wf(),
            server@ == ServerView::initial(ControlView::initial()),
    {
        Server::with_control(BridgeControl::default())
    }

    fn on_file(&self, handle: u64, operation: Operation, then: ServerTask) -> (step: ServerStep)
        ensures
            step@ == self@.on_file(handle, operation@, then),
    {
        if self.files.contains(&handle) {
            forward(operation, then)
        } else {
            refuse(FsErrorKind::Offline, "Unknown or closed file handle")
        }
    }

    /// Puts `pages` back under `handle` without the entries handed out.
    fn hand_out(&mut self, handle: u64, pages: Pages) -> (step: ServerStep)
        requires
            old(self).wf(),
            handle <= old(self)@.next,
        ensures
            final(self).wf(),
            (final(self)@, step@) == old(self)@.handed_out(handle, pages@),
    {
        let ghost before = pages@;
        let mut pages = pages;
        let entries = pages.take();
        self.directories.insert(handle, pages);
        assert(self@.directories =~= old(self)@.directories.insert(handle, before.taken()));
        assert(self@ =~= old(self)@.handed_out(handle, before).0);
        ServerStep::Done { result: Ok(Value::Entries(entries)) }
    }

    fn file_handles(&self) -> (handles: Vec<u64>)
        ensures
            handles@.no_duplicates(),
            handles@.to_set() == self@.files,
    {
        let mut handles: Vec<u64> = Vec::new();
        for handle in it: self.files.iter()
            invariant
                it.seq() == vstd::std_specs::iter::IteratorSpec::remaining(
                    &vstd::std_specs::hash::spec_hash_keys_iter(&self.files),
                ),
                handles@ == it.seq().unref().take(it.index() as int),
        {
            handles.push(*handle);
            assert(handles@ =~= it.seq().unref().take(it.index() + 1));
        }
        proof {
            let seen = vstd::std_specs::iter::IteratorSpec::remaining(
                &vstd::std_specs::hash::spec_hash_keys_iter(&self.files),
            );
            assert(handles@ =~= seen.unref());
            assert forall|a: int, b: int| 0 <= a < b < handles@.len() implies handles@[a]
                != handles@[b] by {
                assert(seen[a] != seen[b]);
            }
        }
        handles
    }

    fn directory_handles(&self) -> (handles: Vec<u64>)
        ensures
            handles@.no_duplicates(),
            handles@.to_set() == self@.directories.dom(),
    {
        let mut handles: Vec<u64> = Vec::new();
        for handle in it: self.directories.keys()
            invariant
                it.seq() == vstd::std_specs::iter::IteratorSpec::remaining(
                    &vstd::std_specs::hash::spec_keys_iter(&self.directories),
                ),
                handles@ == it.seq().unref().take(it.index() as int),
        {
            handles.push(*handle);
            assert(handles@ =~= it.seq().unref().take(it.index() + 1));
        }
        proof {
            let seen = vstd::std_specs::iter::IteratorSpec::remaining(
                &vstd::std_specs::hash::spec_keys_iter(&self.directories),
            );
            assert(handles@ =~= seen.unref());
            assert(self@.directories.dom() =~= self.directories@.dom());
            assert forall|a: int, b: int| 0 <= a < b < handles@.len() implies handles@[a]
                != handles@[b] by {
                assert(seen[a] != seen[b]);
            }
        }
        handles
    }

    /// Gives up all handles when the pipes end, and names each once, in some
    /// order, for the provider to close.
    pub fn close(&mut self) -> (released: Released)
        requires
            old(self).wf(),
        ensures
            final(self).wf(),
            released.files@.no_duplicates(),
            released.files@.to_set() == old(self)@.files,
            released.directories@.no_duplicates(),
            released.directories@.to_set() == old(self)@.directories.dom(),
            final(self)@ == (ServerView {
                files: Set::empty(),
                directories: Map::empty(),
                ..old(self)@
            }),
    {
        let released = Released {
            files: self.file_handles(),
            directories: self.directory_handles(),
        };
        self.files = HashSet::new();
        self.directories = HashMap::new();
        assert(self@.directories =~= Map::<u64, PagesView>::empty());
        released
    }

    /// Starts to serve an operation.
    pub fn dispatch(&mut self, operation: Operation) -> (step: ServerStep)
        requires
            old(self).wf(),
        ensures
            final(self).wf(),
            (final(self)@, step@) == old(self)@.dispatched(operation@),
    {
        match operation {
            Operation::Capabilities => ServerStep::Ask {
                call: ProviderCall::CheckAvailable,
                then: ServerTask::Available,
            },
            Operation::Space { path } => forward(Operation::Space { path }, ServerTask::Pass),
            Operation::Metadata { path } => forward(Operation::Metadata { path }, ServerTask::Pass),
            Operation::Open { path, options } => {
                if let Err(e) = options.validate() {
                    return ServerStep::Done { result: Err(e) };
                }
                if self.next == u64::MAX {
                    return refuse(FsErrorKind::Io, "Handle identity exhausted");
                }
                self.next = self.next + 1;
                let handle: u64 = self.next;
                ServerStep::Ask {
                    call: ProviderCall::Open { handle, path, options },
                    then: ServerTask::Open { handle },
                }
            },
            Operation::OpenDirectory { path } => {
                if self.next == u64::MAX {
                    return refuse(FsErrorKind::Io, "Handle identity exhausted");
                }
                self.next = self.next + 1;
                let handle: u64 = self.next;
                ServerStep::Ask {
                    call: ProviderCall::OpenDirectory { handle, path },
                    then: ServerTask::OpenDirectory { handle },
                }
            },
            Operation::ReadDirectory { handle } => match self.directories.remove(&handle) {
                None => {
                    assert(self@ =~= old(self)@);
                    refuse(FsErrorKind::Offline, "Directory handle is closed")
                },
                Some(pages) => {
                    assert(old(self)@.directories.contains_key(handle));
                    assert(old(self)@.directories[handle] == pages@);
                    if pages.pending.len() == 0 && !pages.eof {
                        self.directories.insert(handle, pages);
                        assert(self@.directories =~= old(self)@.directories);
                        assert(self@ =~= old(self)@);
                        return forward(
                            Operation::ReadDirectory { handle },
                            ServerTask::Page { handle },
                        );
                    }
                    let ghost view = pages@;
                    assert(self@.directories =~= old(self)@.directories.remove(handle));
                    let step = self.hand_out(handle, pages);
                    assert(self@.directories =~= old(self)@.directories.insert(
                        handle,
                        view.taken(),
                    ));
                    step
                },
            },
            Operation::CloseDirectory { handle } => match self.directories.remove(&handle) {
                Some(_) => {
                    assert(self@.directories =~= old(self)@.directories.remove(handle));
                    forward(Operation::CloseDirectory { handle }, ServerTask::Acknowledge)
                },
                None => {
                    assert(self@ =~= old(self)@);
                    acknowledge()
                },
            },
            Operation::FileMetadata { handle } => self.on_file(
                handle,
                Operation::FileMetadata { handle },
                ServerTask::Pass,
            ),
            Operation::Read { handle, offset, length } => if length as usize > MOUNT_IO_CHUNK {
                refuse(FsErrorKind::InvalidInput, "Read exceeds chunk size")
            } else {
                self.on_file(
                    handle,
                    Operation::Read { handle, offset, length },
                    ServerTask::Read { length },
                )
            },
            Operation::Write { handle, offset, bytes } => if bytes.len() > MOUNT_IO_CHUNK {
                refuse(FsErrorKind::InvalidInput, "Write exceeds chunk size")
            } else {
                self.on_file(
                    handle,
                    Operation::Write { handle, offset, bytes },
                    ServerTask::Acknowledge,
                )
            },
            Operation::SetFileMetadata { handle, metadata } => self.on_file(
                handle,
                Operation::SetFileMetadata { handle, metadata },
                ServerTask::Acknowledge,
            ),
            Operation::Flush { handle } => self.on_file(
                handle,
                Operation::Flush { handle },
                ServerTask::Acknowledge,
            ),
            Operation::Close { handle } => if self.files.remove(&handle) {
                assert(self@ =~= (ServerView {
                    files: old(self)@.files.remove(handle),
                    ..old(self)@
                }));
                forward(Operation::Close { handle }, ServerTask::Acknowledge)
            } else {
                assert(self@ =~= old(self)@);
                acknowledge()
            },
            Operation::SetMetadata { path, metadata } => forward(
                Operation::SetMetadata { path, metadata },
                ServerTask::Acknowledge,
            ),
            Operation::Mkdir { path } => forward(
                Operation::Mkdir { path },
                ServerTask::Acknowledge,
            ),
            Operation::Remove { path, directory } => forward(
                Operation::Remove { path, directory },
                ServerTask::Acknowledge,
            ),
            Operation::Rename { from, to, replace } => forward(
                Operation::Rename { from, to, replace },
                ServerTask::Acknowledge,
            ),
            Operation::Report { event } => match self.control.report(event) {
                Ok(_) => acknowledge(),
                Err(e) => ServerStep::Done { result: Err(e) },
            },
            Operation::Poll => match self.control.poll() {
                Ok(directive) => ServerStep::Done { result: Ok(Value::Directive(directive)) },
                Err(e) => ServerStep::Done { result: Err(e) },
            },
        }
    }

    /// Goes on with the provider's answer.
    pub fn answer(&mut self, task: ServerTask, reply: FsResult<Value>) -> (step: ServerStep)
        requires
            old(self).wf(),
            match task {
                ServerTask::Open { handle } => handle <= old(self)@.next,
                ServerTask::OpenDirectory { handle } => handle <= old(self)@.next,
                ServerTask::Page { handle } => old(self)@.directories.contains_key(handle),
                _ => true,
            },
        ensures
            final(self).wf(),
            (final(self)@, step@) == old(self)@.answered(task@, reply_view(reply)),
    {
        let value = match reply {
            Ok(value) => value,
            Err(e) => {
                return ServerStep::Done { result: Err(e) };
            },
        };
        match task {
            ServerTask::Available => forward(Operation::Capabilities, ServerTask::Pass),
            ServerTask::Pass => ServerStep::Done { result: Ok(value) },
            ServerTask::Acknowledge => acknowledge(),
            ServerTask::Open { handle } => {
                self.files.insert(handle);
                assert(self@ =~= (ServerView {
                    files: old(self)@.files.insert(handle),
                    ..old(self)@
                }));
                ServerStep::Done { result: Ok(Value::Handle(handle)) }
            },
            ServerTask::OpenDirectory { handle } => {
                let pages = Pages { pending: VecDeque::new(), eof: false };
                assert(pages@ =~= PagesView::initial());
                self.directories.insert(handle, pages);
                assert(self@.directories =~= old(self)@.directories.insert(
                    handle,
                    PagesView::initial(),
                ));
                ServerStep::Done { result: Ok(Value::Handle(handle)) }
            },
            ServerTask::Page { handle } => match value {
                Value::Entries(entries) => match self.directories.remove(&handle) {
                    Some(pages) => {
                        let ghost before = pages@;
                        let ghost new = entries_view(entries@);
                        assert(old(self)@.directories[handle] == before);
                        let mut pages = pages;
                        pages.eof = entries.len() == 0;
                        append_entries(&mut pages.pending, entries);
                        assert(pages@ =~= before.received(new));
                        assert(self@.directories =~= old(self)@.directories.remove(handle));
                        let step = self.hand_out(handle, pages);
                        assert(self@.directories =~= old(self)@.directories.insert(
                            handle,
                            before.received(new).taken(),
                        ));
                        step
                    },
                    None => refuse(FsErrorKind::Offline, "Directory handle is closed"),
                },
                other => ServerStep::Done { result: Ok(other) },
            },
            ServerTask::Read { length } => match value {
                Value::Data(bytes) => if bytes.len() > length as usize {
                    refuse(FsErrorKind::Io, "Provider exceeded requested read length")
                } else {
                    ServerStep::Done { result: Ok(Value::Data(bytes)) }
                },
                other => ServerStep::Done { result: Ok(other) },
            },
        }
    }
}

/// The order of requests on one pipe.
pub struct Sequence {
    last: u64,
}

impl View for Sequence {
    type V = u64;

    closed spec fn view(&self) -> u64 {
        self.last
    }
}

/// What is answered to a request that took too long.
pub open spec fn too_late() -> FsErrorView {
    error_of(
        FsErrorKind::TimedOut,
        "Filesystem request timed out; attachment is being retired"@,
    )
}

impl Sequence {
    pub fn new() -> (sequence: Self)
        ensures
            sequence@ == 0,
    {
        Sequence { last: 0 }
    }

    /// Takes a request in, unless it speaks another version or repeats a number.
    pub fn accept(&mut self, request: &Request) -> (result: Result<(), &'static str>)
        ensures
            result is Ok <==> request.version == PROTOCOL && request.id > old(self)@,
            result is Ok ==> final(self)@ == request.id,
            result matches Err(text) ==> final(self)@ == old(self)@ && text@
                == "Invalid bridge version or request sequence"@,
    {
        if request.version != PROTOCOL || request.id <= self.last {
            return Err("Invalid bridge version or request sequence");
        }
        self.last = request.id;
        Ok(())
    }

    /// The reply to send for an outcome, and why to stop after it. No outcome
    /// means that the request took too long: it is not tried again.
    pub fn conclude(outcome: Option<FsResult<Value>>) -> (reply: (
        FsResult<Value>,
        Option<&'static str>,
    ))
        ensures
            match outcome {
                Some(result) => reply == (result, None::<&'static str>),
                None => fails_with(reply.0, too_late()) && (reply.1 matches Some(text) && text@
                    == "Filesystem bridge retired after timeout"@),
            },
    {
        match outcome {
            Some(result) => (result, None),
            None => (
                Err(
                    FsError::new(
                        FsErrorKind::TimedOut,
                        "Filesystem request timed out; attachment is being retired",
                    ),
                ),
                Some("Filesystem bridge retired after timeout"),
            ),
        }
    }
}

/// A new handle has a number that no file and no directory has or had: it is
/// above the last one given out, and no step lowers that mark.
pub proof fn law_handles_are_never_reused(
    server: ServerView,
    operation: OperationView,
    task: ServerTask,
    reply: ReplyView,
)
    requires
        server.is_consistent(),
    ensures
        server.dispatched(operation).0.next >= server.next,
        server.answered(task, reply).0.next == server.next,
        match server.dispatched(operation).1 {
            ServerStepView::Ask { call: ProviderCallView::Open { handle, .. }, .. } => {
                &&& handle > server.next
                &&& !server.files.contains(handle)
                &&& !server.directories.contains_key(handle)
            },
            ServerStepView::Ask { call: ProviderCallView::OpenDirectory { handle, .. }, .. } => {
                &&& handle > server.next
                &&& !server.files.contains(handle)
                &&& !server.directories.contains_key(handle)
            },
            _ => true,
        },
{
}

/// What reaches a provider's file is within bounds and on an open handle; once a
/// handle is closed, nothing reaches it any more.
pub proof fn law_only_bounded_requests_on_open_handles(
    server: ServerView,
    handle: u64,
    offset: u64,
    length: u32,
    bytes: Seq<u8>,
    metadata: crate::metadata::FsSetMetadata,
)
    ensures
        server.dispatched(OperationView::Read { handle, offset, length }).1 is Ask
            ==> server.files.contains(handle) && length <= MOUNT_IO_CHUNK,
        server.dispatched(OperationView::Write { handle, offset, bytes }).1 is Ask
            ==> server.files.contains(handle) && bytes.len() <= MOUNT_IO_CHUNK,
        ({
            let closed = server.dispatched(OperationView::Close { handle }).0;
            &&& closed.dispatched(OperationView::Read { handle, offset, length }).1 is Done
            &&& closed.dispatched(OperationView::Write { handle, offset, bytes }).1 is Done
            &&& closed.dispatched(OperationView::Flush { handle }).1 is Done
            &&& closed.dispatched(OperationView::FileMetadata { handle }).1 is Done
            &&& closed.dispatched(OperationView::SetFileMetadata { handle, metadata }).1 is Done
            &&& closed.dispatched(OperationView::Close { handle }) == (closed, acknowledged())
        }),
{
}

/// Entries are handed out in the provider's order, none lost and none twice, and
/// an empty reply means that there are none left.
pub proof fn law_pages_keep_every_entry(pages: PagesView)
    ensures
        pages.pending == pages.pending.take(pages.take()) + pages.taken().pending,
        pages.pending.take(pages.take()).len() <= PAGE,
        pages.take() == 0 <==> pages.pending.len() == 0,
        pages.taken().eof == pages.eof,
{
    assert(pages.pending =~= pages.pending.take(pages.take()) + pages.taken().pending);
}

/// The provider is asked for exactly what an operation names: `operation` is passed
/// on unchanged, the handles stay as they are, and the answer is treated as `then`
/// says.
pub open spec fn passes_on(server: ServerView, operation: OperationView, then: ServerTask) -> bool {
    server.dispatched(operation) == (
        server,
        ServerStepView::Ask { call: ProviderCallView::Forward { operation }, then },
    )
}

/// Requests on paths are passed on as they are. What describes something is answered
/// with what the provider says, and what changes something only with that it is done.
pub proof fn law_requests_on_paths_are_passed_on(
    server: ServerView,
    path: PathView,
    other: PathView,
    metadata: crate::metadata::FsSetMetadata,
    flag: bool,
)
    ensures
        passes_on(server, OperationView::Space { path }, ServerTask::Pass),
        passes_on(server, OperationView::Metadata { path }, ServerTask::Pass),
        passes_on(server, OperationView::SetMetadata { path, metadata }, ServerTask::Acknowledge),
        passes_on(server, OperationView::Mkdir { path }, ServerTask::Acknowledge),
        passes_on(
            server,
            OperationView::Remove { path, directory: flag },
            ServerTask::Acknowledge,
        ),
        passes_on(
            server,
            OperationView::Rename { from: path, to: other, replace: flag },
            ServerTask::Acknowledge,
        ),
{
}

/// Requests on an open file are passed on as they are, within the bound of one
/// request; on any other handle, and past the bound, they are refused.
pub proof fn law_requests_on_files_are_passed_on(
    server: ServerView,
    handle: u64,
    offset: u64,
    length: u32,
    bytes: Seq<u8>,
    metadata: crate::metadata::FsSetMetadata,
)
    ensures
        server.files.contains(handle) ==> {
            &&& passes_on(server, OperationView::FileMetadata { handle }, ServerTask::Pass)
            &&& passes_on(server, OperationView::Flush { handle }, ServerTask::Acknowledge)
            &&& passes_on(
                server,
                OperationView::SetFileMetadata { handle, metadata },
                ServerTask::Acknowledge,
            )
            &&& length <= 32768 ==> passes_on(
                server,
                OperationView::Read { handle, offset, length },
                ServerTask::Read { length },
            )
            &&& bytes.len() <= 32768 ==> passes_on(
                server,
                OperationView::Write { handle, offset, bytes },
                ServerTask::Acknowledge,
            )
        },
        !server.files.contains(handle) ==> {
            &&& server.dispatched(OperationView::FileMetadata { handle }).1 matches
                ServerStepView::Done { result: Err(e) } && e.kind == FsErrorKind::Offline
            &&& server.dispatched(OperationView::Flush { handle }).1 matches ServerStepView::Done {
                result: Err(e),
            } && e.kind == FsErrorKind::Offline
        },
        length > 32768 ==> (server.dispatched(
            OperationView::Read { handle, offset, length },
        ).1 matches ServerStepView::Done { result: Err(e) } && e.kind == FsErrorKind::InvalidInput),
        bytes.len() > 32768 ==> (server.dispatched(
            OperationView::Write { handle, offset, bytes },
        ).1 matches ServerStepView::Done { result: Err(e) } && e.kind == FsErrorKind::InvalidInput),
{
}

/// An open asks for the file named, with the options given, under the next number, and
/// that number is answered and kept once the provider has opened it; one that it
/// refuses is not kept. Options that make no sense are refused.
pub proof fn law_opens_are_kept_under_their_number(
    server: ServerView,
    path: PathView,
    options: FsOpenOptions,
    value: ValueView,
    error: FsErrorView,
)
    requires
        server.next < u64::MAX,
    ensures
        ({
            let number = (server.next + 1) as u64;
            let valid = (options.read || options.write) && (options.truncate ==> options.write) && (
            options.create != crate::metadata::FsCreate::OpenExisting ==> options.write);
            let (after, step) = server.dispatched(OperationView::Open { path, options });
            let (listing, listed) = server.dispatched(OperationView::OpenDirectory { path });
            &&& !valid ==> after == server && (step matches ServerStepView::Done { result: Err(e) }
                && e.kind == FsErrorKind::InvalidInput)
            &&& valid ==> after.next == number && after.files == server.files && step == (
            ServerStepView::Ask {
                call: ProviderCallView::Open { handle: number, path, options },
                then: ServerTask::Open { handle: number },
            })
            &&& listing.next == number && listing.directories == server.directories && listed == (
            ServerStepView::Ask {
                call: ProviderCallView::OpenDirectory { handle: number, path },
                then: ServerTask::OpenDirectory { handle: number },
            })
            &&& ({
                let (kept, done) = after.answered(ServerTask::Open { handle: number }, Ok(value));
                &&& kept.files == after.files.insert(number)
                &&& kept.directories == after.directories
                &&& done == (ServerStepView::Done { result: Ok(ValueView::Handle(number)) })
            })
            &&& ({
                let (kept, done) = listing.answered(
                    ServerTask::OpenDirectory { handle: number },
                    Ok(value),
                );
                &&& kept.directories.contains_key(number)
                &&& kept.directories[number].pending.len() == 0 && !kept.directories[number].eof
                &&& kept.files == listing.files
                &&& done == (ServerStepView::Done { result: Ok(ValueView::Handle(number)) })
            })
            &&& after.answered(ServerTask::Open { handle: number }, Err(error)) == (
                after,
                ServerStepView::Done { result: Err(error) },
            )
        }),
{
}

/// A close gives up its handle at once and is passed on; of a handle that is not open
/// it is done already.
pub proof fn law_closes_give_up_their_handle(server: ServerView, handle: u64, other: u64)
    requires
        other != handle,
    ensures
        ({
            let (after, step) = server.dispatched(OperationView::Close { handle });
            let (later, listed) = server.dispatched(OperationView::CloseDirectory { handle });
            &&& !after.files.contains(handle)
            &&& after.files.contains(other) == server.files.contains(other)
            &&& after.directories == server.directories && after.next == server.next
            &&& server.files.contains(handle) ==> step == (ServerStepView::Ask {
                call: ProviderCallView::Forward { operation: OperationView::Close { handle } },
                then: ServerTask::Acknowledge,
            })
            &&& !server.files.contains(handle) ==> after == server && step == (
            ServerStepView::Done { result: Ok(ValueView::Unit) })
            &&& !later.directories.contains_key(handle)
            &&& later.directories.contains_key(other) == server.directories.contains_key(other)
            &&& later.files == server.files && later.next == server.next
            &&& server.directories.contains_key(handle) ==> listed == (ServerStepView::Ask {
                call: ProviderCallView::Forward {
                    operation: OperationView::CloseDirectory { handle },
                },
                then: ServerTask::Acknowledge,
            })
            &&& !server.directories.contains_key(handle) ==> later == server && listed == (
            ServerStepView::Done { result: Ok(ValueView::Unit) })
        }),
{
}

/// The provider is asked for more entries only when none is left to hand out and it
/// has not said that there are no more. What it gives is handed out, up to 64 at a
/// time, from the front.
pub proof fn law_entries_are_handed_out_in_pages(
    server: ServerView,
    handle: u64,
    entries: Seq<EntryView>,
)
    requires
        server.directories.contains_key(handle),
    ensures
        ({
            let pages = server.directories[handle];
            let operation = OperationView::ReadDirectory { handle };
            &&& pages.pending.len() == 0 && !pages.eof ==> passes_on(
                server,
                operation,
                ServerTask::Page { handle },
            )
            &&& pages.pending.len() > 0 ==> (server.dispatched(operation) matches (
                after,
                ServerStepView::Done { result: Ok(ValueView::Entries(given)) },
            ) && {
                &&& given + after.directories[handle].pending == pages.pending
                &&& 0 < given.len() <= 64
                &&& given.len() == 64 || after.directories[handle].pending.len() == 0
            })
            &&& pages.pending.len() == 0 && !pages.eof ==> (server.answered(
                ServerTask::Page { handle },
                Ok(ValueView::Entries(entries)),
            ) matches (after, ServerStepView::Done { result: Ok(ValueView::Entries(given)) }) && {
                &&& given + after.directories[handle].pending == entries
                &&& given.len() <= 64
                &&& given.len() == 0 <==> entries.len() == 0
                &&& after.directories[handle].eof <==> entries.len() == 0
            })
        }),
{
    let pages = server.directories[handle];
    assert(pages.pending =~= pages.pending.take(pages.take()) + pages.taken().pending);
    let more = pages.received(entries);
    assert(more.pending =~= more.pending.take(more.take()) + more.taken().pending);
    if pages.pending.len() == 0 {
        assert(more.pending =~= entries);
    }
}

/// What the provider says comes back: its errors as they are, what it describes as it
/// is, and of a change only that it is done. More bytes than were asked for are an
/// error.
pub proof fn law_answers_come_back(
    server: ServerView,
    task: ServerTask,
    value: ValueView,
    bytes: Seq<u8>,
    length: u32,
    error: FsErrorView,
)
    ensures
        server.answered(task, Err(error)) == (
            server,
            ServerStepView::Done { result: Err(error) },
        ),
        server.answered(ServerTask::Pass, Ok(value)) == (
            server,
            ServerStepView::Done { result: Ok(value) },
        ),
        server.answered(ServerTask::Acknowledge, Ok(value)) == (
            server,
            ServerStepView::Done { result: Ok(ValueView::Unit) },
        ),
        bytes.len() <= length ==> server.answered(
            ServerTask::Read { length },
            Ok(ValueView::Data(bytes)),
        ) == (server, ServerStepView::Done { result: Ok(ValueView::Data(bytes)) }),
        bytes.len() > length ==> (server.answered(
            ServerTask::Read { length },
            Ok(ValueView::Data(bytes)),
        ).1 matches ServerStepView::Done { result: Err(e) } && e.kind == FsErrorKind::Io),
        server.answered(ServerTask::Available, Ok(value)) == (
            server,
            ServerStepView::Ask {
                call: ProviderCallView::Forward { operation: OperationView::Capabilities },
                then: ServerTask::Pass,
            },
        ),
        server.dispatched(OperationView::Capabilities) == (
            server,
            ServerStepView::Ask {
                call: ProviderCallView::CheckAvailable,
                then: ServerTask::Available,
            },
        ),
{
}

/// The attachment's own requests never reach the provider: an event is taken in or
/// refused, and a poll is answered with what to do next, once.
pub proof fn law_lifecycle_requests_stay_here(
    server: ServerView,
    event: crate::bridge_control::EventView,
)
    ensures
        server.dispatched(OperationView::Report { event }).1 is Done,
        server.control.reported(event) matches Some(control) ==> server.dispatched(
            OperationView::Report { event },
        ) == (
            ServerView { control, ..server },
            ServerStepView::Done { result: Ok(ValueView::Unit) },
        ),
        server.control.reported(event) is None ==> server.dispatched(
            OperationView::Report { event },
        ).0 == server && (server.dispatched(OperationView::Report { event }).1 matches
            ServerStepView::Done { result } && result is Err),
        !server.control.is_retired() ==> (server.dispatched(OperationView::Poll) matches (
            after,
            ServerStepView::Done { result: Ok(ValueView::Directive(directive)) },
        ) && directive == server.control.directive() && !after.control.pending && after.files
            == server.files && after.directories == server.directories),
        server.control.is_retired() ==> (server.dispatched(OperationView::Poll).1 matches
            ServerStepView::Done { result: Err(e) } && e.kind == FsErrorKind::Offline),
{
}

/// A new server has nothing open, and numbers its handles from 1.
pub proof fn law_a_new_server_has_nothing_open(
    control: ControlView,
    path: PathView,
    handle: u64,
)
    ensures
        ({
            let server = ServerView::initial(control);
            &&& server.control == control
            &&& !server.files.contains(handle) && !server.directories.contains_key(handle)
            &&& server.dispatched(OperationView::OpenDirectory { path }).1 == (
            ServerStepView::Ask {
                call: ProviderCallView::OpenDirectory { handle: 1, path },
                then: ServerTask::OpenDirectory { handle: 1 },
            })
        }),
{
}

} // verus!
