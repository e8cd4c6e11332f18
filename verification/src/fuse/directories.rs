//! Requests on directory handles.
use std::collections::VecDeque;
use vstd::prelude::*;
use crate::errno::{errno, errno_of, Errno};
use crate::error::FsResult;
use crate::exchange::{Step, StepView};
use crate::fuse::{acknowledge, acknowledged, file_type, kind, Answer, FileType, Fs, FsView};
use crate::fuse::files::gives_handle;
use crate::inodes::{Directory, DirectoryView, StateView};
use crate::metadata::{
    append_entries, at_most, ends_with_nothing, entries_view, together, EntryView, FsDirectoryEntry,
};
use crate::path::{MountPath, PathView};
use crate::wire::{reply_view, Operation, OperationView, ReplyView, Value, ValueView};

verus! {

/// An open of the directory `ino` at `path` that waits for the provider's handle.
pub struct OpendirTask {
    pub ino: u64,
    pub path: MountPath,
}

#[verifier::ext_equal]
pub struct OpendirView {
    pub ino: u64,
    pub path: PathView,
}

impl View for OpendirTask {
    type V = OpendirView;

    open spec fn view(&self) -> OpendirView {
        OpendirView { ino: self.ino, path: self.path@ }
    }
}

/// Which reply a directory read waits for.
#[derive(Clone, Copy, Debug)]
pub enum ReaddirStage {
    /// That the directory is closed, to be read again from its start.
    Closing,
    /// The handle of the directory opened again.
    Opening,
    /// More entries.
    Reading,
    /// Whether the entry that was offered fitted.
    Adding,
}

/// A read of the directory handle `fh` from the position `offset` on.
#[derive(Clone, Copy, Debug)]
pub struct ReaddirTask {
    pub fh: u64,
    pub offset: u64,
    pub stage: ReaddirStage,
}

impl View for ReaddirTask {
    type V = ReaddirTask;

    open spec fn view(&self) -> ReaddirTask {
        *self
    }
}

pub enum ReaddirStep {
    /// Send `operation`, then resume `then` with the reply.
    Call { operation: Operation, then: ReaddirTask },
    /// Offer an entry with the position after it, then say whether there was no room.
    Add { offset: u64, kind: FileType, name: String, then: ReaddirTask },
    Done { result: Answer<()> },
}

pub enum ReaddirStepView {
    Call { operation: OperationView, then: ReaddirTask },
    Add { offset: u64, kind: FileType, name: Seq<char>, then: ReaddirTask },
    Done { result: Answer<()> },
}

impl View for ReaddirStep {
    type V = ReaddirStepView;

    open spec fn view(&self) -> ReaddirStepView {
        match *self {
            ReaddirStep::Call { operation, then } => ReaddirStepView::Call {
                operation: operation@,
                then,
            },
            ReaddirStep::Add { offset, kind, name, then } => ReaddirStepView::Add {
                offset,
                kind,
                name: name@,
                then,
            },
            ReaddirStep::Done { result } => ReaddirStepView::Done { result },
        }
    }
}

/// A directory handle that waits for its close to be confirmed.
#[derive(Clone, Copy, Debug)]
pub struct ReleasedirTask {
    pub ino: u64,
}

impl View for ReleasedirTask {
    type V = u64;

    open spec fn view(&self) -> u64 {
        self.ino
    }
}

/// What comes next when a directory is read.
pub enum Reading {
    /// The entry at the front is offered.
    Offer,
    /// More entries are asked for.
    Ask,
    /// There are no more.
    End,
}

impl DirectoryView {
    /// The entries received that lie before the position `offset`.
    pub open spec fn passed_over(self, offset: u64) -> int {
        if offset <= self.offset {
            0
        } else if self.pending.len() <= offset - self.offset {
            self.pending.len() as int
        } else {
            offset - self.offset
        }
    }

    /// The directory once the entries before `offset` have been passed, as far as
    /// they have been received.
    pub open spec fn advanced(self, offset: u64) -> Self {
        let count = self.passed_over(offset);
        DirectoryView {
            offset: (self.offset + count) as u64,
            pending: self.pending.skip(count),
            ..self
        }
    }

    /// What comes next, once no received entry lies before the position asked for.
    pub open spec fn reading(self) -> Reading {
        if self.pending.len() > 0 {
            Reading::Offer
        } else if self.eof {
            Reading::End
        } else {
            Reading::Ask
        }
    }

    /// The directory after more entries. None means that there are no more.
    pub open spec fn received(self, entries: Seq<EntryView>) -> Self {
        DirectoryView { pending: self.pending + entries, eof: entries.len() == 0, ..self }
    }

    /// The directory after the entry at the front has been taken.
    pub open spec fn passed(self) -> Self {
        DirectoryView {
            offset: (self.offset + 1) as u64,
            pending: self.pending.skip(1),
            ..self
        }
    }

    /// The directory opened again under the provider's handle `remote`.
    pub open spec fn reopened(self, remote: u64) -> Self {
        DirectoryView { remote, offset: 0, pending: Seq::empty(), eof: false, ..self }
    }
}

impl StateView {
    pub open spec fn with_directory(self, key: u64, directory: DirectoryView) -> Self {
        StateView { dirs: self.dirs.insert(key, directory), ..self }
    }
}

/// The number of entries that a reply gives.
pub open spec fn entry_count(reply: ReplyView) -> nat {
    match reply {
        Ok(ValueView::Entries(entries)) => entries.len(),
        _ => 0,
    }
}

impl FsView {
    pub open spec fn opendir(self, ino: u64) -> StepView<OpendirView, Answer<u64>> {
        match self.path(ino) {
            Ok(path) => StepView::Call {
                operation: OperationView::OpenDirectory { path },
                then: OpendirView { ino, path },
            },
            Err(number) => StepView::Done { result: Err(number) },
        }
    }

    pub open spec fn opendir_resumed(self, task: OpendirView, reply: ReplyView) -> (Self, Answer<
        u64,
    >) {
        match reply {
            Ok(ValueView::Handle(remote)) => if self.state.nodes.contains_key(task.ino) {
                let directory = DirectoryView {
                    ino: task.ino,
                    path: task.path,
                    remote,
                    offset: 0,
                    pending: Seq::empty(),
                    eof: false,
                };
                (
                    self.with_state(
                        self.state.opened(task.ino).with_directory(remote, directory),
                    ),
                    Ok(remote),
                )
            } else {
                (self, Err(Errno::ESTALE))
            },
            Ok(_) => (self, Err(Errno::EIO)),
            Err(e) => (self, Err(errno_of(e.kind))),
        }
    }

    /// A position before the one reached means to start over.
    pub open spec fn readdir(self, fh: u64, offset: u64) -> (Self, ReaddirStepView) {
        if !self.state.dirs.contains_key(fh) {
            (self, ReaddirStepView::Done { result: Err(Errno::EBADF) })
        } else if offset < self.state.dirs[fh].offset {
            (
                self,
                ReaddirStepView::Call {
                    operation: OperationView::CloseDirectory {
                        handle: self.state.dirs[fh].remote,
                    },
                    then: ReaddirTask { fh, offset, stage: ReaddirStage::Closing },
                },
            )
        } else {
            self.readdir_on(fh, offset, self.state.dirs[fh])
        }
    }

    /// The read goes on from `directory`, kept under `fh`.
    pub open spec fn readdir_on(self, fh: u64, offset: u64, directory: DirectoryView) -> (
        Self,
        ReaddirStepView,
    ) {
        let ahead = directory.advanced(offset);
        (
            self.with_state(self.state.with_directory(fh, ahead)),
            match ahead.reading() {
                Reading::Offer => ReaddirStepView::Add {
                    offset: (ahead.offset + 1) as u64,
                    kind: file_type(ahead.pending[0].metadata.kind),
                    name: ahead.pending[0].name,
                    then: ReaddirTask { fh, offset, stage: ReaddirStage::Adding },
                },
                Reading::Ask => ReaddirStepView::Call {
                    operation: OperationView::ReadDirectory { handle: ahead.remote },
                    then: ReaddirTask { fh, offset, stage: ReaddirStage::Reading },
                },
                Reading::End => ReaddirStepView::Done { result: Ok(()) },
            },
        )
    }

    pub open spec fn readdir_resumed(self, task: ReaddirTask, reply: ReplyView) -> (
        Self,
        ReaddirStepView,
    ) {
        let directory = self.state.dirs[task.fh];
        match reply {
            Err(e) => (self, ReaddirStepView::Done { result: Err(errno_of(e.kind)) }),
            Ok(value) => match task.stage {
                ReaddirStage::Closing => (
                    self,
                    ReaddirStepView::Call {
                        operation: OperationView::OpenDirectory { path: directory.path },
                        then: ReaddirTask { stage: ReaddirStage::Opening, ..task },
                    },
                ),
                ReaddirStage::Opening => match value {
                    ValueView::Handle(remote) => self.readdir_on(
                        task.fh,
                        task.offset,
                        directory.reopened(remote),
                    ),
                    _ => (self, ReaddirStepView::Done { result: Err(Errno::EIO) }),
                },
                _ => match value {
                    ValueView::Entries(entries) => self.readdir_on(
                        task.fh,
                        task.offset,
                        directory.received(entries),
                    ),
                    _ => (self, ReaddirStepView::Done { result: Err(Errno::EIO) }),
                },
            },
        }
    }

    /// An entry that found no room is offered again by the next read.
    pub open spec fn readdir_added(self, task: ReaddirTask, full: bool) -> (
        Self,
        ReaddirStepView,
    ) {
        if full {
            (self, ReaddirStepView::Done { result: Ok(()) })
        } else {
            self.readdir_on(task.fh, task.offset, self.state.dirs[task.fh].passed())
        }
    }

    pub open spec fn releasedir(self, fh: u64) -> (Self, StepView<u64, Answer<()>>) {
        if self.state.dirs.contains_key(fh) {
            let directory = self.state.dirs[fh];
            (
                self.with_state(StateView { dirs: self.state.dirs.remove(fh), ..self.state }),
                StepView::Call {
                    operation: OperationView::CloseDirectory { handle: directory.remote },
                    then: directory.ino,
                },
            )
        } else {
            (self, StepView::Done { result: Err(Errno::EBADF) })
        }
    }
}

/// Drops `count` entries from the front.
fn drop_front(pending: &mut VecDeque<FsDirectoryEntry>, count: usize)
    requires
        count <= old(pending)@.len(),
    ensures
        final(pending)@ == old(pending)@.skip(count as int),
{
    let mut dropped: usize = 0;
    proof {
        assert(pending@ =~= pending@.skip(0));
    }
    while dropped < count
        invariant
            dropped <= count <= old(pending)@.len(),
            pending@ == old(pending)@.skip(dropped as int),
        decreases count - dropped,
    {
        let _ = pending.pop_front();
        dropped += 1;
        assert(pending@ =~= old(pending)@.skip(dropped as int));
    }
}

/// Replacing the directory under a handle is taking it out and putting it back.
proof fn lemma_put_back(fs: FsView, fh: u64, directory: DirectoryView)
    ensures
        fs.state.dirs.remove(fh).insert(fh, directory) == fs.state.dirs.insert(fh, directory),
{
    assert(fs.state.dirs.remove(fh).insert(fh, directory) =~= fs.state.dirs.insert(fh, directory));
}

impl Fs {
    pub fn opendir(&self, ino: u64) -> (step: Step<OpendirTask, Answer<u64>>)
        ensures
            step@ == self@.opendir(ino),
    {
        match self.path(ino) {
            Ok(path) => Step::Call {
                operation: Operation::OpenDirectory { path: path.clone() },
                then: OpendirTask { ino, path },
            },
            Err(number) => Step::Done { result: Err(number) },
        }
    }

    pub fn opendir_resume(&mut self, task: OpendirTask, reply: FsResult<Value>) -> (answer: Answer<
        u64,
    >)
        requires
            old(self).wf(),
            gives_handle(reply_view(reply)) ==> old(self)@.state.can_open(task@.ino),
        ensures
            final(self).wf(),
            (final(self)@, answer) == old(self)@.opendir_resumed(task@, reply_view(reply)),
    {
        match reply {
            Ok(Value::Handle(remote)) => {
                if !self.state.count_open(task.ino) {
                    return Err(Errno::ESTALE);
                }
                let directory = Directory {
                    ino: task.ino,
                    path: task.path,
                    remote,
                    offset: 0,
                    pending: VecDeque::new(),
                    eof: false,
                };
                assert(directory@.pending =~= Seq::<EntryView>::empty());
                self.state.put_directory(remote, directory);
                Ok(remote)
            },
            Ok(_) => Err(Errno::EIO),
            Err(e) => Err(errno(e)),
        }
    }

    /// Whether the position after `count` more entries of `fh` can be counted.
    pub fn can_receive(&self, fh: u64, count: usize) -> (can: bool)
        requires
            self.wf(),
        ensures
            can == self@.state.can_receive(fh, count as nat),
    {
        self.state.can_receive(fh, count)
    }

    /// Starts a read of the directory handle `fh` from the position `offset` on.
    pub fn readdir(&mut self, fh: u64, offset: u64) -> (step: ReaddirStep)
        requires
            old(self).wf(),
        ensures
            final(self).wf(),
            (final(self)@, step@) == old(self)@.readdir(fh, offset),
    {
        match self.state.take_directory(fh) {
            None => {
                assert(self@.state.dirs =~= old(self)@.state.dirs);
                ReaddirStep::Done { result: Err(Errno::EBADF) }
            },
            Some(directory) => {
                proof {
                    assert(old(self)@.state.dirs[fh].has_room());
                }
                if offset < directory.offset {
                    let remote: u64 = directory.remote;
                    self.state.put_directory(fh, directory);
                    assert(self@.state.dirs =~= old(self)@.state.dirs);
                    return ReaddirStep::Call {
                        operation: Operation::CloseDirectory { handle: remote },
                        then: ReaddirTask { fh, offset, stage: ReaddirStage::Closing },
                    };
                }
                proof {
                    lemma_put_back(old(self)@, fh, directory@.advanced(offset));
                }
                self.readdir_on(fh, offset, directory)
            },
        }
    }

    fn readdir_on(&mut self, fh: u64, offset: u64, directory: Directory) -> (step: ReaddirStep)
        requires
            old(self).wf(),
            directory@.has_room(),
        ensures
            final(self).wf(),
            (final(self)@, step@) == old(self)@.readdir_on(fh, offset, directory@),
    {
        let ghost before = directory@;
        let mut directory = directory;
        let have: usize = directory.pending.len();
        let count: usize = if offset <= directory.offset {
            0
        } else if have as u64 <= offset - directory.offset {
            have
        } else {
            (offset - directory.offset) as usize
        };
        drop_front(&mut directory.pending, count);
        directory.offset = directory.offset + count as u64;
        let ghost ahead = before.advanced(offset);
        assert(directory@.pending =~= ahead.pending);
        assert(directory@ == ahead);
        let step = if directory.pending.len() > 0 {
            let entry = &directory.pending[0];
            assert(entry@ == ahead.pending[0]);
            ReaddirStep::Add {
                offset: directory.offset + 1,
                kind: kind(entry.metadata.kind),
                name: entry.name.clone(),
                then: ReaddirTask { fh, offset, stage: ReaddirStage::Adding },
            }
        } else if directory.eof {
            ReaddirStep::Done { result: Ok(()) }
        } else {
            ReaddirStep::Call {
                operation: Operation::ReadDirectory { handle: directory.remote },
                then: ReaddirTask { fh, offset, stage: ReaddirStage::Reading },
            }
        };
        self.state.put_directory(fh, directory);
        step
    }

    /// Goes on with the provider's reply.
    pub fn readdir_resume(&mut self, task: ReaddirTask, reply: FsResult<Value>) -> (step:
        ReaddirStep)
        requires
            old(self).wf(),
            old(self)@.state.dirs.contains_key(task.fh),
            task.stage !is Adding,
            old(self)@.state.can_receive(task.fh, entry_count(reply_view(reply))),
        ensures
            final(self).wf(),
            (final(self)@, step@) == old(self)@.readdir_resumed(task@, reply_view(reply)),
    {
        let value = match reply {
            Ok(value) => value,
            Err(e) => {
                return ReaddirStep::Done { result: Err(errno(e)) };
            },
        };
        let directory = match self.state.take_directory(task.fh) {
            Some(directory) => directory,
            None => {
                return ReaddirStep::Done { result: Err(Errno::EBADF) };
            },
        };
        let ghost before = directory@;
        match task.stage {
            ReaddirStage::Closing => {
                let path = directory.path.clone();
                self.state.put_directory(task.fh, directory);
                assert(self@.state.dirs =~= old(self)@.state.dirs);
                ReaddirStep::Call {
                    operation: Operation::OpenDirectory { path },
                    then: ReaddirTask {
                        fh: task.fh,
                        offset: task.offset,
                        stage: ReaddirStage::Opening,
                    },
                }
            },
            ReaddirStage::Opening => match value {
                Value::Handle(remote) => {
                    let again = Directory {
                        ino: directory.ino,
                        path: directory.path,
                        remote,
                        offset: 0,
                        pending: VecDeque::new(),
                        eof: false,
                    };
                    assert(again@.pending =~= Seq::<EntryView>::empty());
                    assert(again@ == before.reopened(remote));
                    proof {
                        lemma_put_back(old(self)@, task.fh, again@.advanced(task.offset));
                    }
                    self.readdir_on(task.fh, task.offset, again)
                },
                _ => {
                    self.state.put_directory(task.fh, directory);
                    assert(self@.state.dirs =~= old(self)@.state.dirs);
                    ReaddirStep::Done { result: Err(Errno::EIO) }
                },
            },
            _ => match value {
                Value::Entries(entries) => {
                    let mut directory = directory;
                    let ghost new = entries_view(entries@);
                    directory.eof = entries.len() == 0;
                    append_entries(&mut directory.pending, entries);
                    assert(directory@.pending =~= before.pending + new);
                    assert(directory@ == before.received(new));
                    proof {
                        lemma_put_back(old(self)@, task.fh, directory@.advanced(task.offset));
                    }
                    self.readdir_on(task.fh, task.offset, directory)
                },
                _ => {
                    self.state.put_directory(task.fh, directory);
                    assert(self@.state.dirs =~= old(self)@.state.dirs);
                    ReaddirStep::Done { result: Err(Errno::EIO) }
                },
            },
        }
    }

    /// Goes on after an entry was offered; `full` says that it found no room.
    pub fn readdir_added(&mut self, task: ReaddirTask, full: bool) -> (step: ReaddirStep)
        requires
            old(self).wf(),
            old(self)@.state.dirs.contains_key(task.fh),
            old(self)@.state.dirs[task.fh].pending.len() > 0,
        ensures
            final(self).wf(),
            (final(self)@, step@) == old(self)@.readdir_added(task@, full),
    {
        if full {
            return ReaddirStep::Done { result: Ok(()) };
        }
        match self.state.take_directory(task.fh) {
            Some(directory) => {
                let ghost before = directory@;
                let mut directory = directory;
                assert(before.has_room());
                let _ = directory.pending.pop_front();
                directory.offset = directory.offset + 1;
                assert(directory@.pending =~= before.pending.skip(1));
                assert(directory@ == before.passed());
                proof {
                    lemma_put_back(old(self)@, task.fh, directory@.advanced(task.offset));
                }
                self.readdir_on(task.fh, task.offset, directory)
            },
            None => ReaddirStep::Done { result: Err(Errno::EBADF) },
        }
    }

    pub fn releasedir(&mut self, fh: u64) -> (step: Step<ReleasedirTask, Answer<()>>)
        requires
            old(self).wf(),
        ensures
            final(self).wf(),
            (final(self)@, step@) == old(self)@.releasedir(fh),
    {
        match self.state.take_directory(fh) {
            Some(directory) => Step::Call {
                operation: Operation::CloseDirectory { handle: directory.remote },
                then: ReleasedirTask { ino: directory.ino },
            },
            None => {
                assert(self@.state.dirs =~= old(self)@.state.dirs);
                Step::Done { result: Err(Errno::EBADF) }
            },
        }
    }

    /// The directory is given back whatever the provider says.
    pub fn releasedir_resume(&mut self, task: ReleasedirTask, reply: FsResult<Value>) -> (answer:
        Answer<()>)
        requires
            old(self).wf(),
        ensures
            final(self).wf(),
            final(self)@ == old(self)@.with_state(old(self)@.state.closed(task@)),
            answer == acknowledged(reply_view(reply)),
    {
        self.state.count_close(task.ino);
        acknowledge(reply)
    }
}

impl DirectoryView {
    /// `listing` is what has been received since the directory was opened, and
    /// the entries not passed yet are those from its position on.
    pub open spec fn follows(self, listing: Seq<EntryView>) -> bool {
        &&& self.offset + self.pending.len() == listing.len()
        &&& self.pending == listing.skip(self.offset as int)
    }
}

/// What is offered to the kernel: a position, a kind and a name.
pub type Offered = (u64, FileType, Seq<char>);

/// Everything offered in the `steps` steps after `at`, when every entry finds
/// room and the provider answers with `parts`.
pub open spec fn followed(
    at: (FsView, ReaddirStepView),
    parts: Seq<Seq<EntryView>>,
    steps: nat,
) -> Seq<Offered>
    decreases steps,
{
    if steps == 0 {
        Seq::empty()
    } else {
        let left = (steps - 1) as nat;
        match at.1 {
            ReaddirStepView::Add { offset, kind, name, then } => seq![(offset, kind, name)]
                + followed(at.0.readdir_added(then, false), parts, left),
            ReaddirStepView::Call { operation, then } => if parts.len() == 0 {
                Seq::empty()
            } else {
                followed(
                    at.0.readdir_resumed(then, Ok(ValueView::Entries(parts[0]))),
                    parts.skip(1),
                    left,
                )
            },
            ReaddirStepView::Done { .. } => Seq::empty(),
        }
    }
}

/// The entries of a listing from a position on, each with the position after it.
pub open spec fn numbered(listing: Seq<EntryView>, offset: int) -> Seq<Offered> {
    Seq::new(
        (if offset <= listing.len() {
            listing.len() - offset
        } else {
            0
        }) as nat,
        |i: int|
            (
                (offset + i + 1) as u64,
                file_type(listing[offset + i].metadata.kind),
                listing[offset + i].name,
            ),
    )
}

/// A read of a directory from a position at or after the one reached offers
/// every entry from there on, once and in the provider's order, each with the
/// position after it, whatever the sizes of the provider's parts.
pub proof fn law_a_listing_is_complete(
    fs: FsView,
    fh: u64,
    offset: u64,
    received: Seq<EntryView>,
    parts: Seq<Seq<EntryView>>,
    steps: nat,
)
    requires
        fs.state.dirs.contains_key(fh),
        fs.state.dirs[fh].follows(received),
        !fs.state.dirs[fh].eof,
        fs.state.dirs[fh].offset <= offset,
        ends_with_nothing(parts),
        received.len() + parts.flatten().len() < u64::MAX,
        steps >= received.len() + parts.flatten().len() + parts.len(),
    ensures
        followed(fs.readdir(fh, offset), parts, steps) == numbered(
            received + parts.flatten(),
            offset as int,
        ),
{
    lemma_followed(fs, fh, offset, fs.state.dirs[fh], received, parts, steps);
}

proof fn lemma_followed(
    fs: FsView,
    fh: u64,
    offset: u64,
    directory: DirectoryView,
    received: Seq<EntryView>,
    parts: Seq<Seq<EntryView>>,
    steps: nat,
)
    requires
        directory.follows(received),
        received.len() + parts.flatten().len() < u64::MAX,
        directory.eof ==> parts.len() == 0,
        !directory.eof ==> ends_with_nothing(parts),
        steps >= directory.pending.len() + parts.flatten().len() + parts.len(),
    ensures
        followed(fs.readdir_on(fh, offset, directory), parts, steps) == numbered(
            received + parts.flatten(),
            if directory.offset <= offset {
                offset as int
            } else {
                directory.offset as int
            },
        ),
    decreases parts.len(), directory.pending.len(),
{
    let start = if directory.offset <= offset {
        offset as int
    } else {
        directory.offset as int
    };
    let ahead = directory.advanced(offset);
    assert(ahead.follows(received)) by {
        assert(ahead.pending =~= received.skip(ahead.offset as int));
    }
    let listing = received + parts.flatten();
    let at = fs.readdir_on(fh, offset, directory);
    assert(at.0.state.dirs[fh] == ahead);
    match ahead.reading() {
        Reading::Offer => {
            assert(ahead.offset == start);
            let rest = ahead.passed();
            assert(rest.pending =~= received.skip(rest.offset as int));
            lemma_followed(at.0, fh, offset, rest, received, parts, (steps - 1) as nat);
            assert(ahead.pending[0] == listing[start]);
            assert(followed(at, parts, steps) =~= numbered(listing, start));
        },
        Reading::Ask => {
            let entries = parts[0];
            let more = ahead.received(entries);
            let left = parts.skip(1);
            assert(parts.drop_first() =~= left);
            assert(received + parts.flatten() =~= (received + entries) + left.flatten());
            assert(more.pending =~= (received + entries).skip(more.offset as int));
            if entries.len() == 0 {
                assert(parts.len() == 1);
            } else {
                assert(parts.len() > 1);
                assert(left.last() == parts.last());
                assert forall|k: int| 0 <= k < left.len() - 1 implies (#[trigger] left[k]).len()
                    > 0 by {
                    assert(left[k] == parts[k + 1]);
                }
            }
            lemma_followed(
                at.0,
                fh,
                offset,
                more,
                received + entries,
                left,
                (steps - 1) as nat,
            );
        },
        Reading::End => {
            assert(parts.flatten() =~= Seq::<EntryView>::empty());
            assert(followed(at, parts, steps) =~= numbered(listing, start));
        },
    }
}

/// Where a series of reads of a directory has got.
pub struct Told {
    /// The filesystem now.
    pub fs: FsView,
    /// The provider's replies still to come.
    pub left: Seq<Seq<EntryView>>,
    /// What the kernel took.
    pub taken: Seq<Offered>,
}

/// What `steps` steps after `at` come to when the kernel has room for `room` more
/// entries and the provider answers with `left`.
pub open spec fn filled(
    at: (FsView, ReaddirStepView),
    left: Seq<Seq<EntryView>>,
    room: nat,
    steps: nat,
) -> Told
    decreases steps,
{
    let stopped = Told { fs: at.0, left, taken: Seq::empty() };
    if steps == 0 {
        stopped
    } else {
        let fewer = (steps - 1) as nat;
        match at.1 {
            ReaddirStepView::Add { offset, kind, name, then } => if room == 0 {
                filled(at.0.readdir_added(then, true), left, 0, fewer)
            } else {
                let rest = filled(
                    at.0.readdir_added(then, false),
                    left,
                    (room - 1) as nat,
                    fewer,
                );
                Told { taken: seq![(offset, kind, name)] + rest.taken, ..rest }
            },
            ReaddirStepView::Call { operation, then } => if left.len() == 0 {
                stopped
            } else {
                filled(
                    at.0.readdir_resumed(then, Ok(ValueView::Entries(left[0]))),
                    left.skip(1),
                    room,
                    fewer,
                )
            },
            ReaddirStepView::Done { .. } => stopped,
        }
    }
}

/// What reads with room for `rooms` entries come to, one after the other. Each
/// goes on at the position that came with the entry taken last.
pub open spec fn told(
    fs: FsView,
    fh: u64,
    all: Seq<Seq<EntryView>>,
    rooms: Seq<nat>,
    steps: nat,
) -> Told
    decreases rooms.len(),
{
    if rooms.len() == 0 {
        Told { fs, left: all, taken: Seq::empty() }
    } else {
        let before = told(fs, fh, all, rooms.drop_last(), steps);
        let offset = if before.taken.len() == 0 {
            0
        } else {
            before.taken.last().0
        };
        let now = filled(before.fs.readdir(fh, offset), before.left, rooms.last(), steps);
        Told { taken: before.taken + now.taken, ..now }
    }
}

/// Entries as they are offered when `start` entries have been passed before them.
pub open spec fn offers(entries: Seq<EntryView>, start: int) -> Seq<Offered> {
    Seq::new(
        entries.len(),
        |i: int|
            (
                (start + i + 1) as u64,
                file_type(entries[i].metadata.kind),
                entries[i].name,
            ),
    )
}

/// The provider's replies still to come fit what is known of the directory.
spec fn fits(directory: DirectoryView, left: Seq<Seq<EntryView>>) -> bool {
    &&& directory.eof ==> left.len() == 0
    &&& !directory.eof ==> ends_with_nothing(left)
    &&& directory.offset + directory.pending.len() + left.flatten().len() < u64::MAX
}

/// One read that goes on offers what there is room for and leaves the rest.
proof fn lemma_filled(
    fs: FsView,
    fh: u64,
    offset: u64,
    directory: DirectoryView,
    left: Seq<Seq<EntryView>>,
    room: nat,
    steps: nat,
)
    requires
        fits(directory, left),
        offset <= directory.offset,
        steps >= directory.pending.len() + left.flatten().len() + left.len() + 2,
    ensures
        ({
            let rest = directory.pending + left.flatten();
            let count = at_most(room, rest.len());
            let after = filled(fs.readdir_on(fh, offset, directory), left, room, steps);
            let reached = after.fs.state.dirs[fh];
            &&& after.fs.state.dirs.contains_key(fh)
            &&& fits(reached, after.left)
            &&& reached.offset == directory.offset + count
            &&& reached.pending + after.left.flatten() == rest.skip(count)
            &&& after.left.len() <= left.len()
            &&& after.taken == offers(rest.take(count), directory.offset as int)
        }),
    decreases left.len(), directory.pending.len(),
{
    let rest = directory.pending + left.flatten();
    let count = at_most(room, rest.len());
    let start = directory.offset as int;
    let at = fs.readdir_on(fh, offset, directory);
    let after = filled(at, left, room, steps);
    assert(directory.pending.skip(0) =~= directory.pending);
    assert(directory.advanced(offset) == directory);
    assert(at.0.state.dirs[fh] == directory);
    if directory.pending.len() > 0 {
        assert(rest[0] == directory.pending[0]);
        if room == 0 {
            reveal_with_fuel(filled, 2);
            assert(rest.skip(0) =~= rest);
            assert(offers(rest.take(0), start) =~= Seq::<Offered>::empty());
        } else {
            let next = directory.passed();
            lemma_filled(at.0, fh, offset, next, left, (room - 1) as nat, (steps - 1) as nat);
            let later = next.pending + left.flatten();
            assert(later =~= rest.skip(1));
            assert(later.skip(count - 1) =~= rest.skip(count));
            assert(offers(rest.take(count), start) =~= seq![
                (
                    (start + 1) as u64,
                    file_type(rest[0].metadata.kind),
                    rest[0].name,
                ),
            ] + offers(later.take(count - 1), start + 1));
        }
    } else if directory.eof {
        assert(left.flatten() =~= Seq::<EntryView>::empty());
        assert(rest =~= Seq::<EntryView>::empty());
        assert(offers(rest.take(0), start) =~= Seq::<Offered>::empty());
        assert(directory.pending + left.flatten() =~= rest.skip(0));
    } else {
        let entries = left[0];
        let more = directory.received(entries);
        let fewer = left.skip(1);
        assert(left.drop_first() =~= fewer);
        assert(more.pending + fewer.flatten() =~= rest);
        if entries.len() == 0 {
            assert(left.len() == 1);
        } else {
            assert(left.len() > 1);
            assert(fewer.last() == left.last());
            assert forall|k: int| 0 <= k < fewer.len() - 1 implies (#[trigger] fewer[k]).len()
                > 0 by {
                assert(fewer[k] == left[k + 1]);
            }
        }
        lemma_filled(at.0, fh, offset, more, fewer, room, (steps - 1) as nat);
    }
}

/// Over several reads of a directory just opened, however much room each has, the
/// kernel takes the directory's entries in the provider's order, none lost and
/// none repeated, each with the position after it: as many as there was room for,
/// and all of them once there was room for all.
pub proof fn law_a_listing_in_parts_is_complete(
    fs: FsView,
    fh: u64,
    all: Seq<Seq<EntryView>>,
    rooms: Seq<nat>,
    steps: nat,
)
    requires
        fs.state.dirs.contains_key(fh),
        fs.state.dirs[fh].offset == 0,
        fs.state.dirs[fh].pending.len() == 0,
        !fs.state.dirs[fh].eof,
        ends_with_nothing(all),
        all.flatten().len() < u64::MAX,
        steps >= all.flatten().len() + all.len() + 2,
    ensures
        ({
            let entries = all.flatten();
            told(fs, fh, all, rooms, steps).taken == offers(
                entries.take(at_most(together(rooms), entries.len())),
                0,
            )
        }),
{
    lemma_told(fs, fh, all, rooms, steps);
}

proof fn lemma_told(
    fs: FsView,
    fh: u64,
    all: Seq<Seq<EntryView>>,
    rooms: Seq<nat>,
    steps: nat,
)
    requires
        fs.state.dirs.contains_key(fh),
        fs.state.dirs[fh].offset == 0,
        fs.state.dirs[fh].pending.len() == 0,
        !fs.state.dirs[fh].eof,
        ends_with_nothing(all),
        all.flatten().len() < u64::MAX,
        steps >= all.flatten().len() + all.len() + 2,
    ensures
        ({
            let entries = all.flatten();
            let count = at_most(together(rooms), entries.len());
            let after = told(fs, fh, all, rooms, steps);
            let reached = after.fs.state.dirs[fh];
            &&& after.fs.state.dirs.contains_key(fh)
            &&& fits(reached, after.left)
            &&& reached.offset == count
            &&& reached.pending + after.left.flatten() == entries.skip(count)
            &&& after.left.len() <= all.len()
            &&& after.taken == offers(entries.take(count), 0)
        }),
    decreases rooms.len(),
{
    let entries = all.flatten();
    if rooms.len() == 0 {
        assert(offers(entries.take(0), 0) =~= Seq::<Offered>::empty());
        assert(fs.state.dirs[fh].pending + all.flatten() =~= entries.skip(0));
    } else {
        let earlier = rooms.drop_last();
        lemma_told(fs, fh, all, earlier, steps);
        let before = told(fs, fh, all, earlier, steps);
        let directory = before.fs.state.dirs[fh];
        let done = at_most(together(earlier), entries.len());
        let count = at_most(together(rooms), entries.len());
        let rest = entries.skip(done);
        assert(rest.len() == directory.pending.len() + before.left.flatten().len());
        if done > 0 {
            assert(before.taken.last().0 == done);
        }
        lemma_filled(
            before.fs,
            fh,
            directory.offset,
            directory,
            before.left,
            rooms.last(),
            steps,
        );
        let more = at_most(rooms.last(), rest.len());
        assert(done + more == count);
        assert(rest.skip(more) =~= entries.skip(count));
        assert(offers(entries.take(count), 0) =~= offers(entries.take(done), 0) + offers(
            rest.take(more),
            done,
        ));
    }
}

/// A position before the one reached starts over: the directory is closed, opened
/// again where it is now, and read from its start.
pub proof fn law_going_back_starts_over(fs: FsView, fh: u64, offset: u64, remote: u64)
    requires
        fs.state.dirs.contains_key(fh),
        offset < fs.state.dirs[fh].offset,
    ensures
        ({
            let directory = fs.state.dirs[fh];
            let (closing, first) = fs.readdir(fh, offset);
            let (opening, second) = closing.readdir_resumed(
                first->Call_then,
                Ok(ValueView::Unit),
            );
            let (reading, third) = opening.readdir_resumed(
                second->Call_then,
                Ok(ValueView::Handle(remote)),
            );
            &&& first->operation == (OperationView::CloseDirectory { handle: directory.remote })
            &&& second->operation == (OperationView::OpenDirectory { path: directory.path })
            &&& third->operation == (OperationView::ReadDirectory { handle: remote })
            &&& reading.state.dirs[fh] == directory.reopened(remote)
            &&& reading.state.dirs[fh].follows(Seq::empty())
        }),
{
    let directory = fs.state.dirs[fh].reopened(remote);
    assert(directory.advanced(offset).pending =~= Seq::<EntryView>::empty());
    assert(Seq::<EntryView>::empty().skip(0) =~= Seq::<EntryView>::empty());
}

/// Opening a directory asks the provider for the one that the number stands for.
/// The handle that the provider gives is the one answered; it is read from its
/// start, and counted on that number.
pub proof fn law_an_open_directory_is_the_one_asked_for(
    fs: FsView,
    ino: u64,
    path: PathView,
    remote: u64,
    reply: ReplyView,
)
    requires
        fs.state.nodes.contains_key(ino),
        fs.state.nodes[ino].path == Some(path),
        fs.state.can_open(ino),
    ensures
        fs.opendir(ino) matches StepView::Call { operation, then } && operation
            == (OperationView::OpenDirectory { path }) && then.ino == ino && then.path == path,
        ({
            let (after, answer) = fs.opendir_resumed(
                OpendirView { ino, path },
                Ok(ValueView::Handle(remote)),
            );
            let directory = after.state.dirs[remote];
            &&& answer == Ok::<u64, Errno>(remote)
            &&& after.state.dirs.contains_key(remote)
            &&& directory.remote == remote && directory.path == path && directory.ino == ino
            &&& directory.offset == 0 && directory.pending.len() == 0 && !directory.eof
            &&& after.state.nodes[ino].opens == fs.state.nodes[ino].opens + 1
            &&& after.state.paths == fs.state.paths && after.state.files == fs.state.files
        }),
        !gives_handle(reply) ==> fs.opendir_resumed(OpendirView { ino, path }, reply).0 == fs
            && fs.opendir_resumed(OpendirView { ino, path }, reply).1 is Err,
{
}

/// Releasing a directory closes it at the provider, under the provider's own handle,
/// and gives it back; the others stay. A handle that is not open is refused.
pub proof fn law_a_released_directory_is_closed(fs: FsView, fh: u64, other: u64)
    requires
        other != fh,
    ensures
        !fs.state.dirs.contains_key(fh) ==> fs.releasedir(fh) == (
            fs,
            StepView::<u64, Answer<()>>::Done { result: Err(Errno::EBADF) },
        ),
        fs.state.dirs.contains_key(fh) ==> {
            let (after, step) = fs.releasedir(fh);
            &&& step == (StepView::<u64, Answer<()>>::Call {
                operation: OperationView::CloseDirectory { handle: fs.state.dirs[fh].remote },
                then: fs.state.dirs[fh].ino,
            })
            &&& !after.state.dirs.contains_key(fh)
            &&& after.state.dirs.contains_key(other) == fs.state.dirs.contains_key(other)
            &&& after.state.nodes == fs.state.nodes && after.state.files == fs.state.files
        },
{
}

/// A read of a directory that is not open is refused, and one that the provider
/// refuses, or answers with something else, ends with an error and takes nothing.
pub proof fn law_a_failed_read_of_a_directory_says_so(
    fs: FsView,
    fh: u64,
    offset: u64,
    task: ReaddirTask,
    error: crate::error::FsErrorView,
)
    ensures
        !fs.state.dirs.contains_key(fh) ==> fs.readdir(fh, offset) == (
            fs,
            ReaddirStepView::Done { result: Err(Errno::EBADF) },
        ),
        fs.readdir_resumed(task, Err(error)) == (
            fs,
            ReaddirStepView::Done { result: Err(errno_of(error.kind)) },
        ),
        task.stage is Reading ==> fs.readdir_resumed(task, Ok(ValueView::Unit)) == (
            fs,
            ReaddirStepView::Done { result: Err(Errno::EIO) },
        ),
        task.stage is Opening ==> fs.readdir_resumed(task, Ok(ValueView::Unit)) == (
            fs,
            ReaddirStepView::Done { result: Err(Errno::EIO) },
        ),
{
}

} // verus!
