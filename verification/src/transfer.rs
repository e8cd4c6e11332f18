//! Reads and writes of any length as a series of bounded requests.
use vstd::prelude::*;
use crate::error::{FsError, FsErrorView, FsResult};
use crate::metadata::MOUNT_IO_CHUNK;
use crate::wire::{reply_view, Operation, OperationView, ReplyView, Value, ValueView};

verus! {

/// Why a transfer stopped.
#[derive(Debug)]
pub enum TransferError {
    /// The range goes past the largest file offset.
    Overflow,
    /// The provider answered with something else, or with more than was asked for.
    Malformed,
    /// The provider refused.
    Provider(FsError),
}

pub enum TransferErrorView {
    Overflow,
    Malformed,
    Provider(FsErrorView),
}

impl View for TransferError {
    type V = TransferErrorView;

    open spec fn view(&self) -> TransferErrorView {
        match *self {
            TransferError::Overflow => TransferErrorView::Overflow,
            TransferError::Malformed => TransferErrorView::Malformed,
            TransferError::Provider(e) => TransferErrorView::Provider(e@),
        }
    }
}

/// The length of the next request when `left` bytes are missing.
pub open spec fn chunk(left: int) -> int {
    if left <= MOUNT_IO_CHUNK {
        left
    } else {
        MOUNT_IO_CHUNK as int
    }
}

fn next_length(left: usize) -> (length: usize)
    ensures
        length == chunk(left as int),
{
    if left <= MOUNT_IO_CHUNK {
        left
    } else {
        MOUNT_IO_CHUNK
    }
}

/// A read under way: the bytes received so far of `size` at `offset`.
pub struct ReadTask {
    pub handle: u64,
    pub offset: u64,
    pub size: usize,
    pub bytes: Vec<u8>,
}

#[verifier::ext_equal]
pub struct ReadView {
    pub handle: u64,
    pub offset: u64,
    pub size: int,
    pub bytes: Seq<u8>,
}

impl View for ReadTask {
    type V = ReadView;

    open spec fn view(&self) -> ReadView {
        ReadView {
            handle: self.handle,
            offset: self.offset,
            size: self.size as int,
            bytes: self.bytes@,
        }
    }
}

pub enum ReadStep {
    Call { operation: Operation, then: ReadTask },
    Done { result: Result<Vec<u8>, TransferError> },
}

pub enum ReadStepView {
    Call { operation: OperationView, then: ReadView },
    Done { result: Result<Seq<u8>, TransferErrorView> },
}

impl View for ReadStep {
    type V = ReadStepView;

    open spec fn view(&self) -> ReadStepView {
        match *self {
            ReadStep::Call { operation, then } => ReadStepView::Call {
                operation: operation@,
                then: then@,
            },
            ReadStep::Done { result } => ReadStepView::Done {
                result: match result {
                    Ok(bytes) => Ok(bytes@),
                    Err(e) => Err(e@),
                },
            },
        }
    }
}

impl ReadView {
    /// The length of the next request.
    pub open spec fn length(self) -> int {
        chunk(self.size - self.bytes.len())
    }

    /// What to do with the bytes received so far: stop when none is missing,
    /// otherwise ask for the next ones.
    pub open spec fn step(self) -> ReadStepView {
        if self.bytes.len() >= self.size {
            ReadStepView::Done { result: Ok(self.bytes) }
        } else if self.offset + self.bytes.len() > u64::MAX {
            ReadStepView::Done { result: Err(TransferErrorView::Overflow) }
        } else {
            ReadStepView::Call {
                operation: OperationView::Read {
                    handle: self.handle,
                    offset: (self.offset + self.bytes.len()) as u64,
                    length: self.length() as u32,
                },
                then: self,
            }
        }
    }

    /// What a reply to the pending request leads to. No bytes mean the end of the file.
    pub open spec fn resumed(self, reply: ReplyView) -> ReadStepView {
        match reply {
            Ok(ValueView::Data(part)) => if part.len() > self.length() {
                ReadStepView::Done { result: Err(TransferErrorView::Malformed) }
            } else if part.len() == 0 {
                ReadStepView::Done { result: Ok(self.bytes) }
            } else {
                ReadView { bytes: self.bytes + part, ..self }.step()
            },
            Ok(_) => ReadStepView::Done { result: Err(TransferErrorView::Malformed) },
            Err(e) => ReadStepView::Done { result: Err(TransferErrorView::Provider(e)) },
        }
    }
}

/// Starts a read of `size` bytes at `offset`.
pub fn read(handle: u64, offset: u64, size: usize) -> (step: ReadStep)
    ensures
        step@ == (ReadView { handle, offset, size: size as int, bytes: Seq::empty() }).step(),
{
    let task = ReadTask { handle, offset, size, bytes: Vec::new() };
    assert(task@ =~= ReadView { handle, offset, size: size as int, bytes: Seq::empty() });
    task.step()
}

impl ReadTask {
    fn step(self) -> (step: ReadStep)
        ensures
            step@ == self@.step(),
    {
        let have: usize = self.bytes.len();
        if have >= self.size {
            return ReadStep::Done { result: Ok(self.bytes) };
        }
        let length: usize = next_length(self.size - have);
        match self.offset.checked_add(have as u64) {
            None => ReadStep::Done { result: Err(TransferError::Overflow) },
            Some(at) => ReadStep::Call {
                operation: Operation::Read {
                    handle: self.handle,
                    offset: at,
                    length: length as u32,
                },
                then: self,
            },
        }
    }

    /// Goes on with the reply to the pending request.
    pub fn resume(self, reply: FsResult<Value>) -> (step: ReadStep)
        requires
            self@.bytes.len() < self@.size,
        ensures
            step@ == self@.resumed(reply_view(reply)),
    {
        let length: usize = next_length(self.size - self.bytes.len());
        match reply {
            Ok(Value::Data(part)) => {
                if part.len() > length {
                    return ReadStep::Done { result: Err(TransferError::Malformed) };
                }
                if part.len() == 0 {
                    return ReadStep::Done { result: Ok(self.bytes) };
                }
                let mut bytes = self.bytes;
                let mut part = part;
                bytes.append(&mut part);
                let task = ReadTask {
                    handle: self.handle,
                    offset: self.offset,
                    size: self.size,
                    bytes,
                };
                task.step()
            },
            Ok(_) => ReadStep::Done { result: Err(TransferError::Malformed) },
            Err(e) => ReadStep::Done { result: Err(TransferError::Provider(e)) },
        }
    }
}

/// A write under way: the first `done` of `bytes` have been acknowledged.
pub struct WriteTask {
    pub handle: u64,
    pub offset: u64,
    pub bytes: Vec<u8>,
    pub done: usize,
}

#[verifier::ext_equal]
pub struct WriteView {
    pub handle: u64,
    pub offset: u64,
    pub bytes: Seq<u8>,
    pub done: int,
}

impl View for WriteTask {
    type V = WriteView;

    open spec fn view(&self) -> WriteView {
        WriteView {
            handle: self.handle,
            offset: self.offset,
            bytes: self.bytes@,
            done: self.done as int,
        }
    }
}

pub enum WriteStep {
    Call { operation: Operation, then: WriteTask },
    Done { result: Result<usize, TransferError> },
}

pub enum WriteStepView {
    Call { operation: OperationView, then: WriteView },
    Done { result: Result<int, TransferErrorView> },
}

impl View for WriteStep {
    type V = WriteStepView;

    open spec fn view(&self) -> WriteStepView {
        match *self {
            WriteStep::Call { operation, then } => WriteStepView::Call {
                operation: operation@,
                then: then@,
            },
            WriteStep::Done { result } => WriteStepView::Done {
                result: match result {
                    Ok(count) => Ok(count as int),
                    Err(e) => Err(e@),
                },
            },
        }
    }
}

impl WriteView {
    /// The length of the next request.
    pub open spec fn length(self) -> int {
        chunk(self.bytes.len() - self.done)
    }

    /// What to do once `done` bytes have been acknowledged.
    pub open spec fn step(self) -> WriteStepView {
        if self.done >= self.bytes.len() {
            WriteStepView::Done { result: Ok(self.bytes.len() as int) }
        } else if self.offset + self.done > u64::MAX {
            WriteStepView::Done { result: Err(TransferErrorView::Overflow) }
        } else {
            WriteStepView::Call {
                operation: OperationView::Write {
                    handle: self.handle,
                    offset: (self.offset + self.done) as u64,
                    bytes: self.bytes.subrange(self.done, self.done + self.length()),
                },
                then: self,
            }
        }
    }

    /// What a reply to the pending request leads to. A refused part is not sent again.
    pub open spec fn resumed(self, reply: ReplyView) -> WriteStepView {
        match reply {
            Ok(_) => WriteView { done: self.done + self.length(), ..self }.step(),
            Err(e) => WriteStepView::Done { result: Err(TransferErrorView::Provider(e)) },
        }
    }
}

/// Starts a write of `bytes` at `offset`.
pub fn write(handle: u64, offset: u64, bytes: Vec<u8>) -> (step: WriteStep)
    ensures
        step@ == (WriteView { handle, offset, bytes: bytes@, done: 0 }).step(),
{
    WriteTask { handle, offset, bytes, done: 0 }.step()
}

impl WriteTask {
    fn step(self) -> (step: WriteStep)
        requires
            self@.done <= self@.bytes.len(),
        ensures
            step@ == self@.step(),
    {
        let total: usize = self.bytes.len();
        if self.done >= total {
            return WriteStep::Done { result: Ok(total) };
        }
        let length: usize = next_length(total - self.done);
        match self.offset.checked_add(self.done as u64) {
            None => WriteStep::Done { result: Err(TransferError::Overflow) },
            Some(at) => {
                let part = copy_range(&self.bytes, self.done, self.done + length);
                WriteStep::Call {
                    operation: Operation::Write { handle: self.handle, offset: at, bytes: part },
                    then: self,
                }
            },
        }
    }

    /// Goes on with the reply to the pending request.
    pub fn resume(self, reply: FsResult<Value>) -> (step: WriteStep)
        requires
            self@.done < self@.bytes.len(),
        ensures
            step@ == self@.resumed(reply_view(reply)),
    {
        match reply {
            Ok(_) => {
                let length: usize = next_length(self.bytes.len() - self.done);
                let task = WriteTask {
                    handle: self.handle,
                    offset: self.offset,
                    bytes: self.bytes,
                    done: self.done + length,
                };
                task.step()
            },
            Err(e) => WriteStep::Done { result: Err(TransferError::Provider(e)) },
        }
    }
}

/// A file's contents after `bytes` have been written at `offset`. A gap before
/// them reads as zeros; writing nothing changes nothing.
pub open spec fn overlay(content: Seq<u8>, offset: int, bytes: Seq<u8>) -> Seq<u8> {
    if bytes.len() == 0 {
        content
    } else {
        Seq::new(
            (if content.len() >= offset + bytes.len() {
                content.len() as int
            } else {
                offset + bytes.len()
            }) as nat,
            |i: int|
                if offset <= i < offset + bytes.len() {
                    bytes[i - offset]
                } else if i < content.len() {
                    content[i]
                } else {
                    0u8
                },
        )
    }
}

impl WriteView {
    /// The task after `parts` acknowledged requests.
    pub open spec fn acknowledged(self, parts: nat) -> Self
        decreases parts,
    {
        if parts == 0 {
            self
        } else {
            let before = self.acknowledged((parts - 1) as nat);
            if before.done < before.bytes.len() {
                WriteView { done: before.done + before.length(), ..before }
            } else {
                before
            }
        }
    }

    /// The file's contents after `parts` acknowledged requests, each applied as asked.
    pub open spec fn content_after(self, content: Seq<u8>, parts: nat) -> Seq<u8>
        decreases parts,
    {
        if parts == 0 {
            content
        } else {
            let before = self.acknowledged((parts - 1) as nat);
            let earlier = self.content_after(content, (parts - 1) as nat);
            match before.step() {
                WriteStepView::Call {
                    operation: OperationView::Write { handle, offset, bytes },
                    then,
                } => overlay(earlier, offset as int, bytes),
                _ => earlier,
            }
        }
    }
}

/// However far a write gets, what the acknowledged requests have put into the
/// file is exactly the first bytes given, at the place given; and each request
/// is neither empty nor longer than the bound.
pub proof fn law_writes_are_contiguous(task: WriteView, content: Seq<u8>, parts: nat)
    requires
        task.done == 0,
        task.offset + task.bytes.len() <= u64::MAX,
    ensures
        ({
            let after = task.acknowledged(parts);
            &&& 0 <= after.done <= task.bytes.len()
            &&& after == (WriteView { done: after.done, ..task })
            &&& task.content_after(content, parts) == overlay(
                content,
                task.offset as int,
                task.bytes.take(after.done),
            )
            &&& after.done < task.bytes.len() ==> 0 < after.length() <= MOUNT_IO_CHUNK
            &&& after.done < task.bytes.len() ==> after.done == parts * MOUNT_IO_CHUNK
        }),
    decreases parts,
{
    if parts == 0 {
        assert(task.bytes.take(0).len() == 0);
    } else {
        let n = (parts - 1) as nat;
        law_writes_are_contiguous(task, content, n);
        let before = task.acknowledged(n);
        let earlier = task.content_after(content, n);
        if before.done < task.bytes.len() {
            let first = task.bytes.take(before.done);
            let part = task.bytes.subrange(before.done, before.done + before.length());
            assert(first + part =~= task.bytes.take(before.done + before.length()));
            lemma_overlay_twice(content, task.offset as int, first, part);
            assert(task.content_after(content, parts) == overlay(
                earlier,
                task.offset + before.done,
                part,
            ));
            assert(parts * MOUNT_IO_CHUNK == n * MOUNT_IO_CHUNK + MOUNT_IO_CHUNK)
                by (nonlinear_arith)
                requires
                    n == parts - 1,
            ;
        }
    }
}

/// A write whose requests are all acknowledged ends after one request for each
/// started chunk, says that every byte was written, and leaves the file with the
/// bytes given in place.
pub proof fn law_a_complete_write_stores_everything(
    task: WriteView,
    content: Seq<u8>,
    parts: nat,
)
    requires
        task.done == 0,
        task.offset + task.bytes.len() <= u64::MAX,
        parts * MOUNT_IO_CHUNK >= task.bytes.len(),
    ensures
        task.acknowledged(parts).step() == (WriteStepView::Done {
            result: Ok(task.bytes.len() as int),
        }),
        task.content_after(content, parts) == overlay(content, task.offset as int, task.bytes),
{
    law_writes_are_contiguous(task, content, parts);
    assert(task.bytes.take(task.bytes.len() as int) =~= task.bytes);
}

proof fn lemma_overlay_twice(content: Seq<u8>, offset: int, first: Seq<u8>, second: Seq<u8>)
    requires
        0 <= offset,
    ensures
        overlay(overlay(content, offset, first), offset + first.len(), second) == overlay(
            content,
            offset,
            first + second,
        ),
{
    if second.len() == 0 {
        assert(first + second =~= first);
    } else if first.len() == 0 {
        assert(first + second =~= second);
    } else {
        assert(overlay(overlay(content, offset, first), offset + first.len(), second) =~= overlay(
            content,
            offset,
            first + second,
        ));
    }
}

/// `reply` gives bytes that stand in `content` at `offset`: at most `length` of
/// them, and none only at its end.
pub open spec fn serves(content: Seq<u8>, offset: int, length: int, reply: ReplyView) -> bool {
    reply matches Ok(ValueView::Data(part)) && {
        &&& part.len() <= length
        &&& part.len() == 0 ==> offset >= content.len()
        &&& part.len() > 0 ==> offset + part.len() <= content.len() && part == content.subrange(
            offset,
            offset + part.len(),
        )
    }
}

/// The bytes that a read of `size` at `offset` is to give: up to the end of the file.
pub open spec fn clipped(content: Seq<u8>, offset: int, size: int) -> Seq<u8> {
    if offset >= content.len() {
        Seq::empty()
    } else if offset + size <= content.len() {
        content.subrange(offset, offset + size)
    } else {
        content.subrange(offset, content.len() as int)
    }
}

impl ReadView {
    /// The bytes received so far are those that the file holds.
    pub open spec fn follows(self, content: Seq<u8>) -> bool {
        &&& self.bytes.len() <= self.size
        &&& self.bytes == clipped(content, self.offset as int, self.bytes.len() as int)
        &&& self.bytes.len() > 0 ==> self.offset + self.bytes.len() <= content.len()
    }

    /// Where a series of replies leads.
    pub open spec fn run(self, replies: Seq<ReplyView>) -> ReadStepView
        decreases replies.len(),
    {
        if replies.len() == 0 {
            self.step()
        } else {
            match self.run(replies.drop_last()) {
                ReadStepView::Call { operation, then } => then.resumed(replies.last()),
                done => done,
            }
        }
    }

    /// Every reply serves the request it answers out of `content`.
    pub open spec fn served_by(self, replies: Seq<ReplyView>, content: Seq<u8>) -> bool {
        forall|k: int|
            0 <= k < replies.len() ==> match self.run(#[trigger] replies.take(k)) {
                ReadStepView::Call {
                    operation: OperationView::Read { handle, offset, length },
                    then,
                } => serves(content, offset as int, length as int, replies[k]),
                _ => true,
            }
    }
}

/// A read of a file that stays as it is gives exactly the bytes asked for, up to
/// the end of the file, whatever the sizes of the provider's parts.
pub proof fn law_a_read_gives_the_contents(
    task: ReadView,
    content: Seq<u8>,
    replies: Seq<ReplyView>,
)
    requires
        task.size >= 0,
        task.bytes.len() == 0,
        task.offset + task.size <= u64::MAX,
        task.served_by(replies, content),
    ensures
        match task.run(replies) {
            ReadStepView::Call { operation, then } => {
                &&& then == (ReadView { bytes: then.bytes, ..task })
                &&& then.follows(content)
                &&& then.bytes.len() >= replies.len()
                &&& operation == (OperationView::Read {
                    handle: task.handle,
                    offset: (task.offset + then.bytes.len()) as u64,
                    length: then.length() as u32,
                })
                &&& 0 < then.length() <= MOUNT_IO_CHUNK
            },
            ReadStepView::Done { result } => result == Ok::<Seq<u8>, TransferErrorView>(
                clipped(content, task.offset as int, task.size),
            ),
        },
    decreases replies.len(),
{
    if replies.len() == 0 {
        assert(task.bytes =~= clipped(content, task.offset as int, 0));
        assert(task.size == 0 ==> clipped(content, task.offset as int, task.size) =~= task.bytes);
    } else {
        let earlier = replies.drop_last();
        assert forall|k: int| 0 <= k < earlier.len() implies match task.run(
            #[trigger] earlier.take(k),
        ) {
            ReadStepView::Call {
                operation: OperationView::Read { handle, offset, length },
                then,
            } => serves(content, offset as int, length as int, earlier[k]),
            _ => true,
        } by {
            assert(earlier.take(k) =~= replies.take(k));
        }
        law_a_read_gives_the_contents(task, content, earlier);
        assert(replies.take(replies.len() - 1) =~= earlier);
        match task.run(earlier) {
            ReadStepView::Call { operation, then } => {
                let reply = replies.last();
                assert(serves(content, task.offset + then.bytes.len(), then.length(), reply));
                let part = reply->Ok_0->Data_0;
                if part.len() == 0 {
                    assert(then.bytes =~= clipped(content, task.offset as int, task.size));
                } else {
                    let all = then.bytes + part;
                    assert(all =~= clipped(content, task.offset as int, all.len() as int));
                    assert(all.len() >= replies.len());
                }
            },
            _ => {},
        }
    }
}

/// A read of what a write has stored gives back the bytes written.
pub proof fn law_reading_back_gives_what_was_written(
    content: Seq<u8>,
    offset: int,
    bytes: Seq<u8>,
)
    requires
        0 <= offset,
    ensures
        bytes.len() > 0 ==> clipped(
            overlay(content, offset, bytes),
            offset,
            bytes.len() as int,
        ) == bytes,
        forall|i: int|
            0 <= i < content.len() && !(offset <= i < offset + bytes.len())
                ==> #[trigger] overlay(content, offset, bytes)[i] == content[i],
{
    if bytes.len() > 0 {
        assert(clipped(overlay(content, offset, bytes), offset, bytes.len() as int) =~= bytes);
    }
}

/// A read of the range that a complete write has covered gives back the bytes
/// written, whatever was there before and whatever the sizes of the parts.
pub proof fn law_a_written_range_reads_back(
    write: WriteView,
    content: Seq<u8>,
    parts: nat,
    read: ReadView,
    replies: Seq<ReplyView>,
)
    requires
        write.done == 0,
        write.offset + write.bytes.len() <= u64::MAX,
        parts * MOUNT_IO_CHUNK >= write.bytes.len(),
        read.offset == write.offset,
        read.size == write.bytes.len(),
        read.bytes.len() == 0,
        read.served_by(replies, write.content_after(content, parts)),
    ensures
        read.run(replies) is Done ==> read.run(replies) == (ReadStepView::Done {
            result: Ok(write.bytes),
        }),
{
    let after = write.content_after(content, parts);
    law_a_complete_write_stores_everything(write, content, parts);
    law_a_read_gives_the_contents(read, after, replies);
    law_reading_back_gives_what_was_written(content, write.offset as int, write.bytes);
    if write.bytes.len() == 0 {
        assert(clipped(after, read.offset as int, 0) =~= write.bytes);
    }
}

impl WriteView {
    /// Where a series of replies leads.
    pub open spec fn run(self, replies: Seq<ReplyView>) -> WriteStepView
        decreases replies.len(),
    {
        if replies.len() == 0 {
            self.step()
        } else {
            match self.run(replies.drop_last()) {
                WriteStepView::Call { operation, then } => then.resumed(replies.last()),
                done => done,
            }
        }
    }
}

/// A write that still waits has had every part before acknowledged, and one that
/// says how much was written says that of all bytes, each acknowledged.
pub proof fn law_success_is_acknowledged(task: WriteView, replies: Seq<ReplyView>)
    requires
        task.done == 0,
    ensures
        match task.run(replies) {
            WriteStepView::Call { operation, then } => {
                &&& then == task.acknowledged(replies.len())
                &&& forall|k: int| 0 <= k < replies.len() ==> (#[trigger] replies[k]) is Ok
            },
            WriteStepView::Done { result: Ok(count) } => {
                &&& count == task.bytes.len()
                &&& exists|parts: int|
                    {
                        &&& 0 <= parts <= replies.len()
                        &&& (#[trigger] task.acknowledged(parts as nat)).done >= task.bytes.len()
                        &&& forall|k: int| 0 <= k < parts ==> (#[trigger] replies[k]) is Ok
                    }
            },
            WriteStepView::Done { result: Err(_) } => true,
        },
    decreases replies.len(),
{
    if replies.len() == 0 {
        assert(task.acknowledged(0int as nat) == task);
    } else {
        let earlier = replies.drop_last();
        law_success_is_acknowledged(task, earlier);
        match task.run(earlier) {
            WriteStepView::Call { operation, then } => {
                let before = task.acknowledged(earlier.len());
                lemma_waiting(task, earlier);
                let after = task.acknowledged(replies.len());
                if replies.last() is Ok {
                    assert(after == WriteView { done: before.done + before.length(), ..before });
                    assert forall|k: int| 0 <= k < replies.len() implies (
                    #[trigger] replies[k]) is Ok by {
                        if k < earlier.len() {
                            assert(earlier[k] is Ok);
                        }
                    }
                    lemma_bytes_stay(task, replies.len());
                    let parts = replies.len() as int;
                    assert(task.acknowledged(parts as nat) == after);
                    assert(task.run(replies) == after.step());
                }
            },
            WriteStepView::Done { result: Ok(count) } => {
                let parts = choose|parts: int|
                    {
                        &&& 0 <= parts <= earlier.len()
                        &&& (#[trigger] task.acknowledged(parts as nat)).done >= task.bytes.len()
                        &&& forall|k: int| 0 <= k < parts ==> (#[trigger] earlier[k]) is Ok
                    };
                assert(task.acknowledged(parts as nat).done >= task.bytes.len());
                assert forall|k: int| 0 <= k < parts implies (#[trigger] replies[k]) is Ok by {
                    assert(replies[k] == earlier[k]);
                }
            },
            _ => {},
        }
    }
}

/// A write that waits has bytes left.
proof fn lemma_waiting(task: WriteView, replies: Seq<ReplyView>)
    ensures
        task.run(replies) matches WriteStepView::Call { operation, then } ==> then.done
            < then.bytes.len(),
    decreases replies.len(),
{
    if replies.len() > 0 {
        lemma_waiting(task, replies.drop_last());
    }
}

/// Acknowledgements do not change what is written.
proof fn lemma_bytes_stay(task: WriteView, parts: nat)
    ensures
        task.acknowledged(parts).bytes == task.bytes,
    decreases parts,
{
    if parts > 0 {
        lemma_bytes_stay(task, (parts - 1) as nat);
    }
}

/// A request that failed is not sent again: a transfer that meets a failure ends
/// with it.
pub proof fn law_failures_are_not_replayed(write: WriteView, read: ReadView, error: FsErrorView)
    ensures
        write.resumed(Err(error)) == (WriteStepView::Done {
            result: Err(TransferErrorView::Provider(error)),
        }),
        read.resumed(Err(error)) == (ReadStepView::Done {
            result: Err(TransferErrorView::Provider(error)),
        }),
{
}

/// A count of bytes in 32 bits, as both kernels take it.
pub fn count32(count: usize) -> (short: u32)
    ensures
        short == count as int % 0x1_0000_0000,
{
    let wide: u64 = count as u64;
    assert(wide as u32 == wide % 0x1_0000_0000) by (bit_vector);
    #[verifier::truncate] (wide as u32)
}

/// A copy of `bytes[start..end]`.
pub fn copy_range(bytes: &Vec<u8>, start: usize, end: usize) -> (part: Vec<u8>)
    requires
        start <= end <= bytes@.len(),
    ensures
        part@ == bytes@.subrange(start as int, end as int),
{
    let mut part: Vec<u8> = Vec::with_capacity(end - start);
    let mut i: usize = start;
    while i < end
        invariant
            start <= i <= end <= bytes@.len(),
            part@ == bytes@.subrange(start as int, i as int),
        decreases end - i,
    {
        part.push(bytes[i]);
        i += 1;
        assert(part@ =~= bytes@.subrange(start as int, i as int));
    }
    part
}

/// A read asks for as much of what is missing as one request carries, right after
/// what it has; a write sends as much. A range past the largest offset is an
/// overflow, and nothing is asked.
pub proof fn law_requests_are_as_long_as_they_can_be(read: ReadView, write: WriteView)
    requires
        0 <= read.size,
        0 <= write.done,
    ensures
        read.bytes.len() < read.size && read.offset + read.bytes.len() <= u64::MAX ==> (
        read.step() matches ReadStepView::Call {
            operation: OperationView::Read { handle, offset, length },
            then,
        } && {
            &&& handle == read.handle
            &&& offset == read.offset + read.bytes.len()
            &&& length <= 32768
            &&& length == read.size - read.bytes.len() || (length == 32768 && read.size
                - read.bytes.len() > 32768)
            &&& then == read
        }),
        write.done < write.bytes.len() && write.offset + write.done <= u64::MAX ==> (
        write.step() matches WriteStepView::Call {
            operation: OperationView::Write { handle, offset, bytes },
            then,
        } && {
            &&& handle == write.handle
            &&& offset == write.offset + write.done
            &&& bytes.len() <= 32768
            &&& bytes.len() == write.bytes.len() - write.done || (bytes.len() == 32768
                && write.bytes.len() - write.done > 32768)
            &&& forall|k: int|
                0 <= k < bytes.len() ==> #[trigger] bytes[k] == write.bytes[write.done + k]
            &&& then == write
        }),
        read.bytes.len() < read.size && read.offset + read.bytes.len() > u64::MAX ==> read.step()
            == (ReadStepView::Done { result: Err(TransferErrorView::Overflow) }),
        write.done < write.bytes.len() && write.offset + write.done > u64::MAX ==> write.step()
            == (WriteStepView::Done { result: Err(TransferErrorView::Overflow) }),
        read.bytes.len() >= read.size ==> read.step() == (ReadStepView::Done {
            result: Ok(read.bytes),
        }),
{
}

/// A reply that holds more than was asked for, or no data at all, is not taken for
/// the contents of the file; one that holds nothing is the end of the file.
pub proof fn law_only_sensible_data_is_taken(read: ReadView, part: Seq<u8>)
    requires
        read.bytes.len() < read.size,
    ensures
        part.len() > read.size - read.bytes.len() || part.len() > 32768 ==> read.resumed(
            Ok(ValueView::Data(part)),
        ) == (ReadStepView::Done { result: Err(TransferErrorView::Malformed) }),
        read.resumed(Ok(ValueView::Unit)) == (ReadStepView::Done {
            result: Err(TransferErrorView::Malformed),
        }),
        part.len() == 0 ==> read.resumed(Ok(ValueView::Data(part))) == (ReadStepView::Done {
            result: Ok(read.bytes),
        }),
        0 < part.len() && part.len() == read.size - read.bytes.len() && part.len() <= 32768
            ==> read.resumed(Ok(ValueView::Data(part))) == (ReadStepView::Done {
            result: Ok(read.bytes + part),
        }),
{
}

} // verus!
