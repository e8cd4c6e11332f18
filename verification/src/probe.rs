//! A check of the transport on a disposable root: one file is made, written,
//! read, cut, renamed, closed and removed.
use vstd::prelude::*;
use crate::error::FsResult;
use crate::metadata::{FsCreate, FsOpenOptions, FsSetMetadata};
use crate::path::{is_component, MountPath, PathView};
use crate::wire::{reply_view, Operation, OperationView, ReplyView, Value, ValueView};

verus! {

/// Where the file is written: past the first four gigabytes.
pub const OFFSET: u64 = 4294967315;

/// The size that the file is cut to.
pub const CUT: u64 = 12;

/// What is written: `pipe roundtrip`.
pub open spec fn sample() -> Seq<u8> {
    seq![112u8, 105, 112, 101, 32, 114, 111, 117, 110, 100, 116, 114, 105, 112]
}

fn sample_bytes() -> (bytes: Vec<u8>)
    ensures
        bytes@ == sample(),
{
    let bytes: Vec<u8> = vec![112, 105, 112, 101, 32, 114, 111, 117, 110, 100, 116, 114, 105, 112];
    assert(bytes@ =~= sample());
    bytes
}

fn is_sample(bytes: &Vec<u8>) -> (same: bool)
    ensures
        same == (bytes@ == sample()),
{
    let expected = sample_bytes();
    if bytes.len() != expected.len() {
        return false;
    }
    let mut i: usize = 0;
    while i < bytes.len()
        invariant
            i <= bytes@.len(),
            bytes@.len() == expected@.len(),
            expected@ == sample(),
            forall|k: int| 0 <= k < i ==> bytes@[k] == expected@[k],
        decreases bytes@.len() - i,
    {
        if bytes[i] != expected[i] {
            assert(bytes@[i as int] != sample()[i as int]);
            return false;
        }
        i += 1;
    }
    assert(bytes@ =~= sample());
    true
}

/// The file's first place.
pub open spec fn first_path() -> PathView {
    seq!["bridge-test.txt"@]
}

/// The file's second place.
pub open spec fn second_path() -> PathView {
    seq!["renamed.txt"@]
}

fn first() -> (path: MountPath)
    ensures
        path@ == first_path(),
{
    proof {
        reveal_strlit("bridge-test.txt");
        let name = "bridge-test.txt"@;
        assert(name.len() == 15);
        assert(is_component(name));
    }
    match MountPath::root().child("bridge-test.txt") {
        Ok(path) => {
            assert(path@ =~= first_path());
            path
        },
        Err(_) => MountPath::root(),
    }
}

fn second() -> (path: MountPath)
    ensures
        path@ == second_path(),
{
    proof {
        reveal_strlit("renamed.txt");
        let name = "renamed.txt"@;
        assert(name.len() == 11);
        assert(is_component(name));
    }
    match MountPath::root().child("renamed.txt") {
        Ok(path) => {
            assert(path@ =~= second_path());
            path
        },
        Err(_) => MountPath::root(),
    }
}

/// Which reply the check waits for.
#[derive(Clone, Copy, Debug)]
pub enum ProbeTask {
    Capabilities,
    Open,
    Write { handle: u64 },
    Flush { handle: u64 },
    Read { handle: u64 },
    Cut { handle: u64 },
    Rename { handle: u64 },
    Metadata { handle: u64 },
    Close { handle: u64 },
    ReadClosed,
    Remove,
}

impl View for ProbeTask {
    type V = ProbeTask;

    open spec fn view(&self) -> ProbeTask {
        *self
    }
}

pub enum ProbeStep {
    Call { operation: Operation, then: ProbeTask },
    Done { result: Result<(), String> },
}

pub enum ProbeView {
    Call { operation: OperationView, then: ProbeTask },
    Done { result: Result<(), Seq<char>> },
}

impl View for ProbeStep {
    type V = ProbeView;

    open spec fn view(&self) -> ProbeView {
        match *self {
            ProbeStep::Call { operation, then } => ProbeView::Call { operation: operation@, then },
            ProbeStep::Done { result } => ProbeView::Done {
                result: match result {
                    Ok(_) => Ok(()),
                    Err(text) => Err(text@),
                },
            },
        }
    }
}

pub open spec fn fails(text: Seq<char>) -> ProbeView {
    ProbeView::Done { result: Err(text) }
}

/// What a reply leads to. Every failure ends the check with its reason, but for
/// the read of the closed handle, which has to fail.
pub open spec fn after_reply(task: ProbeTask, reply: ReplyView) -> ProbeView {
    match task {
        ProbeTask::ReadClosed => match reply {
            Ok(_) => fails("Closed handle accepted"@),
            Err(_) => ProbeView::Call {
                operation: OperationView::Remove { path: second_path(), directory: false },
                then: ProbeTask::Remove,
            },
        },
        _ => match reply {
            Err(e) => fails(e.message),
            Ok(value) => after_value(task, value),
        },
    }
}

pub open spec fn after_value(task: ProbeTask, value: ValueView) -> ProbeView {
    match task {
        ProbeTask::Capabilities => match value {
            ValueView::Capabilities(caps) => if caps.writable {
                ProbeView::Call {
                    operation: OperationView::Open {
                        path: first_path(),
                        options: FsOpenOptions {
                            read: true,
                            write: true,
                            create: FsCreate::CreateNew,
                            truncate: false,
                        },
                    },
                    then: ProbeTask::Open,
                }
            } else {
                fails("Writable disposable grant required"@)
            },
            _ => fails("Writable disposable grant required"@),
        },
        ProbeTask::Open => match value {
            ValueView::Handle(handle) => ProbeView::Call {
                operation: OperationView::Write { handle, offset: OFFSET, bytes: sample() },
                then: ProbeTask::Write { handle },
            },
            _ => fails("Expected a handle"@),
        },
        ProbeTask::Write { handle } => ProbeView::Call {
            operation: OperationView::Flush { handle },
            then: ProbeTask::Flush { handle },
        },
        ProbeTask::Flush { handle } => ProbeView::Call {
            operation: OperationView::Read { handle, offset: OFFSET, length: 14 },
            then: ProbeTask::Read { handle },
        },
        ProbeTask::Read { handle } => match value {
            ValueView::Data(bytes) => if bytes == sample() {
                ProbeView::Call {
                    operation: OperationView::SetFileMetadata {
                        handle,
                        metadata: FsSetMetadata::only_size(CUT),
                    },
                    then: ProbeTask::Cut { handle },
                }
            } else {
                fails("Read/write bytes differ"@)
            },
            _ => fails("Read/write bytes differ"@),
        },
        ProbeTask::Cut { handle } => ProbeView::Call {
            operation: OperationView::Rename {
                from: first_path(),
                to: second_path(),
                replace: false,
            },
            then: ProbeTask::Rename { handle },
        },
        ProbeTask::Rename { handle } => ProbeView::Call {
            operation: OperationView::FileMetadata { handle },
            then: ProbeTask::Metadata { handle },
        },
        ProbeTask::Metadata { handle } => match value {
            ValueView::Metadata(meta) => if meta.size == CUT {
                ProbeView::Call {
                    operation: OperationView::Close { handle },
                    then: ProbeTask::Close { handle },
                }
            } else {
                fails("Handle metadata differs after rename"@)
            },
            _ => fails("Handle metadata differs after rename"@),
        },
        ProbeTask::Close { handle } => ProbeView::Call {
            operation: OperationView::Read { handle, offset: 0, length: 1 },
            then: ProbeTask::ReadClosed,
        },
        ProbeTask::ReadClosed => fails("Closed handle accepted"@),
        ProbeTask::Remove => ProbeView::Done { result: Ok(()) },
    }
}

/// The line on the error stream that says that the check passed.
pub fn pass_line() -> (line: &'static str)
    ensures
        line@ == "SHELLCANVAS_BRIDGE_TRANSPORT_PASS"@,
{
    "SHELLCANVAS_BRIDGE_TRANSPORT_PASS"
}

/// Starts the check.
pub fn run() -> (step: ProbeStep)
    ensures
        step@ == (ProbeView::Call {
            operation: OperationView::Capabilities,
            then: ProbeTask::Capabilities,
        }),
{
    ProbeStep::Call { operation: Operation::Capabilities, then: ProbeTask::Capabilities }
}

fn fail(text: &str) -> (step: ProbeStep)
    ensures
        step@ == fails(text@),
{
    ProbeStep::Done { result: Err(text.to_owned()) }
}

/// Goes on with the reply to the pending request.
pub fn replied(task: ProbeTask, reply: FsResult<Value>) -> (step: ProbeStep)
    ensures
        step@ == after_reply(task, reply_view(reply)),
{
    let closed = match task {
        ProbeTask::ReadClosed => true,
        _ => false,
    };
    if closed {
        return match reply {
            Ok(_) => fail("Closed handle accepted"),
            Err(_) => ProbeStep::Call {
                operation: Operation::Remove { path: second(), directory: false },
                then: ProbeTask::Remove,
            },
        };
    }
    let value = match reply {
        Ok(value) => value,
        Err(e) => {
            return ProbeStep::Done { result: Err(e.message) };
        },
    };
    match task {
        ProbeTask::Capabilities => match value {
            Value::Capabilities(caps) => if caps.writable {
                ProbeStep::Call {
                    operation: Operation::Open {
                        path: first(),
                        options: FsOpenOptions {
                            read: true,
                            write: true,
                            create: FsCreate::CreateNew,
                            truncate: false,
                        },
                    },
                    then: ProbeTask::Open,
                }
            } else {
                fail("Writable disposable grant required")
            },
            _ => fail("Writable disposable grant required"),
        },
        ProbeTask::Open => match value {
            Value::Handle(handle) => ProbeStep::Call {
                operation: Operation::Write { handle, offset: OFFSET, bytes: sample_bytes() },
                then: ProbeTask::Write { handle },
            },
            _ => fail("Expected a handle"),
        },
        ProbeTask::Write { handle } => ProbeStep::Call {
            operation: Operation::Flush { handle },
            then: ProbeTask::Flush { handle },
        },
        ProbeTask::Flush { handle } => ProbeStep::Call {
            operation: Operation::Read { handle, offset: OFFSET, length: 14 },
            then: ProbeTask::Read { handle },
        },
        ProbeTask::Read { handle } => match value {
            Value::Data(bytes) => if is_sample(&bytes) {
                ProbeStep::Call {
                    operation: Operation::SetFileMetadata {
                        handle,
                        metadata: FsSetMetadata {
                            size: Some(CUT),
                            accessed: None,
                            modified: None,
                            permissions: None,
                        },
                    },
                    then: ProbeTask::Cut { handle },
                }
            } else {
                fail("Read/write bytes differ")
            },
            _ => fail("Read/write bytes differ"),
        },
        ProbeTask::Cut { handle } => ProbeStep::Call {
            operation: Operation::Rename { from: first(), to: second(), replace: false },
            then: ProbeTask::Rename { handle },
        },
        ProbeTask::Rename { handle } => ProbeStep::Call {
            operation: Operation::FileMetadata { handle },
            then: ProbeTask::Metadata { handle },
        },
        ProbeTask::Metadata { handle } => match value {
            Value::Metadata(meta) => if meta.size == CUT {
                ProbeStep::Call {
                    operation: Operation::Close { handle },
                    then: ProbeTask::Close { handle },
                }
            } else {
                fail("Handle metadata differs after rename")
            },
            _ => fail("Handle metadata differs after rename"),
        },
        ProbeTask::Close { handle } => ProbeStep::Call {
            operation: Operation::Read { handle, offset: 0, length: 1 },
            then: ProbeTask::ReadClosed,
        },
        ProbeTask::ReadClosed => fail("Closed handle accepted"),
        ProbeTask::Remove => ProbeStep::Done { result: Ok(()) },
    }
}

/// The check passes only at its very end, and gets there only if the bytes came
/// back as written, the cut size was seen through the handle after the rename,
/// and the closed handle was refused.
pub proof fn law_a_pass_shows_a_working_transport(task: ProbeTask, reply: ReplyView)
    ensures
        after_reply(task, reply) == (ProbeView::Done { result: Ok(()) }) ==> task == ProbeTask::Remove
            && reply is Ok,
        after_reply(task, reply) is Call ==> match task {
            ProbeTask::Read { .. } => reply matches Ok(ValueView::Data(bytes)) && bytes
                == sample(),
            ProbeTask::Metadata { .. } => reply matches Ok(ValueView::Metadata(meta)) && meta.size
                == CUT,
            ProbeTask::ReadClosed => reply is Err,
            _ => reply is Ok,
        },
{
}

/// The check makes a new file, writes past the first four gigabytes, has that
/// confirmed, reads the same place back, cuts the file, renames it without replacing
/// anything, looks at it through the same handle, closes that handle, tries to read
/// through it, and removes the file where it is then.
pub proof fn law_the_order_of_the_check(
    caps: crate::metadata::FsCapabilities,
    handle: u64,
    value: ValueView,
    meta: crate::metadata::FsMetadata,
    error: crate::error::FsErrorView,
)
    requires
        caps.writable,
        meta.size == 12,
    ensures
        ({
            let first = seq!["bridge-test.txt"@];
            let second = seq!["renamed.txt"@];
            let at = 4_294_967_315u64;
            &&& after_reply(
                ProbeTask::Capabilities,
                Ok(ValueView::Capabilities(caps)),
            ) matches ProbeView::Call {
                operation: OperationView::Open { path, options },
                then: ProbeTask::Open,
            } && path == first && options.read && options.write && options.create
                == FsCreate::CreateNew && !options.truncate
            &&& after_reply(ProbeTask::Open, Ok(ValueView::Handle(handle))) == (ProbeView::Call {
                operation: OperationView::Write { handle, offset: at, bytes: sample() },
                then: ProbeTask::Write { handle },
            })
            &&& after_reply(ProbeTask::Write { handle }, Ok(value)) == (ProbeView::Call {
                operation: OperationView::Flush { handle },
                then: ProbeTask::Flush { handle },
            })
            &&& after_reply(ProbeTask::Flush { handle }, Ok(value)) == (ProbeView::Call {
                operation: OperationView::Read {
                    handle,
                    offset: at,
                    length: sample().len() as u32,
                },
                then: ProbeTask::Read { handle },
            })
            &&& after_reply(
                ProbeTask::Read { handle },
                Ok(ValueView::Data(sample())),
            ) matches ProbeView::Call {
                operation: OperationView::SetFileMetadata { handle: cut, metadata },
                then,
            } && cut == handle && metadata.size == Some(12u64) && metadata.permissions is None && then
                == (ProbeTask::Cut { handle })
            &&& after_reply(ProbeTask::Cut { handle }, Ok(value)) == (ProbeView::Call {
                operation: OperationView::Rename { from: first, to: second, replace: false },
                then: ProbeTask::Rename { handle },
            })
            &&& after_reply(ProbeTask::Rename { handle }, Ok(value)) == (ProbeView::Call {
                operation: OperationView::FileMetadata { handle },
                then: ProbeTask::Metadata { handle },
            })
            &&& after_reply(ProbeTask::Metadata { handle }, Ok(ValueView::Metadata(meta))) == (
            ProbeView::Call {
                operation: OperationView::Close { handle },
                then: ProbeTask::Close { handle },
            })
            &&& after_reply(ProbeTask::Close { handle }, Ok(value)) matches ProbeView::Call {
                operation: OperationView::Read { handle: closed, .. },
                then: ProbeTask::ReadClosed,
            } && closed == handle
            &&& after_reply(ProbeTask::ReadClosed, Err(error)) == (ProbeView::Call {
                operation: OperationView::Remove { path: second, directory: false },
                then: ProbeTask::Remove,
            })
            &&& after_reply(ProbeTask::Remove, Ok(value)) == (ProbeView::Done { result: Ok(()) })
        }),
{
}

/// Everything that goes wrong ends the check with a reason: the provider's own, but
/// for a handle that is still taken after its close.
pub proof fn law_a_failed_check_says_why(
    task: ProbeTask,
    value: ValueView,
    error: crate::error::FsErrorView,
)
    ensures
        task !is ReadClosed ==> after_reply(task, Err(error)) == (ProbeView::Done {
            result: Err(error.message),
        }),
        after_reply(ProbeTask::ReadClosed, Ok(value)) == (ProbeView::Done {
            result: Err("Closed handle accepted"@),
        }),
        task is Read && value != ValueView::Data(sample()) ==> after_reply(task, Ok(value)) == (
        ProbeView::Done { result: Err("Read/write bytes differ"@) }),
        task is Metadata && !(value matches ValueView::Metadata(meta) && meta.size == 12)
            ==> after_reply(task, Ok(value)) == (ProbeView::Done {
            result: Err("Handle metadata differs after rename"@),
        }),
        task is Capabilities && !(value matches ValueView::Capabilities(caps) && caps.writable)
            ==> after_reply(task, Ok(value)) == (ProbeView::Done {
            result: Err("Writable disposable grant required"@),
        }),
{
}

} // verus!
