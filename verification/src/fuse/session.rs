//! The life of one mount: when it starts, what it tells the granting side, and
//! when it ends.
use vstd::prelude::*;
use crate::bridge_control::{BridgeDirective, BridgeEvent, EventView};
use crate::error::FsResult;
use crate::metadata::FsCapabilities;
use crate::wire::{reply_view, Operation, OperationView, ReplyView, Value, ValueView};

verus! {

/// What is known of the place to mount at.
#[derive(Clone, Copy, Debug)]
pub struct Target {
    pub absolute: bool,
    pub directory: bool,
    pub empty: bool,
}

/// What the kernel is asked for.
#[derive(Clone, Copy, Debug, PartialEq, Eq, Structural)]
pub enum MountOption {
    /// The name under which the filesystem is listed.
    FsName,
    NoDev,
    NoSuid,
    Rw,
    Ro,
}

/// The name under which the filesystem is listed.
pub fn filesystem_name() -> (name: &'static str)
    ensures
        name@ == "ShellCanvas"@,
{
    "ShellCanvas"
}

/// The line on the error stream that says that the mount is in place.
pub fn ready_line() -> (line: &'static str)
    ensures
        line@ == "SHELLCANVAS_BRIDGE_READY"@,
{
    "SHELLCANVAS_BRIDGE_READY"
}

/// Devices and privileged programs are never honoured, and only a writable root
/// is mounted for writing.
pub open spec fn options_for(caps: FsCapabilities) -> Seq<MountOption> {
    seq![
        MountOption::FsName,
        MountOption::NoDev,
        MountOption::NoSuid,
        if caps.writable {
            MountOption::Rw
        } else {
            MountOption::Ro
        },
    ]
}

/// Which reply the session waits for.
#[derive(Clone, Copy, Debug, PartialEq, Eq, Structural)]
pub enum Exchange {
    Ready,
    Poll,
    Detached,
    DetachFailed,
}

pub enum RunStep {
    /// Mount with these options, then report it.
    Mount { options: Vec<MountOption> },
    /// Send `operation`, then go on with [`replied`].
    Call { operation: Operation, then: Exchange },
    /// Print the ready line, then wait.
    Announce,
    /// Sleep for a second, then go on with [`woken`].
    Wait,
    /// Unmount as usual, then go on with [`unmounted`].
    Unmount,
    /// Join the finished session, then go on with [`joined`].
    Join,
    /// Let go of the session, if there is one; this is the outcome, or what to tell.
    Done { result: Result<(), String> },
}

pub enum RunView {
    Mount { options: Seq<MountOption> },
    Call { operation: OperationView, then: Exchange },
    Announce,
    Wait,
    Unmount,
    Join,
    Done { result: Result<(), Seq<char>> },
}

impl View for RunStep {
    type V = RunView;

    open spec fn view(&self) -> RunView {
        match *self {
            RunStep::Mount { options } => RunView::Mount { options: options@ },
            RunStep::Call { operation, then } => RunView::Call { operation: operation@, then },
            RunStep::Announce => RunView::Announce,
            RunStep::Wait => RunView::Wait,
            RunStep::Unmount => RunView::Unmount,
            RunStep::Join => RunView::Join,
            RunStep::Done { result } => RunView::Done {
                result: match result {
                    Ok(_) => Ok(()),
                    Err(text) => Err(text@),
                },
            },
        }
    }
}

/// Telling the granting side of an event.
pub open spec fn report(event: EventView, then: Exchange) -> RunView {
    RunView::Call { operation: OperationView::Report { event }, then }
}

/// What a reply leads to. A report that is not taken ends the session with the
/// reason; a poll that gives no directive ends it quietly.
pub open spec fn after_reply(then: Exchange, reply: ReplyView) -> RunView {
    match then {
        Exchange::Poll => match reply {
            Ok(ValueView::Directive(BridgeDirective::Continue)) => RunView::Wait,
            Ok(ValueView::Directive(BridgeDirective::Detach)) => RunView::Unmount,
            _ => RunView::Done { result: Ok(()) },
        },
        _ => match reply {
            Err(e) => RunView::Done { result: Err(e.message) },
            Ok(_) => match then {
                Exchange::Ready => RunView::Announce,
                Exchange::DetachFailed => RunView::Wait,
                _ => RunView::Done { result: Ok(()) },
            },
        },
    }
}

/// How a mount starts.
pub open spec fn at_start(target: Target, caps: FsCapabilities) -> RunView {
    if target.absolute && target.directory && target.empty {
        RunView::Mount { options: options_for(caps) }
    } else {
        RunView::Done { result: Err("Choose an existing empty local directory"@) }
    }
}

/// What comes after a second.
pub open spec fn after_wait(finished: bool) -> RunView {
    if finished {
        RunView::Join
    } else {
        RunView::Call { operation: OperationView::Poll, then: Exchange::Poll }
    }
}

/// What comes after an unmount; `failed` says why it did not happen.
pub open spec fn after_unmount(failed: Option<Seq<char>>) -> RunView {
    match failed {
        None => RunView::Join,
        Some(message) => report(EventView::DetachFailed { message }, Exchange::DetachFailed),
    }
}

/// Starts a mount: only an existing, empty directory is taken.
pub fn run(target: Target, caps: FsCapabilities) -> (step: RunStep)
    ensures
        step@ == at_start(target, caps),
{
    if !(target.absolute && target.directory && target.empty) {
        return RunStep::Done {
            result: Err("Choose an existing empty local directory".to_owned()),
        };
    }
    let access = if caps.writable {
        MountOption::Rw
    } else {
        MountOption::Ro
    };
    let options = vec![MountOption::FsName, MountOption::NoDev, MountOption::NoSuid, access];
    assert(options@ =~= options_for(caps));
    RunStep::Mount { options }
}

/// Goes on once the mount is in place.
pub fn mounted() -> (step: RunStep)
    ensures
        step@ == report(EventView::Ready, Exchange::Ready),
{
    RunStep::Call {
        operation: Operation::Report { event: BridgeEvent::Ready },
        then: Exchange::Ready,
    }
}

/// Goes on with the reply to the pending request.
pub fn replied(then: Exchange, reply: FsResult<Value>) -> (step: RunStep)
    ensures
        step@ == after_reply(then, reply_view(reply)),
{
    if then == Exchange::Poll {
        return match reply {
            Ok(Value::Directive(directive)) => match directive {
                BridgeDirective::Continue => RunStep::Wait,
                BridgeDirective::Detach => RunStep::Unmount,
            },
            _ => RunStep::Done { result: Ok(()) },
        };
    }
    match reply {
        Err(e) => RunStep::Done { result: Err(e.message) },
        Ok(_) => match then {
            Exchange::Ready => RunStep::Announce,
            Exchange::DetachFailed => RunStep::Wait,
            _ => RunStep::Done { result: Ok(()) },
        },
    }
}

/// Goes on after a second; `finished` says that the kernel has let go of the mount.
pub fn woken(finished: bool) -> (step: RunStep)
    ensures
        step@ == after_wait(finished),
{
    if finished {
        RunStep::Join
    } else {
        RunStep::Call { operation: Operation::Poll, then: Exchange::Poll }
    }
}

/// Goes on after an unmount. One that failed is explained, and the mount stays.
pub fn unmounted(result: Result<(), String>) -> (step: RunStep)
    ensures
        step@ == after_unmount(
            match result {
                Ok(_) => None,
                Err(message) => Some(message@),
            },
        ),
{
    match result {
        Ok(_) => RunStep::Join,
        Err(message) => RunStep::Call {
            operation: Operation::Report { event: BridgeEvent::DetachFailed { message } },
            then: Exchange::DetachFailed,
        },
    }
}

/// Goes on once the session has ended.
pub fn joined() -> (step: RunStep)
    ensures
        step@ == report(EventView::Detached, Exchange::Detached),
{
    RunStep::Call {
        operation: Operation::Report { event: BridgeEvent::Detached },
        then: Exchange::Detached,
    }
}

/// A mount whose detach failed stays in place: once the granting side knows, the
/// session waits as before, and asks again for a directive.
pub proof fn law_a_failed_detach_keeps_the_mount(reply: ReplyView)
    ensures
        reply is Ok ==> after_reply(Exchange::DetachFailed, reply) == RunView::Wait,
        reply == Ok::<ValueView, crate::error::FsErrorView>(
            ValueView::Directive(BridgeDirective::Continue),
        ) ==> after_reply(Exchange::Poll, reply) == RunView::Wait,
{
}

/// Only a directive to detach leads to an unmount.
pub proof fn law_only_a_directive_unmounts(then: Exchange, reply: ReplyView)
    ensures
        after_reply(then, reply) == RunView::Unmount ==> then == Exchange::Poll && reply == Ok::<
            ValueView,
            crate::error::FsErrorView,
        >(ValueView::Directive(BridgeDirective::Detach)),
{
}

/// A mount never honours devices or privileged programs, and can be written exactly
/// if the root can: it asks for one of the two, and not for the other.
pub proof fn law_mounts_are_as_safe_as_the_root(caps: FsCapabilities)
    ensures
        options_for(caps).contains(MountOption::NoDev),
        options_for(caps).contains(MountOption::NoSuid),
        options_for(caps).contains(MountOption::FsName),
        options_for(caps).contains(MountOption::Rw) <==> caps.writable,
        options_for(caps).contains(MountOption::Ro) <==> !caps.writable,
{
    let options = options_for(caps);
    assert(options[0] == MountOption::FsName);
    assert(options[1] == MountOption::NoDev);
    assert(options[2] == MountOption::NoSuid);
    assert(options[3] == MountOption::Rw || options[3] == MountOption::Ro);
}

/// The life of a mount: once the granting side knows that it is ready, the mount is
/// announced; a directive to go on waits, one to detach unmounts, and any other
/// answer to a poll ends the session quietly. A report that is not taken ends the
/// session with its reason; a reported detach ends it well.
pub proof fn law_the_life_of_a_mount(value: ValueView, error: crate::error::FsErrorView)
    ensures
        after_reply(Exchange::Ready, Ok(value)) == RunView::Announce,
        after_reply(Exchange::Detached, Ok(value)) == (RunView::Done { result: Ok(()) }),
        after_reply(Exchange::DetachFailed, Ok(value)) == RunView::Wait,
        after_reply(Exchange::Ready, Err(error)) == (RunView::Done { result: Err(error.message) }),
        after_reply(Exchange::Detached, Err(error)) == (RunView::Done {
            result: Err(error.message),
        }),
        after_reply(Exchange::DetachFailed, Err(error)) == (RunView::Done {
            result: Err(error.message),
        }),
        after_reply(
            Exchange::Poll,
            Ok(ValueView::Directive(BridgeDirective::Continue)),
        ) == RunView::Wait,
        after_reply(
            Exchange::Poll,
            Ok(ValueView::Directive(BridgeDirective::Detach)),
        ) == RunView::Unmount,
        after_reply(Exchange::Poll, Err(error)) == (RunView::Done { result: Ok(()) }),
        value !is Directive ==> after_reply(Exchange::Poll, Ok(value)) == (RunView::Done {
            result: Ok(()),
        }),
{
}

/// What is reported is the event that happened, to the granting side.
pub proof fn law_reports_tell_the_event(event: EventView, then: Exchange)
    ensures
        report(event, then) matches RunView::Call { operation, then: next } && operation == (
        OperationView::Report { event }) && next == then,
{
}

/// Only an absolute, existing, empty directory is mounted on. A mount that the kernel
/// has let go of is joined, and otherwise the granting side is asked what to do. An
/// unmount that happened is joined too; one that did not is explained with its reason.
pub proof fn law_when_a_mount_starts_and_ends(
    target: Target,
    caps: FsCapabilities,
    message: Seq<char>,
)
    ensures
        at_start(target, caps) is Mount <==> target.absolute && target.directory && target.empty,
        at_start(target, caps) matches RunView::Mount { options } ==> options == options_for(caps),
        at_start(target, caps) !is Mount ==> (at_start(target, caps) matches RunView::Done { result }
            && result is Err),
        after_wait(true) == RunView::Join,
        after_wait(false) matches RunView::Call { operation, then } && operation
            == OperationView::Poll && then == Exchange::Poll,
        after_unmount(None) == RunView::Join,
        after_unmount(Some(message)) matches RunView::Call { operation, then } && operation == (
        OperationView::Report { event: EventView::DetachFailed { message } }) && then
            == Exchange::DetachFailed,
{
}

} // verus!
