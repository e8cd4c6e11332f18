//! The life of one Windows drive: when it starts, what it tells the granting
//! side, and when it ends.
use vstd::prelude::*;
use crate::bridge_control::{BridgeDirective, BridgeEvent, EventView};
use crate::error::FsResult;
use crate::metadata::FsCapabilities;
use crate::text::joined;
use crate::wire::{reply_view, Operation, OperationView, ReplyView, Value, ValueView};

verus! {

/// What the driver is told about the volume.
#[derive(Clone, Copy, Debug, PartialEq, Eq)]
pub struct VolumeParameters {
    pub sector_size: u16,
    pub sectors_per_allocation_unit: u16,
    pub max_component_length: u16,
    pub case_sensitive_search: bool,
    pub case_preserved_names: bool,
    pub unicode_on_disk: bool,
    pub persistent_acls: bool,
    pub read_only_volume: bool,
    pub file_info_timeout: u32,
    pub flush_and_purge_on_cleanup: bool,
    pub irp_timeout: u32,
}

/// Names are told apart by case, nothing is cached, and only a writable root is
/// attached for writing.
pub open spec fn parameters_for(caps: FsCapabilities) -> VolumeParameters {
    VolumeParameters {
        sector_size: 512,
        sectors_per_allocation_unit: 8,
        max_component_length: 255,
        case_sensitive_search: true,
        case_preserved_names: true,
        unicode_on_disk: true,
        persistent_acls: false,
        read_only_volume: !caps.writable,
        file_info_timeout: 0,
        flush_and_purge_on_cleanup: true,
        irp_timeout: 60000,
    }
}

/// The name of the filesystem.
pub fn filesystem_name() -> (name: &'static str)
    ensures
        name@ == "ShellCanvas"@,
{
    "ShellCanvas"
}

/// The line on the error stream that says that the drive is in place.
pub fn ready_line() -> (line: &'static str)
    ensures
        line@ == "SHELLCANVAS_BRIDGE_READY"@,
{
    "SHELLCANVAS_BRIDGE_READY"
}

/// Which reply the session waits for.
#[derive(Clone, Copy, Debug, PartialEq, Eq, Structural)]
pub enum Exchange {
    Ready,
    Poll,
    Detached,
    DetachFailed,
}

pub enum RunStep {
    /// Mount and start with these parameters, then report it.
    Mount { parameters: VolumeParameters },
    /// Send `operation`, then go on with [`replied`].
    Call { operation: Operation, then: Exchange },
    /// Print the ready line, then wait.
    Announce,
    /// Sleep for a second, then poll.
    Wait,
    /// Ask the mount gate, then go on with [`asked`].
    AskGate,
    /// Unmount and stop, then report it.
    Unmount,
    /// End, with what to tell where it did not go well. With `unmount` the drive
    /// is unmounted and stopped first.
    Done { unmount: bool, result: Result<(), String> },
}

pub enum RunView {
    Mount { parameters: VolumeParameters },
    Call { operation: OperationView, then: Exchange },
    Announce,
    Wait,
    AskGate,
    Unmount,
    Done { unmount: bool, result: Result<(), Seq<char>> },
}

impl View for RunStep {
    type V = RunView;

    open spec fn view(&self) -> RunView {
        match *self {
            RunStep::Mount { parameters } => RunView::Mount { parameters },
            RunStep::Call { operation, then } => RunView::Call { operation: operation@, then },
            RunStep::Announce => RunView::Announce,
            RunStep::Wait => RunView::Wait,
            RunStep::AskGate => RunView::AskGate,
            RunStep::Unmount => RunView::Unmount,
            RunStep::Done { unmount, result } => RunView::Done {
                unmount,
                result: match result {
                    Ok(_) => Ok(()),
                    Err(text) => Err(text@),
                },
            },
        }
    }
}

/// Telling the granting side of an event.
pub open spec fn report(event: EventView, then: Exchange) -> RunView {
    RunView::Call { operation: OperationView::Report { event }, then }
}

/// What a reply leads to. A lost connection, or a reply that makes no sense,
/// takes the drive away and ends the session with a failure.
pub open spec fn after_reply(then: Exchange, reply: ReplyView) -> RunView {
    match then {
        Exchange::Poll => match reply {
            Ok(ValueView::Directive(BridgeDirective::Continue)) => RunView::Wait,
            Ok(ValueView::Directive(BridgeDirective::Detach)) => RunView::AskGate,
            Ok(_) => RunView::Done {
                unmount: true,
                result: Err("Invalid filesystem lifecycle reply"@),
            },
            Err(e) => RunView::Done {
                unmount: true,
                result: Err("Filesystem connection lost: "@ + e.message),
            },
        },
        _ => match reply {
            Err(e) => RunView::Done { unmount: false, result: Err(e.message) },
            Ok(_) => match then {
                Exchange::Ready => RunView::Announce,
                Exchange::DetachFailed => RunView::Wait,
                _ => RunView::Done { unmount: false, result: Ok(()) },
            },
        },
    }
}

/// What comes after the mount gate was asked; `busy` says why it stays open.
pub open spec fn after_gate(busy: Option<Seq<char>>) -> RunView {
    match busy {
        None => RunView::Unmount,
        Some(message) => report(EventView::DetachFailed { message }, Exchange::DetachFailed),
    }
}

/// Starts an attachment.
pub fn run(caps: FsCapabilities) -> (step: RunStep)
    ensures
        step@ == (RunView::Mount { parameters: parameters_for(caps) }),
{
    RunStep::Mount {
        parameters: VolumeParameters {
            sector_size: 512,
            sectors_per_allocation_unit: 8,
            max_component_length: 255,
            case_sensitive_search: true,
            case_preserved_names: true,
            unicode_on_disk: true,
            persistent_acls: false,
            read_only_volume: !caps.writable,
            file_info_timeout: 0,
            flush_and_purge_on_cleanup: true,
            irp_timeout: 60000,
        },
    }
}

/// Goes on once the drive is in place.
pub fn mounted() -> (step: RunStep)
    ensures
        step@ == report(EventView::Ready, Exchange::Ready),
{
    RunStep::Call {
        operation: Operation::Report { event: BridgeEvent::Ready },
        then: Exchange::Ready,
    }
}

/// Goes on with the reply to the pending request.
pub fn replied(then: Exchange, reply: FsResult<Value>) -> (step: RunStep)
    ensures
        step@ == after_reply(then, reply_view(reply)),
{
    if then == Exchange::Poll {
        return match reply {
            Ok(Value::Directive(directive)) => match directive {
                BridgeDirective::Continue => RunStep::Wait,
                BridgeDirective::Detach => RunStep::AskGate,
            },
            Ok(_) => RunStep::Done {
                unmount: true,
                result: Err("Invalid filesystem lifecycle reply".to_owned()),
            },
            Err(e) => RunStep::Done {
                unmount: true,
                result: Err(joined("Filesystem connection lost: ", e.message.as_str())),
            },
        };
    }
    match reply {
        Err(e) => RunStep::Done { unmount: false, result: Err(e.message) },
        Ok(_) => match then {
            Exchange::Ready => RunStep::Announce,
            Exchange::DetachFailed => RunStep::Wait,
            _ => RunStep::Done { unmount: false, result: Ok(()) },
        },
    }
}

/// Goes on after a second.
pub fn woken() -> (step: RunStep)
    ensures
        step@ == (RunView::Call { operation: OperationView::Poll, then: Exchange::Poll }),
{
    RunStep::Call { operation: Operation::Poll, then: Exchange::Poll }
}

/// Goes on with the mount gate's answer. A busy drive is explained, and it stays.
pub fn asked(result: Result<(), String>) -> (step: RunStep)
    ensures
        step@ == after_gate(
            match result {
                Ok(_) => None,
                Err(message) => Some(message@),
            },
        ),
{
    match result {
        Ok(_) => RunStep::Unmount,
        Err(message) => RunStep::Call {
            operation: Operation::Report { event: BridgeEvent::DetachFailed { message } },
            then: Exchange::DetachFailed,
        },
    }
}

/// Goes on once the drive is gone.
pub fn unmounted() -> (step: RunStep)
    ensures
        step@ == report(EventView::Detached, Exchange::Detached),
{
    RunStep::Call {
        operation: Operation::Report { event: BridgeEvent::Detached },
        then: Exchange::Detached,
    }
}

/// A drive whose detach was refused stays: once the granting side knows, the
/// session waits as before.
pub proof fn law_a_refused_detach_keeps_the_drive(reply: ReplyView)
    ensures
        reply is Ok ==> after_reply(Exchange::DetachFailed, reply) == RunView::Wait,
{
}

/// A lost connection is never taken for a successful end, and it takes the drive
/// away.
pub proof fn law_a_lost_connection_is_a_failure(reply: ReplyView)
    ensures
        reply is Err ==> match after_reply(Exchange::Poll, reply) {
            RunView::Done { unmount, result } => unmount && result is Err,
            _ => false,
        },
{
}

/// A drive tells names apart by case and keeps them, takes names of 255 characters,
/// caches neither attributes nor contents past a close, keeps no access control, and
/// can be written exactly if the root can.
pub proof fn law_drives_are_as_safe_as_the_root(caps: FsCapabilities)
    ensures
        ({
            let volume = parameters_for(caps);
            &&& volume.read_only_volume <==> !caps.writable
            &&& volume.case_sensitive_search && volume.case_preserved_names
                && volume.unicode_on_disk
            &&& !volume.persistent_acls
            &&& volume.file_info_timeout == 0 && volume.flush_and_purge_on_cleanup
            &&& volume.max_component_length == 255
            &&& volume.sector_size * volume.sectors_per_allocation_unit
                == crate::windows::ALLOCATION_UNIT
            &&& volume.sector_size == 512 && volume.irp_timeout == 60000
        }),
{
}

/// The life of a drive: once the granting side knows that it is ready, the drive is
/// announced; a directive to go on waits, and one to detach asks the mount gate. Any
/// other answer to a poll takes the drive away and fails. A report that is not taken
/// ends the session with its reason; a reported detach ends it well.
pub proof fn law_the_life_of_a_drive(value: ValueView, error: crate::error::FsErrorView)
    ensures
        after_reply(Exchange::Ready, Ok(value)) == RunView::Announce,
        after_reply(Exchange::DetachFailed, Ok(value)) == RunView::Wait,
        after_reply(Exchange::Detached, Ok(value)) == (RunView::Done {
            unmount: false,
            result: Ok(()),
        }),
        after_reply(Exchange::Ready, Err(error)) == (RunView::Done {
            unmount: false,
            result: Err(error.message),
        }),
        after_reply(Exchange::Detached, Err(error)) == (RunView::Done {
            unmount: false,
            result: Err(error.message),
        }),
        after_reply(Exchange::DetachFailed, Err(error)) == (RunView::Done {
            unmount: false,
            result: Err(error.message),
        }),
        after_reply(
            Exchange::Poll,
            Ok(ValueView::Directive(BridgeDirective::Continue)),
        ) == RunView::Wait,
        after_reply(
            Exchange::Poll,
            Ok(ValueView::Directive(BridgeDirective::Detach)),
        ) == RunView::AskGate,
        value !is Directive ==> (after_reply(Exchange::Poll, Ok(value)) matches RunView::Done {
            unmount,
            result,
        } && unmount && result is Err),
        after_reply(Exchange::Poll, Err(error)) == (RunView::Done {
            unmount: true,
            result: Err("Filesystem connection lost: "@ + error.message),
        }),
{
}

/// What is reported is the event that happened, to the granting side.
pub proof fn law_reports_tell_the_event(event: EventView, then: Exchange)
    ensures
        report(event, then) matches RunView::Call { operation, then: next } && operation == (
        OperationView::Report { event }) && next == then,
{
}

/// A drive is unmounted only where the mount gate has closed; a busy one stays, and
/// the granting side is told why.
pub proof fn law_a_busy_drive_stays(message: Seq<char>)
    ensures
        after_gate(None) == RunView::Unmount,
        after_gate(Some(message)) matches RunView::Call { operation, then } && operation == (
        OperationView::Report { event: EventView::DetachFailed { message } }) && then
            == Exchange::DetachFailed,
{
}

} // verus!
