use shellcanvas_drive_bridge::bridge_control::{BridgeControl, BridgeDirective, BridgeEvent};
use shellcanvas_drive_bridge::error::{FsError, FsErrorKind, FsResult};
use shellcanvas_drive_bridge::fuse::session::{self, MountOption, Target};
use shellcanvas_drive_bridge::fuse::unmount::{
    linux_command, macos_command, ordinary_unmount, Helper, UnmountStep,
};
use shellcanvas_drive_bridge::metadata::{
    FsCapabilities, FsCreate, FsDirectoryEntry, FsKind, FsMetadata, FsOpenOptions,
};
use shellcanvas_drive_bridge::path::MountPath;
use shellcanvas_drive_bridge::probe;
use shellcanvas_drive_bridge::server::{ProviderCall, Sequence, Server, ServerStep};
use shellcanvas_drive_bridge::windows::session as windows_session;
use shellcanvas_drive_bridge::wire::{Operation, Request, Value, PROTOCOL};

fn caps(writable: bool) -> FsCapabilities {
    FsCapabilities {
        writable,
        atomic_replace: false,
        durable_flush: false,
    }
}

fn lost() -> FsResult<Value> {
    Err(FsError::new(FsErrorKind::Offline, "Bridge connection is closed"))
}

#[test]
fn only_an_existing_empty_directory_is_mounted_at() {
    for (absolute, directory, empty) in [(false, true, true), (true, false, true), (true, true, false)] {
        match session::run(Target { absolute, directory, empty }, caps(true)) {
            session::RunStep::Done { result } => {
                assert_eq!(result.unwrap_err(), "Choose an existing empty local directory")
            }
            _ => panic!("A bad target was mounted at"),
        }
    }
    let good = Target { absolute: true, directory: true, empty: true };
    match session::run(good, caps(false)) {
        session::RunStep::Mount { options } => assert_eq!(
            options,
            [MountOption::FsName, MountOption::NoDev, MountOption::NoSuid, MountOption::Ro]
        ),
        _ => panic!("A good target was refused"),
    }
    match session::run(good, caps(true)) {
        session::RunStep::Mount { options } => assert_eq!(options[3], MountOption::Rw),
        _ => panic!("A good target was refused"),
    }
    assert_eq!(session::filesystem_name(), "ShellCanvas");
    assert_eq!(session::ready_line(), "SHELLCANVAS_BRIDGE_READY");
}

/// Runs a FUSE session against a control, and says what happened.
fn run(control: &mut BridgeControl, detaches: &[Result<(), &str>], seconds: usize) -> (Vec<&'static str>, Result<(), String>) {
    let mut events = Vec::new();
    let mut detaches = detaches.iter();
    let mut left = seconds;
    let mut step = session::mounted();
    loop {
        step = match step {
            session::RunStep::Mount { .. } => panic!("Mounted twice"),
            session::RunStep::Call { operation, then } => {
                let reply = match operation {
                    Operation::Report { event } => {
                        events.push(match &event {
                            BridgeEvent::Ready => "ready",
                            BridgeEvent::Detached => "detached",
                            BridgeEvent::DetachFailed { .. } => "failed",
                            BridgeEvent::Warning { .. } => "warning",
                        });
                        control.report(event).map(|_| Value::Unit)
                    }
                    Operation::Poll => control.poll().map(Value::Directive),
                    _ => lost(),
                };
                session::replied(then, reply)
            }
            session::RunStep::Announce => session::woken(false),
            session::RunStep::Wait => {
                if left == 0 {
                    session::woken(true)
                } else {
                    left -= 1;
                    let _ = control.request_detach();
                    session::woken(false)
                }
            }
            session::RunStep::Unmount => {
                events.push("unmount");
                session::unmounted(detaches.next().copied().unwrap().map_err(|e| e.to_owned()))
            }
            session::RunStep::Join => session::joined(),
            session::RunStep::Done { result } => return (events, result),
        };
    }
}

#[test]
fn a_failed_detach_keeps_the_mount_until_one_succeeds() {
    let mut control = BridgeControl::default();
    let (events, result) = run(&mut control, &[Err("busy"), Err("busy"), Ok(())], 9);
    assert_eq!(
        events,
        ["ready", "unmount", "failed", "unmount", "failed", "unmount", "detached"]
    );
    assert!(result.is_ok());
}

#[test]
fn a_mount_that_the_kernel_lets_go_is_reported() {
    let mut control = BridgeControl::default();
    let (events, result) = run(&mut control, &[], 0);
    assert_eq!(events, ["ready", "detached"]);
    assert!(result.is_ok());
}

#[test]
fn a_session_ends_when_the_granting_side_is_gone() {
    match session::replied(session::Exchange::Poll, lost()) {
        session::RunStep::Done { result } => assert!(result.is_ok()),
        _ => panic!("The session went on"),
    }
    match session::replied(session::Exchange::Ready, lost()) {
        session::RunStep::Done { result } => {
            assert_eq!(result.unwrap_err(), "Bridge connection is closed")
        }
        _ => panic!("The session went on"),
    }
}

#[test]
fn the_first_helper_there_is_unmounts_without_force() {
    let command = linux_command([false, true, true, false]).unwrap();
    assert_eq!(command.program, "/bin/fusermount3");
    assert_eq!(command.arguments, ["-u", "--"]);
    assert_eq!(linux_command([true; 4]).unwrap().program, "/usr/bin/fusermount3");
    assert_eq!(linux_command([false, false, true, true]).unwrap().program, "/usr/bin/fusermount");
    assert_eq!(linux_command([false, false, false, true]).unwrap().program, "/bin/fusermount");
    assert_eq!(
        linux_command([false; 4]).unwrap_err(),
        "Install your distribution's FUSE mount helper before detaching"
    );
    assert_eq!(macos_command().program, "/sbin/umount");
    assert!(macos_command().arguments.is_empty());
}

#[test]
fn only_a_helper_that_succeeded_unmounts() {
    let ended = |success| Helper::Ended { success, status: "exit status: 1".to_owned() };
    match ordinary_unmount(ended(true)) {
        UnmountStep::Done { result } => assert!(result.is_ok()),
        _ => panic!("A finished helper was waited for"),
    }
    match ordinary_unmount(ended(false)) {
        UnmountStep::Done { result } => assert_eq!(
            result.unwrap_err(),
            "The system did not confirm detach (exit status: 1). Close local files and folders using it, then try again."
        ),
        _ => panic!("A finished helper was waited for"),
    }
    match ordinary_unmount(Helper::NotStarted { error: "denied".to_owned() }) {
        UnmountStep::Done { result } => {
            assert_eq!(result.unwrap_err(), "Cannot start the system unmount helper: denied")
        }
        _ => panic!("A missing helper was waited for"),
    }
    match ordinary_unmount(Helper::Unknown { error: "lost".to_owned() }) {
        UnmountStep::Done { result } => assert_eq!(result.unwrap_err(), "lost"),
        _ => panic!("A lost helper was waited for"),
    }
    assert!(matches!(ordinary_unmount(Helper::Running { elapsed: 14_999 }), UnmountStep::Pause));
    match ordinary_unmount(Helper::Running { elapsed: 15_000 }) {
        UnmountStep::Kill { message } => assert_eq!(
            message,
            "Unmount helper timed out. Check local file use and the mount's status before retrying."
        ),
        _ => panic!("A late helper was waited for"),
    }
}

#[test]
fn a_windows_session_follows_directives() {
    match windows_session::run(caps(false)) {
        windows_session::RunStep::Mount { parameters } => {
            assert!(parameters.read_only_volume);
            assert_eq!(parameters.sector_size, 512);
            assert_eq!(parameters.irp_timeout, 60000);
        }
        _ => panic!("Nothing was mounted"),
    }
    assert!(matches!(
        windows_session::replied(
            windows_session::Exchange::Poll,
            Ok(Value::Directive(BridgeDirective::Detach))
        ),
        windows_session::RunStep::AskGate
    ));
    assert!(matches!(
        windows_session::replied(
            windows_session::Exchange::Poll,
            Ok(Value::Directive(BridgeDirective::Continue))
        ),
        windows_session::RunStep::Wait
    ));
    assert!(matches!(windows_session::asked(Ok(())), windows_session::RunStep::Unmount));
    match windows_session::asked(Err("busy".to_owned())) {
        windows_session::RunStep::Call {
            operation: Operation::Report { event: BridgeEvent::DetachFailed { message } },
            then,
        } => {
            assert_eq!(message, "busy");
            assert!(matches!(
                windows_session::replied(then, Ok(Value::Unit)),
                windows_session::RunStep::Wait
            ));
        }
        _ => panic!("A refused detach was not explained"),
    }
    match windows_session::replied(windows_session::Exchange::Poll, lost()) {
        windows_session::RunStep::Done { unmount, result } => {
            assert!(unmount);
            assert_eq!(
                result.unwrap_err(),
                "Filesystem connection lost: Bridge connection is closed"
            );
        }
        _ => panic!("A lost connection was survived"),
    }
    match windows_session::replied(windows_session::Exchange::Poll, Ok(Value::Unit)) {
        windows_session::RunStep::Done { unmount, result } => {
            assert!(unmount);
            assert_eq!(result.unwrap_err(), "Invalid filesystem lifecycle reply");
        }
        _ => panic!("An odd reply was taken"),
    }
}

/// Answers a probe with `answer`, and says how it ended.
fn probed(mut answer: impl FnMut(&Operation) -> FsResult<Value>) -> (usize, Result<(), String>) {
    let mut step = probe::run();
    let mut count = 0;
    loop {
        match step {
            probe::ProbeStep::Call { operation, then } => {
                count += 1;
                let reply = answer(&operation);
                step = probe::replied(then, reply);
            }
            probe::ProbeStep::Done { result } => return (count, result),
        }
    }
}

fn healthy(operation: &Operation) -> FsResult<Value> {
    match operation {
        Operation::Capabilities => Ok(Value::Capabilities(caps(true))),
        Operation::Open { path, options } => {
            assert_eq!(path.components(), &["bridge-test.txt"]);
            assert_eq!(options.create, FsCreate::CreateNew);
            Ok(Value::Handle(5))
        }
        Operation::Write { handle, offset, bytes } => {
            assert_eq!((*handle, *offset), (5, (1u64 << 32) + 19));
            assert_eq!(bytes, b"pipe roundtrip");
            Ok(Value::Unit)
        }
        Operation::Read { length: 14, .. } => Ok(Value::Data(b"pipe roundtrip".to_vec())),
        Operation::Read { .. } => Err(FsError::new(FsErrorKind::Offline, "closed")),
        Operation::FileMetadata { .. } => Ok(Value::Metadata(FsMetadata {
            kind: FsKind::File,
            size: 12,
            accessed: None,
            modified: None,
            permissions: None,
        })),
        Operation::SetFileMetadata { metadata, .. } => {
            assert_eq!(metadata.size, Some(12));
            Ok(Value::Unit)
        }
        Operation::Rename { from, to, replace } => {
            assert_eq!(from.components(), &["bridge-test.txt"]);
            assert_eq!(to.components(), &["renamed.txt"]);
            assert!(!replace);
            Ok(Value::Unit)
        }
        Operation::Remove { path, directory } => {
            assert_eq!(path.components(), &["renamed.txt"]);
            assert!(!directory);
            Ok(Value::Unit)
        }
        _ => Ok(Value::Unit),
    }
}

#[test]
fn a_probe_passes_on_a_healthy_transport() {
    let (count, result) = probed(healthy);
    assert_eq!(count, 11);
    assert!(result.is_ok());
    assert_eq!(probe::pass_line(), "SHELLCANVAS_BRIDGE_TRANSPORT_PASS");
}

#[test]
fn a_probe_notices_each_fault() {
    let fault = |wrong: &dyn Fn(&Operation) -> Option<FsResult<Value>>| {
        probed(|operation| wrong(operation).unwrap_or_else(|| healthy(operation)))
            .1
            .unwrap_err()
    };
    assert_eq!(
        fault(&|o| matches!(o, Operation::Capabilities).then(|| Ok(Value::Capabilities(caps(false))))),
        "Writable disposable grant required"
    );
    assert_eq!(
        fault(&|o| matches!(o, Operation::Open { .. }).then(|| Ok(Value::Unit))),
        "Expected a handle"
    );
    assert_eq!(
        fault(&|o| matches!(o, Operation::Read { length: 14, .. }).then(|| Ok(Value::Data(b"pipe roundtriP".to_vec())))),
        "Read/write bytes differ"
    );
    assert_eq!(
        fault(&|o| matches!(o, Operation::FileMetadata { .. }).then(|| Ok(Value::Unit))),
        "Handle metadata differs after rename"
    );
    assert_eq!(
        fault(&|o| matches!(o, Operation::Read { length: 1, .. }).then(|| Ok(Value::Data(Vec::new())))),
        "Closed handle accepted"
    );
    assert_eq!(
        fault(&|o| matches!(o, Operation::Flush { .. }).then(lost)),
        "Bridge connection is closed"
    );
}

fn done(step: ServerStep) -> FsResult<Value> {
    match step {
        ServerStep::Done { result } => result,
        ServerStep::Ask { .. } => panic!("The provider was asked"),
    }
}

fn ask(server: &mut Server, operation: Operation, reply: FsResult<Value>) -> FsResult<Value> {
    match server.dispatch(operation) {
        ServerStep::Ask { then, .. } => done(server.answer(then, reply)),
        ServerStep::Done { result } => result,
    }
}

fn reading() -> FsOpenOptions {
    FsOpenOptions {
        read: true,
        write: false,
        create: FsCreate::OpenExisting,
        truncate: false,
    }
}

#[test]
fn a_server_gives_up_every_handle_when_the_pipes_end() {
    let mut server = Server::new();
    for name in ["a", "b", "c"] {
        let path = MountPath::root().child(name).unwrap();
        ask(&mut server, Operation::Open { path, options: reading() }, Ok(Value::Unit)).unwrap();
    }
    let path = MountPath::root();
    ask(&mut server, Operation::OpenDirectory { path }, Ok(Value::Unit)).unwrap();
    ask(&mut server, Operation::Close { handle: 2 }, Ok(Value::Unit)).unwrap();
    let mut released = server.close();
    released.files.sort();
    assert_eq!(released.files, [1, 3]);
    assert_eq!(released.directories, [4]);
    let read = Operation::Read { handle: 1, offset: 0, length: 1 };
    assert_eq!(
        done(server.dispatch(read)).unwrap_err().message,
        "Unknown or closed file handle"
    );
    assert!(server.close().files.is_empty());
    assert!(server.close().directories.is_empty());
}

#[test]
fn a_server_passes_requests_on_open_handles_only() {
    let mut server = Server::new();
    let path = MountPath::root().child("a").unwrap();
    let opened = ask(
        &mut server,
        Operation::Open { path: path.clone(), options: reading() },
        Ok(Value::Unit),
    );
    let handle = match opened.unwrap() {
        Value::Handle(handle) => handle,
        _ => panic!("No handle"),
    };
    assert_eq!(handle, 1);
    let refused = ask(
        &mut server,
        Operation::Open { path: path.clone(), options: reading() },
        Err(FsError::new(FsErrorKind::NotFound, "gone")),
    );
    assert_eq!(refused.unwrap_err().kind, FsErrorKind::NotFound);
    match ask(&mut server, Operation::OpenDirectory { path: path.clone() }, Ok(Value::Unit)).unwrap() {
        Value::Handle(directory) => assert_eq!(directory, 3),
        _ => panic!("No handle"),
    }
    let options = FsOpenOptions { read: false, ..reading() };
    assert_eq!(
        done(server.dispatch(Operation::Open { path, options })).unwrap_err().message,
        "Invalid file open options"
    );
    let read = |length| Operation::Read { handle, offset: 0, length };
    match ask(&mut server, read(2), Ok(Value::Data(vec![1, 2]))).unwrap() {
        Value::Data(bytes) => assert_eq!(bytes, [1, 2]),
        _ => panic!("No data"),
    }
    assert_eq!(
        ask(&mut server, read(2), Ok(Value::Data(vec![1, 2, 3]))).unwrap_err().message,
        "Provider exceeded requested read length"
    );
    assert_eq!(
        done(server.dispatch(read(32_769))).unwrap_err().message,
        "Read exceeds chunk size"
    );
    let big = Operation::Write { handle, offset: 0, bytes: vec![0; 32_769] };
    assert_eq!(done(server.dispatch(big)).unwrap_err().message, "Write exceeds chunk size");
    ask(&mut server, Operation::Close { handle }, Ok(Value::Unit)).unwrap();
    assert_eq!(
        done(server.dispatch(Operation::Flush { handle })).unwrap_err().message,
        "Unknown or closed file handle"
    );
    assert!(matches!(done(server.dispatch(Operation::Close { handle })), Ok(Value::Unit)));
}

#[test]
fn a_server_lists_directories_in_bounded_pages() {
    let mut server = Server::new();
    ask(&mut server, Operation::OpenDirectory { path: MountPath::root() }, Ok(Value::Unit)).unwrap();
    let entries: Vec<FsDirectoryEntry> = (0..70)
        .map(|i| FsDirectoryEntry {
            name: format!("{i}"),
            metadata: FsMetadata {
                kind: FsKind::File,
                size: 0,
                accessed: None,
                modified: None,
                permissions: None,
            },
        })
        .collect();
    let mut replies = vec![Ok(Value::Entries(Vec::new())), Ok(Value::Entries(entries))];
    let mut seen = Vec::new();
    let mut pages = Vec::new();
    loop {
        let step = server.dispatch(Operation::ReadDirectory { handle: 1 });
        let result = match step {
            ServerStep::Ask { then, .. } => done(server.answer(then, replies.pop().unwrap())),
            ServerStep::Done { result } => result,
        };
        match result.unwrap() {
            Value::Entries(page) => {
                pages.push(page.len());
                if page.is_empty() {
                    break;
                }
                seen.extend(page.into_iter().map(|e| e.name));
            }
            _ => panic!("No entries"),
        }
    }
    assert_eq!(pages, [64, 6, 0]);
    assert_eq!(seen, (0..70).map(|i| format!("{i}")).collect::<Vec<_>>());
    ask(&mut server, Operation::CloseDirectory { handle: 1 }, Ok(Value::Unit)).unwrap();
    assert_eq!(
        done(server.dispatch(Operation::ReadDirectory { handle: 1 })).unwrap_err().message,
        "Directory handle is closed"
    );
}

#[test]
fn a_server_answers_lifecycle_requests_itself() {
    let mut server = Server::with_control(BridgeControl::default());
    let ready = Operation::Report { event: BridgeEvent::Ready };
    assert!(matches!(done(server.dispatch(ready)), Ok(Value::Unit)));
    assert!(matches!(
        done(server.dispatch(Operation::Poll)),
        Ok(Value::Directive(BridgeDirective::Continue))
    ));
    let again = Operation::Report { event: BridgeEvent::Ready };
    assert!(done(server.dispatch(again)).is_err());
    let gone = Operation::Report { event: BridgeEvent::Detached };
    assert!(done(server.dispatch(gone)).is_ok());
    assert_eq!(done(server.dispatch(Operation::Poll)).unwrap_err().message, "Attachment is retired");
    match server.dispatch(Operation::Capabilities) {
        ServerStep::Ask { call: ProviderCall::CheckAvailable, then } => {
            match server.answer(then, Ok(Value::Unit)) {
                ServerStep::Ask {
                    call: ProviderCall::Forward { operation: Operation::Capabilities },
                    then,
                } => {
                    let caps = done(server.answer(then, Ok(Value::Capabilities(caps(true)))));
                    assert!(matches!(caps, Ok(Value::Capabilities(_))));
                }
                _ => panic!("Capabilities were not asked for"),
            }
        }
        _ => panic!("The provider was not asked"),
    }
}

#[test]
fn request_numbers_must_grow() {
    let mut sequence = Sequence::new();
    let request = |version, id| Request { version, id, operation: Operation::Poll };
    assert!(sequence.accept(&request(PROTOCOL, 0)).is_err());
    assert!(sequence.accept(&request(PROTOCOL, 3)).is_ok());
    assert!(sequence.accept(&request(PROTOCOL, 3)).is_err());
    assert!(sequence.accept(&request(PROTOCOL + 1, 4)).is_err());
    assert!(sequence.accept(&request(PROTOCOL, 4)).is_ok());
    assert_eq!(
        sequence.accept(&request(PROTOCOL, 1)).unwrap_err(),
        "Invalid bridge version or request sequence"
    );
    let (reply, stop) = Sequence::conclude(None);
    assert_eq!(reply.unwrap_err().kind, FsErrorKind::TimedOut);
    assert_eq!(stop, Some("Filesystem bridge retired after timeout"));
    let (reply, stop) = Sequence::conclude(Some(Ok(Value::Unit)));
    assert!(reply.is_ok() && stop.is_none());
}
