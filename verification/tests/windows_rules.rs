use shellcanvas_drive_bridge::error::{FsError, FsErrorKind};
use shellcanvas_drive_bridge::metadata::{FsKind, FsMetadata};
use shellcanvas_drive_bridge::path::MountPath;
use shellcanvas_drive_bridge::windows::{fill, failure, timestamp, unix_timestamp, NtStatus};
use shellcanvas_drive_bridge::windows_attributes::{
    attributes, creation_attributes, permissions, ARCHIVE, DIRECTORY, NORMAL, READONLY,
};
use shellcanvas_drive_bridge::windows_drives::{
    is_drive_letter, network_reserved, reserved, NetworkStatus, Reservation,
};
use shellcanvas_drive_bridge::windows_handles::{
    blocks_detach, FlushAllStep, OpenHandle, OpenHandles,
};
use shellcanvas_drive_bridge::windows_times::{
    filetime, unix_seconds, validate_unsupported_times, EPOCH,
};
use shellcanvas_drive_bridge::wire::{Operation, Value};

#[test]
fn absent_and_out_of_range_times_are_not_fabricated() {
    assert_eq!(filetime(None), 0);
    assert_eq!(filetime(Some(u64::MAX)), 0);
    assert_eq!(filetime(Some(0)), EPOCH);
    assert_eq!(unix_seconds(0).unwrap(), None);
    assert_eq!(unix_seconds(EPOCH).unwrap(), Some(0));
    assert!(unix_seconds(EPOCH - 1).is_err());
    assert!(unix_seconds(u64::MAX).is_err());
}

#[test]
fn seconds_roundtrip_and_unsupported_fields_fail() {
    let seconds = 1_600_000_123;
    assert_eq!(
        unix_seconds(filetime(Some(seconds))).unwrap(),
        Some(seconds)
    );
    assert_eq!(
        unix_seconds(filetime(Some(seconds)) + 9_999_999).unwrap(),
        Some(seconds)
    );
    assert!(validate_unsupported_times(0, 0).is_ok());
    assert!(validate_unsupported_times(EPOCH, 0).is_err());
    assert!(validate_unsupported_times(0, EPOCH).is_err());
}

#[test]
fn times_meet_their_limits_exactly() {
    let last = (i64::MAX as u64 - EPOCH) / 10_000_000;
    assert_eq!(filetime(Some(last)), last * 10_000_000 + EPOCH);
    assert_eq!(filetime(Some(last + 1)), 0);
    assert_eq!(unix_seconds(i64::MAX as u64).unwrap(), Some(last));
    let error = unix_seconds(i64::MAX as u64 + 1).unwrap_err();
    assert_eq!(error.kind, FsErrorKind::Unsupported);
    assert_eq!(
        error.message,
        "Timestamp is outside the portable provider's Unix time range"
    );
    assert_eq!(
        validate_unsupported_times(1, 1).unwrap_err().message,
        "This provider cannot set file creation or metadata-change time"
    );
}

#[test]
fn saturating_timestamps_keep_their_rounding() {
    assert_eq!(timestamp(None), 116_444_736_000_000_000);
    assert_eq!(timestamp(Some(1)), 116_444_736_010_000_000);
    assert_eq!(timestamp(Some(u64::MAX)), u64::MAX);
    assert_eq!(unix_timestamp(0), None);
    assert_eq!(unix_timestamp(u64::MAX), None);
    assert_eq!(unix_timestamp(1), Some(0));
    assert_eq!(unix_timestamp(116_444_736_019_999_999), Some(1));
    assert_eq!(unix_timestamp(timestamp(Some(1_600_000_123))), Some(1_600_000_123));
}

fn file(mode: Option<u32>) -> FsMetadata {
    FsMetadata {
        kind: FsKind::File,
        size: 3,
        accessed: None,
        modified: None,
        permissions: mode,
    }
}

#[test]
fn readonly_roundtrip_never_grants_group_or_other_write() {
    assert_eq!(attributes(&file(Some(0o755))), NORMAL);
    assert_eq!(
        permissions(&file(Some(0o755)), READONLY).unwrap(),
        Some(0o555)
    );
    assert_eq!(attributes(&file(Some(0o555))), READONLY);
    assert_eq!(
        permissions(&file(Some(0o555)), NORMAL).unwrap(),
        Some(0o755)
    );
    assert_eq!(
        permissions(&file(Some(0o444)), NORMAL).unwrap(),
        Some(0o644)
    );
    assert_eq!(permissions(&file(Some(0o444)), u32::MAX).unwrap(), None);
    assert_eq!(permissions(&file(Some(0o644)), NORMAL).unwrap(), None);
}

#[test]
fn unsupported_changes_fail_before_changing_permissions() {
    for flag in [2, 4, 32, 256, 4096] {
        assert_eq!(
            permissions(&file(Some(0o644)), flag | READONLY)
                .unwrap_err()
                .kind,
            FsErrorKind::Unsupported
        );
    }
    assert!(permissions(&file(None), READONLY).is_err());
    assert!(permissions(&file(Some(0o4755)), READONLY).is_err());
    let mut directory = file(Some(0o555));
    directory.kind = FsKind::Directory;
    assert_eq!(attributes(&directory), DIRECTORY);
    assert!(permissions(&directory, DIRECTORY | READONLY).is_err());
}

#[test]
fn every_refused_attribute_change_says_why() {
    assert_eq!(
        permissions(&file(Some(0o644)), 2).unwrap_err().message,
        "This provider cannot persist Windows hidden, system, archive or other DOS attributes"
    );
    assert_eq!(
        permissions(&file(None), READONLY).unwrap_err().message,
        "Remote permissions are unavailable"
    );
    assert_eq!(
        permissions(&file(Some(0o4755)), READONLY).unwrap_err().message,
        "Change special Unix permissions on the remote host"
    );
    let mut link = file(Some(0o777));
    link.kind = FsKind::Symlink;
    assert_eq!(attributes(&link), NORMAL);
    assert_eq!(permissions(&link, NORMAL).unwrap(), None);
    assert_eq!(
        permissions(&link, READONLY).unwrap_err().message,
        "Read-only attribute changes are supported only for regular files"
    );
}

#[test]
fn creation_drops_the_archive_mark_and_keeps_the_rest() {
    assert_eq!(creation_attributes(ARCHIVE, false).unwrap(), 0);
    assert_eq!(creation_attributes(ARCHIVE | READONLY, false).unwrap(), READONLY);
    assert_eq!(creation_attributes(DIRECTORY, true).unwrap(), DIRECTORY);
    assert_eq!(
        creation_attributes(READONLY | DIRECTORY, true).unwrap_err().message,
        "Read-only creation is supported only for regular files"
    );
    assert_eq!(
        creation_attributes(2, false).unwrap_err().kind,
        FsErrorKind::Unsupported
    );
}

#[test]
fn entries_show_whole_allocation_units_and_no_invented_times() {
    let mut meta = file(Some(0o644));
    meta.size = 4097;
    meta.modified = Some(1_600_000_123);
    let info = fill(&meta);
    assert_eq!(info.file_attributes, NORMAL);
    assert_eq!(info.file_size, 4097);
    assert_eq!(info.allocation_size, 8192);
    assert_eq!(info.creation_time, 0);
    assert_eq!(info.change_time, 0);
    assert_eq!(info.last_access_time, 0);
    assert_eq!(info.last_write_time, EPOCH + 1_600_000_123 * 10_000_000);
    meta.size = u64::MAX;
    assert_eq!(fill(&meta).allocation_size, u64::MAX);
    meta.size = 0;
    assert_eq!(fill(&meta).allocation_size, 0);
    meta.size = 4096;
    assert_eq!(fill(&meta).allocation_size, 4096);
}

#[test]
fn each_error_kind_has_its_own_status() {
    let expected = [
        (FsErrorKind::NotFound, NtStatus::ObjectNameNotFound),
        (FsErrorKind::PermissionDenied, NtStatus::AccessDenied),
        (FsErrorKind::AlreadyExists, NtStatus::ObjectNameCollision),
        (FsErrorKind::NotDirectory, NtStatus::NotADirectory),
        (FsErrorKind::IsDirectory, NtStatus::FileIsADirectory),
        (FsErrorKind::NotEmpty, NtStatus::DirectoryNotEmpty),
        (FsErrorKind::InvalidInput, NtStatus::ObjectNameInvalid),
        (FsErrorKind::Unsupported, NtStatus::NotSupported),
        (FsErrorKind::ReadOnly, NtStatus::MediaWriteProtected),
        (FsErrorKind::Offline, NtStatus::DeviceNotConnected),
        (FsErrorKind::TimedOut, NtStatus::IoTimeout),
        (FsErrorKind::Io, NtStatus::IoDeviceError),
    ];
    for (kind, status) in expected {
        assert_eq!(failure(FsError::new(kind, "")), status);
    }
}

#[test]
fn passive_directory_handles_do_not_block_but_files_and_mutators_do() {
    assert!(!blocks_detach(
        true,
        0x1 | 0x8 | 0x20 | 0x80 | 0x20000 | 0x100000
    ));
    assert!(blocks_detach(false, 0));
    assert!(blocks_detach(false, 0x1));
    for access in [0x2, 0x4, 0x10, 0x100, 0x10000, 0x40000, 0x80000] {
        assert!(blocks_detach(true, access));
    }
}

fn path(parts: &[&str]) -> MountPath {
    parts
        .iter()
        .fold(MountPath::root(), |p, c| p.child(c).unwrap())
}

fn opened(
    registry: &mut OpenHandles,
    parts: &[&str],
    id: Option<u64>,
    writable: bool,
) -> u64 {
    registry.register(OpenHandle {
        path: path(parts),
        file: id,
        writable,
    })
}

#[test]
fn rename_updates_aliases_and_descendants_only_after_success() {
    let mut registry = OpenHandles::default();
    let directory = opened(&mut registry, &["old"], None, false);
    let alias = opened(&mut registry, &["old"], None, false);
    let child = opened(&mut registry, &["old", "nested", "file"], Some(1), true);
    let sibling = opened(&mut registry, &["older", "file"], Some(2), true);
    let fail = registry.rename(
        &path(&["old"]),
        &path(&["new"]),
        Err(FsError::new(FsErrorKind::PermissionDenied, "denied")),
    );
    assert!(fail.is_err());
    assert_eq!(registry.path(child), path(&["old", "nested", "file"]));
    registry
        .rename(&path(&["old"]), &path(&["new"]), Ok(()))
        .unwrap();
    assert_eq!(registry.path(directory), path(&["new"]));
    assert_eq!(registry.path(alias), path(&["new"]));
    assert_eq!(registry.path(child), path(&["new", "nested", "file"]));
    assert_eq!(registry.path(sibling), path(&["older", "file"]));
    assert_eq!(registry.file(child), Some(1));
}

#[test]
fn volume_flush_attempts_all_writers_and_reports_failures() {
    let mut registry = OpenHandles::default();
    let _first = opened(&mut registry, &["first"], Some(1), true);
    let _read = opened(&mut registry, &["reader"], Some(2), false);
    let _second = opened(&mut registry, &["second"], Some(3), true);
    let closed = opened(&mut registry, &["closed"], Some(4), true);
    registry.close_file(closed);
    let dropped = opened(&mut registry, &["dropped"], Some(5), true);
    registry.release(dropped);
    let mut seen = Vec::new();
    let mut step = registry.flush();
    let result = loop {
        match step {
            FlushAllStep::Call {
                operation: Operation::Flush { handle },
                then,
            } => {
                seen.push(handle);
                step = then.resume(if handle == 1 {
                    Err(FsError::new(FsErrorKind::Io, "flush failed"))
                } else {
                    Ok(Value::Unit)
                });
            }
            FlushAllStep::Call { .. } => panic!("Unexpected operation"),
            FlushAllStep::Done { result } => break result,
        }
    };
    assert_eq!(seen, vec![1, 3]);
    assert_eq!(result.unwrap_err().message, "flush failed");
}

#[test]
fn the_first_of_several_flush_failures_is_reported() {
    let mut registry = OpenHandles::default();
    for id in 1..4 {
        opened(&mut registry, &["file"], Some(id), true);
    }
    let mut step = registry.flush();
    let mut count = 0;
    let result = loop {
        match step {
            FlushAllStep::Call { then, .. } => {
                count += 1;
                step = then.resume(Err(FsError::new(FsErrorKind::Io, &format!("{count}"))));
            }
            FlushAllStep::Done { result } => break result,
        }
    };
    assert_eq!(count, 3);
    assert_eq!(result.unwrap_err().message, "1");
}

#[test]
fn numbers_of_descriptors_are_distinct_and_released() {
    let mut registry = OpenHandles::default();
    let a = opened(&mut registry, &["a"], None, false);
    let b = opened(&mut registry, &["b"], None, false);
    let c = opened(&mut registry, &["c"], None, false);
    assert!(a != b && b != c && a != c);
    registry.release(b);
    assert!(registry.contains(a) && !registry.contains(b) && registry.contains(c));
    let d = opened(&mut registry, &["d"], None, false);
    assert!(d != a && d != c);
    assert_eq!(registry.path(a), path(&["a"]));
    assert_eq!(registry.path(c), path(&["c"]));
    assert_eq!(registry.path(d), path(&["d"]));
}

#[test]
fn drive_letters_are_reserved_by_local_and_remembered_drives() {
    let mask = 0b1101; // A:, C: and D:
    assert!(matches!(reserved("A:", mask, ""), Reservation::Taken));
    assert!(matches!(reserved("B:", mask, ""), Reservation::AskNetwork));
    assert!(matches!(reserved("D:", mask, ""), Reservation::Taken));
    assert!(matches!(reserved("Z:", mask, ""), Reservation::AskNetwork));
    assert!(matches!(reserved("Z:", 1 << 25, ""), Reservation::Taken));
    for status in [
        NetworkStatus::NoError,
        NetworkStatus::MoreData,
        NetworkStatus::ConnectionUnavailable,
    ] {
        assert_eq!(network_reserved(status, ""), Ok(true));
    }
    assert_eq!(network_reserved(NetworkStatus::NotConnected, ""), Ok(false));
    assert_eq!(
        network_reserved(NetworkStatus::Other, "denied"),
        Err("Cannot check network drive reservation: denied".to_owned())
    );
}

#[test]
fn questions_about_drives_that_make_no_sense_are_refused() {
    for target in ["", "C", "c:", "C:\\", "1:", "É:", "CC"] {
        assert!(!is_drive_letter(target));
        match reserved(target, 4, "") {
            Reservation::Refused { message } => assert_eq!(message, "Expected a drive letter"),
            _ => panic!("{target} was taken for a drive"),
        }
    }
    match reserved("C:", 0, "no access") {
        Reservation::Refused { message } => {
            assert_eq!(message, "Unable to enumerate drives: no access")
        }
        _ => panic!("An empty mask was believed"),
    }
}
