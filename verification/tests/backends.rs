use shellcanvas_drive_bridge::bridge_control::BridgeEvent;
use shellcanvas_drive_bridge::errno::Errno;
use shellcanvas_drive_bridge::error::{FsError, FsErrorKind, FsResult};
use shellcanvas_drive_bridge::exchange::Step;
use shellcanvas_drive_bridge::fuse::directories::ReaddirStep;
use shellcanvas_drive_bridge::fuse::entries::SetAttr;
use shellcanvas_drive_bridge::fuse::files::{read_answer, write_answer};
use shellcanvas_drive_bridge::fuse::replies::{
    attr_reply, create_reply, entry_reply, open_reply, opendir_reply, OpenReply,
};
use shellcanvas_drive_bridge::fuse::{attr, options, Answer, FileAttr, FileType, HostFlags, TimeOrNow, UnixTime};
use shellcanvas_drive_bridge::inodes::State;
use shellcanvas_drive_bridge::metadata::{
    FsCapabilities, FsCreate, FsDirectoryEntry, FsKind, FsMetadata, FsSetMetadata, FsSpace,
};
use shellcanvas_drive_bridge::path::MountPath;
use shellcanvas_drive_bridge::transfer::{ReadStep, WriteStep};
use shellcanvas_drive_bridge::windows::contexts::{CloseStep, CreateStep, OpenStep};
use shellcanvas_drive_bridge::windows::directories::{ListEnd, ListStep};
use shellcanvas_drive_bridge::windows::entries::deletion_warning;
use shellcanvas_drive_bridge::windows::files::{read_result, volume_label};
use shellcanvas_drive_bridge::windows::{Context, FileInfo, NtResult, NtStatus};
use shellcanvas_drive_bridge::windows_handles::FlushAllStep;
use shellcanvas_drive_bridge::wire::{Operation, Value};
use std::collections::{BTreeMap, HashMap, VecDeque};

struct Item {
    kind: FsKind,
    bytes: BTreeMap<u64, u8>,
    size: u64,
    permissions: Option<u32>,
    accessed: Option<u64>,
    modified: Option<u64>,
}

/// A provider in memory. Directories are listed three entries at a time.
struct Provider {
    items: Vec<Item>,
    names: BTreeMap<Vec<String>, usize>,
    files: HashMap<u64, usize>,
    listings: HashMap<u64, VecDeque<Vec<FsDirectoryEntry>>>,
    next: u64,
    log: Vec<String>,
    refuse: Option<(&'static str, FsErrorKind)>,
    odd: Option<&'static str>,
}

fn key(path: &MountPath) -> Vec<String> {
    path.components().to_vec()
}

fn error(kind: FsErrorKind) -> FsError {
    FsError::new(kind, "refused")
}

impl Provider {
    fn new() -> Self {
        let mut provider = Provider {
            items: Vec::new(),
            names: BTreeMap::new(),
            files: HashMap::new(),
            listings: HashMap::new(),
            next: 100,
            log: Vec::new(),
            refuse: None,
            odd: None,
        };
        provider.add(Vec::new(), FsKind::Directory);
        provider
    }
    fn add(&mut self, name: Vec<String>, kind: FsKind) -> usize {
        self.items.push(Item {
            kind,
            bytes: BTreeMap::new(),
            size: 0,
            permissions: Some(0o644),
            accessed: None,
            modified: None,
        });
        self.names.insert(name, self.items.len() - 1);
        self.items.len() - 1
    }
    fn describe(&self, item: usize) -> FsMetadata {
        let item = &self.items[item];
        FsMetadata {
            kind: item.kind,
            size: item.size,
            accessed: item.accessed,
            modified: item.modified,
            permissions: item.permissions,
        }
    }
    fn item(&self, path: &MountPath) -> FsResult<usize> {
        self.names
            .get(&key(path))
            .copied()
            .ok_or_else(|| error(FsErrorKind::NotFound))
    }
    fn file(&self, handle: u64) -> FsResult<usize> {
        self.files
            .get(&handle)
            .copied()
            .ok_or_else(|| error(FsErrorKind::Offline))
    }
    fn change(&mut self, item: usize, change: FsSetMetadata) {
        let item = &mut self.items[item];
        if let Some(size) = change.size {
            item.size = size;
            item.bytes.retain(|at, _| *at < size);
        }
        item.permissions = change.permissions.or(item.permissions);
        item.accessed = change.accessed.or(item.accessed);
        item.modified = change.modified.or(item.modified);
    }
    fn name_of(operation: &Operation) -> &'static str {
        match operation {
            Operation::Capabilities => "Capabilities",
            Operation::Space { .. } => "Space",
            Operation::Metadata { .. } => "Metadata",
            Operation::Open { .. } => "Open",
            Operation::OpenDirectory { .. } => "OpenDirectory",
            Operation::ReadDirectory { .. } => "ReadDirectory",
            Operation::CloseDirectory { .. } => "CloseDirectory",
            Operation::FileMetadata { .. } => "FileMetadata",
            Operation::Read { .. } => "Read",
            Operation::Write { .. } => "Write",
            Operation::SetFileMetadata { .. } => "SetFileMetadata",
            Operation::Flush { .. } => "Flush",
            Operation::Close { .. } => "Close",
            Operation::SetMetadata { .. } => "SetMetadata",
            Operation::Mkdir { .. } => "Mkdir",
            Operation::Remove { .. } => "Remove",
            Operation::Rename { .. } => "Rename",
            Operation::Report { .. } => "Report",
            Operation::Poll => "Poll",
        }
    }
    fn call(&mut self, operation: Operation) -> FsResult<Value> {
        let name = Self::name_of(&operation);
        self.log.push(name.to_owned());
        if let Some((refused, kind)) = self.refuse {
            if refused == name {
                return Err(error(kind));
            }
        }
        if self.odd == Some(name) {
            return Ok(Value::Unit);
        }
        match operation {
            Operation::Space { .. } => Ok(Value::Space(FsSpace {
                block_size: 4096,
                blocks: 1_000_000,
                blocks_free: 800_000,
                blocks_available: 750_000,
                files: 9,
                files_free: 8,
                name_max: 255,
            })),
            Operation::Metadata { path } => {
                let item = self.item(&path)?;
                Ok(Value::Metadata(self.describe(item)))
            }
            Operation::Open { path, options } => {
                options.validate()?;
                let existing = self.names.get(&key(&path)).copied();
                let item = match (existing, options.create) {
                    (Some(_), FsCreate::CreateNew) => return Err(error(FsErrorKind::AlreadyExists)),
                    (Some(item), _) => item,
                    (None, FsCreate::OpenExisting) => return Err(error(FsErrorKind::NotFound)),
                    (None, _) => self.add(key(&path), FsKind::File),
                };
                if options.truncate {
                    self.change(
                        item,
                        FsSetMetadata {
                            size: Some(0),
                            ..Default::default()
                        },
                    );
                }
                self.next += 1;
                self.files.insert(self.next, item);
                Ok(Value::Handle(self.next))
            }
            Operation::OpenDirectory { path } => {
                let item = self.item(&path)?;
                if self.items[item].kind != FsKind::Directory {
                    return Err(error(FsErrorKind::NotDirectory));
                }
                let parent = key(&path);
                let entries: Vec<(String, usize)> = self
                    .names
                    .iter()
                    .filter(|(name, _)| {
                        name.len() == parent.len() + 1 && name.starts_with(&parent)
                    })
                    .map(|(name, item)| (name[parent.len()].clone(), *item))
                    .collect();
                let pages = entries
                    .chunks(3)
                    .map(|page| {
                        page.iter()
                            .map(|(name, item)| FsDirectoryEntry {
                                name: name.clone(),
                                metadata: self.describe(*item),
                            })
                            .collect()
                    })
                    .collect();
                self.next += 1;
                self.listings.insert(self.next, pages);
                Ok(Value::Handle(self.next))
            }
            Operation::ReadDirectory { handle } => {
                let pages = self
                    .listings
                    .get_mut(&handle)
                    .ok_or_else(|| error(FsErrorKind::Offline))?;
                Ok(Value::Entries(pages.pop_front().unwrap_or_default()))
            }
            Operation::CloseDirectory { handle } => {
                self.listings.remove(&handle);
                Ok(Value::Unit)
            }
            Operation::FileMetadata { handle } => {
                let item = self.file(handle)?;
                Ok(Value::Metadata(self.describe(item)))
            }
            Operation::Read {
                handle,
                offset,
                length,
            } => {
                let item = self.file(handle)?;
                let item = &self.items[item];
                let end = item.size.min(offset.saturating_add(length as u64));
                Ok(Value::Data(
                    (offset..end)
                        .map(|at| item.bytes.get(&at).copied().unwrap_or(0))
                        .collect(),
                ))
            }
            Operation::Write {
                handle,
                offset,
                bytes,
            } => {
                assert!(bytes.len() <= 32768 && !bytes.is_empty());
                let item = self.file(handle)?;
                let item = &mut self.items[item];
                for (at, byte) in bytes.iter().enumerate() {
                    item.bytes.insert(offset + at as u64, *byte);
                }
                item.size = item.size.max(offset + bytes.len() as u64);
                Ok(Value::Unit)
            }
            Operation::SetFileMetadata { handle, metadata } => {
                let item = self.file(handle)?;
                self.change(item, metadata);
                Ok(Value::Unit)
            }
            Operation::SetMetadata { path, metadata } => {
                let item = self.item(&path)?;
                self.change(item, metadata);
                Ok(Value::Unit)
            }
            Operation::Flush { handle } => self.file(handle).map(|_| Value::Unit),
            Operation::Close { handle } => {
                self.files.remove(&handle);
                Ok(Value::Unit)
            }
            Operation::Mkdir { path } => {
                if self.item(&path).is_ok() {
                    return Err(error(FsErrorKind::AlreadyExists));
                }
                self.add(key(&path), FsKind::Directory);
                Ok(Value::Unit)
            }
            Operation::Remove { path, .. } => {
                self.item(&path)?;
                self.names.remove(&key(&path));
                Ok(Value::Unit)
            }
            Operation::Rename { from, to, replace } => {
                self.item(&from)?;
                if !replace && self.item(&to).is_ok() {
                    return Err(error(FsErrorKind::AlreadyExists));
                }
                let (from, to) = (key(&from), key(&to));
                if from == to {
                    return Ok(Value::Unit);
                }
                self.names.remove(&to);
                let moved: Vec<_> = self
                    .names
                    .iter()
                    .filter(|(name, _)| name.starts_with(&from))
                    .map(|(name, item)| (name.clone(), *item))
                    .collect();
                for (name, item) in moved {
                    self.names.remove(&name);
                    let mut place = to.clone();
                    place.extend_from_slice(&name[from.len()..]);
                    self.names.insert(place, item);
                }
                Ok(Value::Unit)
            }
            Operation::Report { .. } | Operation::Poll | Operation::Capabilities => Ok(Value::Unit),
        }
    }
    fn taken(&mut self) -> Vec<String> {
        std::mem::take(&mut self.log)
    }
}

fn last<T, R>(provider: &mut Provider, step: Step<T, R>, resume: impl FnOnce(T, FsResult<Value>) -> R) -> R {
    match step {
        Step::Call { operation, then } => {
            let reply = provider.call(operation);
            resume(then, reply)
        }
        Step::Done { result } => result,
    }
}

fn drive<T, R>(
    provider: &mut Provider,
    mut step: Step<T, R>,
    mut resume: impl FnMut(T, FsResult<Value>) -> Step<T, R>,
) -> R {
    loop {
        match step {
            Step::Call { operation, then } => {
                let reply = provider.call(operation);
                step = resume(then, reply);
            }
            Step::Done { result } => return result,
        }
    }
}

type Kernel = shellcanvas_drive_bridge::fuse::Fs;
type Driver = shellcanvas_drive_bridge::windows::Fs;

fn host() -> HostFlags {
    HostFlags {
        access_mode: 3,
        read_only: 0,
        write_only: 1,
        read_write: 2,
        exclusive: 128,
        truncate: 512,
    }
}

fn kernel() -> (Provider, Kernel) {
    (Provider::new(), Kernel::with_flags(7, 8, host()))
}

fn look_up(provider: &mut Provider, fs: &mut Kernel, parent: u64, name: &str) -> Answer<FileAttr> {
    let step = fs.lookup(parent, Some(name));
    last(provider, step, |task, reply| fs.lookup_resume(task, reply))
}

fn make(provider: &mut Provider, fs: &mut Kernel, parent: u64, name: &str) -> Answer<(FileAttr, u64)> {
    let step = fs.create(parent, Some(name), 0o666, 0o022, 2);
    drive(provider, step, |task, reply| fs.create_resume(task, reply))
}

fn make_directory(provider: &mut Provider, fs: &mut Kernel, parent: u64, name: &str) -> Answer<FileAttr> {
    let step = fs.mkdir(parent, Some(name), 0o777, 0o022);
    drive(provider, step, |task, reply| fs.mkdir_resume(task, reply))
}

fn read(provider: &mut Provider, fs: &Kernel, fh: u64, offset: u64, size: u32) -> Answer<Vec<u8>> {
    let mut step = fs.read(fh, offset, size);
    loop {
        match step {
            ReadStep::Call { operation, then } => {
                let reply = provider.call(operation);
                step = then.resume(reply);
            }
            ReadStep::Done { result } => return read_answer(result),
        }
    }
}

fn write(provider: &mut Provider, fs: &Kernel, fh: u64, offset: u64, bytes: Vec<u8>) -> Answer<u32> {
    let mut step = fs.write(fh, offset, bytes);
    loop {
        match step {
            WriteStep::Call { operation, then } => {
                let reply = provider.call(operation);
                step = then.resume(reply);
            }
            WriteStep::Done { result } => return write_answer(result),
        }
    }
}

/// Lists a directory from `offset` on, with room for `room` entries.
fn list(provider: &mut Provider, fs: &mut Kernel, fh: u64, offset: u64, room: usize) -> Answer<Vec<(u64, String)>> {
    let mut seen = Vec::new();
    let mut step = fs.readdir(fh, offset);
    loop {
        match step {
            ReaddirStep::Call { operation, then } => {
                let reply = provider.call(operation);
                if let Ok(Value::Entries(entries)) = &reply {
                    assert!(fs.can_receive(fh, entries.len()));
                }
                step = fs.readdir_resume(then, reply);
            }
            ReaddirStep::Add {
                offset, name, then, ..
            } => {
                let full = seen.len() == room;
                if !full {
                    seen.push((offset, name));
                }
                step = fs.readdir_added(then, full);
            }
            ReaddirStep::Done { result } => return result.map(|_| seen),
        }
    }
}

fn names(count: usize) -> Vec<String> {
    (0..count).map(|i| format!("item-{i:03}")).collect()
}

#[test]
fn a_file_is_created_written_read_and_released() {
    let (mut provider, mut fs) = kernel();
    let (attributes, handle) = make(&mut provider, &mut fs, 1, "a.txt").unwrap();
    assert_eq!(attributes.ino, 2);
    assert_eq!(attributes.perm, 0o644);
    assert_eq!((attributes.uid, attributes.gid), (7, 8));
    assert_eq!(provider.taken(), ["Open", "SetFileMetadata", "Metadata"]);
    let bytes: Vec<u8> = (0..70_000u32).map(|i| (i % 251) as u8).collect();
    assert_eq!(write(&mut provider, &fs, handle, 5, bytes.clone()), Ok(70_000));
    assert_eq!(provider.taken(), ["Write", "Write", "Write"]);
    assert_eq!(read(&mut provider, &fs, handle, 5, 70_000).unwrap(), bytes);
    assert_eq!(provider.taken(), ["Read", "Read", "Read"]);
    assert_eq!(read(&mut provider, &fs, handle, 70_000, 100).unwrap(), bytes[69_995..].to_vec());
    assert_eq!(read(&mut provider, &fs, handle, 80_000, 10).unwrap(), Vec::<u8>::new());
    let step = fs.getattr(2, Some(handle));
    let shown = last(&mut provider, step, |task, reply| fs.getattr_resume(task, reply)).unwrap();
    assert_eq!(shown.size, 70_005);
    assert_eq!(shown.blocks, 137);
    let step = fs.flush(handle);
    assert_eq!(last(&mut provider, step, |task, reply| fs.flush_resume(task, reply)), Ok(()));
    let step = fs.fsync(handle);
    assert_eq!(last(&mut provider, step, |task, reply| fs.flush_resume(task, reply)), Ok(()));
    let step = fs.release(2, handle);
    assert_eq!(last(&mut provider, step, |task, reply| fs.release_resume(task, reply)), Ok(()));
    assert!(provider.files.is_empty());
}

#[test]
fn offsets_past_the_last_one_are_refused() {
    let (mut provider, mut fs) = kernel();
    let (_, handle) = make(&mut provider, &mut fs, 1, "a").unwrap();
    let bytes = vec![1u8; 40_000];
    assert_eq!(
        write(&mut provider, &fs, handle, u64::MAX - 32_767, bytes[..0].to_vec()),
        Ok(0)
    );
    provider.refuse = None;
    provider.odd = Some("Write");
    assert_eq!(
        write(&mut provider, &fs, handle, u64::MAX - 32_767, bytes),
        Err(Errno::EOVERFLOW)
    );
    provider.odd = Some("Read");
    assert_eq!(read(&mut provider, &fs, handle, 0, 5), Err(Errno::EIO));
    provider.odd = None;
    provider.refuse = Some(("Read", FsErrorKind::TimedOut));
    assert_eq!(read(&mut provider, &fs, handle, 0, 5), Err(Errno::ETIMEDOUT));
    provider.refuse = Some(("Write", FsErrorKind::ReadOnly));
    assert_eq!(write(&mut provider, &fs, handle, 0, vec![1]), Err(Errno::EROFS));
}

#[test]
fn a_create_that_fails_closes_its_handle() {
    for (operation, asked) in [
        ("SetFileMetadata", vec!["Open", "SetFileMetadata", "Close"]),
        ("Metadata", vec!["Open", "SetFileMetadata", "Metadata", "Close"]),
    ] {
        let (mut provider, mut fs) = kernel();
        provider.refuse = Some((operation, FsErrorKind::PermissionDenied));
        assert_eq!(
            make(&mut provider, &mut fs, 1, "a").unwrap_err(),
            Errno::EACCES
        );
        assert_eq!(provider.taken(), asked);
        assert!(provider.files.is_empty());
    }
    let (mut provider, mut fs) = kernel();
    provider.odd = Some("Open");
    assert_eq!(make(&mut provider, &mut fs, 1, "a").unwrap_err(), Errno::EIO);
    assert_eq!(provider.taken(), ["Open"]);
}

#[test]
fn an_exclusive_create_of_an_existing_file_is_refused() {
    let (mut provider, mut fs) = kernel();
    make(&mut provider, &mut fs, 1, "a").unwrap();
    let step = fs.create(1, Some("a"), 0o644, 0, 2 | 128);
    let again = drive(&mut provider, step, |task, reply| fs.create_resume(task, reply));
    assert_eq!(again.unwrap_err(), Errno::EEXIST);
    assert!(make(&mut provider, &mut fs, 1, "a").is_ok());
}

#[test]
fn names_that_are_no_components_never_reach_the_provider() {
    let (mut provider, mut fs) = kernel();
    assert_eq!(look_up(&mut provider, &mut fs, 1, "..").unwrap_err(), Errno::EINVAL);
    assert_eq!(look_up(&mut provider, &mut fs, 9, "a").unwrap_err(), Errno::ESTALE);
    let step = fs.lookup(1, None);
    let result = last(&mut provider, step, |task, reply| fs.lookup_resume(task, reply));
    assert_eq!(result.unwrap_err(), Errno::EILSEQ);
    assert!(provider.taken().is_empty());
    assert_eq!(look_up(&mut provider, &mut fs, 1, "a").unwrap_err(), Errno::ENOENT);
}

#[test]
fn numbers_are_stable_while_held_and_never_reused() {
    let (mut provider, mut fs) = kernel();
    make_directory(&mut provider, &mut fs, 1, "d").unwrap();
    let first = look_up(&mut provider, &mut fs, 1, "d").unwrap().ino;
    assert_eq!(look_up(&mut provider, &mut fs, 1, "d").unwrap().ino, first);
    fs.forget(first, 2);
    assert_eq!(look_up(&mut provider, &mut fs, 1, "d").unwrap().ino, first);
    fs.forget(first, 99);
    let second = look_up(&mut provider, &mut fs, 1, "d").unwrap().ino;
    assert!(second > first);
    fs.forget(1, u64::MAX);
    assert!(look_up(&mut provider, &mut fs, 1, "d").is_ok());
}

#[test]
fn an_open_file_outlives_its_entry() {
    let (mut provider, mut fs) = kernel();
    let (attributes, handle) = make(&mut provider, &mut fs, 1, "a").unwrap();
    write(&mut provider, &fs, handle, 0, b"kept".to_vec()).unwrap();
    let step = fs.unlink(1, Some("a"));
    assert_eq!(last(&mut provider, step, |task, reply| fs.remove_resume(task, reply)), Ok(()));
    assert_eq!(look_up(&mut provider, &mut fs, 1, "a").unwrap_err(), Errno::ENOENT);
    assert_eq!(read(&mut provider, &fs, handle, 0, 4).unwrap(), b"kept");
    let step = fs.getattr(attributes.ino, Some(handle));
    let shown = last(&mut provider, step, |task, reply| fs.getattr_resume(task, reply)).unwrap();
    assert_eq!(shown.size, 4);
    let step = fs.getattr(attributes.ino, None);
    let gone = last(&mut provider, step, |task, reply| fs.getattr_resume(task, reply));
    assert_eq!(gone.unwrap_err(), Errno::ESTALE);
    let step = fs.release(attributes.ino, handle);
    last(&mut provider, step, |task, reply| fs.release_resume(task, reply)).unwrap();
}

#[test]
fn a_refused_removal_keeps_the_entry() {
    let (mut provider, mut fs) = kernel();
    make_directory(&mut provider, &mut fs, 1, "d").unwrap();
    let ino = look_up(&mut provider, &mut fs, 1, "d").unwrap().ino;
    provider.refuse = Some(("Remove", FsErrorKind::NotEmpty));
    let step = fs.rmdir(1, Some("d"));
    let refused = last(&mut provider, step, |task, reply| fs.remove_resume(task, reply));
    assert_eq!(refused, Err(Errno::ENOTEMPTY));
    let step = fs.statfs(ino);
    let space = last(&mut provider, step, |task, reply| fs.statfs_resume(task, reply)).unwrap();
    assert_eq!((space.blocks, space.bavail, space.bsize, space.namelen), (1_000_000, 750_000, 4096, 255));
}

fn rename(provider: &mut Provider, fs: &mut Kernel, from: (u64, &str), to: (u64, &str), flags: u32) -> Answer<()> {
    let step = fs.rename(from.0, Some(from.1), to.0, Some(to.1), flags);
    last(provider, step, |task, reply| fs.rename_resume(task, reply))
}

#[test]
fn a_rename_takes_numbers_and_open_directories_along() {
    let (mut provider, mut fs) = kernel();
    let old = make_directory(&mut provider, &mut fs, 1, "old").unwrap().ino;
    let (file, handle) = make(&mut provider, &mut fs, old, "file").unwrap();
    let (replaced, _) = make(&mut provider, &mut fs, 1, "new").unwrap();
    make(&mut provider, &mut fs, 1, "older").unwrap();
    let step = fs.opendir(old);
    let fh = last(&mut provider, step, |task, reply| fs.opendir_resume(task, reply)).unwrap();
    assert_eq!(rename(&mut provider, &mut fs, (1, "old"), (1, "new"), 0), Ok(()));
    assert_eq!(look_up(&mut provider, &mut fs, 1, "new").unwrap().ino, old);
    assert_eq!(look_up(&mut provider, &mut fs, old, "file").unwrap().ino, file.ino);
    assert_eq!(look_up(&mut provider, &mut fs, 1, "old").unwrap_err(), Errno::ENOENT);
    let step = fs.getattr(replaced.ino, None);
    let stale = last(&mut provider, step, |task, reply| fs.getattr_resume(task, reply));
    assert_eq!(stale.unwrap_err(), Errno::ESTALE);
    assert_eq!(list(&mut provider, &mut fs, fh, 0, 9).unwrap(), [(1, "file".to_owned())]);
    // Starting over opens the directory at its new place.
    assert_eq!(list(&mut provider, &mut fs, fh, 0, 9).unwrap(), [(1, "file".to_owned())]);
    assert!(read(&mut provider, &fs, handle, 0, 1).is_ok());
}

#[test]
fn renames_that_are_refused_or_go_nowhere_change_nothing() {
    let (mut provider, mut fs) = kernel();
    make(&mut provider, &mut fs, 1, "a").unwrap();
    let (b, _) = make(&mut provider, &mut fs, 1, "b").unwrap();
    assert_eq!(rename(&mut provider, &mut fs, (1, "a"), (1, "b"), 2), Err(Errno::EOPNOTSUPP));
    assert_eq!(rename(&mut provider, &mut fs, (1, "a"), (1, "b"), 1), Err(Errno::EEXIST));
    assert_eq!(rename(&mut provider, &mut fs, (1, "a"), (1, "a:b"), 0), Err(Errno::EINVAL));
    assert_eq!(rename(&mut provider, &mut fs, (1, "b"), (1, "b"), 0), Ok(()));
    assert_eq!(look_up(&mut provider, &mut fs, 1, "b").unwrap().ino, b.ino);
}

#[test]
fn directories_are_listed_completely_in_any_portions() {
    let (mut provider, mut fs) = kernel();
    let ino = make_directory(&mut provider, &mut fs, 1, "d").unwrap().ino;
    for name in names(10) {
        make(&mut provider, &mut fs, ino, &name).unwrap();
    }
    let step = fs.opendir(ino);
    let fh = last(&mut provider, step, |task, reply| fs.opendir_resume(task, reply)).unwrap();
    for room in [1, 3, 4, 100] {
        let mut seen: Vec<String> = Vec::new();
        let mut offset = 0;
        loop {
            let part = list(&mut provider, &mut fs, fh, offset, room).unwrap();
            if part.is_empty() {
                break;
            }
            for (position, name) in part {
                offset += 1;
                assert_eq!(position, offset);
                seen.push(name);
            }
        }
        assert_eq!(seen, names(10));
    }
    let middle = list(&mut provider, &mut fs, fh, 7, 2).unwrap();
    assert_eq!(middle, [(8, "item-007".to_owned()), (9, "item-008".to_owned())]);
    let back = list(&mut provider, &mut fs, fh, 2, 1).unwrap();
    assert_eq!(back, [(3, "item-002".to_owned())]);
    let step = fs.releasedir(fh);
    assert_eq!(last(&mut provider, step, |task, reply| fs.releasedir_resume(task, reply)), Ok(()));
    assert_eq!(list(&mut provider, &mut fs, fh, 0, 1), Err(Errno::EBADF));
    let step = fs.releasedir(fh);
    assert_eq!(last(&mut provider, step, |task, reply| fs.releasedir_resume(task, reply)), Err(Errno::EBADF));
    assert!(provider.listings.is_empty());
}

#[test]
fn a_listing_that_fails_says_so() {
    let (mut provider, mut fs) = kernel();
    let step = fs.opendir(1);
    let fh = last(&mut provider, step, |task, reply| fs.opendir_resume(task, reply)).unwrap();
    provider.refuse = Some(("ReadDirectory", FsErrorKind::Offline));
    assert_eq!(list(&mut provider, &mut fs, fh, 0, 1), Err(Errno::ENOTCONN));
    provider.refuse = None;
    provider.odd = Some("ReadDirectory");
    assert_eq!(list(&mut provider, &mut fs, fh, 0, 1), Err(Errno::EIO));
    provider.odd = None;
    assert_eq!(list(&mut provider, &mut fs, fh, 0, 1), Ok(Vec::new()));
}

fn nothing() -> SetAttr {
    SetAttr {
        mode: None,
        uid: None,
        gid: None,
        size: None,
        atime: None,
        mtime: None,
        fh: None,
        flags: None,
    }
}

fn set(provider: &mut Provider, fs: &Kernel, ino: u64, change: SetAttr) -> Answer<FileAttr> {
    let step = fs.setattr(ino, change, UnixTime { seconds: 1234 });
    drive(provider, step, |task, reply| fs.setattr_resume(task, reply))
}

#[test]
fn attributes_are_changed_by_path_or_handle_and_read_back() {
    let (mut provider, mut fs) = kernel();
    let (file, handle) = make(&mut provider, &mut fs, 1, "a").unwrap();
    provider.taken();
    let change = SetAttr {
        mode: Some(0o600),
        uid: Some(7),
        gid: Some(8),
        flags: Some(0),
        atime: Some(TimeOrNow::Now),
        mtime: Some(TimeOrNow::SpecificTime(UnixTime { seconds: 99 })),
        ..nothing()
    };
    let shown = set(&mut provider, &fs, file.ino, change).unwrap();
    assert_eq!((shown.perm, shown.atime, shown.mtime, shown.ctime), (0o600, 1234, 99, 99));
    assert_eq!(provider.taken(), ["SetMetadata", "Metadata"]);
    let change = SetAttr {
        size: Some(3),
        fh: Some(handle),
        mtime: Some(TimeOrNow::SpecificTime(UnixTime { seconds: -1 })),
        ..nothing()
    };
    let shown = set(&mut provider, &fs, file.ino, change).unwrap();
    assert_eq!((shown.size, shown.mtime), (3, 99));
    assert_eq!(provider.taken(), ["SetFileMetadata", "FileMetadata"]);
}

#[test]
fn owners_and_flags_cannot_be_changed() {
    let (mut provider, fs) = kernel();
    for change in [
        SetAttr { uid: Some(0), ..nothing() },
        SetAttr { gid: Some(0), ..nothing() },
        SetAttr { flags: Some(2), ..nothing() },
    ] {
        assert_eq!(set(&mut provider, &fs, 1, change).unwrap_err(), Errno::EOPNOTSUPP);
    }
    assert!(provider.taken().is_empty());
    assert_eq!(set(&mut provider, &fs, 5, nothing()).unwrap_err(), Errno::ESTALE);
}

#[test]
fn entries_without_permissions_are_private() {
    let meta = FsMetadata {
        kind: FsKind::Directory,
        size: 513,
        accessed: None,
        modified: Some(5),
        permissions: None,
    };
    let shown = attr(4, meta, 1, 2);
    assert_eq!((shown.perm, shown.nlink, shown.kind), (0o700, 2, FileType::Directory));
    assert_eq!((shown.blocks, shown.atime, shown.crtime, shown.blksize), (2, 0, 5, 4096));
    let meta = FsMetadata { kind: FsKind::Other, permissions: None, ..meta };
    let shown = attr(4, meta, 1, 2);
    assert_eq!((shown.perm, shown.nlink, shown.kind), (0o600, 1, FileType::RegularFile));
    let meta = FsMetadata { kind: FsKind::Symlink, permissions: Some(0o107_644), ..meta };
    assert_eq!(attr(4, meta, 1, 2).perm, 0o644);
    assert_eq!(attr(4, meta, 1, 2).kind, FileType::Symlink);
}

#[test]
fn open_flags_say_what_is_asked_of_the_provider() {
    let plain = options(0, false, &host());
    assert!(plain.read && !plain.write && !plain.truncate);
    assert_eq!(plain.create, FsCreate::OpenExisting);
    let write = options(1 | 512, false, &host());
    assert!(!write.read && write.write && write.truncate);
    let create = options(0, true, &host());
    assert!(create.read && create.write);
    assert_eq!(create.create, FsCreate::OpenOrCreate);
    assert_eq!(options(2 | 128, true, &host()).create, FsCreate::CreateNew);
}

#[test]
fn the_access_mode_is_read_through_the_mask_of_the_host() {
    let wide = HostFlags { access_mode: 0o10_000_003, ..host() };
    let other = options(0o10_000_000, false, &wide);
    assert!(other.read && other.write);
    let plain = options(0o10_000_000, false, &host());
    assert!(plain.read && !plain.write);
}

#[test]
fn the_kernel_keeps_neither_contents_nor_attributes() {
    let (mut provider, mut fs) = kernel();
    let (made, handle) = make(&mut provider, &mut fs, 1, "a").unwrap();
    let created = create_reply(Ok((made, handle))).unwrap();
    assert!(created.open.direct_io);
    assert_eq!((created.open.fh, created.entry.ttl, created.entry.generation), (handle, 0, 1));
    assert_eq!(created.entry.attr, made);
    assert_eq!(open_reply(Ok(9)), Ok(OpenReply { fh: 9, direct_io: true }));
    assert_eq!(opendir_reply(Ok(9)), Ok(OpenReply { fh: 9, direct_io: false }));
    let found = entry_reply(look_up(&mut provider, &mut fs, 1, "a")).unwrap();
    assert_eq!((found.attr.ino, found.ttl, found.generation), (made.ino, 0, 1));
    assert_eq!(attr_reply(Ok(made)).unwrap().ttl, 0);
    assert_eq!(open_reply(Err(Errno::EIO)), Err(Errno::EIO));
    assert_eq!(create_reply(Err(Errno::EIO)), Err(Errno::EIO));
    assert_eq!(entry_reply(Err(Errno::ENOENT)), Err(Errno::ENOENT));
    assert_eq!(attr_reply(Err(Errno::ESTALE)), Err(Errno::ESTALE));
    assert_eq!(opendir_reply(Err(Errno::EACCES)), Err(Errno::EACCES));
}

#[test]
fn the_root_of_a_table_can_be_retired() {
    let mut state = State::new();
    let child = MountPath::root().child("a").unwrap();
    assert_eq!(state.lookup(child.clone()), Ok(2));
    state.retire_path(&MountPath::root());
    assert_eq!(state.number_of(&MountPath::root()), None);
    assert!(state.path_of(1).is_none());
    assert_eq!(state.number_of(&child), Some(2));
    assert_eq!(state.lookup(MountPath::root()), Ok(3));
    state.retire_path(&child);
    assert_eq!(state.number_of(&child), None);
    assert_eq!(state.lookup(child), Ok(4));
}

#[test]
fn lookups_are_given_back_one_by_one() {
    let mut state = State::new();
    let child = MountPath::root().child("a").unwrap();
    for _ in 0..3 {
        assert_eq!(state.lookup(child.clone()), Ok(2));
    }
    state.forget(2, 2);
    assert_eq!(state.number_of(&child), Some(2));
    state.forget(2, 1);
    assert_eq!(state.number_of(&child), None);
    assert_eq!(state.lookup(child), Ok(3));
}

#[test]
fn the_native_flags_are_those_of_this_system() {
    let mut provider = Provider::new();
    let mut fs = Kernel::new(7, 8, libc::O_ACCMODE);
    let step = fs.create(1, Some("a"), 0o644, 0, libc::O_RDWR);
    let (_, handle) = drive(&mut provider, step, |task, reply| fs.create_resume(task, reply)).unwrap();
    write(&mut provider, &fs, handle, 0, b"old".to_vec()).unwrap();
    match fs.open(2, libc::O_WRONLY | libc::O_TRUNC) {
        Step::Call { operation: Operation::Open { options, .. }, .. } => {
            assert!(!options.read && options.write && options.truncate);
        }
        _ => panic!("Nothing was opened"),
    }
    match fs.open(2, libc::O_RDONLY) {
        Step::Call { operation: Operation::Open { options, .. }, .. } => {
            assert!(options.read && !options.write && !options.truncate);
        }
        _ => panic!("Nothing was opened"),
    }
    match fs.create(1, Some("b"), 0, 0, libc::O_RDWR | libc::O_EXCL) {
        Step::Call { operation: Operation::Open { options, .. }, .. } => {
            assert_eq!(options.create, FsCreate::CreateNew);
            assert!(options.read && options.write);
        }
        _ => panic!("Nothing was opened"),
    }
}

#[test]
fn an_open_of_a_vanished_number_is_stale() {
    let (mut provider, mut fs) = kernel();
    let (file, handle) = make(&mut provider, &mut fs, 1, "a").unwrap();
    let step = fs.open(file.ino, 0);
    let second = last(&mut provider, step, |task, reply| fs.open_resume(task, reply)).unwrap();
    assert_ne!(second, handle);
    assert!(fs.can_open(file.ino));
    assert!(fs.can_look_up(&MountPath::root().child("a").unwrap()));
    assert!(fs.can_create(&MountPath::root().child("a").unwrap()));
    let step = fs.open(77, 0);
    let stale = last(&mut provider, step, |task, reply| fs.open_resume(task, reply));
    assert_eq!(stale, Err(Errno::ESTALE));
    provider.odd = Some("Open");
    let step = fs.open(file.ino, 0);
    let odd = last(&mut provider, step, |task, reply| fs.open_resume(task, reply));
    assert_eq!(odd, Err(Errno::EIO));
}

fn driver(writable: bool) -> (Provider, Driver) {
    let caps = FsCapabilities {
        writable,
        atomic_replace: true,
        durable_flush: true,
    };
    (Provider::new(), Driver::new(caps))
}

fn open(provider: &mut Provider, fs: &mut Driver, name: &str, options: u32, access: u32) -> NtResult<(Context, FileInfo)> {
    let mut step = fs.open(Some(name), options, access);
    loop {
        match step {
            OpenStep::Call { operation, then } => {
                let reply = provider.call(operation);
                step = fs.open_resume(then, reply);
            }
            OpenStep::Done { result } => return result,
        }
    }
}

fn create(provider: &mut Provider, fs: &mut Driver, name: &str, options: u32, access: u32) -> NtResult<(Context, FileInfo)> {
    let mut step = fs.create(Some(name), options, access);
    loop {
        match step {
            CreateStep::Call { operation, then } => {
                let reply = provider.call(operation);
                step = fs.create_resume(then, reply);
            }
            CreateStep::Warn { message, then } => {
                let reply = provider.call(Operation::Report {
                    event: BridgeEvent::Warning { message },
                });
                step = fs.create_resume(then, reply);
            }
            CreateStep::Done { result } => return result,
        }
    }
}

fn close(provider: &mut Provider, fs: &mut Driver, context: Context) -> Vec<String> {
    let mut warnings = Vec::new();
    let mut step = fs.close(context);
    loop {
        match step {
            CloseStep::Call { operation, then } => {
                let reply = provider.call(operation);
                step = fs.close_resume(then, reply);
            }
            CloseStep::Warn { message, then } => {
                warnings.push(message.clone());
                let reply = provider.call(Operation::Report {
                    event: BridgeEvent::Warning { message },
                });
                step = fs.close_resume(then, reply);
            }
            CloseStep::Done => return warnings,
        }
    }
}

fn info(provider: &mut Provider, fs: &Driver, context: &Context) -> NtResult<FileInfo> {
    let step = fs.get_file_info(context);
    last(provider, step, |task, reply| fs.info_resume(task, reply))
}

fn put(
    provider: &mut Provider,
    fs: &Driver,
    context: &Context,
    bytes: &[u8],
    offset: u64,
    eof: bool,
    constrained: bool,
) -> NtResult<(u32, FileInfo)> {
    let step = fs.write(context, bytes.to_vec(), offset, eof, constrained);
    drive(provider, step, |task, reply| fs.write_resume(task, reply))
}

fn get(provider: &mut Provider, fs: &Driver, context: &Context, offset: u64, size: usize) -> NtResult<Vec<u8>> {
    let mut step = fs.read(context, size, offset)?;
    loop {
        match step {
            ReadStep::Call { operation, then } => {
                let reply = provider.call(operation);
                step = then.resume(reply);
            }
            ReadStep::Done { result } => {
                let (bytes, count) = read_result(result)?;
                assert_eq!(bytes.len() as u32, count);
                return Ok(bytes);
            }
        }
    }
}

const READ_WRITE: u32 = 0x1 | 0x2 | 0x4;

#[test]
fn windows_files_are_written_where_they_are_asked_to_be() {
    let (mut provider, mut fs) = driver(true);
    let (context, first) = create(&mut provider, &mut fs, "\\a.bin", 0x40, READ_WRITE).unwrap();
    assert_eq!(first.file_size, 0);
    assert_eq!(provider.taken(), ["Open", "FileMetadata"]);
    let (count, shown) = put(&mut provider, &fs, &context, b"begin", 0, false, false).unwrap();
    assert_eq!((count, shown.file_size, shown.allocation_size), (5, 5, 4096));
    let far = (1u64 << 32) + 19;
    let (_, shown) = put(&mut provider, &fs, &context, b"end", far, false, false).unwrap();
    assert_eq!(shown.file_size, far + 3);
    assert_eq!(get(&mut provider, &fs, &context, far, 10).unwrap(), b"end");
    let step = fs.set_file_size(&context, 5, false);
    let shown = drive(&mut provider, step, |task, reply| fs.resize_resume(task, reply)).unwrap();
    assert_eq!(shown.file_size, 5);
    let (count, shown) = put(&mut provider, &fs, &context, b"!?", 0, true, false).unwrap();
    assert_eq!((count, shown.file_size), (2, 7));
    let (count, shown) = put(&mut provider, &fs, &context, b"0123456789", 4, false, true).unwrap();
    assert_eq!((count, shown.file_size), (3, 7));
    assert_eq!(get(&mut provider, &fs, &context, 0, 100).unwrap(), b"begi012");
    let (count, _) = put(&mut provider, &fs, &context, b"x", 99, false, true).unwrap();
    assert_eq!(count, 0);
    assert!(close(&mut provider, &mut fs, context).is_empty());
    assert!(provider.files.is_empty());
}

#[test]
fn allocation_alone_never_grows_a_file() {
    let (mut provider, mut fs) = driver(true);
    let (context, _) = create(&mut provider, &mut fs, "\\a", 0, READ_WRITE).unwrap();
    put(&mut provider, &fs, &context, b"12345678", 0, false, false).unwrap();
    provider.taken();
    let step = fs.set_file_size(&context, 100, true);
    let shown = drive(&mut provider, step, |task, reply| fs.resize_resume(task, reply)).unwrap();
    assert_eq!(shown.file_size, 8);
    assert_eq!(provider.taken(), ["FileMetadata", "FileMetadata"]);
    let step = fs.set_file_size(&context, 4, true);
    let shown = drive(&mut provider, step, |task, reply| fs.resize_resume(task, reply)).unwrap();
    assert_eq!(shown.file_size, 4);
    let step = fs.overwrite(&context);
    let shown = drive(&mut provider, step, |task, reply| fs.resize_resume(task, reply)).unwrap();
    assert_eq!(shown.file_size, 0);
}

#[test]
fn windows_opens_check_the_kind_first() {
    let (mut provider, mut fs) = driver(true);
    let (file, _) = create(&mut provider, &mut fs, "\\file", 0, READ_WRITE).unwrap();
    let (directory, _) = create(&mut provider, &mut fs, "\\dir", 1, 0x1).unwrap();
    provider.taken();
    assert_eq!(open(&mut provider, &mut fs, "\\file", 1, 1).err(), Some(NtStatus::NotADirectory));
    assert_eq!(open(&mut provider, &mut fs, "\\dir", 0x40, 1).err(), Some(NtStatus::FileIsADirectory));
    assert_eq!(provider.taken(), ["Metadata", "Metadata"]);
    assert_eq!(open(&mut provider, &mut fs, "\\none", 0, 1).err(), Some(NtStatus::ObjectNameNotFound));
    assert_eq!(open(&mut provider, &mut fs, "\\a:b", 0, 1).err(), Some(NtStatus::ObjectNameInvalid));
    assert_eq!(create(&mut provider, &mut fs, "\\file", 0, 1).err(), Some(NtStatus::ObjectNameCollision));
    match fs.open(None, 0, 1) {
        OpenStep::Done { result } => assert_eq!(result.err(), Some(NtStatus::InvalidParameter)),
        _ => panic!("A name that is not Unicode was opened"),
    }
    close(&mut provider, &mut fs, file);
    close(&mut provider, &mut fs, directory);
    assert!(fs.begin_detach().is_ok());
}

#[test]
fn passive_folders_let_a_drive_go_and_files_hold_it() {
    let (mut provider, mut fs) = driver(true);
    let (folder, _) = open(&mut provider, &mut fs, "\\", 1, 0x1 | 0x80 | 0x100000).unwrap();
    let (file, _) = create(&mut provider, &mut fs, "\\a", 0, 0x1).unwrap();
    assert_eq!(
        fs.begin_detach().unwrap_err(),
        "Local applications still hold 1 file or folder handles. Close them and try detaching again."
    );
    let (mutator, _) = open(&mut provider, &mut fs, "\\", 1, 0x2).unwrap();
    close(&mut provider, &mut fs, file);
    assert!(fs.begin_detach().is_err());
    close(&mut provider, &mut fs, mutator);
    fs.begin_detach().unwrap();
    assert_eq!(open(&mut provider, &mut fs, "\\a", 0, 1).err(), Some(NtStatus::DeviceNotConnected));
    assert_eq!(create(&mut provider, &mut fs, "\\b", 0, 1).err(), Some(NtStatus::DeviceNotConnected));
    assert!(info(&mut provider, &fs, &folder).is_ok());
    close(&mut provider, &mut fs, folder);
}

#[test]
fn a_read_only_provider_takes_no_changes() {
    let (mut provider, mut fs) = driver(false);
    provider.add(vec!["a".to_owned()], FsKind::File);
    assert_eq!(create(&mut provider, &mut fs, "\\b", 0, 1).err(), Some(NtStatus::MediaWriteProtected));
    let (context, _) = open(&mut provider, &mut fs, "\\a", 0, 1).unwrap();
    let step = fs.set_delete(&context, true);
    assert_eq!(
        drive(&mut provider, step, |task, reply| fs.delete_resume(task, reply)),
        Err(NtStatus::MediaWriteProtected)
    );
    let step = fs.set_basic_info(&context, 1, 0, 0, 0, 0);
    assert_eq!(
        drive(&mut provider, step, |task, reply| fs.basic_resume(&context, task, reply)),
        Err(NtStatus::MediaWriteProtected)
    );
    let step = fs.set_basic_info(&context, u32::MAX, 0, 0, 0, 0);
    assert!(drive(&mut provider, step, |task, reply| fs.basic_resume(&context, task, reply)).is_ok());
}

#[test]
fn a_create_that_cannot_be_described_is_closed_again() {
    let (mut provider, mut fs) = driver(true);
    provider.refuse = Some(("FileMetadata", FsErrorKind::Io));
    assert_eq!(create(&mut provider, &mut fs, "\\a", 0, 1).err(), Some(NtStatus::IoDeviceError));
    assert_eq!(provider.taken(), ["Open", "FileMetadata", "Close"]);
    provider.refuse = Some(("Mkdir", FsErrorKind::PermissionDenied));
    assert_eq!(create(&mut provider, &mut fs, "\\d", 1, 1).err(), Some(NtStatus::AccessDenied));
    provider.refuse = None;
    provider.odd = Some("Open");
    assert_eq!(create(&mut provider, &mut fs, "\\c", 0, 1).err(), Some(NtStatus::InvalidParameter));
    assert!(fs.begin_detach().is_ok());
}

#[test]
fn closes_that_are_not_confirmed_are_reported() {
    let (mut provider, mut fs) = driver(true);
    let (file, _) = create(&mut provider, &mut fs, "\\a", 0, 1).unwrap();
    provider.refuse = Some(("Close", FsErrorKind::Io));
    assert_eq!(
        close(&mut provider, &mut fs, file),
        ["Remote file close was not confirmed: refused"]
    );
    let (mut folder, _) = open(&mut provider, &mut fs, "\\", 1, 0x2).unwrap();
    windows_list(&mut provider, &fs, &mut folder, None, 9).unwrap();
    provider.refuse = Some(("CloseDirectory", FsErrorKind::Io));
    assert_eq!(
        close(&mut provider, &mut fs, folder),
        ["Remote directory close was not confirmed: refused"]
    );
    assert!(fs.begin_detach().is_ok());
}

fn windows_list(
    provider: &mut Provider,
    fs: &Driver,
    context: &mut Context,
    marker: Option<&str>,
    room: usize,
) -> NtResult<(Vec<String>, ListEnd)> {
    let mut seen = Vec::new();
    let mut step = fs.read_directory(context, marker.map(|m| m.to_owned()));
    loop {
        match step {
            ListStep::Call { operation, then } => {
                let reply = provider.call(operation);
                step = fs.list_resume(context, then, reply);
            }
            ListStep::Add { name, then, .. } => {
                let full = seen.len() == room;
                if !full {
                    seen.push(name);
                }
                step = fs.list_added(context, then, full);
            }
            ListStep::Done { result } => return result.map(|end| (seen, end)),
        }
    }
}

#[test]
fn windows_listings_go_on_after_the_last_name() {
    let (mut provider, mut fs) = driver(true);
    let (dir, _) = create(&mut provider, &mut fs, "\\d", 1, 1).unwrap();
    close(&mut provider, &mut fs, dir);
    for name in names(10) {
        let (file, _) = create(&mut provider, &mut fs, &format!("\\d\\{name}"), 0, 1).unwrap();
        close(&mut provider, &mut fs, file);
    }
    let (mut context, shown) = open(&mut provider, &mut fs, "d\\\\", 1, 1).unwrap();
    assert_eq!(shown.file_attributes, 0x10);
    for room in [1, 3, 4, 100] {
        let mut seen: Vec<String> = Vec::new();
        loop {
            let marker = seen.last().cloned();
            let (part, end) = windows_list(&mut provider, &fs, &mut context, marker.as_deref(), room).unwrap();
            seen.extend(part);
            if end == ListEnd::Complete {
                break;
            }
        }
        assert_eq!(seen, names(10));
    }
    provider.taken();
    let (part, _) = windows_list(&mut provider, &fs, &mut context, Some("item-004"), 2).unwrap();
    assert_eq!(part, ["item-005", "item-006"]);
    assert_eq!(
        provider.taken(),
        ["CloseDirectory", "OpenDirectory", "ReadDirectory", "ReadDirectory", "ReadDirectory"]
    );
    let (part, _) = windows_list(&mut provider, &fs, &mut context, Some("item-006"), 1).unwrap();
    assert_eq!(part, ["item-007"]);
    assert!(provider.taken().is_empty());
    let (part, end) = windows_list(&mut provider, &fs, &mut context, Some("gone"), 9).unwrap();
    assert!(part.is_empty() && end == ListEnd::Complete);
    provider.refuse = Some(("OpenDirectory", FsErrorKind::Offline));
    assert_eq!(
        windows_list(&mut provider, &fs, &mut context, Some("item-001"), 9),
        Err(NtStatus::DeviceNotConnected)
    );
    close(&mut provider, &mut fs, context);
}

#[test]
fn windows_renames_take_open_handles_along() {
    let (mut provider, mut fs) = driver(true);
    let (dir, _) = create(&mut provider, &mut fs, "\\old", 1, 1).unwrap();
    let (alias, _) = open(&mut provider, &mut fs, "\\old", 1, 1).unwrap();
    provider.refuse = Some(("Rename", FsErrorKind::PermissionDenied));
    let step = fs.rename(Some("\\old"), Some("\\new"), false);
    assert_eq!(last(&mut provider, step, |task, reply| fs.rename_resume(task, reply)), Err(NtStatus::AccessDenied));
    provider.refuse = None;
    assert!(info(&mut provider, &fs, &dir).is_ok());
    let step = fs.rename(Some("\\old"), Some("\\new"), false);
    assert_eq!(last(&mut provider, step, |task, reply| fs.rename_resume(task, reply)), Ok(()));
    assert!(info(&mut provider, &fs, &dir).is_ok());
    assert!(info(&mut provider, &fs, &alias).is_ok());
    let step = fs.rename(Some("\\new"), Some("\\a:b"), false);
    assert_eq!(last(&mut provider, step, |task, reply| fs.rename_resume(task, reply)), Err(NtStatus::ObjectNameInvalid));
}

#[test]
fn only_empty_directories_may_be_deleted() {
    let (mut provider, mut fs) = driver(true);
    let (root, _) = open(&mut provider, &mut fs, "\\", 1, 1).unwrap();
    let step = fs.set_delete(&root, true);
    assert_eq!(drive(&mut provider, step, |task, reply| fs.delete_resume(task, reply)), Err(NtStatus::AccessDenied));
    let (dir, _) = create(&mut provider, &mut fs, "\\d", 1, 1).unwrap();
    let (file, _) = create(&mut provider, &mut fs, "\\d\\f", 0, 1).unwrap();
    provider.taken();
    let step = fs.set_delete(&dir, true);
    assert_eq!(drive(&mut provider, step, |task, reply| fs.delete_resume(task, reply)), Err(NtStatus::DirectoryNotEmpty));
    assert_eq!(provider.taken(), ["OpenDirectory", "ReadDirectory", "CloseDirectory"]);
    let step = fs.set_delete(&file, true);
    assert_eq!(drive(&mut provider, step, |task, reply| fs.delete_resume(task, reply)), Ok(()));
    let step = fs.cleanup(&file, Some(Some("\\d\\f")), 1);
    assert_eq!(last(&mut provider, step, |task, reply| fs.cleanup_resume(task, reply)), None);
    let step = fs.set_delete(&dir, true);
    assert_eq!(drive(&mut provider, step, |task, reply| fs.delete_resume(task, reply)), Ok(()));
    let step = fs.set_delete(&dir, false);
    assert_eq!(drive(&mut provider, step, |task, reply| fs.delete_resume(task, reply)), Ok(()));
    provider.taken();
    let step = fs.cleanup(&dir, None, 0);
    assert_eq!(last(&mut provider, step, |task, reply| fs.cleanup_resume(task, reply)), None);
    let step = fs.cleanup(&dir, Some(None), 1);
    assert_eq!(last(&mut provider, step, |task, reply| fs.cleanup_resume(task, reply)), None);
    assert!(provider.taken().is_empty());
    provider.refuse = Some(("Remove", FsErrorKind::PermissionDenied));
    let step = fs.cleanup(&dir, None, 1);
    assert_eq!(
        last(&mut provider, step, |task, reply| fs.cleanup_resume(task, reply)),
        Some(NtStatus::AccessDenied)
    );
    assert_eq!(
        deletion_warning("NTRESULT"),
        "Remote deletion failed during Windows cleanup: NTRESULT"
    );
}

#[test]
fn times_and_attributes_are_set_together_or_not_at_all() {
    const EPOCH: u64 = 116_444_736_000_000_000;
    let (mut provider, mut fs) = driver(true);
    let (context, _) = create(&mut provider, &mut fs, "\\times.txt", 0, 0x180).unwrap();
    provider.taken();
    let accessed = EPOCH + 1_600_000_000 * 10_000_000;
    let written = EPOCH + 1_600_000_123 * 10_000_000;
    let step = fs.set_basic_info(&context, u32::MAX, 0, accessed, written, 0);
    let shown = drive(&mut provider, step, |task, reply| fs.basic_resume(&context, task, reply)).unwrap();
    assert_eq!((shown.last_access_time, shown.last_write_time), (accessed, written));
    assert_eq!((shown.creation_time, shown.change_time), (0, 0));
    assert_eq!(provider.taken(), ["FileMetadata", "SetFileMetadata", "FileMetadata"]);
    for (attributes, created, written, changed) in [
        (1, written, written + 10_000_000, 0),
        (u32::MAX, 0, written + 10_000_000, written),
        (u32::MAX, 0, EPOCH - 10_000_000, 0),
    ] {
        let step = fs.set_basic_info(&context, attributes, created, 0, written, changed);
        let refused = drive(&mut provider, step, |task, reply| fs.basic_resume(&context, task, reply));
        assert_eq!(refused, Err(NtStatus::NotSupported));
        assert!(provider.taken().is_empty());
    }
    let step = fs.set_basic_info(&context, 2 | 1, 0, accessed, 0, 0);
    let refused = drive(&mut provider, step, |task, reply| fs.basic_resume(&context, task, reply));
    assert_eq!(refused, Err(NtStatus::NotSupported));
    assert_eq!(provider.taken(), ["FileMetadata"]);
    let step = fs.set_basic_info(&context, 1, 0, 0, 0, 0);
    let shown = drive(&mut provider, step, |task, reply| fs.basic_resume(&context, task, reply)).unwrap();
    assert_eq!(shown.file_attributes, 1);
    let step = fs.set_basic_info(&context, 0x80, 0, 0, 0, 0);
    let shown = drive(&mut provider, step, |task, reply| fs.basic_resume(&context, task, reply)).unwrap();
    assert_eq!(shown.file_attributes, 0x80);
    provider.taken();
    let step = fs.set_basic_info(&context, 0x80, 0, 0, 0, 0);
    drive(&mut provider, step, |task, reply| fs.basic_resume(&context, task, reply)).unwrap();
    assert_eq!(provider.taken(), ["FileMetadata", "FileMetadata"]);
}

#[test]
fn windows_sees_the_space_of_the_provider() {
    let (mut provider, fs) = driver(true);
    let step = fs.get_volume_info();
    let volume = last(&mut provider, step, |task, reply| fs.volume_resume(task, reply)).unwrap();
    assert_eq!(volume.total_size, 4096 * 1_000_000);
    assert_eq!(volume.free_size, 4096 * 750_000);
    assert_eq!(volume_label(), "ShellCanvas");
    provider.refuse = Some(("Space", FsErrorKind::Unsupported));
    let step = fs.get_volume_info();
    assert_eq!(
        last(&mut provider, step, |task, reply| fs.volume_resume(task, reply)),
        Err(NtStatus::NotSupported)
    );
    let step = fs.get_security_by_name(Some("\\"));
    let security = last(&mut provider, step, |task, reply| fs.security_resume(task, reply)).unwrap();
    assert_eq!((security.reparse, security.descriptor_size, security.attributes), (false, 0, 0x10));
}

#[test]
fn directories_hold_no_data() {
    let (mut provider, mut fs) = driver(true);
    let (root, _) = open(&mut provider, &mut fs, "\\", 1, 1).unwrap();
    assert_eq!(get(&mut provider, &fs, &root, 0, 4), Err(NtStatus::InvalidParameter));
    assert_eq!(put(&mut provider, &fs, &root, b"x", 0, false, false).err(), Some(NtStatus::InvalidParameter));
    let step = fs.overwrite(&root);
    assert_eq!(
        drive(&mut provider, step, |task, reply| fs.resize_resume(task, reply)),
        Err(NtStatus::InvalidParameter)
    );
    let step = fs.flush(&root);
    let shown = drive(&mut provider, step, |task, reply| fs.flush_resume(task, reply)).unwrap();
    assert_eq!(shown.file_attributes, 0x10);
}

#[test]
fn a_volume_flush_asks_every_writer() {
    let (mut provider, mut fs) = driver(true);
    let (_first, _) = create(&mut provider, &mut fs, "\\a", 0, 0x2).unwrap();
    let (second, _) = create(&mut provider, &mut fs, "\\b", 0, 0x1).unwrap();
    close(&mut provider, &mut fs, second);
    let (_reader, _) = open(&mut provider, &mut fs, "\\b", 0, 0x1).unwrap();
    let (writer, _) = open(&mut provider, &mut fs, "\\b", 0, 0x4).unwrap();
    provider.taken();
    let mut step = fs.flush_volume();
    let result = loop {
        match step {
            FlushAllStep::Call { operation, then } => {
                let reply = provider.call(operation);
                step = then.resume(reply);
            }
            FlushAllStep::Done { result } => break fs.volume_flushed(result),
        }
    };
    assert_eq!(result, Ok(()));
    assert_eq!(provider.taken(), ["Flush", "Flush"]);
    let step = fs.flush(&writer);
    assert!(drive(&mut provider, step, |task, reply| fs.flush_resume(task, reply)).is_ok());
    assert_eq!(provider.taken(), ["Flush", "FileMetadata"]);
    assert_eq!(
        fs.volume_flushed(Err(FsError::new(FsErrorKind::Io, "x"))),
        Err(NtStatus::IoDeviceError)
    );
}

#[test]
fn a_refused_part_ends_a_write_and_is_not_sent_again() {
    let (_, fs) = kernel();
    let mut offsets = Vec::new();
    let mut step = fs.write(9, 10, vec![1u8; 100_000]);
    let result = loop {
        match step {
            WriteStep::Call {
                operation: Operation::Write { handle, offset, bytes },
                then,
            } => {
                assert_eq!((handle, bytes.len()), (9, 32768));
                offsets.push(offset);
                step = then.resume(if offsets.len() == 2 {
                    Err(FsError::new(FsErrorKind::TimedOut, "late"))
                } else {
                    Ok(Value::Unit)
                });
            }
            WriteStep::Call { .. } => panic!("Unexpected operation"),
            WriteStep::Done { result } => break write_answer(result),
        }
    };
    assert_eq!(offsets, [10, 10 + 32768]);
    assert_eq!(result, Err(Errno::ETIMEDOUT));
}

#[test]
fn a_provider_that_gives_too_much_is_not_believed() {
    let (_, fs) = kernel();
    let resume = |data: Vec<u8>| match fs.read(9, 0, 4) {
        ReadStep::Call { then, .. } => then.resume(Ok(Value::Data(data))),
        ReadStep::Done { .. } => panic!("Nothing was asked"),
    };
    match resume(vec![0; 5]) {
        ReadStep::Done { result } => assert_eq!(read_answer(result), Err(Errno::EIO)),
        ReadStep::Call { .. } => panic!("More was asked"),
    }
    match resume(vec![7; 3]) {
        ReadStep::Call {
            operation: Operation::Read { offset, length, .. },
            then,
        } => {
            assert_eq!((offset, length), (3, 1));
            match then.resume(Ok(Value::Data(Vec::new()))) {
                ReadStep::Done { result } => assert_eq!(read_answer(result), Ok(vec![7; 3])),
                ReadStep::Call { .. } => panic!("More was asked"),
            }
        }
        _ => panic!("A short read was final"),
    }
}
