//! What successful answers tell the kernel to keep: nothing.
use vstd::prelude::*;
use crate::errno::Errno;
use crate::fuse::{Answer, FileAttr};

verus! {

/// The generation of every number. Numbers are never used again, so that one is enough.
pub const GENERATION: u64 = 1;

/// Attributes, and how many seconds the kernel may keep them.
#[derive(Clone, Copy, Debug, PartialEq, Eq)]
pub struct AttrReply {
    pub attr: FileAttr,
    pub ttl: u64,
}

/// An entry's attributes, how many seconds the kernel may keep the entry, and the
/// generation of its number.
#[derive(Clone, Copy, Debug, PartialEq, Eq)]
pub struct EntryReply {
    pub attr: FileAttr,
    pub ttl: u64,
    pub generation: u64,
}

/// A handle. With `direct_io` the kernel keeps no contents and passes every read
/// and write on.
#[derive(Clone, Copy, Debug, PartialEq, Eq)]
pub struct OpenReply {
    pub fh: u64,
    pub direct_io: bool,
}

/// A new file: its entry and its handle.
#[derive(Clone, Copy, Debug, PartialEq, Eq)]
pub struct CreateReply {
    pub entry: EntryReply,
    pub open: OpenReply,
}

/// Attributes are asked for again every time.
pub open spec fn attributes_shown(attr: FileAttr) -> AttrReply {
    AttrReply { attr, ttl: 0 }
}

/// Entries are looked up again every time.
pub open spec fn entry_shown(attr: FileAttr) -> EntryReply {
    EntryReply { attr, ttl: 0, generation: GENERATION }
}

/// Files are read and written directly.
pub open spec fn file_opened(fh: u64) -> OpenReply {
    OpenReply { fh, direct_io: true }
}

/// Directories have no contents to keep.
pub open spec fn directory_opened(fh: u64) -> OpenReply {
    OpenReply { fh, direct_io: false }
}

/// How a request for attributes, or a change of them, is answered.
pub fn attr_reply(answer: Answer<FileAttr>) -> (reply: Answer<AttrReply>)
    ensures
        reply == (match answer {
            Ok(attr) => Ok::<AttrReply, Errno>(attributes_shown(attr)),
            Err(number) => Err(number),
        }),
{
    match answer {
        Ok(attr) => Ok(AttrReply { attr, ttl: 0 }),
        Err(number) => Err(number),
    }
}

/// How a lookup or a new directory is answered.
pub fn entry_reply(answer: Answer<FileAttr>) -> (reply: Answer<EntryReply>)
    ensures
        reply == (match answer {
            Ok(attr) => Ok::<EntryReply, Errno>(entry_shown(attr)),
            Err(number) => Err(number),
        }),
{
    match answer {
        Ok(attr) => Ok(EntryReply { attr, ttl: 0, generation: GENERATION }),
        Err(number) => Err(number),
    }
}

/// How an open of a file is answered.
pub fn open_reply(answer: Answer<u64>) -> (reply: Answer<OpenReply>)
    ensures
        reply == (match answer {
            Ok(fh) => Ok::<OpenReply, Errno>(file_opened(fh)),
            Err(number) => Err(number),
        }),
{
    match answer {
        Ok(fh) => Ok(OpenReply { fh, direct_io: true }),
        Err(number) => Err(number),
    }
}

/// How an open of a directory is answered.
pub fn opendir_reply(answer: Answer<u64>) -> (reply: Answer<OpenReply>)
    ensures
        reply == (match answer {
            Ok(fh) => Ok::<OpenReply, Errno>(directory_opened(fh)),
            Err(number) => Err(number),
        }),
{
    match answer {
        Ok(fh) => Ok(OpenReply { fh, direct_io: false }),
        Err(number) => Err(number),
    }
}

/// How a new file is answered.
pub fn create_reply(answer: Answer<(FileAttr, u64)>) -> (reply: Answer<CreateReply>)
    ensures
        reply == (match answer {
            Ok((attr, fh)) => Ok::<CreateReply, Errno>(
                CreateReply { entry: entry_shown(attr), open: file_opened(fh) },
            ),
            Err(number) => Err(number),
        }),
{
    match answer {
        Ok((attr, fh)) => Ok(
            CreateReply {
                entry: EntryReply { attr, ttl: 0, generation: GENERATION },
                open: OpenReply { fh, direct_io: true },
            },
        ),
        Err(number) => Err(number),
    }
}

/// No stale contents are served from a cache: every file handle, of an open and of
/// a create alike, is for direct reads and writes, and neither entries nor
/// attributes may be kept.
pub proof fn law_nothing_stale_is_served(attr: FileAttr, fh: u64)
    ensures
        file_opened(fh).direct_io,
        entry_shown(attr).ttl == 0,
        attributes_shown(attr).ttl == 0,
        file_opened(fh).fh == fh,
        entry_shown(attr).attr == attr,
        attributes_shown(attr).attr == attr,
{
}

} // verus!
