//! Listing directories.
use std::collections::VecDeque;
use vstd::prelude::*;
use crate::bridge_control::text_view;
use crate::error::FsResult;
use crate::metadata::{
    append_entries, at_most, ends_with_nothing, entries_view, together, EntryView, FsDirectoryEntry,
};
use crate::path::PathView;
use crate::windows::{
    failure, fill, info_of, status_of, Context, ContextView, Directory, DirectoryView, FileInfo,
    Fs, NtResult, NtStatus,
};
use crate::wire::{reply_view, Operation, OperationView, ReplyView, Value, ValueView};

verus! {

/// Which reply a listing waits for.
#[derive(Clone, Copy, Debug, PartialEq, Eq, Structural)]
pub enum ListStage {
    /// That the directory is closed, to be listed again from its start.
    Closing,
    /// The handle of the directory.
    Opening,
    /// More entries.
    Reading,
    /// Whether the entry that was offered fitted.
    Adding,
}

/// A listing that goes on after the name `marker`. While it is `seeking`, that
/// name has not been met.
pub struct ListTask {
    pub marker: Option<String>,
    pub seeking: bool,
    pub stage: ListStage,
}

#[verifier::ext_equal]
pub struct ListView {
    pub marker: Option<Seq<char>>,
    pub seeking: bool,
    pub stage: ListStage,
}

impl View for ListTask {
    type V = ListView;

    open spec fn view(&self) -> ListView {
        ListView { marker: text_view(self.marker), seeking: self.seeking, stage: self.stage }
    }
}

/// How a listing ends when nothing goes wrong.
#[derive(Clone, Copy, Debug, PartialEq, Eq, Structural)]
pub enum ListEnd {
    /// There are no more entries.
    Complete,
    /// There is no more room; the entry that found none comes first next time.
    Full,
}

pub enum ListStep {
    Call { operation: Operation, then: ListTask },
    /// Offer an entry, then say whether it found room.
    Add { info: FileInfo, name: String, then: ListTask },
    Done { result: NtResult<ListEnd> },
}

pub enum ListStepView {
    Call { operation: OperationView, then: ListView },
    Add { info: FileInfo, name: Seq<char>, then: ListView },
    Done { result: NtResult<ListEnd> },
}

impl View for ListStep {
    type V = ListStepView;

    open spec fn view(&self) -> ListStepView {
        match *self {
            ListStep::Call { operation, then } => ListStepView::Call {
                operation: operation@,
                then: then@,
            },
            ListStep::Add { info, name, then } => ListStepView::Add {
                info,
                name: name@,
                then: then@,
            },
            ListStep::Done { result } => ListStepView::Done { result },
        }
    }
}

/// The number of entries before the first one called `name`.
pub open spec fn place_of(entries: Seq<EntryView>, name: Seq<char>) -> nat
    decreases entries.len(),
{
    if entries.len() == 0 || entries[0].name == name {
        0
    } else {
        1 + place_of(entries.skip(1), name)
    }
}

/// The entries after the first one called `name`; none where there is no such entry.
pub open spec fn after_name(entries: Seq<EntryView>, name: Seq<char>) -> Seq<EntryView> {
    let place = place_of(entries, name) as int;
    if place < entries.len() {
        entries.skip(place + 1)
    } else {
        Seq::empty()
    }
}

impl DirectoryView {
    /// The listing has to start over: it has not started, or it is to go on after
    /// another name than the last.
    pub open spec fn starts_over(self, marker: Option<Seq<char>>) -> bool {
        self.handle is None || marker != self.last
    }

    /// The directory opened anew.
    pub open spec fn opened(self, handle: u64) -> Self {
        DirectoryView { handle: Some(handle), pending: Seq::empty(), last: None, eof: false }
    }

    /// The directory after more entries. None means that there are no more.
    pub open spec fn received(self, entries: Seq<EntryView>) -> Self {
        DirectoryView { pending: self.pending + entries, eof: entries.len() == 0, ..self }
    }

    /// The directory after the entry at the front has been listed.
    pub open spec fn listed(self) -> Self {
        DirectoryView {
            pending: self.pending.skip(1),
            last: Some(self.pending[0].name),
            ..self
        }
    }

    /// The name looked for is among the entries received.
    pub open spec fn meets(self, name: Seq<char>) -> bool {
        place_of(self.pending, name) < self.pending.len()
    }

    /// The directory once the entries up to the marker have been passed, and
    /// whether the marker is still to be met.
    pub open spec fn sought(self, marker: Option<Seq<char>>, seeking: bool) -> (Self, bool) {
        match marker {
            Some(name) => if seeking {
                (
                    DirectoryView { pending: after_name(self.pending, name), ..self },
                    !self.meets(name),
                )
            } else {
                (self, seeking)
            },
            None => (self, seeking),
        }
    }

    /// The listing goes on.
    pub open spec fn list_on(self, marker: Option<Seq<char>>, seeking: bool) -> (
        Self,
        ListStepView,
    ) {
        let (ahead, still) = self.sought(marker, seeking);
        (
            ahead,
            if ahead.pending.len() > 0 {
                ListStepView::Add {
                    info: info_of(ahead.pending[0].metadata),
                    name: ahead.pending[0].name,
                    then: ListView { marker, seeking: still, stage: ListStage::Adding },
                }
            } else if ahead.eof {
                ListStepView::Done { result: Ok(ListEnd::Complete) }
            } else {
                match ahead.handle {
                    Some(handle) => ListStepView::Call {
                        operation: OperationView::ReadDirectory { handle },
                        then: ListView { marker, seeking: still, stage: ListStage::Reading },
                    },
                    None => ListStepView::Done { result: Err(NtStatus::InvalidParameter) },
                }
            },
        )
    }

    /// A listing starts, of the directory at `path`.
    pub open spec fn list(self, path: PathView, marker: Option<Seq<char>>) -> (Self, ListStepView) {
        if !self.starts_over(marker) {
            self.list_on(marker, false)
        } else {
            match self.handle {
                Some(handle) => (
                    DirectoryView { handle: None, ..self },
                    ListStepView::Call {
                        operation: OperationView::CloseDirectory { handle },
                        then: ListView { marker, seeking: false, stage: ListStage::Closing },
                    },
                ),
                None => (
                    self,
                    ListStepView::Call {
                        operation: OperationView::OpenDirectory { path },
                        then: ListView { marker, seeking: false, stage: ListStage::Opening },
                    },
                ),
            }
        }
    }

    pub open spec fn list_resumed(self, path: PathView, task: ListView, reply: ReplyView) -> (
        Self,
        ListStepView,
    ) {
        match reply {
            Err(e) => (self, ListStepView::Done { result: Err(status_of(e.kind)) }),
            Ok(value) => match task.stage {
                ListStage::Closing => (
                    self,
                    ListStepView::Call {
                        operation: OperationView::OpenDirectory { path },
                        then: ListView { stage: ListStage::Opening, ..task },
                    },
                ),
                ListStage::Opening => match value {
                    ValueView::Handle(handle) => self.opened(handle).list_on(
                        task.marker,
                        task.marker is Some,
                    ),
                    _ => (self, ListStepView::Done { result: Err(NtStatus::InvalidParameter) }),
                },
                _ => match value {
                    ValueView::Entries(entries) => self.received(entries).list_on(
                        task.marker,
                        task.seeking,
                    ),
                    _ => (self, ListStepView::Done { result: Err(NtStatus::InvalidParameter) }),
                },
            },
        }
    }

    pub open spec fn list_added(self, task: ListView, full: bool) -> (Self, ListStepView) {
        if full {
            (self, ListStepView::Done { result: Ok(ListEnd::Full) })
        } else {
            self.listed().list_on(task.marker, task.seeking)
        }
    }
}

impl ContextView {
    pub open spec fn with_directory(self, directory: DirectoryView) -> Self {
        ContextView { directory, ..self }
    }
}

proof fn lemma_place(entries: Seq<EntryView>, name: Seq<char>, passed: int)
    requires
        0 <= passed <= entries.len(),
        forall|k: int| 0 <= k < passed ==> (#[trigger] entries[k]).name != name,
    ensures
        place_of(entries, name) == passed + place_of(entries.skip(passed), name),
    decreases passed,
{
    if passed == 0 {
        assert(entries.skip(0) =~= entries);
    } else {
        let rest = entries.skip(1);
        assert(entries[0].name != name);
        assert forall|k: int| 0 <= k < passed - 1 implies (#[trigger] rest[k]).name != name by {
            assert(rest[k] == entries[k + 1]);
        }
        lemma_place(rest, name, passed - 1);
        assert(rest.skip(passed - 1) =~= entries.skip(passed));
    }
}

proof fn lemma_place_bound(entries: Seq<EntryView>, name: Seq<char>)
    ensures
        place_of(entries, name) <= entries.len(),
        place_of(entries, name) < entries.len() ==> entries[place_of(
            entries,
            name,
        ) as int].name == name,
        forall|k: int|
            0 <= k < place_of(entries, name) ==> (#[trigger] entries[k]).name != name,
    decreases entries.len(),
{
    if entries.len() > 0 && entries[0].name != name {
        let rest = entries.skip(1);
        lemma_place_bound(rest, name);
        assert forall|k: int| 0 <= k < place_of(entries, name) implies (#[trigger] entries[k]).name
            != name by {
            if k > 0 {
                assert(rest[k - 1] == entries[k]);
            }
        }
    }
}

/// Drops entries from the front up to the one called `name`; says whether it was met.
fn seek(pending: &mut VecDeque<FsDirectoryEntry>, name: &String) -> (met: bool)
    ensures
        entries_view(final(pending)@) == after_name(entries_view(old(pending)@), name@),
        met == (place_of(entries_view(old(pending)@), name@) < old(pending)@.len()),
{
    let ghost all = entries_view(pending@);
    let ghost mut passed: int = 0;
    proof {
        assert(all.skip(0) =~= all);
    }
    loop
        invariant
            0 <= passed <= all.len(),
            all == entries_view(old(pending)@),
            all.len() == old(pending)@.len(),
            entries_view(pending@) == all.skip(passed),
            forall|k: int| 0 <= k < passed ==> (#[trigger] all[k]).name != name@,
        decreases all.len() - passed,
    {
        let ghost before = pending@;
        match pending.pop_front() {
            None => {
                proof {
                    lemma_place(all, name@, passed);
                    assert(entries_view(before).len() == 0);
                    assert(entries_view(pending@) =~= Seq::<EntryView>::empty());
                }
                return false;
            },
            Some(entry) => {
                proof {
                    assert(entries_view(before)[0] == entry@);
                    assert(entries_view(before).len() == before.len());
                    assert(all.skip(passed).len() == all.len() - passed);
                    assert(all[passed] == all.skip(passed)[0]);
                    assert(entries_view(pending@) =~= entries_view(before).skip(1));
                    assert(all.skip(passed).skip(1) =~= all.skip(passed + 1));
                }
                if entry.name == *name {
                    proof {
                        lemma_place(all, name@, passed);
                    }
                    return true;
                }
                proof {
                    passed = passed + 1;
                }
            },
        }
    }
}

/// Whether two names, or their absence, are the same.
fn same_name(a: &Option<String>, b: &Option<String>) -> (same: bool)
    ensures
        same == (text_view(*a) == text_view(*b)),
{
    match (a, b) {
        (Some(x), Some(y)) => *x == *y,
        (None, None) => true,
        _ => false,
    }
}

impl Directory {
    fn list_on(&mut self, marker: Option<String>, seeking: bool) -> (step: ListStep)
        ensures
            (final(self)@, step@) == old(self)@.list_on(text_view(marker), seeking),
    {
        let mut still = seeking;
        if seeking {
            if let Some(name) = &marker {
                let met = seek(&mut self.pending, name);
                still = !met;
            }
        }
        let ghost ahead = old(self)@.sought(text_view(marker), seeking).0;
        assert(self@ == ahead);
        if self.pending.len() > 0 {
            let entry = &self.pending[0];
            assert(entry@ == ahead.pending[0]);
            return ListStep::Add {
                info: fill(&entry.metadata),
                name: entry.name.clone(),
                then: ListTask { marker, seeking: still, stage: ListStage::Adding },
            };
        }
        if self.eof {
            return ListStep::Done { result: Ok(ListEnd::Complete) };
        }
        match self.handle {
            Some(handle) => ListStep::Call {
                operation: Operation::ReadDirectory { handle },
                then: ListTask { marker, seeking: still, stage: ListStage::Reading },
            },
            None => ListStep::Done { result: Err(NtStatus::InvalidParameter) },
        }
    }
}

impl Fs {
    /// Starts to list the directory of a context after the name `marker`, or from
    /// its start.
    pub fn read_directory(&self, context: &mut Context, marker: Option<String>) -> (step: ListStep)
        requires
            self.wf(),
            self@.holds(old(context)@),
        ensures
            ({
                let (after, asked) = old(context)@.directory.list(
                    self@.path(old(context)@),
                    text_view(marker),
                );
                final(context)@ == old(context)@.with_directory(after) && step@ == asked
            }),
    {
        let same = same_name(&marker, &context.directory.last);
        if context.directory.handle.is_some() && same {
            return context.directory.list_on(marker, false);
        }
        match context.directory.handle {
            Some(handle) => {
                context.directory.handle = None;
                ListStep::Call {
                    operation: Operation::CloseDirectory { handle },
                    then: ListTask { marker, seeking: false, stage: ListStage::Closing },
                }
            },
            None => ListStep::Call {
                operation: Operation::OpenDirectory { path: self.path(context) },
                then: ListTask { marker, seeking: false, stage: ListStage::Opening },
            },
        }
    }

    /// Goes on with the provider's reply.
    pub fn list_resume(&self, context: &mut Context, task: ListTask, reply: FsResult<Value>) -> (step:
        ListStep)
        requires
            self.wf(),
            self@.holds(old(context)@),
            task.stage != ListStage::Adding,
        ensures
            ({
                let (after, asked) = old(context)@.directory.list_resumed(
                    self@.path(old(context)@),
                    task@,
                    reply_view(reply),
                );
                final(context)@ == old(context)@.with_directory(after) && step@ == asked
            }),
    {
        let value = match reply {
            Ok(value) => value,
            Err(e) => {
                return ListStep::Done { result: Err(failure(e)) };
            },
        };
        match task.stage {
            ListStage::Closing => ListStep::Call {
                operation: Operation::OpenDirectory { path: self.path(context) },
                then: ListTask {
                    marker: task.marker,
                    seeking: task.seeking,
                    stage: ListStage::Opening,
                },
            },
            ListStage::Opening => match value {
                Value::Handle(handle) => {
                    let ghost before = context.directory@;
                    context.directory.handle = Some(handle);
                    context.directory.pending = VecDeque::new();
                    context.directory.eof = false;
                    context.directory.last = None;
                    assert(context.directory@.pending =~= Seq::<EntryView>::empty());
                    assert(context.directory@ == before.opened(handle));
                    let seeking = task.marker.is_some();
                    context.directory.list_on(task.marker, seeking)
                },
                _ => ListStep::Done { result: Err(NtStatus::InvalidParameter) },
            },
            _ => match value {
                Value::Entries(entries) => {
                    let ghost before = context.directory@;
                    let ghost new = entries_view(entries@);
                    context.directory.eof = entries.len() == 0;
                    append_entries(&mut context.directory.pending, entries);
                    assert(context.directory@.pending =~= before.pending + new);
                    assert(context.directory@ == before.received(new));
                    context.directory.list_on(task.marker, task.seeking)
                },
                _ => ListStep::Done { result: Err(NtStatus::InvalidParameter) },
            },
        }
    }

    /// Goes on after an entry was offered; `full` says that it found no room.
    pub fn list_added(&self, context: &mut Context, task: ListTask, full: bool) -> (step: ListStep)
        requires
            old(context)@.directory.pending.len() > 0,
        ensures
            ({
                let (after, asked) = old(context)@.directory.list_added(task@, full);
                final(context)@ == old(context)@.with_directory(after) && step@ == asked
            }),
    {
        if full {
            return ListStep::Done { result: Ok(ListEnd::Full) };
        }
        let ghost before = context.directory@;
        if let Some(entry) = context.directory.pending.pop_front() {
            context.directory.last = Some(entry.name);
        }
        assert(context.directory@.pending =~= before.pending.skip(1));
        assert(context.directory@ == before.listed());
        context.directory.list_on(task.marker, task.seeking)
    }
}

/// Every entry listed in the `steps` steps after `at`, when each finds room and
/// the provider answers with `parts`.
pub open spec fn followed(
    at: (DirectoryView, ListStepView),
    path: PathView,
    parts: Seq<Seq<EntryView>>,
    steps: nat,
) -> Seq<(FileInfo, Seq<char>)>
    decreases steps,
{
    if steps == 0 {
        Seq::empty()
    } else {
        let left = (steps - 1) as nat;
        match at.1 {
            ListStepView::Add { info, name, then } => seq![(info, name)] + followed(
                at.0.list_added(then, false),
                path,
                parts,
                left,
            ),
            ListStepView::Call { operation, then } => if parts.len() == 0 {
                Seq::empty()
            } else {
                followed(
                    at.0.list_resumed(path, then, Ok(ValueView::Entries(parts[0]))),
                    path,
                    parts.skip(1),
                    left,
                )
            },
            ListStepView::Done { .. } => Seq::empty(),
        }
    }
}

/// Entries as they are listed.
pub open spec fn shown(entries: Seq<EntryView>) -> Seq<(FileInfo, Seq<char>)> {
    entries.map_values(|entry: EntryView| (info_of(entry.metadata), entry.name))
}

/// The entries that a listing owes out of all that are still to come.
pub open spec fn owed(all: Seq<EntryView>, marker: Option<Seq<char>>, seeking: bool) -> Seq<
    EntryView,
> {
    match marker {
        Some(name) => if seeking {
            after_name(all, name)
        } else {
            all
        },
        None => all,
    }
}

/// A listing gives every entry still to come, or every entry after the marker it
/// looks for, once and in the provider's order, whatever the sizes of the
/// provider's parts.
pub proof fn law_a_listing_is_complete(
    directory: DirectoryView,
    path: PathView,
    marker: Option<Seq<char>>,
    seeking: bool,
    parts: Seq<Seq<EntryView>>,
    steps: nat,
)
    requires
        directory.handle is Some,
        directory.eof ==> parts.len() == 0,
        !directory.eof ==> ends_with_nothing(parts),
        steps >= directory.pending.len() + parts.flatten().len() + parts.len(),
    ensures
        followed(directory.list_on(marker, seeking), path, parts, steps) == shown(
            owed(directory.pending + parts.flatten(), marker, seeking),
        ),
    decreases parts.len(), directory.pending.len(),
{
    let all = directory.pending + parts.flatten();
    let (ahead, still) = directory.sought(marker, seeking);
    let at = directory.list_on(marker, seeking);
    if seeking && marker is Some {
        lemma_after_name_joined(directory.pending, parts.flatten(), marker->0);
        lemma_place_bound(directory.pending, marker->0);
    }
    let left_over = ahead.pending + parts.flatten();
    assert(owed(all, marker, seeking) =~= owed(left_over, marker, still)) by {
        if seeking && marker is Some {
            if !directory.meets(marker->0) {
                assert(left_over =~= parts.flatten());
            }
        }
    }
    if ahead.pending.len() > 0 {
        let rest = ahead.listed();
        law_a_listing_is_complete(rest, path, marker, still, parts, (steps - 1) as nat);
        assert(owed(left_over, marker, still) =~= seq![ahead.pending[0]] + owed(
            rest.pending + parts.flatten(),
            marker,
            still,
        ));
        assert(shown(owed(left_over, marker, still)) =~= seq![
            (info_of(ahead.pending[0].metadata), ahead.pending[0].name),
        ] + shown(owed(rest.pending + parts.flatten(), marker, still)));
    } else if ahead.eof {
        assert(parts.flatten() =~= Seq::<EntryView>::empty());
        assert(left_over =~= Seq::<EntryView>::empty());
        assert(shown(owed(left_over, marker, still)) =~= Seq::<(FileInfo, Seq<char>)>::empty());
    } else {
        let entries = parts[0];
        let more = ahead.received(entries);
        let left = parts.skip(1);
        assert(parts.drop_first() =~= left);
        assert(more.pending + left.flatten() =~= left_over);
        if entries.len() == 0 {
            assert(parts.len() == 1);
        } else {
            assert(parts.len() > 1);
            assert(left.last() == parts.last());
            assert forall|k: int| 0 <= k < left.len() - 1 implies (#[trigger] left[k]).len()
                > 0 by {
                assert(left[k] == parts[k + 1]);
            }
        }
        law_a_listing_is_complete(more, path, marker, still, left, (steps - 1) as nat);
    }
}

proof fn lemma_after_name_joined(first: Seq<EntryView>, second: Seq<EntryView>, name: Seq<char>)
    ensures
        after_name(first + second, name) == (if place_of(first, name) < first.len() {
            after_name(first, name) + second
        } else {
            after_name(second, name)
        }),
{
    let all = first + second;
    lemma_place_bound(first, name);
    let place = place_of(first, name) as int;
    assert forall|k: int| 0 <= k < place implies (#[trigger] all[k]).name != name by {
        assert(all[k] == first[k]);
    }
    lemma_place(all, name, place);
    if place < first.len() {
        assert(all.skip(place)[0] == first[place]);
        assert(place_of(all, name) == place);
        assert(all.skip(place + 1) =~= first.skip(place + 1) + second);
    } else {
        assert(all.skip(place) =~= second);
        lemma_place_bound(second, name);
        let further = place_of(second, name) as int;
        if further < second.len() {
            assert(all.skip(place + further + 1) =~= second.skip(further + 1));
        }
    }
}

/// A listing that stopped for want of room goes on where it stopped, without
/// asking the provider again, when it is continued after the name listed last.
pub proof fn law_a_full_listing_goes_on(directory: DirectoryView, task: ListView, path: PathView)
    requires
        directory.handle is Some,
        directory.pending.len() > 0,
    ensures
        ({
            let (stopped, step) = directory.list_added(task, true);
            &&& step == (ListStepView::Done { result: Ok(ListEnd::Full) })
            &&& stopped.list(path, directory.last) == (
                directory,
                ListStepView::Add {
                    info: info_of(directory.pending[0].metadata),
                    name: directory.pending[0].name,
                    then: ListView {
                        marker: directory.last,
                        seeking: false,
                        stage: ListStage::Adding,
                    },
                },
            )
        }),
{
}

/// Where a series of requests to list a directory has got.
pub struct Told {
    /// The directory now.
    pub directory: DirectoryView,
    /// The provider's replies still to come.
    pub left: Seq<Seq<EntryView>>,
    /// What Windows was given.
    pub listed: Seq<(FileInfo, Seq<char>)>,
    /// How the last request ended.
    pub end: Option<ListEnd>,
}

/// What `steps` steps after `at` come to when there is room for `room` more
/// entries. The provider opens the directory as `handle` and then answers with
/// `all`, of which `left` is still to come.
pub open spec fn filled(
    at: (DirectoryView, ListStepView),
    path: PathView,
    handle: u64,
    all: Seq<Seq<EntryView>>,
    left: Seq<Seq<EntryView>>,
    room: nat,
    steps: nat,
) -> Told
    decreases steps,
{
    let stopped = Told { directory: at.0, left, listed: Seq::empty(), end: None };
    if steps == 0 {
        stopped
    } else {
        let fewer = (steps - 1) as nat;
        match at.1 {
            ListStepView::Add { info, name, then } => if room == 0 {
                filled(at.0.list_added(then, true), path, handle, all, left, 0, fewer)
            } else {
                let rest = filled(
                    at.0.list_added(then, false),
                    path,
                    handle,
                    all,
                    left,
                    (room - 1) as nat,
                    fewer,
                );
                Told { listed: seq![(info, name)] + rest.listed, ..rest }
            },
            ListStepView::Call { operation, then } => match operation {
                OperationView::CloseDirectory { .. } => filled(
                    at.0.list_resumed(path, then, Ok(ValueView::Unit)),
                    path,
                    handle,
                    all,
                    left,
                    room,
                    fewer,
                ),
                OperationView::OpenDirectory { .. } => filled(
                    at.0.list_resumed(path, then, Ok(ValueView::Handle(handle))),
                    path,
                    handle,
                    all,
                    all,
                    room,
                    fewer,
                ),
                _ => if left.len() == 0 {
                    stopped
                } else {
                    filled(
                        at.0.list_resumed(path, then, Ok(ValueView::Entries(left[0]))),
                        path,
                        handle,
                        all,
                        left.skip(1),
                        room,
                        fewer,
                    )
                },
            },
            ListStepView::Done { result } => match result {
                Ok(end) => Told { end: Some(end), ..stopped },
                Err(_) => stopped,
            },
        }
    }
}

/// What requests with room for `rooms` entries come to, one after the other. The
/// first starts at the beginning, and each later one goes on after the name that
/// Windows was given last.
pub open spec fn told(
    directory: DirectoryView,
    path: PathView,
    handle: u64,
    all: Seq<Seq<EntryView>>,
    rooms: Seq<nat>,
    steps: nat,
) -> Told
    decreases rooms.len(),
{
    if rooms.len() == 0 {
        Told { directory, left: Seq::empty(), listed: Seq::empty(), end: None }
    } else {
        let before = told(directory, path, handle, all, rooms.drop_last(), steps);
        let marker = if before.listed.len() == 0 {
            None
        } else {
            Some(before.listed.last().1)
        };
        let now = filled(
            before.directory.list(path, marker),
            path,
            handle,
            all,
            before.left,
            rooms.last(),
            steps,
        );
        Told { listed: before.listed + now.listed, ..now }
    }
}

/// The provider's replies still to come fit what is known of the directory.
spec fn fits(directory: DirectoryView, left: Seq<Seq<EntryView>>) -> bool {
    &&& directory.handle is Some
    &&& directory.eof ==> left.len() == 0
    &&& !directory.eof ==> ends_with_nothing(left)
}

/// One request that goes on lists what there is room for and leaves the rest.
proof fn lemma_filled(
    directory: DirectoryView,
    path: PathView,
    handle: u64,
    all: Seq<Seq<EntryView>>,
    left: Seq<Seq<EntryView>>,
    marker: Option<Seq<char>>,
    room: nat,
    steps: nat,
)
    requires
        fits(directory, left),
        steps >= directory.pending.len() + left.flatten().len() + left.len() + 2,
    ensures
        ({
            let rest = directory.pending + left.flatten();
            let count = at_most(room, rest.len());
            let after = filled(
                directory.list_on(marker, false),
                path,
                handle,
                all,
                left,
                room,
                steps,
            );
            &&& fits(after.directory, after.left)
            &&& after.listed == shown(rest.take(count))
            &&& after.directory.pending + after.left.flatten() == rest.skip(count)
            &&& after.left.len() <= left.len()
            &&& after.end == Some(
                if room >= rest.len() {
                    ListEnd::Complete
                } else {
                    ListEnd::Full
                },
            )
            &&& after.directory.last == (if count == 0 {
                directory.last
            } else {
                Some(rest[count - 1].name)
            })
        }),
    decreases left.len(), directory.pending.len(),
{
    let rest = directory.pending + left.flatten();
    let count = at_most(room, rest.len());
    let at = directory.list_on(marker, false);
    let after = filled(at, path, handle, all, left, room, steps);
    if directory.pending.len() > 0 {
        assert(rest[0] == directory.pending[0]);
        if room == 0 {
            reveal_with_fuel(filled, 2);
            assert(rest.skip(0) =~= rest);
            assert(shown(rest.take(0)) =~= Seq::<(FileInfo, Seq<char>)>::empty());
        } else {
            let next = directory.listed();
            lemma_filled(
                next,
                path,
                handle,
                all,
                left,
                marker,
                (room - 1) as nat,
                (steps - 1) as nat,
            );
            let later = next.pending + left.flatten();
            assert(later =~= rest.skip(1));
            assert(later.skip(count - 1) =~= rest.skip(count));
            assert(shown(rest.take(count)) =~= seq![(info_of(rest[0].metadata), rest[0].name)]
                + shown(later.take(count - 1)));
            if count > 1 {
                assert(later[count - 2] == rest[count - 1]);
            }
        }
    } else if directory.eof {
        assert(left.flatten() =~= Seq::<EntryView>::empty());
        assert(rest =~= Seq::<EntryView>::empty());
        assert(shown(rest.take(0)) =~= Seq::<(FileInfo, Seq<char>)>::empty());
        assert(after.directory.pending + after.left.flatten() =~= rest.skip(0));
    } else {
        let entries = left[0];
        let more = directory.received(entries);
        let fewer = left.skip(1);
        assert(left.drop_first() =~= fewer);
        assert(more.pending + fewer.flatten() =~= rest);
        if entries.len() == 0 {
            assert(left.len() == 1);
        } else {
            assert(left.len() > 1);
            assert(fewer.last() == left.last());
            assert forall|k: int| 0 <= k < fewer.len() - 1 implies (#[trigger] fewer[k]).len()
                > 0 by {
                assert(fewer[k] == left[k + 1]);
            }
        }
        lemma_filled(more, path, handle, all, fewer, marker, room, (steps - 1) as nat);
    }
}

/// Over several requests, however much room each has, Windows is given the
/// directory's entries in the provider's order, none lost and none repeated: as
/// many as there was room for, and all of them once there was room for all. The
/// last request says that the listing is complete exactly then.
pub proof fn law_a_listing_in_parts_is_complete(
    directory: DirectoryView,
    path: PathView,
    handle: u64,
    all: Seq<Seq<EntryView>>,
    rooms: Seq<nat>,
    steps: nat,
)
    requires
        directory.starts_over(None),
        ends_with_nothing(all),
        steps >= all.flatten().len() + all.len() + 4,
    ensures
        ({
            let entries = all.flatten();
            let after = told(directory, path, handle, all, rooms, steps);
            &&& after.listed == shown(
                entries.take(at_most(together(rooms), entries.len())),
            )
            &&& rooms.len() > 0 ==> after.end == Some(
                if together(rooms) >= entries.len() {
                    ListEnd::Complete
                } else {
                    ListEnd::Full
                },
            )
        }),
{
    lemma_told(directory, path, handle, all, rooms, steps);
}

proof fn lemma_told(
    directory: DirectoryView,
    path: PathView,
    handle: u64,
    all: Seq<Seq<EntryView>>,
    rooms: Seq<nat>,
    steps: nat,
)
    requires
        directory.starts_over(None),
        ends_with_nothing(all),
        steps >= all.flatten().len() + all.len() + 4,
    ensures
        ({
            let entries = all.flatten();
            let count = at_most(together(rooms), entries.len());
            let after = told(directory, path, handle, all, rooms, steps);
            &&& after.listed == shown(entries.take(count))
            &&& rooms.len() > 0 ==> {
                &&& fits(after.directory, after.left)
                &&& after.left.len() <= all.len()
                &&& after.directory.pending + after.left.flatten() == entries.skip(count)
                &&& after.directory.last == (if count == 0 {
                    None
                } else {
                    Some(entries[count - 1].name)
                })
                &&& after.end == Some(
                    if together(rooms) >= entries.len() {
                        ListEnd::Complete
                    } else {
                        ListEnd::Full
                    },
                )
            }
        }),
    decreases rooms.len(),
{
    let entries = all.flatten();
    if rooms.len() == 0 {
        assert(shown(entries.take(0)) =~= Seq::<(FileInfo, Seq<char>)>::empty());
    } else {
        let earlier = rooms.drop_last();
        lemma_told(directory, path, handle, all, earlier, steps);
        let before = told(directory, path, handle, all, earlier, steps);
        let done = at_most(together(earlier), entries.len());
        let count = at_most(together(rooms), entries.len());
        let room = rooms.last();
        if earlier.len() == 0 {
            assert(done == 0);
            let fresh = directory.opened(handle);
            let gone = if directory.handle is Some {
                2nat
            } else {
                1nat
            };
            reveal_with_fuel(filled, 3);
            lemma_filled(fresh, path, handle, all, all, None, room, (steps - gone) as nat);
            assert(fresh.pending + entries =~= entries);
            assert(filled(directory.list(path, None), path, handle, all, before.left, room, steps)
                == filled(
                fresh.list_on(None, false),
                path,
                handle,
                all,
                all,
                room,
                (steps - gone) as nat,
            ));
        } else {
            let marker = if before.listed.len() == 0 {
                None
            } else {
                Some(before.listed.last().1)
            };
            let rest = entries.skip(done);
            assert(rest.len() == before.directory.pending.len() + before.left.flatten().len());
            if done > 0 {
                assert(before.listed.last().1 == entries[done - 1].name);
            }
            assert(before.directory.last == marker);
            lemma_filled(
                before.directory,
                path,
                handle,
                all,
                before.left,
                marker,
                room,
                steps,
            );
            let more = at_most(room, rest.len());
            assert(done + more == count);
            assert(rest.skip(more) =~= entries.skip(count));
            assert(entries.take(done) + rest.take(more) =~= entries.take(count));
            assert(shown(entries.take(count)) =~= shown(entries.take(done)) + shown(
                rest.take(more),
            ));
            if more > 0 {
                assert(rest[more - 1] == entries[count - 1]);
            }
        }
        assert(shown(entries.take(0)) =~= Seq::<(FileInfo, Seq<char>)>::empty());
    }
}

/// A listing goes on where it stopped exactly if Windows names the entry listed last;
/// with any other marker, or none after some were listed, the directory is closed and
/// opened again where it is, and what had been received is dropped.
pub proof fn law_another_marker_starts_over(
    directory: DirectoryView,
    path: PathView,
    marker: Option<Seq<char>>,
    handle: u64,
    fresh: u64,
    done: ValueView,
)
    requires
        directory.handle == Some(handle),
    ensures
        marker == directory.last ==> directory.list(path, marker) == directory.list_on(
            marker,
            false,
        ),
        marker != directory.last ==> {
            let (closing, first) = directory.list(path, marker);
            let (opening, second) = closing.list_resumed(path, first->Call_then, Ok(done));
            let (reading, third) = opening.list_resumed(
                path,
                second->Call_then,
                Ok(ValueView::Handle(fresh)),
            );
            &&& first->operation == (OperationView::CloseDirectory { handle })
            &&& closing.handle is None
            &&& second->operation == (OperationView::OpenDirectory { path })
            &&& third->operation == (OperationView::ReadDirectory { handle: fresh })
            &&& reading.handle == Some(fresh) && reading.pending.len() == 0 && reading.last is None
                && !reading.eof
        },
{
}

/// A listing that the provider refuses, or answers with something else, ends with that
/// status.
pub proof fn law_a_failed_listing_says_so(
    directory: DirectoryView,
    path: PathView,
    task: ListView,
    error: crate::error::FsErrorView,
)
    ensures
        directory.list_resumed(path, task, Err(error)) == (
            directory,
            ListStepView::Done { result: Err(status_of(error.kind)) },
        ),
        task.stage == ListStage::Reading || task.stage == ListStage::Opening
            ==> directory.list_resumed(path, task, Ok(ValueView::Unit)) == (
            directory,
            ListStepView::Done { result: Err(NtStatus::InvalidParameter) },
        ),
{
}

/// A listing that has to find its marker again lists what comes after the first entry
/// of that name: everything up to it is passed over, and nothing after it.
pub proof fn law_a_marker_is_found_again(
    before: Seq<EntryView>,
    marked: EntryView,
    after: Seq<EntryView>,
)
    requires
        forall|k: int| 0 <= k < before.len() ==> (#[trigger] before[k]).name != marked.name,
    ensures
        after_name(before + seq![marked] + after, marked.name) == after,
        after_name(before, marked.name) == Seq::<EntryView>::empty(),
{
    let all = before + seq![marked] + after;
    assert forall|k: int| 0 <= k < before.len() implies (#[trigger] all[k]).name != marked.name by {
        assert(all[k] == before[k]);
    }
    lemma_place(all, marked.name, before.len() as int);
    assert(all.skip(before.len() as int)[0] == marked);
    assert(all.skip(before.len() as int + 1) =~= after);
    lemma_place(before, marked.name, before.len() as int);
}

} // verus!
