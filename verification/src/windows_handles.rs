//! Bookkeeping of the descriptors that Windows holds open.
use vstd::prelude::*;
use crate::error::{FsError, FsErrorView, FsResult};
use crate::path::{rebased, within, MountPath, PathView};
use crate::wire::{reply_view, Operation, OperationView, ReplyView, Value};

verus! {

/// Access rights with which a directory handle can change the directory.
pub const DIRECTORY_MUTATION: u32 = 0xd0116;

/// Handles that only browse a directory hold neither data nor mappings; files and
/// directory handles that can change something keep the drive in use.
pub fn blocks_detach(is_directory: bool, granted_access: u32) -> (blocks: bool)
    ensures
        blocks == blocking(is_directory, granted_access),
{
    !is_directory || granted_access & DIRECTORY_MUTATION != 0
}

pub open spec fn blocking(is_directory: bool, granted_access: u32) -> bool {
    !is_directory || granted_access & DIRECTORY_MUTATION != 0
}

/// One open descriptor: where its entry is now, and the provider's handle while
/// it has one.
#[derive(Debug)]
pub struct OpenHandle {
    pub path: MountPath,
    pub file: Option<u64>,
    pub writable: bool,
}

#[verifier::ext_equal]
pub struct HandleView {
    pub path: PathView,
    pub file: Option<u64>,
    pub writable: bool,
}

impl View for OpenHandle {
    type V = HandleView;

    open spec fn view(&self) -> HandleView {
        HandleView { path: self.path@, file: self.file, writable: self.writable }
    }
}

impl HandleView {
    /// The descriptor after `from` has become `to`.
    pub open spec fn renamed(self, from: PathView, to: PathView) -> Self {
        if within(self.path, from) {
            HandleView { path: rebased(self.path, from, to), ..self }
        } else {
            self
        }
    }

    /// The descriptor without its provider's handle.
    pub open spec fn file_closed(self) -> Self {
        HandleView { file: None, ..self }
    }
}

/// A registered descriptor and its number.
pub struct Registered {
    id: u64,
    handle: OpenHandle,
}

pub struct OpenHandles {
    entries: Vec<Registered>,
}

/// The registered descriptors with their numbers, oldest first.
pub type HandlesView = Seq<(u64, HandleView)>;

/// What a registered descriptor says.
spec fn registered_view(entry: Registered) -> (u64, HandleView) {
    (entry.id, entry.handle@)
}

spec fn registered_views(entries: Seq<Registered>) -> HandlesView {
    entries.map_values(|entry: Registered| registered_view(entry))
}

impl View for OpenHandles {
    type V = HandlesView;

    closed spec fn view(&self) -> HandlesView {
        registered_views(self.entries@)
    }
}

/// The place of the descriptor `id`.
pub open spec fn is_at(handles: HandlesView, id: u64, place: int) -> bool {
    0 <= place < handles.len() && handles[place].0 == id
}

/// The descriptor `id` is registered.
pub open spec fn knows(handles: HandlesView, id: u64) -> bool {
    exists|place: int| is_at(handles, id, place)
}

/// The descriptor `id`.
pub open spec fn handle_of(handles: HandlesView, id: u64) -> HandleView {
    handles[choose|place: int| is_at(handles, id, place)].1
}

/// No two descriptors share a number.
pub open spec fn distinct(handles: HandlesView) -> bool {
    forall|i: int, j: int|
        0 <= i < j < handles.len() ==> (#[trigger] handles[i]).0 != (#[trigger] handles[j]).0
}

/// A descriptor has another number than `id`.
pub open spec fn other_than(id: u64) -> spec_fn((u64, HandleView)) -> bool {
    |entry: (u64, HandleView)| entry.0 != id
}

/// The descriptors but `id`, in the same order.
pub open spec fn without(handles: HandlesView, id: u64) -> HandlesView {
    handles.filter(other_than(id))
}

/// The descriptors after `from` has become `to`.
pub open spec fn all_renamed(handles: HandlesView, from: PathView, to: PathView) -> HandlesView {
    handles.map_values(|entry: (u64, HandleView)| (entry.0, entry.1.renamed(from, to)))
}

/// The descriptors after `id` has lost its provider's handle.
pub open spec fn with_file_closed(handles: HandlesView, id: u64) -> HandlesView {
    handles.map_values(
        |entry: (u64, HandleView)|
            if entry.0 == id {
                (entry.0, entry.1.file_closed())
            } else {
                entry
            },
    )
}

/// The provider's handle that a flush of the volume visits for a descriptor.
pub open spec fn is_writer(handle: HandleView) -> bool {
    handle.writable && handle.file is Some
}

/// The provider's handles of all writers, oldest first.
pub open spec fn writers(handles: HandlesView) -> Seq<u64> {
    handles.filter(|entry: (u64, HandleView)| is_writer(entry.1)).map_values(
        |entry: (u64, HandleView)| entry.1.file->0,
    )
}

/// A flush of all writers: those before `done` have been asked, and `error` is
/// the first failure.
pub struct FlushAllTask {
    pub files: Vec<u64>,
    pub done: usize,
    pub error: Option<FsError>,
}

#[verifier::ext_equal]
pub struct FlushAllView {
    pub files: Seq<u64>,
    pub done: int,
    pub error: Option<FsErrorView>,
}

impl View for FlushAllTask {
    type V = FlushAllView;

    open spec fn view(&self) -> FlushAllView {
        FlushAllView {
            files: self.files@,
            done: self.done as int,
            error: match self.error {
                Some(e) => Some(e@),
                None => None,
            },
        }
    }
}

pub enum FlushAllStep {
    Call { operation: Operation, then: FlushAllTask },
    Done { result: FsResult<()> },
}

pub enum FlushAllStepView {
    Call { operation: OperationView, then: FlushAllView },
    Done { result: Result<(), FsErrorView> },
}

impl View for FlushAllStep {
    type V = FlushAllStepView;

    open spec fn view(&self) -> FlushAllStepView {
        match *self {
            FlushAllStep::Call { operation, then } => FlushAllStepView::Call {
                operation: operation@,
                then: then@,
            },
            FlushAllStep::Done { result } => FlushAllStepView::Done {
                result: match result {
                    Ok(_) => Ok(()),
                    Err(e) => Err(e@),
                },
            },
        }
    }
}

impl FlushAllView {
    /// The next writer is asked; after the last one the first failure is returned.
    pub open spec fn step(self) -> FlushAllStepView {
        if self.done < self.files.len() {
            FlushAllStepView::Call {
                operation: OperationView::Flush { handle: self.files[self.done] },
                then: self,
            }
        } else {
            FlushAllStepView::Done {
                result: match self.error {
                    Some(e) => Err(e),
                    None => Ok(()),
                },
            }
        }
    }

    /// A failure does not keep the other writers from being asked.
    pub open spec fn resumed(self, reply: ReplyView) -> FlushAllStepView {
        FlushAllView {
            done: self.done + 1,
            error: match (self.error, reply) {
                (None, Err(e)) => Some(e),
                (error, _) => error,
            },
            ..self
        }.step()
    }
}

impl FlushAllTask {
    fn step(self) -> (step: FlushAllStep)
        ensures
            step@ == self@.step(),
    {
        if self.done < self.files.len() {
            let handle: u64 = self.files[self.done];
            return FlushAllStep::Call { operation: Operation::Flush { handle }, then: self };
        }
        FlushAllStep::Done {
            result: match self.error {
                Some(e) => Err(e),
                None => Ok(()),
            },
        }
    }

    /// Goes on with the reply to the pending request.
    pub fn resume(self, reply: FsResult<Value>) -> (step: FlushAllStep)
        requires
            self@.done < self@.files.len(),
        ensures
            step@ == self@.resumed(reply_view(reply)),
    {
        let total: usize = self.files.len();
        assert(self.done < total);
        let error = match self.error {
            Some(e) => Some(e),
            None => match reply {
                Ok(_) => None,
                Err(e) => Some(e),
            },
        };
        FlushAllTask { files: self.files, done: self.done + 1, error }.step()
    }
}

/// Numbers below `bound` that all occur among the descriptors are no more than
/// there are descriptors.
proof fn lemma_room(handles: HandlesView, bound: int)
    requires
        0 <= bound <= u64::MAX + 1,
        forall|k: u64| k < bound ==> #[trigger] knows(handles, k),
    ensures
        bound <= handles.len(),
{
    let numbers = handles.map_values(|entry: (u64, HandleView)| entry.0 as int);
    let range = vstd::set_lib::set_int_range(0, bound);
    vstd::set_lib::lemma_int_range(0, bound);
    assert forall|k: int| #[trigger] range.contains(k) implies numbers.to_set().contains(k) by {
        let number = k as u64;
        assert(knows(handles, number));
        let place = choose|place: int| is_at(handles, number, place);
        assert(numbers[place] == k);
    }
    assert(range.subset_of(numbers.to_set()));
    numbers.lemma_cardinality_of_set();
    vstd::set_lib::lemma_len_subset(range, numbers.to_set());
}

impl Default for OpenHandles {
    fn default() -> (handles: Self)
        ensures
            handles@ == HandlesView::empty(),
    {
        let handles = OpenHandles { entries: Vec::new() };
        assert(handles@ =~= HandlesView::empty());
        handles
    }
}

impl OpenHandles {
    /// Whether the descriptor `id` is registered.
    pub fn contains(&self, id: u64) -> (registered: bool)
        ensures
            registered == knows(self@, id),
    {
        self.find(id).is_some()
    }

    fn find(&self, id: u64) -> (place: Option<usize>)
        ensures
            match place {
                Some(k) => is_at(self@, id, k as int),
                None => !knows(self@, id),
            },
    {
        let mut i: usize = 0;
        while i < self.entries.len()
            invariant
                i <= self.entries@.len(),
                forall|k: int| 0 <= k < i ==> (#[trigger] self@[k]).0 != id,
            decreases self.entries@.len() - i,
        {
            if self.entries[i].id == id {
                assert(is_at(self@, id, i as int));
                return Some(i);
            }
            assert(self@[i as int].0 != id);
            i += 1;
        }
        None
    }

    /// A number that no descriptor has.
    fn unused(&self) -> (id: u64)
        ensures
            !knows(self@, id),
    {
        let count: usize = self.entries.len();
        let mut id: u64 = 0;
        while self.contains(id)
            invariant
                count == self@.len(),
                forall|k: u64| k < id ==> #[trigger] knows(self@, k),
            decreases count + 1 - id,
        {
            proof {
                lemma_room(self@, id + 1);
            }
            id = id + 1;
        }
        id
    }

    /// Registers a descriptor and returns its number.
    pub fn register(&mut self, handle: OpenHandle) -> (id: u64)
        requires
            distinct(old(self)@),
        ensures
            distinct(final(self)@),
            !knows(old(self)@, id),
            final(self)@ == old(self)@.push((id, handle@)),
    {
        let id: u64 = self.unused();
        let ghost view = handle@;
        self.entries.push(Registered { id, handle });
        proof {
            assert(self@ =~= old(self)@.push((id, view)));
            assert forall|i: int, j: int| 0 <= i < j < self@.len() implies (#[trigger] self@[i]).0
                != (#[trigger] self@[j]).0 by {
                if j == old(self)@.len() {
                    assert(!is_at(old(self)@, id, i));
                }
            }
        }
        id
    }

    /// Where the entry of the descriptor `id` is now.
    pub fn path(&self, id: u64) -> (path: MountPath)
        requires
            distinct(self@),
            knows(self@, id),
        ensures
            path@ == handle_of(self@, id).path,
    {
        proof {
            lemma_one_place(self@, id);
        }
        match self.find(id) {
            Some(k) => self.entries[k].handle.path.clone(),
            None => MountPath::root(),
        }
    }

    /// The provider's handle of the descriptor `id`, while it has one.
    pub fn file(&self, id: u64) -> (file: Option<u64>)
        requires
            distinct(self@),
            knows(self@, id),
        ensures
            file == handle_of(self@, id).file,
    {
        proof {
            lemma_one_place(self@, id);
        }
        match self.find(id) {
            Some(k) => self.entries[k].handle.file,
            None => None,
        }
    }

    /// Takes the provider's handle away from the descriptor `id`.
    pub fn close_file(&mut self, id: u64)
        requires
            distinct(old(self)@),
        ensures
            distinct(final(self)@),
            final(self)@ == with_file_closed(old(self)@, id),
    {
        let mut entries: Vec<Registered> = Vec::new();
        std::mem::swap(&mut entries, &mut self.entries);
        let ghost all = entries@;
        assert(registered_views(all) =~= old(self)@);
        let mut kept: Vec<Registered> = Vec::new();
        for entry in it: entries
            invariant
                it.seq() == all,
                registered_views(all) == old(self)@,
                registered_views(kept@) == with_file_closed(old(self)@, id).take(it.index() as int),
        {
            let ghost before = kept@;
            let ghost index = it.index() as int;
            assert(old(self)@[index] == registered_view(entry));
            let file = if entry.id == id {
                None
            } else {
                entry.handle.file
            };
            kept.push(
                Registered {
                    id: entry.id,
                    handle: OpenHandle {
                        path: entry.handle.path,
                        file,
                        writable: entry.handle.writable,
                    },
                },
            );
            assert(registered_views(kept@) =~= registered_views(before).push(
                with_file_closed(old(self)@, id)[index],
            ));
            assert(registered_views(kept@) =~= with_file_closed(old(self)@, id).take(index + 1));
        }
        self.entries = kept;
        assert(self@ =~= with_file_closed(old(self)@, id));
    }

    /// Forgets the descriptor `id`.
    pub fn release(&mut self, id: u64)
        requires
            distinct(old(self)@),
        ensures
            distinct(final(self)@),
            final(self)@ == without(old(self)@, id),
    {
        let mut entries: Vec<Registered> = Vec::new();
        std::mem::swap(&mut entries, &mut self.entries);
        let ghost all = entries@;
        assert(registered_views(all) =~= old(self)@);
        let mut kept: Vec<Registered> = Vec::new();
        proof {
            assert(old(self)@.take(0) =~= HandlesView::empty());
            assert(without(old(self)@.take(0), id) =~= HandlesView::empty()) by {
                reveal(Seq::filter);
            }
            assert(registered_views(kept@) =~= HandlesView::empty());
        }
        for entry in it: entries
            invariant
                it.seq() == all,
                registered_views(all) == old(self)@,
                registered_views(kept@) == without(old(self)@.take(it.index() as int), id),
        {
            let ghost before = kept@;
            let ghost index = it.index() as int;
            assert(old(self)@[index] == registered_view(entry));
            proof {
                lemma_filter_next(old(self)@, index, other_than(id));
            }
            if entry.id != id {
                kept.push(entry);
                assert(registered_views(kept@) =~= registered_views(before).push(
                    old(self)@[index],
                ));
            }
        }
        assert(old(self)@.take(old(self)@.len() as int) =~= old(self)@);
        self.entries = kept;
        proof {
            lemma_without_is_distinct(old(self)@, id);
        }
    }

    /// Follows a rename, of which `result` is the outcome: the paths change only
    /// where the provider has confirmed it.
    pub fn rename(&mut self, from: &MountPath, to: &MountPath, result: FsResult<()>) -> (outcome:
        FsResult<()>)
        requires
            distinct(old(self)@),
        ensures
            distinct(final(self)@),
            outcome == result,
            final(self)@ == (if result is Ok {
                all_renamed(old(self)@, from@, to@)
            } else {
                old(self)@
            }),
    {
        if result.is_err() {
            return result;
        }
        let mut entries: Vec<Registered> = Vec::new();
        std::mem::swap(&mut entries, &mut self.entries);
        let ghost all = entries@;
        let ghost goal = all_renamed(old(self)@, from@, to@);
        assert(registered_views(all) =~= old(self)@);
        let mut moved: Vec<Registered> = Vec::new();
        assert(registered_views(moved@) =~= goal.take(0));
        for entry in it: entries
            invariant
                it.seq() == all,
                registered_views(all) == old(self)@,
                goal == all_renamed(old(self)@, from@, to@),
                registered_views(moved@) == goal.take(it.index() as int),
        {
            let ghost before = moved@;
            let ghost index = it.index() as int;
            assert(old(self)@[index] == registered_view(entry));
            let path = match entry.handle.path.rebase(from, to) {
                Some(path) => path,
                None => entry.handle.path,
            };
            moved.push(
                Registered {
                    id: entry.id,
                    handle: OpenHandle {
                        path,
                        file: entry.handle.file,
                        writable: entry.handle.writable,
                    },
                },
            );
            assert(registered_view(moved@.last()) == goal[index]);
            assert(registered_views(moved@) =~= registered_views(before).push(goal[index]));
            assert(registered_views(moved@) =~= goal.take(index + 1));
        }
        self.entries = moved;
        assert(self@ =~= goal);
        result
    }

    /// Starts a flush of every writer.
    pub fn flush(&self) -> (step: FlushAllStep)
        ensures
            step@ == (FlushAllView { files: writers(self@), done: 0, error: None }).step(),
    {
        let mut files: Vec<u64> = Vec::new();
        let mut i: usize = 0;
        proof {
            assert(self@.take(0) =~= HandlesView::empty());
            assert(writers(self@.take(0)) =~= Seq::<u64>::empty()) by {
                reveal(Seq::filter);
            }
        }
        while i < self.entries.len()
            invariant
                i <= self.entries@.len(),
                files@ == writers(self@.take(i as int)),
            decreases self.entries@.len() - i,
        {
            let ghost before = files@;
            proof {
                lemma_filter_next(
                    self@,
                    i as int,
                    |entry: (u64, HandleView)| is_writer(entry.1),
                );
            }
            let entry = &self.entries[i];
            assert(self@[i as int] == registered_view(*entry));
            if entry.handle.writable {
                if let Some(file) = entry.handle.file {
                    files.push(file);
                    assert(files@ =~= before.push(self@[i as int].1.file->0));
                }
            }
            i += 1;
            assert(files@ =~= writers(self@.take(i as int)));
        }
        assert(self@.take(i as int) =~= self@);
        FlushAllTask { files, done: 0, error: None }.step()
    }
}

/// A registered descriptor has one place.
proof fn lemma_one_place(handles: HandlesView, id: u64)
    requires
        distinct(handles),
    ensures
        forall|place: int| #[trigger]
            is_at(handles, id, place) ==> handles[place].1 == handle_of(handles, id),
{
    assert forall|place: int| #[trigger] is_at(handles, id, place) implies handles[place].1
        == handle_of(handles, id) by {
        let chosen = choose|place: int| is_at(handles, id, place);
        assert(is_at(handles, id, chosen));
        if chosen < place {
            assert(handles[chosen].0 != handles[place].0);
        } else if place < chosen {
            assert(handles[place].0 != handles[chosen].0);
        }
    }
}

/// Filtering one entry more.
proof fn lemma_filter_next(
    handles: HandlesView,
    index: int,
    keep: spec_fn((u64, HandleView)) -> bool,
)
    requires
        0 <= index < handles.len(),
    ensures
        handles.take(index + 1).filter(keep) == (if keep(handles[index]) {
            handles.take(index).filter(keep).push(handles[index])
        } else {
            handles.take(index).filter(keep)
        }),
{
    reveal(Seq::filter);
    assert(handles.take(index + 1).drop_last() =~= handles.take(index));
}

/// Releasing a descriptor keeps numbers distinct.
proof fn lemma_without_is_distinct(handles: HandlesView, id: u64)
    requires
        distinct(handles),
    ensures
        distinct(without(handles, id)),
        forall|k: int|
            0 <= k < without(handles, id).len() ==> handles.contains(
                #[trigger] without(handles, id)[k],
            ),
    decreases handles.len(),
{
    reveal(Seq::filter);
    if handles.len() > 0 {
        let earlier = handles.drop_last();
        lemma_without_is_distinct(earlier, id);
        let rest = without(earlier, id);
        let all = without(handles, id);
        assert(handles.take(handles.len() as int) =~= handles);
        lemma_filter_next(handles, handles.len() - 1, other_than(id));
        assert(handles.take(handles.len() - 1) =~= earlier);
        assert forall|k: int| 0 <= k < rest.len() implies handles.contains(#[trigger] rest[k])
            && rest[k].0 != handles.last().0 by {
            assert(earlier.contains(rest[k]));
            let j = choose|j: int| 0 <= j < earlier.len() && earlier[j] == rest[k];
            assert(handles[j] == rest[k]);
            assert(handles[j].0 != handles[handles.len() - 1].0);
        }
        if handles.last().0 != id {
            assert(all == rest.push(handles.last()));
            assert(handles.contains(handles.last()));
        }
    }
}

/// The first failure among replies.
pub open spec fn first_failure(replies: Seq<ReplyView>) -> Option<FsErrorView>
    decreases replies.len(),
{
    if replies.len() == 0 {
        None
    } else {
        match first_failure(replies.drop_last()) {
            Some(e) => Some(e),
            None => match replies.last() {
                Ok(_) => None,
                Err(e) => Some(e),
            },
        }
    }
}

impl FlushAllView {
    /// Where a series of replies leads.
    pub open spec fn run(self, replies: Seq<ReplyView>) -> FlushAllStepView
        decreases replies.len(),
    {
        if replies.len() == 0 {
            self.step()
        } else {
            match self.run(replies.drop_last()) {
                FlushAllStepView::Call { operation, then } => then.resumed(replies.last()),
                done => done,
            }
        }
    }
}

/// Whatever the replies, every writer is asked once, oldest first, and the
/// outcome is the first failure, or success where there was none.
pub proof fn law_flush_asks_every_writer(handles: HandlesView, replies: Seq<ReplyView>)
    requires
        replies.len() <= writers(handles).len(),
    ensures
        ({
            let files = writers(handles);
            let end = FlushAllView { files, done: 0, error: None }.run(replies);
            if replies.len() < files.len() {
                end == (FlushAllStepView::Call {
                    operation: OperationView::Flush { handle: files[replies.len() as int] },
                    then: FlushAllView {
                        files,
                        done: replies.len() as int,
                        error: first_failure(replies),
                    },
                })
            } else {
                end == (FlushAllStepView::Done {
                    result: match first_failure(replies) {
                        Some(e) => Err(e),
                        None => Ok(()),
                    },
                })
            }
        }),
    decreases replies.len(),
{
    if replies.len() > 0 {
        law_flush_asks_every_writer(handles, replies.drop_last());
    }
}

/// A rename moves exactly the descriptors within the renamed entry, each to the
/// same place below its new name, and leaves numbers and provider's handles alone.
pub proof fn law_rename_moves_paths_only(
    handles: HandlesView,
    from: PathView,
    to: PathView,
    place: int,
)
    requires
        0 <= place < handles.len(),
    ensures
        all_renamed(handles, from, to).len() == handles.len(),
        ({
            let before = handles[place];
            let after = all_renamed(handles, from, to)[place];
            &&& after.0 == before.0
            &&& after.1.file == before.1.file
            &&& after.1.writable == before.1.writable
            &&& within(before.1.path, from) ==> after.1.path == rebased(before.1.path, from, to)
            &&& !within(before.1.path, from) ==> after.1.path == before.1.path
        }),
        distinct(handles) ==> distinct(all_renamed(handles, from, to)),
{
}

/// Releasing a descriptor that was just registered leaves the others as they were.
pub proof fn law_release_undoes_register(handles: HandlesView, id: u64, handle: HandleView)
    requires
        !knows(handles, id),
    ensures
        knows(handles.push((id, handle)), id),
        without(handles.push((id, handle)), id) == handles,
{
    let more = handles.push((id, handle));
    assert(is_at(more, id, handles.len() as int));
    lemma_filter_next(more, handles.len() as int, other_than(id));
    assert(more.take(more.len() as int) =~= more);
    assert(more.take(handles.len() as int) =~= handles);
    lemma_nothing_to_leave_out(handles, id);
}

proof fn lemma_nothing_to_leave_out(handles: HandlesView, id: u64)
    requires
        !knows(handles, id),
    ensures
        without(handles, id) == handles,
    decreases handles.len(),
{
    reveal(Seq::filter);
    if handles.len() > 0 {
        let earlier = handles.drop_last();
        assert forall|place: int| !is_at(earlier, id, place) by {
            assert(!is_at(handles, id, place));
        }
        lemma_nothing_to_leave_out(earlier, id);
        assert(!is_at(handles, id, handles.len() - 1));
        assert(without(handles, id) =~= handles);
    }
}

/// A flush of the volume visits the provider's handle of each descriptor that can
/// have written, in the order in which the descriptors came, and of no other.
pub proof fn law_writers_are_those_that_can_have_written(
    handles: HandlesView,
    id: u64,
    handle: HandleView,
)
    ensures
        writers(HandlesView::empty()) == Seq::<u64>::empty(),
        handle.writable && handle.file is Some ==> writers(handles.push((id, handle))) == writers(
            handles,
        ).push(handle.file->0),
        !handle.writable || handle.file is None ==> writers(handles.push((id, handle))) == writers(
            handles,
        ),
{
    reveal(Seq::filter);
    assert(handles.push((id, handle)).drop_last() =~= handles);
    assert(writers(HandlesView::empty()) =~= Seq::<u64>::empty());
    if handle.writable && handle.file is Some {
        assert(writers(handles.push((id, handle))) =~= writers(handles).push(handle.file->0));
    } else {
        assert(writers(handles.push((id, handle))) =~= writers(handles));
    }
}

/// A descriptor is found under its number. Closing its file takes the provider's
/// handle from it and from no other, and leaves where it is and what it may do;
/// releasing it takes it out, and no other.
pub proof fn law_descriptors_are_kept_apart(
    handles: HandlesView,
    place: int,
    id: u64,
    newest: (u64, HandleView),
)
    requires
        distinct(handles),
        0 <= place < handles.len(),
    ensures
        handle_of(handles, handles[place].0) == handles[place].1,
        knows(handles, handles[place].0),
        with_file_closed(handles, id).len() == handles.len(),
        with_file_closed(handles, id)[place].0 == handles[place].0,
        with_file_closed(handles, id)[place].1.path == handles[place].1.path,
        with_file_closed(handles, id)[place].1.writable == handles[place].1.writable,
        handles[place].0 == id ==> with_file_closed(handles, id)[place].1.file is None,
        handles[place].0 != id ==> with_file_closed(handles, id)[place] == handles[place],
        newest.0 == id ==> without(handles.push(newest), id) == without(handles, id),
        newest.0 != id ==> without(handles.push(newest), id) == without(handles, id).push(newest),
        without(HandlesView::empty(), id) == HandlesView::empty(),
{
    lemma_one_place(handles, handles[place].0);
    assert(is_at(handles, handles[place].0, place));
    reveal(Seq::filter);
    assert(handles.push(newest).drop_last() =~= handles);
}

/// A descriptor follows a rename of what it lies in, whatever it is, and of nothing
/// else; what lies below keeps its own names.
pub proof fn law_descriptors_follow_a_rename(
    handle: HandleView,
    from: PathView,
    to: PathView,
    below: PathView,
)
    ensures
        handle.path == from + below ==> handle.renamed(from, to).path == to + below,
        !(from.len() <= handle.path.len() && (forall|i: int|
            0 <= i < from.len() ==> #[trigger] handle.path[i] == from[i])) ==> handle.renamed(
            from,
            to,
        ) == handle,
        handle.renamed(from, to).file == handle.file,
        handle.renamed(from, to).writable == handle.writable,
{
    crate::path::law_renamed_subtrees_keep_their_shape(handle.path, from, to, below);
}

} // verus!
