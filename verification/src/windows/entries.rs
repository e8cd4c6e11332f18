//! Renaming and deleting entries.
use vstd::prelude::*;
use crate::error::FsResult;
use crate::exchange::{Step, StepView};
use crate::path::{MountPath, PathView};
use crate::text::joined;
use crate::windows::{failure, status_of, Context, ContextView, Fs, FsView, NtResult, NtStatus};
use crate::windows::names::{name_view, path, path_named};
use crate::windows_handles::all_renamed;
use crate::wire::{reply_view, Operation, OperationView, ReplyView, Value, ValueView};

verus! {

/// The file is deleted when its last handle goes.
pub const CLEANUP_DELETE: u32 = 0x1;

/// A rename that waits to be confirmed.
pub struct RenameTask {
    pub from: MountPath,
    pub to: MountPath,
}

#[verifier::ext_equal]
pub struct RenameView {
    pub from: PathView,
    pub to: PathView,
}

impl View for RenameTask {
    type V = RenameView;

    open spec fn view(&self) -> RenameView {
        RenameView { from: self.from@, to: self.to@ }
    }
}

/// The new name is looked at first.
pub open spec fn rename_step(
    old_name: Option<Seq<char>>,
    new_name: Option<Seq<char>>,
    replace: bool,
) -> StepView<RenameView, NtResult<()>> {
    match path_named(new_name) {
        Err(status) => StepView::Done { result: Err(status) },
        Ok(to) => match path_named(old_name) {
            Err(status) => StepView::Done { result: Err(status) },
            Ok(from) => StepView::Call {
                operation: OperationView::Rename { from, to, replace },
                then: RenameView { from, to },
            },
        },
    }
}

/// The question whether a context's entry may be deleted: a directory is opened,
/// its first entries are asked for, and it is closed again.
#[derive(Clone, Copy, Debug)]
pub enum DeleteTask {
    Open,
    Read { handle: u64 },
    Close { verdict: NtResult<()> },
}

impl View for DeleteTask {
    type V = DeleteTask;

    open spec fn view(&self) -> DeleteTask {
        *self
    }
}

/// What the first entries of a directory say about deleting it.
pub open spec fn verdict_on(reply: ReplyView) -> NtResult<()> {
    match reply {
        Ok(ValueView::Entries(entries)) => if entries.len() == 0 {
            Ok(())
        } else {
            Err(NtStatus::DirectoryNotEmpty)
        },
        Ok(_) => Err(NtStatus::DirectoryNotEmpty),
        Err(e) => Err(status_of(e.kind)),
    }
}

impl FsView {
    /// Neither anything of a read-only provider nor the root can be deleted.
    pub open spec fn set_delete(self, context: ContextView, delete: bool) -> StepView<
        DeleteTask,
        NtResult<()>,
    > {
        if !delete {
            StepView::Done { result: Ok(()) }
        } else if !self.caps.writable {
            StepView::Done { result: Err(NtStatus::MediaWriteProtected) }
        } else if self.path(context).len() == 0 {
            StepView::Done { result: Err(NtStatus::AccessDenied) }
        } else if context.is_dir {
            StepView::Call {
                operation: OperationView::OpenDirectory { path: self.path(context) },
                then: DeleteTask::Open,
            }
        } else {
            StepView::Done { result: Ok(()) }
        }
    }

    /// Open handles follow a confirmed rename; a refused one changes nothing.
    pub open spec fn rename_resumed(self, task: RenameView, reply: ReplyView) -> (
        Self,
        NtResult<()>,
    ) {
        match reply {
            Ok(_) => (
                FsView { handles: all_renamed(self.handles, task.from, task.to), ..self },
                Ok(()),
            ),
            Err(e) => (self, Err(status_of(e.kind))),
        }
    }

    /// The path to delete when the last handle goes: the name given, or where the
    /// entry is now. A name that is no path deletes nothing.
    pub open spec fn cleanup(
        self,
        context: ContextView,
        name: Option<Option<Seq<char>>>,
        flags: u32,
    ) -> StepView<(), Option<NtStatus>> {
        let target = match name {
            Some(text) => path_named(text),
            None => Ok(self.path(context)),
        };
        match target {
            Ok(path) => if flags & CLEANUP_DELETE != 0 {
                StepView::Call {
                    operation: OperationView::Remove { path, directory: context.is_dir },
                    then: (),
                }
            } else {
                StepView::Done { result: None }
            },
            Err(_) => StepView::Done { result: None },
        }
    }
}

/// The directory is closed whatever it holds.
pub open spec fn delete_resumed(task: DeleteTask, reply: ReplyView) -> StepView<
    DeleteTask,
    NtResult<()>,
> {
    match task {
        DeleteTask::Open => match reply {
            Ok(ValueView::Handle(handle)) => StepView::Call {
                operation: OperationView::ReadDirectory { handle },
                then: DeleteTask::Read { handle },
            },
            Ok(_) => StepView::Done { result: Err(NtStatus::InvalidParameter) },
            Err(e) => StepView::Done { result: Err(status_of(e.kind)) },
        },
        DeleteTask::Read { handle } => StepView::Call {
            operation: OperationView::CloseDirectory { handle },
            then: DeleteTask::Close { verdict: verdict_on(reply) },
        },
        DeleteTask::Close { verdict } => StepView::Done { result: verdict },
    }
}

/// The status of a deletion that failed.
pub open spec fn deletion_failure(reply: ReplyView) -> Option<NtStatus> {
    match reply {
        Ok(_) => None,
        Err(e) => Some(status_of(e.kind)),
    }
}

/// A deletion that waits to be confirmed.
pub struct CleanupTask;

impl View for CleanupTask {
    type V = ();

    open spec fn view(&self) -> () {
        ()
    }
}

/// What a name that may be missing says; the inner `None` is one that is not Unicode.
pub open spec fn optional_name(name: Option<Option<&str>>) -> Option<Option<Seq<char>>> {
    match name {
        Some(text) => Some(name_view(text)),
        None => None,
    }
}

/// The warning for a deletion that failed with a status called `status`.
pub fn deletion_warning(status: &str) -> (message: String)
    ensures
        message@ == "Remote deletion failed during Windows cleanup: "@ + status@,
{
    joined("Remote deletion failed during Windows cleanup: ", status)
}

impl Fs {
    /// Starts to rename the entry `old_name`.
    pub fn rename(&self, old_name: Option<&str>, new_name: Option<&str>, replace: bool) -> (step:
        Step<RenameTask, NtResult<()>>)
        ensures
            step@ == rename_step(name_view(old_name), name_view(new_name), replace),
    {
        let to = match path(new_name) {
            Ok(p) => p,
            Err(status) => {
                return Step::Done { result: Err(status) };
            },
        };
        let from = match path(old_name) {
            Ok(p) => p,
            Err(status) => {
                return Step::Done { result: Err(status) };
            },
        };
        Step::Call {
            operation: Operation::Rename { from: from.clone(), to: to.clone(), replace },
            then: RenameTask { from, to },
        }
    }

    /// Goes on with the provider's reply: open handles follow a confirmed rename.
    pub fn rename_resume(&mut self, task: RenameTask, reply: FsResult<Value>) -> (result: NtResult<
        (),
    >)
        requires
            old(self).wf(),
        ensures
            final(self).wf(),
            (final(self)@, result) == old(self)@.rename_resumed(task@, reply_view(reply)),
    {
        let confirmed: FsResult<()> = match reply {
            Ok(_) => Ok(()),
            Err(e) => Err(e),
        };
        match self.handles.rename(&task.from, &task.to, confirmed) {
            Ok(_) => Ok(()),
            Err(e) => Err(failure(e)),
        }
    }

    /// Asks whether the entry of a context may be deleted.
    pub fn set_delete(&self, context: &Context, delete: bool) -> (step: Step<
        DeleteTask,
        NtResult<()>,
    >)
        requires
            self.wf(),
            self@.holds(context@),
        ensures
            step@ == self@.set_delete(context@, delete),
    {
        if !delete {
            return Step::Done { result: Ok(()) };
        }
        if !self.caps.writable {
            return Step::Done { result: Err(NtStatus::MediaWriteProtected) };
        }
        let target = self.path(context);
        if target.depth() == 0 {
            return Step::Done { result: Err(NtStatus::AccessDenied) };
        }
        if context.is_dir {
            Step::Call {
                operation: Operation::OpenDirectory { path: target },
                then: DeleteTask::Open,
            }
        } else {
            Step::Done { result: Ok(()) }
        }
    }

    pub fn delete_resume(&self, task: DeleteTask, reply: FsResult<Value>) -> (step: Step<
        DeleteTask,
        NtResult<()>,
    >)
        ensures
            step@ == delete_resumed(task@, reply_view(reply)),
    {
        match task {
            DeleteTask::Open => match reply {
                Ok(Value::Handle(handle)) => Step::Call {
                    operation: Operation::ReadDirectory { handle },
                    then: DeleteTask::Read { handle },
                },
                Ok(_) => Step::Done { result: Err(NtStatus::InvalidParameter) },
                Err(e) => Step::Done { result: Err(failure(e)) },
            },
            DeleteTask::Read { handle } => {
                let verdict: NtResult<()> = match reply {
                    Ok(Value::Entries(entries)) => if entries.len() == 0 {
                        Ok(())
                    } else {
                        Err(NtStatus::DirectoryNotEmpty)
                    },
                    Ok(_) => Err(NtStatus::DirectoryNotEmpty),
                    Err(e) => Err(failure(e)),
                };
                Step::Call {
                    operation: Operation::CloseDirectory { handle },
                    then: DeleteTask::Close { verdict },
                }
            },
            DeleteTask::Close { verdict } => Step::Done { result: verdict },
        }
    }

    /// Deletes the entry of a context whose last handle goes, if `flags` say so.
    /// `name` may be missing; the inner `None` is one that is not Unicode.
    pub fn cleanup(&self, context: &Context, name: Option<Option<&str>>, flags: u32) -> (step: Step<
        CleanupTask,
        Option<NtStatus>,
    >)
        requires
            self.wf(),
            self@.holds(context@),
        ensures
            step@ == self@.cleanup(context@, optional_name(name), flags),
    {
        if flags & CLEANUP_DELETE == 0 {
            return Step::Done { result: None };
        }
        let target = match name {
            Some(text) => path(text),
            None => Ok(self.path(context)),
        };
        match target {
            Ok(p) => Step::Call {
                operation: Operation::Remove { path: p, directory: context.is_dir },
                then: CleanupTask,
            },
            Err(_) => Step::Done { result: None },
        }
    }

    /// The status of a deletion that failed: there is no one to return it to, so
    /// that it is to be reported with [`deletion_warning`].
    pub fn cleanup_resume(&self, task: CleanupTask, reply: FsResult<Value>) -> (failed: Option<
        NtStatus,
    >)
        ensures
            failed == deletion_failure(reply_view(reply)),
    {
        match reply {
            Ok(_) => None,
            Err(e) => Some(failure(e)),
        }
    }
}

/// A directory that is allowed to go was seen empty, and it is closed again
/// whatever was seen.
pub proof fn law_only_empty_directories_go(handle: u64, listed: ReplyView, closed: ReplyView)
    ensures
        match delete_resumed(DeleteTask::Read { handle }, listed) {
            StepView::Call { operation, then } => {
                &&& operation == (OperationView::CloseDirectory { handle })
                &&& delete_resumed(then, closed) == (StepView::<DeleteTask, NtResult<()>>::Done {
                    result: verdict_on(listed),
                })
            },
            StepView::Done { .. } => false,
        },
        verdict_on(listed) is Ok ==> (listed matches Ok(ValueView::Entries(entries))
            && entries.len() == 0),
{
}

/// A rename of Windows moves what the old name stands for to what the new name
/// stands for, and replaces something there only where Windows says so.
pub proof fn law_a_rename_moves_between_the_places_named(
    old_name: Seq<char>,
    new_name: Seq<char>,
    from: PathView,
    to: PathView,
    replace: bool,
)
    requires
        path_named(Some(old_name)) == Ok::<PathView, NtStatus>(from),
        path_named(Some(new_name)) == Ok::<PathView, NtStatus>(to),
    ensures
        rename_step(Some(old_name), Some(new_name), replace) == (StepView::<
            RenameView,
            NtResult<()>,
        >::Call {
            operation: OperationView::Rename { from, to, replace },
            then: RenameView { from, to },
        }),
{
}

/// A name that stands for no path is refused before the provider is asked.
pub proof fn law_unclear_renames_are_refused(
    old_name: Option<Seq<char>>,
    new_name: Option<Seq<char>>,
    replace: bool,
)
    ensures
        path_named(old_name) is Err || path_named(new_name) is Err ==> (rename_step(
            old_name,
            new_name,
            replace,
        ) matches StepView::Done { result } && result is Err),
{
}

/// An entry may be deleted unless the root cannot be written, the entry is the root
/// itself, or it is a directory that has not been seen empty. A directory is looked
/// at where it is now. Taking a deletion back is always allowed.
pub proof fn law_what_may_be_deleted(
    fs: FsView,
    context: ContextView,
    handle: u64,
    entries: Seq<crate::metadata::EntryView>,
    error: crate::error::FsErrorView,
)
    ensures
        fs.set_delete(context, false) == (StepView::<DeleteTask, NtResult<()>>::Done {
            result: Ok(()),
        }),
        !fs.caps.writable ==> fs.set_delete(context, true) == (StepView::<
            DeleteTask,
            NtResult<()>,
        >::Done { result: Err(NtStatus::MediaWriteProtected) }),
        fs.caps.writable && fs.path(context).len() == 0 ==> fs.set_delete(context, true) == (
        StepView::<DeleteTask, NtResult<()>>::Done { result: Err(NtStatus::AccessDenied) }),
        fs.caps.writable && fs.path(context).len() > 0 && !context.is_dir ==> fs.set_delete(
            context,
            true,
        ) == (StepView::<DeleteTask, NtResult<()>>::Done { result: Ok(()) }),
        fs.caps.writable && fs.path(context).len() > 0 && context.is_dir ==> fs.set_delete(
            context,
            true,
        ) == (StepView::<DeleteTask, NtResult<()>>::Call {
            operation: OperationView::OpenDirectory { path: fs.path(context) },
            then: DeleteTask::Open,
        }),
        delete_resumed(DeleteTask::Open, Ok(ValueView::Handle(handle))) == (StepView::<
            DeleteTask,
            NtResult<()>,
        >::Call {
            operation: OperationView::ReadDirectory { handle },
            then: DeleteTask::Read { handle },
        }),
        delete_resumed(DeleteTask::Open, Err(error)) == (StepView::<DeleteTask, NtResult<()>>::Done {
            result: Err(status_of(error.kind)),
        }),
        entries.len() == 0 ==> verdict_on(Ok(ValueView::Entries(entries))) == Ok::<(), NtStatus>(
            (),
        ),
        entries.len() > 0 ==> verdict_on(Ok(ValueView::Entries(entries))) == Err::<(), NtStatus>(
            NtStatus::DirectoryNotEmpty,
        ),
        verdict_on(Err(error)) == Err::<(), NtStatus>(status_of(error.kind)),
{
}

/// When the last handle goes, an entry is removed exactly if Windows says so: what
/// the name given stands for, or the entry where it is now; as a directory exactly
/// if it is one. A name that stands for no path removes nothing.
pub proof fn law_only_marked_entries_are_removed(
    fs: FsView,
    context: ContextView,
    text: Seq<char>,
    path: PathView,
    flags: u32,
)
    ensures
        flags & 0x1 == 0 ==> fs.cleanup(context, Some(Some(text)), flags) == (StepView::<
            (),
            Option<NtStatus>,
        >::Done { result: None }) && fs.cleanup(context, None, flags) == (StepView::<
            (),
            Option<NtStatus>,
        >::Done { result: None }),
        flags & 0x1 != 0 ==> fs.cleanup(context, None, flags) == (StepView::<
            (),
            Option<NtStatus>,
        >::Call {
            operation: OperationView::Remove { path: fs.path(context), directory: context.is_dir },
            then: (),
        }),
        flags & 0x1 != 0 && path_named(Some(text)) == Ok::<PathView, NtStatus>(path)
            ==> fs.cleanup(context, Some(Some(text)), flags) == (StepView::<
            (),
            Option<NtStatus>,
        >::Call {
            operation: OperationView::Remove { path, directory: context.is_dir },
            then: (),
        }),
        path_named(Some(text)) is Err ==> fs.cleanup(context, Some(Some(text)), flags) == (
        StepView::<(), Option<NtStatus>>::Done { result: None }),
{
}

/// Open handles follow a rename that the provider has made: each that lay within the
/// renamed entry lies at the same place below its new name, under its own number and
/// with its own provider's handle. A rename that was refused changes nothing and says
/// why.
pub proof fn law_handles_follow_a_confirmed_rename(
    fs: FsView,
    from: PathView,
    to: PathView,
    place: int,
    below: PathView,
    done: ValueView,
    error: crate::error::FsErrorView,
)
    requires
        0 <= place < fs.handles.len(),
    ensures
        ({
            let (after, result) = fs.rename_resumed(RenameView { from, to }, Ok(done));
            &&& result == Ok::<(), NtStatus>(())
            &&& after.handles.len() == fs.handles.len()
            &&& after.handles[place].0 == fs.handles[place].0
            &&& after.handles[place].1.file == fs.handles[place].1.file
            &&& after.handles[place].1.writable == fs.handles[place].1.writable
            &&& fs.handles[place].1.path == from + below ==> after.handles[place].1.path == to
                + below
            &&& !crate::path::within(fs.handles[place].1.path, from)
                ==> after.handles[place].1.path == fs.handles[place].1.path
            &&& after.gate == fs.gate && after.caps == fs.caps
        }),
        fs.rename_resumed(RenameView { from, to }, Err(error)) == (
            fs,
            Err::<(), NtStatus>(status_of(error.kind)),
        ),
{
    crate::path::law_renamed_subtrees_keep_their_shape(
        fs.handles[place].1.path,
        from,
        to,
        below,
    );
}

/// A deletion that failed is known exactly by the provider's reason.
pub proof fn law_failed_deletions_are_known(
    done: ValueView,
    error: crate::error::FsErrorView,
)
    ensures
        deletion_failure(Ok(done)) is None,
        deletion_failure(Err(error)) == Some(status_of(error.kind)),
{
}

} // verus!
