//! Unmounting through the system's own helper, without force.
use vstd::prelude::*;
use crate::text::joined;

verus! {

/// How long the helper may take, in milliseconds.
pub const DEADLINE: u64 = 15000;

/// How long to wait before the helper is looked at again, in milliseconds.
pub const PAUSE: u64 = 50;

/// The number of places where the helper may be.
pub const HELPERS: usize = 4;

/// A place where the helper may be, in order of preference.
pub open spec fn helper_at(index: int) -> Seq<char> {
    if index == 0 {
        "/usr/bin/fusermount3"@
    } else if index == 1 {
        "/bin/fusermount3"@
    } else if index == 2 {
        "/usr/bin/fusermount"@
    } else {
        "/bin/fusermount"@
    }
}

pub fn helper(index: usize) -> (path: &'static str)
    requires
        index < HELPERS,
    ensures
        path@ == helper_at(index as int),
{
    if index == 0 {
        "/usr/bin/fusermount3"
    } else if index == 1 {
        "/bin/fusermount3"
    } else if index == 2 {
        "/usr/bin/fusermount"
    } else {
        "/bin/fusermount"
    }
}

/// A program and the arguments that stand before the place to unmount.
#[derive(Debug)]
pub struct HelperCommand {
    pub program: &'static str,
    pub arguments: Vec<&'static str>,
}

/// The helper on Linux, given which of the places hold a file: the first that
/// does. Its arguments ask for an ordinary unmount, neither forced nor lazy.
pub fn linux_command(present: [bool; 4]) -> (command: Result<HelperCommand, String>)
    ensures
        match command {
            Ok(c) => {
                &&& exists|k: int|
                    0 <= k < HELPERS && #[trigger] present@[k] && c.program@ == helper_at(k) && (
                    forall|j: int| 0 <= j < k ==> !#[trigger] present@[j])
                &&& c.arguments@.len() == 2
                &&& c.arguments@[0]@ == "-u"@
                &&& c.arguments@[1]@ == "--"@
            },
            Err(text) => (forall|j: int| 0 <= j < HELPERS ==> !#[trigger] present@[j]) && text@
                == "Install your distribution's FUSE mount helper before detaching"@,
        },
{
    let mut i: usize = 0;
    while i < HELPERS
        invariant
            i <= HELPERS,
            forall|j: int| 0 <= j < i ==> !#[trigger] present@[j],
        decreases HELPERS - i,
    {
        if present[i] {
            assert(present@[i as int]);
            return Ok(HelperCommand { program: helper(i), arguments: vec!["-u", "--"] });
        }
        i += 1;
    }
    Err("Install your distribution's FUSE mount helper before detaching".to_owned())
}

/// The helper on macOS.
pub fn macos_command() -> (command: HelperCommand)
    ensures
        command.program@ == "/sbin/umount"@,
        command.arguments@.len() == 0,
{
    HelperCommand { program: "/sbin/umount", arguments: Vec::new() }
}

/// What is seen of the helper.
#[derive(Debug)]
pub enum Helper {
    /// It could not be started; the text says why.
    NotStarted { error: String },
    /// It could not be asked; the text says why.
    Unknown { error: String },
    /// It has ended with this status.
    Ended { success: bool, status: String },
    /// It is still at work after that many milliseconds.
    Running { elapsed: u64 },
}

pub enum UnmountStep {
    /// Look again after [`PAUSE`].
    Pause,
    /// Stop the helper, then report the failure.
    Kill { message: String },
    Done { result: Result<(), String> },
}

pub enum UnmountView {
    Pause,
    Kill { message: Seq<char> },
    Done { result: Result<(), Seq<char>> },
}

impl View for UnmountStep {
    type V = UnmountView;

    open spec fn view(&self) -> UnmountView {
        match *self {
            UnmountStep::Pause => UnmountView::Pause,
            UnmountStep::Kill { message } => UnmountView::Kill { message: message@ },
            UnmountStep::Done { result } => UnmountView::Done {
                result: match result {
                    Ok(_) => Ok(()),
                    Err(text) => Err(text@),
                },
            },
        }
    }
}

/// Success is claimed only when the helper itself ended with success.
pub open spec fn after_look(helper: Helper) -> UnmountView {
    match helper {
        Helper::NotStarted { error } => UnmountView::Done {
            result: Err("Cannot start the system unmount helper: "@ + error@),
        },
        Helper::Unknown { error } => UnmountView::Done { result: Err(error@) },
        Helper::Ended { success, status } => UnmountView::Done {
            result: if success {
                Ok(())
            } else {
                Err(
                    "The system did not confirm detach ("@ + status@
                        + "). Close local files and folders using it, then try again."@,
                )
            },
        },
        Helper::Running { elapsed } => if elapsed >= DEADLINE {
            UnmountView::Kill {
                message:
                    "Unmount helper timed out. Check local file use and the mount's status before retrying."@,
            }
        } else {
            UnmountView::Pause
        },
    }
}

/// What to do after a look at the helper.
pub fn ordinary_unmount(helper: Helper) -> (step: UnmountStep)
    ensures
        step@ == after_look(helper),
{
    match helper {
        Helper::NotStarted { error } => UnmountStep::Done {
            result: Err(joined("Cannot start the system unmount helper: ", error.as_str())),
        },
        Helper::Unknown { error } => UnmountStep::Done { result: Err(error) },
        Helper::Ended { success, status } => {
            if success {
                return UnmountStep::Done { result: Ok(()) };
            }
            let start = joined("The system did not confirm detach (", status.as_str());
            UnmountStep::Done {
                result: Err(
                    joined(
                        start.as_str(),
                        "). Close local files and folders using it, then try again.",
                    ),
                ),
            }
        },
        Helper::Running { elapsed } => if elapsed >= DEADLINE {
            UnmountStep::Kill {
                message:
                    "Unmount helper timed out. Check local file use and the mount's status before retrying.".to_owned(),
            }
        } else {
            UnmountStep::Pause
        },
    }
}

/// An unmount has succeeded exactly if the helper ended with success. A helper that
/// failed, could not be started or could not be asked is a failure at once; one that
/// is still at work is waited for, up to fifteen seconds, and then stopped.
pub proof fn law_only_the_helper_confirms_an_unmount(helper: Helper)
    ensures
        after_look(helper) == (UnmountView::Done { result: Ok(()) }) <==> (helper matches
            Helper::Ended { success, .. } && success),
        after_look(helper) == UnmountView::Pause <==> (helper matches Helper::Running { elapsed }
            && elapsed < 15000),
        after_look(helper) is Kill <==> (helper matches Helper::Running { elapsed } && elapsed
            >= 15000),
        helper matches Helper::NotStarted { error } ==> after_look(helper) == (UnmountView::Done {
            result: Err("Cannot start the system unmount helper: "@ + error@),
        }),
        helper matches Helper::Unknown { error } ==> after_look(helper) == (UnmountView::Done {
            result: Err(error@),
        }),
        PAUSE == 50,
{
}

/// The newer helper is preferred to the older one, and each is looked for first where
/// programs of users are.
pub proof fn law_where_the_helper_may_be()
    ensures
        HELPERS == 4,
        helper_at(0) == "/usr/bin/fusermount3"@,
        helper_at(1) == "/bin/fusermount3"@,
        helper_at(2) == "/usr/bin/fusermount"@,
        helper_at(3) == "/bin/fusermount"@,
{
}

} // verus!
