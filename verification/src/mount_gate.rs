//! Counts the handles that keep a drive from being detached.
use vstd::prelude::*;
use crate::text::{decimal, decimal_of, joined};

verus! {

/// The handles that are open, and whether the drive is being detached.
pub struct MountGate {
    handles: usize,
    detaching: bool,
}

#[verifier::ext_equal]
pub struct GateView {
    pub handles: int,
    pub detaching: bool,
}

impl View for MountGate {
    type V = GateView;

    closed spec fn view(&self) -> GateView {
        GateView { handles: self.handles as int, detaching: self.detaching }
    }
}

/// Stands for one handle that has passed the mount gate. It is given back with
/// [`MountGate::leave`].
#[derive(Debug)]
pub struct OpenGuard {
    entered: (),
}

impl GateView {
    pub open spec fn entered(self) -> Self {
        GateView { handles: self.handles + 1, ..self }
    }

    pub open spec fn left(self) -> Self {
        GateView {
            handles: if self.handles >= 1 {
                self.handles - 1
            } else {
                0
            },
            ..self
        }
    }

    pub open spec fn detached(self) -> Self {
        GateView { detaching: true, ..self }
    }

    /// Another handle may be opened.
    pub open spec fn is_open(self) -> bool {
        !self.detaching && self.handles < usize::MAX
    }
}

/// What a busy detach is answered with.
pub open spec fn busy_message(handles: int) -> Seq<char> {
    "Local applications still hold "@ + decimal_of(handles as nat)
        + " file or folder handles. Close them and try detaching again."@
}

impl Default for MountGate {
    fn default() -> (gate: Self)
        ensures
            gate@ == (GateView { handles: 0, detaching: false }),
    {
        MountGate { handles: 0, detaching: false }
    }
}

impl MountGate {
    /// Counts one more handle, unless the drive is being detached.
    pub fn enter(&mut self) -> (guard: Result<OpenGuard, &'static str>)
        ensures
            guard is Ok <==> old(self)@.is_open(),
            guard is Ok ==> final(self)@ == old(self)@.entered(),
            guard matches Err(text) ==> final(self)@ == old(self)@ && text@ == (if old(
                self,
            )@.detaching {
                "Attachment is being detached"@
            } else {
                "Too many open handles"@
            }),
    {
        if self.detaching {
            return Err("Attachment is being detached");
        }
        if self.handles == usize::MAX {
            return Err("Too many open handles");
        }
        self.handles = self.handles + 1;
        Ok(OpenGuard { entered: () })
    }

    /// Counts one handle less.
    pub fn leave(&mut self, guard: OpenGuard)
        ensures
            final(self)@ == old(self)@.left(),
    {
        self.handles = if self.handles >= 1 {
            self.handles - 1
        } else {
            0
        };
    }

    /// Closes the mount gate for good, unless handles are open: then it stays as it is.
    pub fn begin_detach(&mut self) -> (result: Result<(), String>)
        ensures
            result is Ok <==> old(self)@.handles == 0,
            result is Ok ==> final(self)@ == old(self)@.detached(),
            result matches Err(text) ==> final(self)@ == old(self)@ && text@ == busy_message(
                old(self)@.handles,
            ),
    {
        if self.handles != 0 {
            let start = joined("Local applications still hold ", decimal(self.handles).as_str());
            return Err(
                joined(
                    start.as_str(),
                    " file or folder handles. Close them and try detaching again.",
                ),
            );
        }
        self.detaching = true;
        Ok(())
    }
}

/// Every handle that enters makes the drive busy and lets others in; giving it
/// back undoes that; and after a detach no handle enters any more.
pub proof fn law_detach_closes_the_race(gate: GateView)
    requires
        gate.handles >= 0,
    ensures
        gate.is_open() ==> gate.entered().handles != 0,
        gate.is_open() && gate.handles + 1 < usize::MAX ==> gate.entered().is_open(),
        gate.entered().left() == gate,
        !gate.detached().is_open(),
        !gate.detached().left().is_open(),
{
}

/// Each handle counts once while it is open, and only a drive that is being detached
/// or has the largest count of handles refuses another. Giving one back never counts
/// below none, and neither handles nor a detach change the other.
pub proof fn law_each_handle_counts_once(gate: GateView)
    requires
        gate.handles >= 0,
    ensures
        gate.entered().handles == gate.handles + 1,
        gate.handles > 0 ==> gate.left().handles == gate.handles - 1,
        gate.handles == 0 ==> gate.left().handles == 0,
        gate.entered().detaching == gate.detaching,
        gate.left().detaching == gate.detaching,
        gate.detached().handles == gate.handles,
        gate.detached().detaching,
        gate.is_open() <==> !gate.detaching && gate.handles < usize::MAX,
{
}

/// A refused detach says how many handles are open, in decimal.
pub proof fn law_a_busy_drive_says_how_busy(handles: nat)
    ensures
        ({
            let start = "Local applications still hold "@;
            let end = " file or folder handles. Close them and try detaching again."@;
            let message = busy_message(handles as int);
            let middle = message.subrange(start.len() as int, message.len() - end.len());
            &&& message.take(start.len() as int) == start
            &&& message.skip(message.len() - end.len()) == end
            &&& crate::text::value_of(middle) == handles
        }),
{
    let start = "Local applications still hold "@;
    let end = " file or folder handles. Close them and try detaching again."@;
    let message = busy_message(handles as int);
    assert(message.take(start.len() as int) =~= start);
    assert(message.skip(message.len() - end.len()) =~= end);
    assert(message.subrange(start.len() as int, message.len() - end.len()) =~= decimal_of(handles));
    crate::text::law_decimals_read_back(handles);
}

} // verus!
