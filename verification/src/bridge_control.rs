//! Lifecycle exchange for one native attachment, seen from the granting side.
use vstd::prelude::*;
use crate::error::{error_of, fails_with, FsError, FsErrorKind, FsResult};
use crate::text::{bounded, bounded_copy};

verus! {

/// The longest message that is kept, in characters.
pub const MESSAGE_LIMIT: usize = 4096;

#[derive(Clone, Copy, Debug, PartialEq, Eq, Structural)]
pub enum BridgePhase {
    Starting,
    Attached,
    Detaching,
    Detached,
    Failed,
}

#[derive(Debug)]
pub struct BridgeSnapshot {
    pub phase: BridgePhase,
    pub message: Option<String>,
}

/// What the attachment process does next.
#[derive(Clone, Copy, Debug, PartialEq, Eq, Structural)]
pub enum BridgeDirective {
    Continue,
    Detach,
}

/// What the attachment process tells the granting side.
#[derive(Debug)]
pub enum BridgeEvent {
    Ready,
    Detached,
    DetachFailed { message: String },
    Warning { message: String },
}

/// What a [`BridgeEvent`] says.
pub enum EventView {
    Ready,
    Detached,
    DetachFailed { message: Seq<char> },
    Warning { message: Seq<char> },
}

impl View for BridgeEvent {
    type V = EventView;

    open spec fn view(&self) -> EventView {
        match *self {
            BridgeEvent::Ready => EventView::Ready,
            BridgeEvent::Detached => EventView::Detached,
            BridgeEvent::DetachFailed { message } => EventView::DetachFailed { message: message@ },
            BridgeEvent::Warning { message } => EventView::Warning { message: message@ },
        }
    }
}

/// What an optional text says.
pub open spec fn text_view(text: Option<String>) -> Option<Seq<char>> {
    match text {
        Some(t) => Some(t@),
        None => None,
    }
}

pub struct BridgeControl {
    phase: BridgePhase,
    message: Option<String>,
    pending: bool,
}

/// The state of a [`BridgeControl`]: `pending` marks a detach request that the
/// attachment process has not picked up yet.
#[verifier::ext_equal]
pub struct ControlView {
    pub phase: BridgePhase,
    pub message: Option<Seq<char>>,
    pub pending: bool,
}

impl View for BridgeControl {
    type V = ControlView;

    closed spec fn view(&self) -> ControlView {
        ControlView { phase: self.phase, message: text_view(self.message), pending: self.pending }
    }
}

impl ControlView {
    pub open spec fn initial() -> Self {
        ControlView { phase: BridgePhase::Starting, message: None, pending: false }
    }

    /// The drive is in place, whether or not a detach is under way.
    pub open spec fn is_mounted(self) -> bool {
        self.phase == BridgePhase::Attached || self.phase == BridgePhase::Detaching
    }

    /// Nothing more will happen on this attachment.
    pub open spec fn is_retired(self) -> bool {
        self.phase == BridgePhase::Failed || self.phase == BridgePhase::Detached
    }

    pub open spec fn detach_requested(self) -> Self {
        ControlView { phase: BridgePhase::Detaching, message: None, pending: true }
    }

    /// What the attachment process is told to do next.
    pub open spec fn directive(self) -> BridgeDirective {
        if self.pending {
            BridgeDirective::Detach
        } else {
            BridgeDirective::Continue
        }
    }

    pub open spec fn polled(self) -> Self {
        ControlView { pending: false, ..self }
    }

    /// The state after an event, or `None` where the event cannot come.
    pub open spec fn reported(self, event: EventView) -> Option<Self> {
        match event {
            EventView::Ready => if self.phase == BridgePhase::Starting {
                Some(ControlView { phase: BridgePhase::Attached, ..self })
            } else {
                None
            },
            EventView::Detached => if self.is_mounted() {
                Some(ControlView { phase: BridgePhase::Detached, message: None, pending: false })
            } else {
                None
            },
            EventView::DetachFailed { message } => if self.phase == BridgePhase::Detaching {
                Some(
                    ControlView {
                        phase: BridgePhase::Attached,
                        message: Some(bounded(message, MESSAGE_LIMIT as int)),
                        ..self
                    },
                )
            } else {
                None
            },
            EventView::Warning { message } => if self.is_mounted() {
                Some(
                    ControlView {
                        message: Some(bounded(message, MESSAGE_LIMIT as int)),
                        ..self
                    },
                )
            } else {
                None
            },
        }
    }

    pub open spec fn failed(self, message: Seq<char>) -> Self {
        if self.phase == BridgePhase::Detached {
            ControlView { pending: false, ..self }
        } else {
            ControlView {
                phase: BridgePhase::Failed,
                message: Some(bounded(message, MESSAGE_LIMIT as int)),
                pending: false,
            }
        }
    }
}

impl Default for BridgeControl {
    fn default() -> (control: Self)
        ensures
            control@ == ControlView::initial(),
    {
        BridgeControl { phase: BridgePhase::Starting, message: None, pending: false }
    }
}

impl BridgeControl {
    pub fn snapshot(&self) -> (snapshot: BridgeSnapshot)
        ensures
            snapshot.phase == self@.phase,
            text_view(snapshot.message) == self@.message,
    {
        let message = match &self.message {
            Some(text) => Some(text.clone()),
            None => None,
        };
        BridgeSnapshot { phase: self.phase, message }
    }

    /// Asks the attachment process to detach; refused unless the drive is
    /// attached with no detach under way.
    pub fn request_detach(&mut self) -> (result: FsResult<()>)
        ensures
            result is Ok <==> old(self)@.phase == BridgePhase::Attached,
            result is Ok ==> final(self)@ == old(self)@.detach_requested(),
            result is Err ==> final(self)@ == old(self)@ && fails_with(
                result,
                error_of(FsErrorKind::InvalidInput, "Attachment is not ready for a detach request"@),
            ),
    {
        if self.phase != BridgePhase::Attached {
            return Err(
                FsError::new(
                    FsErrorKind::InvalidInput,
                    "Attachment is not ready for a detach request",
                ),
            );
        }
        self.phase = BridgePhase::Detaching;
        self.message = None;
        self.pending = true;
        Ok(())
    }

    /// Hands out each detach request once.
    pub fn poll(&mut self) -> (result: FsResult<BridgeDirective>)
        ensures
            result is Err <==> old(self)@.is_retired(),
            result is Err ==> final(self)@ == old(self)@ && fails_with(
                result,
                error_of(FsErrorKind::Offline, "Attachment is retired"@),
            ),
            result matches Ok(directive) ==> final(self)@ == old(self)@.polled() && directive
                == old(self)@.directive(),
    {
        if self.phase == BridgePhase::Failed || self.phase == BridgePhase::Detached {
            return Err(FsError::new(FsErrorKind::Offline, "Attachment is retired"));
        }
        let pending = self.pending;
        self.pending = false;
        Ok(
            if pending {
                BridgeDirective::Detach
            } else {
                BridgeDirective::Continue
            },
        )
    }

    /// Takes in an event; one that cannot come in the present phase changes nothing.
    pub fn report(&mut self, event: BridgeEvent) -> (result: FsResult<()>)
        ensures
            result is Ok <==> old(self)@.reported(event@) is Some,
            result is Ok ==> Some(final(self)@) == old(self)@.reported(event@),
            result is Err ==> final(self)@ == old(self)@ && fails_with(
                result,
                error_of(FsErrorKind::InvalidInput, "Unexpected attachment lifecycle event"@),
            ),
    {
        let mounted = self.phase == BridgePhase::Attached || self.phase == BridgePhase::Detaching;
        match event {
            BridgeEvent::Ready => {
                if self.phase == BridgePhase::Starting {
                    self.phase = BridgePhase::Attached;
                    return Ok(());
                }
            },
            BridgeEvent::Detached => {
                if mounted {
                    self.phase = BridgePhase::Detached;
                    self.message = None;
                    self.pending = false;
                    return Ok(());
                }
            },
            BridgeEvent::DetachFailed { message } => {
                if self.phase == BridgePhase::Detaching {
                    self.phase = BridgePhase::Attached;
                    self.message = Some(bounded_copy(message.as_str(), MESSAGE_LIMIT));
                    return Ok(());
                }
            },
            BridgeEvent::Warning { message } => {
                if mounted {
                    self.message = Some(bounded_copy(message.as_str(), MESSAGE_LIMIT));
                    return Ok(());
                }
            },
        }
        Err(FsError::new(FsErrorKind::InvalidInput, "Unexpected attachment lifecycle event"))
    }

    /// Marks the attachment as lost, unless it has already been detached.
    pub fn fail(&mut self, message: String)
        ensures
            final(self)@ == old(self)@.failed(message@),
    {
        if self.phase != BridgePhase::Detached {
            self.phase = BridgePhase::Failed;
            self.message = Some(bounded_copy(message.as_str(), MESSAGE_LIMIT));
        }
        self.pending = false;
    }
}

/// A detach that the attachment process picked up and had to refuse leaves the
/// drive attached, with the reason shown, and detaching again takes a new request.
pub proof fn law_busy_detach_keeps_the_attachment(control: ControlView, message: Seq<char>)
    requires
        control.phase == BridgePhase::Attached,
    ensures
        ({
            let asked = control.detach_requested().polled();
            let after = asked.reported(EventView::DetachFailed { message })->0;
            &&& control.detach_requested().pending
            &&& asked.phase != BridgePhase::Attached
            &&& asked.reported(EventView::DetachFailed { message }) is Some
            &&& after.phase == BridgePhase::Attached
            &&& after.message == Some(bounded(message, MESSAGE_LIMIT as int))
            &&& !after.pending
        }),
{
}

/// A retired attachment never comes back: no event is taken in, and a later
/// failure report does not revive it. One that was detached stays detached.
pub proof fn law_retired_is_final(control: ControlView, event: EventView, message: Seq<char>)
    requires
        control.is_retired(),
    ensures
        control.reported(event) is None,
        control.phase != BridgePhase::Attached,
        control.failed(message).phase == control.phase,
{
}

/// A request that waits to be picked up exists only while the drive is in place.
pub open spec fn pending_only_when_mounted(control: ControlView) -> bool {
    control.pending ==> control.is_mounted()
}

/// Every step keeps [`pending_only_when_mounted`], from the initial state on.
pub proof fn law_pending_only_when_mounted(
    control: ControlView,
    event: EventView,
    message: Seq<char>,
)
    requires
        pending_only_when_mounted(control),
    ensures
        pending_only_when_mounted(ControlView::initial()),
        pending_only_when_mounted(control.detach_requested()),
        pending_only_when_mounted(control.polled()),
        control.reported(event) is Some ==> pending_only_when_mounted(control.reported(event)->0),
        pending_only_when_mounted(control.failed(message)),
{
}

/// The life of an attachment as it is told: it is attached once it is ready, and only
/// from its start; it is detached once that is told while it is in place; a detach
/// that failed is told only while one is under way, and leaves it attached; a warning
/// changes only what is shown. Everything else cannot come.
pub proof fn law_the_life_of_an_attachment(control: ControlView, message: Seq<char>)
    ensures
        control.reported(EventView::Ready) is Some <==> control.phase == BridgePhase::Starting,
        control.reported(EventView::Ready) matches Some(after) ==> after.phase
            == BridgePhase::Attached && after.message == control.message && after.pending
            == control.pending,
        control.reported(EventView::Detached) is Some <==> control.phase == BridgePhase::Attached
            || control.phase == BridgePhase::Detaching,
        control.reported(EventView::Detached) matches Some(after) ==> after.phase
            == BridgePhase::Detached && after.message is None && !after.pending,
        control.reported(EventView::DetachFailed { message }) is Some <==> control.phase
            == BridgePhase::Detaching,
        control.reported(EventView::DetachFailed { message }) matches Some(after) ==> after.phase
            == BridgePhase::Attached && after.pending == control.pending && (message.len() <= 4096
            ==> after.message == Some(message)) && (message.len() > 4096 ==> after.message == Some(
            message.take(4096),
        )),
        control.reported(EventView::Warning { message }) is Some <==> control.phase
            == BridgePhase::Attached || control.phase == BridgePhase::Detaching,
        control.reported(EventView::Warning { message }) matches Some(after) ==> after.phase
            == control.phase && after.pending == control.pending && (message.len() <= 4096
            ==> after.message == Some(message)),
{
}

/// A request to detach is under way until it is picked up, and it is handed out once;
/// picking it up changes nothing else. A failure ends an attachment with its reason,
/// unless it was detached before.
pub proof fn law_requests_and_failures(control: ControlView, message: Seq<char>)
    ensures
        ControlView::initial().phase == BridgePhase::Starting,
        ControlView::initial().message is None && !ControlView::initial().pending,
        control.detach_requested().phase == BridgePhase::Detaching,
        control.detach_requested().pending && control.detach_requested().message is None,
        !control.polled().pending,
        control.polled().phase == control.phase && control.polled().message == control.message,
        control.phase != BridgePhase::Detached ==> control.failed(message).phase
            == BridgePhase::Failed && (message.len() <= 4096 ==> control.failed(message).message
            == Some(message)),
        control.phase == BridgePhase::Detached ==> control.failed(message).phase
            == BridgePhase::Detached && control.failed(message).message == control.message,
        !control.failed(message).pending,
        control.is_retired() <==> control.phase == BridgePhase::Failed || control.phase
            == BridgePhase::Detached,
{
}

/// A request to detach is handed out to the next poll, and to that one alone.
pub proof fn law_a_request_is_handed_out_once(control: ControlView)
    ensures
        control.detach_requested().directive() == BridgeDirective::Detach,
        control.polled().directive() == BridgeDirective::Continue,
        control.detach_requested().polled().directive() == BridgeDirective::Continue,
        ControlView::initial().directive() == BridgeDirective::Continue,
{
}

/// A text that is there says what it says; one that is not says nothing.
pub proof fn law_texts_are_shown(text: Option<String>)
    ensures
        text_view(text) is Some <==> text is Some,
        text matches Some(t) ==> text_view(text) == Some(t@),
{
}

} // verus!
