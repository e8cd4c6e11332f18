//! Requests, replies and frames exchanged over the inherited pipes.
use vstd::prelude::*;
use crate::bridge_control::{BridgeDirective, BridgeEvent, EventView};
use crate::error::{error_of, fails_with, FsError, FsErrorKind, FsErrorView, FsResult};
use crate::metadata::{
    entries_view, EntryView, FsCapabilities, FsDirectoryEntry, FsMetadata, FsOpenOptions,
    FsSetMetadata, FsSpace,
};
use crate::path::{MountPath, PathView};

verus! {

/// The protocol version that both ends must speak.
pub const PROTOCOL: u32 = 1;

/// The longest frame body, in bytes.
pub const MAX_FRAME: usize = 1048576;

/// A request to the provider that granted the root.
#[derive(Debug)]
pub enum Operation {
    Capabilities,
    Space { path: MountPath },
    Metadata { path: MountPath },
    Open { path: MountPath, options: FsOpenOptions },
    OpenDirectory { path: MountPath },
    ReadDirectory { handle: u64 },
    CloseDirectory { handle: u64 },
    FileMetadata { handle: u64 },
    Read { handle: u64, offset: u64, length: u32 },
    Write { handle: u64, offset: u64, bytes: Vec<u8> },
    SetFileMetadata { handle: u64, metadata: FsSetMetadata },
    Flush { handle: u64 },
    Close { handle: u64 },
    SetMetadata { path: MountPath, metadata: FsSetMetadata },
    Mkdir { path: MountPath },
    Remove { path: MountPath, directory: bool },
    Rename { from: MountPath, to: MountPath, replace: bool },
    Report { event: BridgeEvent },
    Poll,
}

/// What an [`Operation`] asks for.
pub enum OperationView {
    Capabilities,
    Space { path: PathView },
    Metadata { path: PathView },
    Open { path: PathView, options: FsOpenOptions },
    OpenDirectory { path: PathView },
    ReadDirectory { handle: u64 },
    CloseDirectory { handle: u64 },
    FileMetadata { handle: u64 },
    Read { handle: u64, offset: u64, length: u32 },
    Write { handle: u64, offset: u64, bytes: Seq<u8> },
    SetFileMetadata { handle: u64, metadata: FsSetMetadata },
    Flush { handle: u64 },
    Close { handle: u64 },
    SetMetadata { path: PathView, metadata: FsSetMetadata },
    Mkdir { path: PathView },
    Remove { path: PathView, directory: bool },
    Rename { from: PathView, to: PathView, replace: bool },
    Report { event: EventView },
    Poll,
}

impl View for Operation {
    type V = OperationView;

    open spec fn view(&self) -> OperationView {
        match *self {
            Operation::Capabilities => OperationView::Capabilities,
            Operation::Space { path } => OperationView::Space { path: path@ },
            Operation::Metadata { path } => OperationView::Metadata { path: path@ },
            Operation::Open { path, options } => OperationView::Open { path: path@, options },
            Operation::OpenDirectory { path } => OperationView::OpenDirectory { path: path@ },
            Operation::ReadDirectory { handle } => OperationView::ReadDirectory { handle },
            Operation::CloseDirectory { handle } => OperationView::CloseDirectory { handle },
            Operation::FileMetadata { handle } => OperationView::FileMetadata { handle },
            Operation::Read { handle, offset, length } => OperationView::Read {
                handle,
                offset,
                length,
            },
            Operation::Write { handle, offset, bytes } => OperationView::Write {
                handle,
                offset,
                bytes: bytes@,
            },
            Operation::SetFileMetadata { handle, metadata } => OperationView::SetFileMetadata {
                handle,
                metadata,
            },
            Operation::Flush { handle } => OperationView::Flush { handle },
            Operation::Close { handle } => OperationView::Close { handle },
            Operation::SetMetadata { path, metadata } => OperationView::SetMetadata {
                path: path@,
                metadata,
            },
            Operation::Mkdir { path } => OperationView::Mkdir { path: path@ },
            Operation::Remove { path, directory } => OperationView::Remove {
                path: path@,
                directory,
            },
            Operation::Rename { from, to, replace } => OperationView::Rename {
                from: from@,
                to: to@,
                replace,
            },
            Operation::Report { event } => OperationView::Report { event: event@ },
            Operation::Poll => OperationView::Poll,
        }
    }
}

/// What a provider answers.
#[derive(Debug)]
pub enum Value {
    Unit,
    Capabilities(FsCapabilities),
    Space(FsSpace),
    Metadata(FsMetadata),
    Handle(u64),
    Data(Vec<u8>),
    Entries(Vec<FsDirectoryEntry>),
    Directive(BridgeDirective),
}

/// What a [`Value`] says.
pub enum ValueView {
    Unit,
    Capabilities(FsCapabilities),
    Space(FsSpace),
    Metadata(FsMetadata),
    Handle(u64),
    Data(Seq<u8>),
    Entries(Seq<EntryView>),
    Directive(BridgeDirective),
}

impl View for Value {
    type V = ValueView;

    open spec fn view(&self) -> ValueView {
        match *self {
            Value::Unit => ValueView::Unit,
            Value::Capabilities(capabilities) => ValueView::Capabilities(capabilities),
            Value::Space(space) => ValueView::Space(space),
            Value::Metadata(metadata) => ValueView::Metadata(metadata),
            Value::Handle(handle) => ValueView::Handle(handle),
            Value::Data(bytes) => ValueView::Data(bytes@),
            Value::Entries(entries) => ValueView::Entries(entries_view(entries@)),
            Value::Directive(directive) => ValueView::Directive(directive),
        }
    }
}

/// What a reply says.
pub type ReplyView = Result<ValueView, FsErrorView>;

pub open spec fn reply_view(reply: FsResult<Value>) -> ReplyView {
    match reply {
        Ok(value) => Ok(value@),
        Err(error) => Err(error@),
    }
}

#[derive(Debug)]
pub struct Request {
    pub version: u32,
    pub id: u64,
    pub operation: Operation,
}

#[derive(Debug)]
pub struct Response {
    pub version: u32,
    pub id: u64,
    pub result: FsResult<Value>,
}

/// Why bytes are no frame.
#[derive(Clone, Copy, Debug, PartialEq, Eq, Structural)]
pub enum FrameError {
    /// A received prefix announces no body or one over the bound.
    Length,
    /// A body to be sent is empty or over the bound.
    Bound,
}

impl FrameError {
    pub fn message(self) -> (text: &'static str)
        ensures
            text@ == (match self {
                FrameError::Length => "Invalid filesystem bridge frame length"@,
                FrameError::Bound => "Filesystem bridge frame exceeds its bound"@,
            }),
    {
        match self {
            FrameError::Length => "Invalid filesystem bridge frame length",
            FrameError::Bound => "Filesystem bridge frame exceeds its bound",
        }
    }
}

/// A body length that a frame can carry.
pub open spec fn frame_fits(length: int) -> bool {
    0 < length <= MAX_FRAME
}

/// The number that four bytes spell, most significant first.
pub open spec fn big_endian(bytes: Seq<u8>) -> int {
    bytes[0] * 16777216 + bytes[1] * 65536 + bytes[2] * 256 + bytes[3]
}

/// The bytes sent for a body: its length in four bytes, most significant first,
/// then the body.
pub open spec fn frame_of(body: Seq<u8>) -> Seq<u8> {
    let length = body.len();
    seq![
        (length / 16777216) as u8,
        (length / 65536 % 256) as u8,
        (length / 256 % 256) as u8,
        (length % 256) as u8,
    ] + body
}

/// The body length that a received prefix announces.
pub fn frame_length(prefix: [u8; 4]) -> (length: Result<usize, FrameError>)
    ensures
        length is Ok <==> frame_fits(big_endian(prefix@)),
        length matches Ok(n) ==> n == big_endian(prefix@),
        length matches Err(e) ==> e == FrameError::Length,
{
    let size: u64 = prefix[0] as u64 * 16777216 + prefix[1] as u64 * 65536 + prefix[2] as u64 * 256
        + prefix[3] as u64;
    if size == 0 || size > 1048576 {
        Err(FrameError::Length)
    } else {
        Ok(size as usize)
    }
}

/// The bytes to send for a body.
pub fn encode(body: &Vec<u8>) -> (frame: Result<Vec<u8>, FrameError>)
    ensures
        frame is Ok <==> frame_fits(body@.len() as int),
        frame matches Ok(f) ==> f@ == frame_of(body@),
        frame matches Err(e) ==> e == FrameError::Bound,
{
    let length: usize = body.len();
    if length == 0 || length > MAX_FRAME {
        return Err(FrameError::Bound);
    }
    let mut frame: Vec<u8> = Vec::with_capacity(length + 4);
    frame.push((length / 16777216) as u8);
    frame.push((length / 65536 % 256) as u8);
    frame.push((length / 256 % 256) as u8);
    frame.push((length % 256) as u8);
    let ghost prefix = frame@;
    let mut i: usize = 0;
    while i < length
        invariant
            i <= length,
            length == body@.len(),
            frame@ == prefix + body@.take(i as int),
        decreases length - i,
    {
        frame.push(body[i]);
        i += 1;
        assert(body@.take(i as int) =~= body@.take(i - 1).push(body@[i - 1]));
    }
    assert(frame@ =~= frame_of(body@));
    Ok(frame)
}

/// The calling end of the pipes. It numbers requests, and once an exchange has
/// failed it refuses all further ones.
pub struct Client {
    closed: bool,
    next: u64,
}

/// The state of a [`Client`]: the number of the last request sent, and whether
/// the transport has been given up.
#[verifier::ext_equal]
pub struct ClientView {
    pub closed: bool,
    pub next: u64,
}

impl View for Client {
    type V = ClientView;

    closed spec fn view(&self) -> ClientView {
        ClientView { closed: self.closed, next: self.next }
    }
}

impl ClientView {
    /// The transport given up.
    pub open spec fn retired(self) -> Self {
        ClientView { closed: true, ..self }
    }

    /// The state after request number `next + 1` has been made.
    pub open spec fn begun(self) -> Self {
        ClientView { closed: false, next: (self.next + 1) as u64 }
    }

    /// The state after the exchange for request `id` has ended.
    pub open spec fn finished(self, id: u64, outcome: Result<Response, String>) -> Self {
        match outcome {
            Ok(response) => if accepted(id, response) {
                self
            } else {
                self.retired()
            },
            Err(_) => self.retired(),
        }
    }

    /// The state after a call whose exchange, if there was one, ended with `outcome`.
    pub open spec fn called(self, outcome: Result<Response, String>) -> Self {
        if self.closed {
            self
        } else {
            self.begun().finished((self.next + 1) as u64, outcome)
        }
    }

    /// The state after a series of calls.
    pub open spec fn after(self, outcomes: Seq<Result<Response, String>>) -> Self
        decreases outcomes.len(),
    {
        if outcomes.len() == 0 {
            self
        } else {
            self.after(outcomes.drop_last()).called(outcomes.last())
        }
    }
}

/// The answer of a transport that has been given up.
pub open spec fn connection_closed() -> FsErrorView {
    error_of(FsErrorKind::Offline, "Bridge connection is closed"@)
}

/// A reply belongs to request `id`.
pub open spec fn accepted(id: u64, response: Response) -> bool {
    response.version == PROTOCOL && response.id == id
}

impl Client {
    pub fn new() -> (client: Self)
        ensures
            client@ == (ClientView { closed: false, next: 0 }),
    {
        Client { closed: false, next: 0 }
    }

    /// Whether another request can be numbered.
    pub fn can_begin(&self) -> (can: bool)
        ensures
            can == (self@.closed || self@.next < u64::MAX),
    {
        self.closed || self.next < u64::MAX
    }

    /// The request to send for an operation.
    pub fn begin(&mut self, operation: Operation) -> (request: FsResult<Request>)
        requires
            old(self)@.closed || old(self)@.next < u64::MAX,
        ensures
            request is Err <==> old(self)@.closed,
            request matches Ok(r) ==> {
                &&& r.version == PROTOCOL
                &&& r.id == old(self)@.next + 1
                &&& r.operation == operation
                &&& final(self)@ == old(self)@.begun()
            },
            request is Err ==> final(self)@ == old(self)@ && fails_with(request, connection_closed()),
    {
        if self.closed {
            return Err(FsError::new(FsErrorKind::Offline, "Bridge connection is closed"));
        }
        self.next = self.next + 1;
        Ok(Request { version: PROTOCOL, id: self.next, operation })
    }

    /// What a call returns once its exchange has ended. `outcome` is the reply
    /// read, or the text of the failure to send the request or to read a reply.
    pub fn finish(&mut self, id: u64, outcome: Result<Response, String>) -> (result: FsResult<
        Value,
    >)
        ensures
            match outcome {
                Ok(response) => if accepted(id, response) {
                    result == response.result
                } else {
                    fails_with(
                        result,
                        error_of(FsErrorKind::Offline, "Mismatched filesystem reply"@),
                    )
                },
                Err(text) => fails_with(result, error_of(FsErrorKind::Offline, text@)),
            },
            final(self)@ == old(self)@.finished(id, outcome),
    {
        match outcome {
            Ok(response) => {
                if response.version != PROTOCOL || response.id != id {
                    self.closed = true;
                    Err(FsError::new(FsErrorKind::Offline, "Mismatched filesystem reply"))
                } else {
                    response.result
                }
            },
            Err(text) => {
                self.closed = true;
                Err(FsError { kind: FsErrorKind::Offline, message: text })
            },
        }
    }
}

/// Every request carries the number after that of the one before it, however the
/// exchanges between them ended, so that no two carry the same.
pub proof fn law_request_numbers_grow(
    client: ClientView,
    outcomes: Seq<Result<Response, String>>,
)
    requires
        client.next + outcomes.len() <= u64::MAX,
    ensures
        client.next <= client.after(outcomes).next <= client.next + outcomes.len(),
        !client.after(outcomes).closed ==> client.after(outcomes).next == client.next
            + outcomes.len(),
    decreases outcomes.len(),
{
    if outcomes.len() > 0 {
        law_request_numbers_grow(client, outcomes.drop_last());
    }
}

/// A received frame yields the body that was sent, whatever it was: its first
/// four bytes announce an acceptable length, and that many bytes follow.
pub proof fn law_frames_round_trip(body: Seq<u8>)
    requires
        frame_fits(body.len() as int),
    ensures
        frame_of(body).len() == 4 + body.len(),
        big_endian(frame_of(body).take(4)) == body.len(),
        frame_of(body).skip(4) == body,
{
    assert(frame_of(body).skip(4) =~= body);
}

/// An exchange that fails, or a reply to another request, gives the transport up
/// for good: it stays given up through every later call, and no request is made.
pub proof fn law_a_lost_transport_stays_lost(
    client: ClientView,
    lost: Result<Response, String>,
    later: Seq<Result<Response, String>>,
)
    requires
        lost matches Ok(response) ==> !accepted((client.next + 1) as u64, response),
    ensures
        client.called(lost).closed,
        client.called(lost).after(later) == client.called(lost),
    decreases later.len(),
{
    if later.len() > 0 {
        law_a_lost_transport_stays_lost(client, lost, later.drop_last());
    }
}

/// A frame carries from one byte to a mebibyte, and its length comes first, most
/// significant byte first.
pub proof fn law_frames_are_bounded(length: int, bytes: Seq<u8>)
    requires
        bytes.len() == 4,
    ensures
        frame_fits(length) <==> 1 <= length <= 1024 * 1024,
        big_endian(bytes) == ((bytes[0] as int * 256 + bytes[1]) * 256 + bytes[2]) * 256 + bytes[3],
{
}

/// A request says what it asks: the path, the handle, the place, the bytes and the
/// options that were put into it, each in its own part.
pub proof fn law_requests_say_what_they_ask(operation: Operation)
    ensures
        match operation {
            Operation::Capabilities => operation@ is Capabilities,
            Operation::Space { path } => operation@ == (OperationView::Space { path: path@ }),
            Operation::Metadata { path } => operation@ == (OperationView::Metadata { path: path@ }),
            Operation::Open { path, options } => operation@ == (OperationView::Open {
                path: path@,
                options,
            }),
            Operation::OpenDirectory { path } => operation@ == (OperationView::OpenDirectory {
                path: path@,
            }),
            Operation::ReadDirectory { handle } => operation@ == (OperationView::ReadDirectory {
                handle,
            }),
            Operation::CloseDirectory { handle } => operation@ == (OperationView::CloseDirectory {
                handle,
            }),
            Operation::FileMetadata { handle } => operation@ == (OperationView::FileMetadata {
                handle,
            }),
            Operation::Read { handle, offset, length } => operation@ == (OperationView::Read {
                handle,
                offset,
                length,
            }),
            Operation::Write { handle, offset, bytes } => operation@ == (OperationView::Write {
                handle,
                offset,
                bytes: bytes@,
            }),
            Operation::SetFileMetadata { handle, metadata } => operation@ == (
            OperationView::SetFileMetadata { handle, metadata }),
            Operation::Flush { handle } => operation@ == (OperationView::Flush { handle }),
            Operation::Close { handle } => operation@ == (OperationView::Close { handle }),
            Operation::SetMetadata { path, metadata } => operation@ == (
            OperationView::SetMetadata { path: path@, metadata }),
            Operation::Mkdir { path } => operation@ == (OperationView::Mkdir { path: path@ }),
            Operation::Remove { path, directory } => operation@ == (OperationView::Remove {
                path: path@,
                directory,
            }),
            Operation::Rename { from, to, replace } => operation@ == (OperationView::Rename {
                from: from@,
                to: to@,
                replace,
            }),
            Operation::Report { event } => operation@ == (OperationView::Report { event: event@ }),
            Operation::Poll => operation@ is Poll,
        },
{
}

/// A reply says what the provider answered: the same kind of value with the same
/// contents, or the same error.
pub proof fn law_replies_say_what_was_answered(reply: FsResult<Value>)
    ensures
        match reply {
            Ok(Value::Unit) => reply_view(reply) == Ok::<ValueView, FsErrorView>(ValueView::Unit),
            Ok(Value::Capabilities(c)) => reply_view(reply) == Ok::<ValueView, FsErrorView>(
                ValueView::Capabilities(c),
            ),
            Ok(Value::Space(s)) => reply_view(reply) == Ok::<ValueView, FsErrorView>(
                ValueView::Space(s),
            ),
            Ok(Value::Metadata(m)) => reply_view(reply) == Ok::<ValueView, FsErrorView>(
                ValueView::Metadata(m),
            ),
            Ok(Value::Handle(h)) => reply_view(reply) == Ok::<ValueView, FsErrorView>(
                ValueView::Handle(h),
            ),
            Ok(Value::Data(bytes)) => reply_view(reply) == Ok::<ValueView, FsErrorView>(
                ValueView::Data(bytes@),
            ),
            Ok(Value::Entries(entries)) => reply_view(reply) matches Ok(ValueView::Entries(seen))
                && seen.len() == entries@.len() && (forall|i: int|
                0 <= i < seen.len() ==> (#[trigger] seen[i]).name == entries@[i].name@
                    && seen[i].metadata == entries@[i].metadata),
            Ok(Value::Directive(d)) => reply_view(reply) == Ok::<ValueView, FsErrorView>(
                ValueView::Directive(d),
            ),
            Err(e) => reply_view(reply) matches Err(seen) && seen.kind == e.kind && seen.message
                == e.message@,
        },
{
}

/// A reply belongs to a request exactly if it carries its number and speaks the same
/// version. Each new request carries the next number.
pub proof fn law_replies_belong_to_their_request(
    client: ClientView,
    id: u64,
    response: Response,
)
    requires
        client.next < u64::MAX,
    ensures
        accepted(id, response) <==> response.id == id && response.version == 1,
        client.begun().next == client.next + 1,
        client.retired().closed && client.retired().next == client.next,
        connection_closed().kind == FsErrorKind::Offline,
{
}

} // verus!
