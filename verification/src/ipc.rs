use crate::backoff::{duration_from_secs, duration_nanos, max_duration_nanos, next_delay, Backoff};
use crate::dock::{Event, EventView, Window};
use std::time::Duration;
use vstd::prelude::*;

verus! {

/// The application id the dock's own windows carry.
pub const APP_ID: &'static str = "org.niri.dock";

#[verifier::external_type_specification]
#[verifier::external_body]
pub struct ExIoError(std::io::Error);

#[verifier::external_type_specification]
#[verifier::external_body]
pub struct ExJsonError(serde_json::Error);

/// Calls `<std::io::Error as Display>::fmt` through `format!`. The text
/// comes from the operating system and its locale, so nothing is stated of it.
#[verifier::external_body]
fn io_error_text(e: &std::io::Error) -> String {
    format!("{e}")
}

/// Calls `<serde_json::Error as Display>::fmt` through `format!`. Nothing is
/// stated of the text.
#[verifier::external_body]
fn json_error_text(e: &serde_json::Error) -> String {
    format!("{e}")
}

/// Everything that can go wrong while talking to niri.
pub enum NiriError {
    SocketNotSet,
    Connect(std::io::Error),
    Serialize(serde_json::Error),
    Write(std::io::Error),
    Read(std::io::Error),
    ConnectionClosed,
    Timeout,
    Deserialize(serde_json::Error),
    Niri(String),
    WorkerGone,
    ReplyDropped,
}

/// The fixed text that opens the message of `e`; for the variants without a
/// payload it is the whole message.
pub open spec fn message_head(e: &NiriError) -> Seq<char> {
    match e {
        NiriError::SocketNotSet => "NIRI_SOCKET is not set \u{2014} is this running inside a niri session?"@,
        NiriError::Connect(_) => "failed to connect to the niri socket: "@,
        NiriError::Serialize(_) => "failed to serialize request: "@,
        NiriError::Write(_) => "failed to write to the niri socket: "@,
        NiriError::Read(_) => "failed to read from the niri socket: "@,
        NiriError::ConnectionClosed => "niri closed the connection"@,
        NiriError::Timeout => "timed out waiting for a reply from niri"@,
        NiriError::Deserialize(_) => "failed to parse niri's reply: "@,
        NiriError::Niri(_) => "niri reported an error: "@,
        NiriError::WorkerGone => "the niri request worker is not running"@,
        NiriError::ReplyDropped => "the niri request worker dropped the reply before answering"@,
    }
}

/// Whether the message of `e` ends with the text of a wrapped error.
pub open spec fn carries_source(e: &NiriError) -> bool {
    match e {
        NiriError::Connect(_) | NiriError::Serialize(_) | NiriError::Write(_) | NiriError::Read(_) | NiriError::Deserialize(_) => true,
        _ => false,
    }
}

impl NiriError {
    /// The human-readable message of the error: the fixed text of its kind,
    /// followed by niri's own message or the wrapped error's text.
    pub fn message(&self) -> (m: String)
        ensures
            self is Niri ==> m@ == message_head(self) + self->Niri_0@,
            carries_source(self) ==> m@.len() >= message_head(self).len() && m@.subrange(
                0,
                message_head(self).len() as int,
            ) == message_head(self),
            !(self is Niri) && !carries_source(self) ==> m@ == message_head(self),
    {
        let (head, tail) = match self {
            NiriError::SocketNotSet => ("NIRI_SOCKET is not set \u{2014} is this running inside a niri session?", None),
            NiriError::Connect(e) => ("failed to connect to the niri socket: ", Some(io_error_text(e))),
            NiriError::Serialize(e) => ("failed to serialize request: ", Some(json_error_text(e))),
            NiriError::Write(e) => ("failed to write to the niri socket: ", Some(io_error_text(e))),
            NiriError::Read(e) => ("failed to read from the niri socket: ", Some(io_error_text(e))),
            NiriError::ConnectionClosed => ("niri closed the connection", None),
            NiriError::Timeout => ("timed out waiting for a reply from niri", None),
            NiriError::Deserialize(e) => ("failed to parse niri's reply: ", Some(json_error_text(e))),
            NiriError::Niri(msg) => ("niri reported an error: ", Some(msg.clone())),
            NiriError::WorkerGone => ("the niri request worker is not running", None),
            NiriError::ReplyDropped => ("the niri request worker dropped the reply before answering", None),
        };
        let mut m = String::from_str(head);
        match tail {
            Some(t) => {
                let ghost h = m@;
                m.append(t.as_str());
                assert(m@.subrange(0, h.len() as int) =~= h);
            },
            None => {},
        }
        m
    }
}

/// The requests the dock sends to niri.
pub enum Request {
    FocusWindow { id: u64 },
    Spawn { command: Vec<String> },
    EventStream,
}

/// The spec value of a [`Request`].
pub enum RequestView {
    FocusWindow { id: u64 },
    Spawn { command: Seq<Seq<char>> },
    EventStream,
}

impl View for Request {
    type V = RequestView;

    open spec fn view(&self) -> RequestView {
        match self {
            Request::FocusWindow { id } => RequestView::FocusWindow { id: *id },
            Request::Spawn { command } => RequestView::Spawn { command: command@.map_values(|c: String| c@) },
            Request::EventStream => RequestView::EventStream,
        }
    }
}

/// The JSON text of the niri request that stands for `r`, as `serde_json`
/// writes it.
pub uninterp spec fn request_json(r: RequestView) -> Seq<char>;

/// Calls `serde_json::to_string` on the `niri_ipc::Request` that stands for
/// `r` (an action for a focus or spawn request, the event-stream request
/// otherwise) and returns that JSON. `to_string` fails only when a
/// `Serialize` impl fails or a map has non-string keys; these requests hold
/// only integers and strings under derived impls, so it succeeds.
#[verifier::external_body]
fn request_to_json(r: Request) -> (j: Result<String, serde_json::Error>)
    ensures
        j is Ok,
        j matches Ok(s) ==> s@ == request_json(r@),
{
    let request = match r {
        Request::FocusWindow { id } => niri_ipc::Request::Action(niri_ipc::Action::FocusWindow { id }),
        Request::Spawn { command } => niri_ipc::Request::Action(niri_ipc::Action::Spawn { command }),
        Request::EventStream => niri_ipc::Request::EventStream,
    };
    serde_json::to_string(&request)
}

/// The line that carries `r` on the niri socket: its JSON and a newline.
/// Serializing these requests never fails, so the result is always `Ok`.
pub fn encode_request(r: Request) -> (line: Result<String, NiriError>)
    ensures
        line matches Ok(l) && l@ == request_json(r@).push('\n'),
{
    match request_to_json(r) {
        Ok(json) => Ok(frame_line(json)),
        Err(e) => Err(NiriError::Serialize(e)),
    }
}

/// The request that focuses window `id`.
pub fn focus_window(id: u64) -> (r: Request)
    ensures
        r matches Request::FocusWindow { id: x } && x == id,
{
    Request::FocusWindow { id }
}

/// The request that runs `command` through `sh -c`.
pub fn spawn(command: String) -> (r: Request)
    ensures
        r matches Request::Spawn { command: argv } && argv@.len() == 3 && argv@[0]@ == "sh"@ && argv@[1]@
            == "-c"@ && argv@[2]@ == command@,
{
    let argv: Vec<String> = vec![String::from_str("sh"), String::from_str("-c"), command];
    Request::Spawn { command: argv }
}

/// One request line on the niri socket: the serialized request and a newline.
pub fn frame_line(json: String) -> (line: String)
    ensures
        line@ == json@.push('\n'),
{
    let mut line = json;
    line.append("\n");
    proof {
        reveal_strlit("\n");
    }
    assert(line@ =~= json@.push('\n'));
    line
}

/// How long to wait for niri's reply to a request.
pub fn reply_timeout() -> (d: Duration)
    ensures
        duration_nanos(d) == 5_000_000_000,
{
    duration_from_secs(5)
}

/// The outcome of waiting for one line of niri's reply.
pub enum LineRead {
    Line(String),
    Closed,
    Failed(std::io::Error),
    TimedOut,
}

/// The reply line to parse, or the error that waiting for it ended in.
pub fn reply_line(read: LineRead) -> (r: Result<String, NiriError>)
    ensures
        match read {
            LineRead::Line(l) => r == Ok::<String, NiriError>(l),
            LineRead::Closed => r matches Err(NiriError::ConnectionClosed),
            LineRead::Failed(e) => r == Err::<String, NiriError>(NiriError::Read(e)),
            LineRead::TimedOut => r matches Err(NiriError::Timeout),
        },
{
    match read {
        LineRead::Line(l) => Ok(l),
        LineRead::Closed => Err(NiriError::ConnectionClosed),
        LineRead::Failed(e) => Err(NiriError::Read(e)),
        LineRead::TimedOut => Err(NiriError::Timeout),
    }
}

#[verifier::external_type_specification]
#[verifier::external_body]
pub struct ExResponse(niri_ipc::Response);

/// What the JSON line `line` says as a niri reply: `Some(Ok(()))` for a
/// successful response, `Some(Err(m))` for an error with message `m`, `None`
/// when it is not a reply.
pub uninterp spec fn reply_of_line(line: Seq<char>) -> Option<Result<(), Seq<char>>>;

/// Calls `serde_json::from_str::<niri_ipc::Reply>`.
#[verifier::external_body]
fn reply_from_json(line: &str) -> (r: Result<Result<niri_ipc::Response, String>, serde_json::Error>)
    ensures
        match r {
            Ok(Ok(_)) => reply_of_line(line@) == Some(Ok::<(), Seq<char>>(())),
            Ok(Err(m)) => reply_of_line(line@) == Some(Err::<(), Seq<char>>(m@)),
            Err(_) => reply_of_line(line@) is None,
        },
{
    serde_json::from_str::<niri_ipc::Reply>(line)
}

/// niri's reply to a request, from the outcome of waiting for its line: the
/// parsed reply, or the error that reading or parsing ended in.
pub fn reply_from_read(read: LineRead) -> (r: Result<Result<niri_ipc::Response, String>, NiriError>)
    ensures
        match read {
            LineRead::Line(l) => match reply_of_line(l@) {
                Some(Ok(())) => r matches Ok(Ok(_)),
                Some(Err(m)) => r matches Ok(Err(msg)) && msg@ == m,
                None => r matches Err(NiriError::Deserialize(_)),
            },
            LineRead::Closed => r matches Err(NiriError::ConnectionClosed),
            LineRead::Failed(e) => r == Err::<Result<niri_ipc::Response, String>, NiriError>(NiriError::Read(e)),
            LineRead::TimedOut => r matches Err(NiriError::Timeout),
        },
{
    let line = reply_line(read)?;
    match reply_from_json(line.as_str()) {
        Ok(reply) => Ok(reply),
        Err(e) => Err(NiriError::Deserialize(e)),
    }
}

/// What a caller of a request gets from what came back over the reply
/// channel: `None` when the worker dropped the reply, else the worker's
/// result, with an error reply from niri turned into `NiriError::Niri`.
pub fn settle_reply<T>(outcome: Option<Result<Result<T, String>, NiriError>>) -> (r: Result<T, NiriError>)
    ensures
        match outcome {
            None => r matches Err(NiriError::ReplyDropped),
            Some(Err(e)) => r == Err::<T, NiriError>(e),
            Some(Ok(Ok(v))) => r == Ok::<T, NiriError>(v),
            Some(Ok(Err(msg))) => r == Err::<T, NiriError>(NiriError::Niri(msg)),
        },
{
    match outcome {
        Some(Ok(Ok(reply))) => Ok(reply),
        Some(Ok(Err(msg))) => Err(NiriError::Niri(msg)),
        Some(Err(e)) => Err(e),
        None => Err(NiriError::ReplyDropped),
    }
}

/// The reconnect delays used for niri: a [`Backoff`] with niri's settings
/// (start at one second, at most thirty, reset after an attempt of over ten),
/// which can be advanced without limit.
pub struct Reconnector {
    backoff: Backoff,
}

/// The next reconnect delay, in nanoseconds, after an attempt of `attempt`
/// nanoseconds when the last delay was `current`.
pub open spec fn niri_next_delay(current: nat, attempt: nat) -> nat {
    next_delay(1_000_000_000, current, 30_000_000_000, 10_000_000_000, attempt)
}

/// The delays niri's backoff can take: 1, 2, 4, 8, 16 or 30 seconds.
pub open spec fn niri_delay(nanos: nat) -> bool {
    ||| nanos == 1_000_000_000
    ||| nanos == 2_000_000_000
    ||| nanos == 4_000_000_000
    ||| nanos == 8_000_000_000
    ||| nanos == 16_000_000_000
    ||| nanos == 30_000_000_000
}

impl Reconnector {
    #[verifier::type_invariant]
    spec fn niri_settings(&self) -> bool {
        &&& self.backoff.initial_nanos() == 1_000_000_000
        &&& self.backoff.max_nanos() == 30_000_000_000
        &&& self.backoff.warm_after_nanos() == 10_000_000_000
        &&& niri_delay(self.backoff.current_nanos())
    }

    /// The delay, in nanoseconds, that the last attempt was followed by (one
    /// second before any attempt).
    pub closed spec fn delay_nanos(&self) -> nat {
        self.backoff.current_nanos()
    }

    pub fn niri_default() -> (r: Self)
        ensures
            r.delay_nanos() == 1_000_000_000,
    {
        Reconnector { backoff: Backoff::niri_default() }
    }

    /// The delay to wait after an attempt that lasted `attempt`.
    pub fn retry_delay(&mut self, attempt: Duration) -> (d: Duration)
        ensures
            final(self).delay_nanos() == niri_next_delay(old(self).delay_nanos(), duration_nanos(attempt)),
            duration_nanos(d) == final(self).delay_nanos(),
            niri_delay(final(self).delay_nanos()),
    {
        proof {
            use_type_invariant(&*self);
        }
        let mut b = Backoff::niri_default();
        std::mem::swap(&mut b, &mut self.backoff);
        assert(2 * b.current_nanos() <= max_duration_nanos());
        let d = b.advance(attempt);
        self.backoff = b;
        d
    }
}

/// What the request worker reports to its decision logic.
pub enum WorkerEvent {
    /// Connecting failed; `elapsed` is how long the attempt took.
    ConnectFailed { elapsed: Duration },
    /// A request was answered or failed; `elapsed` is how long the current
    /// connection has been in use, counted from the attempt that opened it.
    Served { failed: bool, elapsed: Duration },
    /// No caller can send requests any more.
    RequestsClosed,
}

/// What the request worker does next.
pub enum WorkerAction {
    /// Drop the connection, wait `after`, and connect again.
    Reconnect { after: Duration },
    /// Keep the connection and wait for the next request.
    NextRequest,
    /// Stop working.
    Stop,
}

/// The decisions of the worker that forwards requests to niri over one
/// connection at a time.
pub struct RequestWorker {
    retry: Reconnector,
}

impl RequestWorker {
    pub closed spec fn delay_nanos(&self) -> nat {
        self.retry.delay_nanos()
    }

    pub fn new() -> (w: Self)
        ensures
            w.delay_nanos() == 1_000_000_000,
    {
        RequestWorker { retry: Reconnector::niri_default() }
    }

    /// A failed connection attempt or a failed request leads to a reconnect
    /// after the next backoff delay; a served request keeps the connection;
    /// closed requests stop the worker.
    pub fn step(&mut self, ev: WorkerEvent) -> (a: WorkerAction)
        ensures
            niri_delay(final(self).delay_nanos()),
            match ev {
                WorkerEvent::ConnectFailed { elapsed } | WorkerEvent::Served { failed: true, elapsed } => {
                    &&& final(self).delay_nanos() == niri_next_delay(old(self).delay_nanos(), duration_nanos(elapsed))
                    &&& a matches WorkerAction::Reconnect { after } && duration_nanos(after) == final(self).delay_nanos()
                },
                WorkerEvent::Served { failed: false, .. } => {
                    &&& final(self).delay_nanos() == old(self).delay_nanos()
                    &&& a is NextRequest
                },
                WorkerEvent::RequestsClosed => {
                    &&& final(self).delay_nanos() == old(self).delay_nanos()
                    &&& a is Stop
                },
            },
    {
        proof {
            use_type_invariant(&self.retry);
        }
        match ev {
            WorkerEvent::ConnectFailed { elapsed } => WorkerAction::Reconnect { after: self.retry.retry_delay(elapsed) },
            WorkerEvent::Served { failed, elapsed } => {
                if failed {
                    WorkerAction::Reconnect { after: self.retry.retry_delay(elapsed) }
                } else {
                    WorkerAction::NextRequest
                }
            },
            WorkerEvent::RequestsClosed => WorkerAction::Stop,
        }
    }
}

/// The event the JSON line `line` carries, as far as the dock reads it, or
/// `None` when the line is not an event.
pub uninterp spec fn event_of_line(line: Seq<char>) -> Option<EventView>;

pub open spec fn opt_event_view(e: Option<Event>) -> Option<EventView> {
    match e {
        Some(ev) => Some(ev@),
        None => None,
    }
}

/// Calls `serde_json::from_str::<niri_ipc::Event>` and keeps, variant by
/// variant, what the dock reads of it; every other variant becomes `Other`.
#[verifier::external_body]
fn parse_event(line: &str) -> (e: Option<Event>)
    ensures
        opt_event_view(e) == event_of_line(line@),
{
    serde_json::from_str::<niri_ipc::Event>(line).ok().map(|e| match e {
        niri_ipc::Event::WindowsChanged { windows } => Event::WindowsChanged {
            windows: windows.into_iter().map(|w| Window { id: w.id, title: w.title, app_id: w.app_id, is_focused: w.is_focused }).collect(),
        },
        niri_ipc::Event::WindowOpenedOrChanged { window: w } => Event::WindowOpenedOrChanged {
            window: Window { id: w.id, title: w.title, app_id: w.app_id, is_focused: w.is_focused },
        },
        niri_ipc::Event::WindowClosed { id } => Event::WindowClosed { id },
        niri_ipc::Event::WindowFocusChanged { id } => Event::WindowFocusChanged { id },
        _ => Event::Other,
    })
}

/// What reading the event stream produced.
pub enum StreamRead {
    /// A line arrived.
    Line(String),
    /// niri closed the stream.
    End,
    /// Reading failed.
    Failed(std::io::Error),
    /// The receiver of events is gone.
    ConsumerGone,
}

/// What to do with what was read.
pub enum StreamStep {
    /// The line is niri's reply to the stream request: ignore it.
    SkipReply,
    /// The line is not an event: warn and go on.
    SkipUnparsed,
    /// Hand this event on.
    Deliver(Event),
    /// The stream is over, with this result.
    Finish(Result<(), NiriError>),
}

/// The decisions of the event-stream reader: the first line is the reply to
/// the stream request, every later line should be an event.
pub struct EventStreamReader {
    awaiting_reply: bool,
}

impl EventStreamReader {
    pub closed spec fn awaits_reply(&self) -> bool {
        self.awaiting_reply
    }

    pub fn new() -> (r: Self)
        ensures
            r.awaits_reply(),
    {
        EventStreamReader { awaiting_reply: true }
    }

    pub fn step(&mut self, read: StreamRead) -> (s: StreamStep)
        ensures
            match read {
                StreamRead::Line(l) => {
                    &&& !final(self).awaits_reply()
                    &&& if old(self).awaits_reply() {
                        s is SkipReply
                    } else {
                        match event_of_line(l@) {
                            Some(ev) => s matches StreamStep::Deliver(e) && e@ == ev,
                            None => s is SkipUnparsed,
                        }
                    }
                },
                StreamRead::End | StreamRead::ConsumerGone => s matches StreamStep::Finish(Ok(())),
                StreamRead::Failed(e) => s == StreamStep::Finish(Err(NiriError::Read(e))),
            },
    {
        match read {
            StreamRead::Line(line) => {
                if self.awaiting_reply {
                    self.awaiting_reply = false;
                    StreamStep::SkipReply
                } else {
                    match parse_event(line.as_str()) {
                        Some(e) => StreamStep::Deliver(e),
                        None => StreamStep::SkipUnparsed,
                    }
                }
            },
            StreamRead::End => StreamStep::Finish(Ok(())),
            StreamRead::ConsumerGone => StreamStep::Finish(Ok(())),
            StreamRead::Failed(e) => StreamStep::Finish(Err(NiriError::Read(e))),
        }
    }
}

} // verus!
