//! The life of one connection as a state machine. The caller reads and
//! writes; each event it reports is answered with the next state and the
//! next thing to do.

use crate::bytes::{bytes_eq, copy_bytes, strip_both, text, trim, ByteClass};
use crate::dispatch::{handle_request, response_for};
use crate::header::{
    contains_ignore_case, extract_header_value, header_contains, header_starts_with, header_value,
    parse_request_line_fast, request_line_parts, starts_with_ignore_case, trim_header_line,
    trimmed_header_line,
};
use crate::index::{OptimizedCache, PathTrieView};
use crate::templates::HeaderTemplates;
use vstd::prelude::*;
use vstd::utf8::encode_utf8;

verus! {

/// The most bytes that a request line may have, line end included.
pub const MAX_REQUEST_SIZE: usize = 8192;

/// A request whose request line was read and whose headers are being
/// read.
#[derive(Clone, Debug, PartialEq, Eq)]
pub struct PendingRequest {
    pub is_head: bool,
    pub path: String,
    pub is_http11: bool,
    pub keep_alive: bool,
    pub if_modified_since: Option<Vec<u8>>,
    pub if_none_match: Option<Vec<u8>>,
}

/// A pending request as plain values; the path as its bytes.
pub struct PendingRequestView {
    pub is_head: bool,
    pub path: Seq<u8>,
    pub is_http11: bool,
    pub keep_alive: bool,
    pub if_modified_since: Option<Seq<u8>>,
    pub if_none_match: Option<Seq<u8>>,
}

impl View for PendingRequest {
    type V = PendingRequestView;

    open spec fn view(&self) -> PendingRequestView {
        PendingRequestView {
            is_head: self.is_head,
            path: encode_utf8(self.path@),
            is_http11: self.is_http11,
            keep_alive: self.keep_alive,
            if_modified_since: match self.if_modified_since {
                Some(value) => Some(value@),
                None => None,
            },
            if_none_match: match self.if_none_match {
                Some(value) => Some(value@),
                None => None,
            },
        }
    }
}

/// Where a connection stands.
#[derive(Clone, Debug, PartialEq, Eq)]
pub enum ConnectionState {
    /// Waiting for a request line.
    Idle,
    /// Reading the headers of a request.
    Headers(PendingRequest),
    /// The response to a request is being written; `keep_alive` says
    /// whether another request may follow it.
    Responding { keep_alive: bool },
    /// A last response is being written. The connection closes after it.
    Closing,
    /// Nothing more happens on this connection.
    Closed,
}

/// A connection's state as plain values.
pub enum ConnectionStateView {
    Idle,
    Headers(PendingRequestView),
    Responding { keep_alive: bool },
    Closing,
    Closed,
}

impl View for ConnectionState {
    type V = ConnectionStateView;

    open spec fn view(&self) -> ConnectionStateView {
        match self {
            ConnectionState::Idle => ConnectionStateView::Idle,
            ConnectionState::Headers(request) => ConnectionStateView::Headers(request@),
            ConnectionState::Responding { keep_alive } => ConnectionStateView::Responding {
                keep_alive: *keep_alive,
            },
            ConnectionState::Closing => ConnectionStateView::Closing,
            ConnectionState::Closed => ConnectionStateView::Closed,
        }
    }
}

/// What the caller reports.
#[derive(Clone, Copy, Debug, PartialEq, Eq)]
pub enum Event<'e> {
    /// A line was read; it is given with its line end. While idle it is
    /// the request line, else a header line.
    Line(&'e [u8]),
    /// The peer closed the connection: a read returned nothing.
    EndOfInput,
    /// A read or a write failed.
    Failed,
    /// A time limit ran out: that on waiting for a request line, or that
    /// on the connection as a whole.
    TimedOut,
    /// The response was written and flushed.
    Sent,
}

/// An event as plain values.
pub enum EventView {
    Line(Seq<u8>),
    EndOfInput,
    Failed,
    TimedOut,
    Sent,
}

impl<'e> View for Event<'e> {
    type V = EventView;

    open spec fn view(&self) -> EventView {
        match self {
            Event::Line(line) => EventView::Line(line@),
            Event::EndOfInput => EventView::EndOfInput,
            Event::Failed => EventView::Failed,
            Event::TimedOut => EventView::TimedOut,
            Event::Sent => EventView::Sent,
        }
    }
}

/// What the caller is to do next.
#[derive(Clone, Copy, Debug, PartialEq, Eq)]
pub enum Action<'a> {
    /// Read a request line, within the idle time limit. A line of more
    /// than `MAX_REQUEST_SIZE` bytes need not be read to its end: one byte
    /// more is enough to have it refused.
    ReadRequestLine,
    /// Read a header line.
    ReadHeaderLine,
    /// Write these bytes in one write, and flush.
    Send(&'a [u8]),
    /// Close the connection.
    Close,
}

/// An action as plain values.
pub enum ActionView {
    ReadRequestLine,
    ReadHeaderLine,
    Send(Seq<u8>),
    Close,
}

impl<'a> View for Action<'a> {
    type V = ActionView;

    open spec fn view(&self) -> ActionView {
        match self {
            Action::ReadRequestLine => ActionView::ReadRequestLine,
            Action::ReadHeaderLine => ActionView::ReadHeaderLine,
            Action::Send(bytes) => ActionView::Send(bytes@),
            Action::Close => ActionView::Close,
        }
    }
}

/// What a request line of acceptable length leads to. An empty one is
/// passed over; one that is not method, path and version is refused with
/// 400, and a method other than GET and HEAD with 405. HTTP/1.1 keeps the
/// connection alive unless a header says otherwise.
pub open spec fn accepted_line_outcome(line: Seq<u8>, shutdown: bool, templates: &HeaderTemplates) -> (
    ConnectionStateView,
    ActionView,
) {
    if trim(line).len() == 0 {
        if shutdown {
            (ConnectionStateView::Closed, ActionView::Close)
        } else {
            (ConnectionStateView::Idle, ActionView::ReadRequestLine)
        }
    } else {
        match request_line_parts(trim(line)) {
            None => (ConnectionStateView::Closing, ActionView::Send(templates.bad_request@)),
            Some((method, path, version)) => if method != text("GET") && method != text("HEAD") {
                (ConnectionStateView::Closing, ActionView::Send(templates.method_not_allowed@))
            } else {
                (
                    ConnectionStateView::Headers(
                        PendingRequestView {
                            is_head: method == text("HEAD"),
                            path,
                            is_http11: version == text("HTTP/1.1"),
                            keep_alive: version == text("HTTP/1.1"),
                            if_modified_since: None,
                            if_none_match: None,
                        },
                    ),
                    ActionView::ReadHeaderLine,
                )
            },
        }
    }
}

/// What a request line leads to. One of more than `MAX_REQUEST_SIZE`
/// bytes, line end included, is refused with 413 whatever it holds.
pub open spec fn request_line_outcome(line: Seq<u8>, shutdown: bool, templates: &HeaderTemplates) -> (
    ConnectionStateView,
    ActionView,
) {
    if line.len() > MAX_REQUEST_SIZE {
        (ConnectionStateView::Closing, ActionView::Send(templates.request_too_large@))
    } else {
        accepted_line_outcome(line, shutdown, templates)
    }
}

/// A pending request after one more header line, given trimmed. Names
/// are matched without regard to case. `Connection` decides on
/// keep-alive: `close` ends it, and under HTTP/1.0 only `keep-alive`
/// grants it. The two conditional headers are kept as they stand; one
/// without a value changes nothing.
pub open spec fn with_header(request: PendingRequestView, line: Seq<u8>) -> PendingRequestView {
    if starts_with_ignore_case(line, text("connection:")) {
        PendingRequestView {
            is_head: request.is_head,
            path: request.path,
            is_http11: request.is_http11,
            keep_alive: !contains_ignore_case(line, text("close")) && (request.is_http11
                || contains_ignore_case(line, text("keep-alive"))),
            if_modified_since: request.if_modified_since,
            if_none_match: request.if_none_match,
        }
    } else if starts_with_ignore_case(line, text("if-modified-since:")) {
        match header_value(line, text("if-modified-since:").len()) {
            Some(value) => PendingRequestView {
                is_head: request.is_head,
                path: request.path,
                is_http11: request.is_http11,
                keep_alive: request.keep_alive,
                if_modified_since: Some(value),
                if_none_match: request.if_none_match,
            },
            None => request,
        }
    } else if starts_with_ignore_case(line, text("if-none-match:")) {
        match header_value(line, text("if-none-match:").len()) {
            Some(value) => PendingRequestView {
                is_head: request.is_head,
                path: request.path,
                is_http11: request.is_http11,
                keep_alive: request.keep_alive,
                if_modified_since: request.if_modified_since,
                if_none_match: Some(value),
            },
            None => request,
        }
    } else {
        request
    }
}

/// What a header line leads to: the empty line ends the headers and the
/// response is chosen; any other line is taken into the request.
pub open spec fn header_line_outcome(
    request: PendingRequestView,
    line: Seq<u8>,
    templates: &HeaderTemplates,
    index: PathTrieView,
) -> (ConnectionStateView, ActionView) {
    let trimmed = trimmed_header_line(line);
    if trimmed.len() == 0 {
        (
            ConnectionStateView::Responding { keep_alive: request.keep_alive },
            ActionView::Send(
                response_for(
                    templates,
                    index,
                    request.path,
                    request.is_head,
                    request.if_modified_since,
                    request.if_none_match,
                ),
            ),
        )
    } else {
        (ConnectionStateView::Headers(with_header(request, trimmed)), ActionView::ReadHeaderLine)
    }
}

/// The next state and the next action, for every state and event.
///
/// A time limit that runs out is answered with 408, and input that ends in
/// the middle of the headers with 400; the connection closes after either.
/// A failed read or write closes it at once. After a response the
/// connection goes on only if the request asked to keep it alive and no
/// shutdown was signalled. An event that the state does not expect closes
/// the connection.
pub open spec fn transition(
    state: ConnectionStateView,
    event: EventView,
    shutdown: bool,
    templates: &HeaderTemplates,
    index: PathTrieView,
) -> (ConnectionStateView, ActionView) {
    match state {
        ConnectionStateView::Idle => match event {
            EventView::Line(line) => request_line_outcome(line, shutdown, templates),
            EventView::TimedOut => (
                ConnectionStateView::Closing,
                ActionView::Send(templates.request_timeout@),
            ),
            _ => (ConnectionStateView::Closed, ActionView::Close),
        },
        ConnectionStateView::Headers(request) => match event {
            EventView::Line(line) => header_line_outcome(request, line, templates, index),
            EventView::EndOfInput => (
                ConnectionStateView::Closing,
                ActionView::Send(templates.bad_request@),
            ),
            EventView::TimedOut => (
                ConnectionStateView::Closing,
                ActionView::Send(templates.request_timeout@),
            ),
            _ => (ConnectionStateView::Closed, ActionView::Close),
        },
        ConnectionStateView::Responding { keep_alive } => match event {
            EventView::Sent => if keep_alive && !shutdown {
                (ConnectionStateView::Idle, ActionView::ReadRequestLine)
            } else {
                (ConnectionStateView::Closed, ActionView::Close)
            },
            EventView::TimedOut => (
                ConnectionStateView::Closing,
                ActionView::Send(templates.request_timeout@),
            ),
            _ => (ConnectionStateView::Closed, ActionView::Close),
        },
        ConnectionStateView::Closing => (ConnectionStateView::Closed, ActionView::Close),
        ConnectionStateView::Closed => (ConnectionStateView::Closed, ActionView::Close),
    }
}

fn on_request_line<'a>(line: &[u8], shutdown: bool, templates: &'a HeaderTemplates) -> (next: (
    ConnectionState,
    Action<'a>,
))
    ensures
        (next.0@, next.1@) == request_line_outcome(line@, shutdown, templates),
{
    if line.len() > MAX_REQUEST_SIZE {
        return (ConnectionState::Closing, Action::Send(templates.request_too_large.as_slice()));
    }
    let (start, end) = strip_both(line, 0, line.len(), ByteClass::Whitespace);
    proof {
        assert(line@.subrange(0, line.len() as int) =~= line@);
    }
    if start == end {
        if shutdown {
            return (ConnectionState::Closed, Action::Close);
        } else {
            return (ConnectionState::Idle, Action::ReadRequestLine);
        }
    }
    match parse_request_line_fast(&line[start..end]) {
        None => (ConnectionState::Closing, Action::Send(templates.bad_request.as_slice())),
        Some((method, path, version)) => {
            let is_get = bytes_eq(method, "GET".as_bytes());
            let is_head = bytes_eq(method, "HEAD".as_bytes());
            if !is_get && !is_head {
                return (
                    ConnectionState::Closing,
                    Action::Send(templates.method_not_allowed.as_slice()),
                );
            }
            let is_http11 = bytes_eq(version.as_bytes(), "HTTP/1.1".as_bytes());
            let request = PendingRequest {
                is_head,
                path: path.to_owned(),
                is_http11,
                keep_alive: is_http11,
                if_modified_since: None,
                if_none_match: None,
            };
            (ConnectionState::Headers(request), Action::ReadHeaderLine)
        },
    }
}

fn apply_header(request: PendingRequest, line: &[u8]) -> (updated: PendingRequest)
    ensures
        updated@ == with_header(request@, line@),
{
    let mut request = request;
    if header_starts_with(line, "connection:".as_bytes()) {
        let close_requested = header_contains(line, "close".as_bytes());
        request.keep_alive = !close_requested && (request.is_http11 || header_contains(
            line,
            "keep-alive".as_bytes(),
        ));
    } else if header_starts_with(line, "if-modified-since:".as_bytes()) {
        match extract_header_value(line, "if-modified-since:".as_bytes()) {
            Some(value) => {
                request.if_modified_since = Some(copy_bytes(value));
            },
            None => {},
        }
    } else if header_starts_with(line, "if-none-match:".as_bytes()) {
        match extract_header_value(line, "if-none-match:".as_bytes()) {
            Some(value) => {
                request.if_none_match = Some(copy_bytes(value));
            },
            None => {},
        }
    }
    request
}

fn on_header_line<'a>(
    request: PendingRequest,
    line: &[u8],
    templates: &'a HeaderTemplates,
    cache: &'a OptimizedCache,
) -> (next: (ConnectionState, Action<'a>))
    ensures
        (next.0@, next.1@) == header_line_outcome(request@, line@, templates, cache@),
{
    let trimmed = trim_header_line(line);
    if trimmed.len() == 0 {
        let if_modified_since: Option<&[u8]> = match &request.if_modified_since {
            Some(value) => Some(value.as_slice()),
            None => None,
        };
        let if_none_match: Option<&[u8]> = match &request.if_none_match {
            Some(value) => Some(value.as_slice()),
            None => None,
        };
        let response = handle_request(
            templates,
            cache,
            request.path.as_str(),
            request.is_head,
            if_modified_since,
            if_none_match,
        );
        (ConnectionState::Responding { keep_alive: request.keep_alive }, Action::Send(response))
    } else {
        (ConnectionState::Headers(apply_header(request, trimmed)), Action::ReadHeaderLine)
    }
}

impl ConnectionState {
    /// Where a connection begins. One that is accepted after shutdown was
    /// signalled is closed at once.
    pub fn start(shutdown: bool) -> (first: (ConnectionState, Action<'static>))
        ensures
            first.0@ == (if shutdown {
                ConnectionStateView::Closed
            } else {
                ConnectionStateView::Idle
            }),
            first.1@ == (if shutdown {
                ActionView::Close
            } else {
                ActionView::ReadRequestLine
            }),
    {
        if shutdown {
            (ConnectionState::Closed, Action::Close)
        } else {
            (ConnectionState::Idle, Action::ReadRequestLine)
        }
    }

    /// Takes one event and answers with the next state and what to do
    /// next. `shutdown` says whether shutdown was signalled by now.
    pub fn step<'a>(
        self,
        event: Event<'_>,
        shutdown: bool,
        templates: &'a HeaderTemplates,
        cache: &'a OptimizedCache,
    ) -> (next: (ConnectionState, Action<'a>))
        ensures
            (next.0@, next.1@) == transition(self@, event@, shutdown, templates, cache@),
    {
        match self {
            ConnectionState::Idle => match event {
                Event::Line(line) => on_request_line(line, shutdown, templates),
                Event::TimedOut => (
                    ConnectionState::Closing,
                    Action::Send(templates.request_timeout.as_slice()),
                ),
                _ => (ConnectionState::Closed, Action::Close),
            },
            ConnectionState::Headers(request) => match event {
                Event::Line(line) => on_header_line(request, line, templates, cache),
                Event::EndOfInput => (
                    ConnectionState::Closing,
                    Action::Send(templates.bad_request.as_slice()),
                ),
                Event::TimedOut => (
                    ConnectionState::Closing,
                    Action::Send(templates.request_timeout.as_slice()),
                ),
                _ => (ConnectionState::Closed, Action::Close),
            },
            ConnectionState::Responding { keep_alive } => match event {
                Event::Sent => if keep_alive && !shutdown {
                    (ConnectionState::Idle, Action::ReadRequestLine)
                } else {
                    (ConnectionState::Closed, Action::Close)
                },
                Event::TimedOut => (
                    ConnectionState::Closing,
                    Action::Send(templates.request_timeout.as_slice()),
                ),
                _ => (ConnectionState::Closed, Action::Close),
            },
            ConnectionState::Closing => (ConnectionState::Closed, Action::Close),
            ConnectionState::Closed => (ConnectionState::Closed, Action::Close),
        }
    }
}

} // verus!
