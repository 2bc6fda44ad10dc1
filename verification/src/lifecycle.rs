//! The life of one proxied connection as a state machine over plain values.
//!
//! The machine decides; it performs no I/O. Whoever owns the sockets hands it
//! an [`EventView`] for what has happened and carries out the [`ActionView`]
//! that comes back. [`step`] is the whole of the machine.

use crate::http_parser::frame;
use crate::http_parser::Framing;
use crate::http_parser::ParseFault;
use crate::http_parser::RequestView;
use crate::wire::forward_payload;
use crate::wire::response_wire;
use crate::wire::SyntheticStatus;
use vstd::prelude::*;
use vstd::string::StringExecFns;

verus! {

/// Where a connection stands. The first six stages are the way of a request
/// that is served; the last five are the exits taken on failure. `Closed` and
/// the five exits are final.
#[derive(Clone, Copy, Debug, PartialEq, Eq, Structural)]
pub enum Stage {
    /// The request head is being read from the client.
    Reading,
    /// A request is parsed and held, together with what was buffered behind
    /// its head; the upstream connection has been asked for.
    Parsed,
    /// The upstream is connected; the request is being replayed to it.
    ConnectingUpstream,
    /// The request has been replayed. The sockets are handed to the relay at
    /// once, so a connection passes through this stage without resting.
    Forwarding,
    /// Bytes are being relayed in both directions.
    Relaying,
    /// The connection has ended.
    Closed,
    /// The request head was malformed; answered with 400.
    BadRequest,
    /// The request head did not fit the buffer; answered with 413.
    TooLarge,
    /// The client closed before a whole head arrived; nothing was answered.
    ClientGone,
    /// The upstream could not be connected; answered with 502.
    UpstreamUnavailable,
    /// The request could not be written to the upstream; answered with 502.
    ForwardFailed,
}

/// Why a connection ended without having been served.
#[derive(Clone, Copy, Debug, PartialEq, Eq, Structural)]
pub enum ProxyError {
    /// A socket failed while the head was read or while bytes were relayed.
    Io,
    /// The request head violates the grammar or has too many headers.
    Malformed(ParseFault),
    /// The buffer filled up before the head was complete.
    BufferExhausted,
    /// The client closed before the head was complete.
    PeerClosed,
    /// The upstream refused the connection.
    UpstreamUnreachable,
    /// The replayed request could not be written to the upstream.
    ForwardWriteFailed,
}

impl ProxyError {
    /// The error in words, for a log.
    pub open spec fn text(self) -> Seq<char> {
        match self {
            ProxyError::Io => "IO error"@,
            ProxyError::Malformed(fault) => "Parse error: "@ + fault.text(),
            ProxyError::BufferExhausted => "Client buffer full"@,
            ProxyError::PeerClosed => "Client disconnected prematurely"@,
            ProxyError::UpstreamUnreachable => "Upstream unreachable"@,
            ProxyError::ForwardWriteFailed => "Forwarding the request to the upstream failed"@,
        }
    }

    /// The error in words, for a log.
    pub fn message(&self) -> (text: String)
        ensures
            text@ == self.text(),
    {
        match self {
            ProxyError::Io => "IO error".to_owned(),
            ProxyError::Malformed(fault) => {
                let mut text = "Parse error: ".to_owned();
                text.append(fault.description());
                text
            },
            ProxyError::BufferExhausted => "Client buffer full".to_owned(),
            ProxyError::PeerClosed => "Client disconnected prematurely".to_owned(),
            ProxyError::UpstreamUnreachable => "Upstream unreachable".to_owned(),
            ProxyError::ForwardWriteFailed => {
                "Forwarding the request to the upstream failed".to_owned()
            },
        }
    }

    /// The synthetic response that goes with the error, if the client is
    /// owed one: none when the client has gone or a socket failed.
    pub open spec fn answered_with(self) -> Option<SyntheticStatus> {
        match self {
            ProxyError::Malformed(_) => Some(SyntheticStatus::BadRequest),
            ProxyError::BufferExhausted => Some(SyntheticStatus::PayloadTooLarge),
            ProxyError::UpstreamUnreachable | ProxyError::ForwardWriteFailed => Some(
                SyntheticStatus::BadGateway,
            ),
            ProxyError::Io | ProxyError::PeerClosed => None,
        }
    }
}

/// What has happened on the sockets.
pub enum EventView {
    /// The connection has been accepted.
    Accepted,
    /// A read from the client returned these bytes.
    ClientData(Seq<u8>),
    /// A read from the client returned no bytes: the client has closed.
    ClientClosed,
    /// A read from the client failed.
    ClientReadFailed,
    /// The upstream connection is open.
    UpstreamConnected,
    /// The upstream connection could not be opened.
    UpstreamRefused,
    /// The forwarded bytes have all been written to the upstream.
    RequestForwarded,
    /// Writing the forwarded bytes to the upstream failed.
    ForwardWriteFailed,
    /// Both directions of the relay have reached the end of their stream.
    RelayFinished,
    /// A direction of the relay failed.
    RelayFailed,
}

/// What is to be done on the sockets next.
pub enum ActionView {
    /// Read once from the client, at most `max` bytes.
    ReadClient { max: nat },
    /// Open the upstream connection.
    ConnectUpstream,
    /// Write these bytes to the upstream.
    ForwardRequest(Seq<u8>),
    /// Relay bytes in both directions until both have ended.
    StartRelay,
    /// Write `response` to the client, shut the client socket down for
    /// writing, and end with `error`.
    Reject { response: Seq<u8>, error: ProxyError },
    /// End, without writing anything.
    Close(Result<(), ProxyError>),
}

/// The state of one connection.
pub struct ConnectionView {
    /// Where the connection stands.
    pub stage: Stage,
    /// The bytes read from the client and not consumed by the framer.
    pub buffer: Seq<u8>,
    /// The most bytes that the buffer may hold.
    pub capacity: nat,
    /// The parsed request, from the moment it is parsed until it has been
    /// replayed.
    pub request: Option<RequestView>,
}

impl ConnectionView {
    /// A connection that has just been accepted.
    pub open spec fn initial(capacity: nat) -> ConnectionView {
        ConnectionView { stage: Stage::Reading, buffer: Seq::empty(), capacity, request: None }
    }

    /// While the head is read the buffer keeps within its capacity; a request
    /// is held exactly from its parsing to the end of its replay; and no
    /// connection rests in `Forwarding`.
    pub open spec fn wf(self) -> bool {
        &&& self.stage == Stage::Reading ==> self.buffer.len() <= self.capacity
        &&& self.request is Some <==> self.stage == Stage::Parsed || self.stage
            == Stage::ConnectingUpstream
        &&& self.stage != Stage::Forwarding
    }

    /// The number of bytes that the buffer can still take.
    pub open spec fn room(self) -> int {
        self.capacity - self.buffer.len()
    }

    /// Whether the connection has ended, one way or another.
    pub open spec fn is_final(self) -> bool {
        match self.stage {
            Stage::Reading
            | Stage::Parsed
            | Stage::ConnectingUpstream
            | Stage::Forwarding
            | Stage::Relaying => false,
            _ => true,
        }
    }
}

/// Ends the connection in `stage` with a synthetic response.
pub open spec fn reject(
    connection: ConnectionView,
    stage: Stage,
    status: SyntheticStatus,
    error: ProxyError,
) -> (ConnectionView, ActionView) {
    (
        ConnectionView { stage, ..connection },
        ActionView::Reject { response: response_wire(status), error },
    )
}

/// Ends the connection in `stage` without a response.
pub open spec fn close(connection: ConnectionView, stage: Stage, outcome: Result<(), ProxyError>) -> (
    ConnectionView,
    ActionView,
) {
    (ConnectionView { stage, ..connection }, ActionView::Close(outcome))
}

/// The sockets of a connection whose request has been replayed are handed to
/// the relay.
pub open spec fn hand_off(connection: ConnectionView) -> (ConnectionView, ActionView) {
    (ConnectionView { stage: Stage::Relaying, ..connection }, ActionView::StartRelay)
}

/// One round of reading: the framer looks at the buffer.
///
/// A complete head is taken off the buffer and held, and the upstream is
/// asked for. A malformed head is answered with 400. An incomplete head in a
/// full buffer is answered with 413; in a buffer with room left, one more read
/// is asked for, of no more than that room.
pub open spec fn after_read(connection: ConnectionView) -> (ConnectionView, ActionView) {
    match frame(connection.buffer) {
        Framing::Complete { request, consumed } => (
            ConnectionView {
                stage: Stage::Parsed,
                buffer: connection.buffer.skip(consumed as int),
                request: Some(request),
                ..connection
            },
            ActionView::ConnectUpstream,
        ),
        Framing::Malformed(fault) => reject(
            connection,
            Stage::BadRequest,
            SyntheticStatus::BadRequest,
            ProxyError::Malformed(fault),
        ),
        Framing::Incomplete => if connection.buffer.len() >= connection.capacity {
            reject(
                connection,
                Stage::TooLarge,
                SyntheticStatus::PayloadTooLarge,
                ProxyError::BufferExhausted,
            )
        } else {
            (connection, ActionView::ReadClient { max: connection.room() as nat })
        },
    }
}

/// The machine: the state and the action that follow an event, or `None`
/// where the event has no place in the current stage.
///
/// Bytes from the client have a place only while the head is read, and only
/// if there is at least one and they fit the room that is left. The upstream
/// connection has a place only while a request is held. Nothing has a place in
/// `Forwarding`, through which a connection only passes.
pub open spec fn step(connection: ConnectionView, event: EventView) -> Option<
    (ConnectionView, ActionView),
> {
    match connection.stage {
        Stage::Reading => match event {
            EventView::Accepted => Some(after_read(connection)),
            EventView::ClientData(data) => if 0 < data.len() <= connection.room() {
                Some(after_read(ConnectionView { buffer: connection.buffer + data, ..connection }))
            } else {
                None
            },
            EventView::ClientClosed => Some(
                close(connection, Stage::ClientGone, Err(ProxyError::PeerClosed)),
            ),
            EventView::ClientReadFailed => Some(
                close(connection, Stage::Closed, Err(ProxyError::Io)),
            ),
            _ => None,
        },
        Stage::Parsed => match event {
            EventView::UpstreamConnected => match connection.request {
                Some(request) => Some(
                    (
                        ConnectionView { stage: Stage::ConnectingUpstream, ..connection },
                        ActionView::ForwardRequest(forward_payload(request, connection.buffer)),
                    ),
                ),
                None => None,
            },
            EventView::UpstreamRefused => Some(
                reject(
                    ConnectionView { request: None, ..connection },
                    Stage::UpstreamUnavailable,
                    SyntheticStatus::BadGateway,
                    ProxyError::UpstreamUnreachable,
                ),
            ),
            _ => None,
        },
        Stage::ConnectingUpstream => match event {
            EventView::RequestForwarded => Some(
                hand_off(ConnectionView { stage: Stage::Forwarding, request: None, ..connection }),
            ),
            EventView::ForwardWriteFailed => Some(
                reject(
                    ConnectionView { request: None, ..connection },
                    Stage::ForwardFailed,
                    SyntheticStatus::BadGateway,
                    ProxyError::ForwardWriteFailed,
                ),
            ),
            _ => None,
        },
        Stage::Relaying => match event {
            EventView::RelayFinished => Some(close(connection, Stage::Closed, Ok(()))),
            EventView::RelayFailed => Some(close(connection, Stage::Closed, Err(ProxyError::Io))),
            _ => None,
        },
        _ => None,
    }
}

/// The state and the action after an event. An event that has no place in
/// the current stage leaves the state as it is and asks for nothing.
pub open spec fn outcome(connection: ConnectionView, event: EventView) -> (
    ConnectionView,
    Option<ActionView>,
) {
    match step(connection, event) {
        Some((next, action)) => (next, Some(action)),
        None => (connection, None),
    }
}

} // verus!
