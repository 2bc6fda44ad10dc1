//! One client connection: its buffer, its stage, and the decisions that take
//! it from an accepted socket to the relay.
//!
//! [`ProxyConnection`] owns no socket. Its owner reports what happened on the
//! sockets as an [`Event`] and carries out the [`Action`] that is returned.

use crate::client_buffer::buffer_bytes;
use crate::client_buffer::buffer_extend;
use crate::client_buffer::buffer_len;
use crate::client_buffer::buffer_with_capacity;
use crate::client_buffer::contents;
use crate::http_parser::parse_http_request;
use crate::http_parser::ParsedRequest;
use crate::lifecycle::after_read;
use crate::lifecycle::outcome;
use crate::lifecycle::ActionView;
use crate::lifecycle::ConnectionView;
use crate::lifecycle::EventView;
use crate::lifecycle::ProxyError;
use crate::lifecycle::Stage;
use crate::wire::response_wire;
use crate::wire::serialize_request;
use crate::wire::synthetic_response;
use crate::wire::SyntheticStatus;
use bytes::BytesMut;
use vstd::prelude::*;

verus! {

/// The capacity of the client buffer of a connection made with
/// [`ProxyConnection::new`].
pub const CLIENT_BUFFER_CAPACITY: usize = 4096;

/// What has happened on the sockets.
#[derive(Debug, PartialEq, Eq)]
pub enum Event {
    /// The connection has been accepted.
    Accepted,
    /// A read from the client returned these bytes.
    ClientData(Vec<u8>),
    /// A read from the client returned no bytes: the client has closed.
    ClientClosed,
    /// A read from the client failed.
    ClientReadFailed,
    /// The upstream connection is open.
    UpstreamConnected,
    /// The upstream connection could not be opened.
    UpstreamRefused,
    /// The forwarded bytes have all been written to the upstream.
    RequestForwarded,
    /// Writing the forwarded bytes to the upstream failed.
    ForwardWriteFailed,
    /// Both directions of the relay have reached the end of their stream.
    RelayFinished,
    /// A direction of the relay failed.
    RelayFailed,
}

impl View for Event {
    type V = EventView;

    open spec fn view(&self) -> EventView {
        match self {
            Event::Accepted => EventView::Accepted,
            Event::ClientData(data) => EventView::ClientData(data@),
            Event::ClientClosed => EventView::ClientClosed,
            Event::ClientReadFailed => EventView::ClientReadFailed,
            Event::UpstreamConnected => EventView::UpstreamConnected,
            Event::UpstreamRefused => EventView::UpstreamRefused,
            Event::RequestForwarded => EventView::RequestForwarded,
            Event::ForwardWriteFailed => EventView::ForwardWriteFailed,
            Event::RelayFinished => EventView::RelayFinished,
            Event::RelayFailed => EventView::RelayFailed,
        }
    }
}

/// What is to be done on the sockets next.
#[derive(Debug, PartialEq, Eq)]
pub enum Action {
    /// Read once from the client, at most `max` bytes, and report
    /// [`Event::ClientData`], [`Event::ClientClosed`] or
    /// [`Event::ClientReadFailed`].
    ReadClient { max: usize },
    /// Open the upstream connection and report [`Event::UpstreamConnected`]
    /// or [`Event::UpstreamRefused`].
    ConnectUpstream,
    /// Write these bytes to the upstream and report
    /// [`Event::RequestForwarded`] or [`Event::ForwardWriteFailed`].
    ForwardRequest(Vec<u8>),
    /// Relay bytes in both directions until both have ended and report
    /// [`Event::RelayFinished`] or [`Event::RelayFailed`].
    StartRelay,
    /// Write `response` to the client, shut the client socket down for
    /// writing, and end with `error`. A failure to do so is not reported.
    Reject { response: Vec<u8>, error: ProxyError },
    /// End, without writing anything.
    Close(Result<(), ProxyError>),
}

impl View for Action {
    type V = ActionView;

    open spec fn view(&self) -> ActionView {
        match self {
            Action::ReadClient { max } => ActionView::ReadClient { max: *max as nat },
            Action::ConnectUpstream => ActionView::ConnectUpstream,
            Action::ForwardRequest(bytes) => ActionView::ForwardRequest(bytes@),
            Action::StartRelay => ActionView::StartRelay,
            Action::Reject { response, error } => ActionView::Reject {
                response: response@,
                error: *error,
            },
            Action::Close(outcome) => ActionView::Close(*outcome),
        }
    }
}

/// The mathematical value of what [`ProxyConnection::handle_request`] returns.
pub open spec fn answer(action: Option<Action>) -> Option<ActionView> {
    match action {
        Some(action) => Some(action@),
        None => None,
    }
}

/// The proxy's side of one client connection.
pub struct ProxyConnection {
    stage: Stage,
    client_buffer: BytesMut,
    capacity: usize,
    request: Option<ParsedRequest>,
}

impl View for ProxyConnection {
    type V = ConnectionView;

    closed spec fn view(&self) -> ConnectionView {
        ConnectionView {
            stage: self.stage,
            buffer: contents(self.client_buffer),
            capacity: self.capacity as nat,
            request: match self.request {
                Some(request) => Some(request@),
                None => None,
            },
        }
    }
}

impl ProxyConnection {
    /// A connection that has just been accepted, with a client buffer of
    /// [`CLIENT_BUFFER_CAPACITY`] bytes.
    pub fn new() -> (connection: Self)
        ensures
            connection@ == ConnectionView::initial(CLIENT_BUFFER_CAPACITY as nat),
    {
        Self::with_capacity(CLIENT_BUFFER_CAPACITY)
    }

    /// A connection that has just been accepted, with a client buffer that
    /// holds at most `capacity` bytes. No more than
    /// [`CLIENT_BUFFER_CAPACITY`] bytes are set aside in advance.
    pub fn with_capacity(capacity: usize) -> (connection: Self)
        ensures
            connection@ == ConnectionView::initial(capacity as nat),
    {
        let reserved = if capacity <= CLIENT_BUFFER_CAPACITY {
            capacity
        } else {
            CLIENT_BUFFER_CAPACITY
        };
        ProxyConnection {
            stage: Stage::Reading,
            client_buffer: buffer_with_capacity(reserved),
            capacity,
            request: None,
        }
    }

    /// Where the connection stands.
    pub fn stage(&self) -> (stage: Stage)
        ensures
            stage == self@.stage,
    {
        self.stage
    }

    /// The most bytes that the client buffer may hold.
    pub fn capacity(&self) -> (capacity: usize)
        ensures
            capacity == self@.capacity,
    {
        self.capacity
    }

    /// The bytes read from the client and not consumed by the framer. Once a
    /// request is parsed these are the first bytes of its body.
    pub fn buffered(&self) -> (bytes: &[u8])
        ensures
            bytes@ == self@.buffer,
    {
        buffer_bytes(&self.client_buffer)
    }

    /// The parsed request, while it is held.
    pub fn request(&self) -> (request: Option<&ParsedRequest>)
        ensures
            match request {
                Some(held) => self@.request == Some(held@),
                None => self@.request is None,
            },
    {
        self.request.as_ref()
    }

    /// The action that ends the connection with a synthetic response.
    fn send_http_error(status: SyntheticStatus, error: ProxyError) -> (action: Action)
        ensures
            action@ == (ActionView::Reject { response: response_wire(status), error }),
    {
        Action::Reject { response: synthetic_response(status), error }
    }

    /// One round of reading: runs the framer on the buffer and decides.
    fn read_and_parse_request(&mut self) -> (action: Action)
        requires
            old(self)@.stage == Stage::Reading,
        ensures
            (final(self)@, action@) == after_read(old(self)@),
    {
        match parse_http_request(&mut self.client_buffer) {
            Ok(Some(request)) => {
                self.request = Some(request);
                self.stage = Stage::Parsed;
                Action::ConnectUpstream
            },
            Ok(None) => {
                let held = buffer_len(&self.client_buffer);
                if held >= self.capacity {
                    self.stage = Stage::TooLarge;
                    Self::send_http_error(
                        SyntheticStatus::PayloadTooLarge,
                        ProxyError::BufferExhausted,
                    )
                } else {
                    Action::ReadClient { max: self.capacity - held }
                }
            },
            Err(fault) => {
                self.stage = Stage::BadRequest;
                Self::send_http_error(SyntheticStatus::BadRequest, ProxyError::Malformed(fault))
            },
        }
    }

    /// The outcome of connecting: go on to replay the request, or give up
    /// with 502.
    fn connect_to_upstream(&mut self, connected: bool) -> (action: Option<Action>)
        requires
            old(self)@.stage == Stage::Parsed,
        ensures
            (final(self)@, answer(action)) == outcome(
                old(self)@,
                if connected {
                    EventView::UpstreamConnected
                } else {
                    EventView::UpstreamRefused
                },
            ),
    {
        if connected {
            self.forward_request_to_upstream()
        } else {
            self.stage = Stage::UpstreamUnavailable;
            self.request = None;
            Some(
                Self::send_http_error(SyntheticStatus::BadGateway, ProxyError::UpstreamUnreachable),
            )
        }
    }

    /// All that goes to the upstream before the relay: the request head as
    /// replayed, then the bytes buffered behind it.
    fn forward_request_to_upstream(&mut self) -> (action: Option<Action>)
        requires
            old(self)@.stage == Stage::Parsed,
        ensures
            (final(self)@, answer(action)) == outcome(old(self)@, EventView::UpstreamConnected),
    {
        let mut payload = match &self.request {
            Some(request) => serialize_request(request),
            None => {
                return None;
            },
        };
        let ghost head = payload@;
        payload.extend_from_slice(buffer_bytes(&self.client_buffer));
        assert(payload@ =~= head + contents(self.client_buffer));
        self.stage = Stage::ConnectingUpstream;
        Some(Action::ForwardRequest(payload))
    }

    /// The outcome of the replay: hand the sockets to the relay, or give up
    /// with 502. Either way the request is held no longer.
    fn finish_forwarding(&mut self, written: bool) -> (action: Action)
        requires
            old(self)@.stage == Stage::ConnectingUpstream,
        ensures
            (final(self)@, Some(action@)) == outcome(
                old(self)@,
                if written {
                    EventView::RequestForwarded
                } else {
                    EventView::ForwardWriteFailed
                },
            ),
    {
        self.request = None;
        if written {
            self.stage = Stage::Relaying;
            Action::StartRelay
        } else {
            self.stage = Stage::ForwardFailed;
            Self::send_http_error(SyntheticStatus::BadGateway, ProxyError::ForwardWriteFailed)
        }
    }

    /// The outcome of the relay, which ends the connection either way.
    fn proxy_bidirectional_data(&mut self, finished: bool) -> (action: Action)
        requires
            old(self)@.stage == Stage::Relaying,
        ensures
            (final(self)@, Some(action@)) == outcome(
                old(self)@,
                if finished {
                    EventView::RelayFinished
                } else {
                    EventView::RelayFailed
                },
            ),
    {
        self.stage = Stage::Closed;
        if finished {
            Action::Close(Ok(()))
        } else {
            Action::Close(Err(ProxyError::Io))
        }
    }

    /// Takes the connection one step further: given what has happened on the
    /// sockets, moves to the next stage and says what is to be done next.
    ///
    /// An event that has no place in the current stage changes nothing and
    /// gives `None`.
    pub fn handle_request(&mut self, event: Event) -> (action: Option<Action>)
        ensures
            (final(self)@, answer(action)) == outcome(old(self)@, event@),
    {
        match self.stage {
            Stage::Reading => match event {
                Event::Accepted => Some(self.read_and_parse_request()),
                Event::ClientData(data) => {
                    let held = buffer_len(&self.client_buffer);
                    if held <= self.capacity && 0 < data.len() && data.len() <= self.capacity
                        - held {
                        buffer_extend(&mut self.client_buffer, data.as_slice());
                        Some(self.read_and_parse_request())
                    } else {
                        None
                    }
                },
                Event::ClientClosed => {
                    self.stage = Stage::ClientGone;
                    Some(Action::Close(Err(ProxyError::PeerClosed)))
                },
                Event::ClientReadFailed => {
                    self.stage = Stage::Closed;
                    Some(Action::Close(Err(ProxyError::Io)))
                },
                _ => None,
            },
            Stage::Parsed => match event {
                Event::UpstreamConnected => self.connect_to_upstream(true),
                Event::UpstreamRefused => self.connect_to_upstream(false),
                _ => None,
            },
            Stage::ConnectingUpstream => match event {
                Event::RequestForwarded => Some(self.finish_forwarding(true)),
                Event::ForwardWriteFailed => Some(self.finish_forwarding(false)),
                _ => None,
            },
            Stage::Relaying => match event {
                Event::RelayFinished => Some(self.proxy_bidirectional_data(true)),
                Event::RelayFailed => Some(self.proxy_bidirectional_data(false)),
                _ => None,
            },
            _ => None,
        }
    }
}

} // verus!
