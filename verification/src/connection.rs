//! One proxied connection from its first byte to its end: the HTTP front-end
//! reads the request, the SOCKS5 handshake builds the tunnel, the relay pump
//! carries the bytes. Each stage starts only when the one before it is done.

use crate::config::Credentials;
use crate::error::{Peer, ProxyError};
use crate::event::{closing, idle, Event, EventView, Outcome, Output, OutputView};
use crate::http::{
    authorized, authorized_spec, error_response_spec, locate_head, locate_head_spec, parse_head,
    parse_head_spec, response, response_spec, HeadStatus, Method, Status,
};
use crate::relay::Relay;
use crate::session::{drop_front, SocksSession, SessionState, SessionView};
use vstd::prelude::*;
use vstd::slice::*;

verus! {

/// The stage that a connection is in, with what that stage holds.
#[derive(Debug, Clone, PartialEq, Eq)]
pub enum Phase {
    /// The head of the request is being read; `buffer` is what has come.
    ReadingRequest { buffer: Vec<u8> },
    /// The tunnel is being built. `pending` is what goes to the target once it
    /// stands: the whole request of a forward, or what the client sent behind
    /// the head of a `CONNECT`.
    Handshaking { session: SocksSession, method: Method, pending: Vec<u8>, client_ended: bool },
    /// The tunnel stands and bytes are carried.
    Relaying(Relay),
    /// The connection is over and its sockets are closed.
    Closed(Outcome),
}

/// A stage as plain values.
#[verifier::ext_equal]
pub ghost enum PhaseView {
    ReadingRequest { buffer: Seq<u8> },
    Handshaking { session: SessionView, method: Method, pending: Seq<u8>, client_ended: bool },
    Relaying(Relay),
    Closed(Outcome),
}

impl View for Phase {
    type V = PhaseView;

    open spec fn view(&self) -> PhaseView {
        match self {
            Phase::ReadingRequest { buffer } => PhaseView::ReadingRequest { buffer: buffer@ },
            Phase::Handshaking { session, method, pending, client_ended } => {
                PhaseView::Handshaking {
                    session: session@,
                    method: *method,
                    pending: pending@,
                    client_ended: *client_ended,
                }
            },
            Phase::Relaying(relay) => PhaseView::Relaying(*relay),
            Phase::Closed(outcome) => PhaseView::Closed(*outcome),
        }
    }
}

/// The state of one proxied connection.
#[derive(Debug, Clone)]
pub struct Connection {
    /// The credentials that the proxy is configured with.
    pub credentials: Credentials,
    pub phase: Phase,
}

/// A connection as plain values.
#[verifier::ext_equal]
pub ghost struct ConnectionView {
    pub credentials: Credentials,
    pub phase: PhaseView,
}

impl View for Connection {
    type V = ConnectionView;

    open spec fn view(&self) -> ConnectionView {
        ConnectionView { credentials: self.credentials, phase: self.phase@ }
    }
}

/// The bytes that tell the client of `error`; none where it is told nothing.
pub open spec fn farewell(error: ProxyError) -> Seq<u8> {
    match error_response_spec(error) {
        Some(bytes) => bytes,
        None => Seq::empty(),
    }
}

impl ConnectionView {
    /// A connection whose tunnel is being built.
    pub open spec fn building(
        credentials: Credentials,
        session: SessionView,
        method: Method,
        pending: Seq<u8>,
        client_ended: bool,
    ) -> ConnectionView {
        ConnectionView {
            credentials,
            phase: PhaseView::Handshaking { session, method, pending, client_ended },
        }
    }

    /// A connection that was just accepted.
    pub open spec fn start(credentials: Credentials) -> ConnectionView {
        ConnectionView { credentials, phase: PhaseView::ReadingRequest { buffer: Seq::empty() } }
    }

    /// Ends the connection before the tunnel stands: the client is told the
    /// HTTP status of the error, where it has one, and both sockets are closed.
    pub open spec fn reject(credentials: Credentials, error: ProxyError) -> (
        ConnectionView,
        OutputView,
    ) {
        (
            ConnectionView { credentials, phase: PhaseView::Closed(Outcome::Failed(error)) },
            closing(farewell(error)),
        )
    }

    /// Looks at what has come of the request. A head that is malformed or too
    /// long is rejected as a protocol violation, a request without the
    /// configured credentials as an authentication failure. Any other request
    /// starts the handshake by opening the connection to the SOCKS5 server.
    #[verifier::opaque]
    pub open spec fn read_request(credentials: Credentials, buffer: Seq<u8>) -> (
        ConnectionView,
        OutputView,
    ) {
        match locate_head_spec(buffer) {
            HeadStatus::Incomplete => (
                ConnectionView { credentials, phase: PhaseView::ReadingRequest { buffer } },
                idle(),
            ),
            HeadStatus::TooLong => Self::reject(credentials, ProxyError::ProtocolViolation),
            HeadStatus::Complete(n) => match parse_head_spec(buffer.subrange(0, n as int)) {
                None => Self::reject(credentials, ProxyError::ProtocolViolation),
                Some(request) => if authorized_spec(credentials, request.authorization) {
                    (
                        ConnectionView {
                            credentials,
                            phase: PhaseView::Handshaking {
                                session: SessionView::start(
                                    credentials,
                                    request.host,
                                    request.port,
                                ),
                                method: request.method,
                                pending: match request.method {
                                    Method::Forward => buffer,
                                    Method::Connect => buffer.subrange(
                                        n as int,
                                        buffer.len() as int,
                                    ),
                                },
                                client_ended: false,
                            },
                        },
                        OutputView { connect_upstream: true, ..idle() },
                    )
                } else {
                    Self::reject(credentials, ProxyError::AuthFailure(Peer::Client))
                },
            },
        }
    }

    /// Starts the relay over a tunnel that stands. A `CONNECT` is answered
    /// with `200 Connection Established` now and not before; a forward gets no
    /// answer of the proxy's own. What was held back for the target goes out,
    /// and so does what the server sent behind its reply.
    pub open spec fn open_tunnel(
        credentials: Credentials,
        session: SessionView,
        method: Method,
        pending: Seq<u8>,
        client_ended: bool,
    ) -> (ConnectionView, OutputView) {
        (
            ConnectionView {
                credentials,
                phase: PhaseView::Relaying(
                    if client_ended {
                        Relay::UpstreamOnly
                    } else {
                        Relay::Both
                    },
                ),
            },
            OutputView {
                to_upstream: pending,
                to_client: match method {
                    Method::Connect => response_spec(Status::ConnectionEstablished),
                    Method::Forward => Seq::empty(),
                } + session.inbox,
                shutdown_upstream: client_ended,
                ..idle()
            },
        )
    }

    /// What an event does while the request is being read. The end of the
    /// client's stream before the end of the head is a protocol violation.
    pub open spec fn reading_step(credentials: Credentials, buffer: Seq<u8>, event: EventView) -> (
        ConnectionView,
        OutputView,
    ) {
        match event {
            EventView::ClientData(bytes) => Self::read_request(credentials, buffer + bytes),
            EventView::ClientEof => Self::reject(credentials, ProxyError::ProtocolViolation),
            EventView::ClientError => Self::reject(credentials, ProxyError::IOError(Peer::Client)),
            EventView::Cancelled => Self::reject(credentials, ProxyError::Cancelled),
            _ => (
                ConnectionView { credentials, phase: PhaseView::ReadingRequest { buffer } },
                idle(),
            ),
        }
    }

    /// What an event does while the tunnel is being built. What the client
    /// sends is held back, and the end of its stream is kept in mind. Anything
    /// else goes to the handshake: its failure ends the connection, its success
    /// starts the relay.
    #[verifier::opaque]
    pub open spec fn handshake_step(
        credentials: Credentials,
        session: SessionView,
        method: Method,
        pending: Seq<u8>,
        client_ended: bool,
        event: EventView,
    ) -> (ConnectionView, OutputView) {
        match event {
            EventView::ClientData(bytes) => (
                ConnectionView {
                    credentials,
                    phase: PhaseView::Handshaking {
                        session,
                        method,
                        pending: pending + bytes,
                        client_ended,
                    },
                },
                idle(),
            ),
            EventView::ClientEof => (
                ConnectionView {
                    credentials,
                    phase: PhaseView::Handshaking { session, method, pending, client_ended: true },
                },
                idle(),
            ),
            EventView::ClientError => Self::reject(credentials, ProxyError::IOError(Peer::Client)),
            _ => {
                let (next, out) = session.step_spec(event);
                match next.state {
                    SessionState::Failed(error) => Self::reject(credentials, error),
                    SessionState::Established => Self::open_tunnel(
                        credentials,
                        next,
                        method,
                        pending,
                        client_ended,
                    ),
                    _ => (
                        ConnectionView {
                            credentials,
                            phase: PhaseView::Handshaking {
                                session: next,
                                method,
                                pending,
                                client_ended,
                            },
                        },
                        out,
                    ),
                }
            },
        }
    }

    /// What an event does while bytes are carried: what the pump says, and the
    /// connection is over when the pump has stopped.
    pub open spec fn relay_step(credentials: Credentials, relay: Relay, event: EventView) -> (
        ConnectionView,
        OutputView,
    ) {
        let (next, out) = relay.step_spec(event);
        match next {
            Relay::Stopped(outcome) => (
                ConnectionView { credentials, phase: PhaseView::Closed(outcome) },
                out,
            ),
            _ => (ConnectionView { credentials, phase: PhaseView::Relaying(next) }, out),
        }
    }

    /// The connection after an event, and what is to be done. A connection
    /// that is over stays as it is and asks for nothing.
    pub open spec fn step_spec(self, event: EventView) -> (ConnectionView, OutputView) {
        match self.phase {
            PhaseView::Closed(_) => (self, idle()),
            PhaseView::ReadingRequest { buffer } => Self::reading_step(
                self.credentials,
                buffer,
                event,
            ),
            PhaseView::Handshaking { session, method, pending, client_ended } => {
                Self::handshake_step(
                    self.credentials,
                    session,
                    method,
                    pending,
                    client_ended,
                    event,
                )
            },
            PhaseView::Relaying(relay) => Self::relay_step(self.credentials, relay, event),
        }
    }

    /// What holds of every connection that `start` and `step_spec` can lead
    /// to: while the tunnel is being built, the handshake is not over, and
    /// while bytes are carried, the pump has not stopped.
    pub open spec fn wf(self) -> bool {
        match self.phase {
            PhaseView::Handshaking { session, .. } => !session.is_over(),
            PhaseView::Relaying(relay) => !(relay is Stopped),
            _ => true,
        }
    }

    /// The place of the stage in the order of the stages.
    pub open spec fn stage(self) -> int {
        match self.phase {
            PhaseView::ReadingRequest { .. } => 0,
            PhaseView::Handshaking { .. } => 1,
            PhaseView::Relaying(_) => 2,
            PhaseView::Closed(_) => 3,
        }
    }

    /// Whether bytes from the client are wanted.
    pub open spec fn reads_client(self) -> bool {
        match self.phase {
            PhaseView::ReadingRequest { .. } => true,
            PhaseView::Relaying(relay) => relay.carries_client(),
            _ => false,
        }
    }

    /// Whether an answer of the SOCKS5 server to the handshake is awaited, so
    /// that the negotiation timeout runs. Once the tunnel stands, no timeout
    /// runs any more.
    pub open spec fn awaits_server(self) -> bool {
        match self.phase {
            PhaseView::Handshaking { session, .. } => session.state is MethodNegotiation
                || session.state is AuthSubnegotiation || session.state is ConnectReply,
            _ => false,
        }
    }

    /// Whether bytes from the SOCKS5 server are wanted.
    pub open spec fn reads_upstream(self) -> bool {
        match self.phase {
            PhaseView::Handshaking { .. } => self.awaits_server(),
            PhaseView::Relaying(relay) => relay.carries_upstream(),
            _ => false,
        }
    }
}

impl Connection {
    /// A connection that was just accepted by a proxy with `credentials`.
    pub fn new(credentials: Credentials) -> (c: Connection)
        ensures
            c@ == ConnectionView::start(credentials),
            c@.wf(),
    {
        Connection { credentials, phase: Phase::ReadingRequest { buffer: Vec::new() } }
    }

    /// Ends the connection before the tunnel stands.
    fn reject(credentials: Credentials, error: ProxyError) -> (r: (Connection, Output))
        ensures
            (r.0@, r.1@) == ConnectionView::reject(credentials, error),
    {
        let bytes = match Status::for_error(&error) {
            Some(status) => response(status),
            None => Vec::new(),
        };
        (
            Connection { credentials, phase: Phase::Closed(Outcome::Failed(error)) },
            Output::closing(bytes),
        )
    }

    /// Looks at what has come of the request.
    fn read_request(credentials: Credentials, buffer: Vec<u8>) -> (r: (Connection, Output))
        ensures
            (r.0@, r.1@) == ConnectionView::read_request(credentials, buffer@),
    {
        reveal(ConnectionView::read_request);
        match locate_head(buffer.as_slice()) {
            HeadStatus::Incomplete => (
                Connection { credentials, phase: Phase::ReadingRequest { buffer } },
                Output::idle(),
            ),
            HeadStatus::TooLong => Self::reject(credentials, ProxyError::ProtocolViolation),
            HeadStatus::Complete(n) => {
                let parsed = parse_head(slice_subrange(buffer.as_slice(), 0, n));
                match parsed {
                    Err(_) => Self::reject(credentials, ProxyError::ProtocolViolation),
                    Ok(request) => {
                        if !authorized(&credentials, &request) {
                            return Self::reject(credentials, ProxyError::AuthFailure(Peer::Client));
                        }
                        let session = SocksSession::new(
                            &credentials,
                            request.target_host.as_slice(),
                            request.target_port,
                        );
                        let pending = match request.method {
                            Method::Forward => buffer,
                            Method::Connect => drop_front(buffer, n),
                        };
                        let mut out = Output::idle();
                        out.connect_upstream = true;
                        (
                            Connection {
                                credentials,
                                phase: Phase::Handshaking {
                                    session,
                                    method: request.method,
                                    pending,
                                    client_ended: false,
                                },
                            },
                            out,
                        )
                    },
                }
            },
        }
    }

    /// Starts the relay over a tunnel that stands.
    fn open_tunnel(
        credentials: Credentials,
        session: SocksSession,
        method: Method,
        pending: Vec<u8>,
        client_ended: bool,
    ) -> (r: (Connection, Output))
        ensures
            (r.0@, r.1@) == ConnectionView::open_tunnel(
                credentials,
                session@,
                method,
                pending@,
                client_ended,
            ),
    {
        let mut to_client = match method {
            Method::Connect => response(Status::ConnectionEstablished),
            Method::Forward => Vec::new(),
        };
        to_client.extend_from_slice(session.inbox.as_slice());
        (
            Connection { credentials, phase: Phase::Relaying(Relay::start(client_ended)) },
            Output {
                connect_upstream: false,
                to_upstream: pending,
                to_client,
                shutdown_upstream: client_ended,
                shutdown_client: false,
                close: false,
            },
        )
    }

    /// Takes one event while the request is being read.
    fn reading_step(credentials: Credentials, buffer: Vec<u8>, event: Event) -> (r: (
        Connection,
        Output,
    ))
        ensures
            (r.0@, r.1@) == ConnectionView::reading_step(credentials, buffer@, event@),
    {
        match event {
            Event::ClientData(bytes) => {
                let ghost before = buffer@;
                let mut grown = buffer;
                grown.extend_from_slice(bytes.as_slice());
                assert(grown@ == before + bytes@);
                Self::read_request(credentials, grown)
            },
            Event::ClientEof => Self::reject(credentials, ProxyError::ProtocolViolation),
            Event::ClientError => Self::reject(credentials, ProxyError::IOError(Peer::Client)),
            Event::Cancelled => Self::reject(credentials, ProxyError::Cancelled),
            _ => (
                Connection { credentials, phase: Phase::ReadingRequest { buffer } },
                Output::idle(),
            ),
        }
    }

    /// Takes one event while the tunnel is being built.
    fn handshake_step(
        credentials: Credentials,
        session: SocksSession,
        method: Method,
        pending: Vec<u8>,
        client_ended: bool,
        event: Event,
    ) -> (r: (Connection, Output))
        ensures
            (r.0@, r.1@) == ConnectionView::handshake_step(
                credentials,
                session@,
                method,
                pending@,
                client_ended,
                event@,
            ),
    {
        reveal(ConnectionView::handshake_step);
        match event {
            Event::ClientData(bytes) => {
                let mut pending = pending;
                pending.extend_from_slice(bytes.as_slice());
                (
                    Connection {
                        credentials,
                        phase: Phase::Handshaking { session, method, pending, client_ended },
                    },
                    Output::idle(),
                )
            },
            Event::ClientEof => (
                Connection {
                    credentials,
                    phase: Phase::Handshaking { session, method, pending, client_ended: true },
                },
                Output::idle(),
            ),
            Event::ClientError => Self::reject(credentials, ProxyError::IOError(Peer::Client)),
            other => {
                let (next, out) = session.step(other);
                match next.state {
                    SessionState::Failed(error) => Self::reject(credentials, error),
                    SessionState::Established => Self::open_tunnel(
                        credentials,
                        next,
                        method,
                        pending,
                        client_ended,
                    ),
                    _ => (
                        Connection {
                            credentials,
                            phase: Phase::Handshaking {
                                session: next,
                                method,
                                pending,
                                client_ended,
                            },
                        },
                        out,
                    ),
                }
            },
        }
    }

    /// Takes one event while bytes are carried.
    fn relay_step(credentials: Credentials, relay: Relay, event: Event) -> (r: (
        Connection,
        Output,
    ))
        ensures
            (r.0@, r.1@) == ConnectionView::relay_step(credentials, relay, event@),
    {
        let (next, out) = relay.step(event);
        match next {
            Relay::Stopped(outcome) => (
                Connection { credentials, phase: Phase::Closed(outcome) },
                out,
            ),
            _ => (Connection { credentials, phase: Phase::Relaying(next) }, out),
        }
    }

    /// Takes one event and says what is to be done.
    pub fn step(self, event: Event) -> (r: (Connection, Output))
        ensures
            (r.0@, r.1@) == self@.step_spec(event@),
            self@.wf() ==> r.0@.wf(),
    {
        proof {
            if self@.wf() {
                lemma_step_preserves_wf(self@, event@);
            }
        }
        let Connection { credentials, phase } = self;
        match phase {
            Phase::Closed(outcome) => (
                Connection { credentials, phase: Phase::Closed(outcome) },
                Output::idle(),
            ),
            Phase::ReadingRequest { buffer } => Self::reading_step(credentials, buffer, event),
            Phase::Handshaking { session, method, pending, client_ended } => Self::handshake_step(
                credentials,
                session,
                method,
                pending,
                client_ended,
                event,
            ),
            Phase::Relaying(relay) => Self::relay_step(credentials, relay, event),
        }
    }

    /// Whether bytes from the client are wanted.
    pub fn reads_client(&self) -> (r: bool)
        ensures
            r == self@.reads_client(),
    {
        match &self.phase {
            Phase::ReadingRequest { .. } => true,
            Phase::Relaying(relay) => relay.reads_client(),
            _ => false,
        }
    }

    /// Whether an answer of the SOCKS5 server to the handshake is awaited, so
    /// that the negotiation timeout runs.
    pub fn awaits_server(&self) -> (r: bool)
        ensures
            r == self@.awaits_server(),
    {
        match &self.phase {
            Phase::Handshaking { session, .. } => match session.state {
                SessionState::MethodNegotiation => true,
                SessionState::AuthSubnegotiation => true,
                SessionState::ConnectReply => true,
                _ => false,
            },
            _ => false,
        }
    }

    /// Whether bytes from the SOCKS5 server are wanted.
    pub fn reads_upstream(&self) -> (r: bool)
        ensures
            r == self@.reads_upstream(),
    {
        match &self.phase {
            Phase::Handshaking { .. } => self.awaits_server(),
            Phase::Relaying(relay) => relay.reads_upstream(),
            _ => false,
        }
    }

    /// How the connection ended, once it has.
    pub fn outcome(&self) -> (r: Option<Outcome>)
        ensures
            r == match self@.phase {
                PhaseView::Closed(outcome) => Some(outcome),
                _ => None,
            },
    {
        match &self.phase {
            Phase::Closed(outcome) => Some(*outcome),
            _ => None,
        }
    }
}

/// Every step leads from a well-formed connection to a well-formed one, and
/// a connection is well-formed at its start.
pub proof fn lemma_step_preserves_wf(conn: ConnectionView, event: EventView)
    requires
        conn.wf(),
    ensures
        conn.step_spec(event).0.wf(),
        ConnectionView::start(conn.credentials).wf(),
{
    reveal(ConnectionView::handshake_step);
    reveal(ConnectionView::read_request);
}

} // verus!
