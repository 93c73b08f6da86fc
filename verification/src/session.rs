//! The SOCKS5 handshake as a state machine:
//! `Init → MethodNegotiation → (AuthSubnegotiation) → ConnectRequest →
//! ConnectReply → Established`, or `Failed` from any of them.

use crate::config::{field_bytes, Credentials};
use crate::error::{Peer, ProxyError, SocksReason};
use crate::event::{idle, Event, EventView, Output, OutputView};
use crate::socks5::{
    auth_reply_spec, auth_request, auth_request_spec, classify, classify_spec, connect_request,
    connect_request_spec, greeting, greeting_spec, method_reply_spec, parse_auth_reply,
    parse_method_reply, parse_reply, parse_reply_spec, reply_outcome, reply_outcome_spec,
    AuthMethod, ReplyStatus, AUTH_VERSION, METHOD_NONE, METHOD_PASSWORD, VERSION,
};
use vstd::prelude::*;
use vstd::slice::*;

verus! {

/// Where the handshake stands.
#[derive(Debug, Clone, Copy, PartialEq, Eq, Structural)]
pub enum SessionState {
    /// The TCP connection to the SOCKS5 server is being opened.
    Init,
    /// The greeting is out; the server's choice of method is awaited.
    MethodNegotiation,
    /// User name and password are out; the server's verdict is awaited.
    AuthSubnegotiation,
    /// The request to connect is being written.
    ConnectRequest,
    /// The request is out; the server's reply is awaited.
    ConnectReply,
    /// The tunnel stands. Only from here may the relay begin.
    Established,
    /// The handshake has failed.
    Failed(ProxyError),
}

/// A handshake in progress.
#[derive(Debug, Clone, PartialEq, Eq)]
pub struct SocksSession {
    pub state: SessionState,
    /// Whether the greeting offers user name and password.
    pub offer_password: bool,
    /// The subnegotiation request, until it has been handed out.
    pub auth_message: Option<Vec<u8>>,
    /// The request to connect, until it has been handed out.
    pub connect_message: Option<Vec<u8>>,
    /// What the server has sent and the handshake has not used yet.
    pub inbox: Vec<u8>,
}

/// A handshake as plain values.
#[verifier::ext_equal]
pub ghost struct SessionView {
    pub state: SessionState,
    pub offer_password: bool,
    pub auth_message: Option<Seq<u8>>,
    pub connect_message: Option<Seq<u8>>,
    pub inbox: Seq<u8>,
}

/// The view of optional bytes.
pub open spec fn bytes_view(v: Option<Vec<u8>>) -> Option<Seq<u8>> {
    match v {
        Some(b) => Some(b@),
        None => None,
    }
}

impl View for SocksSession {
    type V = SessionView;

    open spec fn view(&self) -> SessionView {
        SessionView {
            state: self.state,
            offer_password: self.offer_password,
            auth_message: bytes_view(self.auth_message),
            connect_message: bytes_view(self.connect_message),
            inbox: self.inbox@,
        }
    }
}

/// The output that writes `bytes` to the SOCKS5 server.
pub open spec fn send(bytes: Seq<u8>) -> OutputView {
    OutputView { to_upstream: bytes, ..idle() }
}

impl SessionView {
    /// The handshake at its start, for a proxy configured with `credentials`
    /// and a tunnel to `host` at `port`: user name and password are offered
    /// where credentials are configured.
    pub open spec fn start(credentials: Credentials, host: Seq<u8>, port: u16) -> SessionView {
        SessionView {
            state: SessionState::Init,
            offer_password: !credentials.is_empty_spec(),
            auth_message: if credentials.is_empty_spec() {
                None
            } else {
                auth_request_spec(
                    field_bytes(credentials.username),
                    field_bytes(credentials.password),
                )
            },
            connect_message: connect_request_spec(classify_spec(host), port),
            inbox: Seq::empty(),
        }
    }

    /// Whether the handshake is over, one way or the other.
    pub open spec fn is_over(self) -> bool {
        self.state is Established || self.state is Failed
    }

    /// The handshake failed with `error`.
    pub open spec fn failed(self, error: ProxyError) -> (SessionView, OutputView) {
        (SessionView { state: SessionState::Failed(error), ..self }, idle())
    }

    /// Hands out the request to connect. A target that no request can name
    /// fails the handshake.
    pub open spec fn request_connect(self) -> (SessionView, OutputView) {
        match self.connect_message {
            Some(m) => (
                SessionView { state: SessionState::ConnectRequest, connect_message: None, ..self },
                send(m),
            ),
            None => self.failed(ProxyError::ProtocolViolation),
        }
    }

    /// Reads what the inbox holds, as far as the state awaits it.
    #[verifier::opaque]
    pub open spec fn digest(self) -> (SessionView, OutputView) {
        match self.state {
            SessionState::MethodNegotiation => if self.inbox.len() < 2 {
                (self, idle())
            } else {
                let rest = SessionView {
                    inbox: self.inbox.subrange(2, self.inbox.len() as int),
                    ..self
                };
                match method_reply_spec(self.inbox[0], self.inbox[1], self.offer_password) {
                    Ok(AuthMethod::NoAuth) => rest.request_connect(),
                    Ok(AuthMethod::UserPass) => match self.auth_message {
                        Some(m) => (
                            SessionView {
                                state: SessionState::AuthSubnegotiation,
                                auth_message: None,
                                ..rest
                            },
                            send(m),
                        ),
                        None => rest.failed(ProxyError::AuthFailure(Peer::Upstream)),
                    },
                    Err(e) => rest.failed(e),
                }
            },
            SessionState::AuthSubnegotiation => if self.inbox.len() < 2 {
                (self, idle())
            } else {
                let rest = SessionView {
                    inbox: self.inbox.subrange(2, self.inbox.len() as int),
                    ..self
                };
                match auth_reply_spec(self.inbox[0], self.inbox[1]) {
                    Ok(_) => rest.request_connect(),
                    Err(e) => rest.failed(e),
                }
            },
            SessionState::ConnectRequest | SessionState::ConnectReply => match parse_reply_spec(
                self.inbox,
            ) {
                ReplyStatus::Incomplete => (
                    SessionView { state: SessionState::ConnectReply, ..self },
                    idle(),
                ),
                ReplyStatus::Malformed => self.failed(
                    ProxyError::SocksNegotiationFailure { reason: SocksReason::Malformed },
                ),
                ReplyStatus::Complete { len, status } => {
                    let rest = SessionView {
                        inbox: self.inbox.subrange(len as int, self.inbox.len() as int),
                        ..self
                    };
                    match reply_outcome_spec(status) {
                        Ok(_) => (SessionView { state: SessionState::Established, ..rest }, idle()),
                        Err(e) => rest.failed(e),
                    }
                },
            },
            SessionState::Init => self.failed(
                ProxyError::SocksNegotiationFailure { reason: SocksReason::Malformed },
            ),
            _ => (self, idle()),
        }
    }

    /// The handshake after an event, and what is to be written to the server.
    ///
    /// A handshake that is over does nothing. Cancellation, an error or the end
    /// of the server's stream, and a timeout fail the handshake from any state;
    /// a timeout counts as `UpstreamUnreachable` while the connection is being
    /// opened and as a negotiation failure afterwards. Events of the client's
    /// socket are not the handshake's business.
    pub open spec fn step_spec(self, event: EventView) -> (SessionView, OutputView) {
        if self.is_over() {
            (self, idle())
        } else {
            match event {
                EventView::Cancelled => self.failed(ProxyError::Cancelled),
                EventView::UpstreamError => self.failed(ProxyError::IOError(Peer::Upstream)),
                EventView::UpstreamEof => self.failed(ProxyError::IOError(Peer::Upstream)),
                EventView::UpstreamUnreachable => self.failed(ProxyError::UpstreamUnreachable),
                EventView::TimedOut => if self.state is Init {
                    self.failed(ProxyError::UpstreamUnreachable)
                } else {
                    self.failed(
                        ProxyError::SocksNegotiationFailure { reason: SocksReason::TimedOut },
                    )
                },
                EventView::UpstreamConnected => if self.state is Init {
                    (
                        SessionView { state: SessionState::MethodNegotiation, ..self },
                        send(greeting_spec(self.offer_password)),
                    )
                } else {
                    (self, idle())
                },
                EventView::UpstreamWritten => if self.state is ConnectRequest {
                    (SessionView { state: SessionState::ConnectReply, ..self }, idle())
                } else {
                    (self, idle())
                },
                EventView::UpstreamData(bytes) => (SessionView {
                    inbox: self.inbox + bytes,
                    ..self
                }).digest(),
                _ => (self, idle()),
            }
        }
    }
}

/// What is left of `v` behind its first `n` bytes.
pub(crate) fn drop_front(v: Vec<u8>, n: usize) -> (r: Vec<u8>)
    requires
        n <= v@.len(),
    ensures
        r@ == v@.subrange(n as int, v@.len() as int),
{
    slice_to_vec(slice_subrange(v.as_slice(), n, v.len()))
}

impl SocksSession {
    /// A handshake at its start, for a proxy configured with `credentials` and
    /// a tunnel to `host` at `port`.
    pub fn new(credentials: &Credentials, host: &[u8], port: u16) -> (s: SocksSession)
        ensures
            s@ == SessionView::start(*credentials, host@, port),
    {
        let offer_password = !credentials.is_empty();
        let auth_message = if offer_password {
            auth_request(credentials)
        } else {
            None
        };
        let target = classify(host);
        SocksSession {
            state: SessionState::Init,
            offer_password,
            auth_message,
            connect_message: connect_request(&target, port),
            inbox: Vec::new(),
        }
    }

    /// The handshake failed with `error`.
    fn failed(self, error: ProxyError) -> (r: (SocksSession, Output))
        ensures
            (r.0@, r.1@) == self@.failed(error),
    {
        let mut next = self;
        next.state = SessionState::Failed(error);
        (next, Output::idle())
    }

    /// Hands out the request to connect.
    fn request_connect(self) -> (r: (SocksSession, Output))
        ensures
            (r.0@, r.1@) == self@.request_connect(),
    {
        let mut next = self;
        match next.connect_message.take() {
            Some(m) => {
                next.state = SessionState::ConnectRequest;
                (next, Output::upstream(m))
            },
            None => next.failed(ProxyError::ProtocolViolation),
        }
    }

    /// Reads what the inbox holds, as far as the state awaits it.
    fn digest(self) -> (r: (SocksSession, Output))
        ensures
            (r.0@, r.1@) == self@.digest(),
    {
        reveal(SessionView::digest);
        let mut next = self;
        match next.state {
            SessionState::MethodNegotiation => {
                if next.inbox.len() < 2 {
                    return (next, Output::idle());
                }
                let verdict = parse_method_reply(next.inbox[0], next.inbox[1], next.offer_password);
                next.inbox = drop_front(next.inbox, 2);
                match verdict {
                    Ok(AuthMethod::NoAuth) => next.request_connect(),
                    Ok(AuthMethod::UserPass) => match next.auth_message.take() {
                        Some(m) => {
                            next.state = SessionState::AuthSubnegotiation;
                            (next, Output::upstream(m))
                        },
                        None => next.failed(ProxyError::AuthFailure(Peer::Upstream)),
                    },
                    Err(e) => next.failed(e),
                }
            },
            SessionState::AuthSubnegotiation => {
                if next.inbox.len() < 2 {
                    return (next, Output::idle());
                }
                let verdict = parse_auth_reply(next.inbox[0], next.inbox[1]);
                next.inbox = drop_front(next.inbox, 2);
                match verdict {
                    Ok(_) => next.request_connect(),
                    Err(e) => next.failed(e),
                }
            },
            SessionState::ConnectRequest | SessionState::ConnectReply => {
                match parse_reply(next.inbox.as_slice()) {
                    ReplyStatus::Incomplete => {
                        next.state = SessionState::ConnectReply;
                        (next, Output::idle())
                    },
                    ReplyStatus::Malformed => next.failed(
                        ProxyError::SocksNegotiationFailure { reason: SocksReason::Malformed },
                    ),
                    ReplyStatus::Complete { len, status } => {
                        next.inbox = drop_front(next.inbox, len);
                        match reply_outcome(status) {
                            Ok(_) => {
                                next.state = SessionState::Established;
                                (next, Output::idle())
                            },
                            Err(e) => next.failed(e),
                        }
                    },
                }
            },
            SessionState::Init => next.failed(
                ProxyError::SocksNegotiationFailure { reason: SocksReason::Malformed },
            ),
            _ => (next, Output::idle()),
        }
    }

    /// Whether the handshake is over, one way or the other.
    pub fn is_over(&self) -> (r: bool)
        ensures
            r == self@.is_over(),
    {
        match self.state {
            SessionState::Established => true,
            SessionState::Failed(_) => true,
            _ => false,
        }
    }

    /// Takes one event and says what is to be written to the server.
    pub fn step(self, event: Event) -> (r: (SocksSession, Output))
        ensures
            (r.0@, r.1@) == self@.step_spec(event@),
    {
        if self.is_over() {
            return (self, Output::idle());
        }
        let ghost before = self@;
        let mut next = self;
        match event {
            Event::Cancelled => next.failed(ProxyError::Cancelled),
            Event::UpstreamError => next.failed(ProxyError::IOError(Peer::Upstream)),
            Event::UpstreamEof => next.failed(ProxyError::IOError(Peer::Upstream)),
            Event::UpstreamUnreachable => next.failed(ProxyError::UpstreamUnreachable),
            Event::TimedOut => match next.state {
                SessionState::Init => next.failed(ProxyError::UpstreamUnreachable),
                _ => next.failed(
                    ProxyError::SocksNegotiationFailure { reason: SocksReason::TimedOut },
                ),
            },
            Event::UpstreamConnected => match next.state {
                SessionState::Init => {
                    next.state = SessionState::MethodNegotiation;
                    let hello = greeting(next.offer_password);
                    (next, Output::upstream(hello))
                },
                _ => (next, Output::idle()),
            },
            Event::UpstreamWritten => match next.state {
                SessionState::ConnectRequest => {
                    next.state = SessionState::ConnectReply;
                    (next, Output::idle())
                },
                _ => (next, Output::idle()),
            },
            Event::UpstreamData(bytes) => {
                next.inbox.extend_from_slice(bytes.as_slice());
                assert(next@ == (SessionView { inbox: before.inbox + bytes@, ..before }));
                next.digest()
            },
            _ => (next, Output::idle()),
        }
    }
}

/// A reply with a status other than `0x00` ends the handshake in
/// `Failed(SocksNegotiationFailure)`, with the reason that RFC 1928 gives the
/// code and the code kept in it; nothing more is written to the server.
pub proof fn lemma_refusal_fails(session: SessionView, bytes: Seq<u8>)
    requires
        session.state is ConnectRequest || session.state is ConnectReply,
        parse_reply_spec(session.inbox + bytes) matches ReplyStatus::Complete { len, status }
            && status != 0,
    ensures
        ({
            let status = parse_reply_spec(session.inbox + bytes)->status;
            let (next, out) = session.step_spec(EventView::UpstreamData(bytes));
            &&& next.state == SessionState::Failed(
                ProxyError::SocksNegotiationFailure { reason: SocksReason::of_status(status) },
            )
            &&& SocksReason::of_status(status).status_spec() == Some(status)
            &&& out == idle()
        }),
{
    reveal(SessionView::digest);
}

/// The handshake reaches `Established` from nowhere but `ConnectRequest` and
/// `ConnectReply`, and only by a reply whose status is `0x00`.
pub proof fn lemma_established_only_by_success(session: SessionView, event: EventView)
    requires
        !(session.state is Established),
        session.step_spec(event).0.state is Established,
    ensures
        session.state is ConnectRequest || session.state is ConnectReply,
        event is UpstreamData,
        parse_reply_spec(session.inbox + event->UpstreamData_0) matches ReplyStatus::Complete {
            len,
            status,
        } && status == 0,
{
    reveal(SessionView::digest);
}

/// A handshake that is over stays as it is and asks for nothing, whatever
/// happens.
pub proof fn lemma_session_over_is_final(session: SessionView, event: EventView)
    requires
        session.is_over(),
    ensures
        session.step_spec(event) == (session, idle()),
{
}

/// Once the connection stands, the handshake greets the server.
pub proof fn lemma_session_greets(session: SessionView)
    requires
        session.state is Init,
    ensures
        session.step_spec(EventView::UpstreamConnected) == (
            SessionView { state: SessionState::MethodNegotiation, ..session },
            send(greeting_spec(session.offer_password)),
        ),
{
}

/// When the server chooses "no authentication", the handshake asks for the
/// target at once.
pub proof fn lemma_session_skips_auth(session: SessionView)
    requires
        session.state is MethodNegotiation,
        session.inbox.len() == 0,
        session.connect_message is Some,
    ensures
        session.step_spec(EventView::UpstreamData(seq![VERSION, METHOD_NONE])) == (
            SessionView {
                state: SessionState::ConnectRequest,
                connect_message: None,
                inbox: Seq::empty(),
                ..session
            },
            send(session.connect_message->0),
        ),
{
    reveal(SessionView::digest);
    let choice = seq![VERSION, METHOD_NONE];
    assert(session.inbox + choice =~= choice);
    assert(choice.subrange(2, 2) =~= Seq::<u8>::empty());
}

/// When the server chooses "user name and password" and they were offered,
/// the handshake shows them; when the server accepts them, it asks for the
/// target.
pub proof fn lemma_session_authenticates(session: SessionView)
    requires
        session.state is MethodNegotiation,
        session.inbox.len() == 0,
        session.offer_password,
        session.auth_message is Some,
        session.connect_message is Some,
    ensures
        ({
            let (shown, o1) = session.step_spec(
                EventView::UpstreamData(seq![VERSION, METHOD_PASSWORD]),
            );
            let (asked, o2) = shown.step_spec(EventView::UpstreamData(seq![AUTH_VERSION, 0u8]));
            &&& shown == (SessionView {
                state: SessionState::AuthSubnegotiation,
                auth_message: None,
                inbox: Seq::empty(),
                ..session
            })
            &&& o1 == send(session.auth_message->0)
            &&& asked == (SessionView {
                state: SessionState::ConnectRequest,
                connect_message: None,
                ..shown
            })
            &&& o2 == send(session.connect_message->0)
        }),
{
    reveal(SessionView::digest);
    let choice = seq![VERSION, METHOD_PASSWORD];
    assert(session.inbox + choice =~= choice);
    assert(choice.subrange(2, 2) =~= Seq::<u8>::empty());
    let verdict = seq![AUTH_VERSION, 0u8];
    assert(Seq::<u8>::empty() + verdict =~= verdict);
    assert(verdict.subrange(2, 2) =~= Seq::<u8>::empty());
}

/// A reply with status `0x00` to a request that is out establishes the tunnel.
pub proof fn lemma_session_succeeds(session: SessionView, reply: Seq<u8>)
    requires
        session.state is ConnectRequest || session.state is ConnectReply,
        session.inbox.len() == 0,
        reply.len() <= usize::MAX,
        parse_reply_spec(reply) == (ReplyStatus::Complete { len: reply.len() as usize, status: 0 }),
    ensures
        session.step_spec(EventView::UpstreamData(reply)) == (
            SessionView { state: SessionState::Established, inbox: Seq::empty(), ..session },
            idle(),
        ),
{
    reveal(SessionView::digest);
    assert(session.inbox + reply =~= reply);
    assert(reply.subrange(reply.len() as int, reply.len() as int) =~= Seq::<u8>::empty());
}

/// All that the handshake ever asks for is to write to the SOCKS5 server: it
/// opens and closes nothing and says nothing to the client.
pub proof fn lemma_session_only_writes_upstream(session: SessionView, event: EventView)
    ensures
        session.step_spec(event).1 == send(session.step_spec(event).1.to_upstream),
{
    reveal(SessionView::digest);
}

} // verus!
