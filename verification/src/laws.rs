//! What holds of every proxied connection, proved of the state machine in
//! `connection`.

use crate::config::{field_bytes, Credentials};
use crate::connection::{farewell, lemma_step_preserves_wf, ConnectionView, PhaseView};
use crate::error::{Peer, ProxyError, SocksReason};
use crate::event::{closing, idle, leaves_upstream_alone, EventView, Outcome, OutputView};
use crate::http::{
    authorized_spec, lemma_head_ends_at_first_blank_line, lemma_response_shows_status,
    locate_head_spec, parse_head_spec, response_spec, status_digits, HeadStatus, Method, Status,
    MAX_HEAD,
};
use crate::relay::{
    client_ended, lemma_relay_carries_everything, sent_by_client, sent_by_upstream, state_after,
    undisturbed, upstream_ended, Relay,
};
use crate::session::{
    lemma_refusal_fails, lemma_session_authenticates, lemma_session_greets,
    lemma_session_only_writes_upstream, lemma_session_skips_auth, lemma_session_succeeds, send,
    SessionState, SessionView,
};
use crate::socks5::{
    auth_request_spec, classify_spec, connect_request_spec, greeting_spec, parse_reply_spec,
    ReplyStatus, AUTH_VERSION, METHOD_NONE, METHOD_PASSWORD, VERSION,
};
use vstd::prelude::*;

verus! {

/// A request that does not show the configured credentials is answered with
/// `407 Proxy Authentication Required` and with nothing else. The connection
/// is over at once: no connection to the SOCKS5 server is opened and no byte
/// is sent to it, then or after any later event.
pub proof fn lemma_unauthorized_is_refused(
    credentials: Credentials,
    buffer: Seq<u8>,
    bytes: Seq<u8>,
    later: EventView,
)
    requires
        locate_head_spec(buffer + bytes) matches HeadStatus::Complete(n) && parse_head_spec(
            (buffer + bytes).subrange(0, n as int),
        ) matches Some(request) && !authorized_spec(credentials, request.authorization),
    ensures
        !credentials.is_empty_spec(),
        ({
            let conn = ConnectionView { credentials, phase: PhaseView::ReadingRequest { buffer } };
            let (next, out) = conn.step_spec(EventView::ClientData(bytes));
            &&& next.phase == PhaseView::Closed(
                Outcome::Failed(ProxyError::AuthFailure(Peer::Client)),
            )
            &&& out == closing(response_spec(Status::ProxyAuthenticationRequired))
            &&& out.to_client.subrange(9, 12) == seq![52u8, 48u8, 55u8]
            &&& leaves_upstream_alone(out)
            &&& next.step_spec(later) == (next, idle())
            &&& leaves_upstream_alone(next.step_spec(later).1)
        }),
{
    reveal(ConnectionView::read_request);
    lemma_response_shows_status(Status::ProxyAuthenticationRequired);
    assert(status_digits(407) =~= seq![52u8, 48u8, 55u8]);
}

/// A request without a `Proxy-Authorization` header is not authorized when
/// credentials are configured, and any request is when none are.
pub proof fn lemma_missing_header(credentials: Credentials, authorization: Option<Seq<u8>>)
    ensures
        !credentials.is_empty_spec() ==> !authorized_spec(credentials, None),
        credentials.is_empty_spec() ==> authorized_spec(credentials, authorization),
{
}

/// A reply of the SOCKS5 server with a status other than `0x00` ends the
/// connection with the failure that RFC 1928 gives the code, the code kept in
/// the reason. The client is told `502 Bad Gateway` or `504 Gateway Timeout`,
/// never `200`, and nothing more goes to the server.
pub proof fn lemma_refusal_reaches_client(
    credentials: Credentials,
    session: SessionView,
    method: Method,
    pending: Seq<u8>,
    client_ended: bool,
    bytes: Seq<u8>,
)
    requires
        session.state is ConnectRequest || session.state is ConnectReply,
        parse_reply_spec(session.inbox + bytes) matches ReplyStatus::Complete { len, status }
            && status != 0,
    ensures
        ({
            let status = parse_reply_spec(session.inbox + bytes)->status;
            let reason = SocksReason::of_status(status);
            let conn = ConnectionView {
                credentials,
                phase: PhaseView::Handshaking { session, method, pending, client_ended },
            };
            let (next, out) = conn.step_spec(EventView::UpstreamData(bytes));
            &&& next.phase == PhaseView::Closed(
                Outcome::Failed(ProxyError::SocksNegotiationFailure { reason }),
            )
            &&& reason.status_spec() == Some(status)
            &&& out.close
            &&& out.to_client == response_spec(Status::BadGateway) || out.to_client
                == response_spec(Status::GatewayTimeout)
            &&& out.to_client != response_spec(Status::ConnectionEstablished)
            &&& out.to_client.subrange(9, 10) == seq![53u8]
            &&& leaves_upstream_alone(out)
        }),
{
    reveal(ConnectionView::handshake_step);
    let status = parse_reply_spec(session.inbox + bytes)->status;
    let error = ProxyError::SocksNegotiationFailure { reason: SocksReason::of_status(status) };
    lemma_refusal_fails(session, bytes);
    lemma_rejection_is_no_success(credentials, error);
    lemma_response_shows_status(Status::BadGateway);
    lemma_response_shows_status(Status::GatewayTimeout);
    let told = farewell(error);
    assert(told == response_spec(Status::BadGateway) || told == response_spec(
        Status::GatewayTimeout,
    ));
    assert(told.subrange(9, 12)[0] == 53);
    assert(told.subrange(9, 10) =~= seq![53u8]);
}

/// Whatever ends a connection before the tunnel stands, the client is never
/// told `200`: it is told the status of the error, or nothing.
pub proof fn lemma_rejection_is_no_success(credentials: Credentials, error: ProxyError)
    ensures
        ({
            let (next, out) = ConnectionView::reject(credentials, error);
            &&& next.phase == PhaseView::Closed(Outcome::Failed(error))
            &&& out.close
            &&& leaves_upstream_alone(out)
            &&& out.to_client != response_spec(Status::ConnectionEstablished)
            &&& error.http_status_spec() is None ==> out.to_client.len() == 0
        }),
{
    lemma_response_shows_status(Status::ConnectionEstablished);
    lemma_response_shows_status(Status::BadRequest);
    lemma_response_shows_status(Status::ProxyAuthenticationRequired);
    lemma_response_shows_status(Status::BadGateway);
    lemma_response_shows_status(Status::GatewayTimeout);
    let fine = response_spec(Status::ConnectionEstablished);
    assert(fine.subrange(9, 12)[0] == 50);
    match Status::for_error_spec(error) {
        Some(status) => {
            assert(response_spec(status).subrange(9, 12)[0] != 50);
        },
        None => {},
    }
}

/// While the tunnel is being built, what happens to the SOCKS5 server's
/// socket is the handshake's business: the connection follows the handshake
/// as long as that is not over, and starts the relay when it is established.
pub proof fn lemma_connection_follows_handshake(
    credentials: Credentials,
    session: SessionView,
    method: Method,
    pending: Seq<u8>,
    client_ended: bool,
    event: EventView,
)
    requires
        !(event is ClientData || event is ClientEof || event is ClientError),
    ensures
        ({
            let (next, out) = session.step_spec(event);
            let conn = ConnectionView::building(
                credentials,
                session,
                method,
                pending,
                client_ended,
            );
            &&& !next.is_over() ==> conn.step_spec(event) == (
                ConnectionView::building(credentials, next, method, pending, client_ended),
                out,
            )
            &&& next.state is Established ==> conn.step_spec(event) == ConnectionView::open_tunnel(
                credentials,
                next,
                method,
                pending,
                client_ended,
            )
            &&& next.state matches SessionState::Failed(error) ==> conn.step_spec(event)
                == ConnectionView::reject(credentials, error)
        }),
{
    reveal(ConnectionView::handshake_step);
}

/// What goes to the target when the tunnel stands: nothing of a `CONNECT`
/// that came as its head alone, the whole request of a forward.
pub open spec fn held_back(method: Method, head: Seq<u8>) -> Seq<u8> {
    match method {
        Method::Connect => Seq::empty(),
        Method::Forward => head,
    }
}

/// What the proxy itself says to the client when the tunnel stands: `200
/// Connection Established` to a `CONNECT`, nothing to a forward.
pub open spec fn welcome(method: Method) -> Seq<u8> {
    match method {
        Method::Connect => response_spec(Status::ConnectionEstablished),
        Method::Forward => Seq::empty(),
    }
}

/// A well-formed request of at most `MAX_HEAD` bytes that shows the configured
/// credentials, or comes to a proxy without any, leads to a tunnel when the
/// SOCKS5 server accepts it without authentication: the proxy opens the
/// connection, greets, asks for the target that the request names, and
/// reaches the relay on the server's success. Only then, and not before, a
/// `CONNECT` is answered with `200 Connection Established`; a forward is sent
/// on as it came and gets no answer of the proxy's own. From then on whatever
/// one side sends goes to the other side unchanged.
pub proof fn lemma_request_reaches_tunnel(
    credentials: Credentials,
    head: Seq<u8>,
    reply: Seq<u8>,
    up: Seq<u8>,
    down: Seq<u8>,
)
    requires
        head.len() <= MAX_HEAD,
        parse_head_spec(head) matches Some(request) && authorized_spec(
            credentials,
            request.authorization,
        ),
        reply.len() <= usize::MAX,
        parse_reply_spec(reply) == (ReplyStatus::Complete { len: reply.len() as usize, status: 0 }),
    ensures
        ({
            let request = parse_head_spec(head)->0;
            let c0 = ConnectionView::start(credentials);
            let (c1, o1) = c0.step_spec(EventView::ClientData(head));
            let (c2, o2) = c1.step_spec(EventView::UpstreamConnected);
            let (c3, o3) = c2.step_spec(EventView::UpstreamData(seq![VERSION, METHOD_NONE]));
            let (c4, o4) = c3.step_spec(EventView::UpstreamWritten);
            let (c5, o5) = c4.step_spec(EventView::UpstreamData(reply));
            &&& o1 == (OutputView { connect_upstream: true, ..idle() })
            &&& o2 == send(greeting_spec(!credentials.is_empty_spec()))
            &&& connect_request_spec(classify_spec(request.host), request.port) is Some
            &&& o3 == send(connect_request_spec(classify_spec(request.host), request.port)->0)
            &&& o4 == idle()
            &&& c5 == (ConnectionView { credentials, phase: PhaseView::Relaying(Relay::Both) })
            &&& o5 == (OutputView {
                to_upstream: held_back(request.method, head),
                to_client: welcome(request.method),
                ..idle()
            })
            &&& c5.step_spec(EventView::ClientData(up)) == (c5, send(up))
            &&& c5.step_spec(EventView::UpstreamData(down)) == (
                c5,
                OutputView { to_client: down, ..idle() },
            )
        }),
{
    let request = parse_head_spec(head)->0;
    let method = request.method;
    lemma_head_ends_at_first_blank_line(head);
    lemma_parsed_host_can_be_named(head);
    let message = connect_request_spec(classify_spec(request.host), request.port)->0;
    let nothing = Seq::<u8>::empty();
    let pending = held_back(method, head);
    let s1 = SessionView::start(credentials, request.host, request.port);
    let s2 = SessionView { state: SessionState::MethodNegotiation, ..s1 };
    let s3 = SessionView { state: SessionState::ConnectRequest, connect_message: None, ..s2 };
    let s4 = SessionView { state: SessionState::ConnectReply, ..s3 };
    let s5 = SessionView { state: SessionState::Established, ..s4 };
    let c0 = ConnectionView::start(credentials);
    let c1 = ConnectionView::building(credentials, s1, method, pending, false);
    let c2 = ConnectionView::building(credentials, s2, method, pending, false);
    let c3 = ConnectionView::building(credentials, s3, method, pending, false);
    let c4 = ConnectionView::building(credentials, s4, method, pending, false);
    let c5 = ConnectionView { credentials, phase: PhaseView::Relaying(Relay::Both) };
    assert(c0.step_spec(EventView::ClientData(head)) == (
        c1,
        OutputView { connect_upstream: true, ..idle() },
    )) by {
        assert(nothing + head =~= head);
        assert(head.subrange(0, head.len() as int) =~= head);
        assert(head.subrange(head.len() as int, head.len() as int) =~= nothing);
        lemma_request_starts_handshake(credentials, nothing, head);
    }
    assert(c1.step_spec(EventView::UpstreamConnected) == (
        c2,
        send(greeting_spec(!credentials.is_empty_spec())),
    )) by {
        lemma_session_greets(s1);
        lemma_connection_follows_handshake(
            credentials,
            s1,
            method,
            pending,
            false,
            EventView::UpstreamConnected,
        );
    }
    assert(c2.step_spec(EventView::UpstreamData(seq![VERSION, METHOD_NONE])) == (
        c3,
        send(message),
    )) by {
        lemma_session_skips_auth(s2);
        lemma_connection_follows_handshake(
            credentials,
            s2,
            method,
            pending,
            false,
            EventView::UpstreamData(seq![VERSION, METHOD_NONE]),
        );
        assert(s3 =~= (SessionView {
            state: SessionState::ConnectRequest,
            connect_message: None,
            inbox: nothing,
            ..s2
        }));
    }
    assert(c3.step_spec(EventView::UpstreamWritten) == (c4, idle())) by {
        lemma_connection_follows_handshake(
            credentials,
            s3,
            method,
            pending,
            false,
            EventView::UpstreamWritten,
        );
    }
    assert(c4.step_spec(EventView::UpstreamData(reply)) == (
        c5,
        OutputView { to_upstream: pending, to_client: welcome(method), ..idle() },
    )) by {
        lemma_session_succeeds(s4, reply);
        lemma_connection_follows_handshake(
            credentials,
            s4,
            method,
            pending,
            false,
            EventView::UpstreamData(reply),
        );
        assert(s5 =~= (SessionView {
            state: SessionState::Established,
            inbox: nothing,
            ..s4
        }));
        assert(welcome(method) + nothing =~= welcome(method));
    }
}

/// The same with authentication: when credentials are configured and the
/// SOCKS5 server chooses "user name and password", the proxy shows them to the
/// server, and on the server's acceptance goes on as above to the relay.
pub proof fn lemma_request_reaches_tunnel_with_password(
    credentials: Credentials,
    head: Seq<u8>,
    reply: Seq<u8>,
)
    requires
        head.len() <= MAX_HEAD,
        parse_head_spec(head) matches Some(request) && authorized_spec(
            credentials,
            request.authorization,
        ),
        !credentials.is_empty_spec(),
        auth_request_spec(field_bytes(credentials.username), field_bytes(credentials.password))
            is Some,
        reply.len() <= usize::MAX,
        parse_reply_spec(reply) == (ReplyStatus::Complete { len: reply.len() as usize, status: 0 }),
    ensures
        ({
            let request = parse_head_spec(head)->0;
            let c0 = ConnectionView::start(credentials);
            let (c1, o1) = c0.step_spec(EventView::ClientData(head));
            let (c2, o2) = c1.step_spec(EventView::UpstreamConnected);
            let (c3, o3) = c2.step_spec(EventView::UpstreamData(seq![VERSION, METHOD_PASSWORD]));
            let (c4, o4) = c3.step_spec(EventView::UpstreamData(seq![AUTH_VERSION, 0u8]));
            let (c5, o5) = c4.step_spec(EventView::UpstreamWritten);
            let (c6, o6) = c5.step_spec(EventView::UpstreamData(reply));
            &&& o1 == (OutputView { connect_upstream: true, ..idle() })
            &&& o2 == send(greeting_spec(true))
            &&& o3 == send(
                auth_request_spec(
                    field_bytes(credentials.username),
                    field_bytes(credentials.password),
                )->0,
            )
            &&& o4 == send(connect_request_spec(classify_spec(request.host), request.port)->0)
            &&& o5 == idle()
            &&& c6 == (ConnectionView { credentials, phase: PhaseView::Relaying(Relay::Both) })
            &&& o6 == (OutputView {
                to_upstream: held_back(request.method, head),
                to_client: welcome(request.method),
                ..idle()
            })
        }),
{
    let request = parse_head_spec(head)->0;
    let method = request.method;
    lemma_head_ends_at_first_blank_line(head);
    lemma_parsed_host_can_be_named(head);
    let message = connect_request_spec(classify_spec(request.host), request.port)->0;
    let shown = auth_request_spec(
        field_bytes(credentials.username),
        field_bytes(credentials.password),
    )->0;
    let nothing = Seq::<u8>::empty();
    let pending = held_back(method, head);
    let s1 = SessionView::start(credentials, request.host, request.port);
    let s2 = SessionView { state: SessionState::MethodNegotiation, ..s1 };
    let s3 = SessionView { state: SessionState::AuthSubnegotiation, auth_message: None, ..s2 };
    let s4 = SessionView { state: SessionState::ConnectRequest, connect_message: None, ..s3 };
    let s5 = SessionView { state: SessionState::ConnectReply, ..s4 };
    let s6 = SessionView { state: SessionState::Established, ..s5 };
    let c0 = ConnectionView::start(credentials);
    let c1 = ConnectionView::building(credentials, s1, method, pending, false);
    let c2 = ConnectionView::building(credentials, s2, method, pending, false);
    let c3 = ConnectionView::building(credentials, s3, method, pending, false);
    let c4 = ConnectionView::building(credentials, s4, method, pending, false);
    let c5 = ConnectionView::building(credentials, s5, method, pending, false);
    let c6 = ConnectionView { credentials, phase: PhaseView::Relaying(Relay::Both) };
    assert(c0.step_spec(EventView::ClientData(head)) == (
        c1,
        OutputView { connect_upstream: true, ..idle() },
    )) by {
        assert(nothing + head =~= head);
        assert(head.subrange(0, head.len() as int) =~= head);
        assert(head.subrange(head.len() as int, head.len() as int) =~= nothing);
        lemma_request_starts_handshake(credentials, nothing, head);
    }
    assert(c1.step_spec(EventView::UpstreamConnected) == (c2, send(greeting_spec(true)))) by {
        lemma_session_greets(s1);
        lemma_connection_follows_handshake(
            credentials,
            s1,
            method,
            pending,
            false,
            EventView::UpstreamConnected,
        );
    }
    assert(c2.step_spec(EventView::UpstreamData(seq![VERSION, METHOD_PASSWORD])) == (
        c3,
        send(shown),
    ) && c3.step_spec(EventView::UpstreamData(seq![AUTH_VERSION, 0u8])) == (c4, send(message)))
        by {
        lemma_session_authenticates(s2);
        lemma_connection_follows_handshake(
            credentials,
            s2,
            method,
            pending,
            false,
            EventView::UpstreamData(seq![VERSION, METHOD_PASSWORD]),
        );
        lemma_connection_follows_handshake(
            credentials,
            s3,
            method,
            pending,
            false,
            EventView::UpstreamData(seq![AUTH_VERSION, 0u8]),
        );
        assert(s3 =~= (SessionView {
            state: SessionState::AuthSubnegotiation,
            auth_message: None,
            inbox: nothing,
            ..s2
        }));
    }
    assert(c4.step_spec(EventView::UpstreamWritten) == (c5, idle())) by {
        lemma_connection_follows_handshake(
            credentials,
            s4,
            method,
            pending,
            false,
            EventView::UpstreamWritten,
        );
    }
    assert(c5.step_spec(EventView::UpstreamData(reply)) == (
        c6,
        OutputView { to_upstream: pending, to_client: welcome(method), ..idle() },
    )) by {
        lemma_session_succeeds(s5, reply);
        lemma_connection_follows_handshake(
            credentials,
            s5,
            method,
            pending,
            false,
            EventView::UpstreamData(reply),
        );
        assert(s6 =~= (SessionView {
            state: SessionState::Established,
            inbox: nothing,
            ..s5
        }));
        assert(welcome(method) + nothing =~= welcome(method));
    }
}

/// A well-formed request that is authorized starts the handshake: the
/// connection to the SOCKS5 server is opened, and nothing is said to the
/// client yet. Of a `CONNECT`, what came behind the head is held back for the
/// target; of a forward, the whole request is.
pub proof fn lemma_request_starts_handshake(
    credentials: Credentials,
    buffer: Seq<u8>,
    bytes: Seq<u8>,
)
    requires
        locate_head_spec(buffer + bytes) matches HeadStatus::Complete(n) && parse_head_spec(
            (buffer + bytes).subrange(0, n as int),
        ) matches Some(request) && authorized_spec(credentials, request.authorization),
    ensures
        ({
            let all = buffer + bytes;
            let n = locate_head_spec(all)->Complete_0;
            let request = parse_head_spec(all.subrange(0, n as int))->0;
            let conn = ConnectionView { credentials, phase: PhaseView::ReadingRequest { buffer } };
            conn.step_spec(EventView::ClientData(bytes)) == (
                ConnectionView {
                    credentials,
                    phase: PhaseView::Handshaking {
                        session: SessionView::start(credentials, request.host, request.port),
                        method: request.method,
                        pending: match request.method {
                            Method::Forward => all,
                            Method::Connect => all.subrange(n as int, all.len() as int),
                        },
                        client_ended: false,
                    },
                },
                OutputView { connect_upstream: true, ..idle() },
            )
        }),
{
    reveal(ConnectionView::read_request);
}

/// The host of a well-formed request can be named in a SOCKS5 request: it is
/// an address, or a name of 1 to 255 bytes.
pub proof fn lemma_parsed_host_can_be_named(head: Seq<u8>)
    requires
        parse_head_spec(head) is Some,
    ensures
        connect_request_spec(
            classify_spec(parse_head_spec(head)->0.host),
            parse_head_spec(head)->0.port,
        ) is Some,
{
}

/// Cancellation ends a connection in any stage with both sockets closed, and
/// is idempotent: a second cancellation finds the connection over and does
/// nothing.
pub proof fn lemma_cancellation_is_idempotent(conn: ConnectionView)
    requires
        conn.wf(),
    ensures
        ({
            let (once, out) = conn.step_spec(EventView::Cancelled);
            &&& once.phase is Closed
            &&& !(conn.phase is Closed) ==> out.close && once.phase == PhaseView::Closed(
                Outcome::Failed(ProxyError::Cancelled),
            )
            &&& leaves_upstream_alone(out)
            &&& once.step_spec(EventView::Cancelled) == (once, idle())
        }),
{
    reveal(ConnectionView::handshake_step);
    let cancelled = ProxyError::Cancelled;
    assert(farewell(cancelled) =~= Seq::<u8>::empty());
    match conn.phase {
        PhaseView::Handshaking { session, method, pending, client_ended } => {
            assert(session.step_spec(EventView::Cancelled) == session.failed(cancelled));
        },
        PhaseView::Relaying(relay) => {
            assert(relay.step_spec(EventView::Cancelled).0 == Relay::Stopped(
                Outcome::Failed(cancelled),
            ));
        },
        _ => {},
    }
}

/// A connection that is over stays over and asks for nothing, whatever happens.
pub proof fn lemma_closed_is_final(conn: ConnectionView, event: EventView)
    requires
        conn.phase is Closed,
    ensures
        conn.step_spec(event) == (conn, idle()),
{
}

/// Half-close: when the client ends its stream while the tunnel stands, the
/// stream towards the SOCKS5 server is ended and nothing is closed; what the
/// server sends afterwards still reaches the client unchanged; and the
/// connection is over only when the server ends its stream too.
pub proof fn lemma_half_close_keeps_reply_path(credentials: Credentials, down: Seq<u8>)
    ensures
        ({
            let tunnel = ConnectionView { credentials, phase: PhaseView::Relaying(Relay::Both) };
            let (half, o1) = tunnel.step_spec(EventView::ClientEof);
            let (still, o2) = half.step_spec(EventView::UpstreamData(down));
            let (over, o3) = still.step_spec(EventView::UpstreamEof);
            &&& half.phase == PhaseView::Relaying(Relay::UpstreamOnly)
            &&& o1 == (OutputView { shutdown_upstream: true, ..idle() })
            &&& still == half
            &&& o2 == (OutputView { to_client: down, ..idle() })
            &&& over.phase == PhaseView::Closed(Outcome::Finished)
            &&& o3 == closing(Seq::empty())
        }),
{
}


/// The stages come in order. A connection never goes back to an earlier
/// stage; the handshake starts only from the reading of the request; and the
/// relay starts only from the handshake, at the very step that establishes
/// the tunnel.
pub proof fn lemma_stages_in_order(conn: ConnectionView, event: EventView)
    requires
        conn.wf(),
    ensures
        ({
            let (next, out) = conn.step_spec(event);
            &&& conn.stage() <= next.stage()
            &&& next.phase is Handshaking && !(conn.phase is Handshaking)
                ==> conn.phase is ReadingRequest && out.connect_upstream
            &&& next.phase is Relaying && !(conn.phase is Relaying) ==> (conn.phase matches
                PhaseView::Handshaking { session, .. } && session.step_spec(
                event,
            ).0.state is Established)
            &&& out.connect_upstream ==> conn.phase is ReadingRequest && next.phase is Handshaking
        }),
{
    reveal(ConnectionView::read_request);
    reveal(ConnectionView::handshake_step);
    if let PhaseView::Handshaking { session, .. } = conn.phase {
        lemma_session_only_writes_upstream(session, event);
    }
}

/// Both sockets are closed together on every way out: the step that ends a
/// connection always asks for the closing, and until then nothing is closed.
pub proof fn lemma_every_end_closes_both(conn: ConnectionView, event: EventView)
    requires
        conn.wf(),
        !(conn.phase is Closed),
    ensures
        conn.step_spec(event).0.phase is Closed <==> conn.step_spec(event).1.close,
{
    reveal(ConnectionView::read_request);
    reveal(ConnectionView::handshake_step);
    if let PhaseView::Handshaking { session, .. } = conn.phase {
        lemma_session_only_writes_upstream(session, event);
    }
}

/// Nothing reaches the SOCKS5 server before the client's request has been
/// read in full, found well-formed and found authorized: while the request is
/// being read, the only output towards the server is the opening of the
/// connection, at the step that starts the handshake.
pub proof fn lemma_front_end_comes_first(
    credentials: Credentials,
    buffer: Seq<u8>,
    event: EventView,
)
    ensures
        ({
            let conn = ConnectionView { credentials, phase: PhaseView::ReadingRequest { buffer } };
            let (next, out) = conn.step_spec(event);
            &&& out.to_upstream.len() == 0
            &&& out.connect_upstream ==> (event matches EventView::ClientData(bytes)
                && locate_head_spec(buffer + bytes) matches HeadStatus::Complete(n)
                && parse_head_spec((buffer + bytes).subrange(0, n as int)) matches Some(request)
                && authorized_spec(credentials, request.authorization))
        }),
{
    reveal(ConnectionView::read_request);
}

/// Before the tunnel stands the proxy says nothing to the client, unless it
/// ends the connection, and then it never says `200`: `200 Connection
/// Established` is written at the step that starts the relay and at no other.
pub proof fn lemma_no_word_before_the_tunnel(conn: ConnectionView, event: EventView)
    requires
        conn.wf(),
        conn.phase is ReadingRequest || conn.phase is Handshaking,
    ensures
        ({
            let (next, out) = conn.step_spec(event);
            &&& next.phase is ReadingRequest || next.phase is Handshaking
                ==> out.to_client.len() == 0
            &&& next.phase is Closed ==> out.to_client != response_spec(
                Status::ConnectionEstablished,
            )
        }),
{
    reveal(ConnectionView::read_request);
    reveal(ConnectionView::handshake_step);
    if let PhaseView::Handshaking { session, .. } = conn.phase {
        lemma_session_only_writes_upstream(session, event);
        if let SessionState::Failed(error) = session.step_spec(event).0.state {
            lemma_rejection_is_no_success(conn.credentials, error);
        }
    }
    lemma_rejection_is_no_success(conn.credentials, ProxyError::ProtocolViolation);
    lemma_rejection_is_no_success(conn.credentials, ProxyError::AuthFailure(Peer::Client));
    lemma_rejection_is_no_success(conn.credentials, ProxyError::IOError(Peer::Client));
    lemma_rejection_is_no_success(conn.credentials, ProxyError::Cancelled);
}

/// The configuration is read and never changed: every step leaves the
/// credentials of the connection as they were.
pub proof fn lemma_credentials_never_change(conn: ConnectionView, event: EventView)
    ensures
        conn.step_spec(event).0.credentials == conn.credentials,
{
    reveal(ConnectionView::read_request);
    reveal(ConnectionView::handshake_step);
}

/// The connection after a run of events, with all that was to be written to
/// the SOCKS5 server and all that was to be written to the client, in order.
pub open spec fn run(conn: ConnectionView, events: Seq<EventView>) -> (
    ConnectionView,
    Seq<u8>,
    Seq<u8>,
)
    decreases events.len(),
{
    if events.len() == 0 {
        (conn, Seq::empty(), Seq::empty())
    } else {
        let (before, up, down) = run(conn, events.drop_last());
        let (after, out) = before.step_spec(events.last());
        (after, up + out.to_upstream, down + out.to_client)
    }
}

/// The stage of a connection whose pump is in the state `relay`.
pub open spec fn stage_of_pump(relay: Relay) -> PhaseView {
    match relay {
        Relay::Stopped(outcome) => PhaseView::Closed(outcome),
        _ => PhaseView::Relaying(relay),
    }
}

/// While the tunnel stands, the connection does what its pump does.
pub proof fn lemma_tunnel_follows_pump(
    credentials: Credentials,
    relay: Relay,
    events: Seq<EventView>,
)
    requires
        !(relay is Stopped),
    ensures
        run(ConnectionView { credentials, phase: PhaseView::Relaying(relay) }, events) == (
            ConnectionView {
                credentials,
                phase: stage_of_pump(crate::relay::run(relay, events).0),
            },
            crate::relay::run(relay, events).1,
            crate::relay::run(relay, events).2,
        ),
    decreases events.len(),
{
    if events.len() > 0 {
        lemma_tunnel_follows_pump(credentials, relay, events.drop_last());
        let (before, up, down) = crate::relay::run(relay, events.drop_last());
        if before is Stopped {
            assert(up + Seq::<u8>::empty() =~= up);
            assert(down + Seq::<u8>::empty() =~= down);
        }
    }
}

/// Round trip through the tunnel: over any undisturbed run of events, all
/// that the client sent is written to the SOCKS5 server and all that the
/// server sent is written to the client, byte for byte and in order. When one
/// side ends its stream, the other direction goes on, and the connection is
/// over exactly when both sides have ended theirs.
pub proof fn lemma_tunnel_carries_everything(credentials: Credentials, events: Seq<EventView>)
    requires
        undisturbed(events),
    ensures
        run(ConnectionView { credentials, phase: PhaseView::Relaying(Relay::Both) }, events) == (
            ConnectionView {
                credentials,
                phase: stage_of_pump(state_after(client_ended(events), upstream_ended(events))),
            },
            sent_by_client(events),
            sent_by_upstream(events),
        ),
{
    lemma_tunnel_follows_pump(credentials, Relay::Both, events);
    lemma_relay_carries_everything(events);
}

/// After cancellation nothing is written any more, whatever else happens: the
/// run of events behind a cancellation leaves the connection as the
/// cancellation left it, which is closed.
pub proof fn lemma_nothing_after_cancellation(conn: ConnectionView, later: Seq<EventView>)
    requires
        conn.wf(),
    ensures
        ({
            let (cancelled, out) = conn.step_spec(EventView::Cancelled);
            &&& cancelled.phase is Closed
            &&& run(cancelled, later) == (cancelled, Seq::<u8>::empty(), Seq::<u8>::empty())
        }),
    decreases later.len(),
{
    lemma_cancellation_is_idempotent(conn);
    if later.len() > 0 {
        lemma_nothing_after_cancellation(conn, later.drop_last());
        assert(Seq::<u8>::empty() + Seq::<u8>::empty() =~= Seq::<u8>::empty());
    }
}

/// A run of events can be taken in two parts.
pub proof fn lemma_run_in_parts(conn: ConnectionView, head: Seq<EventView>, rest: Seq<EventView>)
    ensures
        ({
            let (mid, up1, down1) = run(conn, head);
            let (end, up2, down2) = run(mid, rest);
            run(conn, head + rest) == (end, up1 + up2, down1 + down2)
        }),
    decreases rest.len(),
{
    let (mid, up1, down1) = run(conn, head);
    if rest.len() == 0 {
        assert(head + rest =~= head);
        assert(up1 + Seq::<u8>::empty() =~= up1);
        assert(down1 + Seq::<u8>::empty() =~= down1);
    } else {
        lemma_run_in_parts(conn, head, rest.drop_last());
        assert((head + rest).drop_last() =~= head + rest.drop_last());
        assert((head + rest).last() == rest.last());
        let (before, up2, down2) = run(mid, rest.drop_last());
        let (after, out) = before.step_spec(rest.last());
        assert((up1 + up2) + out.to_upstream =~= up1 + (up2 + out.to_upstream));
        assert((down1 + down2) + out.to_client =~= down1 + (down2 + out.to_client));
    }
}

/// A run of events with one more event behind it is the run, and then the step.
pub proof fn lemma_run_one_more(conn: ConnectionView, events: Seq<EventView>, event: EventView)
    ensures
        ({
            let (before, up, down) = run(conn, events);
            let (after, out) = before.step_spec(event);
            run(conn, events.push(event)) == (after, up + out.to_upstream, down + out.to_client)
        }),
{
    assert(events.push(event).drop_last() =~= events);
}

/// The events of a handshake in which the SOCKS5 server asks for no
/// authentication and accepts the request with `reply`.
pub open spec fn plain_handshake(head: Seq<u8>, reply: Seq<u8>) -> Seq<EventView> {
    seq![
        EventView::ClientData(head),
        EventView::UpstreamConnected,
        EventView::UpstreamData(seq![VERSION, METHOD_NONE]),
        EventView::UpstreamWritten,
        EventView::UpstreamData(reply),
    ]
}

/// Over the events of such a handshake, the server is sent the greeting and
/// the request for the target, and when the tunnel stands, what was held back
/// for the target; the client is sent nothing before the tunnel stands.
pub proof fn lemma_plain_handshake_run(credentials: Credentials, head: Seq<u8>, reply: Seq<u8>)
    requires
        head.len() <= MAX_HEAD,
        parse_head_spec(head) matches Some(request) && authorized_spec(
            credentials,
            request.authorization,
        ),
        reply.len() <= usize::MAX,
        parse_reply_spec(reply) == (ReplyStatus::Complete { len: reply.len() as usize, status: 0 }),
    ensures
        ({
            let request = parse_head_spec(head)->0;
            let asked = connect_request_spec(classify_spec(request.host), request.port)->0;
            run(ConnectionView::start(credentials), plain_handshake(head, reply)) == (
                ConnectionView { credentials, phase: PhaseView::Relaying(Relay::Both) },
                greeting_spec(!credentials.is_empty_spec()) + asked + held_back(
                    request.method,
                    head,
                ),
                welcome(request.method),
            )
        }),
{
    let request = parse_head_spec(head)->0;
    let asked = connect_request_spec(classify_spec(request.host), request.port)->0;
    let hello = greeting_spec(!credentials.is_empty_spec());
    let held = held_back(request.method, head);
    let nothing = Seq::<u8>::empty();
    let c0 = ConnectionView::start(credentials);
    lemma_request_reaches_tunnel(credentials, head, reply, nothing, nothing);
    let e1 = EventView::ClientData(head);
    let e2 = EventView::UpstreamConnected;
    let e3 = EventView::UpstreamData(seq![VERSION, METHOD_NONE]);
    let e4 = EventView::UpstreamWritten;
    let e5 = EventView::UpstreamData(reply);
    let h0 = Seq::<EventView>::empty();
    let h1 = h0.push(e1);
    let h2 = h1.push(e2);
    let h3 = h2.push(e3);
    let h4 = h3.push(e4);
    let h5 = h4.push(e5);
    assert(h5 =~= plain_handshake(head, reply));
    let (c1, o1) = c0.step_spec(e1);
    let (c2, o2) = c1.step_spec(e2);
    let (c3, o3) = c2.step_spec(e3);
    let (c4, o4) = c3.step_spec(e4);
    let (c5, o5) = c4.step_spec(e5);
    assert(run(c0, h0) == (c0, nothing, nothing));
    assert(run(c0, h1) == (c1, nothing, nothing)) by {
        lemma_run_one_more(c0, h0, e1);
        assert(nothing + o1.to_upstream =~= nothing);
        assert(nothing + o1.to_client =~= nothing);
    }
    assert(run(c0, h2) == (c2, hello, nothing)) by {
        lemma_run_one_more(c0, h1, e2);
        assert(nothing + o2.to_upstream =~= hello);
        assert(nothing + o2.to_client =~= nothing);
    }
    assert(run(c0, h3) == (c3, hello + asked, nothing)) by {
        lemma_run_one_more(c0, h2, e3);
        assert(nothing + o3.to_client =~= nothing);
    }
    assert(run(c0, h4) == (c4, hello + asked, nothing)) by {
        lemma_run_one_more(c0, h3, e4);
        assert((hello + asked) + o4.to_upstream =~= hello + asked);
        assert(nothing + o4.to_client =~= nothing);
    }
    assert(run(c0, h5) == (c5, hello + asked + held, welcome(request.method))) by {
        lemma_run_one_more(c0, h4, e5);
        assert(nothing + o5.to_client =~= welcome(request.method));
    }
    assert(c5 == (ConnectionView { credentials, phase: PhaseView::Relaying(Relay::Both) }));
}

/// From the first byte to the last: a well-formed, authorized request, a
/// SOCKS5 server that accepts it, and any undisturbed traffic afterwards. The
/// server is sent the greeting, the request for the target, what was held
/// back, and then all that the client sends, and nothing else. The client is
/// sent `200 Connection Established` if it asked with `CONNECT`, and then all
/// that the server sends, and nothing else.
pub proof fn lemma_end_to_end(
    credentials: Credentials,
    head: Seq<u8>,
    reply: Seq<u8>,
    traffic: Seq<EventView>,
)
    requires
        head.len() <= MAX_HEAD,
        parse_head_spec(head) matches Some(request) && authorized_spec(
            credentials,
            request.authorization,
        ),
        reply.len() <= usize::MAX,
        parse_reply_spec(reply) == (ReplyStatus::Complete { len: reply.len() as usize, status: 0 }),
        undisturbed(traffic),
    ensures
        ({
            let request = parse_head_spec(head)->0;
            let asked = connect_request_spec(classify_spec(request.host), request.port)->0;
            let (end, up, down) = run(
                ConnectionView::start(credentials),
                plain_handshake(head, reply) + traffic,
            );
            &&& end.phase == stage_of_pump(
                state_after(client_ended(traffic), upstream_ended(traffic)),
            )
            &&& up == greeting_spec(!credentials.is_empty_spec()) + asked + held_back(
                request.method,
                head,
            ) + sent_by_client(traffic)
            &&& down == welcome(request.method) + sent_by_upstream(traffic)
        }),
{
    lemma_plain_handshake_run(credentials, head, reply);
    lemma_run_in_parts(ConnectionView::start(credentials), plain_handshake(head, reply), traffic);
    lemma_tunnel_carries_everything(credentials, traffic);
}

/// How often a run of events has the connection to the SOCKS5 server opened.
pub open spec fn connects(conn: ConnectionView, events: Seq<EventView>) -> nat
    decreases events.len(),
{
    if events.len() == 0 {
        0
    } else {
        let before = run(conn, events.drop_last()).0;
        connects(conn, events.drop_last()) + if before.step_spec(events.last()).1.connect_upstream {
            1nat
        } else {
            0nat
        }
    }
}

/// How often a run of events has the two sockets closed.
pub open spec fn closes(conn: ConnectionView, events: Seq<EventView>) -> nat
    decreases events.len(),
{
    if events.len() == 0 {
        0
    } else {
        let before = run(conn, events.drop_last()).0;
        closes(conn, events.drop_last()) + if before.step_spec(events.last()).1.close {
            1nat
        } else {
            0nat
        }
    }
}

/// One connection has one handshake and one end. Whatever the events, the
/// connection to the SOCKS5 server is opened at most once, and not at all
/// once the request has been read; the two sockets are closed at most once,
/// together, and exactly when the connection is over.
pub proof fn lemma_once_opened_once_closed(conn: ConnectionView, events: Seq<EventView>)
    requires
        conn.wf(),
    ensures
        run(conn, events).0.wf(),
        conn.stage() <= run(conn, events).0.stage(),
        connects(conn, events) <= 1,
        conn.stage() >= 1 ==> connects(conn, events) == 0,
        connects(conn, events) == 1 ==> run(conn, events).0.stage() >= 1,
        closes(conn, events) <= 1,
        conn.phase is Closed ==> closes(conn, events) == 0,
        !(conn.phase is Closed) ==> (closes(conn, events) == 1 <==> run(conn, events).0.phase
            is Closed),
    decreases events.len(),
{
    if events.len() > 0 {
        let earlier = events.drop_last();
        lemma_once_opened_once_closed(conn, earlier);
        let before = run(conn, earlier).0;
        lemma_step_preserves_wf(before, events.last());
        lemma_stages_in_order(before, events.last());
        if before.phase is Closed {
            lemma_closed_is_final(before, events.last());
        } else {
            lemma_every_end_closes_both(before, events.last());
        }
    }
}

} // verus!
