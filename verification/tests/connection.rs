use socks_hub::config::Credentials;
use socks_hub::connection::{Connection, Phase};
use socks_hub::error::{Peer, ProxyError, SocksReason};
use socks_hub::event::{Event, Outcome, Output};
use socks_hub::relay::Relay;
use socks_hub::session::{SocksSession, SessionState};

const CONNECT_HEAD: &[u8] = b"CONNECT example.com:443 HTTP/1.1\r\nHost: example.com:443\r\n\r\n";
const OK_REPLY: [u8; 10] = [5, 0, 0, 1, 0, 0, 0, 0, 0, 0];

fn no_credentials() -> Credentials {
    Credentials { username: None, password: None }
}

fn connect_request_for_example() -> Vec<u8> {
    let mut m = vec![5, 1, 0, 3, 11];
    m.extend_from_slice(b"example.com");
    m.extend_from_slice(&[0x01, 0xbb]);
    m
}

fn connecting() -> Output {
    let mut out = Output::idle();
    out.connect_upstream = true;
    out
}

fn state_of(conn: &Connection) -> Option<SessionState> {
    match &conn.phase {
        Phase::Handshaking { session, .. } => Some(session.state),
        _ => None,
    }
}

/// Drives a connection with `head` up to the point where the request to connect is out.
fn until_connect_reply(credentials: Credentials, head: &[u8]) -> Connection {
    let conn = Connection::new(credentials);
    let (conn, out) = conn.step(Event::ClientData(head.to_vec()));
    assert_eq!(out, connecting());
    let (conn, _) = conn.step(Event::UpstreamConnected);
    let (conn, _) = conn.step(Event::UpstreamWritten);
    let (conn, _) = conn.step(Event::UpstreamData(vec![5, 0]));
    let (conn, _) = conn.step(Event::UpstreamWritten);
    assert_eq!(state_of(&conn), Some(SessionState::ConnectReply));
    conn
}

#[test]
fn connect_without_auth_reaches_the_relay() {
    let conn = Connection::new(no_credentials());
    assert!(conn.reads_client());
    assert!(!conn.reads_upstream());

    let (conn, out) = conn.step(Event::ClientData(CONNECT_HEAD.to_vec()));
    assert_eq!(out, connecting());
    assert_eq!(state_of(&conn), Some(SessionState::Init));
    assert!(!conn.reads_client());
    assert!(!conn.reads_upstream());

    let (conn, out) = conn.step(Event::UpstreamConnected);
    assert_eq!(out, Output::upstream(vec![0x05, 0x01, 0x00]));
    assert_eq!(state_of(&conn), Some(SessionState::MethodNegotiation));
    assert!(conn.reads_upstream());
    assert!(conn.awaits_server());

    let (conn, out) = conn.step(Event::UpstreamWritten);
    assert_eq!(out, Output::idle());

    let (conn, out) = conn.step(Event::UpstreamData(vec![0x05, 0x00]));
    assert_eq!(out, Output::upstream(connect_request_for_example()));
    assert_eq!(state_of(&conn), Some(SessionState::ConnectRequest));
    assert!(!conn.reads_upstream());

    let (conn, out) = conn.step(Event::UpstreamWritten);
    assert_eq!(out, Output::idle());
    assert_eq!(state_of(&conn), Some(SessionState::ConnectReply));
    assert!(conn.reads_upstream());

    let (conn, out) = conn.step(Event::UpstreamData(OK_REPLY.to_vec()));
    assert_eq!(out, Output::client(b"HTTP/1.1 200 Connection Established\r\n\r\n".to_vec()));
    assert_eq!(conn.phase, Phase::Relaying(Relay::Both));
    assert!(conn.reads_client() && conn.reads_upstream());
    assert!(!conn.awaits_server());
    assert_eq!(conn.outcome(), None);

    let hello: Vec<u8> = vec![0x16, 0x03, 0x01, 0x00, 0xff, 0x00, 0x0d, 0x0a];
    let (conn, out) = conn.step(Event::ClientData(hello.clone()));
    assert_eq!(out, Output::upstream(hello));
    let answer: Vec<u8> = (0..=255u8).rev().collect();
    let (conn, out) = conn.step(Event::UpstreamData(answer.clone()));
    assert_eq!(out, Output::client(answer));
    assert_eq!(conn.phase, Phase::Relaying(Relay::Both));
}

#[test]
fn missing_credentials_get_407_and_nothing_goes_upstream() {
    let conn = Connection::new(Credentials::new("alice", "secret"));
    let (conn, out) = conn.step(Event::ClientData(CONNECT_HEAD.to_vec()));
    assert_eq!(
        out,
        Output::closing(b"HTTP/1.1 407 Proxy Authentication Required\r\n\r\n".to_vec())
    );
    assert!(!out.connect_upstream);
    assert!(out.to_upstream.is_empty());
    assert!(out.close);
    assert_eq!(conn.outcome(), Some(Outcome::Failed(ProxyError::AuthFailure(Peer::Client))));
    for event in [Event::UpstreamConnected, Event::ClientData(b"x".to_vec()), Event::Cancelled] {
        let (after, out) = conn.clone().step(event);
        assert_eq!(out, Output::idle());
        assert_eq!(after.phase, conn.phase);
    }
}

#[test]
fn wrong_credentials_get_407() {
    let head = b"CONNECT example.com:443 HTTP/1.1\r\nProxy-Authorization: Basic YWxpY2U6d3Jvbmc=\r\n\r\n";
    let (conn, out) = Connection::new(Credentials::new("alice", "secret"))
        .step(Event::ClientData(head.to_vec()));
    assert!(out.to_client.starts_with(b"HTTP/1.1 407 "));
    assert!(out.close && !out.connect_upstream && out.to_upstream.is_empty());
    assert_eq!(conn.outcome(), Some(Outcome::Failed(ProxyError::AuthFailure(Peer::Client))));
}

#[test]
fn right_credentials_are_shown_to_the_server_too() {
    let head = b"CONNECT example.com:443 HTTP/1.1\r\nProxy-Authorization: Basic YWxpY2U6c2VjcmV0\r\n\r\n";
    let (conn, out) = Connection::new(Credentials::new("alice", "secret"))
        .step(Event::ClientData(head.to_vec()));
    assert_eq!(out, connecting());
    let (conn, out) = conn.step(Event::UpstreamConnected);
    assert_eq!(out, Output::upstream(vec![5, 2, 0, 2]));
    let (conn, out) = conn.step(Event::UpstreamData(vec![5, 2]));
    let mut shown = vec![1, 5];
    shown.extend_from_slice(b"alice");
    shown.push(6);
    shown.extend_from_slice(b"secret");
    assert_eq!(out, Output::upstream(shown));
    assert_eq!(state_of(&conn), Some(SessionState::AuthSubnegotiation));
    let (conn, out) = conn.step(Event::UpstreamData(vec![1, 0]));
    assert_eq!(out, Output::upstream(connect_request_for_example()));
    let (conn, _) = conn.step(Event::UpstreamWritten);
    let (conn, out) = conn.step(Event::UpstreamData(OK_REPLY.to_vec()));
    assert_eq!(out, Output::client(b"HTTP/1.1 200 Connection Established\r\n\r\n".to_vec()));
    assert_eq!(conn.phase, Phase::Relaying(Relay::Both));
}

#[test]
fn server_may_waive_the_password() {
    let head = b"CONNECT example.com:443 HTTP/1.1\r\nProxy-Authorization: Basic YWxpY2U6c2VjcmV0\r\n\r\n";
    let (conn, _) = Connection::new(Credentials::new("alice", "secret"))
        .step(Event::ClientData(head.to_vec()));
    let (conn, _) = conn.step(Event::UpstreamConnected);
    let (conn, out) = conn.step(Event::UpstreamData(vec![5, 0]));
    assert_eq!(out, Output::upstream(connect_request_for_example()));
    assert_eq!(state_of(&conn), Some(SessionState::ConnectRequest));
}

#[test]
fn server_refusing_the_password_is_an_auth_failure() {
    let head = b"CONNECT example.com:443 HTTP/1.1\r\nProxy-Authorization: Basic YWxpY2U6c2VjcmV0\r\n\r\n";
    let (conn, _) = Connection::new(Credentials::new("alice", "secret"))
        .step(Event::ClientData(head.to_vec()));
    let (conn, _) = conn.step(Event::UpstreamConnected);
    let (conn, _) = conn.step(Event::UpstreamData(vec![5, 2]));
    let (conn, out) = conn.step(Event::UpstreamData(vec![1, 1]));
    assert_eq!(out, Output::closing(b"HTTP/1.1 502 Bad Gateway\r\n\r\n".to_vec()));
    assert_eq!(conn.outcome(), Some(Outcome::Failed(ProxyError::AuthFailure(Peer::Upstream))));
}

#[test]
fn server_choosing_an_unoffered_method_fails_the_negotiation() {
    for method in [2u8, 0xff, 0x80] {
        let (conn, _) = Connection::new(no_credentials()).step(Event::ClientData(CONNECT_HEAD.to_vec()));
        let (conn, _) = conn.step(Event::UpstreamConnected);
        let (conn, out) = conn.step(Event::UpstreamData(vec![5, method]));
        assert_eq!(out, Output::closing(b"HTTP/1.1 502 Bad Gateway\r\n\r\n".to_vec()));
        assert_eq!(
            conn.outcome(),
            Some(Outcome::Failed(ProxyError::SocksNegotiationFailure {
                reason: SocksReason::MethodRefused(method)
            }))
        );
    }
}

#[test]
fn every_refusal_of_the_server_reaches_the_client_as_an_error() {
    for code in 1..=255u8 {
        let conn = until_connect_reply(no_credentials(), CONNECT_HEAD);
        let (conn, out) = conn.step(Event::UpstreamData(vec![5, code, 0, 1, 0, 0, 0, 0, 0, 0]));
        let reason = SocksReason::from_status(code).unwrap();
        assert_eq!(reason.status(), Some(code));
        assert_eq!(
            conn.outcome(),
            Some(Outcome::Failed(ProxyError::SocksNegotiationFailure { reason }))
        );
        let expected: &[u8] = match code {
            3 | 4 | 6 => b"HTTP/1.1 504 Gateway Timeout\r\n\r\n",
            _ => b"HTTP/1.1 502 Bad Gateway\r\n\r\n",
        };
        assert_eq!(out, Output::closing(expected.to_vec()));
        assert!(!out.to_client.starts_with(b"HTTP/1.1 200"));
    }
}

#[test]
fn reply_may_come_in_pieces_and_with_tunnel_bytes_behind_it() {
    let conn = until_connect_reply(no_credentials(), CONNECT_HEAD);
    let (conn, out) = conn.step(Event::UpstreamData(vec![5, 0, 0]));
    assert_eq!(out, Output::idle());
    let (conn, out) = conn.step(Event::UpstreamData(vec![3, 2, b'a']));
    assert_eq!(out, Output::idle());
    let (conn, out) = conn.step(Event::UpstreamData(vec![b'b', 0, 80, b'h', b'i']));
    let mut expected = b"HTTP/1.1 200 Connection Established\r\n\r\n".to_vec();
    expected.extend_from_slice(b"hi");
    assert_eq!(out, Output::client(expected));
    assert_eq!(conn.phase, Phase::Relaying(Relay::Both));
}

#[test]
fn head_may_come_in_pieces_and_with_payload_behind_it() {
    let conn = Connection::new(no_credentials());
    let (conn, out) = conn.step(Event::ClientData(CONNECT_HEAD[..10].to_vec()));
    assert_eq!(out, Output::idle());
    let (conn, out) = conn.step(Event::ClientData(CONNECT_HEAD[10..CONNECT_HEAD.len() - 1].to_vec()));
    assert_eq!(out, Output::idle());
    let mut last = CONNECT_HEAD[CONNECT_HEAD.len() - 1..].to_vec();
    last.extend_from_slice(b"early");
    let (conn, out) = conn.step(Event::ClientData(last));
    assert_eq!(out, connecting());
    let (conn, _) = conn.step(Event::UpstreamConnected);
    let (conn, out) = conn.step(Event::ClientData(b" bird".to_vec()));
    assert_eq!(out, Output::idle());
    let (conn, _) = conn.step(Event::UpstreamData(vec![5, 0]));
    let (conn, _) = conn.step(Event::UpstreamWritten);
    let (conn, out) = conn.step(Event::UpstreamData(OK_REPLY.to_vec()));
    assert_eq!(out.to_upstream, b"early bird".to_vec());
    assert_eq!(out.to_client, b"HTTP/1.1 200 Connection Established\r\n\r\n".to_vec());
    assert_eq!(conn.phase, Phase::Relaying(Relay::Both));
}

#[test]
fn forward_request_goes_upstream_as_it_came() {
    let mut request = b"POST http://example.com:8080/submit HTTP/1.1\r\nHost: example.com:8080\r\nContent-Length: 4\r\n\r\n".to_vec();
    request.extend_from_slice(b"body");
    let (conn, out) = Connection::new(no_credentials()).step(Event::ClientData(request.clone()));
    assert_eq!(out, connecting());
    let (conn, _) = conn.step(Event::UpstreamConnected);
    let (conn, out) = conn.step(Event::UpstreamData(vec![5, 0]));
    let mut asked = vec![5, 1, 0, 3, 11];
    asked.extend_from_slice(b"example.com");
    asked.extend_from_slice(&[0x1f, 0x90]);
    assert_eq!(out, Output::upstream(asked));
    let (conn, _) = conn.step(Event::UpstreamWritten);
    let (conn, out) = conn.step(Event::UpstreamData(OK_REPLY.to_vec()));
    assert_eq!(out, Output::upstream(request));
    assert!(out.to_client.is_empty());
    assert_eq!(conn.phase, Phase::Relaying(Relay::Both));
}

#[test]
fn addresses_are_asked_for_as_addresses() {
    let (conn, _) = Connection::new(no_credentials())
        .step(Event::ClientData(b"CONNECT 192.0.2.7:22 HTTP/1.1\r\n\r\n".to_vec()));
    let (conn, _) = conn.step(Event::UpstreamConnected);
    let (_, out) = conn.step(Event::UpstreamData(vec![5, 0]));
    assert_eq!(out, Output::upstream(vec![5, 1, 0, 1, 192, 0, 2, 7, 0, 22]));

    let (conn, _) = Connection::new(no_credentials())
        .step(Event::ClientData(b"CONNECT [::1]:443 HTTP/1.1\r\n\r\n".to_vec()));
    let (conn, _) = conn.step(Event::UpstreamConnected);
    let (_, out) = conn.step(Event::UpstreamData(vec![5, 0]));
    let mut expected = vec![5, 1, 0, 4];
    expected.extend_from_slice(&[0; 15]);
    expected.extend_from_slice(&[1, 0x01, 0xbb]);
    assert_eq!(out, Output::upstream(expected));
}

#[test]
fn malformed_and_overlong_requests_get_400() {
    let bad = Output::closing(b"HTTP/1.1 400 Bad Request\r\n\r\n".to_vec());
    let (conn, out) = Connection::new(no_credentials())
        .step(Event::ClientData(b"HELLO\r\n\r\n".to_vec()));
    assert_eq!(out, bad);
    assert_eq!(conn.outcome(), Some(Outcome::Failed(ProxyError::ProtocolViolation)));

    let (conn, out) = Connection::new(no_credentials()).step(Event::ClientData(vec![b'a'; 8192]));
    assert_eq!(out, bad);
    assert_eq!(conn.outcome(), Some(Outcome::Failed(ProxyError::ProtocolViolation)));

    let (conn, out) = Connection::new(no_credentials()).step(Event::ClientData(vec![b'a'; 8191]));
    assert_eq!(out, Output::idle());
    let (conn, out) = conn.step(Event::ClientData(vec![b'a']));
    assert_eq!(out, bad);
    assert!(conn.outcome().is_some());

    let (conn, out) = Connection::new(no_credentials()).step(Event::ClientData(b"CONNECT a:1".to_vec()));
    assert_eq!(out, Output::idle());
    let (_, out) = conn.step(Event::ClientEof);
    assert_eq!(out, bad);
}

#[test]
fn unreachable_server_gets_502() {
    let (conn, _) = Connection::new(no_credentials()).step(Event::ClientData(CONNECT_HEAD.to_vec()));
    let (after, out) = conn.clone().step(Event::UpstreamUnreachable);
    assert_eq!(out, Output::closing(b"HTTP/1.1 502 Bad Gateway\r\n\r\n".to_vec()));
    assert_eq!(after.outcome(), Some(Outcome::Failed(ProxyError::UpstreamUnreachable)));
    let (after, out) = conn.step(Event::TimedOut);
    assert_eq!(out, Output::closing(b"HTTP/1.1 502 Bad Gateway\r\n\r\n".to_vec()));
    assert_eq!(after.outcome(), Some(Outcome::Failed(ProxyError::UpstreamUnreachable)));
}

#[test]
fn silent_server_gets_504() {
    let (conn, _) = Connection::new(no_credentials()).step(Event::ClientData(CONNECT_HEAD.to_vec()));
    let (conn, _) = conn.step(Event::UpstreamConnected);
    let (conn, out) = conn.step(Event::TimedOut);
    assert_eq!(out, Output::closing(b"HTTP/1.1 504 Gateway Timeout\r\n\r\n".to_vec()));
    assert_eq!(
        conn.outcome(),
        Some(Outcome::Failed(ProxyError::SocksNegotiationFailure { reason: SocksReason::TimedOut }))
    );
}

#[test]
fn server_hanging_up_or_talking_nonsense_gets_502() {
    let bad_gateway = Output::closing(b"HTTP/1.1 502 Bad Gateway\r\n\r\n".to_vec());
    let conn = until_connect_reply(no_credentials(), CONNECT_HEAD);
    let (after, out) = conn.clone().step(Event::UpstreamEof);
    assert_eq!(out, bad_gateway);
    assert_eq!(after.outcome(), Some(Outcome::Failed(ProxyError::IOError(Peer::Upstream))));
    let (after, out) = conn.clone().step(Event::UpstreamError);
    assert_eq!(out, bad_gateway);
    assert_eq!(after.outcome(), Some(Outcome::Failed(ProxyError::IOError(Peer::Upstream))));
    let (after, out) = conn.step(Event::UpstreamData(vec![4, 0]));
    assert_eq!(out, bad_gateway);
    assert_eq!(
        after.outcome(),
        Some(Outcome::Failed(ProxyError::SocksNegotiationFailure { reason: SocksReason::Malformed }))
    );
}

#[test]
fn cancellation_closes_in_every_stage_and_only_once() {
    let reading = Connection::new(no_credentials());
    let (handshaking, _) = reading.clone().step(Event::ClientData(CONNECT_HEAD.to_vec()));
    let waiting = until_connect_reply(no_credentials(), CONNECT_HEAD);
    let (relaying, _) = waiting.clone().step(Event::UpstreamData(OK_REPLY.to_vec()));
    for conn in [reading, handshaking, waiting, relaying] {
        let (once, out) = conn.step(Event::Cancelled);
        assert_eq!(out, Output::closing(Vec::new()));
        assert_eq!(once.outcome(), Some(Outcome::Failed(ProxyError::Cancelled)));
        let (twice, out) = once.clone().step(Event::Cancelled);
        assert_eq!(out, Output::idle());
        assert_eq!(twice.phase, once.phase);
    }
}

#[test]
fn client_errors_close_without_a_response() {
    let reading = Connection::new(no_credentials());
    let (handshaking, _) = reading.clone().step(Event::ClientData(CONNECT_HEAD.to_vec()));
    for conn in [reading, handshaking] {
        let (after, out) = conn.step(Event::ClientError);
        assert_eq!(out, Output::closing(Vec::new()));
        assert_eq!(after.outcome(), Some(Outcome::Failed(ProxyError::IOError(Peer::Client))));
    }
}

#[test]
fn client_ending_its_stream_during_the_handshake_is_passed_on() {
    let (conn, _) = Connection::new(no_credentials()).step(Event::ClientData(CONNECT_HEAD.to_vec()));
    let (conn, _) = conn.step(Event::UpstreamConnected);
    let (conn, out) = conn.step(Event::ClientEof);
    assert_eq!(out, Output::idle());
    let (conn, _) = conn.step(Event::UpstreamData(vec![5, 0]));
    let (conn, _) = conn.step(Event::UpstreamWritten);
    let (conn, out) = conn.step(Event::UpstreamData(OK_REPLY.to_vec()));
    assert!(out.shutdown_upstream);
    assert!(!out.close);
    assert_eq!(conn.phase, Phase::Relaying(Relay::UpstreamOnly));
    let (conn, out) = conn.step(Event::UpstreamData(b"response".to_vec()));
    assert_eq!(out, Output::client(b"response".to_vec()));
    let (conn, out) = conn.step(Event::UpstreamEof);
    assert!(out.close);
    assert_eq!(conn.outcome(), Some(Outcome::Finished));
}

#[test]
fn half_close_in_the_relay() {
    let conn = until_connect_reply(no_credentials(), CONNECT_HEAD);
    let (conn, _) = conn.step(Event::UpstreamData(OK_REPLY.to_vec()));
    let (conn, _) = conn.step(Event::ClientData(b"request".to_vec()));
    let (conn, out) = conn.step(Event::ClientEof);
    assert!(out.shutdown_upstream && !out.close && !out.shutdown_client);
    assert!(!conn.reads_client());
    assert!(conn.reads_upstream());
    let (conn, out) = conn.step(Event::UpstreamData(b"all of the response".to_vec()));
    assert_eq!(out, Output::client(b"all of the response".to_vec()));
    let (conn, out) = conn.step(Event::UpstreamEof);
    assert_eq!(out, Output::closing(Vec::new()));
    assert_eq!(conn.outcome(), Some(Outcome::Finished));
}

#[test]
fn session_alone_follows_the_same_path() {
    let session = SocksSession::new(&no_credentials(), b"example.com", 443);
    assert_eq!(session.state, SessionState::Init);
    assert!(!session.offer_password);
    assert_eq!(session.auth_message, None);
    assert_eq!(session.connect_message, Some(connect_request_for_example()));
    let (session, out) = session.step(Event::UpstreamConnected);
    assert_eq!(out, Output::upstream(vec![5, 1, 0]));
    let (session, _) = session.step(Event::UpstreamData(vec![5]));
    assert_eq!(session.state, SessionState::MethodNegotiation);
    let (session, out) = session.step(Event::UpstreamData(vec![0]));
    assert_eq!(out, Output::upstream(connect_request_for_example()));
    assert_eq!(session.state, SessionState::ConnectRequest);
    assert_eq!(session.connect_message, None);
    let (session, _) = session.step(Event::UpstreamWritten);
    assert_eq!(session.state, SessionState::ConnectReply);
    let (session, _) = session.step(Event::UpstreamData(OK_REPLY.to_vec()));
    assert_eq!(session.state, SessionState::Established);
    assert!(session.is_over());
    let (session, out) = session.step(Event::Cancelled);
    assert_eq!(out, Output::idle());
    assert_eq!(session.state, SessionState::Established);
}

#[test]
fn session_with_credentials_too_long_to_frame_fails_when_asked_for_them() {
    let long = "x".repeat(300);
    let session = SocksSession::new(&Credentials::new(&long, "p"), b"example.com", 443);
    assert!(session.offer_password);
    assert_eq!(session.auth_message, None);
    let (session, _) = session.step(Event::UpstreamConnected);
    let (session, _) = session.step(Event::UpstreamData(vec![5, 2]));
    assert_eq!(session.state, SessionState::Failed(ProxyError::AuthFailure(Peer::Upstream)));
}

#[test]
fn session_for_a_name_it_cannot_frame_fails() {
    let name = vec![b'a'; 256];
    let session = SocksSession::new(&no_credentials(), &name, 80);
    assert_eq!(session.connect_message, None);
    let (session, _) = session.step(Event::UpstreamConnected);
    let (session, _) = session.step(Event::UpstreamData(vec![5, 0]));
    assert_eq!(session.state, SessionState::Failed(ProxyError::ProtocolViolation));
}

#[test]
fn everything_sent_is_carried_in_order() {
    let conn = until_connect_reply(no_credentials(), CONNECT_HEAD);
    let (mut conn, first) = conn.step(Event::UpstreamData(OK_REPLY.to_vec()));
    let mut to_client = first.to_client;
    let mut to_upstream = first.to_upstream;
    let mut from_client: Vec<u8> = Vec::new();
    let mut from_upstream: Vec<u8> = Vec::new();
    for round in 0..64u32 {
        let chunk: Vec<u8> = (0..(round % 7 + 1)).map(|i| (round * 31 + i * 7) as u8).collect();
        let event = if round % 3 == 0 {
            from_upstream.extend_from_slice(&chunk);
            Event::UpstreamData(chunk)
        } else if round == 40 {
            Event::ClientEof
        } else if round < 40 {
            from_client.extend_from_slice(&chunk);
            Event::ClientData(chunk)
        } else {
            Event::UpstreamWritten
        };
        let (next, out) = conn.step(event);
        assert!(!out.close && !out.connect_upstream);
        to_client.extend_from_slice(&out.to_client);
        to_upstream.extend_from_slice(&out.to_upstream);
        conn = next;
    }
    let mut expected_to_client = b"HTTP/1.1 200 Connection Established\r\n\r\n".to_vec();
    expected_to_client.extend_from_slice(&from_upstream);
    assert_eq!(to_client, expected_to_client);
    assert_eq!(to_upstream, from_client);
    assert_eq!(conn.phase, Phase::Relaying(Relay::UpstreamOnly));
    let (conn, out) = conn.step(Event::UpstreamEof);
    assert!(out.close);
    assert_eq!(conn.outcome(), Some(Outcome::Finished));
}
