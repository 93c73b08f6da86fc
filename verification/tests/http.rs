use socks_hub::config::Credentials;
use socks_hub::error::ProxyError;
use socks_hub::http::{
    authorized, locate_head, parse_head, HeadStatus, Method, ProxyRequest, MAX_HEAD,
};

fn request(method: Method, host: &[u8], port: u16, auth: Option<&[u8]>) -> ProxyRequest {
    ProxyRequest {
        method,
        target_host: host.to_vec(),
        target_port: port,
        proxy_authorization: auth.map(|a| a.to_vec()),
    }
}

#[test]
fn connect_request_is_parsed() {
    let head = b"CONNECT example.com:443 HTTP/1.1\r\nHost: example.com:443\r\n\r\n";
    assert_eq!(locate_head(head), HeadStatus::Complete(head.len()));
    assert_eq!(parse_head(head), Ok(request(Method::Connect, b"example.com", 443, None)));
}

#[test]
fn forward_request_is_parsed_with_default_port() {
    let head = b"GET http://example.com/index.html?x=1 HTTP/1.1\r\nHost: example.com\r\n\r\n";
    assert_eq!(parse_head(head), Ok(request(Method::Forward, b"example.com", 80, None)));
}

#[test]
fn forward_request_with_port_and_without_path() {
    let head = b"POST HTTP://Example.com:8080?q HTTP/1.0\r\n\r\n";
    assert_eq!(parse_head(head), Ok(request(Method::Forward, b"Example.com", 8080, None)));
}

#[test]
fn proxy_authorization_header_is_found_in_any_case() {
    let head = b"CONNECT example.com:443 HTTP/1.1\r\nHost: x\r\nproxy-AUTHORIZATION: \t Basic YWxpY2U6c2VjcmV0 \r\nProxy-Authorization: second\r\n\r\n";
    assert_eq!(
        parse_head(head),
        Ok(request(Method::Connect, b"example.com", 443, Some(b"Basic YWxpY2U6c2VjcmV0")))
    );
}

#[test]
fn ipv6_targets_stand_in_brackets() {
    let head = b"CONNECT [2001:db8::1]:8443 HTTP/1.1\r\n\r\n";
    assert_eq!(parse_head(head), Ok(request(Method::Connect, b"2001:db8::1", 8443, None)));
    let fwd = b"GET http://[::1]/ HTTP/1.1\r\n\r\n";
    assert_eq!(parse_head(fwd), Ok(request(Method::Forward, b"::1", 80, None)));
    let bad = b"CONNECT [2001:db8::zz]:8443 HTTP/1.1\r\n\r\n";
    assert_eq!(parse_head(bad), Err(ProxyError::ProtocolViolation));
}

#[test]
fn malformed_heads_are_protocol_violations() {
    let cases: Vec<&[u8]> = vec![
        b"\r\n\r\n",
        b"CONNECT example.com:443\r\n\r\n",
        b"CONNECT example.com HTTP/1.1\r\n\r\n",
        b"CONNECT example.com:70000 HTTP/1.1\r\n\r\n",
        b"CONNECT example.com:443 HTTP/2.0\r\n\r\n",
        b"CONNECT  example.com:443 HTTP/1.1\r\n\r\n",
        b"CONNECT example.com:443 HTTP/1.1\r\nno colon here\r\n\r\n",
        b"CONNECT example.com:443 HTTP/1.1\r\nBad Name: x\r\n\r\n",
        b"CONNECT example.com:443 HTTP/1.1\r\n: x\r\n\r\n",
        b"CONNECT exa mple.com:443 HTTP/1.1\r\n\r\n",
        b"CONNECT :443 HTTP/1.1\r\n\r\n",
        b"CONNECT user@example.com:443 HTTP/1.1\r\n\r\n",
        b"GET / HTTP/1.1\r\nHost: example.com\r\n\r\n",
        b"GET ftp://example.com/ HTTP/1.1\r\n\r\n",
        b"GET http:///path HTTP/1.1\r\n\r\n",
        b"CONNECT example.com:443 HTTP/1.1\r\nA: b\r\n",
        b"CONNECT example.com:443 HTTP/1.1\r\nA: b\r\n\r\nextra",
        b"CONNECT example.com:443 HTTP/1.1\r\nA: b\x01\r\n\r\n",
        b"CONNECT example.com:443 HTTP/1.1",
        b"",
    ];
    for head in cases {
        assert_eq!(parse_head(head), Err(ProxyError::ProtocolViolation), "{:?}", head);
    }
}

#[test]
fn head_is_located_behind_the_first_blank_line() {
    assert_eq!(locate_head(b""), HeadStatus::Incomplete);
    assert_eq!(locate_head(b"GET http://a/ HTTP/1.1\r\nA: b\r\n"), HeadStatus::Incomplete);
    assert_eq!(locate_head(b"\r\n\r\n"), HeadStatus::Complete(4));
    assert_eq!(locate_head(b"ab\r\n\r\ncd\r\n\r\n"), HeadStatus::Complete(6));
}

#[test]
fn head_must_end_within_the_limit() {
    let mut buf = vec![b'a'; MAX_HEAD - 4];
    buf.extend_from_slice(b"\r\n\r\n");
    assert_eq!(locate_head(&buf), HeadStatus::Complete(MAX_HEAD));
    let mut long = vec![b'a'; MAX_HEAD - 3];
    long.extend_from_slice(b"\r\n\r\n");
    assert_eq!(locate_head(&long), HeadStatus::TooLong);
    assert_eq!(locate_head(&vec![b'a'; MAX_HEAD - 1]), HeadStatus::Incomplete);
    assert_eq!(locate_head(&vec![b'a'; MAX_HEAD]), HeadStatus::TooLong);
}

#[test]
fn empty_credentials_authorize_everyone() {
    let none = Credentials { username: None, password: None };
    assert!(authorized(&none, &request(Method::Connect, b"h", 1, None)));
    assert!(authorized(&none, &request(Method::Connect, b"h", 1, Some(b"garbage"))));
}

#[test]
fn configured_credentials_demand_the_matching_header() {
    let creds = Credentials::new("alice", "secret");
    assert!(!authorized(&creds, &request(Method::Connect, b"h", 1, None)));
    assert!(authorized(&creds, &request(Method::Connect, b"h", 1, Some(b"Basic YWxpY2U6c2VjcmV0"))));
    assert!(authorized(&creds, &request(Method::Connect, b"h", 1, Some(b"bAsIc   YWxpY2U6c2VjcmV0"))));
    assert!(!authorized(&creds, &request(Method::Connect, b"h", 1, Some(b"Basic YWxpY2U6c2VjcmV1"))));
    assert!(!authorized(&creds, &request(Method::Connect, b"h", 1, Some(b"Basic"))));
    assert!(!authorized(&creds, &request(Method::Connect, b"h", 1, Some(b"BasicYWxpY2U6c2VjcmV0"))));
    assert!(!authorized(&creds, &request(Method::Connect, b"h", 1, Some(b"Bearer YWxpY2U6c2VjcmV0"))));
    assert!(!authorized(&creds, &request(Method::Connect, b"h", 1, Some(b"Basic YWxpY2U6c2VjcmV0="))));
    assert!(!authorized(&creds, &request(Method::Connect, b"h", 1, Some(b"Basic !!!!"))));
}

#[test]
fn empty_strings_are_credentials_too() {
    let creds = Credentials::new("", "");
    assert!(!authorized(&creds, &request(Method::Connect, b"h", 1, None)));
    assert!(authorized(&creds, &request(Method::Connect, b"h", 1, Some(b"Basic Og=="))));
}
