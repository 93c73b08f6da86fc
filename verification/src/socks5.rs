//! The SOCKS5 messages of a client (RFC 1928) and of its user name and
//! password subnegotiation (RFC 1929).

use crate::addr::{parse_ipv4, parse_ipv4_spec, parse_ipv6, parse_ipv6_spec};
use crate::config::{field_bytes, Credentials};
use crate::error::{Peer, ProxyError, SocksReason};
use vstd::prelude::*;
use vstd::slice::*;
use vstd::string::*;

verus! {

/// The version byte of SOCKS5.
pub const VERSION: u8 = 5;

/// The version byte of the user name and password subnegotiation.
pub const AUTH_VERSION: u8 = 1;

/// The method "no authentication required".
pub const METHOD_NONE: u8 = 0;

/// The method "user name and password".
pub const METHOD_PASSWORD: u8 = 2;

/// The command `CONNECT`.
pub const COMMAND_CONNECT: u8 = 1;

/// The address type of an IPv4 address.
pub const ATYP_V4: u8 = 1;

/// The address type of a domain name.
pub const ATYP_DOMAIN: u8 = 3;

/// The address type of an IPv6 address.
pub const ATYP_V6: u8 = 4;

/// An authentication method that this client can use.
#[derive(Debug, Clone, Copy, PartialEq, Eq, Structural)]
pub enum AuthMethod {
    NoAuth,
    UserPass,
}

/// The greeting: the version, the number of methods offered, and the methods.
/// "No authentication" is always offered, "user name and password" as well
/// where `offer_password` says so.
pub open spec fn greeting_spec(offer_password: bool) -> Seq<u8> {
    if offer_password {
        seq![VERSION, 2, METHOD_NONE, METHOD_PASSWORD]
    } else {
        seq![VERSION, 1, METHOD_NONE]
    }
}

/// Builds the greeting.
pub fn greeting(offer_password: bool) -> (r: Vec<u8>)
    ensures
        r@ == greeting_spec(offer_password),
{
    let mut out: Vec<u8> = Vec::new();
    out.push(VERSION);
    if offer_password {
        out.push(2);
        out.push(METHOD_NONE);
        out.push(METHOD_PASSWORD);
    } else {
        out.push(1);
        out.push(METHOD_NONE);
    }
    assert(out@ =~= greeting_spec(offer_password));
    out
}

/// What the server's answer to the greeting means: the method it chose, if
/// that was offered.
pub open spec fn method_reply_spec(version: u8, method: u8, offered_password: bool) -> Result<
    AuthMethod,
    ProxyError,
> {
    if version != VERSION {
        Err(ProxyError::SocksNegotiationFailure { reason: SocksReason::Malformed })
    } else if method == METHOD_NONE {
        Ok(AuthMethod::NoAuth)
    } else if method == METHOD_PASSWORD && offered_password {
        Ok(AuthMethod::UserPass)
    } else {
        Err(ProxyError::SocksNegotiationFailure { reason: SocksReason::MethodRefused(method) })
    }
}

/// Reads the server's answer to the greeting.
pub fn parse_method_reply(version: u8, method: u8, offered_password: bool) -> (r: Result<
    AuthMethod,
    ProxyError,
>)
    ensures
        r == method_reply_spec(version, method, offered_password),
{
    if version != VERSION {
        Err(ProxyError::SocksNegotiationFailure { reason: SocksReason::Malformed })
    } else if method == METHOD_NONE {
        Ok(AuthMethod::NoAuth)
    } else if method == METHOD_PASSWORD && offered_password {
        Ok(AuthMethod::UserPass)
    } else {
        Err(ProxyError::SocksNegotiationFailure { reason: SocksReason::MethodRefused(method) })
    }
}

/// The subnegotiation request: its version, then user name and password, each
/// behind a byte that holds its length. Neither can be longer than 255 bytes.
pub open spec fn auth_request_spec(user: Seq<u8>, password: Seq<u8>) -> Option<Seq<u8>> {
    if user.len() <= 255 && password.len() <= 255 {
        Some(seq![AUTH_VERSION, user.len() as u8] + user + seq![password.len() as u8] + password)
    } else {
        None
    }
}

/// The bytes of an optional string.
fn bytes_of(field: &Option<String>) -> (r: Vec<u8>)
    ensures
        r@ == field_bytes(*field),
{
    match field {
        Some(s) => slice_to_vec(s.as_str().as_bytes()),
        None => Vec::new(),
    }
}

/// Builds the subnegotiation request for `credentials`; `None` where user name
/// or password is too long for it.
pub fn auth_request(credentials: &Credentials) -> (r: Option<Vec<u8>>)
    ensures
        match r {
            Some(m) => auth_request_spec(
                field_bytes(credentials.username),
                field_bytes(credentials.password),
            ) == Some(m@),
            None => auth_request_spec(
                field_bytes(credentials.username),
                field_bytes(credentials.password),
            ) is None,
        },
{
    let user = bytes_of(&credentials.username);
    let password = bytes_of(&credentials.password);
    if user.len() > 255 || password.len() > 255 {
        return None;
    }
    let mut out: Vec<u8> = Vec::new();
    out.push(AUTH_VERSION);
    out.push(user.len() as u8);
    out.extend_from_slice(user.as_slice());
    out.push(password.len() as u8);
    out.extend_from_slice(password.as_slice());
    assert(out@ =~= seq![AUTH_VERSION, user@.len() as u8] + user@ + seq![password@.len() as u8]
        + password@);
    Some(out)
}

/// What the server's answer to the subnegotiation means: success is the
/// status `0x00`; any other status is a refusal of the credentials.
pub open spec fn auth_reply_spec(version: u8, status: u8) -> Result<(), ProxyError> {
    if version != AUTH_VERSION {
        Err(ProxyError::SocksNegotiationFailure { reason: SocksReason::Malformed })
    } else if status == 0 {
        Ok(())
    } else {
        Err(ProxyError::AuthFailure(Peer::Upstream))
    }
}

/// Reads the server's answer to the subnegotiation.
pub fn parse_auth_reply(version: u8, status: u8) -> (r: Result<(), ProxyError>)
    ensures
        r == auth_reply_spec(version, status),
{
    if version != AUTH_VERSION {
        Err(ProxyError::SocksNegotiationFailure { reason: SocksReason::Malformed })
    } else if status == 0 {
        Ok(())
    } else {
        Err(ProxyError::AuthFailure(Peer::Upstream))
    }
}

/// The target of a tunnel, as SOCKS5 tells address types apart.
#[derive(Debug, Clone, PartialEq, Eq)]
pub enum TargetAddr {
    V4([u8; 4]),
    V6([u8; 16]),
    Domain(Vec<u8>),
}

/// A target as plain values.
#[verifier::ext_equal]
pub ghost enum TargetView {
    V4(Seq<u8>),
    V6(Seq<u8>),
    Domain(Seq<u8>),
}

impl View for TargetAddr {
    type V = TargetView;

    open spec fn view(&self) -> TargetView {
        match self {
            TargetAddr::V4(a) => TargetView::V4(a@),
            TargetAddr::V6(a) => TargetView::V6(a@),
            TargetAddr::Domain(d) => TargetView::Domain(d@),
        }
    }
}

/// The target that a host stands for: an IPv4 address where it reads as a
/// dotted quad, an IPv6 address where it reads as one, a domain name otherwise.
pub open spec fn classify_spec(host: Seq<u8>) -> TargetView {
    match parse_ipv4_spec(host) {
        Some(a) => TargetView::V4(a),
        None => match parse_ipv6_spec(host) {
            Some(a) => TargetView::V6(a),
            None => TargetView::Domain(host),
        },
    }
}

/// Tells what kind of target a host is.
pub fn classify(host: &[u8]) -> (r: TargetAddr)
    ensures
        r@ == classify_spec(host@),
{
    match parse_ipv4(host) {
        Some(a) => TargetAddr::V4(a),
        None => match parse_ipv6(host) {
            Some(a) => TargetAddr::V6(a),
            None => TargetAddr::Domain(slice_to_vec(host)),
        },
    }
}

/// The address of a request or reply: the address type, then four bytes, or
/// sixteen, or a length byte and a name of 1 to 255 bytes.
pub open spec fn address_spec(target: TargetView) -> Option<Seq<u8>> {
    match target {
        TargetView::V4(a) => Some(seq![ATYP_V4] + a),
        TargetView::V6(a) => Some(seq![ATYP_V6] + a),
        TargetView::Domain(d) => if 1 <= d.len() <= 255 {
            Some(seq![ATYP_DOMAIN, d.len() as u8] + d)
        } else {
            None
        },
    }
}

/// The two bytes of a port, high byte first.
pub open spec fn port_bytes(port: u16) -> Seq<u8> {
    seq![(port / 256) as u8, (port % 256) as u8]
}

/// The request to connect to `target` at `port`: version, command `CONNECT`,
/// a reserved zero, the address and the port.
pub open spec fn connect_request_spec(target: TargetView, port: u16) -> Option<Seq<u8>> {
    match address_spec(target) {
        Some(address) => Some(seq![VERSION, COMMAND_CONNECT, 0] + address + port_bytes(port)),
        None => None,
    }
}

/// Builds the request to connect to `target` at `port`; `None` where the
/// target is a name that is empty or longer than 255 bytes.
pub fn connect_request(target: &TargetAddr, port: u16) -> (r: Option<Vec<u8>>)
    ensures
        match r {
            Some(m) => connect_request_spec(target@, port) == Some(m@),
            None => connect_request_spec(target@, port) is None,
        },
{
    let mut out: Vec<u8> = Vec::new();
    out.push(VERSION);
    out.push(COMMAND_CONNECT);
    out.push(0);
    match target {
        TargetAddr::V4(a) => {
            out.push(ATYP_V4);
            out.extend_from_slice(a.as_slice());
        },
        TargetAddr::V6(a) => {
            out.push(ATYP_V6);
            out.extend_from_slice(a.as_slice());
        },
        TargetAddr::Domain(d) => {
            if d.len() < 1 || d.len() > 255 {
                return None;
            }
            out.push(ATYP_DOMAIN);
            out.push(d.len() as u8);
            out.extend_from_slice(d.as_slice());
        },
    }
    out.push((port / 256) as u8);
    out.push((port % 256) as u8);
    assert(out@ =~= connect_request_spec(target@, port)->0);
    Some(out)
}

/// What a buffer of received bytes holds of the reply to a request.
#[derive(Debug, Clone, Copy, PartialEq, Eq, Structural)]
pub enum ReplyStatus {
    /// The reply has not arrived in full.
    Incomplete,
    /// The bytes are no SOCKS5 reply.
    Malformed,
    /// The reply is the first `len` bytes of the buffer and carries `status`.
    Complete { len: usize, status: u8 },
}

/// The reply at the start of `buf`: version, status, a reserved byte, and the
/// address and port that the server bound, whose kind says how long the reply
/// is. The bound address is read over and not looked at.
pub open spec fn parse_reply_spec(buf: Seq<u8>) -> ReplyStatus {
    if buf.len() >= 1 && buf[0] != VERSION {
        ReplyStatus::Malformed
    } else if buf.len() < 4 {
        ReplyStatus::Incomplete
    } else if buf[3] == ATYP_V4 {
        if buf.len() >= 10 {
            ReplyStatus::Complete { len: 10, status: buf[1] }
        } else {
            ReplyStatus::Incomplete
        }
    } else if buf[3] == ATYP_V6 {
        if buf.len() >= 22 {
            ReplyStatus::Complete { len: 22, status: buf[1] }
        } else {
            ReplyStatus::Incomplete
        }
    } else if buf[3] == ATYP_DOMAIN {
        if buf.len() >= 5 && buf.len() >= 7 + buf[4] {
            ReplyStatus::Complete { len: (7 + buf[4]) as usize, status: buf[1] }
        } else {
            ReplyStatus::Incomplete
        }
    } else {
        ReplyStatus::Malformed
    }
}

/// Reads the reply to a request from the start of `buf`.
pub fn parse_reply(buf: &[u8]) -> (r: ReplyStatus)
    ensures
        r == parse_reply_spec(buf@),
        r matches ReplyStatus::Complete { len, status } ==> len <= buf@.len(),
{
    let n = buf.len();
    if n >= 1 && buf[0] != VERSION {
        ReplyStatus::Malformed
    } else if n < 4 {
        ReplyStatus::Incomplete
    } else if buf[3] == ATYP_V4 {
        if n >= 10 {
            ReplyStatus::Complete { len: 10, status: buf[1] }
        } else {
            ReplyStatus::Incomplete
        }
    } else if buf[3] == ATYP_V6 {
        if n >= 22 {
            ReplyStatus::Complete { len: 22, status: buf[1] }
        } else {
            ReplyStatus::Incomplete
        }
    } else if buf[3] == ATYP_DOMAIN {
        if n >= 5 && n >= 7 + buf[4] as usize {
            ReplyStatus::Complete { len: 7 + buf[4] as usize, status: buf[1] }
        } else {
            ReplyStatus::Incomplete
        }
    } else {
        ReplyStatus::Malformed
    }
}

/// The port that two bytes spell, high byte first.
pub open spec fn port_of(high: u8, low: u8) -> u16 {
    (high * 256 + low) as u16
}

/// The address and port that the server says it bound, where `buf` starts
/// with a complete reply. They are for the record only: nothing is checked
/// against them.
pub open spec fn bound_address_spec(buf: Seq<u8>) -> Option<(TargetView, u16)> {
    match parse_reply_spec(buf) {
        ReplyStatus::Complete { len, status } => {
            let port = port_of(buf[len - 2], buf[len - 1]);
            if buf[3] == ATYP_V4 {
                Some((TargetView::V4(buf.subrange(4, 8)), port))
            } else if buf[3] == ATYP_V6 {
                Some((TargetView::V6(buf.subrange(4, 20)), port))
            } else {
                Some((TargetView::Domain(buf.subrange(5, len - 2)), port))
            }
        },
        _ => None,
    }
}

/// Reads the address and port that the server says it bound from the reply
/// at the start of `buf`.
pub fn bound_address(buf: &[u8]) -> (r: Option<(TargetAddr, u16)>)
    ensures
        match r {
            Some((address, port)) => bound_address_spec(buf@) == Some((address@, port)),
            None => bound_address_spec(buf@) is None,
        },
{
    match parse_reply(buf) {
        ReplyStatus::Complete { len, status } => {
            let port = (buf[len - 2] as u16) * 256 + buf[len - 1] as u16;
            if buf[3] == ATYP_V4 {
                let quad = [buf[4], buf[5], buf[6], buf[7]];
                assert(quad@ =~= buf@.subrange(4, 8));
                Some((TargetAddr::V4(quad), port))
            } else if buf[3] == ATYP_V6 {
                let mut address = [0u8; 16];
                let mut i: usize = 0;
                while i < 16
                    invariant
                        i <= 16,
                        buf@.len() >= 22,
                        forall|j: int| 0 <= j < i ==> address@[j] == buf@[4 + j],
                    decreases 16 - i,
                {
                    address[i] = buf[4 + i];
                    i += 1;
                }
                assert(address@ =~= buf@.subrange(4, 20));
                Some((TargetAddr::V6(address), port))
            } else {
                let name = slice_to_vec(slice_subrange(buf, 5, len - 2));
                Some((TargetAddr::Domain(name), port))
            }
        },
        _ => None,
    }
}

/// What a reply's status means: the tunnel stands on `0x00`; any other status
/// is a failure whose reason is the one that RFC 1928 gives the code.
pub open spec fn reply_outcome_spec(status: u8) -> Result<(), ProxyError> {
    if status == 0 {
        Ok(())
    } else {
        Err(ProxyError::SocksNegotiationFailure { reason: SocksReason::of_status(status) })
    }
}

/// Maps a reply's status to success or to the failure it stands for.
pub fn reply_outcome(status: u8) -> (r: Result<(), ProxyError>)
    ensures
        r == reply_outcome_spec(status),
{
    match SocksReason::from_status(status) {
        None => Ok(()),
        Some(reason) => Err(ProxyError::SocksNegotiationFailure { reason }),
    }
}

} // verus!
