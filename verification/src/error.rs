//! Why a proxied connection ended.

use vstd::prelude::*;

verus! {

/// One of the two sides of a proxied connection.
#[derive(Debug, Clone, Copy, PartialEq, Eq, Structural)]
pub enum Peer {
    /// The HTTP client.
    Client,
    /// The SOCKS5 server.
    Upstream,
}

/// Why the SOCKS5 negotiation failed.
#[derive(Debug, Clone, Copy, PartialEq, Eq, Structural)]
pub enum SocksReason {
    /// Reply `0x01`: general SOCKS server failure.
    GeneralFailure,
    /// Reply `0x02`: connection not allowed by ruleset.
    RuleDenied,
    /// Reply `0x03`: network unreachable.
    NetworkUnreachable,
    /// Reply `0x04`: host unreachable.
    HostUnreachable,
    /// Reply `0x05`: connection refused.
    ConnectionRefused,
    /// Reply `0x06`: TTL expired.
    TtlExpired,
    /// Reply `0x07`: command not supported.
    CommandNotSupported,
    /// Reply `0x08`: address type not supported.
    AddressTypeNotSupported,
    /// A reply code that RFC 1928 leaves unassigned, `0x09` and above.
    Unassigned(u8),
    /// The server chose an authentication method that was not offered; the
    /// byte is the method it named (`0xff`: none acceptable).
    MethodRefused(u8),
    /// The server sent something that is no SOCKS5 message.
    Malformed,
    /// The server did not answer in time.
    TimedOut,
}

impl SocksReason {
    /// The reason that a reply code other than `0x00` stands for.
    pub open spec fn of_status(code: u8) -> SocksReason {
        if code == 1 {
            SocksReason::GeneralFailure
        } else if code == 2 {
            SocksReason::RuleDenied
        } else if code == 3 {
            SocksReason::NetworkUnreachable
        } else if code == 4 {
            SocksReason::HostUnreachable
        } else if code == 5 {
            SocksReason::ConnectionRefused
        } else if code == 6 {
            SocksReason::TtlExpired
        } else if code == 7 {
            SocksReason::CommandNotSupported
        } else if code == 8 {
            SocksReason::AddressTypeNotSupported
        } else {
            SocksReason::Unassigned(code)
        }
    }

    /// The reply code behind a reason, where the reason came from one.
    pub open spec fn status_spec(self) -> Option<u8> {
        match self {
            SocksReason::GeneralFailure => Some(1u8),
            SocksReason::RuleDenied => Some(2u8),
            SocksReason::NetworkUnreachable => Some(3u8),
            SocksReason::HostUnreachable => Some(4u8),
            SocksReason::ConnectionRefused => Some(5u8),
            SocksReason::TtlExpired => Some(6u8),
            SocksReason::CommandNotSupported => Some(7u8),
            SocksReason::AddressTypeNotSupported => Some(8u8),
            SocksReason::Unassigned(code) => Some(code),
            SocksReason::MethodRefused(_) => None,
            SocksReason::Malformed => None,
            SocksReason::TimedOut => None,
        }
    }

    /// Maps the status byte of a SOCKS5 reply: `None` for success (`0x00`), the
    /// reason for any other code.
    pub fn from_status(code: u8) -> (r: Option<SocksReason>)
        ensures
            code == 0 ==> r is None,
            code != 0 ==> r == Some(Self::of_status(code)),
    {
        match code {
            0 => None,
            1 => Some(SocksReason::GeneralFailure),
            2 => Some(SocksReason::RuleDenied),
            3 => Some(SocksReason::NetworkUnreachable),
            4 => Some(SocksReason::HostUnreachable),
            5 => Some(SocksReason::ConnectionRefused),
            6 => Some(SocksReason::TtlExpired),
            7 => Some(SocksReason::CommandNotSupported),
            8 => Some(SocksReason::AddressTypeNotSupported),
            _ => Some(SocksReason::Unassigned(code)),
        }
    }

    /// The reply code behind a reason, where the reason came from one.
    pub fn status(&self) -> (r: Option<u8>)
        ensures
            r == self.status_spec(),
    {
        match self {
            SocksReason::GeneralFailure => Some(1),
            SocksReason::RuleDenied => Some(2),
            SocksReason::NetworkUnreachable => Some(3),
            SocksReason::HostUnreachable => Some(4),
            SocksReason::ConnectionRefused => Some(5),
            SocksReason::TtlExpired => Some(6),
            SocksReason::CommandNotSupported => Some(7),
            SocksReason::AddressTypeNotSupported => Some(8),
            SocksReason::Unassigned(code) => Some(*code),
            SocksReason::MethodRefused(_) => None,
            SocksReason::Malformed => None,
            SocksReason::TimedOut => None,
        }
    }
}

/// The reason for a reply code keeps the code, and the eight codes that
/// RFC 1928 assigns map to their own reasons.
pub proof fn lemma_status_preserved(code: u8)
    requires
        code != 0,
    ensures
        SocksReason::of_status(code).status_spec() == Some(code),
        code >= 9 <==> SocksReason::of_status(code) is Unassigned,
{
}

/// How a proxied connection ended, other than by both sides closing.
#[derive(Debug, Clone, Copy, PartialEq, Eq, Structural)]
pub enum ProxyError {
    /// The client's HTTP request was malformed or too long.
    ProtocolViolation,
    /// The named peer did not accept the credentials it was shown: the proxy
    /// those of the client, or the SOCKS5 server those of the proxy.
    AuthFailure(Peer),
    /// No TCP connection to the SOCKS5 server could be made.
    UpstreamUnreachable,
    /// The SOCKS5 server did not establish the tunnel.
    SocksNegotiationFailure { reason: SocksReason },
    /// Reading from or writing to the named peer failed.
    IOError(Peer),
    /// The shutdown signal fired.
    Cancelled,
}

impl ProxyError {
    /// The HTTP status that tells the client of this error before the tunnel
    /// stands; `None` where nothing is said.
    pub open spec fn http_status_spec(self) -> Option<u16> {
        match self {
            ProxyError::ProtocolViolation => Some(400u16),
            ProxyError::AuthFailure(Peer::Client) => Some(407u16),
            ProxyError::AuthFailure(Peer::Upstream) => Some(502u16),
            ProxyError::UpstreamUnreachable => Some(502u16),
            ProxyError::SocksNegotiationFailure { reason } => match reason {
                SocksReason::NetworkUnreachable => Some(504u16),
                SocksReason::HostUnreachable => Some(504u16),
                SocksReason::TtlExpired => Some(504u16),
                SocksReason::TimedOut => Some(504u16),
                _ => Some(502u16),
            },
            ProxyError::IOError(Peer::Upstream) => Some(502u16),
            ProxyError::IOError(Peer::Client) => None,
            ProxyError::Cancelled => None,
        }
    }

    /// The HTTP status that tells the client of this error before the tunnel
    /// stands; `None` where nothing is said.
    pub fn http_status(&self) -> (r: Option<u16>)
        ensures
            r == self.http_status_spec(),
    {
        match self {
            ProxyError::ProtocolViolation => Some(400),
            ProxyError::AuthFailure(Peer::Client) => Some(407),
            ProxyError::AuthFailure(Peer::Upstream) => Some(502),
            ProxyError::UpstreamUnreachable => Some(502),
            ProxyError::SocksNegotiationFailure { reason } => match reason {
                SocksReason::NetworkUnreachable => Some(504),
                SocksReason::HostUnreachable => Some(504),
                SocksReason::TtlExpired => Some(504),
                SocksReason::TimedOut => Some(504),
                _ => Some(502),
            },
            ProxyError::IOError(Peer::Upstream) => Some(502),
            ProxyError::IOError(Peer::Client) => None,
            ProxyError::Cancelled => None,
        }
    }

    /// Whether this is an orderly end and no fault.
    pub fn is_graceful(&self) -> (r: bool)
        ensures
            r <==> *self == ProxyError::Cancelled,
    {
        match self {
            ProxyError::Cancelled => true,
            _ => false,
        }
    }
}

/// No error is reported to the client as a success: every status is 400, 407,
/// 502 or 504.
pub proof fn lemma_error_status_is_error(e: ProxyError)
    ensures
        e.http_status_spec() matches Some(code) ==> code == 400 || code == 407 || code == 502
            || code == 504,
        e.http_status_spec() != Some(200u16),
{
}

} // verus!
