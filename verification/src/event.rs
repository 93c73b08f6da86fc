//! What happens to a proxied connection, and what the proxy is to do about it.
//!
//! The state machines of this crate do no I/O. Whoever owns the two sockets
//! tells them of each event and carries out the output that they answer with.

use crate::error::ProxyError;
use vstd::prelude::*;

verus! {

/// Something that happened on one of the two sockets of a connection, or to
/// the proxy as a whole.
#[derive(Debug, Clone, PartialEq, Eq)]
pub enum Event {
    /// Bytes arrived from the client.
    ClientData(Vec<u8>),
    /// The client ended its stream.
    ClientEof,
    /// Reading from or writing to the client failed.
    ClientError,
    /// The TCP connection to the SOCKS5 server stands.
    UpstreamConnected,
    /// The TCP connection to the SOCKS5 server was refused or timed out.
    UpstreamUnreachable,
    /// The bytes last handed out for the SOCKS5 server were written.
    UpstreamWritten,
    /// Bytes arrived from the SOCKS5 server.
    UpstreamData(Vec<u8>),
    /// The SOCKS5 server ended its stream.
    UpstreamEof,
    /// Reading from or writing to the SOCKS5 server failed.
    UpstreamError,
    /// The SOCKS5 server did not answer within the negotiation timeout.
    TimedOut,
    /// The shutdown signal fired.
    Cancelled,
}

/// An event as plain values.
#[verifier::ext_equal]
pub ghost enum EventView {
    ClientData(Seq<u8>),
    ClientEof,
    ClientError,
    UpstreamConnected,
    UpstreamUnreachable,
    UpstreamWritten,
    UpstreamData(Seq<u8>),
    UpstreamEof,
    UpstreamError,
    TimedOut,
    Cancelled,
}

impl View for Event {
    type V = EventView;

    open spec fn view(&self) -> EventView {
        match self {
            Event::ClientData(b) => EventView::ClientData(b@),
            Event::ClientEof => EventView::ClientEof,
            Event::ClientError => EventView::ClientError,
            Event::UpstreamConnected => EventView::UpstreamConnected,
            Event::UpstreamUnreachable => EventView::UpstreamUnreachable,
            Event::UpstreamWritten => EventView::UpstreamWritten,
            Event::UpstreamData(b) => EventView::UpstreamData(b@),
            Event::UpstreamEof => EventView::UpstreamEof,
            Event::UpstreamError => EventView::UpstreamError,
            Event::TimedOut => EventView::TimedOut,
            Event::Cancelled => EventView::Cancelled,
        }
    }
}

/// What is to be done after an event, in the order of the fields: open the
/// connection to the SOCKS5 server, write to it, write to the client, end the
/// stream towards either, close both sockets.
#[derive(Debug, Clone, PartialEq, Eq)]
pub struct Output {
    /// Open the TCP connection to the SOCKS5 server.
    pub connect_upstream: bool,
    /// Bytes to write to the SOCKS5 server; none where empty.
    pub to_upstream: Vec<u8>,
    /// Bytes to write to the client; none where empty.
    pub to_client: Vec<u8>,
    /// End the stream towards the SOCKS5 server; its other direction stays open.
    pub shutdown_upstream: bool,
    /// End the stream towards the client; its other direction stays open.
    pub shutdown_client: bool,
    /// Close both sockets: the connection is over.
    pub close: bool,
}

/// An output as plain values.
#[verifier::ext_equal]
pub ghost struct OutputView {
    pub connect_upstream: bool,
    pub to_upstream: Seq<u8>,
    pub to_client: Seq<u8>,
    pub shutdown_upstream: bool,
    pub shutdown_client: bool,
    pub close: bool,
}

impl View for Output {
    type V = OutputView;

    open spec fn view(&self) -> OutputView {
        OutputView {
            connect_upstream: self.connect_upstream,
            to_upstream: self.to_upstream@,
            to_client: self.to_client@,
            shutdown_upstream: self.shutdown_upstream,
            shutdown_client: self.shutdown_client,
            close: self.close,
        }
    }
}

/// The output that asks for nothing.
pub open spec fn idle() -> OutputView {
    OutputView {
        connect_upstream: false,
        to_upstream: Seq::empty(),
        to_client: Seq::empty(),
        shutdown_upstream: false,
        shutdown_client: false,
        close: false,
    }
}

/// The output that closes both sockets after writing `farewell` to the client.
pub open spec fn closing(farewell: Seq<u8>) -> OutputView {
    OutputView { to_client: farewell, close: true, ..idle() }
}

/// Whether an output asks for nothing that reaches the SOCKS5 server.
pub open spec fn leaves_upstream_alone(out: OutputView) -> bool {
    !out.connect_upstream && out.to_upstream.len() == 0
}

impl Output {
    /// The output that asks for nothing.
    pub fn idle() -> (out: Output)
        ensures
            out@ == idle(),
    {
        Output {
            connect_upstream: false,
            to_upstream: Vec::new(),
            to_client: Vec::new(),
            shutdown_upstream: false,
            shutdown_client: false,
            close: false,
        }
    }

    /// The output that closes both sockets after writing `farewell` to the client.
    pub fn closing(farewell: Vec<u8>) -> (out: Output)
        ensures
            out@ == closing(farewell@),
    {
        Output {
            connect_upstream: false,
            to_upstream: Vec::new(),
            to_client: farewell,
            shutdown_upstream: false,
            shutdown_client: false,
            close: true,
        }
    }

    /// The output that writes `bytes` to the SOCKS5 server.
    pub fn upstream(bytes: Vec<u8>) -> (out: Output)
        ensures
            out@ == (OutputView { to_upstream: bytes@, ..idle() }),
    {
        Output {
            connect_upstream: false,
            to_upstream: bytes,
            to_client: Vec::new(),
            shutdown_upstream: false,
            shutdown_client: false,
            close: false,
        }
    }

    /// The output that writes `bytes` to the client.
    pub fn client(bytes: Vec<u8>) -> (out: Output)
        ensures
            out@ == (OutputView { to_client: bytes@, ..idle() }),
    {
        Output {
            connect_upstream: false,
            to_upstream: Vec::new(),
            to_client: bytes,
            shutdown_upstream: false,
            shutdown_client: false,
            close: false,
        }
    }
}

/// How a connection ended.
#[derive(Debug, Clone, Copy, PartialEq, Eq, Structural)]
pub enum Outcome {
    /// Both sides ended their streams.
    Finished,
    /// The connection was ended early.
    Failed(ProxyError),
}

} // verus!
