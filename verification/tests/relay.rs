use socks_hub::error::{Peer, ProxyError};
use socks_hub::event::{Event, Outcome, Output};
use socks_hub::relay::Relay;

fn idle() -> Output {
    Output::idle()
}

#[test]
fn pump_copies_bytes_unchanged_in_both_directions() {
    let data: Vec<u8> = (0..=255u8).collect();
    let (relay, out) = Relay::start(false).step(Event::ClientData(data.clone()));
    assert_eq!(relay, Relay::Both);
    assert_eq!(out, Output::upstream(data.clone()));
    let (relay, out) = relay.step(Event::UpstreamData(data.clone()));
    assert_eq!(relay, Relay::Both);
    assert_eq!(out, Output::client(data));
}

#[test]
fn client_half_close_leaves_the_reply_path_open() {
    let (relay, out) = Relay::Both.step(Event::ClientEof);
    assert_eq!(relay, Relay::UpstreamOnly);
    let mut expected = idle();
    expected.shutdown_upstream = true;
    assert_eq!(out, expected);
    assert!(!relay.reads_client());
    assert!(relay.reads_upstream());
    let (relay, out) = relay.step(Event::UpstreamData(b"trailing response".to_vec()));
    assert_eq!(relay, Relay::UpstreamOnly);
    assert_eq!(out, Output::client(b"trailing response".to_vec()));
    let (relay, out) = relay.step(Event::UpstreamEof);
    assert_eq!(relay, Relay::Stopped(Outcome::Finished));
    assert_eq!(out, Output::closing(Vec::new()));
}

#[test]
fn upstream_half_close_leaves_the_request_path_open() {
    let (relay, out) = Relay::Both.step(Event::UpstreamEof);
    assert_eq!(relay, Relay::ClientOnly);
    let mut expected = idle();
    expected.shutdown_client = true;
    assert_eq!(out, expected);
    let (relay, out) = relay.step(Event::ClientData(b"more".to_vec()));
    assert_eq!(relay, Relay::ClientOnly);
    assert_eq!(out, Output::upstream(b"more".to_vec()));
    let (relay, out) = relay.step(Event::ClientEof);
    assert_eq!(relay, Relay::Stopped(Outcome::Finished));
    assert!(out.close);
}

#[test]
fn errors_and_cancellation_stop_the_pump() {
    for start in [Relay::Both, Relay::ClientOnly, Relay::UpstreamOnly] {
        let (relay, out) = start.step(Event::Cancelled);
        assert_eq!(relay, Relay::Stopped(Outcome::Failed(ProxyError::Cancelled)));
        assert_eq!(out, Output::closing(Vec::new()));
        let (relay, out) = start.step(Event::ClientError);
        assert_eq!(relay, Relay::Stopped(Outcome::Failed(ProxyError::IOError(Peer::Client))));
        assert!(out.close);
        let (relay, out) = start.step(Event::UpstreamError);
        assert_eq!(relay, Relay::Stopped(Outcome::Failed(ProxyError::IOError(Peer::Upstream))));
        assert!(out.close);
    }
}

#[test]
fn a_stopped_pump_does_nothing() {
    let stopped = Relay::Stopped(Outcome::Failed(ProxyError::Cancelled));
    for event in [
        Event::Cancelled,
        Event::ClientData(b"x".to_vec()),
        Event::UpstreamData(b"y".to_vec()),
        Event::ClientEof,
        Event::UpstreamEof,
        Event::ClientError,
    ] {
        assert_eq!(stopped.step(event), (stopped, idle()));
    }
}

#[test]
fn a_closed_direction_carries_nothing() {
    assert_eq!(
        Relay::UpstreamOnly.step(Event::ClientData(b"late".to_vec())),
        (Relay::UpstreamOnly, idle())
    );
    assert_eq!(
        Relay::ClientOnly.step(Event::UpstreamData(b"late".to_vec())),
        (Relay::ClientOnly, idle())
    );
    assert_eq!(Relay::Both.step(Event::TimedOut), (Relay::Both, idle()));
    assert_eq!(Relay::start(true), Relay::UpstreamOnly);
}
