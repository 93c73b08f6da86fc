use socks_hub::config::Credentials;
use socks_hub::error::{Peer, ProxyError, SocksReason};
use socks_hub::socks5::{
    auth_request, bound_address, classify, connect_request, greeting, parse_auth_reply,
    parse_method_reply, parse_reply, reply_outcome, AuthMethod, ReplyStatus, TargetAddr,
};

fn failure(reason: SocksReason) -> ProxyError {
    ProxyError::SocksNegotiationFailure { reason }
}

#[test]
fn greeting_offers_no_auth_always_and_password_with_credentials() {
    assert_eq!(greeting(false), vec![0x05, 0x01, 0x00]);
    assert_eq!(greeting(true), vec![0x05, 0x02, 0x00, 0x02]);
}

#[test]
fn method_reply_must_name_an_offered_method() {
    assert_eq!(parse_method_reply(5, 0, false), Ok(AuthMethod::NoAuth));
    assert_eq!(parse_method_reply(5, 0, true), Ok(AuthMethod::NoAuth));
    assert_eq!(parse_method_reply(5, 2, true), Ok(AuthMethod::UserPass));
    assert_eq!(parse_method_reply(5, 2, false), Err(failure(SocksReason::MethodRefused(2))));
    assert_eq!(parse_method_reply(5, 0xff, true), Err(failure(SocksReason::MethodRefused(0xff))));
    assert_eq!(parse_method_reply(5, 1, true), Err(failure(SocksReason::MethodRefused(1))));
    assert_eq!(parse_method_reply(4, 0, true), Err(failure(SocksReason::Malformed)));
}

#[test]
fn auth_request_frames_user_and_password() {
    let creds = Credentials::new("alice", "secret");
    assert_eq!(
        auth_request(&creds),
        Some(vec![1, 5, b'a', b'l', b'i', b'c', b'e', 6, b's', b'e', b'c', b'r', b'e', b't'])
    );
    let only_user = Credentials { username: Some("bob".to_string()), password: None };
    assert_eq!(auth_request(&only_user), Some(vec![1, 3, b'b', b'o', b'b', 0]));
}

#[test]
fn auth_request_has_room_for_255_bytes_each() {
    let long = "x".repeat(255);
    let fits = Credentials::new(&long, &long);
    let message = auth_request(&fits).unwrap();
    assert_eq!(message.len(), 1 + 1 + 255 + 1 + 255);
    assert_eq!(message[1], 255);
    assert_eq!(message[257], 255);
    let too_long = "x".repeat(256);
    assert_eq!(auth_request(&Credentials::new(&too_long, "p")), None);
    assert_eq!(auth_request(&Credentials::new("u", &too_long)), None);
}

#[test]
fn auth_reply_succeeds_on_zero_only() {
    assert_eq!(parse_auth_reply(1, 0), Ok(()));
    assert_eq!(parse_auth_reply(1, 1), Err(ProxyError::AuthFailure(Peer::Upstream)));
    assert_eq!(parse_auth_reply(1, 0xff), Err(ProxyError::AuthFailure(Peer::Upstream)));
    assert_eq!(parse_auth_reply(5, 0), Err(failure(SocksReason::Malformed)));
}

#[test]
fn hosts_are_classified() {
    assert_eq!(classify(b"192.0.2.1"), TargetAddr::V4([192, 0, 2, 1]));
    let mut one = [0u8; 16];
    one[15] = 1;
    assert_eq!(classify(b"::1"), TargetAddr::V6(one));
    assert_eq!(classify(b"example.com"), TargetAddr::Domain(b"example.com".to_vec()));
    assert_eq!(classify(b"1.2.3"), TargetAddr::Domain(b"1.2.3".to_vec()));
    assert_eq!(classify(b"999.1.1.1"), TargetAddr::Domain(b"999.1.1.1".to_vec()));
}

#[test]
fn connect_request_for_a_domain() {
    let target = TargetAddr::Domain(b"example.com".to_vec());
    let mut expected = vec![0x05, 0x01, 0x00, 0x03, 11];
    expected.extend_from_slice(b"example.com");
    expected.extend_from_slice(&[0x01, 0xbb]);
    assert_eq!(connect_request(&target, 443), Some(expected));
}

#[test]
fn connect_request_for_addresses() {
    assert_eq!(
        connect_request(&TargetAddr::V4([127, 0, 0, 1]), 8080),
        Some(vec![5, 1, 0, 1, 127, 0, 0, 1, 0x1f, 0x90])
    );
    let mut v6 = vec![5, 1, 0, 4];
    v6.extend_from_slice(&[0x20, 0x01, 0x0d, 0xb8, 0, 0, 0, 0, 0, 0, 0, 0, 0, 0, 0, 1]);
    v6.extend_from_slice(&[0, 80]);
    assert_eq!(
        connect_request(
            &TargetAddr::V6([0x20, 0x01, 0x0d, 0xb8, 0, 0, 0, 0, 0, 0, 0, 0, 0, 0, 0, 1]),
            80
        ),
        Some(v6)
    );
    assert_eq!(
        connect_request(&TargetAddr::V4([1, 2, 3, 4]), 65535),
        Some(vec![5, 1, 0, 1, 1, 2, 3, 4, 0xff, 0xff])
    );
}

#[test]
fn connect_request_refuses_names_it_cannot_frame() {
    assert_eq!(connect_request(&TargetAddr::Domain(Vec::new()), 80), None);
    assert_eq!(connect_request(&TargetAddr::Domain(vec![b'a'; 256]), 80), None);
    assert!(connect_request(&TargetAddr::Domain(vec![b'a'; 255]), 80).is_some());
}

#[test]
fn reply_length_follows_the_address_type() {
    assert_eq!(parse_reply(&[]), ReplyStatus::Incomplete);
    assert_eq!(parse_reply(&[5, 0, 0]), ReplyStatus::Incomplete);
    assert_eq!(parse_reply(&[5, 0, 0, 1, 0, 0, 0, 0, 0]), ReplyStatus::Incomplete);
    assert_eq!(
        parse_reply(&[5, 0, 0, 1, 0, 0, 0, 0, 0, 0]),
        ReplyStatus::Complete { len: 10, status: 0 }
    );
    assert_eq!(
        parse_reply(&[5, 3, 0, 1, 0, 0, 0, 0, 0, 0, 9, 9]),
        ReplyStatus::Complete { len: 10, status: 3 }
    );
    let mut v6 = vec![5, 0, 0, 4];
    v6.extend_from_slice(&[0; 17]);
    assert_eq!(parse_reply(&v6), ReplyStatus::Incomplete);
    v6.push(0);
    assert_eq!(parse_reply(&v6), ReplyStatus::Complete { len: 22, status: 0 });
    assert_eq!(parse_reply(&[5, 0, 0, 3]), ReplyStatus::Incomplete);
    assert_eq!(parse_reply(&[5, 0, 0, 3, 2, b'a', b'b', 0]), ReplyStatus::Incomplete);
    assert_eq!(
        parse_reply(&[5, 0, 0, 3, 2, b'a', b'b', 0, 80]),
        ReplyStatus::Complete { len: 9, status: 0 }
    );
    assert_eq!(
        parse_reply(&[5, 0, 0, 3, 0, 0, 80]),
        ReplyStatus::Complete { len: 7, status: 0 }
    );
}

#[test]
fn reply_that_is_no_socks5_is_malformed() {
    assert_eq!(parse_reply(&[4]), ReplyStatus::Malformed);
    assert_eq!(parse_reply(&[4, 0, 0, 1, 0, 0, 0, 0, 0, 0]), ReplyStatus::Malformed);
    assert_eq!(parse_reply(&[5, 0, 0, 2, 0, 0, 0, 0, 0, 0]), ReplyStatus::Malformed);
    assert_eq!(parse_reply(&[5, 0, 0, 0]), ReplyStatus::Malformed);
}

#[test]
fn reply_codes_map_to_their_reasons() {
    assert_eq!(reply_outcome(0), Ok(()));
    assert_eq!(reply_outcome(1), Err(failure(SocksReason::GeneralFailure)));
    assert_eq!(reply_outcome(2), Err(failure(SocksReason::RuleDenied)));
    assert_eq!(reply_outcome(3), Err(failure(SocksReason::NetworkUnreachable)));
    assert_eq!(reply_outcome(4), Err(failure(SocksReason::HostUnreachable)));
    assert_eq!(reply_outcome(5), Err(failure(SocksReason::ConnectionRefused)));
    assert_eq!(reply_outcome(6), Err(failure(SocksReason::TtlExpired)));
    assert_eq!(reply_outcome(7), Err(failure(SocksReason::CommandNotSupported)));
    assert_eq!(reply_outcome(8), Err(failure(SocksReason::AddressTypeNotSupported)));
    assert_eq!(reply_outcome(9), Err(failure(SocksReason::Unassigned(9))));
    assert_eq!(reply_outcome(255), Err(failure(SocksReason::Unassigned(255))));
}

#[test]
fn every_reply_code_is_kept_in_its_reason() {
    assert_eq!(SocksReason::from_status(0), None);
    for code in 1..=255u8 {
        let reason = SocksReason::from_status(code).unwrap();
        assert_eq!(reason.status(), Some(code));
    }
    assert_eq!(SocksReason::MethodRefused(0xff).status(), None);
    assert_eq!(SocksReason::Malformed.status(), None);
    assert_eq!(SocksReason::TimedOut.status(), None);
}

#[test]
fn bound_address_is_read_from_a_complete_reply() {
    assert_eq!(
        bound_address(&[5, 0, 0, 1, 10, 0, 0, 7, 0x1f, 0x90]),
        Some((TargetAddr::V4([10, 0, 0, 7]), 8080))
    );
    let mut v6 = vec![5, 0, 0, 4];
    v6.extend_from_slice(&[0x20, 0x01, 0, 0, 0, 0, 0, 0, 0, 0, 0, 0, 0, 0, 0, 9]);
    v6.extend_from_slice(&[0xff, 0xff, 1, 2, 3]);
    assert_eq!(
        bound_address(&v6),
        Some((TargetAddr::V6([0x20, 0x01, 0, 0, 0, 0, 0, 0, 0, 0, 0, 0, 0, 0, 0, 9]), 65535))
    );
    assert_eq!(
        bound_address(&[5, 4, 0, 3, 2, b'g', b'w', 0, 80]),
        Some((TargetAddr::Domain(b"gw".to_vec()), 80))
    );
    assert_eq!(
        bound_address(&[5, 0, 0, 3, 0, 1, 0]),
        Some((TargetAddr::Domain(Vec::new()), 256))
    );
    assert_eq!(bound_address(&[5, 0, 0, 1, 10, 0, 0, 7, 0x1f]), None);
    assert_eq!(bound_address(&[4, 0, 0, 1, 10, 0, 0, 7, 0x1f, 0x90]), None);
    assert_eq!(bound_address(&[]), None);
}
