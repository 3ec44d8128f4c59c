use socks5_client::addr::{HostIp, SockAddr, TargetAddr};
use socks5_client::auth::Authentication;
use socks5_client::error::Error;
use socks5_client::frames::{encode_request, parse_bound_addr, Command};
use socks5_client::handshake::{Handshake, Phase};

fn v4(a: u8, b: u8, c: u8, d: u8, port: u16) -> SockAddr {
    SockAddr { ip: HostIp::V4([a, b, c, d]), port }
}

fn proxy() -> Vec<SockAddr> {
    vec![v4(10, 0, 0, 1, 1080)]
}

/// Drives a session through TCP connect to the first proxy candidate.
fn connected(mut h: Handshake) -> Handshake {
    let a = h.begin_connect().unwrap();
    assert_eq!(a, v4(10, 0, 0, 1, 1080));
    h.connect_succeeded();
    h
}

/// Writes out everything the session wants to send and returns the bytes.
fn drain(h: &mut Handshake) -> Vec<u8> {
    let out = h.to_send();
    h.advance_write(out.len());
    out
}

#[test]
fn no_auth_connect_to_ipv4_target() {
    let target = TargetAddr::Ip(v4(1, 1, 1, 1, 443));
    let mut h = connected(Handshake::connect(proxy(), target).unwrap());
    assert_eq!(drain(&mut h), vec![0x05, 0x01, 0x00]);
    assert_eq!(h.read_wanted(), 2);
    assert_eq!(h.advance_read(&[0x05, 0x00]).unwrap(), None);
    assert_eq!(
        drain(&mut h),
        vec![0x05, 0x01, 0x00, 0x01, 0x01, 0x01, 0x01, 0x01, 0x01, 0xBB]
    );
    assert_eq!(h.read_wanted(), 4);
    assert_eq!(h.advance_read(&[0x05, 0x00, 0x00, 0x01]).unwrap(), None);
    assert_eq!(h.read_wanted(), 6);
    let done = h.advance_read(&[0x01, 0x01, 0x01, 0x01, 0x01, 0xBB]).unwrap();
    assert_eq!(done, Some(TargetAddr::Ip(v4(1, 1, 1, 1, 443))));
    assert_eq!(h.phase, Phase::Done);
}

#[test]
fn no_auth_connect_to_domain_target() {
    let target = TargetAddr::Domain(b"www.example.com".to_vec(), 80);
    let mut h = connected(Handshake::connect(proxy(), target).unwrap());
    assert_eq!(drain(&mut h), vec![0x05, 0x01, 0x00]);
    assert_eq!(h.advance_read(&[0x05, 0x00]).unwrap(), None);
    let mut request = vec![0x05, 0x01, 0x00, 0x03, 0x0F];
    request.extend_from_slice(b"www.example.com");
    request.extend_from_slice(&[0x00, 0x50]);
    assert_eq!(drain(&mut h), request);
    assert_eq!(h.advance_read(&[0x05, 0x00, 0x00, 0x03]).unwrap(), None);
    assert_eq!(h.read_wanted(), 1);
    assert_eq!(h.advance_read(&[0x0F]).unwrap(), None);
    assert_eq!(h.read_wanted(), 17);
    let mut tail = b"www.example.com".to_vec();
    tail.extend_from_slice(&[0x00, 0x50]);
    let done = h.advance_read(&tail).unwrap();
    assert_eq!(done, Some(TargetAddr::Domain(b"www.example.com".to_vec(), 80)));
}

#[test]
fn password_auth_connect_succeeds() {
    let target = TargetAddr::Ip(v4(1, 1, 1, 1, 443));
    let mut h = connected(
        Handshake::connect_with_password(proxy(), target, "mylogin", "mypassword").unwrap(),
    );
    assert_eq!(drain(&mut h), vec![0x05, 0x02, 0x00, 0x02]);
    assert_eq!(h.advance_read(&[0x05, 0x02]).unwrap(), None);
    let mut auth_frame = vec![0x01, 0x07];
    auth_frame.extend_from_slice(b"mylogin");
    auth_frame.push(0x0A);
    auth_frame.extend_from_slice(b"mypassword");
    assert_eq!(drain(&mut h), auth_frame);
    assert_eq!(h.read_wanted(), 2);
    assert_eq!(h.advance_read(&[0x01, 0x00]).unwrap(), None);
    assert_eq!(
        drain(&mut h),
        vec![0x05, 0x01, 0x00, 0x01, 0x01, 0x01, 0x01, 0x01, 0x01, 0xBB]
    );
    assert_eq!(h.advance_read(&[0x05, 0x00, 0x00, 0x01]).unwrap(), None);
    let done = h.advance_read(&[0x01, 0x01, 0x01, 0x01, 0x01, 0xBB]).unwrap();
    assert_eq!(done, Some(TargetAddr::Ip(v4(1, 1, 1, 1, 443))));
}

#[test]
fn password_auth_failure_surfaces_status() {
    let target = TargetAddr::Ip(v4(1, 1, 1, 1, 443));
    let mut h = connected(
        Handshake::connect_with_password(proxy(), target, "mylogin", "mypassword").unwrap(),
    );
    assert_eq!(drain(&mut h), vec![0x05, 0x02, 0x00, 0x02]);
    assert_eq!(h.advance_read(&[0x05, 0x02]).unwrap(), None);
    drain(&mut h);
    assert_eq!(h.advance_read(&[0x01, 0x01]), Err(Error::PasswordAuthFailure(0x01)));
}

#[test]
fn host_unreachable_reply_fails() {
    let target = TargetAddr::Ip(v4(1, 1, 1, 1, 443));
    let mut h = connected(Handshake::connect(proxy(), target).unwrap());
    drain(&mut h);
    assert_eq!(h.advance_read(&[0x05, 0x00]).unwrap(), None);
    drain(&mut h);
    assert_eq!(
        h.advance_read(&[0x05, 0x04, 0x00, 0x01]),
        Err(Error::HostUnreachable)
    );
}

#[test]
fn proxy_failover_is_monotone() {
    let proxies = vec![v4(10, 0, 0, 1, 1080), v4(10, 0, 0, 2, 1080)];
    let target = TargetAddr::Ip(v4(1, 1, 1, 1, 443));
    let mut h = Handshake::connect(proxies, target).unwrap();
    let first = h.begin_connect().unwrap();
    assert_eq!(first, v4(10, 0, 0, 1, 1080));
    h.connect_failed();
    let second = h.begin_connect().unwrap();
    assert_eq!(second, v4(10, 0, 0, 2, 1080));
    h.connect_succeeded();
    assert_eq!(drain(&mut h), vec![0x05, 0x01, 0x00]);
}

#[test]
fn exhausted_proxy_sequence_is_unreachable() {
    let proxies = vec![v4(10, 0, 0, 1, 1080)];
    let target = TargetAddr::Ip(v4(1, 1, 1, 1, 443));
    let mut h = Handshake::connect(proxies, target).unwrap();
    h.begin_connect().unwrap();
    h.connect_failed();
    assert_eq!(h.begin_connect(), Err(Error::ProxyServerUnreachable));
}

#[test]
fn bind_two_phase() {
    let target = TargetAddr::Ip(v4(1, 1, 1, 1, 443));
    let mut h = connected(Handshake::bind(proxy(), target).unwrap());
    assert_eq!(drain(&mut h), vec![0x05, 0x01, 0x00]);
    assert_eq!(h.advance_read(&[0x05, 0x00]).unwrap(), None);
    let request = drain(&mut h);
    assert_eq!(&request[..4], &[0x05, 0x02, 0x00, 0x01]);
    assert_eq!(h.advance_read(&[0x05, 0x00, 0x00, 0x01]).unwrap(), None);
    let bound = h
        .advance_read(&[0xAA, 0xAA, 0xAA, 0xAA, 0x04, 0xD2])
        .unwrap()
        .unwrap();
    assert_eq!(bound, TargetAddr::Ip(v4(170, 170, 170, 170, 1234)));
    // The peer has connected through the rendezvous address: read the second
    // reply on the same socket.
    let mut h2 = Handshake::accept_session(bound).unwrap();
    assert_eq!(h2.read_wanted(), 4);
    assert_eq!(h2.advance_read(&[0x05, 0x00, 0x00, 0x01]).unwrap(), None);
    let peer = h2
        .advance_read(&[0xBB, 0xBB, 0xBB, 0xBB, 0x00, 0x50])
        .unwrap()
        .unwrap();
    assert_eq!(peer, TargetAddr::Ip(v4(187, 187, 187, 187, 80)));
}

#[test]
fn partial_reads_do_not_advance_state() {
    let target = TargetAddr::Ip(v4(1, 1, 1, 1, 443));
    let mut h = connected(Handshake::connect(proxy(), target).unwrap());
    drain(&mut h);
    assert_eq!(h.phase, Phase::RecvMethodSelection);
    assert_eq!(h.read_wanted(), 2);
    assert_eq!(h.advance_read(&[0x05]).unwrap(), None);
    assert_eq!(h.phase, Phase::RecvMethodSelection);
    assert_eq!(h.read_wanted(), 1);
    assert_eq!(h.advance_read(&[]).unwrap(), None);
    assert_eq!(h.phase, Phase::RecvMethodSelection);
    assert_eq!(h.read_wanted(), 1);
    assert_eq!(h.advance_read(&[0x00]).unwrap(), None);
    assert_eq!(h.phase, Phase::SendRequest);
}

#[test]
fn partial_writes_do_not_advance_state() {
    let target = TargetAddr::Ip(v4(1, 1, 1, 1, 443));
    let mut h = connected(Handshake::connect(proxy(), target).unwrap());
    assert_eq!(h.phase, Phase::SendMethodSelection);
    assert_eq!(h.to_send(), vec![0x05, 0x01, 0x00]);
    h.advance_write(1);
    assert_eq!(h.phase, Phase::SendMethodSelection);
    assert_eq!(h.to_send(), vec![0x01, 0x00]);
    h.advance_write(2);
    assert_eq!(h.phase, Phase::RecvMethodSelection);
}

#[test]
fn negotiation_survives_single_byte_io() {
    let target = TargetAddr::Domain(b"www.example.com".to_vec(), 80);
    let mut h = connected(Handshake::connect(proxy(), target).unwrap());
    let mut sent: Vec<u8> = Vec::new();
    // Drain the method selection one byte at a time.
    while !matches!(h.phase, Phase::RecvMethodSelection) {
        let out = h.to_send();
        sent.push(out[0]);
        h.advance_write(1);
    }
    assert_eq!(sent, vec![0x05, 0x01, 0x00]);
    for byte in [0x05, 0x00] {
        assert_eq!(h.advance_read(&[byte]).unwrap(), None);
    }
    let mut sent: Vec<u8> = Vec::new();
    while !matches!(h.phase, Phase::RecvReplyHeader) {
        let out = h.to_send();
        sent.push(out[0]);
        h.advance_write(1);
    }
    let mut request = vec![0x05, 0x01, 0x00, 0x03, 0x0F];
    request.extend_from_slice(b"www.example.com");
    request.extend_from_slice(&[0x00, 0x50]);
    assert_eq!(sent, request);
    let mut reply = vec![0x05, 0x00, 0x00, 0x03, 0x0F];
    reply.extend_from_slice(b"www.example.com");
    reply.extend_from_slice(&[0x00, 0x50]);
    let mut done = None;
    for byte in reply {
        assert_eq!(done, None);
        done = h.advance_read(&[byte]).unwrap();
    }
    assert_eq!(done, Some(TargetAddr::Domain(b"www.example.com".to_vec(), 80)));
}

#[test]
fn associate_command_code_is_emitted() {
    let target = TargetAddr::Ip(v4(1, 1, 1, 1, 443));
    let mut h = Handshake::new(
        proxy(),
        target,
        Authentication::NoAuth,
        Command::Associate,
    )
    .unwrap();
    h.begin_connect().unwrap();
    h.connect_succeeded();
    drain(&mut h);
    h.advance_read(&[0x05, 0x00]).unwrap();
    let request = drain(&mut h);
    assert_eq!(&request[..4], &[0x05, 0x03, 0x00, 0x01]);
}

#[test]
fn credential_lengths_are_validated_at_construction() {
    assert_eq!(
        Authentication::password("", "x"),
        Err(Error::InvalidAuthValues("username length should between 1 to 255"))
    );
    assert_eq!(
        Authentication::password(&"u".repeat(256), "x"),
        Err(Error::InvalidAuthValues("username length should between 1 to 255"))
    );
    assert_eq!(
        Authentication::password("u", ""),
        Err(Error::InvalidAuthValues("password length should between 1 to 255"))
    );
    assert_eq!(
        Authentication::password("u", &"p".repeat(256)),
        Err(Error::InvalidAuthValues("password length should between 1 to 255"))
    );
    assert!(Authentication::password(&"u".repeat(255), &"p".repeat(255)).is_ok());
    let target = TargetAddr::Ip(v4(1, 1, 1, 1, 443));
    assert!(Handshake::connect_with_password(proxy(), target, "", "x").is_err());
}

#[test]
fn auth_method_ids() {
    assert_eq!(Authentication::NoAuth.id(), 0x00);
    assert_eq!(Authentication::password("u", "p").unwrap().id(), 0x02);
}

#[test]
fn method_selection_reply_errors() {
    let target = TargetAddr::Ip(v4(1, 1, 1, 1, 443));
    let mut h = connected(Handshake::connect(proxy(), target.to_owned()).unwrap());
    drain(&mut h);
    assert_eq!(h.advance_read(&[0x04, 0x00]), Err(Error::InvalidResponseVersion));

    let mut h = connected(Handshake::connect(proxy(), target.to_owned()).unwrap());
    drain(&mut h);
    assert_eq!(h.advance_read(&[0x05, 0xFF]), Err(Error::NoAcceptableAuthMethods));

    let mut h = connected(Handshake::connect(proxy(), target.to_owned()).unwrap());
    drain(&mut h);
    assert_eq!(h.advance_read(&[0x05, 0x01]), Err(Error::UnknownAuthMethod));

    // The server picks password auth although none was offered.
    let mut h = connected(Handshake::connect(proxy(), target.to_owned()).unwrap());
    drain(&mut h);
    assert_eq!(h.advance_read(&[0x05, 0x02]), Err(Error::NoAcceptableAuthMethods));

    let mut h = connected(
        Handshake::connect_with_password(proxy(), target, "mylogin", "mypassword").unwrap(),
    );
    drain(&mut h);
    assert_eq!(h.advance_read(&[0x04, 0x02]), Err(Error::InvalidResponseVersion));
}

#[test]
fn password_auth_reply_version_is_checked() {
    let target = TargetAddr::Ip(v4(1, 1, 1, 1, 443));
    let mut h = connected(
        Handshake::connect_with_password(proxy(), target, "mylogin", "mypassword").unwrap(),
    );
    drain(&mut h);
    assert_eq!(h.advance_read(&[0x05, 0x02]).unwrap(), None);
    drain(&mut h);
    assert_eq!(h.advance_read(&[0x02, 0x00]), Err(Error::InvalidResponseVersion));
}

fn reply_header_error(header: [u8; 4]) -> Error {
    let target = TargetAddr::Ip(v4(1, 1, 1, 1, 443));
    let mut h = connected(Handshake::connect(proxy(), target).unwrap());
    drain(&mut h);
    h.advance_read(&[0x05, 0x00]).unwrap();
    drain(&mut h);
    h.advance_read(&header).unwrap_err()
}

#[test]
fn reply_header_errors() {
    assert_eq!(reply_header_error([0x04, 0x00, 0x00, 0x01]), Error::InvalidResponseVersion);
    assert_eq!(reply_header_error([0x05, 0x00, 0x01, 0x01]), Error::InvalidReservedByte);
    assert_eq!(reply_header_error([0x05, 0x01, 0x00, 0x01]), Error::GeneralSocksServerFailure);
    assert_eq!(
        reply_header_error([0x05, 0x02, 0x00, 0x01]),
        Error::ConnectionNotAllowedByRuleset
    );
    assert_eq!(reply_header_error([0x05, 0x03, 0x00, 0x01]), Error::NetworkUnreachable);
    assert_eq!(reply_header_error([0x05, 0x04, 0x00, 0x01]), Error::HostUnreachable);
    assert_eq!(reply_header_error([0x05, 0x05, 0x00, 0x01]), Error::ConnectionRefused);
    assert_eq!(reply_header_error([0x05, 0x06, 0x00, 0x01]), Error::TtlExpired);
    assert_eq!(reply_header_error([0x05, 0x07, 0x00, 0x01]), Error::CommandNotSupported);
    assert_eq!(reply_header_error([0x05, 0x08, 0x00, 0x01]), Error::AddressTypeNotSupported);
    assert_eq!(reply_header_error([0x05, 0x09, 0x00, 0x01]), Error::UnknownAuthMethod);
    assert_eq!(reply_header_error([0x05, 0x00, 0x00, 0x02]), Error::UnknownAddressType);
}

#[test]
fn request_encoding_is_deterministic() {
    let t = TargetAddr::Domain(b"www.example.com".to_vec(), 80);
    let once = encode_request(Command::Connect, &t);
    let twice = encode_request(Command::Connect, &t);
    assert_eq!(once, twice);
    let mut expected = vec![0x05, 0x01, 0x00, 0x03, 0x0F];
    expected.extend_from_slice(b"www.example.com");
    expected.extend_from_slice(&[0x00, 0x50]);
    assert_eq!(once, expected);
}

#[test]
fn reply_parsing_inverts_encoding() {
    // IPv4
    let frame = [0x05, 0x00, 0x00, 0x01, 0x01, 0x02, 0x03, 0x04, 0x01, 0xBB];
    assert_eq!(
        parse_bound_addr(&frame),
        Ok(TargetAddr::Ip(v4(1, 2, 3, 4, 443)))
    );
    // IPv6
    let mut frame = vec![0x05, 0x00, 0x00, 0x04];
    let octets: [u8; 16] = [0, 1, 2, 3, 4, 5, 6, 7, 8, 9, 10, 11, 12, 13, 14, 15];
    frame.extend_from_slice(&octets);
    frame.extend_from_slice(&[0x00, 0x50]);
    assert_eq!(
        parse_bound_addr(&frame),
        Ok(TargetAddr::Ip(SockAddr { ip: HostIp::V6(octets), port: 80 }))
    );
    // Domain
    let mut frame = vec![0x05, 0x00, 0x00, 0x03, 0x0F];
    frame.extend_from_slice(b"www.example.com");
    frame.extend_from_slice(&[0x00, 0x50]);
    assert_eq!(
        parse_bound_addr(&frame),
        Ok(TargetAddr::Domain(b"www.example.com".to_vec(), 80))
    );
}

#[test]
fn reply_domain_must_be_utf8() {
    // A multi-byte UTF-8 name round-trips.
    let frame = [0x05, 0x00, 0x00, 0x03, 0x02, 0xC3, 0xA9, 0x00, 0x50];
    assert_eq!(
        parse_bound_addr(&frame),
        Ok(TargetAddr::Domain(vec![0xC3, 0xA9], 80))
    );
    // An invalid byte sequence is rejected.
    let frame = [0x05, 0x00, 0x00, 0x03, 0x02, 0xFF, 0xFE, 0x00, 0x50];
    assert_eq!(
        parse_bound_addr(&frame),
        Err(Error::InvalidTargetAddress("not a valid UTF-8 string"))
    );
}

#[test]
fn reply_with_empty_domain_is_rejected() {
    let target = TargetAddr::Ip(v4(1, 1, 1, 1, 443));
    let mut h = connected(Handshake::connect(proxy(), target).unwrap());
    drain(&mut h);
    h.advance_read(&[0x05, 0x00]).unwrap();
    drain(&mut h);
    h.advance_read(&[0x05, 0x00, 0x00, 0x03]).unwrap();
    h.advance_read(&[0x00]).unwrap();
    assert_eq!(
        h.advance_read(&[0x00, 0x50]),
        Err(Error::InvalidTargetAddress("invalid address format"))
    );
}

#[test]
fn overlong_target_is_rejected_before_io() {
    let proxies = proxy();
    let name = vec![0x61; 256];
    let r = Handshake::connect(proxies, TargetAddr::Domain(name, 80));
    assert!(matches!(r, Err(Error::InvalidTargetAddress("overlong domain"))));
}
