use socks5_client::addr::{
    parse_ipv4_bytes, parse_port_bytes, slice_to_proxy_addrs, target_from_host_port,
    target_from_sock_addr, target_from_str, to_proxy_addrs, HostIp, SockAddr, TargetAddr,
};
use socks5_client::error::Error;

fn v4(a: u8, b: u8, c: u8, d: u8, port: u16) -> SockAddr {
    SockAddr { ip: HostIp::V4([a, b, c, d]), port }
}

#[test]
fn converts_socket_addr_to_proxy_addrs() {
    let addr = v4(1, 1, 1, 1, 443);
    let res = to_proxy_addrs(addr);
    assert_eq!(&res[..], &[addr]);
}

#[test]
fn converts_socket_addr_ref_to_proxy_addrs() {
    let addr = v4(1, 1, 1, 1, 443);
    let res = slice_to_proxy_addrs(&[addr][..]);
    assert_eq!(&res[..], &[addr]);
}

#[test]
fn converts_socket_addrs_to_proxy_addrs() {
    let addrs = [v4(1, 1, 1, 1, 443), v4(8, 8, 8, 8, 53)];
    let res = slice_to_proxy_addrs(&addrs[..]);
    assert_eq!(&res[..], &addrs);
}

#[test]
fn converts_socket_addr_to_target_addr() {
    let addr = v4(1, 1, 1, 1, 443);
    let res = target_from_sock_addr(addr);
    assert_eq!(TargetAddr::Ip(addr), res);
}

#[test]
fn converts_socket_addr_ref_to_target_addr() {
    let addr = v4(1, 1, 1, 1, 443);
    let res = target_from_sock_addr(addr.clone());
    assert_eq!(TargetAddr::Ip(addr), res);
}

#[test]
fn converts_socket_addr_str_to_target_addr() {
    let res = target_from_str("1.1.1.1:443").unwrap();
    assert_eq!(TargetAddr::Ip(v4(1, 1, 1, 1, 443)), res);
}

#[test]
fn converts_ip_str_and_port_target_addr() {
    let res = target_from_host_port("1.1.1.1", 443).unwrap();
    assert_eq!(TargetAddr::Ip(v4(1, 1, 1, 1, 443)), res);
}

#[test]
fn converts_domain_to_target_addr() {
    let domain = "www.example.com:80";
    let res = target_from_str(domain).unwrap();
    assert_eq!(TargetAddr::Domain(b"www.example.com".to_vec(), 80), res);
}

#[test]
fn converts_domain_and_port_to_target_addr() {
    let domain = "www.example.com";
    let res = target_from_host_port(domain, 80).unwrap();
    assert_eq!(TargetAddr::Domain(b"www.example.com".to_vec(), 80), res);
}

#[test]
fn overlong_domain_to_target_addr_should_fail() {
    let domain = format!("www.{:a<1$}.com:80", 'a', 300);
    assert!(target_from_str(domain.as_str()).is_err());
    let domain = format!("www.{:a<1$}.com", 'a', 300);
    assert!(target_from_host_port(domain.as_str(), 80).is_err());
}

#[test]
fn addr_with_invalid_port_to_target_addr_should_fail() {
    let addr = "[ffff::1]:65536";
    assert!(target_from_str(addr).is_err());
    let addr = "www.example.com:65536";
    assert!(target_from_str(addr).is_err());
}

#[test]
fn converts_bracketed_ipv6_str_to_target_addr() {
    let res = target_from_str("[::1]:443").unwrap();
    let mut octets = [0u8; 16];
    octets[15] = 1;
    assert_eq!(TargetAddr::Ip(SockAddr { ip: HostIp::V6(octets), port: 443 }), res);
}

#[test]
fn converts_bare_ipv6_host_to_target_addr() {
    let res = target_from_host_port("ffff::1", 80).unwrap();
    let mut octets = [0u8; 16];
    octets[0] = 0xFF;
    octets[1] = 0xFF;
    octets[15] = 1;
    assert_eq!(TargetAddr::Ip(SockAddr { ip: HostIp::V6(octets), port: 80 }), res);
}

#[test]
fn domain_of_255_bytes_succeeds_256_fails() {
    let name = "a".repeat(255);
    let res = target_from_host_port(name.as_str(), 80).unwrap();
    assert_eq!(TargetAddr::Domain(name.as_bytes().to_vec(), 80), res);
    let name = "a".repeat(256);
    assert_eq!(
        target_from_host_port(name.as_str(), 80),
        Err(Error::InvalidTargetAddress("overlong domain"))
    );
}

#[test]
fn empty_host_is_rejected() {
    assert_eq!(
        target_from_host_port("", 80),
        Err(Error::InvalidTargetAddress("invalid address format"))
    );
    assert!(target_from_str(":80").is_err());
}

#[test]
fn missing_colon_is_rejected() {
    assert_eq!(
        target_from_str("www.example.com"),
        Err(Error::InvalidTargetAddress("invalid address format"))
    );
}

#[test]
fn port_65536_fails_to_parse() {
    assert_eq!(
        target_from_str("host:65536"),
        Err(Error::InvalidTargetAddress("invalid address format"))
    );
    assert_eq!(parse_port_bytes(b"65535"), Some(65535));
    assert_eq!(parse_port_bytes(b"65536"), None);
    assert_eq!(parse_port_bytes(b""), None);
    assert_eq!(parse_port_bytes(b"80a"), None);
    assert_eq!(parse_port_bytes(b"0080"), Some(80));
}

#[test]
fn ipv4_literal_grammar() {
    assert_eq!(parse_ipv4_bytes(b"1.2.3.4"), Some([1, 2, 3, 4]));
    assert_eq!(parse_ipv4_bytes(b"255.255.255.255"), Some([255, 255, 255, 255]));
    assert_eq!(parse_ipv4_bytes(b"0.0.0.0"), Some([0, 0, 0, 0]));
    assert_eq!(parse_ipv4_bytes(b"256.0.0.1"), None);
    assert_eq!(parse_ipv4_bytes(b"01.2.3.4"), None);
    assert_eq!(parse_ipv4_bytes(b"1.2.3"), None);
    assert_eq!(parse_ipv4_bytes(b"1.2.3.4.5"), None);
    assert_eq!(parse_ipv4_bytes(b"1.2.3."), None);
    assert_eq!(parse_ipv4_bytes(b"a.b.c.d"), None);
}

#[test]
fn non_ip_host_with_ip_like_name_is_domain() {
    let res = target_from_host_port("1.2.3.4.5", 80).unwrap();
    assert_eq!(TargetAddr::Domain(b"1.2.3.4.5".to_vec(), 80), res);
}

#[test]
fn to_owned_copies_the_target() {
    let t = TargetAddr::Domain(b"www.example.com".to_vec(), 80);
    assert_eq!(t.to_owned(), t);
    let t = TargetAddr::Ip(v4(1, 1, 1, 1, 443));
    assert_eq!(t.to_owned(), t);
}
