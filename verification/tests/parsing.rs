use pki_client::addr::{Ipv4SocketAddr, parse_socket_addr};

#[test]
fn parse_valid_target() {
    let got = parse_socket_addr("127.0.0.1:9999");
    assert_eq!(got, Some(Ipv4SocketAddr { a: 127, b: 0, c: 0, d: 1, port: 9999 }));
}

#[test]
fn parse_extremes() {
    let hi = parse_socket_addr("255.255.255.255:65535");
    assert_eq!(hi, Some(Ipv4SocketAddr { a: 255, b: 255, c: 255, d: 255, port: 65535 }));
    let lo = parse_socket_addr("0.0.0.0:0");
    assert_eq!(lo, Some(Ipv4SocketAddr { a: 0, b: 0, c: 0, d: 0, port: 0 }));
}

#[test]
fn parse_not_an_address() {
    assert_eq!(parse_socket_addr("not-an-address"), None);
}

#[test]
fn parse_rejects_empty() {
    assert_eq!(parse_socket_addr(""), None);
}

#[test]
fn parse_rejects_leading_zero_octet() {
    assert_eq!(parse_socket_addr("01.2.3.4:80"), None);
}

#[test]
fn parse_rejects_leading_zero_port() {
    assert_eq!(parse_socket_addr("1.2.3.4:080"), None);
}

#[test]
fn parse_rejects_octet_out_of_range() {
    assert_eq!(parse_socket_addr("256.1.1.1:80"), None);
}

#[test]
fn parse_rejects_port_out_of_range() {
    assert_eq!(parse_socket_addr("1.2.3.4:65536"), None);
}

#[test]
fn parse_rejects_missing_port() {
    assert_eq!(parse_socket_addr("1.2.3.4"), None);
}

#[test]
fn parse_rejects_trailing_text() {
    assert_eq!(parse_socket_addr("1.2.3.4:80x"), None);
}

#[test]
fn parse_rejects_extra_octet() {
    assert_eq!(parse_socket_addr("1.2.3.4.5:80"), None);
}

#[test]
fn parse_rejects_empty_octet() {
    assert_eq!(parse_socket_addr("1..3.4:80"), None);
}

#[test]
fn parse_rejects_hostname() {
    assert_eq!(parse_socket_addr("localhost:80"), None);
}
