use cmux_proxy::ascii::{
    byte_is_digit, byte_is_space, byte_lower, bytes_eq, ends_with_lowered, find_byte, lowered_eq,
    parse_port, push_decimal, rfind_byte, trim_bounds,
};
use cmux_proxy::net::{IpAddr, Ipv4Addr, Ipv6Addr, SocketAddr};

#[test]
fn byte_classes() {
    assert!(byte_is_digit(b'0') && byte_is_digit(b'9'));
    assert!(!byte_is_digit(b'/') && !byte_is_digit(b':') && !byte_is_digit(b'a'));
    assert!(byte_is_space(b' ') && byte_is_space(b'\t') && byte_is_space(b'\n'));
    assert!(byte_is_space(0x0b) && byte_is_space(0x0c) && byte_is_space(b'\r'));
    assert!(!byte_is_space(b'x') && !byte_is_space(0x08) && !byte_is_space(0x0e));
    assert_eq!(byte_lower(b'A'), b'a');
    assert_eq!(byte_lower(b'Z'), b'z');
    assert_eq!(byte_lower(b'a'), b'a');
    assert_eq!(byte_lower(b'@'), b'@');
    assert_eq!(byte_lower(b'['), b'[');
    assert_eq!(byte_lower(0xc3), 0xc3);
}

#[test]
fn trimming_finds_the_text_between_white_space() {
    assert_eq!(trim_bounds(b"  8080\t"), (2, 6));
    assert_eq!(trim_bounds(b"8080"), (0, 4));
    assert_eq!(trim_bounds(b"a b"), (0, 3));
    assert_eq!(trim_bounds(b""), (0, 0));
    let (from, to) = trim_bounds(b" \t ");
    assert_eq!(from, to);
}

#[test]
fn port_text_is_read_as_a_sixteen_bit_number() {
    assert_eq!(parse_port(b"0"), Some(0));
    assert_eq!(parse_port(b"8080"), Some(8080));
    assert_eq!(parse_port(b"65535"), Some(65535));
    assert_eq!(parse_port(b"65536"), None);
    assert_eq!(parse_port(b"0000000000000000000080"), Some(80));
    assert_eq!(parse_port(b"99999999999999999999999"), None);
    assert_eq!(parse_port(b"+80"), Some(80));
    assert_eq!(parse_port(b"+"), None);
    assert_eq!(parse_port(b""), None);
    assert_eq!(parse_port(b"-1"), None);
    assert_eq!(parse_port(b"++1"), None);
    assert_eq!(parse_port(b"80 "), None);
    assert_eq!(parse_port(b"8o"), None);
    assert_eq!(parse_port(b"0x50"), None);
}

#[test]
fn port_text_agrees_with_the_standard_parser() {
    let cases = ["0", "1", "+1", "-1", "65535", "65536", "", "+", " 1", "1 ", "00001", "1e3", "١"];
    for text in cases {
        assert_eq!(parse_port(text.as_bytes()), text.parse::<u16>().ok(), "{:?}", text);
    }
}

#[test]
fn bytes_are_found_from_either_end() {
    assert_eq!(find_byte(b"host:80:90", b':'), 4);
    assert_eq!(find_byte(b"host", b':'), 4);
    assert_eq!(find_byte(b"", b':'), 0);
    assert_eq!(rfind_byte(b"a-b-c", b'-'), Some(3));
    assert_eq!(rfind_byte(b"-abc", b'-'), Some(0));
    assert_eq!(rfind_byte(b"abc", b'-'), None);
    assert_eq!(rfind_byte(b"", b'-'), None);
}

#[test]
fn texts_are_compared_with_and_without_case() {
    assert!(bytes_eq(b"CONNECT", b"CONNECT"));
    assert!(!bytes_eq(b"CONNECT", b"connect"));
    assert!(!bytes_eq(b"CONNECT", b"CONNEC"));
    assert!(lowered_eq(b"UpGrade", b"upgrade"));
    assert!(!lowered_eq(b"upgrade", b"UPGRADE"));
    assert!(!lowered_eq(b"upgrades", b"upgrade"));
    assert!(ends_with_lowered(b"ws-1.LocalHost", b".localhost"));
    assert!(ends_with_lowered(b".localhost", b".localhost"));
    assert!(!ends_with_lowered(b"localhost", b".localhost"));
    assert!(!ends_with_lowered(b"ws-1.localhost.", b".localhost"));
}

#[test]
fn numbers_are_written_in_decimal() {
    let cases = [0u64, 1, 2, 3, 4, 5, 6, 7, 8, 9, 10, 99, 100, 255, 8080, 65535, 4294967295, u64::MAX];
    for n in cases {
        let mut out = String::from("port ");
        push_decimal(&mut out, n);
        assert_eq!(out, format!("port {}", n));
    }
}

#[test]
fn ipv4_addresses_are_written_in_dotted_decimal() {
    assert_eq!(Ipv4Addr::new(127, 18, 0, 1).to_text(), "127.18.0.1");
    assert_eq!(Ipv4Addr::new(0, 0, 0, 0).to_text(), "0.0.0.0");
    assert_eq!(Ipv4Addr::new(255, 255, 255, 255).to_text(), "255.255.255.255");
    assert_eq!(Ipv4Addr::new(10, 200, 3, 40).to_text(), "10.200.3.40");
    assert_eq!(Ipv4Addr::new(1, 2, 3, 4).octets(), [1, 2, 3, 4]);
}

#[test]
fn addresses_know_their_family() {
    let wildcard = SocketAddr::new(IpAddr::V4(Ipv4Addr::new(0, 0, 0, 0)), 80);
    let local = SocketAddr::new(IpAddr::V4(Ipv4Addr::new(127, 0, 0, 1)), 80);
    let six = SocketAddr::new(IpAddr::V6(Ipv6Addr { bits: 0 }), 80);
    assert!(wildcard.is_ipv4() && wildcard.is_ipv4_wildcard());
    assert!(local.is_ipv4() && !local.is_ipv4_wildcard());
    assert!(!six.is_ipv4() && !six.is_ipv4_wildcard());
    assert!(Ipv4Addr::new(0, 0, 0, 0).is_unspecified());
    assert!(!Ipv4Addr::new(0, 0, 0, 1).is_unspecified());
}
