use rustrecon::resolve::classify_target;
use rustrecon::resolve::parse_ipv4;
use rustrecon::resolve::parse_ipv6;
use rustrecon::resolve::HostTarget;
use rustrecon::resolve::IpAddress;

fn v4(host: &str) -> Option<(u8, u8, u8, u8)> {
    parse_ipv4(&host.as_bytes().to_vec())
}

fn v6(host: &str) -> Option<Vec<u16>> {
    parse_ipv6(&host.as_bytes().to_vec())
}

fn classify(host: &str) -> HostTarget {
    classify_target(&host.as_bytes().to_vec())
}

#[test]
fn ipv4_literals_parse() {
    assert_eq!(v4("127.0.0.1"), Some((127, 0, 0, 1)));
    assert_eq!(v4("0.0.0.0"), Some((0, 0, 0, 0)));
    assert_eq!(v4("255.255.255.255"), Some((255, 255, 255, 255)));
    assert_eq!(v4("8.8.8.8"), Some((8, 8, 8, 8)));
    assert_eq!(v4("192.168.1.254"), Some((192, 168, 1, 254)));
}

#[test]
fn ipv4_rejects_out_of_range_octets() {
    assert_eq!(v4("256.1.1.1"), None);
    assert_eq!(v4("1.1.1.999"), None);
    assert_eq!(v4("300.300.300.300"), None);
}

#[test]
fn ipv4_rejects_leading_zeros() {
    assert_eq!(v4("01.2.3.4"), None);
    assert_eq!(v4("1.2.3.04"), None);
    assert_eq!(v4("127.00.0.1"), None);
}

#[test]
fn ipv4_rejects_malformed_shapes() {
    assert_eq!(v4(""), None);
    assert_eq!(v4("1.2.3"), None);
    assert_eq!(v4("1.2.3.4.5"), None);
    assert_eq!(v4("1..2.3"), None);
    assert_eq!(v4(".1.2.3.4"), None);
    assert_eq!(v4("1.2.3.4."), None);
    assert_eq!(v4("1.2.3.4 "), None);
    assert_eq!(v4("a.b.c.d"), None);
    assert_eq!(v4("1.2.3.-4"), None);
    assert_eq!(v4("localhost"), None);
}

#[test]
fn ipv6_loopback_and_unspecified() {
    assert_eq!(v6("::1"), Some(vec![0, 0, 0, 0, 0, 0, 0, 1]));
    assert_eq!(v6("::"), Some(vec![0, 0, 0, 0, 0, 0, 0, 0]));
}

#[test]
fn ipv6_full_and_compressed_forms() {
    assert_eq!(v6("1:2:3:4:5:6:7:8"), Some(vec![1, 2, 3, 4, 5, 6, 7, 8]));
    assert_eq!(
        v6("fe80::1"),
        Some(vec![0xfe80, 0, 0, 0, 0, 0, 0, 1])
    );
    assert_eq!(
        v6("2001:db8::8a2e:370:7334"),
        Some(vec![0x2001, 0x0db8, 0, 0, 0, 0x8a2e, 0x0370, 0x7334])
    );
    assert_eq!(
        v6("1:2::"),
        Some(vec![1, 2, 0, 0, 0, 0, 0, 0])
    );
    assert_eq!(
        v6("FE80::A:b"),
        Some(vec![0xfe80, 0, 0, 0, 0, 0, 0xa, 0xb])
    );
}

#[test]
fn ipv6_with_embedded_ipv4_tail() {
    assert_eq!(
        v6("::ffff:192.168.1.1"),
        Some(vec![0, 0, 0, 0, 0, 0xffff, 0xc0a8, 0x0101])
    );
    assert_eq!(
        v6("1:2:3:4:5:6:1.2.3.4"),
        Some(vec![1, 2, 3, 4, 5, 6, 0x0102, 0x0304])
    );
}

#[test]
fn ipv6_rejects_malformed_shapes() {
    assert_eq!(v6(""), None);
    assert_eq!(v6(":"), None);
    assert_eq!(v6(":::1"), None);
    assert_eq!(v6("1::2::3"), None);
    assert_eq!(v6("1:2:3:4:5:6:7:8:9"), None);
    assert_eq!(v6("1:2:3:4:5:6:7::8"), None);
    assert_eq!(v6("12345::"), None);
    assert_eq!(v6("1:2"), None);
    assert_eq!(v6(":1:2:3:4:5:6:7"), None);
    assert_eq!(v6("1:2:3:4:5:6:7:"), None);
    assert_eq!(v6("fe80::1%eth0"), None);
    assert_eq!(v6("g::1"), None);
    assert_eq!(v6("1.2.3.4::"), None);
    assert_eq!(v6("::1.2.3.4.5"), None);
    assert_eq!(v6("1.2.3.4"), None);
}

#[test]
fn literal_ipv4_is_classified_without_dns() {
    assert_eq!(
        classify("127.0.0.1"),
        HostTarget::Literal(IpAddress::V4(127, 0, 0, 1))
    );
    assert_eq!(
        classify("8.8.8.8"),
        HostTarget::Literal(IpAddress::V4(8, 8, 8, 8))
    );
}

#[test]
fn literal_ipv6_is_classified_without_dns() {
    assert_eq!(
        classify("::1"),
        HostTarget::Literal(IpAddress::V6(vec![0, 0, 0, 0, 0, 0, 0, 1]))
    );
}

#[test]
fn names_fall_through_to_dns() {
    assert_eq!(classify("localhost"), HostTarget::Hostname);
    assert_eq!(classify("example.com"), HostTarget::Hostname);
    assert_eq!(classify("999.1.1.1"), HostTarget::Hostname);
    assert_eq!(classify(""), HostTarget::Hostname);
}
