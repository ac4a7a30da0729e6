use server_config::ip::{parse_ip, parse_ipv4, parse_ipv6, IpAddr, Ipv4Addr, Ipv6Addr};

#[test]
fn parses_dotted_quads() {
    assert_eq!(parse_ipv4("192.168.0.1"), Some(Ipv4Addr::new(192, 168, 0, 1)));
    assert_eq!(parse_ipv4("0.0.0.0"), Some(Ipv4Addr::new(0, 0, 0, 0)));
    assert_eq!(parse_ipv4("255.255.255.255"), Some(Ipv4Addr::new(255, 255, 255, 255)));
}

#[test]
fn rejects_bad_dotted_quads() {
    assert_eq!(parse_ipv4("256.0.0.1"), None);
    assert_eq!(parse_ipv4("1.2.3"), None);
    assert_eq!(parse_ipv4("1.2.3.4.5"), None);
    assert_eq!(parse_ipv4("01.2.3.4"), None);
    assert_eq!(parse_ipv4("1.2.3."), None);
    assert_eq!(parse_ipv4(""), None);
    assert_eq!(parse_ipv4("a.b.c.d"), None);
}

#[test]
fn parses_ipv6_literals() {
    assert_eq!(parse_ipv6("::"), Some(Ipv6Addr::new(0, 0, 0, 0, 0, 0, 0, 0)));
    assert_eq!(parse_ipv6("::1"), Some(Ipv6Addr::new(0, 0, 0, 0, 0, 0, 0, 1)));
    assert_eq!(parse_ipv6("1::"), Some(Ipv6Addr::new(1, 0, 0, 0, 0, 0, 0, 0)));
    assert_eq!(
        parse_ipv6("1:2:3:4:5:6:7:8"),
        Some(Ipv6Addr::new(1, 2, 3, 4, 5, 6, 7, 8))
    );
    assert_eq!(
        parse_ipv6("2001:db8::ff00:42:8329"),
        Some(Ipv6Addr::new(0x2001, 0xdb8, 0, 0, 0, 0xff00, 0x42, 0x8329))
    );
    assert_eq!(
        parse_ipv6("::ffff:192.168.0.1"),
        Some(Ipv6Addr::new(0, 0, 0, 0, 0, 0xffff, 0xc0a8, 0x1))
    );
    assert_eq!(
        parse_ipv6("64:ff9b::192.0.2.33"),
        Some(Ipv6Addr::new(0x64, 0xff9b, 0, 0, 0, 0, 0xc000, 0x221))
    );
    assert_eq!(
        parse_ipv6("1:2:3:4:5:6:192.168.0.1"),
        Some(Ipv6Addr::new(1, 2, 3, 4, 5, 6, 0xc0a8, 0x1))
    );
}

#[test]
fn rejects_bad_ipv6_literals() {
    assert_eq!(parse_ipv6(""), None);
    assert_eq!(parse_ipv6(":"), None);
    assert_eq!(parse_ipv6(":::"), None);
    assert_eq!(parse_ipv6("1:2:3:4:5:6:7"), None);
    assert_eq!(parse_ipv6("1:2:3:4:5:6:7:8:9"), None);
    assert_eq!(parse_ipv6("1::2::3"), None);
    assert_eq!(parse_ipv6(":1:2:3:4:5:6:7"), None);
    assert_eq!(parse_ipv6("1:2:3:4:5:6:7:"), None);
    assert_eq!(parse_ipv6("::1:2:3:4:5:6:7:8"), None);
    assert_eq!(parse_ipv6("12345::"), None);
    assert_eq!(parse_ipv6("g::"), None);
    assert_eq!(parse_ipv6("1.2.3.4::"), None);
    assert_eq!(parse_ipv6("::1.2.3.4:5"), None);
}

#[test]
fn parse_ip_picks_the_right_version() {
    assert_eq!(
        parse_ip("10.0.0.7"),
        Some(IpAddr::V4(Ipv4Addr::new(10, 0, 0, 7)))
    );
    assert_eq!(
        parse_ip("fe80::1"),
        Some(IpAddr::V6(Ipv6Addr::new(0xfe80, 0, 0, 0, 0, 0, 0, 1)))
    );
    assert_eq!(parse_ip("localhost"), None);
    assert_eq!(parse_ip(""), None);
}
