use uptime_exporter::addr::{parse_ip, parse_ipv4, parse_ipv6, parse_socket, IpAddr, SocketAddr};

fn chars(text: &str) -> Vec<char> {
    text.chars().collect()
}

#[test]
fn dotted_quads() {
    assert_eq!(parse_ipv4(&chars("192.168.1.10")), Some(0xc0a8_010a));
    assert_eq!(parse_ipv4(&chars("0.0.0.0")), Some(0));
    assert_eq!(parse_ipv4(&chars("255.255.255.255")), Some(u32::MAX));
    for text in [
        "", "1.2.3", "1.2.3.4.5", "256.1.1.1", "01.2.3.4", "1.2.3.04", "1..2.3", "1.2.3.4 ",
        "a.b.c.d", "1.2.3.-4", "1.2.3.+4", "0x1.2.3.4", "1000.1.1.1",
    ] {
        assert_eq!(parse_ipv4(&chars(text)), None, "{text}");
    }
}

#[test]
fn groups_of_sixteen_bits() {
    assert_eq!(parse_ipv6(&chars("::")), Some(0));
    assert_eq!(parse_ipv6(&chars("::1")), Some(1));
    assert_eq!(parse_ipv6(&chars("1::")), Some(1 << 112));
    assert_eq!(
        parse_ipv6(&chars("2001:db8:0:1:2:3:4:5")),
        Some(0x2001_0db8_0000_0001_0002_0003_0004_0005)
    );
    assert_eq!(parse_ipv6(&chars("2001:DB8::ff")), Some(0x2001_0db8 << 96 | 0xff));
    assert_eq!(parse_ipv6(&chars("::ffff:192.168.1.10")), Some(0xffff_c0a8_010a));
    assert_eq!(
        parse_ipv6(&chars("1:2:3:4:5:6:1.2.3.4")),
        Some(0x0001_0002_0003_0004_0005_0006_0102_0304)
    );
    for text in [
        "", ":", ":::", "1", "1:2:3:4:5:6:7", "1:2:3:4:5:6:7:8:9", "1::2::3", "12345::", "g::",
        ":1", "1:", "1.2.3.4::", "::1.2.3", "1:2:3:4:5:6:7:1.2.3.4", " ::1",
    ] {
        assert_eq!(parse_ipv6(&chars(text)), None, "{text}");
    }
}

#[test]
fn either_kind_of_address() {
    assert_eq!(parse_ip(&chars("10.0.0.1")), Some(IpAddr::V4(0x0a00_0001)));
    assert_eq!(parse_ip(&chars("::2")), Some(IpAddr::V6(2)));
    assert_eq!(parse_ip(&chars("example.com")), None);
    assert_eq!(parse_ip(&chars("[::2]")), None);
    assert_eq!(parse_ip(&chars("::2%1")), None);
}

#[test]
fn addresses_with_ports() {
    assert_eq!(
        parse_socket(&chars("192.168.1.10:443")),
        Some(SocketAddr { ip: IpAddr::V4(0xc0a8_010a), port: 443, scope_id: 0 })
    );
    assert_eq!(
        parse_socket(&chars("[::1]:8080")),
        Some(SocketAddr { ip: IpAddr::V6(1), port: 8080, scope_id: 0 })
    );
    assert_eq!(
        parse_socket(&chars("[fe80::1%7]:80")),
        Some(SocketAddr { ip: IpAddr::V6(0xfe80 << 112 | 1), port: 80, scope_id: 7 })
    );
    assert_eq!(
        parse_socket(&chars("1.2.3.4:00080")),
        Some(SocketAddr { ip: IpAddr::V4(0x0102_0304), port: 80, scope_id: 0 })
    );
    for text in [
        "", "1.2.3.4", "1.2.3.4:", "1.2.3.4:65536", ":80", "::1:80", "[::1]", "[::1]:",
        "[1.2.3.4]:80", "[::1%]:80", "[::1%4294967296]:80", "[::1%x]:80", "host:80",
        "1.2.3.4:80 ", "1.2.3.4:+80",
    ] {
        assert_eq!(parse_socket(&chars(text)), None, "{text}");
    }
}

#[test]
fn a_gap_stands_for_a_group_at_least() {
    assert_eq!(
        parse_ipv6(&chars("1:2:3:4:5:6:7::")),
        Some(0x0001_0002_0003_0004_0005_0006_0007_0000)
    );
    assert_eq!(
        parse_ipv6(&chars("::2:3:4:5:6:7:8")),
        Some(0x0000_0002_0003_0004_0005_0006_0007_0008)
    );
    assert_eq!(
        parse_ipv6(&chars("1::3:4:5:6:1.2.3.4")),
        Some(0x0001_0000_0003_0004_0005_0006_0102_0304)
    );
    for text in ["1:2:3:4::5:6:7:8", "1:2:3:4:5:6:7:8::", "::1:2:3:4:5:6:7:8", "1::2:3:4:5:6:7:8"] {
        assert_eq!(parse_ipv6(&chars(text)), None, "{text}");
    }
}
