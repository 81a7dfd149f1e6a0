use jp_router::ip::{IpAddress, ip_less_eq, ip_to_string, ipv4_to_string, parse_ip, parse_ipv4, parse_ipv6};
use jp_router::text::chars_of;

fn v6(t: &str) -> Option<u128> {
    parse_ipv6(&chars_of(t))
}

#[test]
fn ipv4_reading() {
    assert_eq!(parse_ipv4(&chars_of("10.109.132.1")), Some(0x0a6d_8401));
    assert_eq!(parse_ipv4(&chars_of("0.0.0.0")), Some(0));
    assert_eq!(parse_ipv4(&chars_of("255.255.255.255")), Some(u32::MAX));
    for t in ["256.1.1.1", "01.2.3.4", "1.2.3", "1.2.3.4.5", "1..2.3", "", "1.2.3.4 ", "1.2.3.0004"] {
        assert_eq!(parse_ipv4(&chars_of(t)), None, "{}", t);
    }
}

#[test]
fn ipv6_reading() {
    assert_eq!(v6("::"), Some(0));
    assert_eq!(v6("::1"), Some(1));
    assert_eq!(v6("1::"), Some(1u128 << 112));
    assert_eq!(v6("2001:db8::1"), Some(0x2001_0db8_0000_0000_0000_0000_0000_0001));
    assert_eq!(v6("2001:DB8:0:0:0:0:0:1"), Some(0x2001_0db8_0000_0000_0000_0000_0000_0001));
    assert_eq!(v6("::ffff:1.2.3.4"), Some(0xffff_0102_0304));
    assert_eq!(v6("1:2:3:4:5:6:1.2.3.4"), Some(0x0001_0002_0003_0004_0005_0006_0102_0304));
    assert_eq!(v6("1:2:3:4:5:6:7::"), Some(0x0001_0002_0003_0004_0005_0006_0007_0000));
    for t in ["12345::", ":::", "1::2::3", ":1::", "1:", "1:2:3:4:5:6:7", "1:2:3:4:5:6:7:8:9",
        "1.2.3.4", "::1.2.3.4:5", "1:2:3:4:5:6:7:1.2.3.4", "1:2:3:4:5:6::1.2.3.4", "g::", "1:2:3:4:5:6:7:8::"] {
        assert_eq!(v6(t), None, "{}", t);
    }
}

#[test]
fn ip_reading_tries_v4_then_v6() {
    assert_eq!(parse_ip(&chars_of("192.168.0.1")), Some(IpAddress::V4(0xc0a8_0001)));
    assert_eq!(parse_ip(&chars_of("fe80::1")), Some(IpAddress::V6(0xfe80_0000_0000_0000_0000_0000_0000_0001)));
    assert_eq!(parse_ip(&chars_of("router")), None);
}

#[test]
fn ip_writing() {
    assert_eq!(ipv4_to_string(0x0a6d_8401), "10.109.132.1");
    assert_eq!(ip_to_string(IpAddress::V6(0)), "::");
    assert_eq!(ip_to_string(IpAddress::V6(1)), "::1");
    assert_eq!(ip_to_string(IpAddress::V6(0x2001_0db8_0000_0000_0000_0000_0000_0001)), "2001:db8::1");
    assert_eq!(ip_to_string(IpAddress::V6(0xffff_0102_0304)), "::ffff:1.2.3.4");
    assert_eq!(ip_to_string(IpAddress::V6(0x0001_0000_0000_0001_0000_0000_0000_0001)), "1:0:0:1::1");
    assert_eq!(ip_to_string(IpAddress::V6(0x0001_0000_0000_0002_0000_0000_0003_0004)), "1::2:0:0:3:4");
    assert_eq!(ip_to_string(IpAddress::V6(0x0001_0000_0002_0000_0003_0000_0004_0000)), "1:0:2:0:3:0:4:0");
}

#[test]
fn ipv4_text_reads_back() {
    for v in [0u32, 1, 0x0a6d_8401, 0xffff_ffff, 0x0001_0a00] {
        assert_eq!(parse_ipv4(&chars_of(&ipv4_to_string(v))), Some(v));
    }
}

#[test]
fn ip_order_puts_v4_first() {
    assert!(ip_less_eq(IpAddress::V4(u32::MAX), IpAddress::V6(0)));
    assert!(!ip_less_eq(IpAddress::V6(0), IpAddress::V4(0)));
    assert!(ip_less_eq(IpAddress::V4(1), IpAddress::V4(2)));
    assert!(ip_less_eq(IpAddress::V4(2), IpAddress::V4(2)));
}
