use jp_router::dhcp::{LeaseError, lease_error_message, parse_lease_line, parse_leases, router_own_lease};
use jp_router::num::{IntErrorKind, i64_error};
use jp_router::ip::IpAddress;
use jp_router::text::chars_of;

fn ips(v: &[jp_router::common::DhcpLease]) -> Vec<IpAddress> {
    v.iter().map(|l| l.ip_address).collect()
}

#[test]
fn router_lease_alone_for_empty_file() {
    let leases = parse_leases("").unwrap();
    assert_eq!(leases.len(), 1);
    let r = &leases[0];
    assert_eq!(r.ip_address, IpAddress::V4(0x0a6d_8401));
    assert_eq!(r.mac_address, "d6:f8:fc:49:c0:5d");
    assert_eq!(r.hostname.as_deref(), Some("router"));
    assert_eq!(r.client_id, None);
    assert_eq!(r.expiry_time, None);
}

#[test]
fn leases_are_read_and_sorted_by_address() {
    let text = "1700000000 aa:bb:cc:dd:ee:ff 10.109.132.50 laptop 01:aa:bb:cc:dd:ee:ff\n\
                1700000100 11:22:33:44:55:66 10.109.132.20 * *\n\
                1700000200 11:22:33:44:55:77 fd00::5 phone *\n\
                1700000300 11:22:33:44:55:88 10.109.132.2 tv *\n";
    let leases = parse_leases(text).unwrap();
    assert_eq!(
        ips(&leases),
        vec![
            IpAddress::V4(0x0a6d_8401),
            IpAddress::V4(0x0a6d_8402),
            IpAddress::V4(0x0a6d_8414),
            IpAddress::V4(0x0a6d_8432),
            IpAddress::V6(0xfd00_0000_0000_0000_0000_0000_0000_0005),
        ]
    );
    let l = &leases[3];
    assert_eq!(l.expiry_time, Some(1700000000));
    assert_eq!(l.mac_address, "aa:bb:cc:dd:ee:ff");
    assert_eq!(l.hostname.as_deref(), Some("laptop"));
    assert_eq!(l.client_id.as_deref(), Some("01:aa:bb:cc:dd:ee:ff"));
    let anon = &leases[2];
    assert_eq!(anon.hostname, None);
    assert_eq!(anon.client_id, None);
}

#[test]
fn equal_addresses_keep_file_order() {
    let text = "5 m1 10.109.132.1 first *\n6 m2 10.0.0.1 * *\n7 m3 10.109.132.1 second *";
    let leases = parse_leases(text).unwrap();
    let names: Vec<Option<&str>> = leases.iter().map(|l| l.hostname.as_deref()).collect();
    assert_eq!(names, vec![None, Some("router"), Some("first"), Some("second")]);
}

#[test]
fn wrong_field_count_is_an_error() {
    assert_eq!(parse_leases("1 2 3 4\n").unwrap_err(), LeaseError::WrongFieldCount(4));
    assert_eq!(parse_leases("1 a 10.0.0.1 h c\n\n").unwrap_err(), LeaseError::WrongFieldCount(1));
    assert_eq!(
        parse_lease_line(&chars_of("1  a 10.0.0.1 h c")).unwrap_err(),
        LeaseError::WrongFieldCount(6)
    );
}

#[test]
fn bad_fields_are_errors_in_field_order() {
    assert_eq!(
        parse_leases("soon m 10.0.0.1 h c").unwrap_err(),
        LeaseError::InvalidExpiryTime(IntErrorKind::InvalidDigit)
    );
    assert_eq!(
        parse_leases("soon m nowhere h c").unwrap_err(),
        LeaseError::InvalidExpiryTime(IntErrorKind::InvalidDigit)
    );
    assert_eq!(parse_leases("1 m 10.0.0.256 h c").unwrap_err(), LeaseError::InvalidIpAddress);
    // The first bad line decides.
    assert_eq!(
        parse_leases("1 m 10.0.0.1 h c\n1 m x h c\nbad").unwrap_err(),
        LeaseError::InvalidIpAddress
    );
}

#[test]
fn expiry_outside_chrono_range_is_absent() {
    let l = parse_lease_line(&chars_of("8210266876799 m 10.0.0.1 h c")).unwrap();
    assert_eq!(l.expiry_time, Some(8210266876799));
    let l = parse_lease_line(&chars_of("8210266876800 m 10.0.0.1 h c")).unwrap();
    assert_eq!(l.expiry_time, None);
    let l = parse_lease_line(&chars_of("-8334601228800 m 10.0.0.1 h c")).unwrap();
    assert_eq!(l.expiry_time, Some(-8334601228800));
    let l = parse_lease_line(&chars_of("-8334601228801 m 10.0.0.1 h c")).unwrap();
    assert_eq!(l.expiry_time, None);
    let l = parse_lease_line(&chars_of("0 m 10.0.0.1 h c")).unwrap();
    assert_eq!(l.expiry_time, Some(0));
}

#[test]
fn router_lease_builder() {
    let r = router_own_lease();
    assert_eq!(r.ip_address, IpAddress::V4(0x0a6d_8401));
}

#[test]
fn identical_lines_are_all_kept() {
    let text = "9 m 10.0.0.7 h c\n9 m 10.0.0.7 h c\n3 n 10.0.0.6 * *";
    let leases = parse_leases(text).unwrap();
    assert_eq!(leases.len(), 4);
    assert_eq!(
        ips(&leases),
        vec![
            IpAddress::V4(0x0a00_0006),
            IpAddress::V4(0x0a00_0007),
            IpAddress::V4(0x0a00_0007),
            IpAddress::V4(0x0a6d_8401),
        ]
    );
    assert_eq!(leases[1].expiry_time, Some(9));
    assert_eq!(leases[2].expiry_time, Some(9));
}

#[test]
fn lease_errors_read_as_the_standard_library_reports_them() {
    let kind = |t: &str| i64_error(&chars_of(t));
    for t in ["", "+", "-", "12a", "x", "-9223372036854775809", "9223372036854775808", "99999999999999999999x",
        "1x99999999999999999999", "-99999999999999999999x", "+-1", "١"] {
        let std_text = t.parse::<i64>().unwrap_err().to_string();
        let ours = lease_error_message(LeaseError::InvalidExpiryTime(kind(t)));
        assert_eq!(ours, std_text, "{:?}", t);
    }
    assert_eq!(
        lease_error_message(parse_leases("1 2 3 4").unwrap_err()),
        "Condition failed: `parts.len() == 5` (4 vs 5)"
    );
    assert_eq!(
        lease_error_message(parse_leases("1 m 10.0.0.256 h c").unwrap_err()),
        "invalid IP address syntax"
    );
    assert_eq!(
        lease_error_message(parse_leases(" m 10.0.0.1 h c").unwrap_err()),
        "cannot parse integer from empty string"
    );
}
