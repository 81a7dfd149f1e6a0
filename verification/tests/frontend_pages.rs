use jp_router::dhcp::parse_leases;
use jp_router::frontend::{
    Html, Route, TemplateProps, dhcp_leases_page, header, home, interface_row, lease_row, nav,
    not_found, switch, template, text, dhcp_leases_page_of, interfaces_page_of, with_local_expiry,
    interfaces_page, list_after_fetch, poll_interval,
};
use jp_router::datetime::{format_datetime, local_datetime_text};
use jp_router::common::{NetworkAddress, NetworkAddressScope, NetworkInterface, NetworkInterfaceOperState};
use jp_router::ip::IpAddress;

/// A plain rendering of the page structure, for comparison.
fn render(h: &Html) -> String {
    match h {
        Html::Text(t) => t.clone(),
        Html::Fragment(c) => c.iter().map(render).collect(),
        Html::Link { to, children } => {
            format!("<a href=\"{}\">{}</a>", to.to_path(), children.iter().map(render).collect::<String>())
        },
        Html::Element { tag, attributes, children } => {
            let attrs: String = attributes.iter().map(|(k, v)| format!(" {}=\"{}\"", k, v)).collect();
            format!("<{}{}>{}</{}>", tag, attrs, children.iter().map(render).collect::<String>(), tag)
        },
    }
}

#[test]
fn routes_round_trip() {
    for r in [Route::Home, Route::DhcpLeases, Route::Interfaces, Route::NotFound] {
        assert_eq!(Route::recognize(&r.to_path()), r);
    }
    assert_eq!(Route::recognize("/dhcp-leases"), Route::DhcpLeases);
    assert_eq!(Route::recognize("/nothing"), Route::NotFound);
    assert_eq!(Route::recognize("/404"), Route::NotFound);
    // One trailing and one leading slash do not matter.
    assert_eq!(Route::recognize(""), Route::Home);
    assert_eq!(Route::recognize("/dhcp-leases/"), Route::DhcpLeases);
    assert_eq!(Route::recognize("interfaces"), Route::Interfaces);
    assert_eq!(Route::recognize("//"), Route::Home);
    assert_eq!(Route::recognize("/interfaces//"), Route::NotFound);
    assert_eq!(Route::recognize("//interfaces"), Route::NotFound);
}

#[test]
fn header_and_nav_structure() {
    assert_eq!(
        render(&header()),
        "<header><h1>router.arago136.es</h1><div class=\"logo-container\"><div class=\"logo\"></div></div></header>"
    );
    assert_eq!(
        render(&nav()),
        "<nav><a href=\"/\">Home</a> | <a href=\"/dhcp-leases\">DHCP Leases</a> | <a href=\"/interfaces\">Network interfaces</a></nav>"
    );
}

#[test]
fn home_page_links() {
    let h = render(&home());
    assert!(h.starts_with(&(render(&header()) + &render(&nav()))));
    assert!(h.contains("<li><a href=\"/bandwidthd/\">BandwidthD</a></li>"));
    assert!(h.contains("<li><a href=\"https://pihole.arago136.es/\">Pi-hole</a></li>"));
    assert!(h.contains("<div class=\"help\"><p>Links to other services running on this device</p></div>"));
}

#[test]
fn template_frames_children() {
    let t = template(&TemplateProps { children: vec![text("body")] });
    assert_eq!(
        render(&t),
        "<header><h1>JP Router</h1></header><nav><a href=\"/\">Home</a> | <a href=\"/dhcp-leases\">DHCP Leases</a></nav>body"
    );
    assert_eq!(render(&not_found()), "<section><h2>Not Found</h2><p>Page not found</p></section>");
}

#[test]
fn lease_page_rows() {
    let leases = parse_leases("1 aa:bb 10.0.0.9 * id9").unwrap();
    let row = lease_row(&leases[0], "");
    assert_eq!(
        render(&row),
        "<tr key=\"10.0.0.9\"><td></td><td>aa:bb</td><td>10.0.0.9</td><td></td><td>id9</td></tr>"
    );
    let page = render(&dhcp_leases_page(vec![row]));
    assert!(page.contains("<h2>DHCP leases</h2><table><thead><tr><th>Expiry time</th><th>MAC address</th>"));
    assert!(page.ends_with("<td>id9</td></tr></tbody></table></section>"));
}

#[test]
fn interface_rows() {
    let i = NetworkInterface {
        index: 2,
        name: "eth0".to_string(),
        oper_state: NetworkInterfaceOperState::Up,
        mac_address: "00:11".to_string(),
        ip_addresses: vec![NetworkAddress {
            scope: NetworkAddressScope::Universe,
            address: IpAddress::V6(1),
            local: None,
            broadcast: None,
            prefix_len: 128,
        }],
        mtu: 1500,
        speed: Some(1000),
        rx_bytes: 2,
        rx_dropped: 3,
        rx_errors: 4,
        rx_packets: 1,
        tx_bytes: 6,
        tx_dropped: 7,
        tx_errors: 8,
        tx_packets: 5,
    };
    assert_eq!(
        render(&interface_row(&i)),
        "<tr key=\"eth0\"><td>eth0</td><td>up</td><td>00:11</td><td>::1/128<br></br></td><td>1000</td><td>1500</td><td>1</td><td>2</td><td>3</td><td>4</td><td>5</td><td>6</td><td>7</td><td>8</td></tr>"
    );
}

#[test]
fn switch_shows_each_page() {
    assert_eq!(render(&switch(Route::Home)), render(&home()));
    assert_eq!(render(&switch(Route::NotFound)), render(&not_found()));
    let leases = render(&switch(Route::DhcpLeases));
    assert_eq!(leases, render(&dhcp_leases_page(vec![])));
    assert!(leases.ends_with("<th>Client ID</th></tr></thead><tbody></tbody></table></section>"));
    let ifaces = render(&switch(Route::Interfaces));
    assert!(ifaces.contains("<h2>Network interfaces</h2>"));
    assert!(ifaces.contains("<th colspan=\"4\">RX</th><th colspan=\"4\">TX</th>"));
    assert!(ifaces.ends_with("<tbody></tbody></table></section>"));
}

#[test]
fn lease_row_without_expiry_has_empty_cell() {
    let leases = parse_leases("1 aa 10.0.0.9 * *").unwrap();
    let router = &leases[1];
    assert_eq!(router.expiry_time, None);
    assert!(render(&lease_row(router, "ignored")).starts_with("<tr key=\"10.109.132.1\"><td></td>"));
    assert!(render(&lease_row(&leases[0], "soon")).starts_with("<tr key=\"10.0.0.9\"><td>soon</td>"));
}

#[test]
fn lease_page_has_one_row_per_lease() {
    let leases = parse_leases("1 aa 10.0.0.9 * *\n2 bb 10.0.0.8 pc *").unwrap();
    let with_texts: Vec<_> = leases.iter().map(|l| (l.clone(), "T".to_string())).collect();
    let page = render(&dhcp_leases_page_of(&with_texts));
    let rows: Vec<String> = leases.iter().map(|l| render(&lease_row(l, "T"))).collect();
    assert_eq!(page, render(&dhcp_leases_page(rows.iter().map(|r| text(r)).collect())));
    assert_eq!(page.matches("<tr key=").count(), 3);
    let a = page.find("10.0.0.8").unwrap();
    let b = page.find("10.0.0.9").unwrap();
    let c = page.find("10.109.132.1").unwrap();
    assert!(a < b && b < c);
    assert!(page.contains("<tr key=\"10.109.132.1\"><td></td><td>d6:f8:fc:49:c0:5d</td>"));
}

#[test]
fn local_expiry_pairs_every_lease() {
    let leases = parse_leases("1700000000 aa 10.0.0.9 * *").unwrap();
    let v = with_local_expiry(&leases);
    assert_eq!(v.len(), 2);
    assert_eq!(v[0].0.ip_address, leases[0].ip_address);
    let t = chrono::DateTime::from_timestamp(1700000000, 0).unwrap();
    let expected = chrono::DateTime::<chrono::Local>::from(t).format("%Y-%m-%d %H:%M:%S").to_string();
    assert_eq!(v[0].1, expected);
    assert_eq!(v[1].1, "");
}

#[test]
fn interfaces_page_has_one_row_per_interface() {
    let mk = |name: &str| NetworkInterface {
        index: 1,
        name: name.to_string(),
        oper_state: NetworkInterfaceOperState::Down,
        mac_address: "m".to_string(),
        ip_addresses: vec![],
        mtu: 1,
        speed: None,
        rx_bytes: 0,
        rx_dropped: 0,
        rx_errors: 0,
        rx_packets: 0,
        tx_bytes: 0,
        tx_dropped: 0,
        tx_errors: 0,
        tx_packets: 0,
    };
    let v = vec![mk("b"), mk("a")];
    let page = render(&interfaces_page_of(&v));
    let by_rows = render(&interfaces_page(vec![interface_row(&v[0]), interface_row(&v[1])]));
    assert_eq!(page, by_rows);
    assert!(page.contains("<tbody><tr key=\"b\">"));
    assert!(page.find("key=\"b\"").unwrap() < page.find("key=\"a\"").unwrap());
    assert_eq!(render(&interfaces_page_of(&vec![])), render(&switch(Route::Interfaces)));
}

#[test]
fn datetime_layout_matches_chrono() {
    let cases: [(i32, u32, u32, u32, u32, u32); 6] = [
        (2023, 11, 14, 22, 13, 20),
        (5, 3, 7, 1, 2, 3),
        (-1, 1, 1, 0, 0, 0),
        (10000, 12, 31, 23, 59, 59),
        (-262143, 1, 1, 0, 0, 0),
        (262142, 12, 31, 23, 59, 59),
    ];
    for (y, mo, d, h, mi, s) in cases {
        let expected = chrono::NaiveDate::from_ymd_opt(y, mo, d)
            .unwrap()
            .and_hms_opt(h, mi, s)
            .unwrap()
            .format("%Y-%m-%d %H:%M:%S")
            .to_string();
        assert_eq!(format_datetime((y, mo, d, h, mi, s)), expected);
    }
    assert_eq!(format_datetime((-1, 1, 1, 0, 0, 0)), "-0001-01-01 00:00:00");
    assert_eq!(format_datetime((10000, 2, 3, 4, 5, 6)), "+10000-02-03 04:05:06");
}

#[test]
fn local_text_matches_chrono() {
    for secs in [0i64, 1700000000, -1, 4102444800, -8334601228800 + 86400 * 2, 8210266876799 - 86400 * 2] {
        let t = chrono::DateTime::from_timestamp(secs, 0).unwrap();
        let expected = chrono::DateTime::<chrono::Local>::from(t).format("%Y-%m-%d %H:%M:%S").to_string();
        assert_eq!(local_datetime_text(secs), expected, "{}", secs);
    }
}

#[test]
fn polling_keeps_rows_on_failure() {
    assert_eq!(poll_interval(Route::Interfaces), Some(400));
    assert_eq!(poll_interval(Route::DhcpLeases), Some(5000));
    assert_eq!(poll_interval(Route::Home), None);
    assert_eq!(poll_interval(Route::NotFound), None);
    assert_eq!(list_after_fetch(vec![1, 2], None), vec![1, 2]);
    assert_eq!(list_after_fetch(vec![1, 2], Some(vec![3])), vec![3]);
}
