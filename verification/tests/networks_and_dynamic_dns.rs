use jp_router::common::{NetworkAddress, NetworkAddressScope, NetworkInterface, NetworkInterfaceOperState};
use jp_router::dns::{DnsChange, ResourceRecordSet, ResourceRecordSetId};
use jp_router::dynamic_dns::{WanAddress, dynamic_dns_change, wan_address};
use jp_router::ip::IpAddress;
use jp_router::networks::{
    AddressAttr, AddressInfo, LinkAttr, LinkInfo, LinkStats, address_entries, address_entry, addresses_of,
    assemble_interface, assemble_interfaces, complete_links, format_mac, link_fields, parse_speed,
};

fn stats() -> LinkStats {
    LinkStats {
        rx_bytes: 1,
        rx_dropped: 2,
        rx_errors: 3,
        rx_packets: 4,
        tx_bytes: 5,
        tx_dropped: 6,
        tx_errors: 7,
        tx_packets: 8,
    }
}

fn addr(scope: NetworkAddressScope, address: IpAddress, local: Option<IpAddress>) -> NetworkAddress {
    NetworkAddress { scope, address, local, broadcast: None, prefix_len: 24 }
}

fn iface(name: &str, addrs: Vec<NetworkAddress>) -> NetworkInterface {
    NetworkInterface {
        index: 1,
        name: name.to_string(),
        oper_state: NetworkInterfaceOperState::Up,
        mac_address: String::new(),
        ip_addresses: addrs,
        mtu: 1500,
        speed: None,
        rx_bytes: 0,
        rx_dropped: 0,
        rx_errors: 0,
        rx_packets: 0,
        tx_bytes: 0,
        tx_dropped: 0,
        tx_errors: 0,
        tx_packets: 0,
    }
}

#[test]
fn mac_addresses_are_lower_hex_with_colons() {
    assert_eq!(format_mac(&vec![0xd6, 0xf8, 0x0c, 0x49, 0xc0, 0x5d]), "d6:f8:0c:49:c0:5d");
    assert_eq!(format_mac(&vec![]), "");
    assert_eq!(format_mac(&vec![0]), "00");
}

#[test]
fn speed_is_trimmed_u64() {
    assert_eq!(parse_speed(Some("1000\n")), Some(1000));
    assert_eq!(parse_speed(Some("-1\n")), None);
    assert_eq!(parse_speed(Some("")), None);
    assert_eq!(parse_speed(None), None);
}

#[test]
fn address_messages_last_attribute_wins() {
    let info = AddressInfo {
        index: 3,
        scope: NetworkAddressScope::Universe,
        prefix_len: 24,
        attributes: vec![
            AddressAttr::Address(IpAddress::V4(1)),
            AddressAttr::Local(IpAddress::V4(2)),
            AddressAttr::Other,
            AddressAttr::Address(IpAddress::V4(3)),
            AddressAttr::Broadcast(0xff),
        ],
    };
    let (index, a) = address_entry(&info).unwrap();
    assert_eq!(index, 3);
    assert_eq!(a.address, IpAddress::V4(3));
    assert_eq!(a.local, Some(IpAddress::V4(2)));
    assert_eq!(a.broadcast, Some(0xff));
    let no_address = AddressInfo { attributes: vec![AddressAttr::Local(IpAddress::V4(2))], ..info };
    assert_eq!(address_entry(&no_address), None);
}

#[test]
fn addresses_grouped_by_interface_in_order() {
    let mk = |index: u32, a: u32| AddressInfo {
        index,
        scope: NetworkAddressScope::Link,
        prefix_len: 8,
        attributes: vec![AddressAttr::Address(IpAddress::V4(a))],
    };
    let entries = address_entries(&vec![mk(1, 10), mk(2, 20), mk(1, 11), AddressInfo { attributes: vec![], ..mk(1, 0) }]);
    assert_eq!(entries.len(), 3);
    let of1: Vec<IpAddress> = addresses_of(&entries, 1).iter().map(|a| a.address).collect();
    assert_eq!(of1, vec![IpAddress::V4(10), IpAddress::V4(11)]);
    assert!(addresses_of(&entries, 9).is_empty());
}

#[test]
fn links_need_all_attributes() {
    let full = vec![
        LinkAttr::IfName("eth0".to_string()),
        LinkAttr::OperState(NetworkInterfaceOperState::Up),
        LinkAttr::Address(vec![1, 2, 3, 4, 5, 6]),
        LinkAttr::Mtu(1500),
        LinkAttr::Stats64(stats()),
        LinkAttr::Mtu(9000),
    ];
    let f = link_fields(&full).unwrap();
    assert_eq!(f.name, "eth0");
    assert_eq!(f.mac_address, "01:02:03:04:05:06");
    assert_eq!(f.mtu, 9000);
    for missing in 0..5 {
        let mut attrs = full.clone();
        attrs.retain(|a| {
            !matches!(
                (missing, a),
                (0, LinkAttr::IfName(_)) | (1, LinkAttr::OperState(_)) | (2, LinkAttr::Address(_))
                    | (3, LinkAttr::Mtu(_)) | (4, LinkAttr::Stats64(_))
            )
        });
        assert!(link_fields(&attrs).is_none(), "{}", missing);
    }
    let entries = vec![(7, addr(NetworkAddressScope::Host, IpAddress::V4(1), None))];
    let i = assemble_interface(7, &f, &entries, Some(" 100 "));
    assert_eq!((i.index, i.mtu, i.speed, i.rx_packets, i.tx_packets), (7, 9000, Some(100), 4, 8));
    assert_eq!(i.ip_addresses.len(), 1);
}

#[test]
fn wan_address_selection() {
    let ifaces = vec![
        iface("eth1", vec![addr(NetworkAddressScope::Universe, IpAddress::V4(9), None)]),
        iface(
            "eth0",
            vec![
                addr(NetworkAddressScope::Link, IpAddress::V4(1), None),
                addr(NetworkAddressScope::Universe, IpAddress::V6(5), None),
                addr(NetworkAddressScope::Universe, IpAddress::V4(2), Some(IpAddress::V6(3))),
                addr(NetworkAddressScope::Universe, IpAddress::V6(4), Some(IpAddress::V4(0x5db8_d822))),
                addr(NetworkAddressScope::Universe, IpAddress::V4(6), None),
            ],
        ),
    ];
    assert_eq!(wan_address(&ifaces, "eth0"), WanAddress::Found(0x5db8_d822));
    assert_eq!(wan_address(&ifaces, "eth1"), WanAddress::Found(9));
    assert_eq!(wan_address(&ifaces, "ppp0"), WanAddress::NoInterface);
    let quiet = vec![iface("eth0", vec![addr(NetworkAddressScope::Link, IpAddress::V4(1), None)])];
    assert_eq!(wan_address(&quiet, "eth0"), WanAddress::NoPublicAddress);
}

fn rrset_id() -> ResourceRecordSetId {
    ResourceRecordSetId {
        project: "p".to_string(),
        zone: "z".to_string(),
        name: "home.example.com.".to_string(),
        type_: "A".to_string(),
    }
}

#[test]
fn dynamic_dns_decisions() {
    match dynamic_dns_change(rrset_id(), None, 0x5db8_d822) {
        DnsChange::Create(r) => assert_eq!((r.ttl, r.rrdatas), (60, vec!["93.184.216.34".to_string()])),
        _ => panic!("expected a creation"),
    }
    let stale = ResourceRecordSet { id: rrset_id(), ttl: 300, rrdatas: vec!["1.2.3.4".to_string()] };
    match dynamic_dns_change(rrset_id(), Some(stale), 0x5db8_d822) {
        DnsChange::Update(r) => assert_eq!((r.ttl, r.rrdatas), (60, vec!["93.184.216.34".to_string()])),
        _ => panic!("expected an update"),
    }
    // A record with the usual time to live is kept, even with another address.
    let same_ttl = ResourceRecordSet { id: rrset_id(), ttl: 60, rrdatas: vec!["1.2.3.4".to_string()] };
    assert!(matches!(dynamic_dns_change(rrset_id(), Some(same_ttl), 0x5db8_d822), DnsChange::Keep));
    let same_data = ResourceRecordSet { id: rrset_id(), ttl: 300, rrdatas: vec!["93.184.216.34".to_string()] };
    assert!(matches!(dynamic_dns_change(rrset_id(), Some(same_data), 0x5db8_d822), DnsChange::Keep));
}

#[test]
fn oper_state_texts() {
    assert_eq!(NetworkInterfaceOperState::LowerLayerDown.to_display_string(), "lower-layer-down");
    assert_eq!(NetworkInterfaceOperState::NotPresent.to_display_string(), "not-present");
    assert_eq!(NetworkInterfaceOperState::Other(7).to_display_string(), "other (7");
    assert_eq!(NetworkInterfaceOperState::Unrecognized.to_display_string(), "none");
    assert_eq!(NetworkInterfaceOperState::Up.to_display_string(), "up");
}

#[test]
fn one_interface_per_complete_link() {
    let links = vec![
        LinkInfo {
            index: 2,
            attributes: vec![
                LinkAttr::IfName("wan".to_string()),
                LinkAttr::OperState(NetworkInterfaceOperState::Up),
                LinkAttr::Address(vec![0x0a, 0x1b, 0x00, 0xff, 0x05, 0xc0]),
                LinkAttr::Mtu(1500),
                LinkAttr::Stats64(stats()),
            ],
        },
        LinkInfo {
            index: 3,
            attributes: vec![
                LinkAttr::IfName("x".to_string()),
                LinkAttr::OperState(NetworkInterfaceOperState::Down),
                LinkAttr::Address(vec![0; 6]),
                LinkAttr::Stats64(stats()),
            ],
        },
    ];
    let infos = vec![AddressInfo {
        index: 2,
        scope: NetworkAddressScope::Universe,
        prefix_len: 24,
        attributes: vec![AddressAttr::Address(IpAddress::V4(0xcb00_7107))],
    }];
    let entries = address_entries(&infos);
    let complete = complete_links(&links);
    assert_eq!(complete.len(), 1);
    let items: Vec<_> = complete.into_iter().map(|(i, f)| (i, f, Some("1000\n".to_string()))).collect();
    let v = assemble_interfaces(&items, &entries);
    assert_eq!(v.len(), 1);
    let i = &v[0];
    assert_eq!((i.index, i.name.as_str(), i.oper_state), (2, "wan", NetworkInterfaceOperState::Up));
    assert_eq!(i.mac_address, "0a:1b:00:ff:05:c0");
    assert_eq!(
        i.ip_addresses,
        vec![NetworkAddress {
            scope: NetworkAddressScope::Universe,
            address: IpAddress::V4(0xcb00_7107),
            local: None,
            broadcast: None,
            prefix_len: 24,
        }]
    );
    assert_eq!((i.mtu, i.speed), (1500, Some(1000)));
    assert_eq!(
        (i.rx_bytes, i.rx_dropped, i.rx_errors, i.rx_packets, i.tx_bytes, i.tx_dropped, i.tx_errors, i.tx_packets),
        (1, 2, 3, 4, 5, 6, 7, 8)
    );
}
