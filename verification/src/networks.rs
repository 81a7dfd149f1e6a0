//! Assembling the list of network interfaces from what the kernel reports
//! over netlink: the attributes of each link and of each address.

use vstd::prelude::*;
use crate::common::{NetworkAddress, NetworkAddressScope, NetworkInterface, NetworkInterfaceOperState};
use crate::ip::IpAddress;
use crate::num::{hex_digit_lower, hex_char_lower, parse_u64, parse_u64_spec};
use crate::text::{chars_of, string_of, trim, trim_spec};

verus! {

// ---------------------------------------------------------------------------
// Addresses

/// An attribute of an address message, as far as the router reads it.
#[derive(Clone, Copy, Debug, PartialEq, Eq, Structural)]
pub enum AddressAttr {
    Address(IpAddress),
    Local(IpAddress),
    /// An IPv4 broadcast address, as its number.
    Broadcast(u32),
    /// Any other attribute.
    Other,
}

/// An address message: the index of its interface, its scope, its prefix
/// length and its attributes.
#[derive(Clone, Debug)]
pub struct AddressInfo {
    pub index: u32,
    pub scope: NetworkAddressScope,
    pub prefix_len: u8,
    pub attributes: Vec<AddressAttr>,
}

/// The value of the last `Address` attribute.
pub open spec fn last_address(attrs: Seq<AddressAttr>) -> Option<IpAddress>
    decreases attrs.len(),
{
    if attrs.len() == 0 {
        None
    } else {
        match attrs.last() {
            AddressAttr::Address(a) => Some(a),
            _ => last_address(attrs.drop_last()),
        }
    }
}

/// The value of the last `Local` attribute.
pub open spec fn last_local(attrs: Seq<AddressAttr>) -> Option<IpAddress>
    decreases attrs.len(),
{
    if attrs.len() == 0 {
        None
    } else {
        match attrs.last() {
            AddressAttr::Local(a) => Some(a),
            _ => last_local(attrs.drop_last()),
        }
    }
}

/// The value of the last `Broadcast` attribute.
pub open spec fn last_broadcast(attrs: Seq<AddressAttr>) -> Option<u32>
    decreases attrs.len(),
{
    if attrs.len() == 0 {
        None
    } else {
        match attrs.last() {
            AddressAttr::Broadcast(a) => Some(a),
            _ => last_broadcast(attrs.drop_last()),
        }
    }
}

/// The address that an address message describes, under the index of its
/// interface; none when the message has no `Address` attribute.  Where an
/// attribute occurs more than once, the last occurrence counts.
pub open spec fn address_entry_spec(index: u32, scope: NetworkAddressScope, prefix_len: u8, attrs: Seq<
    AddressAttr,
>) -> Option<(u32, NetworkAddress)> {
    match last_address(attrs) {
        None => None,
        Some(address) => Some(
            (
                index,
                NetworkAddress {
                    scope,
                    address,
                    local: last_local(attrs),
                    broadcast: last_broadcast(attrs),
                    prefix_len,
                },
            ),
        ),
    }
}

/// Reads an address message.
pub fn address_entry(info: &AddressInfo) -> (r: Option<(u32, NetworkAddress)>)
    ensures
        r == address_entry_spec(info.index, info.scope, info.prefix_len, info.attributes@),
{
    let attrs = &info.attributes;
    let mut address: Option<IpAddress> = None;
    let mut local: Option<IpAddress> = None;
    let mut broadcast: Option<u32> = None;
    let mut i: usize = 0;
    while i < attrs.len()
        invariant
            i <= attrs@.len(),
            address == last_address(attrs@.take(i as int)),
            local == last_local(attrs@.take(i as int)),
            broadcast == last_broadcast(attrs@.take(i as int)),
        decreases attrs.len() - i,
    {
        assert(attrs@.take(i + 1).drop_last() =~= attrs@.take(i as int));
        match attrs[i] {
            AddressAttr::Address(a) => address = Some(a),
            AddressAttr::Local(a) => local = Some(a),
            AddressAttr::Broadcast(a) => broadcast = Some(a),
            AddressAttr::Other => {},
        }
        i += 1;
    }
    assert(attrs@.take(attrs.len() as int) =~= attrs@);
    match address {
        None => None,
        Some(address) => Some(
            (
                info.index,
                NetworkAddress {
                    scope: info.scope,
                    address,
                    local,
                    broadcast,
                    prefix_len: info.prefix_len,
                },
            ),
        ),
    }
}

/// The addresses that a list of address messages describe, in order.
pub open spec fn address_entries_spec(infos: Seq<AddressInfo>) -> Seq<(u32, NetworkAddress)>
    decreases infos.len(),
{
    if infos.len() == 0 {
        Seq::empty()
    } else {
        let rest = address_entries_spec(infos.drop_last());
        let i = infos.last();
        match address_entry_spec(i.index, i.scope, i.prefix_len, i.attributes@) {
            Some(e) => rest.push(e),
            None => rest,
        }
    }
}

/// Reads a list of address messages.
pub fn address_entries(infos: &Vec<AddressInfo>) -> (r: Vec<(u32, NetworkAddress)>)
    ensures
        r@ == address_entries_spec(infos@),
{
    let mut r: Vec<(u32, NetworkAddress)> = Vec::new();
    let mut i: usize = 0;
    while i < infos.len()
        invariant
            i <= infos@.len(),
            r@ == address_entries_spec(infos@.take(i as int)),
        decreases infos.len() - i,
    {
        assert(infos@.take(i + 1).drop_last() =~= infos@.take(i as int));
        match address_entry(&infos[i]) {
            Some(e) => r.push(e),
            None => {},
        }
        i += 1;
    }
    assert(infos@.take(infos.len() as int) =~= infos@);
    r
}

/// The addresses of the interface `index`, in order.
pub open spec fn addresses_of_spec(entries: Seq<(u32, NetworkAddress)>, index: u32) -> Seq<
    NetworkAddress,
>
    decreases entries.len(),
{
    if entries.len() == 0 {
        Seq::empty()
    } else {
        let rest = addresses_of_spec(entries.drop_last(), index);
        if entries.last().0 == index {
            rest.push(entries.last().1)
        } else {
            rest
        }
    }
}

/// Collects the addresses of the interface `index`.
pub fn addresses_of(entries: &Vec<(u32, NetworkAddress)>, index: u32) -> (r: Vec<NetworkAddress>)
    ensures
        r@ == addresses_of_spec(entries@, index),
{
    let mut r: Vec<NetworkAddress> = Vec::new();
    let mut i: usize = 0;
    while i < entries.len()
        invariant
            i <= entries@.len(),
            r@ == addresses_of_spec(entries@.take(i as int), index),
        decreases entries.len() - i,
    {
        assert(entries@.take(i + 1).drop_last() =~= entries@.take(i as int));
        if entries[i].0 == index {
            r.push(entries[i].1);
        }
        i += 1;
    }
    assert(entries@.take(entries.len() as int) =~= entries@);
    r
}

// ---------------------------------------------------------------------------
// Links

/// The traffic counters of a link.
#[derive(Clone, Copy, Debug, PartialEq, Eq, Structural)]
pub struct LinkStats {
    pub rx_bytes: u64,
    pub rx_dropped: u64,
    pub rx_errors: u64,
    pub rx_packets: u64,
    pub tx_bytes: u64,
    pub tx_dropped: u64,
    pub tx_errors: u64,
    pub tx_packets: u64,
}

/// An attribute of a link message, as far as the router reads it.
#[derive(Clone, Debug)]
pub enum LinkAttr {
    IfName(String),
    OperState(NetworkInterfaceOperState),
    /// The hardware address, byte by byte.
    Address(Vec<u8>),
    Mtu(u32),
    Stats64(LinkStats),
    /// Any other attribute.
    Other,
}

/// A link message: the index of the interface and its attributes.
#[derive(Clone, Debug)]
pub struct LinkInfo {
    pub index: u32,
    pub attributes: Vec<LinkAttr>,
}

/// The text of a hardware address: each byte as two lower-case hexadecimal
/// digits, separated by `:`.
pub open spec fn mac_text(bytes: Seq<u8>) -> Seq<char>
    decreases bytes.len(),
{
    if bytes.len() == 0 {
        Seq::empty()
    } else {
        let b = bytes.last();
        let hex = seq![hex_digit_lower(b as int / 16), hex_digit_lower(b as int % 16)];
        if bytes.len() == 1 {
            hex
        } else {
            mac_text(bytes.drop_last()) + seq![':'] + hex
        }
    }
}

/// Writes a hardware address.
pub fn format_mac(bytes: &Vec<u8>) -> (r: String)
    ensures
        r@ == mac_text(bytes@),
{
    let mut out: Vec<char> = Vec::new();
    let mut i: usize = 0;
    while i < bytes.len()
        invariant
            i <= bytes@.len(),
            out@ == mac_text(bytes@.take(i as int)),
        decreases bytes.len() - i,
    {
        assert(bytes@.take(i + 1).drop_last() =~= bytes@.take(i as int));
        let b = bytes[i];
        if i > 0 {
            out.push(':');
        }
        out.push(hex_char_lower(b / 16));
        out.push(hex_char_lower(b % 16));
        i += 1;
        assert(out@ =~= mac_text(bytes@.take(i as int)));
    }
    assert(bytes@.take(bytes.len() as int) =~= bytes@);
    string_of(&out)
}

/// What a link message must carry to describe an interface.
pub struct LinkFields {
    pub name: String,
    pub oper_state: NetworkInterfaceOperState,
    pub mac_address: String,
    pub mtu: u32,
    pub stats: LinkStats,
}

/// What a link message carries for an interface, as plain values.
pub struct LinkFieldsView {
    pub name: Seq<char>,
    pub oper_state: NetworkInterfaceOperState,
    pub mac_address: Seq<char>,
    pub mtu: u32,
    pub stats: LinkStats,
}

impl View for LinkFields {
    type V = LinkFieldsView;

    open spec fn view(&self) -> LinkFieldsView {
        LinkFieldsView {
            name: self.name@,
            oper_state: self.oper_state,
            mac_address: self.mac_address@,
            mtu: self.mtu,
            stats: self.stats,
        }
    }
}

/// The last name attribute.
pub open spec fn last_name(attrs: Seq<LinkAttr>) -> Option<Seq<char>>
    decreases attrs.len(),
{
    if attrs.len() == 0 {
        None
    } else {
        match attrs.last() {
            LinkAttr::IfName(n) => Some(n@),
            _ => last_name(attrs.drop_last()),
        }
    }
}

/// The last operational state attribute.
pub open spec fn last_oper_state(attrs: Seq<LinkAttr>) -> Option<NetworkInterfaceOperState>
    decreases attrs.len(),
{
    if attrs.len() == 0 {
        None
    } else {
        match attrs.last() {
            LinkAttr::OperState(s) => Some(s),
            _ => last_oper_state(attrs.drop_last()),
        }
    }
}

/// The last hardware address attribute.
pub open spec fn last_hw_address(attrs: Seq<LinkAttr>) -> Option<Seq<u8>>
    decreases attrs.len(),
{
    if attrs.len() == 0 {
        None
    } else {
        match attrs.last() {
            LinkAttr::Address(a) => Some(a@),
            _ => last_hw_address(attrs.drop_last()),
        }
    }
}

/// The last MTU attribute.
pub open spec fn last_mtu(attrs: Seq<LinkAttr>) -> Option<u32>
    decreases attrs.len(),
{
    if attrs.len() == 0 {
        None
    } else {
        match attrs.last() {
            LinkAttr::Mtu(m) => Some(m),
            _ => last_mtu(attrs.drop_last()),
        }
    }
}

/// The last statistics attribute.
pub open spec fn last_stats(attrs: Seq<LinkAttr>) -> Option<LinkStats>
    decreases attrs.len(),
{
    if attrs.len() == 0 {
        None
    } else {
        match attrs.last() {
            LinkAttr::Stats64(s) => Some(s),
            _ => last_stats(attrs.drop_last()),
        }
    }
}

/// The fields a complete link message gives: the last attribute of each
/// kind, the hardware address written as text.
pub open spec fn link_fields_spec(attrs: Seq<LinkAttr>) -> LinkFieldsView {
    LinkFieldsView {
        name: last_name(attrs)->0,
        oper_state: last_oper_state(attrs)->0,
        mac_address: mac_text(last_hw_address(attrs)->0),
        mtu: last_mtu(attrs)->0,
        stats: last_stats(attrs)->0,
    }
}

/// Whether a link message carries every attribute an interface needs.
pub open spec fn link_complete(attrs: Seq<LinkAttr>) -> bool {
    &&& last_name(attrs) is Some
    &&& last_oper_state(attrs) is Some
    &&& last_hw_address(attrs) is Some
    &&& last_mtu(attrs) is Some
    &&& last_stats(attrs) is Some
}

/// Reads the attributes of a link message.  A link lacking a name, state,
/// hardware address, MTU or statistics is left out (`None`); otherwise each
/// field is the last attribute of its kind, the hardware address written
/// as text.
pub fn link_fields(attrs: &Vec<LinkAttr>) -> (r: Option<LinkFields>)
    ensures
        match r {
            None => !link_complete(attrs@),
            Some(f) => link_complete(attrs@) && f@ == link_fields_spec(attrs@),
        },
{
    let mut name: Option<&String> = None;
    let mut oper_state: Option<NetworkInterfaceOperState> = None;
    let mut hw: Option<&Vec<u8>> = None;
    let mut mtu: Option<u32> = None;
    let mut stats: Option<LinkStats> = None;
    let mut i: usize = 0;
    while i < attrs.len()
        invariant
            i <= attrs@.len(),
            match name {
                Some(n) => last_name(attrs@.take(i as int)) == Some(n@),
                None => last_name(attrs@.take(i as int)) is None,
            },
            oper_state == last_oper_state(attrs@.take(i as int)),
            match hw {
                Some(h) => last_hw_address(attrs@.take(i as int)) == Some(h@),
                None => last_hw_address(attrs@.take(i as int)) is None,
            },
            mtu == last_mtu(attrs@.take(i as int)),
            stats == last_stats(attrs@.take(i as int)),
        decreases attrs.len() - i,
    {
        assert(attrs@.take(i + 1).drop_last() =~= attrs@.take(i as int));
        assert(attrs@.take(i + 1).last() == attrs@[i as int]);
        match &attrs[i] {
            LinkAttr::IfName(n) => name = Some(n),
            LinkAttr::OperState(s) => oper_state = Some(*s),
            LinkAttr::Address(a) => hw = Some(a),
            LinkAttr::Mtu(m) => mtu = Some(*m),
            LinkAttr::Stats64(s) => stats = Some(*s),
            LinkAttr::Other => {},
        }
        i += 1;
    }
    assert(attrs@.take(attrs.len() as int) =~= attrs@);
    match (name, oper_state, hw, mtu, stats) {
        (Some(n), Some(s), Some(h), Some(m), Some(st)) => Some(
            LinkFields {
                name: n.clone(),
                oper_state: s,
                mac_address: format_mac(h),
                mtu: m,
                stats: st,
            },
        ),
        _ => None,
    }
}

/// The speed of a link from the text of its `speed` file, if it could be
/// read: the text without surrounding whitespace, read as a `u64`.
pub open spec fn speed_spec(text: Option<Seq<char>>) -> Option<u64> {
    match text {
        Some(t) => parse_u64_spec(trim_spec(t)),
        None => None,
    }
}

/// Reads the speed of a link.
pub fn parse_speed(text: Option<&str>) -> (r: Option<u64>)
    ensures
        r == speed_spec(
            match text {
                Some(t) => Some(t@),
                None => None,
            },
        ),
{
    match text {
        Some(t) => {
            let cs = chars_of(t);
            parse_u64(&trim(&cs))
        },
        None => None,
    }
}

/// `r` is the interface put together from the index of its link, the
/// fields of its link message, the address entries (those of its index, in
/// order) and the text of its speed file, if that could be read.
pub open spec fn interface_assembled(
    r: NetworkInterface,
    index: u32,
    fields: LinkFieldsView,
    speed_text: Option<Seq<char>>,
    entries: Seq<(u32, NetworkAddress)>,
) -> bool {
    &&& r.index == index
    &&& r.name@ == fields.name
    &&& r.oper_state == fields.oper_state
    &&& r.mac_address@ == fields.mac_address
    &&& r.ip_addresses@ == addresses_of_spec(entries, index)
    &&& r.mtu == fields.mtu
    &&& r.speed == speed_spec(speed_text)
    &&& r.rx_bytes == fields.stats.rx_bytes
    &&& r.rx_dropped == fields.stats.rx_dropped
    &&& r.rx_errors == fields.stats.rx_errors
    &&& r.rx_packets == fields.stats.rx_packets
    &&& r.tx_bytes == fields.stats.tx_bytes
    &&& r.tx_dropped == fields.stats.tx_dropped
    &&& r.tx_errors == fields.stats.tx_errors
    &&& r.tx_packets == fields.stats.tx_packets
}

/// Puts an interface together: its index, the fields of its link message,
/// its addresses (in the order of the address messages) and its speed.
pub fn assemble_interface(
    index: u32,
    fields: &LinkFields,
    entries: &Vec<(u32, NetworkAddress)>,
    speed_text: Option<&str>,
) -> (r: NetworkInterface)
    ensures
        interface_assembled(
            r,
            index,
            fields@,
            match speed_text {
                Some(t) => Some(t@),
                None => None,
            },
            entries@,
        ),
{
    NetworkInterface {
        index,
        name: fields.name.clone(),
        oper_state: fields.oper_state,
        mac_address: fields.mac_address.clone(),
        ip_addresses: addresses_of(entries, index),
        mtu: fields.mtu,
        speed: parse_speed(speed_text),
        rx_bytes: fields.stats.rx_bytes,
        rx_dropped: fields.stats.rx_dropped,
        rx_errors: fields.stats.rx_errors,
        rx_packets: fields.stats.rx_packets,
        tx_bytes: fields.stats.tx_bytes,
        tx_dropped: fields.stats.tx_dropped,
        tx_errors: fields.stats.tx_errors,
        tx_packets: fields.stats.tx_packets,
    }
}

// ---------------------------------------------------------------------------
// The list of interfaces

/// The complete links of a link dump, in dump order: the index of each and
/// the fields its message gives.
pub open spec fn complete_links_spec(links: Seq<LinkInfo>) -> Seq<(u32, LinkFieldsView)>
    decreases links.len(),
{
    if links.len() == 0 {
        Seq::empty()
    } else {
        let rest = complete_links_spec(links.drop_last());
        let l = links.last();
        if link_complete(l.attributes@) {
            rest.push((l.index, link_fields_spec(l.attributes@)))
        } else {
            rest
        }
    }
}

/// The views of a list of complete links.
pub open spec fn complete_link_views(v: Seq<(u32, LinkFields)>) -> Seq<(u32, LinkFieldsView)> {
    v.map_values(|p: (u32, LinkFields)| (p.0, p.1@))
}

/// Keeps the links of a dump that describe an interface, in order, with
/// their fields.
pub fn complete_links(links: &Vec<LinkInfo>) -> (r: Vec<(u32, LinkFields)>)
    ensures
        complete_link_views(r@) == complete_links_spec(links@),
{
    let mut r: Vec<(u32, LinkFields)> = Vec::new();
    let mut i: usize = 0;
    while i < links.len()
        invariant
            i <= links@.len(),
            complete_link_views(r@) == complete_links_spec(links@.take(i as int)),
        decreases links.len() - i,
    {
        assert(links@.take(i + 1).drop_last() =~= links@.take(i as int));
        assert(links@.take(i + 1).last() == links@[i as int]);
        let ghost before = r@;
        match link_fields(&links[i].attributes) {
            Some(f) => {
                let ghost fv = f@;
                r.push((links[i].index, f));
                assert(complete_link_views(r@) =~= complete_link_views(before).push(
                    (links@[i as int].index, fv),
                ));
            },
            None => {},
        }
        i += 1;
    }
    assert(links@.take(links.len() as int) =~= links@);
    r
}

/// Puts the interfaces together, one per complete link and in the same
/// order; each link comes with the text of its speed file, if that could be
/// read.
pub fn assemble_interfaces(
    items: &Vec<(u32, LinkFields, Option<String>)>,
    entries: &Vec<(u32, NetworkAddress)>,
) -> (r: Vec<NetworkInterface>)
    ensures
        r@.len() == items@.len(),
        forall|i: int|
            0 <= i < r@.len() ==> interface_assembled(
                #[trigger] r@[i],
                items@[i].0,
                items@[i].1@,
                crate::common::opt_view(items@[i].2),
                entries@,
            ),
{
    let mut r: Vec<NetworkInterface> = Vec::new();
    let mut i: usize = 0;
    while i < items.len()
        invariant
            i <= items@.len(),
            r@.len() == i,
            forall|k: int|
                0 <= k < i ==> interface_assembled(
                    #[trigger] r@[k],
                    items@[k].0,
                    items@[k].1@,
                    crate::common::opt_view(items@[k].2),
                    entries@,
                ),
        decreases items.len() - i,
    {
        let item = &items[i];
        let speed_text: Option<&str> = match &item.2 {
            Some(t) => Some(t.as_str()),
            None => None,
        };
        let iface = assemble_interface(item.0, &item.1, entries, speed_text);
        r.push(iface);
        i += 1;
    }
    r
}

/// One interface per complete link, in dump order: the indices of the
/// complete links are those of the links that carry every attribute an
/// interface needs.
pub proof fn law_one_interface_per_complete_link(links: Seq<LinkInfo>)
    ensures
        complete_links_spec(links).map_values(|p: (u32, LinkFieldsView)| p.0) == links.filter(
            |l: LinkInfo| link_complete(l.attributes@),
        ).map_values(|l: LinkInfo| l.index),
    decreases links.len(),
{
    reveal(Seq::filter);
    if links.len() > 0 {
        law_one_interface_per_complete_link(links.drop_last());
        let f = |l: LinkInfo| link_complete(l.attributes@);
        let a = complete_links_spec(links.drop_last());
        let b = links.drop_last().filter(f);
        if f(links.last()) {
            assert(complete_links_spec(links).map_values(|p: (u32, LinkFieldsView)| p.0) =~= a.map_values(
                |p: (u32, LinkFieldsView)| p.0,
            ).push(links.last().index));
            assert(links.filter(f).map_values(|l: LinkInfo| l.index) =~= b.map_values(
                |l: LinkInfo| l.index,
            ).push(links.last().index));
        }
    } else {
        assert(links.filter(|l: LinkInfo| link_complete(l.attributes@)) =~= Seq::<LinkInfo>::empty());
    }
}

} // verus!
