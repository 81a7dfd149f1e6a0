//! Dynamic DNS: find the public IPv4 address of the WAN interface and keep
//! an `A` record pointed at it.

use vstd::prelude::*;
use crate::common::{NetworkAddress, NetworkAddressScope, NetworkInterface};
use crate::config::Config;
use crate::dns::{
    DnsChange, DnsChangeView, ResourceRecordSet, ResourceRecordSetId, RrsetIdView, RrsetView,
    make_single_record, single_record,
};
use crate::ip::{IpAddress, ipv4_text, ipv4_to_string};
use crate::text::{chars_eq, chars_of, copy_string, owned, string_of};

verus! {

/// The IPv4 address that a network address offers: its local address if
/// that is IPv4; else, when it has no local address, the address itself if
/// that is IPv4.
pub open spec fn ipv4_of(a: NetworkAddress) -> Option<u32> {
    match (a.address, a.local) {
        (_, Some(IpAddress::V4(x))) => Some(x),
        (IpAddress::V4(x), None) => Some(x),
        _ => None,
    }
}

/// The IPv4 address of the first address of universe scope that offers
/// one.
pub open spec fn first_public_ipv4(addrs: Seq<NetworkAddress>) -> Option<u32>
    decreases addrs.len(),
{
    if addrs.len() == 0 {
        None
    } else {
        let a = addrs[0];
        if a.scope == NetworkAddressScope::Universe && ipv4_of(a) is Some {
            ipv4_of(a)
        } else {
            first_public_ipv4(addrs.drop_first())
        }
    }
}

/// The index of the first interface called `name`.
pub open spec fn first_interface_named(ifaces: Seq<NetworkInterface>, name: Seq<char>) -> Option<
    int,
>
    decreases ifaces.len(),
{
    if ifaces.len() == 0 {
        None
    } else {
        match first_interface_named(ifaces.drop_last(), name) {
            Some(i) => Some(i),
            None => if ifaces.last().name@ == name {
                Some(ifaces.len() - 1)
            } else {
                None
            },
        }
    }
}

/// What the search for the WAN address found.
#[derive(Clone, Copy, Debug, PartialEq, Eq, Structural)]
pub enum WanAddress {
    /// No interface has the WAN interface's name.
    NoInterface,
    /// The WAN interface has no public IPv4 address.
    NoPublicAddress,
    /// The public IPv4 address of the WAN interface.
    Found(u32),
}

/// The public IPv4 address of the first interface called `wan_iface`.
pub open spec fn wan_address_spec(ifaces: Seq<NetworkInterface>, wan_iface: Seq<char>) -> WanAddress {
    match first_interface_named(ifaces, wan_iface) {
        None => WanAddress::NoInterface,
        Some(i) => match first_public_ipv4(ifaces[i].ip_addresses@) {
            None => WanAddress::NoPublicAddress,
            Some(a) => WanAddress::Found(a),
        },
    }
}

/// Decides `ipv4_of`.
fn network_address_ipv4(a: &NetworkAddress) -> (r: Option<u32>)
    ensures
        r == ipv4_of(*a),
        a.local matches Some(IpAddress::V4(x)) ==> r == Some(x),
{
    match (a.address, a.local) {
        (_, Some(IpAddress::V4(x))) => Some(x),
        (IpAddress::V4(x), None) => Some(x),
        _ => None,
    }
}

/// Finds the first public IPv4 address of a list of addresses.
fn find_public_ipv4(addrs: &Vec<NetworkAddress>) -> (r: Option<u32>)
    ensures
        r == first_public_ipv4(addrs@),
{
    let mut i: usize = 0;
    assert(addrs@.skip(0) =~= addrs@);
    while i < addrs.len()
        invariant
            i <= addrs@.len(),
            first_public_ipv4(addrs@.skip(i as int)) == first_public_ipv4(addrs@),
        decreases addrs.len() - i,
    {
        assert(addrs@.skip(i as int).drop_first() =~= addrs@.skip(i + 1));
        assert(addrs@.skip(i as int)[0] == addrs@[i as int]);
        let a = &addrs[i];
        if a.scope == NetworkAddressScope::Universe {
            match network_address_ipv4(a) {
                Some(x) => return Some(x),
                None => {},
            }
        }
        i += 1;
    }
    assert(addrs@.skip(i as int) =~= Seq::<NetworkAddress>::empty());
    None
}

/// An interface found in a prefix of the list is the first one of that
/// name in the whole list.
proof fn lemma_first_interface_prefix(ifaces: Seq<NetworkInterface>, name: Seq<char>, k: int)
    requires
        0 <= k <= ifaces.len(),
        first_interface_named(ifaces.take(k), name) is Some,
    ensures
        first_interface_named(ifaces, name) == first_interface_named(ifaces.take(k), name),
    decreases ifaces.len() - k,
{
    if k < ifaces.len() {
        assert(ifaces.take(k + 1).drop_last() =~= ifaces.take(k));
        lemma_first_interface_prefix(ifaces, name, k + 1);
    } else {
        assert(ifaces.take(k) =~= ifaces);
    }
}

/// Finds the public IPv4 address of the WAN interface.
pub fn wan_address(ifaces: &Vec<NetworkInterface>, wan_iface: &str) -> (r: WanAddress)
    ensures
        r == wan_address_spec(ifaces@, wan_iface@),
{
    let name = chars_of(wan_iface);
    let mut i: usize = 0;
    while i < ifaces.len()
        invariant
            i <= ifaces@.len(),
            name@ == wan_iface@,
            first_interface_named(ifaces@.take(i as int), name@) is None,
        decreases ifaces.len() - i,
    {
        assert(ifaces@.take(i + 1).drop_last() =~= ifaces@.take(i as int));
        let n = chars_of(ifaces[i].name.as_str());
        if chars_eq(&n, &name) {
            proof {
                lemma_first_interface_prefix(ifaces@, name@, i + 1);
            }
            return match find_public_ipv4(&ifaces[i].ip_addresses) {
                Some(a) => WanAddress::Found(a),
                None => WanAddress::NoPublicAddress,
            };
        }
        i += 1;
    }
    assert(ifaces@.take(ifaces.len() as int) =~= ifaces@);
    WanAddress::NoInterface
}

/// The id of the `A` record set kept at the WAN address: in the configured
/// project and dynamic DNS zone, named by the configured domain and a
/// final `.`.
pub open spec fn dynamic_dns_rrset_id_spec(
    project: Seq<char>,
    zone: Seq<char>,
    domain: Seq<char>,
) -> RrsetIdView {
    RrsetIdView { project, zone, name: domain.push('.'), type_: "A"@ }
}

/// Builds the id of the dynamic DNS record set.
pub fn dynamic_dns_rrset_id(config: &Config) -> (r: ResourceRecordSetId)
    ensures
        r@ == dynamic_dns_rrset_id_spec(
            config.google_cloud.project_id@,
            config.dynamic_dns.cloud_zone@,
            config.dynamic_dns.domain@,
        ),
{
    let mut name = chars_of(config.dynamic_dns.domain.as_str());
    name.push('.');
    ResourceRecordSetId {
        project: copy_string(&config.google_cloud.project_id),
        zone: copy_string(&config.dynamic_dns.cloud_zone),
        name: string_of(&name),
        type_: owned("A"),
    }
}

/// The change that keeps the record at the address `addr`.  A missing
/// record set is created with that single address and a time to live of
/// 60 seconds.  An existing one is replaced by such a record only when its
/// time to live is not 60 and also its data is not that single address;
/// otherwise it is kept.
pub open spec fn dynamic_dns_change_spec(
    id: RrsetIdView,
    existing: Option<RrsetView>,
    addr: u32,
) -> DnsChangeView {
    match existing {
        Some(e) => if e.ttl != 60 && e.rrdatas != seq![ipv4_text(addr)] {
            DnsChangeView::Update(single_record(e.id, ipv4_text(addr)))
        } else {
            DnsChangeView::Keep
        },
        None => DnsChangeView::Create(single_record(id, ipv4_text(addr))),
    }
}

/// Whether a record set's data is exactly the one datum `d`.
fn data_is_single(rrdatas: &Vec<String>, d: &Vec<char>) -> (r: bool)
    ensures
        r == (rrdatas@.map_values(|s: String| s@) == seq![d@]),
{
    if rrdatas.len() != 1 {
        proof {
            let m = rrdatas@.map_values(|s: String| s@);
            assert(m.len() != seq![d@].len());
        }
        return false;
    }
    let c = chars_of(rrdatas[0].as_str());
    let r = chars_eq(&c, d);
    proof {
        let m = rrdatas@.map_values(|s: String| s@);
        if m == seq![d@] {
            assert(m[0] == seq![d@][0]);
        }
        if r {
            assert(m =~= seq![d@]);
        }
    }
    r
}

/// Decides the change that keeps the record at `addr`, given the record
/// set found under `id` (if any).
pub fn dynamic_dns_change(id: ResourceRecordSetId, existing: Option<ResourceRecordSet>, addr: u32) -> (r:
    DnsChange)
    ensures
        r@ == dynamic_dns_change_spec(
            id@,
            match existing {
                Some(e) => Some(e@),
                None => None,
            },
            addr,
        ),
{
    let text = ipv4_to_string(addr);
    match existing {
        Some(rrset) => {
            let d = chars_of(text.as_str());
            if rrset.ttl != 60 && !data_is_single(&rrset.rrdatas, &d) {
                DnsChange::Update(make_single_record(rrset.id, text))
            } else {
                DnsChange::Keep
            }
        },
        None => DnsChange::Create(make_single_record(id, text)),
    }
}

/// The IPv4 address an address offers is its local address whenever that
/// is IPv4, whatever the address attribute says (on a point-to-point link
/// that is the peer); without a local address it is the address itself if
/// IPv4; a local IPv6 address offers none.
pub proof fn law_local_ipv4_is_offered(a: NetworkAddress)
    ensures
        a.local matches Some(IpAddress::V4(x)) ==> ipv4_of(a) == Some(x),
        a.local is None ==> (a.address matches IpAddress::V4(x) ==> ipv4_of(a) == Some(x)),
        a.local matches Some(IpAddress::V6(_)) ==> ipv4_of(a) is None,
        a.local is None && a.address is V6 ==> ipv4_of(a) is None,
{
}

/// The WAN address is the local IPv4 address of the first universe-scope
/// address of the first interface of that name, when that address has one.
pub proof fn law_wan_address_is_local_address(ifaces: Seq<NetworkInterface>, wan_iface: Seq<char>, k: int, x: u32)
    requires
        first_interface_named(ifaces, wan_iface) == Some(k),
        ifaces[k].ip_addresses@.len() > 0,
        ifaces[k].ip_addresses@[0].scope == NetworkAddressScope::Universe,
        ifaces[k].ip_addresses@[0].local == Some(IpAddress::V4(x)),
    ensures
        wan_address_spec(ifaces, wan_iface) == WanAddress::Found(x),
        first_public_ipv4(ifaces[k].ip_addresses@) == Some(x),
{
    law_local_ipv4_is_offered(ifaces[k].ip_addresses@[0]);
}

/// The dynamic DNS record set is named by the configured domain as a fully
/// qualified name: the domain followed by one final `.`; it is an `A`
/// record in the configured project and zone.
pub proof fn law_dynamic_dns_name_is_fully_qualified(project: Seq<char>, zone: Seq<char>, domain: Seq<char>)
    ensures
        dynamic_dns_rrset_id_spec(project, zone, domain).name.len() == domain.len() + 1,
        dynamic_dns_rrset_id_spec(project, zone, domain).name.last() == '.',
        dynamic_dns_rrset_id_spec(project, zone, domain).name.drop_last() == domain,
        dynamic_dns_rrset_id_spec(project, zone, domain).type_ == seq!['A'],
        dynamic_dns_rrset_id_spec(project, zone, domain).project == project,
        dynamic_dns_rrset_id_spec(project, zone, domain).zone == zone,
{
    reveal_strlit("A");
    assert(dynamic_dns_rrset_id_spec(project, zone, domain).name.drop_last() =~= domain);
    assert("A"@ =~= seq!['A']);
}

} // verus!
