//! The records that the router reports: DHCP leases and network interfaces.

use vstd::prelude::*;
use crate::ip::IpAddress;
use crate::num::{decimal, push_decimal};
use crate::text::{chars_of, owned, string_of};

verus! {

/// The characters of an optional string.
pub open spec fn opt_view(s: Option<String>) -> Option<Seq<char>> {
    match s {
        Some(s) => Some(s@),
        None => None,
    }
}

/// A DHCP lease handed out by the router.
#[derive(Clone, Debug)]
pub struct DhcpLease {
    /// When the lease expires, in seconds since the Unix epoch (UTC).
    pub expiry_time: Option<i64>,
    pub mac_address: String,
    pub ip_address: IpAddress,
    pub hostname: Option<String>,
    pub client_id: Option<String>,
}

/// What a `DhcpLease` holds, with its strings as character sequences.
pub struct DhcpLeaseView {
    pub expiry_time: Option<i64>,
    pub mac_address: Seq<char>,
    pub ip_address: IpAddress,
    pub hostname: Option<Seq<char>>,
    pub client_id: Option<Seq<char>>,
}

impl View for DhcpLease {
    type V = DhcpLeaseView;

    open spec fn view(&self) -> DhcpLeaseView {
        DhcpLeaseView {
            expiry_time: self.expiry_time,
            mac_address: self.mac_address@,
            ip_address: self.ip_address,
            hostname: opt_view(self.hostname),
            client_id: opt_view(self.client_id),
        }
    }
}

impl DhcpLease {
    /// A copy of the lease.
    pub fn duplicate(&self) -> (r: DhcpLease)
        ensures
            r@ == self@,
    {
        DhcpLease {
            expiry_time: self.expiry_time,
            mac_address: self.mac_address.clone(),
            ip_address: self.ip_address,
            hostname: match &self.hostname {
                Some(h) => Some(h.clone()),
                None => None,
            },
            client_id: match &self.client_id {
                Some(c) => Some(c.clone()),
                None => None,
            },
        }
    }
}

/// The operational state of a network interface (RFC 2863).
#[derive(Clone, Copy, Debug, PartialEq, Eq, Structural)]
pub enum NetworkInterfaceOperState {
    Unknown,
    NotPresent,
    Down,
    LowerLayerDown,
    Testing,
    Dormant,
    Up,
    Other(u8),
    /// A state that none of the other variants names (`none` when shown).
    Unrecognized,
}

/// The scope of a network address.
#[derive(Clone, Copy, Debug, PartialEq, Eq, Structural)]
pub enum NetworkAddressScope {
    Universe,
    Site,
    Link,
    Host,
    Nowhere,
    Other(u8),
    /// A scope that none of the other variants names.
    Unrecognized,
}

/// An address assigned to a network interface.
#[derive(Clone, Copy, Debug, PartialEq, Eq, Structural)]
pub struct NetworkAddress {
    pub scope: NetworkAddressScope,
    pub address: IpAddress,
    pub local: Option<IpAddress>,
    /// The IPv4 broadcast address, as its number.
    pub broadcast: Option<u32>,
    pub prefix_len: u8,
}

/// A network interface with its addresses and traffic counters.
#[derive(Clone, Debug)]
pub struct NetworkInterface {
    pub index: u32,
    pub name: String,
    pub oper_state: NetworkInterfaceOperState,
    pub mac_address: String,
    pub ip_addresses: Vec<NetworkAddress>,
    pub mtu: u32,
    pub speed: Option<u64>,
    pub rx_bytes: u64,
    pub rx_dropped: u64,
    pub rx_errors: u64,
    pub rx_packets: u64,
    pub tx_bytes: u64,
    pub tx_dropped: u64,
    pub tx_errors: u64,
    pub tx_packets: u64,
}


/// The text of an operational state: its name in kebab case; `other (`
/// and the number for another state (with no closing parenthesis); `none`
/// for an unrecognized one.
pub open spec fn oper_state_text(s: NetworkInterfaceOperState) -> Seq<char> {
    match s {
        NetworkInterfaceOperState::Unknown => "unknown"@,
        NetworkInterfaceOperState::NotPresent => "not-present"@,
        NetworkInterfaceOperState::Down => "down"@,
        NetworkInterfaceOperState::LowerLayerDown => "lower-layer-down"@,
        NetworkInterfaceOperState::Testing => "testing"@,
        NetworkInterfaceOperState::Dormant => "dormant"@,
        NetworkInterfaceOperState::Up => "up"@,
        NetworkInterfaceOperState::Other(v) => "other ("@ + decimal(v as nat),
        NetworkInterfaceOperState::Unrecognized => "none"@,
    }
}

impl NetworkInterfaceOperState {
    /// The text of the state (what `Display` shows).
    pub fn to_display_string(&self) -> (r: String)
        ensures
            r@ == oper_state_text(*self),
    {
        match self {
            NetworkInterfaceOperState::Unknown => owned("unknown"),
            NetworkInterfaceOperState::NotPresent => owned("not-present"),
            NetworkInterfaceOperState::Down => owned("down"),
            NetworkInterfaceOperState::LowerLayerDown => owned("lower-layer-down"),
            NetworkInterfaceOperState::Testing => owned("testing"),
            NetworkInterfaceOperState::Dormant => owned("dormant"),
            NetworkInterfaceOperState::Up => owned("up"),
            NetworkInterfaceOperState::Other(v) => {
                let mut out = chars_of("other (");
                push_decimal(&mut out, *v as u64);
                string_of(&out)
            },
            NetworkInterfaceOperState::Unrecognized => owned("none"),
        }
    }
}

} // verus!
