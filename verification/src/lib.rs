//! Router administration library: DHCP lease parsing, ACME DNS challenge
//! authorisation, Cloud DNS record planning, network interface assembly and
//! the page model of the web front end.

pub mod text;
pub mod num;
pub mod ip;
pub mod common;
pub mod dhcp;
pub mod config;
pub mod error;
pub mod dns;
pub mod acme;
pub mod dynamic_dns;
pub mod networks;
pub mod datetime;
pub mod frontend;
pub mod ip_round_trip;
