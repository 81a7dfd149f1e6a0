//! The router's configuration (read from `config.yaml`).

use vstd::prelude::*;

verus! {

/// The whole configuration.
pub struct Config {
    pub acme: AcmeConfig,
    pub core: CoreConfig,
    pub dynamic_dns: DynamicDnsConfig,
    pub google_cloud: GoogleCloudConfig,
}

/// Keeping an `A` record pointed at the router's public IPv4 address.
pub struct DynamicDnsConfig {
    pub enabled: bool,
    /// Seconds between two checks.
    pub interval_secs: u64,
    /// The Cloud DNS zone that holds the record.
    pub cloud_zone: String,
    /// The name of the record (without the final `.`).
    pub domain: String,
}

/// Who may answer ACME DNS challenges, and where the records go.
pub struct AcmeConfig {
    /// The Cloud DNS zone that holds the challenge records.
    pub cloud_zone: String,
    /// The domain under which users own subdomains.
    pub domain: String,
    pub users: Vec<AcmeUserConfig>,
}

/// One user of the ACME challenge service.
pub struct AcmeUserConfig {
    pub name: String,
    pub secret: String,
    /// The subdomains (single labels under the ACME domain) the user may
    /// answer challenges for.
    pub subdomains: Vec<String>,
}

/// The router's interfaces and listening address.
pub struct CoreConfig {
    pub lan_bridge_iface: String,
    pub lan_iface: String,
    pub listen: String,
    pub wan_iface: String,
}

/// Access to Google Cloud.
pub struct GoogleCloudConfig {
    pub credentials: String,
    pub project_id: String,
}

/// An ACME user as character sequences.
pub struct AcmeUserView {
    pub name: Seq<char>,
    pub secret: Seq<char>,
    pub subdomains: Seq<Seq<char>>,
}

impl View for AcmeUserConfig {
    type V = AcmeUserView;

    open spec fn view(&self) -> AcmeUserView {
        AcmeUserView {
            name: self.name@,
            secret: self.secret@,
            subdomains: self.subdomains@.map_values(|s: String| s@),
        }
    }
}

/// The users of an ACME configuration as character sequences.
pub open spec fn users_view(a: AcmeConfig) -> Seq<AcmeUserView> {
    a.users@.map_values(|u: AcmeUserConfig| u@)
}

} // verus!
