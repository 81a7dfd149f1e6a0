use jp_router::acme::{auth_verify, challenge_name, challenge_rrset_id, delete_change, put_change, start_challenge};
use jp_router::config::{AcmeConfig, AcmeUserConfig, Config, CoreConfig, DynamicDnsConfig, GoogleCloudConfig};
use jp_router::dns::{
    DnsChange, DnsError, DnsOperation, ResourceRecordSet, ResourceRecordSetId, change_request, check_status,
    dns_error_message, dns_error_text, url_encode_path,
};
use jp_router::error::ErrorResponse;

fn user(name: &str, secret: &str, subs: &[&str]) -> AcmeUserConfig {
    AcmeUserConfig {
        name: name.to_string(),
        secret: secret.to_string(),
        subdomains: subs.iter().map(|s| s.to_string()).collect(),
    }
}

fn acme() -> AcmeConfig {
    AcmeConfig {
        cloud_zone: "zone-1".to_string(),
        domain: "example.com".to_string(),
        users: vec![
            user("alice", "s3cret", &["www", "mail"]),
            user("bob", "pw", &["bob"]),
            user("alice", "other", &["ftp"]),
        ],
    }
}

fn config() -> Config {
    Config {
        acme: acme(),
        core: CoreConfig {
            lan_bridge_iface: "br0".to_string(),
            lan_iface: "eth1".to_string(),
            listen: "0.0.0.0:8080".to_string(),
            wan_iface: "eth0".to_string(),
        },
        dynamic_dns: DynamicDnsConfig {
            enabled: true,
            interval_secs: 60,
            cloud_zone: "home-zone".to_string(),
            domain: "home.example.com".to_string(),
        },
        google_cloud: GoogleCloudConfig {
            credentials: "{}".to_string(),
            project_id: "my-project".to_string(),
        },
    }
}

fn status_and_body(e: &ErrorResponse) -> (u16, String) {
    (e.status(), e.body())
}

#[test]
fn auth_accepts_owner_of_subdomain() {
    let a = acme();
    assert!(auth_verify(&a, "alice", "s3cret", &challenge_name("www.example.com")).is_ok());
    assert!(auth_verify(&a, "alice", "s3cret", "_acme-challenge.deep.mail.example.com").is_ok());
    assert!(auth_verify(&a, "bob", "pw", "_acme-challenge.bob.example.com").is_ok());
}

#[test]
fn auth_rejects_unknown_user_or_wrong_secret() {
    let a = acme();
    let e = auth_verify(&a, "carol", "x", "_acme-challenge.www.example.com").unwrap_err();
    assert_eq!(status_and_body(&e), (401, "Auth failed\n".to_string()));
    let e = auth_verify(&a, "alice", "bad", "_acme-challenge.www.example.com").unwrap_err();
    assert_eq!(status_and_body(&e), (401, "Auth failed\n".to_string()));
    // Only the first user of a name counts.
    let e = auth_verify(&a, "alice", "other", "_acme-challenge.ftp.example.com").unwrap_err();
    assert_eq!(status_and_body(&e), (401, "Auth failed\n".to_string()));
}

#[test]
fn auth_rejects_foreign_domain_as_internal_error() {
    let a = acme();
    let e = auth_verify(&a, "alice", "s3cret", "_acme-challenge.www.example.org").unwrap_err();
    assert_eq!(
        status_and_body(&e),
        (500, "Invalid domain: _acme-challenge.www.example.org\n".to_string())
    );
    assert!(matches!(e, ErrorResponse::Internal(_)));
}

#[test]
fn auth_rejects_other_subdomain() {
    let a = acme();
    let e = auth_verify(&a, "bob", "pw", "_acme-challenge.www.example.com").unwrap_err();
    assert_eq!(status_and_body(&e), (403, "Access denied\n".to_string()));
    let e = auth_verify(&a, "alice", "s3cret", "_acme-challenge.example.com").unwrap_err();
    assert_eq!(e.status(), 403);
}

#[test]
fn error_response_constructors() {
    let f = ErrorResponse::forbidden("no".to_string());
    assert_eq!(status_and_body(&f), (403, "no\n".to_string()));
    let u = ErrorResponse::unauthorized("who".to_string());
    assert_eq!(status_and_body(&u), (401, "who\n".to_string()));
    let i = ErrorResponse::internal("boom".to_string());
    assert_eq!(status_and_body(&i), (500, "boom\n".to_string()));
}

#[test]
fn path_segments_are_percent_encoded() {
    assert_eq!(url_encode_path("my-project"), "my%2Dproject");
    assert_eq!(url_encode_path("abcXYZ019"), "abcXYZ019");
    assert_eq!(url_encode_path("a b/é"), "a%20b%2F%C3%A9");
    assert_eq!(url_encode_path(""), "");
}

#[test]
fn record_set_urls() {
    let id = challenge_rrset_id(&config(), "_acme-challenge.www.example.com");
    assert_eq!(id.name, "_acme-challenge.www.example.com.");
    assert_eq!(id.type_, "TXT");
    assert_eq!(
        id.url(),
        "https://dns.googleapis.com/dns/v1/projects/my%2Dproject/managedZones/zone%2D1/rrsets/%5Facme%2Dchallenge%2Ewww%2Eexample%2Ecom%2E/TXT"
    );
    assert_eq!(
        id.parent_url(),
        "https://dns.googleapis.com/dns/v1/projects/my%2Dproject/managedZones/zone%2D1/rrsets"
    );
    assert!(id.url().starts_with(&(id.parent_url() + "/")));
}

#[test]
fn api_status_decisions() {
    let u = || "u".to_string();
    assert!(matches!(check_status(DnsOperation::Get, u(), 200), Ok(true)));
    assert!(matches!(check_status(DnsOperation::Get, u(), 404), Ok(false)));
    assert!(check_status(DnsOperation::Get, u(), 500).is_err());
    assert!(matches!(check_status(DnsOperation::Create, u(), 200), Ok(false)));
    let e = check_status(DnsOperation::Create, u(), 404).err().unwrap();
    assert_eq!((e.operation, e.status, e.url.as_str()), (DnsOperation::Create, 404, "u"));
    assert!(matches!(check_status(DnsOperation::Update, u(), 404), Ok(false)));
    assert!(matches!(check_status(DnsOperation::Delete, u(), 404), Ok(false)));
    assert!(check_status(DnsOperation::Delete, u(), 403).is_err());
}

fn id() -> ResourceRecordSetId {
    challenge_rrset_id(&config(), &challenge_name("www.example.com"))
}

#[test]
fn put_creates_or_updates_single_value() {
    let (c, msg) = put_change(id(), None, "token".to_string());
    assert_eq!(msg, "DNS record created\n");
    match c {
        DnsChange::Create(r) => {
            assert_eq!((r.ttl, r.rrdatas.clone()), (60, vec!["token".to_string()]));
            assert_eq!(r.id.name, "_acme-challenge.www.example.com.");
        },
        _ => panic!("expected a creation"),
    }
    let existing = ResourceRecordSet { id: id(), ttl: 300, rrdatas: vec!["old".to_string(), "x".to_string()] };
    let (c, msg) = put_change(id(), Some(existing), "token".to_string());
    assert_eq!(msg, "DNS record updated\n");
    match c {
        DnsChange::Update(r) => assert_eq!((r.ttl, r.rrdatas), (60, vec!["token".to_string()])),
        _ => panic!("expected an update"),
    }
}

#[test]
fn delete_removes_existing_record_only() {
    let (c, msg) = delete_change(None);
    assert!(matches!(c, DnsChange::Keep));
    assert_eq!(msg, "DNS record removed\n");
    let existing = ResourceRecordSet { id: id(), ttl: 60, rrdatas: vec!["t".to_string()] };
    let (c, _) = delete_change(Some(existing));
    assert!(matches!(c, DnsChange::Delete(_)));
}

#[test]
fn fetched_record_takes_the_id() {
    let body = ResourceRecordSet {
        id: ResourceRecordSetId { project: String::new(), zone: String::new(), name: String::new(), type_: String::new() },
        ttl: 5,
        rrdatas: vec!["a".to_string()],
    };
    let r = body.fetched(&id());
    assert_eq!(r.id.project, "my-project");
    assert_eq!(r.id.zone, "zone-1");
    assert_eq!(r.ttl, 5);
}

#[test]
fn each_change_goes_to_its_address() {
    assert!(change_request(&DnsChange::Keep).is_none());
    let rec = || ResourceRecordSet { id: id(), ttl: 60, rrdatas: vec!["t".to_string()] };
    let (op, url) = change_request(&DnsChange::Create(rec())).unwrap();
    assert_eq!(op, DnsOperation::Create);
    assert_eq!(url, id().parent_url());
    let (op, url) = change_request(&DnsChange::Update(rec())).unwrap();
    assert_eq!(op, DnsOperation::Update);
    assert_eq!(url, id().url());
    let (op, url) = change_request(&DnsChange::Delete(rec())).unwrap();
    assert_eq!(op, DnsOperation::Delete);
    assert!(url.ends_with("/rrsets/%5Facme%2Dchallenge%2Ewww%2Eexample%2Ecom%2E/TXT"));
}

#[test]
fn challenges_are_authorised_before_any_record_is_named() {
    let c = config();
    let id = start_challenge(&c, "alice", "s3cret", "www.example.com").unwrap();
    assert_eq!(id.name, "_acme-challenge.www.example.com.");
    assert_eq!((id.project.as_str(), id.zone.as_str(), id.type_.as_str()), ("my-project", "zone-1", "TXT"));
    let e = start_challenge(&c, "alice", "wrong", "www.example.com").unwrap_err();
    assert_eq!((e.status(), e.body()), (401, "Auth failed\n".to_string()));
    let e = start_challenge(&c, "bob", "pw", "www.example.com").unwrap_err();
    assert_eq!((e.status(), e.body()), (403, "Access denied\n".to_string()));
    let e = start_challenge(&c, "bob", "pw", "bob.example.org").unwrap_err();
    assert_eq!(e.status(), 500);
    assert_eq!(e.body(), "Invalid domain: _acme-challenge.bob.example.org\n");
}

#[test]
fn dns_error_messages() {
    assert_eq!(
        dns_error_text(DnsOperation::Update, "https://x/y", "500 Internal Server Error"),
        "Error deleting https://x/y: 500 Internal Server Error"
    );
    let e = DnsError { operation: DnsOperation::Get, url: "https://a/b".to_string(), status: 403 };
    assert_eq!(dns_error_message(&e), "Error getting https://a/b: 403 Forbidden");
    let e = DnsError { operation: DnsOperation::Create, url: "u".to_string(), status: 299 };
    assert_eq!(dns_error_message(&e), "Error creating u: 299 <unknown status code>");
}

#[test]
fn encoded_segments_decode_to_their_text() {
    for t in ["_acme-challenge.www.example.com.", "a/b?c#d", "ünïcødé ✓", "", "AZaz09"] {
        let enc = url_encode_path(t);
        assert!(enc.chars().all(|c| c.is_ascii_alphanumeric() || c == '%'), "{}", enc);
        assert!(!enc.contains('/') && !enc.contains('.') && !enc.contains('?') && !enc.contains('#'));
        let dec = percent_encoding::percent_decode_str(&enc).decode_utf8().unwrap();
        assert_eq!(dec, t);
    }
}
