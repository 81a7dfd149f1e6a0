//! Answering ACME DNS-01 challenges: who may set the `TXT` record
//! `_acme-challenge.<domain>`, and what is changed in Cloud DNS.

use vstd::prelude::*;
use crate::config::{AcmeConfig, AcmeUserConfig, AcmeUserView, Config, users_view};
use crate::dns::{
    DnsChange, DnsChangeView, ResourceRecordSet, ResourceRecordSetId, RrsetIdView,
    make_single_record, single_record,
};
use crate::error::{ErrorResponse, ErrorResponseView};
use crate::text::{chars_eq, chars_of, copy_string, owned, push_all, push_str, slice_chars, split_chars, split_spec, string_of};

verus! {

/// The index of the first user called `name`, if there is one.
pub open spec fn first_user_named(users: Seq<AcmeUserView>, name: Seq<char>) -> Option<int>
    decreases users.len(),
{
    if users.len() == 0 {
        None
    } else {
        match first_user_named(users.drop_last(), name) {
            Some(i) => Some(i),
            None => if users.last().name == name {
                Some(users.len() - 1)
            } else {
                None
            },
        }
    }
}

/// `s` without the suffix `suffix`, if it ends with it (`str::strip_suffix`).
pub open spec fn strip_suffix_spec(s: Seq<char>, suffix: Seq<char>) -> Option<Seq<char>> {
    if suffix.len() <= s.len() && s.skip(s.len() - suffix.len()) == suffix {
        Some(s.take(s.len() - suffix.len()))
    } else {
        None
    }
}

/// The last `'.'`-separated label of `s` (the first piece `rsplit('.')`
/// yields).
pub open spec fn last_label(s: Seq<char>) -> Seq<char> {
    split_spec(s, '.').last()
}

/// The answer to a challenge request for the record name `domain` by
/// `username` with `password`: 401 "Auth failed" unless the first user of
/// that name has that secret; an internal error "Invalid domain: <domain>"
/// unless the name ends with `.` and the ACME domain; 403 "Access denied"
/// unless the label just before the ACME domain is one of the user's
/// subdomains; success otherwise.
pub open spec fn auth_verify_spec(
    users: Seq<AcmeUserView>,
    acme_domain: Seq<char>,
    username: Seq<char>,
    password: Seq<char>,
    domain: Seq<char>,
) -> Result<(), ErrorResponseView> {
    match first_user_named(users, username) {
        None => Err(ErrorResponseView { status: 401, message: "Auth failed"@ }),
        Some(i) => if users[i].secret != password {
            Err(ErrorResponseView { status: 401, message: "Auth failed"@ })
        } else {
            match strip_suffix_spec(domain, seq!['.'] + acme_domain) {
                None => Err(
                    ErrorResponseView { status: 500, message: "Invalid domain: "@ + domain },
                ),
                Some(full) => if users[i].subdomains.contains(last_label(full)) {
                    Ok(())
                } else {
                    Err(ErrorResponseView { status: 403, message: "Access denied"@ })
                },
            }
        },
    }
}

/// Finds the first user called `name`.
fn find_user(users: &Vec<AcmeUserConfig>, name: &Vec<char>) -> (r: Option<usize>)
    ensures
        match r {
            Some(i) => first_user_named(users@.map_values(|u: AcmeUserConfig| u@), name@) == Some(
                i as int,
            ) && i < users@.len(),
            None => first_user_named(users@.map_values(|u: AcmeUserConfig| u@), name@) is None,
        },
{
    let ghost uv = users@.map_values(|u: AcmeUserConfig| u@);
    let mut i: usize = 0;
    while i < users.len()
        invariant
            i <= users@.len(),
            uv == users@.map_values(|u: AcmeUserConfig| u@),
            first_user_named(uv.take(i as int), name@) is None,
        decreases users.len() - i,
    {
        assert(uv.take(i + 1).drop_last() =~= uv.take(i as int));
        let n = chars_of(users[i].name.as_str());
        if chars_eq(&n, name) {
            proof {
                lemma_first_user_prefix(uv, name@, i + 1);
            }
            return Some(i);
        }
        i += 1;
    }
    assert(uv.take(users.len() as int) =~= uv);
    None
}

/// A user found in a prefix of the users is the first one in all of them.
proof fn lemma_first_user_prefix(users: Seq<AcmeUserView>, name: Seq<char>, k: int)
    requires
        0 <= k <= users.len(),
        first_user_named(users.take(k), name) is Some,
    ensures
        first_user_named(users, name) == first_user_named(users.take(k), name),
    decreases users.len() - k,
{
    if k < users.len() {
        assert(users.take(k + 1).drop_last() =~= users.take(k));
        lemma_first_user_prefix(users, name, k + 1);
    } else {
        assert(users.take(k) =~= users);
    }
}

/// Whether `s` ends with `suffix`, and what precedes it.
fn strip_suffix(s: &Vec<char>, suffix: &Vec<char>) -> (r: Option<Vec<char>>)
    ensures
        match r {
            Some(t) => strip_suffix_spec(s@, suffix@) == Some(t@),
            None => strip_suffix_spec(s@, suffix@) is None,
        },
{
    if suffix.len() > s.len() {
        return None;
    }
    let k = s.len() - suffix.len();
    let tail = slice_chars(s, k, s.len());
    assert(tail@ =~= s@.skip(k as int));
    if chars_eq(&tail, suffix) {
        let head = slice_chars(s, 0, k);
        assert(head@ =~= s@.take(k as int));
        Some(head)
    } else {
        None
    }
}

/// Whether `s` is one of `list`.
fn contains_string(list: &Vec<String>, s: &Vec<char>) -> (r: bool)
    ensures
        r == list@.map_values(|x: String| x@).contains(s@),
{
    let ghost lv = list@.map_values(|x: String| x@);
    let mut i: usize = 0;
    while i < list.len()
        invariant
            i <= list@.len(),
            lv == list@.map_values(|x: String| x@),
            forall|k: int| 0 <= k < i ==> lv[k] != s@,
        decreases list.len() - i,
    {
        let c = chars_of(list[i].as_str());
        if chars_eq(&c, s) {
            assert(lv[i as int] == s@);
            return true;
        }
        i += 1;
    }
    false
}

/// Decides whether `username` with `password` may answer the challenge for
/// the record name `domain` (see `auth_verify_spec`).
pub fn auth_verify(acme: &AcmeConfig, username: &str, password: &str, domain: &str) -> (r: Result<
    (),
    ErrorResponse,
>)
    ensures
        match auth_verify_spec(users_view(*acme), acme.domain@, username@, password@, domain@) {
            Ok(()) => r is Ok,
            Err(e) => r matches Err(x) && x@ == e,
        },
{
    proof {
        reveal_strlit("Auth failed");
        reveal_strlit("Access denied");
    }
    let name = chars_of(username);
    let i = match find_user(&acme.users, &name) {
        Some(i) => i,
        None => return Err(ErrorResponse::unauthorized(owned("Auth failed"))),
    };
    let user = &acme.users[i];
    let secret = chars_of(user.secret.as_str());
    let pw = chars_of(password);
    if !chars_eq(&secret, &pw) {
        return Err(ErrorResponse::unauthorized(owned("Auth failed")));
    }
    let d = chars_of(domain);
    let mut suffix: Vec<char> = Vec::new();
    suffix.push('.');
    push_str(&mut suffix, acme.domain.as_str());
    assert(suffix@ =~= seq!['.'] + acme.domain@);
    let full = match strip_suffix(&d, &suffix) {
        Some(f) => f,
        None => {
            let mut m: Vec<char> = Vec::new();
            push_str(&mut m, "Invalid domain: ");
            push_all(&mut m, &d);
            return Err(ErrorResponse::internal(string_of(&m)));
        },
    };
    let labels = split_chars(&full, '.');
    proof {
        crate::text::lemma_split_nonempty(full@, '.');
    }
    let main_subdomain = &labels[labels.len() - 1];
    if !contains_string(&user.subdomains, main_subdomain) {
        return Err(ErrorResponse::forbidden(owned("Access denied")));
    }
    Ok(())
}

// ---------------------------------------------------------------------------
// The challenge record

/// The name of the challenge record for `domain`.
pub open spec fn challenge_name_spec(domain: Seq<char>) -> Seq<char> {
    "_acme-challenge."@ + domain
}

/// Builds the name of the challenge record for `domain`.
pub fn challenge_name(domain: &str) -> (r: String)
    ensures
        r@ == challenge_name_spec(domain@),
{
    let mut m: Vec<char> = Vec::new();
    push_str(&mut m, "_acme-challenge.");
    push_str(&mut m, domain);
    string_of(&m)
}

/// The id of the `TXT` record set that holds a challenge: in the configured
/// project and ACME zone, named by the challenge name and a final `.`.
pub open spec fn challenge_rrset_id_spec(
    project: Seq<char>,
    zone: Seq<char>,
    challenge: Seq<char>,
) -> RrsetIdView {
    RrsetIdView { project, zone, name: challenge.push('.'), type_: "TXT"@ }
}

/// Builds the id of the record set for the challenge name `challenge`.
pub fn challenge_rrset_id(config: &Config, challenge: &str) -> (r: ResourceRecordSetId)
    ensures
        r@ == challenge_rrset_id_spec(
            config.google_cloud.project_id@,
            config.acme.cloud_zone@,
            challenge@,
        ),
{
    let mut name = chars_of(challenge);
    name.push('.');
    ResourceRecordSetId {
        project: copy_string(&config.google_cloud.project_id),
        zone: copy_string(&config.acme.cloud_zone),
        name: string_of(&name),
        type_: owned("TXT"),
    }
}

/// The first step of a challenge request (setting or removing the record
/// for `domain`), taken before Cloud DNS is touched at all: a refusal when
/// the request is not authorised for the challenge name, and otherwise the
/// id of the record set to read next.
pub fn start_challenge(config: &Config, username: &str, password: &str, domain: &str) -> (r: Result<
    ResourceRecordSetId,
    ErrorResponse,
>)
    ensures
        match auth_verify_spec(
            users_view(config.acme),
            config.acme.domain@,
            username@,
            password@,
            challenge_name_spec(domain@),
        ) {
            Err(e) => r matches Err(x) && x@ == e,
            Ok(()) => r matches Ok(id) && id@ == challenge_rrset_id_spec(
                config.google_cloud.project_id@,
                config.acme.cloud_zone@,
                challenge_name_spec(domain@),
            ),
        },
{
    let name = challenge_name(domain);
    match auth_verify(&config.acme, username, password, name.as_str()) {
        Err(e) => Err(e),
        Ok(()) => Ok(challenge_rrset_id(config, name.as_str())),
    }
}

/// The change that setting the challenge value `value` makes: the record
/// set becomes one with that single value and a time to live of 60 seconds,
/// updated where one exists (under its id) and created under `id` where none
/// does.
pub open spec fn put_change_spec(
    id: RrsetIdView,
    existing: Option<RrsetIdView>,
    value: Seq<char>,
) -> DnsChangeView {
    match existing {
        Some(e) => DnsChangeView::Update(single_record(e, value)),
        None => DnsChangeView::Create(single_record(id, value)),
    }
}

/// Decides the change for setting a challenge value, given the record set
/// found under `id` (if any), with the answer to send when it is done.
pub fn put_change(id: ResourceRecordSetId, existing: Option<ResourceRecordSet>, value: String) -> (r: (
    DnsChange,
    String,
))
    ensures
        r.0@ == put_change_spec(
            id@,
            match existing {
                Some(e) => Some(e.id@),
                None => None,
            },
            value@,
        ),
        r.1@ == if existing is Some {
            "DNS record updated\n"@
        } else {
            "DNS record created\n"@
        },
{
    match existing {
        Some(rrset) => {
            let updated = make_single_record(rrset.id, value);
            (DnsChange::Update(updated), owned("DNS record updated\n"))
        },
        None => (DnsChange::Create(make_single_record(id, value)), owned("DNS record created\n")),
    }
}

/// Decides the change for removing a challenge: delete the record set if
/// it exists.
pub fn delete_change(existing: Option<ResourceRecordSet>) -> (r: (DnsChange, String))
    ensures
        r.0@ == match existing {
            Some(e) => DnsChangeView::Delete(e@),
            None => DnsChangeView::Keep,
        },
        r.1@ == "DNS record removed\n"@,
{
    let c = match existing {
        Some(rrset) => DnsChange::Delete(rrset),
        None => DnsChange::Keep,
    };
    (c, owned("DNS record removed\n"))
}

/// The challenge record set is named by the challenge name as a fully
/// qualified name: `_acme-challenge.`, the domain and one final `.`; it is
/// a `TXT` record in the configured project and ACME zone.
pub proof fn law_challenge_name_is_fully_qualified(project: Seq<char>, zone: Seq<char>, domain: Seq<char>)
    ensures
        challenge_rrset_id_spec(project, zone, challenge_name_spec(domain)).name.last() == '.',
        challenge_rrset_id_spec(project, zone, challenge_name_spec(domain)).name.drop_last()
            == "_acme-challenge."@ + domain,
        challenge_rrset_id_spec(project, zone, challenge_name_spec(domain)).type_ == seq!['T', 'X', 'T'],
{
    reveal_strlit("TXT");
    assert(challenge_rrset_id_spec(project, zone, challenge_name_spec(domain)).name.drop_last()
        =~= "_acme-challenge."@ + domain);
    assert("TXT"@ =~= seq!['T', 'X', 'T']);
}

} // verus!
