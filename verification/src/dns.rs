//! Google Cloud DNS record sets: their API addresses, the reading of the
//! API's answers, and the changes the router makes to them.

use vstd::prelude::*;
use vstd::utf8::{decode_utf8, encode_utf8};
use crate::num::hex_digit_upper;
use crate::text::{chars_of, copy_string, push_all, push_str, string_of};

verus! {

/// Names a resource record set: the project and managed zone it lives in,
/// its (fully qualified) name and its record type.
#[derive(Debug)]
pub struct ResourceRecordSetId {
    pub project: String,
    pub zone: String,
    pub name: String,
    pub type_: String,
}

/// A resource record set: its id, time to live and data.
#[derive(Debug)]
pub struct ResourceRecordSet {
    pub id: ResourceRecordSetId,
    pub ttl: u64,
    pub rrdatas: Vec<String>,
}

/// A record set id as character sequences.
pub struct RrsetIdView {
    pub project: Seq<char>,
    pub zone: Seq<char>,
    pub name: Seq<char>,
    pub type_: Seq<char>,
}

/// A record set as character sequences.
pub struct RrsetView {
    pub id: RrsetIdView,
    pub ttl: u64,
    pub rrdatas: Seq<Seq<char>>,
}

impl View for ResourceRecordSetId {
    type V = RrsetIdView;

    open spec fn view(&self) -> RrsetIdView {
        RrsetIdView {
            project: self.project@,
            zone: self.zone@,
            name: self.name@,
            type_: self.type_@,
        }
    }
}

impl View for ResourceRecordSet {
    type V = RrsetView;

    open spec fn view(&self) -> RrsetView {
        RrsetView {
            id: self.id@,
            ttl: self.ttl,
            rrdatas: self.rrdatas@.map_values(|s: String| s@),
        }
    }
}

impl ResourceRecordSetId {
    /// A copy of the id.
    pub fn duplicate(&self) -> (r: ResourceRecordSetId)
        ensures
            r@ == self@,
    {
        ResourceRecordSetId {
            project: copy_string(&self.project),
            zone: copy_string(&self.zone),
            name: copy_string(&self.name),
            type_: copy_string(&self.type_),
        }
    }
}

// ---------------------------------------------------------------------------
// Percent-encoding of path segments

/// An ASCII letter or digit, as a byte.
pub open spec fn is_ascii_alphanumeric(b: u8) -> bool {
    (0x30 <= b <= 0x39) || (0x41 <= b <= 0x5a) || (0x61 <= b <= 0x7a)
}

/// The percent-encoding of one byte under `NON_ALPHANUMERIC`: an ASCII
/// letter or digit stands for itself, every other byte becomes `%` and two
/// upper-case hexadecimal digits.
pub open spec fn percent_encode_byte(b: u8) -> Seq<char> {
    if is_ascii_alphanumeric(b) {
        seq![b as char]
    } else {
        seq!['%', hex_digit_upper(b as int / 16), hex_digit_upper(b as int % 16)]
    }
}

/// The percent-encoding of a byte string, byte by byte.
pub open spec fn percent_encode_bytes(bs: Seq<u8>) -> Seq<char>
    decreases bs.len(),
{
    if bs.len() == 0 {
        Seq::empty()
    } else {
        percent_encode_bytes(bs.drop_last()) + percent_encode_byte(bs.last())
    }
}

/// The percent-encoding of the UTF-8 encoding of `s`, escaping everything
/// but ASCII letters and digits.
pub open spec fn url_encode_path_spec(s: Seq<char>) -> Seq<char> {
    percent_encode_bytes(encode_utf8(s))
}

/// Percent-encodes a path segment: `percent_encoding::utf8_percent_encode`
/// with the set `NON_ALPHANUMERIC`, written out.  The crate escapes each byte
/// of the UTF-8 encoding that is not an ASCII letter or digit as `%XX`
/// (upper-case hexadecimal) and keeps the others.
#[verifier::external_body]
pub fn url_encode_path(val: &str) -> (r: String)
    ensures
        r@ == url_encode_path_spec(val@),
{
    percent_encoding::utf8_percent_encode(val, percent_encoding::NON_ALPHANUMERIC).to_string()
}

/// A character of an encoded path segment: an ASCII letter or digit, or
/// `%`.
pub open spec fn is_segment_char(c: char) -> bool {
    ('0' <= c && c <= '9') || ('A' <= c && c <= 'Z') || ('a' <= c && c <= 'z') || c == '%'
}

/// The percent-decoding of a text of ASCII characters: `%` followed by two
/// hexadecimal digits (of either case) stands for the byte they spell, every
/// other character for its own code.
pub open spec fn percent_decode_ascii(cs: Seq<char>) -> Seq<u8>
    decreases cs.len(),
{
    if cs.len() == 0 {
        Seq::empty()
    } else if cs.len() >= 3 && cs[0] == '%' && crate::ip::hex_value(cs[1]) is Some
        && crate::ip::hex_value(cs[2]) is Some {
        seq![(crate::ip::hex_value(cs[1])->0 * 16 + crate::ip::hex_value(cs[2])->0) as u8]
            + percent_decode_ascii(cs.skip(3))
    } else {
        seq![cs[0] as u8] + percent_decode_ascii(cs.skip(1))
    }
}

/// An upper-case hexadecimal digit reads back as its value.
proof fn lemma_hex_digit_upper_value(d: int)
    requires
        0 <= d < 16,
    ensures
        crate::ip::hex_value(hex_digit_upper(d)) == Some(d),
        hex_digit_upper(d) != '%',
{
}

/// Encoding a byte in front of others encodes it in front of their encoding.
proof fn lemma_encode_bytes_front(b: u8, rest: Seq<u8>)
    ensures
        percent_encode_bytes(seq![b] + rest) == percent_encode_byte(b) + percent_encode_bytes(rest),
    decreases rest.len(),
{
    if rest.len() == 0 {
        let one = seq![b] + rest;
        assert(one =~= seq![b]);
        assert(one.drop_last() =~= Seq::<u8>::empty());
        assert(one.last() == b);
        assert(percent_encode_bytes(one) == percent_encode_bytes(one.drop_last()) + percent_encode_byte(b));
        assert(percent_encode_bytes(Seq::<u8>::empty()) =~= Seq::<char>::empty());
        assert(percent_encode_bytes(one) =~= percent_encode_byte(b));
        assert(percent_encode_byte(b) + percent_encode_bytes(rest) =~= percent_encode_byte(b));
    } else {
        let all = seq![b] + rest;
        assert(all.drop_last() =~= seq![b] + rest.drop_last());
        assert(all.last() == rest.last());
        lemma_encode_bytes_front(b, rest.drop_last());
        assert(percent_encode_bytes(all) == percent_encode_bytes(all.drop_last()) + percent_encode_byte(
            all.last(),
        ));
        assert(percent_encode_bytes(rest) == percent_encode_bytes(rest.drop_last()) + percent_encode_byte(
            rest.last(),
        ));
        assert(percent_encode_byte(b) + percent_encode_bytes(rest) =~= percent_encode_byte(b)
            + percent_encode_bytes(rest.drop_last()) + percent_encode_byte(rest.last()));
    }
}

/// Decoding the encoding of a byte in front of a text gives the byte in
/// front of the decoding of the text.
proof fn lemma_decode_byte_front(b: u8, r: Seq<char>)
    ensures
        percent_decode_ascii(percent_encode_byte(b) + r) == seq![b] + percent_decode_ascii(r),
{
    let cs = percent_encode_byte(b) + r;
    if is_ascii_alphanumeric(b) {
        assert(cs[0] == b as char);
        assert(cs.skip(1) =~= r);
        assert(cs[0] != '%');
    } else {
        lemma_hex_digit_upper_value(b as int / 16);
        lemma_hex_digit_upper_value(b as int % 16);
        assert(cs[0] == '%');
        assert(cs[1] == hex_digit_upper(b as int / 16));
        assert(cs[2] == hex_digit_upper(b as int % 16));
        assert(cs.skip(3) =~= r);
        assert((b as int / 16) * 16 + b as int % 16 == b);
    }
}

/// Percent-decoding an encoding gives the bytes back.
proof fn lemma_decode_encoded_bytes(bs: Seq<u8>)
    ensures
        percent_decode_ascii(percent_encode_bytes(bs)) == bs,
    decreases bs.len(),
{
    if bs.len() == 0 {
    } else {
        let rest = bs.drop_first();
        assert(bs =~= seq![bs[0]] + rest);
        lemma_encode_bytes_front(bs[0], rest);
        lemma_decode_byte_front(bs[0], percent_encode_bytes(rest));
        lemma_decode_encoded_bytes(rest);
    }
}

/// Every character of an encoding is an ASCII letter or digit, or `%`.
proof fn lemma_encoded_chars(bs: Seq<u8>)
    ensures
        forall|i: int|
            0 <= i < percent_encode_bytes(bs).len() ==> is_segment_char(
                #[trigger] percent_encode_bytes(bs)[i],
            ),
    decreases bs.len(),
{
    if bs.len() > 0 {
        lemma_encoded_chars(bs.drop_last());
        let b = bs.last();
        let a = percent_encode_bytes(bs.drop_last());
        let e = percent_encode_byte(b);
        assert forall|i: int| 0 <= i < e.len() implies is_segment_char(#[trigger] e[i]) by {
            if !is_ascii_alphanumeric(b) && i > 0 {
                lemma_hex_digit_upper_value(b as int / 16);
                lemma_hex_digit_upper_value(b as int % 16);
            }
        }
        assert forall|i: int|
            0 <= i < percent_encode_bytes(bs).len() implies is_segment_char(
                #[trigger] percent_encode_bytes(bs)[i],
            ) by {
            if i < a.len() {
                assert(percent_encode_bytes(bs)[i] == a[i]);
            } else {
                assert(percent_encode_bytes(bs)[i] == e[i - a.len()]);
            }
        }
    }
}

/// An encoded path segment is one segment: it holds only ASCII letters,
/// digits and `%`, so no `/`, `.`, `?` or `#`; and percent-decoding it gives
/// back the UTF-8 encoding of the text, which decodes to the text itself.
pub proof fn law_url_encode_path_round_trip(s: Seq<char>)
    ensures
        forall|i: int|
            0 <= i < url_encode_path_spec(s).len() ==> is_segment_char(
                #[trigger] url_encode_path_spec(s)[i],
            ),
        !url_encode_path_spec(s).contains('/'),
        !url_encode_path_spec(s).contains('.'),
        !url_encode_path_spec(s).contains('?'),
        !url_encode_path_spec(s).contains('#'),
        percent_decode_ascii(url_encode_path_spec(s)) == encode_utf8(s),
        decode_utf8(percent_decode_ascii(url_encode_path_spec(s))) == s,
{
    lemma_encoded_chars(encode_utf8(s));
    lemma_decode_encoded_bytes(encode_utf8(s));
    vstd::utf8::encode_utf8_decode_utf8(s);
}

/// The API address of the record sets of a zone.
pub open spec fn parent_url_spec(id: RrsetIdView) -> Seq<char> {
    "https://dns.googleapis.com/dns/v1/projects/"@ + url_encode_path_spec(id.project)
        + "/managedZones/"@ + url_encode_path_spec(id.zone) + "/rrsets"@
}

/// The API address of one record set.
pub open spec fn url_spec(id: RrsetIdView) -> Seq<char> {
    "https://dns.googleapis.com/dns/v1/projects/"@ + url_encode_path_spec(id.project)
        + "/managedZones/"@ + url_encode_path_spec(id.zone) + "/rrsets/"@
        + url_encode_path_spec(id.name) + "/"@ + url_encode_path_spec(id.type_)
}

impl ResourceRecordSetId {
    /// The API address of this record set.
    pub fn url(&self) -> (r: String)
        ensures
            r@ == url_spec(self@),
    {
        let mut out: Vec<char> = Vec::new();
        push_str(&mut out, "https://dns.googleapis.com/dns/v1/projects/");
        push_all(&mut out, &chars_of(url_encode_path(self.project.as_str()).as_str()));
        push_str(&mut out, "/managedZones/");
        push_all(&mut out, &chars_of(url_encode_path(self.zone.as_str()).as_str()));
        push_str(&mut out, "/rrsets/");
        push_all(&mut out, &chars_of(url_encode_path(self.name.as_str()).as_str()));
        push_str(&mut out, "/");
        push_all(&mut out, &chars_of(url_encode_path(self.type_.as_str()).as_str()));
        string_of(&out)
    }

    /// The API address of the record sets of this record set's zone.
    pub fn parent_url(&self) -> (r: String)
        ensures
            r@ == parent_url_spec(self@),
    {
        let mut out: Vec<char> = Vec::new();
        push_str(&mut out, "https://dns.googleapis.com/dns/v1/projects/");
        push_all(&mut out, &chars_of(url_encode_path(self.project.as_str()).as_str()));
        push_str(&mut out, "/managedZones/");
        push_all(&mut out, &chars_of(url_encode_path(self.zone.as_str()).as_str()));
        push_str(&mut out, "/rrsets");
        string_of(&out)
    }
}

/// The address of a record set is the address of its zone's record sets
/// followed by `/`, its encoded name, `/` and its encoded type.
pub proof fn law_url_extends_parent_url(id: RrsetIdView)
    ensures
        url_spec(id) == parent_url_spec(id) + "/"@ + url_encode_path_spec(id.name) + "/"@
            + url_encode_path_spec(id.type_),
{
    reveal_strlit("/rrsets/");
    reveal_strlit("/rrsets");
    reveal_strlit("/");
    assert("/rrsets/"@ =~= "/rrsets"@ + "/"@);
    assert(url_spec(id) =~= parent_url_spec(id) + "/"@ + url_encode_path_spec(id.name) + "/"@
        + url_encode_path_spec(id.type_));
}

// ---------------------------------------------------------------------------
// Answers of the API

/// A request to the Cloud DNS API.
#[derive(Clone, Copy, Debug, PartialEq, Eq, Structural)]
pub enum DnsOperation {
    Get,
    Create,
    Update,
    Delete,
}

/// A request that the API answered with an unexpected status.
#[derive(Debug)]
pub struct DnsError {
    pub operation: DnsOperation,
    pub url: String,
    pub status: u16,
}

/// Whether the API's answer to `op` with `status` is a success: 200 for
/// every request, and 404 too for an update or a delete (there is then
/// nothing to change).  For a read, 404 is no error either: the record set
/// does not exist.
pub open spec fn status_accepted(op: DnsOperation, status: u16) -> bool {
    status == 200 || (status == 404 && op != DnsOperation::Create)
}

/// What the API's answer with `status` to `op` at `url` means: `Ok(true)`
/// where the answer carries the record set (a read answered 200), `Ok(false)`
/// for another success, and the error otherwise.
pub fn check_status(op: DnsOperation, url: String, status: u16) -> (r: Result<bool, DnsError>)
    ensures
        match r {
            Ok(found) => status_accepted(op, status) && found == (op == DnsOperation::Get
                && status == 200),
            Err(e) => !status_accepted(op, status) && e.operation == op && e.url@ == url@
                && e.status == status,
        },
{
    if status == 200 {
        Ok(op == DnsOperation::Get)
    } else if status == 404 && op != DnsOperation::Create {
        Ok(false)
    } else {
        Err(DnsError { operation: op, url, status })
    }
}

/// The reason phrase that `http` shows after a status code: the canonical
/// reason of the code, or `<unknown status code>` for a code without one.
pub uninterp spec fn status_reason(code: u16) -> Seq<char>;

/// The text of an HTTP status (`http::StatusCode`'s `Display`): the code in
/// decimal, a space and the reason phrase.  The phrase is read from the
/// crate's table and only named here.
#[verifier::external_body]
fn status_text(code: u16) -> (r: String)
    requires
        100 <= code <= 999,
    ensures
        r@ == crate::num::decimal(code as nat) + " "@ + status_reason(code),
{
    http::StatusCode::from_u16(code).map(|s| s.to_string()).unwrap_or_default()
}

/// The verb of a request in an error message.  A failed update is
/// reported as a failed deletion.
pub open spec fn operation_verb(op: DnsOperation) -> Seq<char> {
    match op {
        DnsOperation::Get => "getting"@,
        DnsOperation::Create => "creating"@,
        DnsOperation::Update => "deleting"@,
        DnsOperation::Delete => "deleting"@,
    }
}

/// The message of a request that the API answered with an unexpected
/// status: `Error <verb> <url>: <status>`.
pub open spec fn dns_error_text_spec(op: DnsOperation, url: Seq<char>, status: Seq<char>) -> Seq<char> {
    "Error "@ + operation_verb(op) + " "@ + url + ": "@ + status
}

/// Writes the message of a failed request, given the text of its status.
pub fn dns_error_text(op: DnsOperation, url: &str, status: &str) -> (r: String)
    ensures
        r@ == dns_error_text_spec(op, url@, status@),
{
    let mut m: Vec<char> = Vec::new();
    push_str(&mut m, "Error ");
    match op {
        DnsOperation::Get => push_str(&mut m, "getting"),
        DnsOperation::Create => push_str(&mut m, "creating"),
        DnsOperation::Update => push_str(&mut m, "deleting"),
        DnsOperation::Delete => push_str(&mut m, "deleting"),
    }
    push_str(&mut m, " ");
    push_str(&mut m, url);
    push_str(&mut m, ": ");
    push_str(&mut m, status);
    string_of(&m)
}

/// The message of a request that the API answered with an unexpected
/// status (a valid HTTP status code, as every answer carries).
pub fn dns_error_message(e: &DnsError) -> (r: String)
    requires
        100 <= e.status <= 999,
    ensures
        r@ == dns_error_text_spec(
            e.operation,
            e.url@,
            crate::num::decimal(e.status as nat) + " "@ + status_reason(e.status),
        ),
{
    let status = status_text(e.status);
    dns_error_text(e.operation, e.url.as_str(), status.as_str())
}

impl ResourceRecordSet {
    /// A record set read from the API, which carries no id, placed under
    /// the id it was read at.
    pub fn fetched(self, id: &ResourceRecordSetId) -> (r: ResourceRecordSet)
        ensures
            r@ == (RrsetView { id: id@, ..self@ }),
    {
        ResourceRecordSet { id: id.duplicate(), ttl: self.ttl, rrdatas: self.rrdatas }
    }
}

/// A change to make to Cloud DNS.
pub enum DnsChange {
    /// Nothing to change.
    Keep,
    /// Create this record set.
    Create(ResourceRecordSet),
    /// Replace the record set of this id by this one.
    Update(ResourceRecordSet),
    /// Delete this record set.
    Delete(ResourceRecordSet),
}

/// A change to make to Cloud DNS, with its record set as character
/// sequences.
pub enum DnsChangeView {
    Keep,
    Create(RrsetView),
    Update(RrsetView),
    Delete(RrsetView),
}

impl View for DnsChange {
    type V = DnsChangeView;

    open spec fn view(&self) -> DnsChangeView {
        match self {
            DnsChange::Keep => DnsChangeView::Keep,
            DnsChange::Create(r) => DnsChangeView::Create(r@),
            DnsChange::Update(r) => DnsChangeView::Update(r@),
            DnsChange::Delete(r) => DnsChangeView::Delete(r@),
        }
    }
}

/// A record set with one datum and a time to live of 60 seconds.
pub open spec fn single_record(id: RrsetIdView, data: Seq<char>) -> RrsetView {
    RrsetView { id, ttl: 60, rrdatas: seq![data] }
}

/// Builds `single_record`.
pub fn make_single_record(id: ResourceRecordSetId, data: String) -> (r: ResourceRecordSet)
    ensures
        r@ == single_record(id@, data@),
{
    let mut rrdatas: Vec<String> = Vec::new();
    rrdatas.push(data);
    let r = ResourceRecordSet { id, ttl: 60, rrdatas };
    assert(r.rrdatas@.map_values(|s: String| s@) =~= seq![data@]);
    r
}

/// The request that makes a change: its operation and the API address it
/// goes to (the zone's record sets for a creation, the record set itself
/// for an update or a deletion); none for a change that changes nothing.
pub open spec fn change_request_spec(c: DnsChangeView) -> Option<(DnsOperation, Seq<char>)> {
    match c {
        DnsChangeView::Keep => None,
        DnsChangeView::Create(r) => Some((DnsOperation::Create, parent_url_spec(r.id))),
        DnsChangeView::Update(r) => Some((DnsOperation::Update, url_spec(r.id))),
        DnsChangeView::Delete(r) => Some((DnsOperation::Delete, url_spec(r.id))),
    }
}

/// Decides the request that makes a change.
pub fn change_request(change: &DnsChange) -> (r: Option<(DnsOperation, String)>)
    ensures
        match r {
            None => change_request_spec(change@) is None,
            Some((op, url)) => change_request_spec(change@) == Some((op, url@)),
        },
{
    match change {
        DnsChange::Keep => None,
        DnsChange::Create(r) => Some((DnsOperation::Create, r.id.parent_url())),
        DnsChange::Update(r) => Some((DnsOperation::Update, r.id.url())),
        DnsChange::Delete(r) => Some((DnsOperation::Delete, r.id.url())),
    }
}

} // verus!
