//! Reading the dnsmasq lease file: one lease per line, five fields separated
//! by single spaces (expiry time, MAC address, IP address, host name, client
//! id, with `*` for an absent host name or client id).  The router's own
//! address comes first, then the leases of the file, and the whole list is
//! sorted stably by IP address.

use vstd::prelude::*;
use crate::common::{DhcpLease, DhcpLeaseView};
use crate::ip::{IpAddress, ip_le, ip_less_eq, ip_rank, parse_ip, parse_ip_spec};
use crate::num::{IntErrorKind, decimal, i64_error, i64_error_kind, parse_i64, parse_i64_spec, push_decimal};
use crate::text::{chars_eq_str, chars_of, lines_of, lines_spec, push_str, split_chars, split_spec, string_of};

verus! {

/// Why a lease file could not be read.
#[derive(Clone, Copy, Debug, PartialEq, Eq, Structural)]
pub enum LeaseError {
    /// A line does not have exactly five space-separated fields; it has
    /// this many.
    WrongFieldCount(usize),
    /// The expiry time of a line is not an `i64`, for this reason.
    InvalidExpiryTime(IntErrorKind),
    /// The IP address of a line is not an IP address.
    InvalidIpAddress,
}

/// The first second that `chrono` can represent as a UTC date and time
/// (`-262143-01-01T00:00:00Z`).
pub open spec fn min_utc_timestamp() -> int {
    -8_334_601_228_800
}

/// The last second that `chrono` can represent as a UTC date and time
/// (`+262142-12-31T23:59:59Z`).
pub open spec fn max_utc_timestamp() -> int {
    8_210_266_876_799
}

/// Whether `chrono::Utc.timestamp_opt(secs, 0)` gives a single date and
/// time.  That holds exactly when the day of `secs` lies between the first
/// day of the year -262143 and the last day of the year 262142, the years
/// that `chrono`'s `NaiveDate` holds (`DateTime::from_timestamp`).
#[verifier::external_body]
fn utc_timestamp_valid(secs: i64) -> (r: bool)
    ensures
        r == (min_utc_timestamp() <= secs <= max_utc_timestamp()),
{
    chrono::TimeZone::timestamp_opt(&chrono::Utc, secs, 0).single().is_some()
}

/// The message a lease file error is reported with: the failed field
/// count check with the count found, the standard library's text for an
/// expiry time that is not an integer, or for an address that is not one.
pub open spec fn lease_error_text(e: LeaseError) -> Seq<char> {
    match e {
        LeaseError::WrongFieldCount(n) => "Condition failed: `parts.len() == 5` ("@ + decimal(n as nat)
            + " vs 5)"@,
        LeaseError::InvalidExpiryTime(IntErrorKind::Empty) => "cannot parse integer from empty string"@,
        LeaseError::InvalidExpiryTime(IntErrorKind::InvalidDigit) => "invalid digit found in string"@,
        LeaseError::InvalidExpiryTime(IntErrorKind::PosOverflow) => "number too large to fit in target type"@,
        LeaseError::InvalidExpiryTime(IntErrorKind::NegOverflow) => "number too small to fit in target type"@,
        LeaseError::InvalidIpAddress => "invalid IP address syntax"@,
    }
}

/// Writes the message of a lease file error.
pub fn lease_error_message(e: LeaseError) -> (r: String)
    ensures
        r@ == lease_error_text(e),
{
    let mut m: Vec<char> = Vec::new();
    match e {
        LeaseError::WrongFieldCount(n) => {
            push_str(&mut m, "Condition failed: `parts.len() == 5` (");
            push_decimal(&mut m, n as u64);
            push_str(&mut m, " vs 5)");
        },
        LeaseError::InvalidExpiryTime(IntErrorKind::Empty) => push_str(&mut m, "cannot parse integer from empty string"),
        LeaseError::InvalidExpiryTime(IntErrorKind::InvalidDigit) => push_str(&mut m, "invalid digit found in string"),
        LeaseError::InvalidExpiryTime(IntErrorKind::PosOverflow) => push_str(&mut m, "number too large to fit in target type"),
        LeaseError::InvalidExpiryTime(IntErrorKind::NegOverflow) => push_str(&mut m, "number too small to fit in target type"),
        LeaseError::InvalidIpAddress => push_str(&mut m, "invalid IP address syntax"),
    }
    string_of(&m)
}

/// `None` for a field that is `*`, the field otherwise.
pub open spec fn optional_field(f: Seq<char>) -> Option<Seq<char>> {
    if f == seq!['*'] {
        None
    } else {
        Some(f)
    }
}

/// The lease that one line of the lease file describes.
pub open spec fn lease_line_spec(line: Seq<char>) -> Result<DhcpLeaseView, LeaseError> {
    let f = split_spec(line, ' ');
    if f.len() != 5 {
        Err(LeaseError::WrongFieldCount(f.len() as usize))
    } else if parse_i64_spec(f[0]) is None {
        Err(LeaseError::InvalidExpiryTime(i64_error_kind(f[0])))
    } else if parse_ip_spec(f[2]) is None {
        Err(LeaseError::InvalidIpAddress)
    } else {
        let secs = parse_i64_spec(f[0])->0;
        Ok(
            DhcpLeaseView {
                expiry_time: if min_utc_timestamp() <= secs <= max_utc_timestamp() {
                    Some(secs)
                } else {
                    None
                },
                mac_address: f[1],
                ip_address: parse_ip_spec(f[2])->0,
                hostname: optional_field(f[3]),
                client_id: optional_field(f[4]),
            },
        )
    }
}

/// Reads a field that may be `*`.
fn optional_string(f: &Vec<char>) -> (r: Option<String>)
    ensures
        crate::common::opt_view(r) == optional_field(f@),
{
    proof {
        reveal_strlit("*");
        assert("*"@ =~= seq!['*']);
    }
    if chars_eq_str(f, "*") {
        None
    } else {
        Some(string_of(f))
    }
}

/// Reads one line of the lease file.
pub fn parse_lease_line(line: &Vec<char>) -> (r: Result<DhcpLease, LeaseError>)
    ensures
        match r {
            Ok(l) => lease_line_spec(line@) == Ok::<DhcpLeaseView, LeaseError>(l@),
            Err(e) => lease_line_spec(line@) == Err::<DhcpLeaseView, LeaseError>(e),
        },
{
    let f = split_chars(line, ' ');
    if f.len() != 5 {
        return Err(LeaseError::WrongFieldCount(f.len()));
    }
    let secs = match parse_i64(&f[0]) {
        Some(s) => s,
        None => return Err(LeaseError::InvalidExpiryTime(i64_error(&f[0]))),
    };
    let ip = match parse_ip(&f[2]) {
        Some(a) => a,
        None => return Err(LeaseError::InvalidIpAddress),
    };
    let expiry_time = if utc_timestamp_valid(secs) {
        Some(secs)
    } else {
        None
    };
    let lease = DhcpLease {
        expiry_time,
        mac_address: string_of(&f[1]),
        ip_address: ip,
        hostname: optional_string(&f[3]),
        client_id: optional_string(&f[4]),
    };
    Ok(lease)
}

// ---------------------------------------------------------------------------
// Sorting by IP address

/// The leases of `s` whose IP address is `ip`, in their order in `s`.
pub open spec fn with_ip(s: Seq<DhcpLeaseView>, ip: IpAddress) -> Seq<DhcpLeaseView> {
    s.filter(|l: DhcpLeaseView| l.ip_address == ip)
}

/// `s` is in ascending order of IP address.
pub open spec fn sorted_by_ip(s: Seq<DhcpLeaseView>) -> bool {
    forall|i: int, j: int|
        0 <= i < j < s.len() ==> ip_le(#[trigger] s[i].ip_address, #[trigger] s[j].ip_address)
}

/// `r` is `s` sorted stably by IP address: ascending, and the leases that
/// share an IP address keep their order (and their number).  These two
/// facts determine `r` from `s`.
pub open spec fn stable_sort_of(r: Seq<DhcpLeaseView>, s: Seq<DhcpLeaseView>) -> bool {
    &&& sorted_by_ip(r)
    &&& forall|ip: IpAddress| #[trigger] with_ip(r, ip) == with_ip(s, ip)
}

/// The views of a list of leases.
pub open spec fn lease_views(v: Seq<DhcpLease>) -> Seq<DhcpLeaseView> {
    v.map_values(|l: DhcpLease| l@)
}

/// Inserting after every lease with an address not above `x`'s and before
/// every lease with a greater one keeps the list sorted and appends `x` to
/// the leases of its address.
proof fn lemma_insert_sorted(s: Seq<DhcpLeaseView>, p: int, x: DhcpLeaseView)
    requires
        sorted_by_ip(s),
        0 <= p <= s.len(),
        forall|i: int| 0 <= i < p ==> ip_le(#[trigger] s[i].ip_address, x.ip_address),
        forall|i: int| p <= i < s.len() ==> !ip_le(#[trigger] s[i].ip_address, x.ip_address),
    ensures
        sorted_by_ip(s.insert(p, x)),
        forall|ip: IpAddress|
            #[trigger] with_ip(s.insert(p, x), ip) == if ip == x.ip_address {
                with_ip(s, ip).push(x)
            } else {
                with_ip(s, ip)
            },
{
    let t = s.insert(p, x);
    assert forall|i: int, j: int| 0 <= i < j < t.len() implies ip_le(
        #[trigger] t[i].ip_address,
        #[trigger] t[j].ip_address,
    ) by {
        let a = t[i].ip_address;
        let b = t[j].ip_address;
        let c = x.ip_address;
        crate::ip::lemma_ip_le_total_order(a, b, c);
        crate::ip::lemma_ip_le_total_order(a, c, b);
        crate::ip::lemma_ip_le_total_order(c, a, b);
        if j < p {
            assert(t[i] == s[i] && t[j] == s[j]);
        } else if j == p {
            assert(t[i] == s[i]);
        } else if i < p {
            assert(t[i] == s[i] && t[j] == s[j - 1]);
            crate::ip::lemma_ip_le_total_order(s[j - 1].ip_address, c, a);
        } else if i == p {
            assert(t[j] == s[j - 1]);
            crate::ip::lemma_ip_le_total_order(s[j - 1].ip_address, c, c);
        } else {
            assert(t[i] == s[i - 1] && t[j] == s[j - 1]);
        }
    }
    assert(t =~= s.take(p) + seq![x] + s.skip(p));
    assert(s =~= s.take(p) + s.skip(p));
    assert forall|ip: IpAddress| #[trigger] with_ip(t, ip) == if ip == x.ip_address {
        with_ip(s, ip).push(x)
    } else {
        with_ip(s, ip)
    } by {
        let f = |l: DhcpLeaseView| l.ip_address == ip;
        let a = s.take(p);
        let b = s.skip(p);
        Seq::filter_distributes_over_add(a + seq![x], b, f);
        Seq::filter_distributes_over_add(a, seq![x], f);
        Seq::filter_distributes_over_add(a, b, f);
        reveal_with_fuel(Seq::filter, 2);
        assert(seq![x].drop_last() =~= Seq::<DhcpLeaseView>::empty());
        if ip == x.ip_address {
            assert forall|i: int| 0 <= i < b.len() implies !f(b[i]) by {
                assert(b[i] == s[p + i]);
                crate::ip::lemma_ip_le_total_order(x.ip_address, x.ip_address, x.ip_address);
            }
            b.lemma_all_neg_filter_empty(f);
            assert(b.filter(f) =~= Seq::<DhcpLeaseView>::empty());
            assert(seq![x].filter(f) =~= seq![x]);
            assert(with_ip(t, ip) =~= a.filter(f).push(x));
            assert(with_ip(s, ip) =~= a.filter(f));
        } else {
            assert(seq![x].filter(f) =~= Seq::<DhcpLeaseView>::empty());
            assert(with_ip(t, ip) =~= a.filter(f) + b.filter(f));
        }
    }
}

/// Inserts `x` into the sorted list `v` after all leases whose address is
/// not greater than `x`'s.
fn insert_by_ip(v: &mut Vec<DhcpLease>, x: DhcpLease)
    requires
        sorted_by_ip(lease_views(old(v)@)),
    ensures
        sorted_by_ip(lease_views(final(v)@)),
        forall|ip: IpAddress|
            #[trigger] with_ip(lease_views(final(v)@), ip) == if ip == x.ip_address {
                with_ip(lease_views(old(v)@), ip).push(x@)
            } else {
                with_ip(lease_views(old(v)@), ip)
            },
{
    let ghost s = lease_views(v@);
    let mut p: usize = v.len();
    while p > 0 && !ip_less_eq(v[p - 1].ip_address, x.ip_address)
        invariant
            p <= v.len(),
            s == lease_views(v@),
            forall|i: int| p <= i < v.len() ==> !ip_le(#[trigger] s[i].ip_address, x.ip_address),
        decreases p,
    {
        p -= 1;
    }
    proof {
        assert forall|i: int| 0 <= i < p implies ip_le(#[trigger] s[i].ip_address, x.ip_address) by {
            if p > 0 {
                assert(ip_le(s[p - 1].ip_address, x.ip_address));
                if i < p - 1 {
                    assert(ip_le(s[i].ip_address, s[p - 1].ip_address));
                    crate::ip::lemma_ip_le_total_order(
                        s[i].ip_address,
                        s[p - 1].ip_address,
                        x.ip_address,
                    );
                }
            }
        }
        lemma_insert_sorted(s, p as int, x@);
    }
    let ghost xv = x@;
    v.insert(p, x);
    assert(lease_views(v@) =~= s.insert(p as int, xv));
}

// ---------------------------------------------------------------------------
// The lease file

/// The leases of all lines, or the error of the first line that is not a
/// lease.
pub open spec fn lease_lines_spec(lines: Seq<Seq<char>>) -> Result<Seq<DhcpLeaseView>, LeaseError>
    decreases lines.len(),
{
    if lines.len() == 0 {
        Ok(Seq::<DhcpLeaseView>::empty())
    } else {
        match lease_lines_spec(lines.drop_last()) {
            Err(e) => Err(e),
            Ok(ls) => match lease_line_spec(lines.last()) {
                Err(e) => Err(e),
                Ok(l) => Ok(ls.push(l)),
            },
        }
    }
}

/// The lease of the router itself, which heads the list of leases.
pub open spec fn router_lease() -> DhcpLeaseView {
    DhcpLeaseView {
        expiry_time: None,
        mac_address: "d6:f8:fc:49:c0:5d"@,
        ip_address: IpAddress::V4(0x0a6d_8401),
        hostname: Some("router"@),
        client_id: None,
    }
}

/// Builds the router's own lease: 10.109.132.1, named `router`, which never
/// expires.
pub fn router_own_lease() -> (r: DhcpLease)
    ensures
        r@ == router_lease(),
{
    DhcpLease {
        expiry_time: None,
        mac_address: string_of(&chars_of("d6:f8:fc:49:c0:5d")),
        ip_address: IpAddress::V4(0x0a6d_8401),
        hostname: Some(string_of(&chars_of("router"))),
        client_id: None,
    }
}

/// Reads the lease file: the router's own lease followed by one lease per
/// line, sorted stably by IP address; or the error of the first line that
/// is not a lease.
pub fn parse_leases(text: &str) -> (r: Result<Vec<DhcpLease>, LeaseError>)
    ensures
        match lease_lines_spec(lines_spec(text@)) {
            Ok(ls) => r matches Ok(v) && stable_sort_of(
                lease_views(v@),
                seq![router_lease()] + ls,
            ) && forall|i: int, j: int|
                0 <= i < j < v@.len() ==> ip_rank(#[trigger] v@[i].ip_address) <= ip_rank(
                    #[trigger] v@[j].ip_address,
                ),
            Err(e) => r == Err::<Vec<DhcpLease>, LeaseError>(e),
        },
{
    let cs = chars_of(text);
    let lines = lines_of(&cs);
    let ghost ls = lines_spec(text@);
    let mut out: Vec<DhcpLease> = Vec::new();
    let ghost mut input: Seq<DhcpLeaseView> = Seq::empty();
    let router = router_own_lease();
    proof {
        assert(lease_views(out@) =~= Seq::<DhcpLeaseView>::empty());
    }
    insert_by_ip(&mut out, router);
    proof {
        input = seq![router_lease()];
        assert forall|ip: IpAddress| #[trigger] with_ip(lease_views(out@), ip) == with_ip(input, ip) by {
            reveal_with_fuel(Seq::filter, 2);
            assert(input.drop_last() =~= Seq::<DhcpLeaseView>::empty());
            assert(with_ip(Seq::<DhcpLeaseView>::empty(), ip) =~= Seq::<DhcpLeaseView>::empty());
        }
        assert(lease_lines_spec(ls.take(0)) == Ok::<Seq<DhcpLeaseView>, LeaseError>(Seq::empty()));
    }
    let mut i: usize = 0;
    while i < lines.len()
        invariant
            i <= lines@.len(),
            ls == lines_spec(text@),
            lines@.len() == ls.len(),
            forall|k: int| 0 <= k < lines@.len() ==> #[trigger] lines@[k]@ == ls[k],
            lease_lines_spec(ls.take(i as int)) matches Ok(done) && input == seq![router_lease()]
                + done,
            sorted_by_ip(lease_views(out@)),
            forall|ip: IpAddress| #[trigger] with_ip(lease_views(out@), ip) == with_ip(input, ip),
        decreases lines.len() - i,
    {
        assert(ls.take(i + 1).drop_last() =~= ls.take(i as int));
        assert(ls.take(i + 1).last() == lines@[i as int]@);
        match parse_lease_line(&lines[i]) {
            Ok(l) => {
                let ghost lv = l@;
                let ghost old_out = lease_views(out@);
                insert_by_ip(&mut out, l);
                proof {
                    let old_input = input;
                    input = input.push(lv);
                    assert forall|ip: IpAddress| #[trigger] with_ip(lease_views(out@), ip) == with_ip(
                        input,
                        ip,
                    ) by {
                        old_input.lemma_filter_push(lv, |l: DhcpLeaseView| l.ip_address == ip);
                        assert(with_ip(old_out, ip) == with_ip(old_input, ip));
                    }
                    let done = lease_lines_spec(ls.take(i as int))->Ok_0;
                    assert(input =~= seq![router_lease()] + done.push(lv));
                }
            },
            Err(e) => {
                proof {
                    assert(lease_lines_spec(ls.take(i + 1)) == Err::<Seq<DhcpLeaseView>, LeaseError>(e));
                    lemma_lease_lines_err_persists(ls, (i + 1) as int);
                }
                return Err(e);
            },
        }
        i += 1;
    }
    assert(ls.take(lines.len() as int) =~= ls);
    proof {
        let ghost lv = lease_views(out@);
        assert forall|i: int, j: int| 0 <= i < j < out@.len() implies ip_rank(
            #[trigger] out@[i].ip_address,
        ) <= ip_rank(#[trigger] out@[j].ip_address) by {
            assert(lv[i].ip_address == out@[i].ip_address);
            assert(lv[j].ip_address == out@[j].ip_address);
            assert(ip_le(lv[i].ip_address, lv[j].ip_address));
            crate::ip::law_ip_order_is_numeric(lv[i].ip_address, lv[j].ip_address);
        }
    }
    Ok(out)
}

/// Once a line fails, reading the lines up to any later point fails with
/// the same error.
proof fn lemma_lease_lines_err_persists(ls: Seq<Seq<char>>, i: int)
    requires
        0 <= i <= ls.len(),
        lease_lines_spec(ls.take(i)) is Err,
    ensures
        lease_lines_spec(ls) == lease_lines_spec(ls.take(i)),
    decreases ls.len() - i,
{
    if i < ls.len() {
        assert(ls.take(i + 1).drop_last() =~= ls.take(i));
        lemma_lease_lines_err_persists(ls, i + 1);
    } else {
        assert(ls.take(i) =~= ls);
    }
}


// ---------------------------------------------------------------------------
// Laws

/// A lease list sorted by IP address is determined by the leases it holds
/// for each address, in their order: two sorted lists that agree on those
/// are the same list.
pub proof fn law_sorted_lists_agreeing_per_address_are_equal(
    r1: Seq<DhcpLeaseView>,
    r2: Seq<DhcpLeaseView>,
)
    requires
        sorted_by_ip(r1),
        sorted_by_ip(r2),
        forall|ip: IpAddress| #[trigger] with_ip(r1, ip) == with_ip(r2, ip),
    ensures
        r1 == r2,
    decreases r1.len() + r2.len(),
{
    if r1.len() == 0 || r2.len() == 0 {
        if r1.len() > 0 {
            lemma_with_ip_nonempty(r1, r1.len() - 1);
            assert(with_ip(r2, r1[r1.len() - 1].ip_address).len() == 0) by {
                assert(r2 =~= Seq::<DhcpLeaseView>::empty());
            }
        }
        if r2.len() > 0 {
            lemma_with_ip_nonempty(r2, r2.len() - 1);
            assert(with_ip(r1, r2[r2.len() - 1].ip_address).len() == 0) by {
                assert(r1 =~= Seq::<DhcpLeaseView>::empty());
            }
        }
        assert(r1 =~= r2);
    } else {
        let x1 = r1.last();
        let x2 = r2.last();
        let k1 = x1.ip_address;
        let k2 = x2.ip_address;
        lemma_with_ip_nonempty(r1, r1.len() - 1);
        lemma_with_ip_nonempty(r2, r2.len() - 1);
        // Some lease of r2 has x1's address, so x1's address is at most x2's.
        let j2 = lemma_with_ip_witness(r2, k1);
        let j1 = lemma_with_ip_witness(r1, k2);
        if j2 < r2.len() - 1 {
            assert(ip_le(r2[j2].ip_address, r2[r2.len() - 1].ip_address));
        }
        if j1 < r1.len() - 1 {
            assert(ip_le(r1[j1].ip_address, r1[r1.len() - 1].ip_address));
        }
        crate::ip::lemma_ip_le_total_order(k1, k2, k1);
        assert(k1 == k2);
        let d1 = r1.drop_last();
        let d2 = r2.drop_last();
        assert(r1 =~= d1.push(x1));
        assert(r2 =~= d2.push(x2));
        assert forall|ip: IpAddress| #[trigger] with_ip(d1, ip) == with_ip(d2, ip) by {
            d1.lemma_filter_push(x1, |l: DhcpLeaseView| l.ip_address == ip);
            d2.lemma_filter_push(x2, |l: DhcpLeaseView| l.ip_address == ip);
            assert(with_ip(r1, ip) == with_ip(r2, ip));
            if ip == k1 {
                assert(with_ip(d1, ip) =~= with_ip(r1, ip).drop_last());
                assert(with_ip(d2, ip) =~= with_ip(r2, ip).drop_last());
            }
        }
        assert(x1 == x2) by {
            d1.lemma_filter_push(x1, |l: DhcpLeaseView| l.ip_address == k1);
            d2.lemma_filter_push(x2, |l: DhcpLeaseView| l.ip_address == k1);
            assert(with_ip(r1, k1).last() == x1);
            assert(with_ip(r2, k1).last() == x2);
        }
        assert(sorted_by_ip(d1));
        assert(sorted_by_ip(d2));
        law_sorted_lists_agreeing_per_address_are_equal(d1, d2);
    }
}

/// The lease at `i` is among the leases of its address.
proof fn lemma_with_ip_nonempty(s: Seq<DhcpLeaseView>, i: int)
    requires
        0 <= i < s.len(),
    ensures
        with_ip(s, s[i].ip_address).contains(s[i]),
{
    let ip = s[i].ip_address;
    s.lemma_filter_contains(|l: DhcpLeaseView| l.ip_address == ip, i);
}

/// A lease of a nonempty `with_ip` list is in the list itself.
proof fn lemma_with_ip_witness(s: Seq<DhcpLeaseView>, ip: IpAddress) -> (j: int)
    requires
        with_ip(s, ip).len() > 0,
    ensures
        0 <= j < s.len(),
        s[j].ip_address == ip,
{
    let f = with_ip(s, ip);
    assert(f.contains(f[0]));
    s.lemma_filter_contains_rev(|l: DhcpLeaseView| l.ip_address == ip, f[0]);
    assert(f[0].ip_address == ip);
    let j = choose|j: int| 0 <= j < s.len() && s[j] == f[0];
    j
}

/// Stable sorting gives one result: two lists that are both stable sorts of
/// the same list are equal.
pub proof fn law_stable_sort_is_unique(
    r1: Seq<DhcpLeaseView>,
    r2: Seq<DhcpLeaseView>,
    s: Seq<DhcpLeaseView>,
)
    requires
        stable_sort_of(r1, s),
        stable_sort_of(r2, s),
    ensures
        r1 == r2,
{
    assert forall|ip: IpAddress| #[trigger] with_ip(r1, ip) == with_ip(r2, ip) by {
        assert(with_ip(r1, ip) == with_ip(s, ip));
        assert(with_ip(r2, ip) == with_ip(s, ip));
    }
    law_sorted_lists_agreeing_per_address_are_equal(r1, r2);
}

/// Every lease list read from a lease file holds the router's own lease.
pub proof fn law_router_lease_listed(r: Seq<DhcpLeaseView>, leases: Seq<DhcpLeaseView>)
    requires
        stable_sort_of(r, seq![router_lease()] + leases),
    ensures
        r.contains(router_lease()),
{
    let s = seq![router_lease()] + leases;
    let ip = router_lease().ip_address;
    assert(s[0] == router_lease());
    lemma_with_ip_nonempty(s, 0);
    assert(with_ip(r, ip) == with_ip(s, ip));
    let k = choose|k: int| 0 <= k < with_ip(s, ip).len() && with_ip(s, ip)[k] == router_lease();
    assert(with_ip(r, ip)[k] == router_lease());
    assert(with_ip(r, ip).contains(router_lease()));
    r.lemma_filter_contains_rev(|l: DhcpLeaseView| l.ip_address == ip, router_lease());
}

/// The leases of one address hold as many copies of a lease of that address
/// as the whole list does.
proof fn lemma_with_ip_count(s: Seq<DhcpLeaseView>, x: DhcpLeaseView)
    ensures
        with_ip(s, x.ip_address).to_multiset().count(x) == s.to_multiset().count(x),
    decreases s.len(),
{
    broadcast use vstd::seq_lib::to_multiset_build, vstd::multiset::group_multiset_axioms;

    let ip = x.ip_address;
    let f = |l: DhcpLeaseView| l.ip_address == ip;
    if s.len() == 0 {
        assert(with_ip(s, ip) =~= s) by {
            reveal(Seq::filter);
        }
    } else {
        let d = s.drop_last();
        lemma_with_ip_count(d, x);
        assert(s =~= d.push(s.last()));
        d.lemma_filter_push(s.last(), f);
    }
}

/// Sorting loses no lease and adds none: a stable sort of a list holds the
/// same leases, each as often, as the list.
pub proof fn law_stable_sort_keeps_every_lease(r: Seq<DhcpLeaseView>, s: Seq<DhcpLeaseView>)
    requires
        stable_sort_of(r, s),
    ensures
        r.to_multiset() == s.to_multiset(),
{
    assert forall|x: DhcpLeaseView| r.to_multiset().count(x) == s.to_multiset().count(x) by {
        lemma_with_ip_count(r, x);
        lemma_with_ip_count(s, x);
        assert(with_ip(r, x.ip_address) == with_ip(s, x.ip_address));
    }
    assert(r.to_multiset() =~= s.to_multiset());
}

/// A lease list read from a lease file lists its leases by address, as
/// `IpAddr` orders them: for any two positions, the earlier lease's address
/// is not above the later one's (IPv4 addresses by number, then IPv6
/// addresses by number).
pub proof fn law_leases_listed_by_address(r: Seq<DhcpLeaseView>, s: Seq<DhcpLeaseView>, i: int, j: int)
    requires
        stable_sort_of(r, s),
        0 <= i < j < r.len(),
    ensures
        ip_rank(r[i].ip_address) <= ip_rank(r[j].ip_address),
        r[j].ip_address matches IpAddress::V4(_) ==> r[i].ip_address matches IpAddress::V4(_),
{
    assert(ip_le(r[i].ip_address, r[j].ip_address));
    crate::ip::law_ip_order_is_numeric(r[i].ip_address, r[j].ip_address);
}

} // verus!
