//! IP addresses: reading them as `IpAddr::from_str` does, writing IPv4
//! addresses as `Display` does, and their order.

use vstd::prelude::*;
use crate::text::{lemma_split_concat, lemma_split_no_sep, lemma_split_nonempty, slice_chars, split_chars, split_spec, string_of};
use crate::num::{all_digits, hex_digit_lower, decimal, digits_value, is_digit, lemma_decimal_shape, lemma_decimal_value, push_decimal};

verus! {

/// An IPv4 or IPv6 address, held as its 32- or 128-bit number (the octets
/// or 16-bit groups read most significant first).
#[derive(Clone, Copy, Debug, PartialEq, Eq, Structural)]
pub enum IpAddress {
    V4(u32),
    V6(u128),
}

/// The order of `IpAddr`: every IPv4 address comes before every IPv6
/// address; within a family addresses are ordered by their number (which is
/// the lexicographic order of their octets or groups).
pub open spec fn ip_le(a: IpAddress, b: IpAddress) -> bool {
    match (a, b) {
        (IpAddress::V4(x), IpAddress::V4(y)) => x <= y,
        (IpAddress::V4(_), IpAddress::V6(_)) => true,
        (IpAddress::V6(_), IpAddress::V4(_)) => false,
        (IpAddress::V6(x), IpAddress::V6(y)) => x <= y,
    }
}

/// Decides `ip_le`.
pub fn ip_less_eq(a: IpAddress, b: IpAddress) -> (r: bool)
    ensures
        r == ip_le(a, b),
        r == (ip_rank(a) <= ip_rank(b)),
{
    match (a, b) {
        (IpAddress::V4(x), IpAddress::V4(y)) => x <= y,
        (IpAddress::V4(_), IpAddress::V6(_)) => true,
        (IpAddress::V6(_), IpAddress::V4(_)) => false,
        (IpAddress::V6(x), IpAddress::V6(y)) => x <= y,
    }
}

/// The place of an address in the order of `IpAddr`: an IPv4 address by
/// its number, an IPv6 address by its number after all 2^32 IPv4 addresses.
pub open spec fn ip_rank(a: IpAddress) -> int {
    match a {
        IpAddress::V4(x) => x as int,
        IpAddress::V6(x) => 0x1_0000_0000 + x as int,
    }
}

/// Addresses are ordered as `IpAddr` orders them: by their numbers within a
/// family, every IPv4 address before every IPv6 address.  So `fd00::5`
/// comes before `fd00::9`, and `10.0.0.2` before `10.0.0.10`.
pub proof fn law_ip_order_is_numeric(a: IpAddress, b: IpAddress)
    ensures
        ip_le(a, b) <==> ip_rank(a) <= ip_rank(b),
        ip_le(IpAddress::V6(0xfd00_0000_0000_0000_0000_0000_0000_0005), IpAddress::V6(0xfd00_0000_0000_0000_0000_0000_0000_0009)),
        !ip_le(IpAddress::V6(0xfd00_0000_0000_0000_0000_0000_0000_0009), IpAddress::V6(0xfd00_0000_0000_0000_0000_0000_0000_0005)),
{
}

/// `ip_le` is a total order.
pub proof fn lemma_ip_le_total_order(a: IpAddress, b: IpAddress, c: IpAddress)
    ensures
        ip_le(a, a),
        ip_le(a, b) || ip_le(b, a),
        ip_le(a, b) && ip_le(b, a) ==> a == b,
        ip_le(a, b) && ip_le(b, c) ==> ip_le(a, c),
{
}

// ---------------------------------------------------------------------------
// IPv4

/// One decimal octet of a dotted-quad address, as the standard library
/// reads it: one to three digits, no leading zero unless the octet is `0`
/// itself, and a value of at most 255.
pub open spec fn octet_spec(g: Seq<char>) -> Option<u8> {
    if 1 <= g.len() <= 3 && all_digits(g) && !(g.len() > 1 && g[0] == '0') && digits_value(g)
        <= 255 {
        Some(digits_value(g) as u8)
    } else {
        None
    }
}

/// The number of four octets, most significant first.
pub open spec fn octets_value(a: u8, b: u8, c: u8, d: u8) -> u32 {
    (a as int * 0x100_0000 + b as int * 0x1_0000 + c as int * 0x100 + d as int) as u32
}

/// `Ipv4Addr::from_str`: exactly four octets separated by `'.'`.
pub open spec fn parse_ipv4_spec(s: Seq<char>) -> Option<u32> {
    let p = split_spec(s, '.');
    if p.len() == 4 && octet_spec(p[0]) is Some && octet_spec(p[1]) is Some && octet_spec(p[2])
        is Some && octet_spec(p[3]) is Some {
        Some(
            octets_value(
                octet_spec(p[0])->0,
                octet_spec(p[1])->0,
                octet_spec(p[2])->0,
                octet_spec(p[3])->0,
            ),
        )
    } else {
        None
    }
}

/// Reads one octet.
fn parse_octet(g: &Vec<char>) -> (r: Option<u8>)
    ensures
        r == octet_spec(g@),
{
    let n = g.len();
    if n < 1 || n > 3 {
        return None;
    }
    if n > 1 && g[0] == '0' {
        return None;
    }
    let mut v: u64 = 0;
    let mut i: usize = 0;
    while i < n
        invariant
            n == g@.len(),
            1 <= n <= 3,
            i <= n,
            all_digits(g@.take(i as int)),
            v == digits_value(g@.take(i as int)),
            v < 1000,
            i <= 2 ==> v < 100,
            i <= 1 ==> v < 10,
            i == 0 ==> v == 0,
        decreases n - i,
    {
        let c = g[i];
        assert(g@.take(i + 1).drop_last() =~= g@.take(i as int));
        if !('0' <= c && c <= '9') {
            assert(!is_digit(g@[i as int]));
            return None;
        }
        v = v * 10 + (c as u32 - '0' as u32) as u64;
        i += 1;
        assert(all_digits(g@.take(i as int)));
    }
    assert(g@.take(n as int) =~= g@);
    if v > 255 {
        return None;
    }
    Some(v as u8)
}

/// Reads an IPv4 address in dotted-quad form.
pub fn parse_ipv4(cs: &Vec<char>) -> (r: Option<u32>)
    ensures
        r == parse_ipv4_spec(cs@),
{
    let p = split_chars(cs, '.');
    if p.len() != 4 {
        return None;
    }
    let a = parse_octet(&p[0]);
    let b = parse_octet(&p[1]);
    let c = parse_octet(&p[2]);
    let d = parse_octet(&p[3]);
    match (a, b, c, d) {
        (Some(a), Some(b), Some(c), Some(d)) => {
            Some(a as u32 * 0x100_0000 + b as u32 * 0x1_0000 + c as u32 * 0x100 + d as u32)
        },
        _ => None,
    }
}


// ---------------------------------------------------------------------------
// IPv6

/// The value of a hexadecimal digit (either case), if `c` is one.
pub open spec fn hex_value(c: char) -> Option<int> {
    if '0' <= c && c <= '9' {
        Some(c as int - '0' as int)
    } else if 'a' <= c && c <= 'f' {
        Some(c as int - 'a' as int + 10)
    } else if 'A' <= c && c <= 'F' {
        Some(c as int - 'A' as int + 10)
    } else {
        None
    }
}

/// Every character of `s` is a hexadecimal digit.
pub open spec fn all_hex(s: Seq<char>) -> bool {
    forall|i: int| 0 <= i < s.len() ==> hex_value(#[trigger] s[i]) is Some
}

/// The value of a string of hexadecimal digits, most significant first.
pub open spec fn hex_digits_value(s: Seq<char>) -> int
    decreases s.len(),
{
    if s.len() == 0 {
        0
    } else {
        hex_digits_value(s.drop_last()) * 16 + hex_value(s.last())->0
    }
}

/// One 16-bit group of an IPv6 address: one to four hexadecimal digits.
pub open spec fn hex_group_spec(g: Seq<char>) -> Option<u16> {
    if 1 <= g.len() <= 4 && all_hex(g) {
        Some(hex_digits_value(g) as u16)
    } else {
        None
    }
}

/// The two 16-bit groups that an embedded IPv4 address stands for.
pub open spec fn ipv4_groups(v: u32) -> Seq<u16> {
    seq![(v / 0x1_0000) as u16, (v % 0x1_0000) as u16]
}

/// A `':'`-separated list of groups, empty for the empty text.  When
/// `allow_v4`, the last piece may instead be an embedded IPv4 address,
/// which stands for two groups.
pub open spec fn group_list_spec(s: Seq<char>, allow_v4: bool) -> Option<Seq<u16>> {
    if s.len() == 0 {
        Some(Seq::<u16>::empty())
    } else {
        let p = split_spec(s, ':');
        let n = p.len();
        let head = Seq::new((n - 1) as nat, |i: int| hex_group_spec(p[i])->0);
        if forall|i: int| 0 <= i < n - 1 ==> #[trigger] hex_group_spec(p[i]) is Some {
            if hex_group_spec(p[n - 1]) is Some {
                Some(head.push(hex_group_spec(p[n - 1])->0))
            } else if allow_v4 && parse_ipv4_spec(p[n - 1]) is Some {
                Some(head + ipv4_groups(parse_ipv4_spec(p[n - 1])->0))
            } else {
                None
            }
        } else {
            None
        }
    }
}

/// The index of the first `"::"` in `s` at or after `i`, or `s.len()`.
pub open spec fn first_double_colon(s: Seq<char>, i: int) -> int
    decreases s.len() - i,
{
    if i < 0 || i + 1 >= s.len() {
        s.len() as int
    } else if s[i] == ':' && s[i + 1] == ':' {
        i
    } else {
        first_double_colon(s, i + 1)
    }
}

/// The number of a list of 16-bit groups, most significant first.
pub open spec fn groups_value(g: Seq<u16>) -> int
    decreases g.len(),
{
    if g.len() == 0 {
        0
    } else {
        groups_value(g.drop_last()) * 0x1_0000 + g.last() as int
    }
}

/// `Ipv6Addr::from_str`.  Without `"::"` the text is a list of exactly
/// eight groups (an embedded IPv4 address counts for two and may only come
/// last).  With `"::"` (the first one) the groups before it and the groups
/// after it (only these may end in an embedded IPv4 address) are at most
/// seven together, and `"::"` stands for as many zero groups as make eight.
pub open spec fn parse_ipv6_spec(s: Seq<char>) -> Option<u128> {
    let k = first_double_colon(s, 0);
    if k < s.len() {
        let h = group_list_spec(s.take(k), false);
        let t = group_list_spec(s.skip(k + 2), true);
        if h is Some && t is Some && h->0.len() + t->0.len() <= 7 {
            let zeros = Seq::new((8 - h->0.len() - t->0.len()) as nat, |i: int| 0u16);
            Some(groups_value(h->0 + zeros + t->0) as u128)
        } else {
            None
        }
    } else {
        let g = group_list_spec(s, true);
        if g is Some && g->0.len() == 8 {
            Some(groups_value(g->0) as u128)
        } else {
            None
        }
    }
}

/// `IpAddr::from_str`: an IPv4 address if the text is one, else an IPv6
/// address if the text is one.
pub open spec fn parse_ip_spec(s: Seq<char>) -> Option<IpAddress> {
    if parse_ipv4_spec(s) is Some {
        Some(IpAddress::V4(parse_ipv4_spec(s)->0))
    } else if parse_ipv6_spec(s) is Some {
        Some(IpAddress::V6(parse_ipv6_spec(s)->0))
    } else {
        None
    }
}

/// Reads one 16-bit group.
fn parse_hex_group(g: &Vec<char>) -> (r: Option<u16>)
    ensures
        r == hex_group_spec(g@),
{
    let n = g.len();
    if n < 1 || n > 4 {
        return None;
    }
    let mut v: u32 = 0;
    let mut i: usize = 0;
    while i < n
        invariant
            n == g@.len(),
            1 <= n <= 4,
            i <= n,
            all_hex(g@.take(i as int)),
            v == hex_digits_value(g@.take(i as int)),
            i == 0 ==> v == 0,
            i == 1 ==> v < 0x10,
            i == 2 ==> v < 0x100,
            i == 3 ==> v < 0x1000,
            v < 0x1_0000,
        decreases n - i,
    {
        let c = g[i];
        assert(g@.take(i + 1).drop_last() =~= g@.take(i as int));
        let d: u32 = if '0' <= c && c <= '9' {
            c as u32 - '0' as u32
        } else if 'a' <= c && c <= 'f' {
            c as u32 - 'a' as u32 + 10
        } else if 'A' <= c && c <= 'F' {
            c as u32 - 'A' as u32 + 10
        } else {
            assert(hex_value(g@[i as int]) is None);
            return None;
        };
        assert(hex_value(c) == Some(d as int));
        v = v * 16 + d;
        i += 1;
        assert(all_hex(g@.take(i as int)));
    }
    assert(g@.take(n as int) =~= g@);
    Some(v as u16)
}

/// Reads a list of groups (see `group_list_spec`).
fn parse_group_list(cs: &Vec<char>, allow_v4: bool) -> (r: Option<Vec<u16>>)
    ensures
        match r {
            Some(g) => group_list_spec(cs@, allow_v4) == Some(g@),
            None => group_list_spec(cs@, allow_v4) is None,
        },
{
    if cs.len() == 0 {
        let e: Vec<u16> = Vec::new();
        assert(e@ =~= Seq::<u16>::empty());
        return Some(e);
    }
    let p = split_chars(cs, ':');
    proof {
        lemma_split_nonempty(cs@, ':');
    }
    let ghost sp = split_spec(cs@, ':');
    let n = p.len();
    let ghost head = Seq::new((n - 1) as nat, |i: int| hex_group_spec(sp[i])->0);
    let mut out: Vec<u16> = Vec::new();
    let mut i: usize = 0;
    while i + 1 < n
        invariant
            cs@.len() > 0,
            sp == split_spec(cs@, ':'),
            n == p@.len(),
            n == sp.len(),
            n >= 1,
            i + 1 <= n,
            forall|k: int| 0 <= k < n ==> #[trigger] p@[k]@ == sp[k],
            head == Seq::new((n - 1) as nat, |i: int| hex_group_spec(sp[i])->0),
            forall|k: int| 0 <= k < i ==> #[trigger] hex_group_spec(sp[k]) is Some,
            out@ == head.take(i as int),
        decreases n - i,
    {
        match parse_hex_group(&p[i]) {
            Some(g) => {
                out.push(g);
                i += 1;
                assert(out@ =~= head.take(i as int));
            },
            None => {
                assert(hex_group_spec(sp[i as int]) is None);
                assert(!(forall|k: int| 0 <= k < n - 1 ==> #[trigger] hex_group_spec(sp[k]) is Some));
                return None;
            },
        }
    }
    assert(out@ =~= head);
    assert(forall|k: int| 0 <= k < n - 1 ==> #[trigger] hex_group_spec(sp[k]) is Some);
    assert(p@[n - 1]@ == sp[n - 1]);
    match parse_hex_group(&p[n - 1]) {
        Some(g) => {
            out.push(g);
            Some(out)
        },
        None => {
            if allow_v4 {
                match parse_ipv4(&p[n - 1]) {
                    Some(v) => {
                        out.push((v / 0x1_0000) as u16);
                        out.push((v % 0x1_0000) as u16);
                        assert(out@ =~= head + ipv4_groups(v));
                        Some(out)
                    },
                    None => {
                        assert(group_list_spec(cs@, allow_v4) is None);
                        None
                    },
                }
            } else {
                assert(group_list_spec(cs@, allow_v4) is None);
                None
            }
        },
    }
}

/// Bound on the number of a list of groups.
proof fn lemma_groups_value_bound(g: Seq<u16>)
    ensures
        0 <= groups_value(g),
        g.len() <= 8 ==> groups_value(g) < pow_65536(g.len()),
    decreases g.len(),
{
    if g.len() > 0 {
        lemma_groups_value_bound(g.drop_last());
        let v = groups_value(g.drop_last());
        let b = pow_65536((g.len() - 1) as nat);
        if g.len() <= 8 {
            assert(v * 0x1_0000 + (g.last() as int) < b * 0x1_0000) by (nonlinear_arith)
                requires
                    v < b,
                    0 <= g.last() < 0x1_0000,
            ;
        }
        assert(v * 0x1_0000 >= 0) by (nonlinear_arith)
            requires
                v >= 0,
        ;
    }
}

/// `65536` to the power `n`.
pub open spec fn pow_65536(n: nat) -> int
    decreases n,
{
    if n == 0 {
        1
    } else {
        pow_65536((n - 1) as nat) * 0x1_0000
    }
}

/// The number of eight groups.
fn groups_to_u128(g: &Vec<u16>) -> (r: u128)
    requires
        g@.len() == 8,
    ensures
        r == groups_value(g@),
{
    let mut v: u128 = 0;
    let mut i: usize = 0;
    while i < 8
        invariant
            g@.len() == 8,
            i <= 8,
            v == groups_value(g@.take(i as int)),
        decreases 8 - i,
    {
        assert(g@.take(i + 1).drop_last() =~= g@.take(i as int));
        proof {
            lemma_groups_value_bound(g@.take(i + 1));
            reveal_with_fuel(pow_65536, 9);
            assert(pow_65536(8) == 0x1_0000_0000_0000_0000_0000_0000_0000_0000);
            lemma_pow_65536_mono((i + 1) as nat, 8);
        }
        v = v * 0x1_0000 + g[i] as u128;
        i += 1;
    }
    assert(g@.take(8) =~= g@);
    v
}

/// `pow_65536` grows with its exponent.
proof fn lemma_pow_65536_mono(a: nat, b: nat)
    requires
        a <= b,
    ensures
        1 <= pow_65536(a) <= pow_65536(b),
    decreases b,
{
    if b > a {
        lemma_pow_65536_mono(a, (b - 1) as nat);
    } else if a > 0 {
        lemma_pow_65536_mono((a - 1) as nat, (a - 1) as nat);
    }
}

/// Finds the first `"::"`.
fn find_double_colon(cs: &Vec<char>) -> (r: usize)
    ensures
        r == first_double_colon(cs@, 0),
        r < cs.len() ==> r + 1 < cs.len(),
{
    if cs.len() < 2 {
        return cs.len();
    }
    let mut i: usize = 0;
    while i < cs.len() - 1
        invariant
            cs.len() >= 2,
            i <= cs.len() - 1,
            first_double_colon(cs@, i as int) == first_double_colon(cs@, 0),
        decreases cs.len() - i,
    {
        if cs[i] == ':' && cs[i + 1] == ':' {
            return i;
        }
        i += 1;
    }
    cs.len()
}

/// Reads an IPv6 address.
pub fn parse_ipv6(cs: &Vec<char>) -> (r: Option<u128>)
    ensures
        r == parse_ipv6_spec(cs@),
{
    let k = find_double_colon(cs);
    if k < cs.len() {
        let h = slice_chars(cs, 0, k);
        let t = slice_chars(cs, k + 2, cs.len());
        assert(h@ =~= cs@.take(k as int));
        assert(t@ =~= cs@.skip(k + 2));
        let gh = match parse_group_list(&h, false) {
            Some(g) => g,
            None => return None,
        };
        let gt = match parse_group_list(&t, true) {
            Some(g) => g,
            None => return None,
        };
        if gh.len() > 7 || gt.len() > 7 || gh.len() + gt.len() > 7 {
            return None;
        }
        let mut all: Vec<u16> = Vec::new();
        let mut i: usize = 0;
        while i < gh.len()
            invariant
                i <= gh@.len(),
                all@ == gh@.take(i as int),
            decreases gh.len() - i,
        {
            all.push(gh[i]);
            i += 1;
            assert(all@ =~= gh@.take(i as int));
        }
        let nz: usize = 8 - gh.len() - gt.len();
        let ghost zeros = Seq::new(nz as nat, |i: int| 0u16);
        let mut j: usize = 0;
        while j < nz
            invariant
                j <= nz,
                gh@.len() + gt@.len() + nz == 8,
                zeros == Seq::new(nz as nat, |i: int| 0u16),
                all@ == gh@ + zeros.take(j as int),
            decreases nz - j,
        {
            all.push(0);
            j += 1;
            assert(all@ =~= gh@ + zeros.take(j as int));
        }
        let mut m: usize = 0;
        while m < gt.len()
            invariant
                m <= gt@.len(),
                gh@.len() + gt@.len() + nz == 8,
                zeros == Seq::new(nz as nat, |i: int| 0u16),
                all@ == gh@ + zeros + gt@.take(m as int),
            decreases gt.len() - m,
        {
            all.push(gt[m]);
            m += 1;
            assert(all@ =~= gh@ + zeros + gt@.take(m as int));
        }
        assert(all@ =~= gh@ + zeros + gt@);
        Some(groups_to_u128(&all))
    } else {
        match parse_group_list(cs, true) {
            Some(g) => {
                if g.len() == 8 {
                    Some(groups_to_u128(&g))
                } else {
                    None
                }
            },
            None => None,
        }
    }
}

/// Reads an IP address as `IpAddr::from_str` does.
pub fn parse_ip(cs: &Vec<char>) -> (r: Option<IpAddress>)
    ensures
        r == parse_ip_spec(cs@),
{
    match parse_ipv4(cs) {
        Some(v) => Some(IpAddress::V4(v)),
        None => match parse_ipv6(cs) {
            Some(v) => Some(IpAddress::V6(v)),
            None => None,
        },
    }
}


// ---------------------------------------------------------------------------
// Writing IPv4 addresses

/// The dotted-quad text of an IPv4 address (`Display` of `Ipv4Addr`).
pub open spec fn ipv4_text(v: u32) -> Seq<char> {
    decimal((v / 0x100_0000) as nat) + seq!['.'] + decimal((v / 0x1_0000 % 0x100) as nat)
        + seq!['.'] + decimal((v / 0x100 % 0x100) as nat) + seq!['.'] + decimal(
        (v % 0x100) as nat,
    )
}

/// Writes an IPv4 address in dotted-quad form.
pub fn ipv4_to_string(v: u32) -> (r: String)
    ensures
        r@ == ipv4_text(v),
{
    let mut out: Vec<char> = Vec::new();
    push_decimal(&mut out, (v / 0x100_0000) as u64);
    out.push('.');
    push_decimal(&mut out, (v / 0x1_0000 % 0x100) as u64);
    out.push('.');
    push_decimal(&mut out, (v / 0x100 % 0x100) as u64);
    out.push('.');
    push_decimal(&mut out, (v % 0x100) as u64);
    let r = string_of(&out);
    assert(r@ =~= ipv4_text(v));
    r
}


/// A written octet reads back as itself.
proof fn lemma_octet_decimal(n: u8)
    ensures
        octet_spec(decimal(n as nat)) == Some(n),
        !decimal(n as nat).contains('.'),
{
    lemma_decimal_value(n as nat);
    lemma_decimal_shape(n as nat);
    let s = decimal(n as nat);
    if s.contains('.') {
        let k = choose|k: int| 0 <= k < s.len() && s[k] == '.';
        assert(is_digit(s[k]));
    }
    if s.len() > 1 {
        assert(n >= 10);
    }
}

/// The four octets of an address make the address.
proof fn lemma_octets_of(v: u32)
    ensures
        octets_value(
            (v / 0x100_0000) as u8,
            (v / 0x1_0000 % 0x100) as u8,
            (v / 0x100 % 0x100) as u8,
            (v % 0x100) as u8,
        ) == v,
{
    let x = v as int;
    assert(x == (x / 0x100_0000) * 0x100_0000 + (x / 0x1_0000 % 0x100) * 0x1_0000 + (x / 0x100
        % 0x100) * 0x100 + x % 0x100) by (nonlinear_arith)
        requires
            0 <= x < 0x1_0000_0000,
    ;
}

/// Four pieces joined by dots split back into the four pieces.
proof fn lemma_split_four(da: Seq<char>, db: Seq<char>, dc: Seq<char>, dd: Seq<char>)
    requires
        !da.contains('.'),
        !db.contains('.'),
        !dc.contains('.'),
        !dd.contains('.'),
    ensures
        split_spec(da + seq!['.'] + db + seq!['.'] + dc + seq!['.'] + dd, '.') == seq![
            da,
            db,
            dc,
            dd,
        ],
{
    let t2 = da + seq!['.'] + db;
    let t3 = t2 + seq!['.'] + dc;
    lemma_split_no_sep(da, '.');
    lemma_split_no_sep(db, '.');
    lemma_split_no_sep(dc, '.');
    lemma_split_no_sep(dd, '.');
    lemma_split_concat(da, db, '.');
    assert(split_spec(t2, '.') =~= seq![da, db]);
    lemma_split_concat(t2, dc, '.');
    assert(split_spec(t3, '.') =~= seq![da, db, dc]);
    lemma_split_concat(t3, dd, '.');
    assert(split_spec(t3 + seq!['.'] + dd, '.') =~= seq![da, db, dc, dd]);
}

/// Reading back the text of an IPv4 address gives the address.
pub proof fn law_ipv4_text_round_trip(v: u32)
    ensures
        parse_ipv4_spec(ipv4_text(v)) == Some(v),
{
    let a = (v / 0x100_0000) as u8;
    let b = (v / 0x1_0000 % 0x100) as u8;
    let c = (v / 0x100 % 0x100) as u8;
    let d = (v % 0x100) as u8;
    lemma_octet_decimal(a);
    lemma_octet_decimal(b);
    lemma_octet_decimal(c);
    lemma_octet_decimal(d);
    lemma_split_four(decimal(a as nat), decimal(b as nat), decimal(c as nat), decimal(d as nat));
    lemma_octets_of(v);
}


// ---------------------------------------------------------------------------
// Writing IPv6 addresses

/// The eight 16-bit groups of an IPv6 address, most significant first.
pub open spec fn ipv6_groups(v: u128) -> Seq<u16> {
    Seq::new(8, |i: int| ((v as int / pow_65536((7 - i) as nat)) % 0x1_0000) as u16)
}

/// The lower-case hexadecimal text of `n` without leading zeros.
pub open spec fn hex_text(n: nat) -> Seq<char>
    decreases n,
{
    if n < 16 {
        seq![hex_digit_lower(n as int)]
    } else {
        hex_text(n / 16).push(hex_digit_lower((n % 16) as int))
    }
}

/// Groups in hexadecimal, separated by `:`.
pub open spec fn groups_text(g: Seq<u16>) -> Seq<char>
    decreases g.len(),
{
    if g.len() == 0 {
        Seq::empty()
    } else if g.len() == 1 {
        hex_text(g[0] as nat)
    } else {
        groups_text(g.drop_last()) + seq![':'] + hex_text(g.last() as nat)
    }
}

/// The groups `g[s..s + l]` are all zero.
pub open spec fn zero_run(g: Seq<u16>, s: int, l: int) -> bool {
    0 <= s && 0 <= l && s + l <= g.len() && forall|i: int| s <= i < s + l ==> #[trigger] g[i] == 0
}

/// `(s, l)` is the first of the longest runs of zero groups (`(0, 0)` when
/// there is no zero group).
pub open spec fn first_longest_zero_run(g: Seq<u16>, s: int, l: int) -> bool {
    &&& zero_run(g, s, l)
    &&& forall|s2: int, l2: int| zero_run(g, s2, l2) ==> l2 <= l
    &&& forall|s2: int| 0 <= s2 < s ==> !zero_run(g, s2, l)
}

/// The text of an IPv6 address as `Display` of `Ipv6Addr` writes it: an
/// IPv4-mapped address as `::ffff:` and the IPv4 text; otherwise the groups
/// in lower-case hexadecimal separated by `:`, with the first longest run of
/// two or more zero groups written as `::`.
pub open spec fn ipv6_text(v: u128) -> Seq<char> {
    let g = ipv6_groups(v);
    if g.take(5) == seq![0u16, 0, 0, 0, 0] && g[5] == 0xffff {
        "::ffff:"@ + ipv4_text((v % 0x1_0000_0000) as u32)
    } else {
        let (s, l) = choose|s: int, l: int| first_longest_zero_run(g, s, l);
        if l > 1 {
            groups_text(g.take(s)) + seq![':', ':'] + groups_text(g.skip(s + l))
        } else {
            groups_text(g)
        }
    }
}

/// The text of an IP address.
pub open spec fn ip_text(a: IpAddress) -> Seq<char> {
    match a {
        IpAddress::V4(v) => ipv4_text(v),
        IpAddress::V6(v) => ipv6_text(v),
    }
}

/// Appends the hexadecimal text of `n`.
fn push_hex(out: &mut Vec<char>, n: u16)
    ensures
        final(out)@ == old(out)@ + hex_text(n as nat),
    decreases n,
{
    if n >= 16 {
        push_hex(out, n / 16);
    }
    out.push(crate::num::hex_char_lower((n % 16) as u8));
    proof {
        if n >= 16 {
            assert(old(out)@ + hex_text(n as nat) =~= old(out)@ + hex_text((n / 16) as nat)
                + seq![hex_digit_lower((n % 16) as int)]);
        } else {
            assert(old(out)@ + hex_text(n as nat) =~= old(out)@ + seq![hex_digit_lower(n as int)]);
        }
    }
}

/// Appends `g[from..to]` in hexadecimal, separated by `:`.
fn push_groups(out: &mut Vec<char>, g: &Vec<u16>, from: usize, to: usize)
    requires
        from <= to <= g.len(),
    ensures
        final(out)@ == old(out)@ + groups_text(g@.subrange(from as int, to as int)),
{
    let mut i: usize = from;
    assert(g@.subrange(from as int, from as int) =~= Seq::<u16>::empty());
    while i < to
        invariant
            from <= i <= to <= g@.len(),
            out@ == old(out)@ + groups_text(g@.subrange(from as int, i as int)),
        decreases to - i,
    {
        let ghost before = out@;
        let ghost sub = g@.subrange(from as int, i + 1);
        assert(sub.drop_last() =~= g@.subrange(from as int, i as int));
        if i > from {
            out.push(':');
        }
        push_hex(out, g[i]);
        proof {
            if i == from {
                assert(sub.len() == 1);
                assert(groups_text(sub) == hex_text(sub[0] as nat));
            }
        }
        i += 1;
        assert(out@ =~= old(out)@ + groups_text(g@.subrange(from as int, i as int)));
    }
}

/// The eight groups of an IPv6 address.
fn groups_of(v: u128) -> (r: Vec<u16>)
    ensures
        r@ == ipv6_groups(v),
{
    let mut r: Vec<u16> = Vec::new();
    let mut i: usize = 0;
    while i < 8
        invariant
            i <= 8,
            r@ == ipv6_groups(v).take(i as int),
        decreases 8 - i,
    {
        let shift: u32 = (16 * (7 - i)) as u32;
        let g = ((v >> shift) & 0xffff) as u16;
        proof {
            lemma_shift_is_div(v, (7 - i) as nat);
            reveal_with_fuel(pow_65536, 9);
            assert(g == ((v as int / pow_65536((7 - i) as nat)) % 0x1_0000) as u16);
        }
        r.push(g);
        i += 1;
        assert(r@ =~= ipv6_groups(v).take(i as int));
    }
    assert(r@ =~= ipv6_groups(v));
    r
}

/// Shifting right by 16 bits `k` times and masking takes group `7 - k`.
proof fn lemma_shift_is_div(v: u128, k: nat)
    requires
        k <= 7,
    ensures
        ((v >> (16 * k) as u32) & 0xffff) as int == (v as int / pow_65536(k)) % 0x1_0000,
{
    reveal_with_fuel(pow_65536, 9);
    if k == 0 {
        assert((v >> 0u32) & 0xffff == v % 0x1_0000) by (bit_vector);
    } else if k == 1 {
        assert((v >> 16u32) & 0xffff == (v / 0x1_0000) % 0x1_0000) by (bit_vector);
    } else if k == 2 {
        assert((v >> 32u32) & 0xffff == (v / 0x1_0000_0000) % 0x1_0000) by (bit_vector);
    } else if k == 3 {
        assert((v >> 48u32) & 0xffff == (v / 0x1_0000_0000_0000) % 0x1_0000) by (bit_vector);
    } else if k == 4 {
        assert((v >> 64u32) & 0xffff == (v / 0x1_0000_0000_0000_0000) % 0x1_0000) by (bit_vector);
    } else if k == 5 {
        assert((v >> 80u32) & 0xffff == (v / 0x1_0000_0000_0000_0000_0000) % 0x1_0000)
            by (bit_vector);
    } else if k == 6 {
        assert((v >> 96u32) & 0xffff == (v / 0x1_0000_0000_0000_0000_0000_0000) % 0x1_0000)
            by (bit_vector);
    } else {
        assert((v >> 112u32) & 0xffff == (v / 0x1_0000_0000_0000_0000_0000_0000_0000) % 0x1_0000)
            by (bit_vector);
    }
}


/// Finds the first longest run of zero groups.
fn longest_zero_run(g: &Vec<u16>) -> (r: (usize, usize))
    requires
        g@.len() == 8,
    ensures
        first_longest_zero_run(g@, r.0 as int, r.1 as int),
{
    let mut bs: usize = 0;
    let mut bl: usize = 0;
    let mut cs: usize = 0;
    let mut cl: usize = 0;
    let mut i: usize = 0;
    while i < 8
        invariant
            g@.len() == 8,
            i <= 8,
            cs + cl == i,
            zero_run(g@, cs as int, cl as int),
            forall|s2: int, l2: int| #![trigger zero_run(g@, s2, l2)]
                zero_run(g@, s2, l2) && s2 + l2 == i ==> l2 <= cl,
            zero_run(g@, bs as int, bl as int),
            bs + bl <= i,
            forall|s2: int, l2: int| #![trigger zero_run(g@, s2, l2)]
                zero_run(g@, s2, l2) && s2 + l2 <= i ==> l2 <= bl,
            forall|s2: int| 0 <= s2 < bs ==> !zero_run(g@, s2, bl as int),
        decreases 8 - i,
    {
        if g[i] == 0 {
            if cl == 0 {
                cs = i;
            }
            cl += 1;
            assert forall|s2: int, l2: int| #![trigger zero_run(g@, s2, l2)]
                zero_run(g@, s2, l2) && s2 + l2 == i + 1 implies l2 <= cl by {
                if l2 > 0 {
                    assert(zero_run(g@, s2, l2 - 1));
                }
            }
            if cl > bl {
                assert forall|s2: int| 0 <= s2 < cs implies !zero_run(g@, s2, cl as int) by {
                    if zero_run(g@, s2, cl as int) {
                        assert(s2 + cl <= i);
                    }
                }
                bs = cs;
                bl = cl;
            }
        } else {
            assert forall|s2: int, l2: int| #![trigger zero_run(g@, s2, l2)]
                zero_run(g@, s2, l2) && s2 + l2 == i + 1 implies l2 <= 0 by {
                if l2 > 0 {
                    assert(g@[i as int] == 0);
                }
            }
            cs = i + 1;
            cl = 0;
        }
        i += 1;
        assert forall|s2: int, l2: int| #![trigger zero_run(g@, s2, l2)]
            zero_run(g@, s2, l2) && s2 + l2 <= i implies l2 <= bl by {
            if s2 + l2 == i {
                assert(l2 <= cl);
            }
        }
    }
    (bs, bl)
}

/// There is only one first longest run of zero groups.
proof fn lemma_first_longest_unique(g: Seq<u16>, s: int, l: int, s2: int, l2: int)
    requires
        first_longest_zero_run(g, s, l),
        first_longest_zero_run(g, s2, l2),
    ensures
        s == s2 && l == l2,
{
    assert(l <= l2 && l2 <= l);
    if s < s2 {
        assert(!zero_run(g, s, l2));
    }
    if s2 < s {
        assert(!zero_run(g, s2, l));
    }
}

/// Writes an IPv6 address as `Display` of `Ipv6Addr` does.
pub fn ipv6_to_string(v: u128) -> (r: String)
    ensures
        r@ == ipv6_text(v),
{
    let g = groups_of(v);
    if g[0] == 0 && g[1] == 0 && g[2] == 0 && g[3] == 0 && g[4] == 0 && g[5] == 0xffff {
        assert(g@.take(5) =~= seq![0u16, 0, 0, 0, 0]);
        let mut out = crate::text::chars_of("::ffff:");
        let t = ipv4_to_string((v % 0x1_0000_0000) as u32);
        crate::text::push_str(&mut out, t.as_str());
        return string_of(&out);
    }
    assert(!(g@.take(5) == seq![0u16, 0, 0, 0, 0] && g@[5] == 0xffff)) by {
        if g@.take(5) == seq![0u16, 0, 0, 0, 0] {
            assert(g@.take(5)[0] == g@[0] && g@.take(5)[1] == g@[1] && g@.take(5)[2] == g@[2]
                && g@.take(5)[3] == g@[3] && g@.take(5)[4] == g@[4]);
        }
    }
    let (s, l) = longest_zero_run(&g);
    proof {
        let (cs, cl) = choose|s: int, l: int| first_longest_zero_run(g@, s, l);
        lemma_first_longest_unique(g@, s as int, l as int, cs, cl);
    }
    let mut out: Vec<char> = Vec::new();
    if l > 1 {
        push_groups(&mut out, &g, 0, s);
        out.push(':');
        out.push(':');
        push_groups(&mut out, &g, s + l, 8);
        assert(g@.subrange(0, s as int) =~= g@.take(s as int));
        assert(g@.subrange(s + l, 8) =~= g@.skip(s + l));
        assert(out@ =~= groups_text(g@.take(s as int)) + seq![':', ':'] + groups_text(
            g@.skip(s + l),
        ));
    } else {
        push_groups(&mut out, &g, 0, 8);
        assert(g@.subrange(0, 8) =~= g@);
        assert(out@ =~= groups_text(g@));
    }
    string_of(&out)
}

/// Writes an IP address as `Display` of `IpAddr` does.
pub fn ip_to_string(a: IpAddress) -> (r: String)
    ensures
        r@ == ip_text(a),
{
    match a {
        IpAddress::V4(v) => ipv4_to_string(v),
        IpAddress::V6(v) => ipv6_to_string(v),
    }
}

} // verus!
