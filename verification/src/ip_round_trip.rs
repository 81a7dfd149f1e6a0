//! Reading back the text of an IPv6 address gives the address.

use vstd::prelude::*;
use crate::num::{all_digits, decimal, hex_digit_lower, is_digit, lemma_decimal_value};
use crate::text::{lemma_split_concat, lemma_split_no_sep, lemma_split_nonempty, split_spec};
use crate::ip::{
    IpAddress, all_hex, first_double_colon, first_longest_zero_run, group_list_spec, groups_text,
    groups_value, hex_digits_value, hex_group_spec, hex_text, hex_value, ip_text, ipv4_groups,
    ipv4_text, ipv6_groups, ipv6_text, law_ipv4_text_round_trip, parse_ip_spec, parse_ipv4_spec,
    octet_spec, parse_ipv6_spec, pow_65536, zero_run,
};

verus! {

/// The eight groups of an address make the address.
proof fn lemma_groups_value_of_groups(v: u128)
    ensures
        groups_value(ipv6_groups(v)) == v,
{
    let g = ipv6_groups(v);
    let x = v as int;
    reveal_with_fuel(pow_65536, 9);
    assert forall|k: int| 0 <= k <= 8 implies #[trigger] groups_value(g.take(k)) == x / pow_65536(
        (8 - k) as nat,
    ) by {
        lemma_groups_value_prefix(v, k);
    }
    assert(g.take(8) =~= g);
    assert(pow_65536(0) == 1);
}

/// The first `k` groups of an address are its number divided by the weight
/// of the remaining groups.
proof fn lemma_groups_value_prefix(v: u128, k: int)
    requires
        0 <= k <= 8,
    ensures
        groups_value(ipv6_groups(v).take(k)) == v as int / pow_65536((8 - k) as nat),
    decreases k,
{
    let g = ipv6_groups(v);
    let x = v as int;
    reveal_with_fuel(pow_65536, 9);
    if k == 0 {
        assert(g.take(0) =~= Seq::<u16>::empty());
        assert(x / pow_65536(8) == 0) by {
            assert(pow_65536(8) == 0x1_0000_0000_0000_0000_0000_0000_0000_0000);
            vstd::arithmetic::div_mod::lemma_basic_div(x, pow_65536(8));
        }
    } else {
        lemma_groups_value_prefix(v, k - 1);
        assert(g.take(k).drop_last() =~= g.take(k - 1));
        let p = pow_65536((8 - k) as nat);
        assert(pow_65536((9 - k) as nat) == p * 0x1_0000);
        assert(p > 0) by {
            lemma_pow_pos((8 - k) as nat);
        }
        let q = x / p;
        vstd::arithmetic::div_mod::lemma_div_denominator(x, p, 0x1_0000);
        vstd::arithmetic::div_mod::lemma_fundamental_div_mod(q, 0x1_0000);
        assert(q >= 0) by {
            vstd::arithmetic::div_mod::lemma_div_pos_is_pos(x, p);
        }
        assert(g[k - 1] as int == q % 0x1_0000);
        assert(groups_value(g.take(k)) == groups_value(g.take(k - 1)) * 0x1_0000 + g[k - 1] as int);
        assert(groups_value(g.take(k)) == (q / 0x1_0000) * 0x1_0000 + q % 0x1_0000);
    }
}

/// Powers of 65536 are positive.
proof fn lemma_pow_pos(n: nat)
    ensures
        pow_65536(n) > 0,
    decreases n,
{
    if n > 0 {
        lemma_pow_pos((n - 1) as nat);
    }
}


/// A lower-case hexadecimal digit reads back as its value.
proof fn lemma_hex_digit(d: int)
    requires
        0 <= d < 16,
    ensures
        hex_value(hex_digit_lower(d)) == Some(d),
        hex_digit_lower(d) != ':',
        hex_digit_lower(d) != '.',
{
    if d < 10 {
        assert(hex_digit_lower(d) as int == d + 48);
    } else {
        assert(hex_digit_lower(d) as int == d - 10 + 97);
    }
}

/// The hexadecimal text of a group: one to four hexadecimal digits, with
/// the group's value, and no `:` or `.`.
proof fn lemma_hex_text(n: nat)
    requires
        n < 0x1_0000,
    ensures
        1 <= hex_text(n).len() <= 4,
        n < 16 ==> hex_text(n).len() == 1,
        n < 0x100 ==> hex_text(n).len() <= 2,
        n < 0x1000 ==> hex_text(n).len() <= 3,
        all_hex(hex_text(n)),
        hex_digits_value(hex_text(n)) == n,
        !hex_text(n).contains(':'),
        !hex_text(n).contains('.'),
        hex_group_spec(hex_text(n)) == Some(n as u16),
    decreases n,
{
    let t = hex_text(n);
    lemma_hex_digit((n % 16) as int);
    if n >= 16 {
        lemma_hex_text(n / 16);
        let u = hex_text(n / 16);
        assert(t.drop_last() =~= u);
        assert(t.last() == hex_digit_lower((n % 16) as int));
        assert forall|i: int| 0 <= i < t.len() implies hex_value(#[trigger] t[i]) is Some by {
            if i < t.len() - 1 {
                assert(t[i] == u[i]);
            }
        }
        if t.contains(':') {
            let k = choose|k: int| 0 <= k < t.len() && t[k] == ':';
            if k < t.len() - 1 {
                assert(u[k] == ':');
            }
        }
        if t.contains('.') {
            let k = choose|k: int| 0 <= k < t.len() && t[k] == '.';
            if k < t.len() - 1 {
                assert(u[k] == '.');
            }
        }
    } else {
        assert(t.drop_last() =~= Seq::<char>::empty());
        assert(hex_digits_value(Seq::<char>::empty()) == 0);
        assert(t[0] == hex_digit_lower(n as int));
    }
}


/// The hexadecimal texts of a list of groups.
spec fn group_texts(g: Seq<u16>) -> Seq<Seq<char>> {
    g.map_values(|x: u16| hex_text(x as nat))
}

/// No two adjacent characters of `s` are both `:`.
spec fn no_double_colon(s: Seq<char>) -> bool {
    forall|j: int| 0 <= j < s.len() - 1 ==> !(#[trigger] s[j] == ':' && s[j + 1] == ':')
}

/// The text of a nonempty list of groups splits at `:` into the texts of
/// the groups; it has no `::`, and does not start or end with `:`.
proof fn lemma_groups_text_split(g: Seq<u16>)
    requires
        g.len() >= 1,
    ensures
        split_spec(groups_text(g), ':') == group_texts(g),
        no_double_colon(groups_text(g)),
        groups_text(g).len() >= 1,
        groups_text(g)[0] != ':',
        groups_text(g).last() != ':',
    decreases g.len(),
{
    let t = groups_text(g);
    lemma_hex_text(g.last() as nat);
    let lt = hex_text(g.last() as nat);
    assert(lt[0] != ':' && lt.last() != ':') by {
        assert(lt.contains(lt[0]));
        assert(lt.contains(lt[lt.len() - 1]));
    }
    if g.len() == 1 {
        assert(t == lt);
        lemma_split_no_sep(lt, ':');
        assert(group_texts(g) =~= seq![lt]);
        assert forall|j: int| 0 <= j < t.len() - 1 implies !(#[trigger] t[j] == ':' && t[j + 1]
            == ':') by {
            assert(lt.contains(t[j]));
        }
    } else {
        let d = g.drop_last();
        lemma_groups_text_split(d);
        let dt = groups_text(d);
        assert(t == dt + seq![':'] + lt);
        lemma_split_concat(dt, lt, ':');
        lemma_split_no_sep(lt, ':');
        assert(group_texts(g) =~= group_texts(d) + seq![lt]);
        assert forall|j: int| 0 <= j < t.len() - 1 implies !(#[trigger] t[j] == ':' && t[j + 1]
            == ':') by {
            if j < dt.len() - 1 {
                assert(t[j] == dt[j] && t[j + 1] == dt[j + 1]);
            } else if j == dt.len() - 1 {
                assert(t[j] == dt.last());
            } else if j == dt.len() {
                assert(t[j + 1] == lt[0]);
            } else {
                assert(t[j] == lt[j - dt.len() - 1]);
                assert(lt.contains(t[j]));
            }
        }
        assert(t[0] == dt[0]);
        assert(t.last() == lt.last());
    }
}

/// The text of a list of groups reads back as the list.
proof fn lemma_group_list_of_text(g: Seq<u16>, allow_v4: bool)
    ensures
        group_list_spec(groups_text(g), allow_v4) == Some(g),
{
    if g.len() == 0 {
        assert(groups_text(g) =~= Seq::<char>::empty());
        assert(g =~= Seq::<u16>::empty());
    } else {
        let t = groups_text(g);
        lemma_groups_text_split(g);
        let p = split_spec(t, ':');
        let n = p.len();
        assert(n == g.len());
        assert forall|i: int| 0 <= i < n implies #[trigger] hex_group_spec(p[i]) == Some(g[i]) by {
            assert(p[i] == hex_text(g[i] as nat));
            lemma_hex_text(g[i] as nat);
        }
        assert forall|i: int| 0 <= i < n - 1 implies #[trigger] hex_group_spec(p[i]) is Some by {
            assert(hex_group_spec(p[i]) == Some(g[i]));
        }
        let head = Seq::new((n - 1) as nat, |i: int| hex_group_spec(p[i])->0);
        assert(hex_group_spec(p[n - 1]) == Some(g[n - 1]));
        assert(head.push(g[n - 1]) =~= g) by {
            assert forall|i: int| 0 <= i < n - 1 implies head[i] == g[i] by {
                assert(hex_group_spec(p[i]) == Some(g[i]));
            }
        }
    }
}


/// Without `::` from `i` on, the search for it runs to the end.
proof fn lemma_no_double_colon_found(s: Seq<char>, i: int)
    requires
        0 <= i,
        forall|j: int| i <= j < s.len() - 1 ==> !(#[trigger] s[j] == ':' && s[j + 1] == ':'),
    ensures
        first_double_colon(s, i) == s.len(),
    decreases s.len() - i,
{
    if i + 1 < s.len() {
        lemma_no_double_colon_found(s, i + 1);
    }
}

/// The search for `::` from `i` finds the first one at `k`.
proof fn lemma_double_colon_found(s: Seq<char>, i: int, k: int)
    requires
        0 <= i <= k,
        k + 1 < s.len(),
        s[k] == ':' && s[k + 1] == ':',
        forall|j: int| i <= j < k ==> !(#[trigger] s[j] == ':' && s[j + 1] == ':'),
    ensures
        first_double_colon(s, i) == k,
    decreases k - i,
{
    if i < k {
        lemma_double_colon_found(s, i + 1, k);
    }
}

/// Some run of zero groups is the first of the longest ones.
proof fn lemma_first_longest_exists(g: Seq<u16>)
    requires
        g.len() == 8,
    ensures
        exists|s: int, l: int| first_longest_zero_run(g, s, l),
{
    let l = longest_run_length(g, 8);
    let s = first_run_start(g, l, 0);
    assert(first_longest_zero_run(g, s, l));
}

/// The length of the longest run of zero groups, searching down from `l`.
proof fn longest_run_length(g: Seq<u16>, l: int) -> (r: int)
    requires
        g.len() == 8,
        0 <= l <= 8,
        forall|s2: int, l2: int| l < l2 && #[trigger] zero_run(g, s2, l2) ==> false,
    ensures
        0 <= r <= l,
        exists|s: int| zero_run(g, s, r),
        forall|s2: int, l2: int| #[trigger] zero_run(g, s2, l2) ==> l2 <= r,
    decreases l,
{
    if exists|s: int| zero_run(g, s, l) {
        l
    } else if l == 0 {
        assert(zero_run(g, 0, 0));
        0
    } else {
        longest_run_length(g, l - 1)
    }
}

/// The first start of a run of length `l`, searching up from `s`.
proof fn first_run_start(g: Seq<u16>, l: int, s: int) -> (r: int)
    requires
        g.len() == 8,
        0 <= s,
        exists|s2: int| s <= s2 && zero_run(g, s2, l),
        forall|s2: int| 0 <= s2 < s ==> !zero_run(g, s2, l),
    ensures
        zero_run(g, r, l),
        forall|s2: int| 0 <= s2 < r ==> !zero_run(g, s2, l),
    decreases 8 - s,
{
    if zero_run(g, s, l) {
        s
    } else {
        let w = choose|s2: int| s <= s2 && zero_run(g, s2, l);
        assert(s < w);
        first_run_start(g, l, s + 1)
    }
}


/// `ffff` is the text of the group 0xffff.
proof fn lemma_ffff_text()
    ensures
        hex_text(0xffff) == seq!['f', 'f', 'f', 'f'],
{
    reveal_with_fuel(hex_text, 5);
    assert(hex_digit_lower(15) as int == 102);
    assert(hex_text(0xffff) =~= seq!['f', 'f', 'f', 'f']);
}

/// The text of an IPv4 address has no `:`, and has a `.`, which is no
/// hexadecimal digit.
proof fn lemma_ipv4_text_chars(w: u32)
    ensures
        !ipv4_text(w).contains(':'),
        hex_group_spec(ipv4_text(w)) is None,
{
    let a = decimal((w / 0x100_0000) as nat);
    let b = decimal((w / 0x1_0000 % 0x100) as nat);
    let c = decimal((w / 0x100 % 0x100) as nat);
    let d = decimal((w % 0x100) as nat);
    lemma_decimal_value((w / 0x100_0000) as nat);
    lemma_decimal_value((w / 0x1_0000 % 0x100) as nat);
    lemma_decimal_value((w / 0x100 % 0x100) as nat);
    lemma_decimal_value((w % 0x100) as nat);
    let t = ipv4_text(w);
    assert(t == a + seq!['.'] + b + seq!['.'] + c + seq!['.'] + d);
    if t.contains(':') {
        let k = choose|k: int| 0 <= k < t.len() && t[k] == ':';
        if k < a.len() {
            assert(is_digit(a[k]));
        } else if k == a.len() {
        } else if k < a.len() + 1 + b.len() {
            assert(is_digit(b[k - a.len() - 1]));
        } else if k == a.len() + 1 + b.len() {
        } else if k < a.len() + 2 + b.len() + c.len() {
            assert(is_digit(c[k - a.len() - 2 - b.len()]));
        } else if k == a.len() + 2 + b.len() + c.len() {
        } else {
            assert(is_digit(d[k - a.len() - 3 - b.len() - c.len()]));
        }
    }
    assert(t[a.len() as int] == '.');
    assert(hex_value(t[a.len() as int]) is None);
}

/// Reading back the text of an IPv6 address gives the address.
#[verifier::spinoff_prover]
#[verifier::rlimit(40)]
pub proof fn law_ipv6_text_round_trip(v: u128)
    ensures
        parse_ipv6_spec(ipv6_text(v)) == Some(v),
{
    let g = ipv6_groups(v);
    lemma_groups_value_of_groups(v);
    let text = ipv6_text(v);
    if g.take(5) == seq![0u16, 0, 0, 0, 0] && g[5] == 0xffff {
        let w = (v % 0x1_0000_0000) as u32;
        reveal_strlit("::ffff:");
        lemma_ffff_text();
        lemma_ipv4_text_chars(w);
        law_ipv4_text_round_trip(w);
        let f = hex_text(0xffff);
        assert(text =~= seq![':', ':'] + (f + seq![':'] + ipv4_text(w)));
        lemma_double_colon_found(text, 0, 0);
        assert(text.take(0) =~= Seq::<char>::empty());
        let t = text.skip(2);
        assert(t =~= f + seq![':'] + ipv4_text(w));
        lemma_hex_text(0xffff);
        lemma_split_no_sep(f, ':');
        lemma_split_no_sep(ipv4_text(w), ':');
        lemma_split_concat(f, ipv4_text(w), ':');
        let p = split_spec(t, ':');
        assert(p =~= seq![f, ipv4_text(w)]);
        assert(group_list_spec(t, true) == Some(seq![0xffffu16] + ipv4_groups(w))) by {
            let head = Seq::new(1, |i: int| hex_group_spec(p[i])->0);
            assert(head =~= seq![0xffffu16]);
        }
        assert(group_list_spec(Seq::<char>::empty(), false) == Some(Seq::<u16>::empty()));
        let full = Seq::<u16>::empty() + Seq::new(5, |i: int| 0u16) + (seq![0xffffu16]
            + ipv4_groups(w));
        assert((v % 0x1_0000_0000) / 0x1_0000 == (v / 0x1_0000) % 0x1_0000) by (bit_vector);
        reveal_with_fuel(pow_65536, 3);
        assert(g[6] as int == (v as int / 0x1_0000) % 0x1_0000);
        assert(g[7] as int == v as int % 0x1_0000);
        assert(w % 0x1_0000 == v % 0x1_0000) by (bit_vector)
            requires
                w == (v % 0x1_0000_0000) as u32,
        ;
        assert forall|i: int| 0 <= i < 5 implies g[i] == 0 by {
            assert(g.take(5)[i] == g[i]);
        }
        assert(full =~= g);
    } else {
        lemma_first_longest_exists(g);
        let (s, l) = choose|s: int, l: int| first_longest_zero_run(g, s, l);
        if l > 1 {
            let h = g.take(s);
            let tl = g.skip(s + l);
            let a = groups_text(h);
            let b = groups_text(tl);
            assert(text == a + seq![':', ':'] + b);
            let k = a.len() as int;
            if s > 0 {
                lemma_groups_text_split(h);
            } else {
                assert(h =~= Seq::<u16>::empty());
            }
            assert forall|j: int| 0 <= j < k implies !(#[trigger] text[j] == ':' && text[j + 1]
                == ':') by {
                assert(text[j] == a[j]);
                if j < k - 1 {
                    assert(text[j + 1] == a[j + 1]);
                }
            }
            lemma_double_colon_found(text, 0, k);
            assert(text.take(k) =~= a);
            assert(text.skip(k + 2) =~= b);
            lemma_group_list_of_text(h, false);
            lemma_group_list_of_text(tl, true);
            let full = h + Seq::new((8 - h.len() - tl.len()) as nat, |i: int| 0u16) + tl;
            assert(full =~= g);
        } else {
            if g.len() > 0 {
                lemma_groups_text_split(g);
            }
            lemma_no_double_colon_found(text, 0);
            lemma_group_list_of_text(g, true);
        }
    }
}

/// Reading back the text of an IP address gives the address.
pub proof fn law_ip_text_round_trip(a: IpAddress)
    ensures
        parse_ip_spec(ip_text(a)) == Some(a),
{
    match a {
        IpAddress::V4(v) => {
            law_ipv4_text_round_trip(v);
        },
        IpAddress::V6(v) => {
            law_ipv6_text_round_trip(v);
            lemma_ipv6_text_is_not_ipv4(v);
        },
    }
}


/// When every piece of `s` consists of digits, every character of `s` is
/// a digit or the separator.
proof fn lemma_split_pieces_digits(s: Seq<char>, sep: char)
    requires
        forall|k: int| 0 <= k < split_spec(s, sep).len() ==> all_digits(
            #[trigger] split_spec(s, sep)[k],
        ),
    ensures
        forall|i: int| 0 <= i < s.len() ==> is_digit(#[trigger] s[i]) || s[i] == sep,
    decreases s.len(),
{
    if s.len() > 0 {
        let d = s.drop_last();
        let p = split_spec(d, sep);
        let q = split_spec(s, sep);
        lemma_split_nonempty(d, sep);
        if s.last() == sep {
            assert forall|k: int| 0 <= k < p.len() implies all_digits(#[trigger] p[k]) by {
                assert(q[k] == p[k]);
            }
        } else {
            assert forall|k: int| 0 <= k < p.len() implies all_digits(#[trigger] p[k]) by {
                assert(all_digits(q[k]));
                if k == p.len() - 1 {
                    assert forall|i: int| 0 <= i < p[k].len() implies is_digit(#[trigger] p[k][i]) by {
                        assert(q[k][i] == p[k][i]);
                    }
                } else {
                    assert(q[k] == p[k]);
                }
            }
            assert(all_digits(q[p.len() - 1]));
            assert(q[p.len() - 1].last() == s.last());
        }
        lemma_split_pieces_digits(d, sep);
        assert forall|i: int| 0 <= i < s.len() implies is_digit(#[trigger] s[i]) || s[i] == sep by {
            if i < s.len() - 1 {
                assert(s[i] == d[i]);
            }
        }
    }
}

/// A text holding `:` is no IPv4 address.
proof fn lemma_colon_not_ipv4(s: Seq<char>, i: int)
    requires
        0 <= i < s.len(),
        s[i] == ':',
    ensures
        parse_ipv4_spec(s) is None,
{
    if parse_ipv4_spec(s) is Some {
        let p = split_spec(s, '.');
        assert forall|k: int| 0 <= k < p.len() implies all_digits(#[trigger] p[k]) by {
            assert(octet_spec(p[k]) is Some);
        }
        lemma_split_pieces_digits(s, '.');
        assert(is_digit(s[i]) || s[i] == '.');
    }
}

/// The text of an IPv6 address is no IPv4 address.
proof fn lemma_ipv6_text_is_not_ipv4(v: u128)
    ensures
        parse_ipv4_spec(ipv6_text(v)) is None,
{
    let g = ipv6_groups(v);
    let text = ipv6_text(v);
    if g.take(5) == seq![0u16, 0, 0, 0, 0] && g[5] == 0xffff {
        reveal_strlit("::ffff:");
        assert(text[0] == ':');
        lemma_colon_not_ipv4(text, 0);
    } else {
        let (s, l) = choose|s: int, l: int| first_longest_zero_run(g, s, l);
        if l > 1 {
            let a = groups_text(g.take(s));
            assert(text[a.len() as int] == ':');
            lemma_colon_not_ipv4(text, a.len() as int);
        } else {
            let a = groups_text(g.drop_last());
            assert(text == a + seq![':'] + hex_text(g.last() as nat));
            assert(text[a.len() as int] == ':');
            lemma_colon_not_ipv4(text, a.len() as int);
        }
    }
}

} // verus!
