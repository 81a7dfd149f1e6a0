//! Decimal and hexadecimal numbers in text, as the standard library reads
//! and writes them.

use vstd::prelude::*;

verus! {

/// An ASCII decimal digit.
pub open spec fn is_digit(c: char) -> bool {
    '0' <= c && c <= '9'
}

/// The value of an ASCII decimal digit.
pub open spec fn digit_value(c: char) -> int {
    c as int - '0' as int
}

/// Every character of `s` is an ASCII decimal digit.
pub open spec fn all_digits(s: Seq<char>) -> bool {
    forall|i: int| 0 <= i < s.len() ==> is_digit(#[trigger] s[i])
}

/// The value of a string of decimal digits, most significant first.
pub open spec fn digits_value(s: Seq<char>) -> int
    decreases s.len(),
{
    if s.len() == 0 {
        0
    } else {
        digits_value(s.drop_last()) * 10 + digit_value(s.last())
    }
}

/// A prefix of a digit string never has a larger value than the whole.
pub proof fn lemma_digits_value_prefix(s: Seq<char>, i: int)
    requires
        all_digits(s),
        0 <= i <= s.len(),
    ensures
        0 <= digits_value(s.take(i)) <= digits_value(s),
    decreases s.len() - i,
{
    if i < s.len() {
        lemma_digits_value_prefix(s, i + 1);
        assert(s.take(i + 1).drop_last() =~= s.take(i));
        assert(is_digit(s[i]));
    } else {
        assert(s.take(i) =~= s);
        lemma_digits_value_nonneg(s);
    }
}

/// Digit strings have non-negative values.
pub proof fn lemma_digits_value_nonneg(s: Seq<char>)
    requires
        all_digits(s),
    ensures
        digits_value(s) >= 0,
    decreases s.len(),
{
    if s.len() > 0 {
        assert(is_digit(s.last()));
        lemma_digits_value_nonneg(s.drop_last());
    }
}

/// Reads an unsigned decimal of at most `bound` from `s`, all of whose
/// characters must be digits; `None` when a character is not a digit or the
/// value exceeds `bound`.
fn digits_up_to(cs: &Vec<char>, from: usize, bound: u64) -> (r: Option<u64>)
    requires
        from <= cs.len(),
    ensures
        ({
            let d = cs@.skip(from as int);
            match r {
                Some(v) => all_digits(d) && v == digits_value(d) && v <= bound,
                None => !all_digits(d) || digits_value(d) > bound,
            }
        }),
{
    let ghost d = cs@.skip(from as int);
    let mut acc: u64 = 0;
    let mut i: usize = from;
    while i < cs.len()
        invariant
            from <= i <= cs.len(),
            d == cs@.skip(from as int),
            all_digits(d.take(i - from)),
            acc == digits_value(d.take(i - from)),
            acc <= bound,
        decreases cs.len() - i,
    {
        let c = cs[i];
        proof {
            assert(d.take(i + 1 - from).drop_last() =~= d.take(i - from));
            assert(d.take(i + 1 - from).last() == c);
        }
        if !('0' <= c && c <= '9') {
            assert(!is_digit(d[i - from]));
            return None;
        }
        let dv = (c as u32 - '0' as u32) as u64;
        assert(dv == digit_value(c));
        if dv > bound || acc > (bound - dv) / 10 {
            proof {
                if dv <= bound {
                    assert(acc * 10 + dv > bound) by (nonlinear_arith)
                        requires
                            acc > (bound - dv) / 10,
                            dv <= bound,
                    ;
                }
                assert(all_digits(d.take(i + 1 - from)));
                if all_digits(d) {
                    lemma_digits_value_prefix(d, i + 1 - from);
                }
            }
            return None;
        }
        proof {
            assert(acc * 10 + dv <= bound) by (nonlinear_arith)
                requires
                    acc <= (bound - dv) / 10,
                    dv <= bound,
            ;
        }
        acc = acc * 10 + dv;
        i += 1;
        assert(all_digits(d.take(i - from)));
    }
    assert(d.take(i - from) =~= d);
    Some(acc)
}


/// The digits after an optional leading `'+'` (or, when `signed`, `'-'`).
pub open spec fn unsigned_part(s: Seq<char>, signed: bool) -> Seq<char> {
    if s.len() > 0 && (s[0] == '+' || (signed && s[0] == '-')) {
        s.drop_first()
    } else {
        s
    }
}

/// `u64::from_str`: an optional `'+'` followed by at least one ASCII digit,
/// with a value that fits.
pub open spec fn parse_u64_spec(s: Seq<char>) -> Option<u64> {
    let d = unsigned_part(s, false);
    if d.len() > 0 && all_digits(d) && digits_value(d) <= u64::MAX {
        Some(digits_value(d) as u64)
    } else {
        None
    }
}

/// `i64::from_str`: an optional `'+'` or `'-'` followed by at least one
/// ASCII digit, with a value that fits.
pub open spec fn parse_i64_spec(s: Seq<char>) -> Option<i64> {
    let d = unsigned_part(s, true);
    let negative = s.len() > 0 && s[0] == '-';
    if d.len() > 0 && all_digits(d) {
        if negative && digits_value(d) <= 0x8000_0000_0000_0000 {
            Some((-digits_value(d)) as i64)
        } else if !negative && digits_value(d) <= i64::MAX {
            Some(digits_value(d) as i64)
        } else {
            None
        }
    } else {
        None
    }
}

/// Reads a `u64` as `u64::from_str` does.
pub fn parse_u64(cs: &Vec<char>) -> (r: Option<u64>)
    ensures
        r == parse_u64_spec(cs@),
{
    let from: usize = if cs.len() > 0 && cs[0] == '+' { 1 } else { 0 };
    assert(cs@.skip(from as int) =~= unsigned_part(cs@, false));
    if from >= cs.len() {
        return None;
    }
    digits_up_to(cs, from, u64::MAX)
}

/// Reads an `i64` as `i64::from_str` does.
pub fn parse_i64(cs: &Vec<char>) -> (r: Option<i64>)
    ensures
        r == parse_i64_spec(cs@),
{
    let negative = cs.len() > 0 && cs[0] == '-';
    let from: usize = if cs.len() > 0 && (cs[0] == '+' || cs[0] == '-') { 1 } else { 0 };
    assert(cs@.skip(from as int) =~= unsigned_part(cs@, true));
    if from >= cs.len() {
        return None;
    }
    if negative {
        match digits_up_to(cs, from, 0x8000_0000_0000_0000) {
            Some(v) => {
                if v == 0x8000_0000_0000_0000 {
                    Some(i64::MIN)
                } else {
                    Some(-(v as i64))
                }
            },
            None => None,
        }
    } else {
        match digits_up_to(cs, from, 0x7fff_ffff_ffff_ffff) {
            Some(v) => Some(v as i64),
            None => None,
        }
    }
}

/// Why a text is not an integer (`std::num::IntErrorKind`, as far as the
/// decimal parsers report it).
#[derive(Clone, Copy, Debug, PartialEq, Eq, Structural)]
pub enum IntErrorKind {
    /// The text is empty.
    Empty,
    /// A character is not a digit (a lone sign counts as one).
    InvalidDigit,
    /// The value is above the largest integer of the type.
    PosOverflow,
    /// The value is below the smallest integer of the type.
    NegOverflow,
}

/// The number of digits at the start of `d`.
pub open spec fn digit_run_len(d: Seq<char>) -> nat
    decreases d.len(),
{
    if d.len() == 0 || !is_digit(d[0]) {
        0
    } else {
        1 + digit_run_len(d.drop_first())
    }
}

/// Why `i64::from_str` refuses `s`.  The digits are read from the left:
/// a value that leaves the range of `i64` within the leading digits is an
/// overflow (above or below, by the sign); otherwise the first character
/// that is not a digit makes the text invalid.
pub open spec fn i64_error_kind(s: Seq<char>) -> IntErrorKind {
    let d = unsigned_part(s, true);
    let negative = s.len() > 0 && s[0] == '-';
    let v = digits_value(d.take(digit_run_len(d) as int));
    if s.len() == 0 {
        IntErrorKind::Empty
    } else if d.len() == 0 {
        IntErrorKind::InvalidDigit
    } else if negative && v > 0x8000_0000_0000_0000 {
        IntErrorKind::NegOverflow
    } else if !negative && v > i64::MAX {
        IntErrorKind::PosOverflow
    } else {
        IntErrorKind::InvalidDigit
    }
}

/// The run of leading digits ends at the first character that is not one.
proof fn lemma_digit_run_len(d: Seq<char>, j: int)
    requires
        0 <= j <= d.len(),
        all_digits(d.take(j)),
        j == d.len() || !is_digit(d[j]),
    ensures
        digit_run_len(d) == j,
    decreases j,
{
    if j > 0 {
        assert(is_digit(d.take(j)[0]));
        let e = d.drop_first();
        assert(e.take(j - 1) =~= d.take(j).drop_first());
        assert forall|i: int| 0 <= i < j - 1 implies is_digit(#[trigger] e.take(j - 1)[i]) by {
            assert(e.take(j - 1)[i] == d.take(j)[i + 1]);
        }
        if j < d.len() {
            assert(e[j - 1] == d[j]);
        }
        lemma_digit_run_len(e, j - 1);
    }
}

/// Why a text that `parse_i64` refuses is not an `i64`.
pub fn i64_error(cs: &Vec<char>) -> (r: IntErrorKind)
    requires
        parse_i64_spec(cs@) is None,
    ensures
        r == i64_error_kind(cs@),
{
    if cs.len() == 0 {
        return IntErrorKind::Empty;
    }
    let negative = cs[0] == '-';
    let from: usize = if cs[0] == '+' || cs[0] == '-' { 1 } else { 0 };
    let ghost d = unsigned_part(cs@, true);
    assert(cs@.skip(from as int) =~= d);
    if from >= cs.len() {
        return IntErrorKind::InvalidDigit;
    }
    let bound: u64 = if negative { 0x8000_0000_0000_0000 } else { 0x7fff_ffff_ffff_ffff };
    let mut acc: u64 = 0;
    let mut i: usize = from;
    while i < cs.len() && '0' <= cs[i] && cs[i] <= '9'
        invariant
            from <= i <= cs.len(),
            from == cs.len() - d.len(),
            d == cs@.skip(from as int),
            all_digits(d.take(i - from)),
            acc == digits_value(d.take(i - from)),
            acc <= bound,
            cs@.len() > 0,
            d == unsigned_part(cs@, true),
            negative == (cs@[0] == '-'),
            bound == if negative { 0x8000_0000_0000_0000u64 } else { 0x7fff_ffff_ffff_ffffu64 },
        decreases cs.len() - i,
    {
        let c = cs[i];
        proof {
            assert(d.take(i + 1 - from).drop_last() =~= d.take(i - from));
            assert(d.take(i + 1 - from).last() == c);
            assert(d[i - from] == c);
        }
        let dv = (c as u32 - '0' as u32) as u64;
        assert(dv == digit_value(c));
        assert(all_digits(d.take(i + 1 - from)));
        if dv > bound || acc > (bound - dv) / 10 {
            proof {
                if dv <= bound {
                    assert(acc * 10 + dv > bound) by (nonlinear_arith)
                        requires
                            acc > (bound - dv) / 10,
                            dv <= bound,
                    ;
                }
                let k = digit_run_len(d) as int;
                let j: int = i + 1 - from;
                lemma_run_at_least(d, j);
                lemma_digit_run_digits(d);
                lemma_digits_value_prefix(d.take(k), j);
                assert(d.take(k).take(j) =~= d.take(j));
                assert(digits_value(d.take(j)) == acc * 10 + dv);
                assert(digits_value(d.take(k)) > bound);
            }
            return if negative {
                IntErrorKind::NegOverflow
            } else {
                IntErrorKind::PosOverflow
            };
        }
        proof {
            assert(acc * 10 + dv <= bound) by (nonlinear_arith)
                requires
                    acc <= (bound - dv) / 10,
                    dv <= bound,
            ;
        }
        acc = acc * 10 + dv;
        i += 1;
    }
    proof {
        let j = i - from;
        if i < cs.len() {
            assert(d[j] == cs@[i as int]);
        }
        lemma_digit_run_len(d, j);
    }
    IntErrorKind::InvalidDigit
}

/// The leading run of digits lies within the text and consists of digits.
proof fn lemma_digit_run_digits(d: Seq<char>)
    ensures
        digit_run_len(d) <= d.len(),
        all_digits(d.take(digit_run_len(d) as int)),
    decreases d.len(),
{
    if d.len() > 0 && is_digit(d[0]) {
        let e = d.drop_first();
        lemma_digit_run_digits(e);
        let k = digit_run_len(d) as int;
        assert forall|i: int| 0 <= i < k implies is_digit(#[trigger] d.take(k)[i]) by {
            if i > 0 {
                assert(d.take(k)[i] == e.take(k - 1)[i - 1]);
            }
        }
    }
}

/// A run of leading digits of length `j` is no longer than the whole run.
proof fn lemma_run_at_least(d: Seq<char>, j: int)
    requires
        0 <= j <= d.len(),
        all_digits(d.take(j)),
    ensures
        digit_run_len(d) >= j,
    decreases j,
{
    if j > 0 {
        assert(is_digit(d.take(j)[0]));
        let e = d.drop_first();
        assert forall|i: int| 0 <= i < j - 1 implies is_digit(#[trigger] e.take(j - 1)[i]) by {
            assert(e.take(j - 1)[i] == d.take(j)[i + 1]);
        }
        lemma_run_at_least(e, j - 1);
    }
}

// ---------------------------------------------------------------------------
// Writing numbers

/// The ASCII digit of a value below 16, lower-case for letters.
pub open spec fn hex_digit_lower(d: int) -> char {
    if d < 10 {
        (d + '0' as int) as char
    } else {
        (d - 10 + 'a' as int) as char
    }
}

/// The ASCII digit of a value below 16, upper-case for letters.
pub open spec fn hex_digit_upper(d: int) -> char {
    if d < 10 {
        (d + '0' as int) as char
    } else {
        (d - 10 + 'A' as int) as char
    }
}

/// The decimal representation of `n` without leading zeros (`Display` of
/// the unsigned integer types).
pub open spec fn decimal(n: nat) -> Seq<char>
    decreases n,
{
    if n < 10 {
        seq![hex_digit_lower(n as int)]
    } else {
        decimal(n / 10).push(hex_digit_lower((n % 10) as int))
    }
}

/// The digit character of a value below 10.
pub fn digit_char(d: u64) -> (c: char)
    requires
        d < 10,
    ensures
        c == hex_digit_lower(d as int),
{
    let c = ('0' as u8 + d as u8) as char;
    c
}

/// The lower-case hexadecimal digit of a value below 16.
pub fn hex_char_lower(d: u8) -> (c: char)
    requires
        d < 16,
    ensures
        c == hex_digit_lower(d as int),
{
    if d < 10 {
        ('0' as u8 + d) as char
    } else {
        ('a' as u8 + (d - 10)) as char
    }
}

/// Appends the decimal representation of `n`.
pub fn push_decimal(out: &mut Vec<char>, n: u64)
    ensures
        final(out)@ == old(out)@ + decimal(n as nat),
    decreases n,
{
    if n >= 10 {
        push_decimal(out, n / 10);
    }
    out.push(digit_char(n % 10));
    proof {
        if n >= 10 {
            assert(old(out)@ + decimal(n as nat) =~= old(out)@ + decimal((n / 10) as nat) + seq![
                hex_digit_lower((n % 10) as int)]);
        } else {
            assert(old(out)@ + decimal(n as nat) =~= old(out)@ + seq![hex_digit_lower(n as int)]);
        }
    }
}

/// Every decimal representation consists of digits and denotes its number.
pub proof fn lemma_decimal_value(n: nat)
    ensures
        decimal(n).len() > 0,
        all_digits(decimal(n)),
        digits_value(decimal(n)) == n,
    decreases n,
{
    let d = (n % 10) as int;
    assert(hex_digit_lower(d) as int == d + 48);
    let s = decimal(n);
    if n < 10 {
        assert(s.drop_last() =~= Seq::<char>::empty());
        assert(digits_value(Seq::<char>::empty()) == 0);
    }
    if n >= 10 {
        lemma_decimal_value(n / 10);
        assert(s.drop_last() =~= decimal(n / 10));
        assert(all_digits(s)) by {
            assert forall|i: int| 0 <= i < s.len() implies is_digit(#[trigger] s[i]) by {
                if i < s.len() - 1 {
                    assert(s[i] == decimal(n / 10)[i]);
                }
            }
        }
    }
}

/// Reading back a written unsigned number gives the number.
pub proof fn law_u64_decimal_round_trip(n: u64)
    ensures
        parse_u64_spec(decimal(n as nat)) == Some(n),
{
    lemma_decimal_value(n as nat);
    let s = decimal(n as nat);
    assert(is_digit(s[0]));
    assert(s[0] != '+');
    assert(unsigned_part(s, false) == s);
    assert(digits_value(s) == n as int);
    assert(digits_value(s) <= u64::MAX);
}

/// The decimal representation of a positive number does not start with `0`,
/// and it is as long as the number has digits.
pub proof fn lemma_decimal_shape(n: nat)
    ensures
        n >= 1 ==> decimal(n)[0] != '0',
        n < 10 ==> decimal(n).len() == 1,
        10 <= n < 100 ==> decimal(n).len() == 2,
        100 <= n < 1000 ==> decimal(n).len() == 3,
        decimal(n).len() >= 1,
    decreases n,
{
    let d = (n % 10) as int;
    assert(hex_digit_lower(d) as int == d + 48);
    if n >= 10 {
        lemma_decimal_shape(n / 10);
        assert(decimal(n)[0] == decimal(n / 10)[0]);
    } else {
        assert(hex_digit_lower(n as int) as int == n + 48);
    }
}

} // verus!
