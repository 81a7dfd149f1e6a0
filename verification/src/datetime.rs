//! Writing an instant as a local date and time, `%Y-%m-%d %H:%M:%S`.  The
//! calendar fields of an instant and the machine's offset from UTC come from
//! `chrono`; the layout of the text is this library's.

use vstd::prelude::*;
use crate::dhcp::{max_utc_timestamp, min_utc_timestamp};
use crate::num::{decimal, push_decimal};
use crate::text::{push_str, string_of};

verus! {

/// The first year that `chrono` can hold.
pub open spec fn min_year() -> int {
    -262143
}

/// The last year that `chrono` can hold.
pub open spec fn max_year() -> int {
    262142
}

/// A number below 10000 with at least four digits, zeros in front.
pub open spec fn four_digits(n: nat) -> Seq<char> {
    if n < 10 {
        "000"@ + decimal(n)
    } else if n < 100 {
        "00"@ + decimal(n)
    } else if n < 1000 {
        "0"@ + decimal(n)
    } else {
        decimal(n)
    }
}

/// A number below 100 with two digits, a zero in front where needed.
pub open spec fn two_digits(n: nat) -> Seq<char> {
    if n < 10 {
        "0"@ + decimal(n)
    } else {
        decimal(n)
    }
}

/// A year as `%Y` writes it: four digits for the years 0 to 9999, and a
/// sign followed by at least four digits for every other year.
pub open spec fn year_text(y: int) -> Seq<char> {
    if 0 <= y <= 9999 {
        four_digits(y as nat)
    } else if y < 0 {
        "-"@ + four_digits((-y) as nat)
    } else {
        "+"@ + four_digits(y as nat)
    }
}

/// The text `%Y-%m-%d %H:%M:%S` of calendar fields (year, month, day,
/// hour, minute, second).
pub open spec fn datetime_text(f: (i32, u32, u32, u32, u32, u32)) -> Seq<char> {
    year_text(f.0 as int) + "-"@ + two_digits(f.1 as nat) + "-"@ + two_digits(f.2 as nat) + " "@
        + two_digits(f.3 as nat) + ":"@ + two_digits(f.4 as nat) + ":"@ + two_digits(f.5 as nat)
}

/// Appends a number below 10000 with four digits.
fn push_padded(out: &mut Vec<char>, n: u64)
    requires
        n < 10000,
    ensures
        final(out)@ == old(out)@ + four_digits(n as nat),
{
    proof {
        reveal_strlit("000");
        reveal_strlit("00");
        reveal_strlit("0");
    }
    if n < 10 {
        push_str(out, "000");
    } else if n < 100 {
        push_str(out, "00");
    } else if n < 1000 {
        push_str(out, "0");
    }
    let ghost before = out@;
    push_decimal(out, n);
    assert(out@ == before + decimal(n as nat));
}

/// Appends a number below 100 with two digits.
fn push_two(out: &mut Vec<char>, n: u32)
    requires
        n < 100,
    ensures
        final(out)@ == old(out)@ + two_digits(n as nat),
{
    if n < 10 {
        push_str(out, "0");
    }
    push_decimal(out, n as u64);
}

/// Writes calendar fields as `%Y-%m-%d %H:%M:%S`.
pub fn format_datetime(f: (i32, u32, u32, u32, u32, u32)) -> (r: String)
    requires
        min_year() <= f.0 <= max_year(),
        f.1 < 100,
        f.2 < 100,
        f.3 < 100,
        f.4 < 100,
        f.5 < 100,
    ensures
        r@ == datetime_text(f),
{
    let mut out: Vec<char> = Vec::new();
    let y = f.0;
    if 0 <= y && y <= 9999 {
        push_padded(&mut out, y as u64);
    } else if y < 0 {
        push_str(&mut out, "-");
        push_padded_year(&mut out, (-(y as i64)) as u64);
    } else {
        push_str(&mut out, "+");
        push_padded_year(&mut out, y as u64);
    }
    assert(out@ =~= year_text(f.0 as int));
    push_str(&mut out, "-");
    push_two(&mut out, f.1);
    push_str(&mut out, "-");
    push_two(&mut out, f.2);
    push_str(&mut out, " ");
    push_two(&mut out, f.3);
    push_str(&mut out, ":");
    push_two(&mut out, f.4);
    push_str(&mut out, ":");
    push_two(&mut out, f.5);
    assert(out@ =~= datetime_text(f));
    string_of(&out)
}

/// Appends a year's digits, at least four of them.
fn push_padded_year(out: &mut Vec<char>, n: u64)
    ensures
        final(out)@ == old(out)@ + four_digits(n as nat),
{
    if n < 10000 {
        push_padded(out, n);
    } else {
        push_decimal(out, n);
    }
}

/// The calendar fields that `chrono` gives the UTC instant `t` (seconds
/// since the Unix epoch).
pub uninterp spec fn utc_civil(t: i64) -> (i32, u32, u32, u32, u32, u32);

/// The calendar fields of a UTC instant: `chrono::DateTime::from_timestamp`
/// and its `year`, `month`, `day`, `hour`, `minute` and `second`.  The
/// fields lie in their documented ranges (no leap second comes from a
/// timestamp), the year among those `chrono` holds.
#[verifier::external_body]
fn utc_fields(t: i64) -> (r: (i32, u32, u32, u32, u32, u32))
    requires
        min_utc_timestamp() <= t <= max_utc_timestamp(),
    ensures
        r == utc_civil(t),
        min_year() <= r.0 <= max_year(),
        1 <= r.1 <= 12,
        1 <= r.2 <= 31,
        r.3 < 24,
        r.4 < 60,
        r.5 < 60,
{
    match chrono::DateTime::from_timestamp(t, 0) {
        Some(d) => (
            chrono::Datelike::year(&d),
            chrono::Datelike::month(&d),
            chrono::Datelike::day(&d),
            chrono::Timelike::hour(&d),
            chrono::Timelike::minute(&d),
            chrono::Timelike::second(&d),
        ),
        None => Default::default(),
    }
}

/// The machine's offset from UTC at the instant `secs`, in seconds:
/// `chrono::Local`'s `offset_from_utc_datetime` and `local_minus_utc`.  It
/// depends on the machine's time zone, so only its range is stated (a
/// `FixedOffset` is less than a day either way).  The zone lookup expects
/// the machine's zone data to be readable; that is not stated.
#[verifier::external_body]
fn local_offset(secs: i64) -> (r: i32)
    requires
        min_utc_timestamp() <= secs <= max_utc_timestamp(),
    ensures
        -86400 < r < 86400,
{
    match chrono::DateTime::from_timestamp(secs, 0) {
        Some(d) => chrono::TimeZone::offset_from_utc_datetime(&chrono::Local, &d.naive_utc()).local_minus_utc(),
        None => 0,
    }
}

/// `chrono`'s own local text of an instant within a day of the ends of its
/// range, where the local date falls outside the dates it holds:
/// `DateTime::<Local>::from(..).format("%Y-%m-%d %H:%M:%S")`.  Nothing is
/// stated of that text.
#[verifier::external_body]
fn edge_local_text(secs: i64) -> (r: String)
    requires
        min_utc_timestamp() <= secs <= max_utc_timestamp(),
{
    match chrono::DateTime::from_timestamp(secs, 0) {
        Some(t) => chrono::DateTime::<chrono::Local>::from(t).format("%Y-%m-%d %H:%M:%S").to_string(),
        None => String::new(),
    }
}

/// `text` is the local date and time of the instant `secs` for some
/// offset from UTC of less than a day: the fields of the shifted instant,
/// written `%Y-%m-%d %H:%M:%S`.  (A shifted instant that `chrono` cannot
/// hold, within a day of the ends of its range, is not described.)
pub open spec fn is_local_text(secs: i64, text: Seq<char>) -> bool {
    exists|t: i64|
        secs - 86400 < t < secs + 86400 && (min_utc_timestamp() <= t <= max_utc_timestamp() ==> text
            == datetime_text(#[trigger] utc_civil(t)))
}

/// The machine's offset from UTC at the instant `secs`, with the local date
/// and time it gives, `%Y-%m-%d %H:%M:%S`: the calendar fields of the
/// instant moved forward by the offset (local time is UTC plus the offset,
/// so east of Greenwich the clock reads later).  The text of a shifted
/// instant that `chrono` cannot hold, within a day of the ends of its range,
/// is not described.
pub fn local_clock(secs: i64) -> (r: (i32, String))
    requires
        min_utc_timestamp() <= secs <= max_utc_timestamp(),
    ensures
        -86400 < r.0 < 86400,
        min_utc_timestamp() <= secs + r.0 <= max_utc_timestamp() ==> r.1@ == datetime_text(
            utc_civil((secs + r.0) as i64),
        ),
        is_local_text(secs, r.1@),
{
    let off = local_offset(secs);
    let t = secs as i128 + off as i128;
    if t < -8_334_601_228_800 || t > 8_210_266_876_799 {
        let r = edge_local_text(secs);
        let ghost w = t as i64;
        assert(utc_civil(w) == utc_civil(w));
        assert(secs - 86400 < w < secs + 86400);
        return (off, r);
    }
    let t = t as i64;
    let f = utc_fields(t);
    let r = format_datetime(f);
    assert(r@ == datetime_text(utc_civil(t)));
    (off, r)
}

/// Writes the instant `secs` as the machine's local date and time,
/// `%Y-%m-%d %H:%M:%S` (the text of `local_clock`).
pub fn local_datetime_text(secs: i64) -> (r: String)
    requires
        min_utc_timestamp() <= secs <= max_utc_timestamp(),
    ensures
        is_local_text(secs, r@),
{
    let (_, text) = local_clock(secs);
    text
}

} // verus!
