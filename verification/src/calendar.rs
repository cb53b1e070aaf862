//! The proleptic Gregorian calendar and the RFC 3339 timestamps written on
//! log entries.

use vstd::prelude::*;
use crate::text::{chars_of, decimal, decimal_string, push_char, push_str};

verus! {

/// A Gregorian leap year.
pub open spec fn is_leap(y: int) -> bool {
    y % 4 == 0 && (y % 100 != 0 || y % 400 == 0)
}

/// Days in year `y`.
pub open spec fn year_days(y: int) -> int {
    if is_leap(y) {
        366
    } else {
        365
    }
}

/// Days in month `m` (1-based) of year `y`.
pub open spec fn month_days(y: int, m: int) -> int {
    if m == 2 {
        if is_leap(y) {
            29
        } else {
            28
        }
    } else if m == 4 || m == 6 || m == 9 || m == 11 {
        30
    } else {
        31
    }
}

/// The date `d` days into month `m` of year `y`, carried into later months:
/// (year, month, day of month).
pub open spec fn date_in_month(y: int, m: int, d: int) -> (int, int, int)
    decreases 12 - m,
{
    if m >= 12 || d < month_days(y, m) {
        (y, m, d + 1)
    } else {
        date_in_month(y, m + 1, d - month_days(y, m))
    }
}

/// The date `d` days after January 1st of year `y`.
pub open spec fn date_from(y: int, d: nat) -> (int, int, int)
    decreases d,
{
    if d < year_days(y) {
        date_in_month(y, 1, d as int)
    } else {
        date_from(y + 1, (d - year_days(y)) as nat)
    }
}

/// The civil date `days` days after 1970-01-01.
pub open spec fn civil_date(days: nat) -> (int, int, int) {
    date_from(1970, days)
}

/// Days in the `n` years starting with year `y`.
pub open spec fn days_in(y: int, n: nat) -> int
    decreases n,
{
    if n == 0 {
        0
    } else {
        days_in(y, (n - 1) as nat) + year_days(y + n - 1)
    }
}

proof fn lemma_days_in_split(y: int, a: nat, b: nat)
    ensures
        days_in(y, a + b) == days_in(y, a) + days_in(y + a, b),
    decreases b,
{
    if b > 0 {
        lemma_days_in_split(y, a, (b - 1) as nat);
        assert(days_in(y, a + b) == days_in(y, (a + b - 1) as nat) + year_days(y + a + b - 1));
    }
}

proof fn lemma_days_in_bounds(y: int, n: nat)
    ensures
        days_in(y, n) >= 365 * n,
    decreases n,
{
    if n > 0 {
        lemma_days_in_bounds(y, (n - 1) as nat);
    }
}

/// Skipping `n` whole years.
proof fn lemma_skip_years(y: int, n: nat, d: nat)
    requires
        d >= days_in(y, n),
    ensures
        date_from(y, d) == date_from(y + n, (d - days_in(y, n)) as nat),
    decreases n,
{
    if n > 0 {
        let m = (n - 1) as nat;
        assert(days_in(y, n) == days_in(y, m) + year_days(y + m));
        lemma_skip_years(y, m, d);
        let d1 = (d - days_in(y, m)) as nat;
        assert(d1 >= year_days(y + m));
        assert(date_from(y + m, d1) == date_from(y + m + 1, (d1 - year_days(y + m)) as nat));
    }
}

/// Four years starting at a multiple of four hold one leap year at most.
proof fn lemma_four_years(y: int)
    requires
        y % 4 == 0,
    ensures
        days_in(y, 4) == 1460 + (if is_leap(y) {
            1int
        } else {
            0int
        }),
{
    reveal_with_fuel(days_in, 5);
    assert((y + 1) % 4 == 1);
    assert((y + 2) % 4 == 2);
    assert((y + 3) % 4 == 3);
}

/// The first `4j` years of a century.
proof fn lemma_century_blocks(y: int, j: nat)
    requires
        y % 100 == 0,
        1 <= j <= 25,
    ensures
        days_in(y, 4 * j) == 1460 * j + (j - 1) + (if is_leap(y) {
            1int
        } else {
            0int
        }),
    decreases j,
{
    assert(y % 4 == 0);
    if j == 1 {
        lemma_four_years(y);
    } else {
        let k = (j - 1) as nat;
        lemma_century_blocks(y, k);
        lemma_days_in_split(y, 4 * k, 4);
        let z = y + 4 * k;
        assert(z % 4 == 0);
        assert(z % 100 != 0) by {
            assert(y == 100 * (y / 100));
            assert(4 <= 4 * k < 100);
            assert(z == 100 * (y / 100) + 4 * k);
        }
        lemma_four_years(z);
        assert(4 * k + 4 == 4 * j);
    }
}

/// A century holds 36524 days, one more when it starts a 400-year cycle.
proof fn lemma_century(y: int)
    requires
        y % 100 == 0,
    ensures
        days_in(y, 100) == 36524 + (if y % 400 == 0 {
            1int
        } else {
            0int
        }),
{
    lemma_century_blocks(y, 25);
}

/// 400 years starting at a multiple of 400 hold 146097 days.
proof fn lemma_cycle_at(y: int)
    requires
        y % 400 == 0,
    ensures
        days_in(y, 400) == 146097,
{
    lemma_century(y);
    lemma_century(y + 100);
    lemma_century(y + 200);
    lemma_century(y + 300);
    lemma_days_in_split(y, 100, 100);
    lemma_days_in_split(y, 200, 100);
    lemma_days_in_split(y, 300, 100);
    assert((y + 100) % 400 == 100);
    assert((y + 200) % 400 == 200);
    assert((y + 300) % 400 == 300);
    assert((y + 100) % 100 == 0);
    assert((y + 200) % 100 == 0);
    assert((y + 300) % 100 == 0);
}

/// Any 400 consecutive years hold 146097 days.
proof fn lemma_cycle(y: int)
    requires
        y >= 1600,
    ensures
        days_in(y, 400) == 146097,
    decreases y - 1600,
{
    if y == 1600 {
        lemma_cycle_at(1600);
    } else {
        lemma_cycle(y - 1);
        lemma_days_in_split(y - 1, 1, 400);
        lemma_days_in_split(y - 1, 400, 1);
        reveal_with_fuel(days_in, 2);
        assert(is_leap(y - 1 + 400) == is_leap(y - 1)) by {
            assert((y - 1 + 400) % 4 == (y - 1) % 4);
            assert((y - 1 + 400) % 100 == (y - 1) % 100);
            assert((y - 1 + 400) % 400 == (y - 1) % 400);
        }
    }
}

/// Skipping `q` whole 400-year cycles from 1970.
proof fn lemma_skip_cycles(q: nat, d: nat)
    requires
        d >= 146097 * q,
    ensures
        civil_date(d) == date_from((1970 + 400 * q) as int, (d - 146097 * q) as nat),
    decreases q,
{
    if q > 0 {
        let p = (q - 1) as nat;
        lemma_skip_cycles(p, d);
        let y = (1970 + 400 * p) as int;
        let d1 = (d - 146097 * p) as nat;
        lemma_cycle(y);
        lemma_skip_years(y, 400, d1);
        assert(y + 400 == 1970 + 400 * q);
        assert(d1 - 146097 == d - 146097 * q);
    }
}


/// Executable form of [`is_leap`].
fn leap(y: u64) -> (r: bool)
    ensures
        r == is_leap(y as int),
{
    y % 4 == 0 && (y % 100 != 0 || y % 400 == 0)
}

/// Executable form of [`year_days`].
fn days_of_year(y: u64) -> (r: u64)
    ensures
        r == year_days(y as int),
{
    if leap(y) {
        366
    } else {
        365
    }
}

/// Executable form of [`month_days`].
fn days_of_month(y: u64, m: u64) -> (r: u64)
    ensures
        r == month_days(y as int, m as int),
{
    if m == 2 {
        if leap(y) {
            29
        } else {
            28
        }
    } else if m == 4 || m == 6 || m == 9 || m == 11 {
        30
    } else {
        31
    }
}

/// The civil date (year, month, day of month) `days` days after
/// 1970-01-01.
pub fn civil_from_days(days: u64) -> (r: (u64, u64, u64))
    ensures
        (r.0 as int, r.1 as int, r.2 as int) == civil_date(days as nat),
        1 <= r.1 <= 12,
        1 <= r.2 <= month_days(r.0 as int, r.1 as int),
{
    let q = days / 146097;
    let rem0 = days % 146097;
    assert(days == 146097 * q + rem0) by (nonlinear_arith)
        requires
            q == days / 146097,
            rem0 == days % 146097,
    ;
    assert(400 * q <= 400 * (days / 146097));
    assert(q <= 0xFFFF_FFFF_FFFF_FFFFu64 / 146097) by (nonlinear_arith)
        requires
            q == days / 146097,
            days <= 0xFFFF_FFFF_FFFF_FFFFu64,
    ;
    let y0: u64 = 1970 + 400 * q;
    proof {
        lemma_skip_cycles(q as nat, days as nat);
    }
    let mut y = y0;
    let mut rem = rem0;
    while rem >= days_of_year(y)
        invariant
            y0 == 1970 + 400 * q,
            q <= 0xFFFF_FFFF_FFFF_FFFFu64 / 146097,
            rem0 < 146097,
            y0 <= y,
            rem + 365 * (y - y0) <= rem0,
            date_from(y as int, rem as nat) == civil_date(days as nat),
        decreases rem,
    {
        let yd = days_of_year(y);
        proof {
            assert(date_from(y as int, rem as nat) == date_from(y + 1, (rem - yd) as nat));
        }
        rem = rem - yd;
        y = y + 1;
    }
    let mut m: u64 = 1;
    let ghost rem_year = rem;
    proof {
        assert(date_from(y as int, rem as nat) == date_in_month(y as int, 1, rem as int));
        reveal_with_fuel(month_prefix, 13);
    }
    while m < 12 && rem >= days_of_month(y, m)
        invariant
            1 <= m <= 12,
            date_in_month(y as int, m as int, rem as int) == civil_date(days as nat),
            rem_year < year_days(y as int),
            rem + month_prefix(y as int, m as int) == rem_year,
            month_prefix(y as int, 12) == year_days(y as int) - 31,
        decreases 12 - m,
    {
        proof {
            lemma_prefix_monotone(y as int, m + 1, 12);
        }
        rem = rem - days_of_month(y, m);
        m = m + 1;
    }
    proof {
        assert(date_in_month(y as int, m as int, rem as int) == (y as int, m as int, rem + 1));
        if m < 12 {
            assert(rem < month_days(y as int, m as int));
        }
    }
    (y, m, rem + 1)
}

proof fn lemma_prefix_monotone(y: int, a: int, b: int)
    requires
        a <= b,
    ensures
        month_prefix(y, a) <= month_prefix(y, b),
    decreases b - a,
{
    if a < b {
        lemma_prefix_monotone(y, a, b - 1);
    }
}

/// Days in the months of year `y` before month `m`.
pub open spec fn month_prefix(y: int, m: int) -> int
    decreases m,
{
    if m <= 1 {
        0
    } else {
        month_prefix(y, m - 1) + month_days(y, m - 1)
    }
}

/// Decimal digits of `n`, zero-padded on the left to at least `w` digits.
pub open spec fn padded(n: nat, w: nat) -> Seq<char> {
    let s = decimal(n);
    if s.len() >= w {
        s
    } else {
        Seq::new((w - s.len()) as nat, |i: int| '0') + s
    }
}

/// Append `padded(n, w)`.
fn push_padded(out: &mut String, n: u64, w: u64)
    ensures
        final(out)@ == old(out)@ + padded(n as nat, w as nat),
{
    let s = decimal_string(n);
    let len = chars_of(s.as_str()).len() as u64;
    let ghost start = out@;
    if len < w {
        let mut k: u64 = 0;
        while k < w - len
            invariant
                k <= w - len,
                out@ == start + Seq::new(k as nat, |i: int| '0'),
            decreases w - len - k,
        {
            push_char(out, '0');
            proof {
                assert(out@ =~= start + Seq::new((k + 1) as nat, |i: int| '0'));
            }
            k = k + 1;
        }
    }
    push_str(out, s.as_str());
    proof {
        if len < w {
            assert(out@ =~= start + (Seq::new((w - len) as nat, |i: int| '0') + s@));
        }
    }
}

/// The RFC 3339 UTC timestamp, with milliseconds, of `secs` seconds and
/// `millis` milliseconds after the epoch: `YYYY-MM-DDTHH:MM:SS.mmmZ`.
pub open spec fn timestamp_text(secs: nat, millis: nat) -> Seq<char> {
    let (y, m, d) = civil_date(secs / 86400);
    let t = secs % 86400;
    padded(y as nat, 4) + seq!['-'] + padded(m as nat, 2) + seq!['-'] + padded(d as nat, 2) + seq![
        'T',
    ] + padded(t / 3600, 2) + seq![':'] + padded(t % 3600 / 60, 2) + seq![':'] + padded(t % 60, 2)
        + seq!['.'] + padded(millis, 3) + seq!['Z']
}

/// Render the timestamp of a log entry (see [`timestamp_text`]).
pub fn rfc3339_utc(secs: u64, millis: u32) -> (r: String)
    ensures
        r@ == timestamp_text(secs as nat, millis as nat),
{
    let (y, m, d) = civil_from_days(secs / 86400);
    let t = secs % 86400;
    let mut out = String::new();
    push_padded(&mut out, y, 4);
    push_char(&mut out, '-');
    push_padded(&mut out, m, 2);
    push_char(&mut out, '-');
    push_padded(&mut out, d, 2);
    push_char(&mut out, 'T');
    push_padded(&mut out, t / 3600, 2);
    push_char(&mut out, ':');
    push_padded(&mut out, t % 3600 / 60, 2);
    push_char(&mut out, ':');
    push_padded(&mut out, t % 60, 2);
    push_char(&mut out, '.');
    push_padded(&mut out, millis as u64, 3);
    push_char(&mut out, 'Z');
    out
}
} // verus!
