//! UTC calendar arithmetic and the `YYYY/MM/DD HH:MM:SS` rendering of
//! epoch milliseconds used for audit times and station clocks.
use vstd::prelude::*;

use crate::text::{decimal, push_decimal, push_two_digits, string_from_chars, two_digits};

verus! {

pub open spec fn is_leap(y: int) -> bool {
    (y % 4 == 0 && y % 100 != 0) || y % 400 == 0
}

pub open spec fn year_len(y: int) -> int {
    if is_leap(y) {
        366
    } else {
        365
    }
}

/// Days from 1970-01-01 to January 1st of year `y` (`y >= 1970`).
pub open spec fn days_before_year(y: int) -> int
    decreases y - 1970,
{
    if y <= 1970 {
        0
    } else {
        days_before_year(y - 1) + year_len(y - 1)
    }
}

pub open spec fn month_len(y: int, m: int) -> int {
    if m == 2 {
        if is_leap(y) {
            29
        } else {
            28
        }
    } else if m == 4 || m == 6 || m == 9 || m == 11 {
        30
    } else {
        31
    }
}

/// Days from January 1st to the first day of month `m` of year `y`.
pub open spec fn days_before_month(y: int, m: int) -> int
    decreases m,
{
    if m <= 1 {
        0
    } else {
        days_before_month(y, m - 1) + month_len(y, m - 1)
    }
}

/// A calendar date on or after 1970-01-01.
pub open spec fn valid_date(y: int, m: int, d: int) -> bool {
    &&& y >= 1970
    &&& 1 <= m <= 12
    &&& 1 <= d <= month_len(y, m)
}

/// Days from 1970-01-01 to the given date.
pub open spec fn civil_days(y: int, m: int, d: int) -> int {
    days_before_year(y) + days_before_month(y, m) + d - 1
}

pub const MS_PER_DAY: u64 = 86_400_000;

pub const MS_PER_HOUR: u64 = 3_600_000;

pub const MS_PER_MINUTE: u64 = 60_000;

pub const MS_PER_SECOND: u64 = 1000;

/// `ms` after the epoch, as UTC `YYYY/MM/DD HH:MM:SS` (the year has at
/// least four digits).
pub open spec fn epoch_text(ms: nat) -> Seq<char> {
    let days = ms / (MS_PER_DAY as nat);
    let (y, m, d) = choose|y: int, m: int, d: int|
        valid_date(y, m, d) && civil_days(y, m, d) == days;
    let t = ms % (MS_PER_DAY as nat);
    decimal(y as nat) + seq!['/'] + two_digits(m as nat) + seq!['/'] + two_digits(d as nat)
        + seq![' '] + clock_text(t)
}

/// The time-of-day part `HH:MM:SS` of `t` milliseconds into a day.
pub open spec fn clock_text(t: nat) -> Seq<char> {
    two_digits(t / (MS_PER_HOUR as nat)) + seq![':'] + two_digits(
        t % (MS_PER_HOUR as nat) / (MS_PER_MINUTE as nat),
    ) + seq![':'] + two_digits(t % (MS_PER_MINUTE as nat) / (MS_PER_SECOND as nat))
}

// ── Lemmas ─────────────────────────────────────────────────────────────────

proof fn lemma_month_table(y: int)
    ensures
        days_before_month(y, 13) == year_len(y),
        forall|m: int| 1 <= m <= 12 ==> days_before_month(y, m + 1) == days_before_month(y, m) + month_len(y, m),
        forall|m: int| 1 <= m <= 12 ==> #[trigger] month_len(y, m) >= 28,
        days_before_month(y, 1) == 0,
{
    reveal_with_fuel(days_before_month, 14);
}

/// Months before `m2` take at least as many days as those before `m1 <= m2`;
/// a valid day of month `m` falls before the start of month `m + 1`.
proof fn lemma_month_monotone(y: int, m1: int, m2: int)
    requires
        1 <= m1 <= m2 <= 13,
    ensures
        days_before_month(y, m1) + (if m1 < m2 { month_len(y, m1) } else { 0 }) <= days_before_month(y, m2),
    decreases m2 - m1,
{
    lemma_month_table(y);
    if m1 < m2 {
        lemma_month_monotone(y, m1 + 1, m2);
        if m1 + 1 < m2 {
            assert(month_len(y, m1 + 1) >= 28);
        }
    }
}

proof fn lemma_year_monotone(y1: int, y2: int)
    requires
        1970 <= y1 < y2,
    ensures
        days_before_year(y1) + year_len(y1) <= days_before_year(y2),
    decreases y2 - y1,
{
    if y1 + 1 < y2 {
        lemma_year_monotone(y1 + 1, y2);
    }
}

proof fn lemma_date_in_year(y: int, m: int, d: int)
    requires
        valid_date(y, m, d),
    ensures
        days_before_year(y) <= civil_days(y, m, d) < days_before_year(y) + year_len(y),
{
    lemma_month_table(y);
    lemma_month_monotone(y, m, 13);
}

/// Each day number belongs to at most one date.
pub proof fn lemma_civil_days_injective(y1: int, m1: int, d1: int, y2: int, m2: int, d2: int)
    requires
        valid_date(y1, m1, d1),
        valid_date(y2, m2, d2),
        civil_days(y1, m1, d1) == civil_days(y2, m2, d2),
    ensures
        y1 == y2 && m1 == m2 && d1 == d2,
{
    lemma_date_in_year(y1, m1, d1);
    lemma_date_in_year(y2, m2, d2);
    if y1 < y2 {
        lemma_year_monotone(y1, y2);
    }
    if y2 < y1 {
        lemma_year_monotone(y2, y1);
    }
    assert(y1 == y2);
    lemma_month_table(y1);
    if m1 < m2 {
        lemma_month_monotone(y1, m1, m2);
    }
    if m2 < m1 {
        lemma_month_monotone(y1, m2, m1);
    }
}

/// Leap years in `1 ..= n`.
spec fn leaps_upto(n: int) -> int {
    n / 4 - n / 100 + n / 400
}

proof fn lemma_leaps_step(y: int)
    ensures
        leaps_upto(y) - leaps_upto(y - 1) == (if is_leap(y) { 1int } else { 0int }),
{
    assert(y / 4 - (y - 1) / 4 == (if y % 4 == 0 { 1int } else { 0int }));
    assert(y / 100 - (y - 1) / 100 == (if y % 100 == 0 { 1int } else { 0int }));
    assert(y / 400 - (y - 1) / 400 == (if y % 400 == 0 { 1int } else { 0int }));
    if y % 100 == 0 {
        assert(y % 4 == 0);
    }
    if y % 400 == 0 {
        assert(y % 100 == 0);
    }
}

/// Days before a year in closed form.
proof fn lemma_days_before_year_closed(y: int)
    requires
        y >= 1970,
    ensures
        days_before_year(y) == 365 * (y - 1970) + leaps_upto(y - 1) - leaps_upto(1969),
    decreases y - 1970,
{
    if y > 1970 {
        lemma_days_before_year_closed(y - 1);
        lemma_leaps_step(y - 1);
    }
}

/// Four hundred consecutive years from 1970 on hold 146097 days.
proof fn lemma_four_centuries(y: int)
    requires
        y >= 1970,
    ensures
        days_before_year(y + 400) == days_before_year(y) + 146097,
{
    lemma_days_before_year_closed(y);
    lemma_days_before_year_closed(y + 400);
    let n = y - 1;
    assert((n + 400) / 4 == n / 4 + 100);
    assert((n + 400) / 100 == n / 100 + 4);
    assert((n + 400) / 400 == n / 400 + 1);
}

// ── Executable parts ───────────────────────────────────────────────────────

fn is_leap_exec(y: u64) -> (r: bool)
    ensures
        r == is_leap(y as int),
{
    (y % 4 == 0 && y % 100 != 0) || y % 400 == 0
}

fn year_len_exec(y: u64) -> (r: u64)
    ensures
        r == year_len(y as int),
{
    if is_leap_exec(y) {
        366
    } else {
        365
    }
}

fn month_len_exec(y: u64, m: u64) -> (r: u64)
    ensures
        r == month_len(y as int, m as int),
{
    if m == 2 {
        if is_leap_exec(y) {
            29
        } else {
            28
        }
    } else if m == 4 || m == 6 || m == 9 || m == 11 {
        30
    } else {
        31
    }
}

/// The calendar date of day number `days` (days since 1970-01-01).
pub fn civil_from_days(days: u64) -> (r: (u64, u64, u64))
    ensures
        valid_date(r.0 as int, r.1 as int, r.2 as int),
        civil_days(r.0 as int, r.1 as int, r.2 as int) == days,
{
    let mut y: u64 = 1970;
    let mut rem: u64 = days;
    while rem >= 146097
        invariant
            1970 <= y,
            365 * (y - 1970) <= days - rem,
            rem <= days,
            days_before_year(y as int) + rem == days,
        decreases rem,
    {
        proof {
            lemma_four_centuries(y as int);
        }
        rem = rem - 146097;
        y = y + 400;
    }
    loop
        invariant
            1970 <= y,
            365 * (y - 1970) <= days - rem,
            rem <= days,
            days_before_year(y as int) + rem == days,
        ensures
            1970 <= y,
            days_before_year(y as int) + rem == days,
            rem < year_len(y as int),
        decreases rem,
    {
        let yl = year_len_exec(y);
        if rem < yl {
            break;
        }
        rem = rem - yl;
        y = y + 1;
    }
    proof {
        lemma_month_table(y as int);
    }
    let mut m: u64 = 1;
    loop
        invariant
            1 <= m <= 12,
            days_before_month(y as int, m as int) + rem < year_len(y as int),
            days_before_year(y as int) + days_before_month(y as int, m as int) + rem == days,
            days_before_month(y as int, 13) == year_len(y as int),
            forall|k: int|
                1 <= k <= 12 ==> days_before_month(y as int, k + 1) == days_before_month(y as int, k)
                    + month_len(y as int, k),
        ensures
            1 <= m <= 12,
            rem < month_len(y as int, m as int),
            days_before_year(y as int) + days_before_month(y as int, m as int) + rem == days,
        decreases 12 - m,
    {
        let ml = month_len_exec(y, m);
        if rem < ml {
            break;
        }
        if m == 12 {
            assert(false);
        }
        rem = rem - ml;
        m = m + 1;
    }
    (y, m, rem + 1)
}

// ── Date and time to the minute ────────────────────────────────────────────

/// A UTC date and time to the minute, as the range pickers give it.
#[derive(Clone, Copy, Debug, PartialEq, Eq, Structural)]
pub struct DateTimeValue {
    pub year: u16,
    pub month: u8,
    pub day: u8,
    pub hour: u8,
    pub minute: u8,
}

/// A real calendar date on or after 1970, with an hour and a minute of the day.
pub open spec fn valid_datetime(v: DateTimeValue) -> bool {
    &&& valid_date(v.year as int, v.month as int, v.day as int)
    &&& v.hour < 24
    &&& v.minute < 60
}

/// Milliseconds from the epoch to the start of that minute.
pub open spec fn datetime_ms(v: DateTimeValue) -> int {
    civil_days(v.year as int, v.month as int, v.day as int) * (MS_PER_DAY as int) + v.hour
        * (MS_PER_HOUR as int) + v.minute * (MS_PER_MINUTE as int)
}

proof fn lemma_days_before_year_bounds(y: int)
    requires
        y >= 1970,
    ensures
        365 * (y - 1970) <= days_before_year(y) <= 366 * (y - 1970),
    decreases y - 1970,
{
    if y > 1970 {
        lemma_days_before_year_bounds(y - 1);
    }
}

fn days_before_year_exec(y: u64) -> (r: u64)
    requires
        1970 <= y <= 65535,
    ensures
        r == days_before_year(y as int),
{
    let mut k: u64 = 1970;
    let mut acc: u64 = 0;
    while k < y
        invariant
            1970 <= k <= y <= 65535,
            acc == days_before_year(k as int),
            acc <= 366 * (k - 1970),
        decreases y - k,
    {
        acc = acc + year_len_exec(k);
        k = k + 1;
    }
    acc
}

fn days_before_month_exec(y: u64, m: u64) -> (r: u64)
    requires
        1 <= m <= 12,
    ensures
        r == days_before_month(y as int, m as int),
{
    proof {
        lemma_month_table(y as int);
    }
    let mut k: u64 = 1;
    let mut acc: u64 = 0;
    while k < m
        invariant
            1 <= k <= m <= 12,
            acc == days_before_month(y as int, k as int),
            acc <= 31 * (k - 1),
            forall|j: int|
                1 <= j <= 12 ==> days_before_month(y as int, j + 1) == days_before_month(y as int, j)
                    + month_len(y as int, j),
        decreases m - k,
    {
        acc = acc + month_len_exec(y, k);
        k = k + 1;
    }
    acc
}

/// Milliseconds from the epoch to the start of the given minute.
pub fn datetime_to_epoch_ms(v: DateTimeValue) -> (ms: u64)
    requires
        valid_datetime(v),
    ensures
        ms == datetime_ms(v),
{
    let y = v.year as u64;
    let dy = days_before_year_exec(y);
    let dm = days_before_month_exec(y, v.month as u64);
    proof {
        lemma_days_before_year_bounds(y as int);
        lemma_month_table(y as int);
        lemma_month_monotone(y as int, v.month as int, 13);
    }
    let days: u64 = dy + dm + (v.day as u64) - 1;
    assert(days <= 30_000_000);
    assert(days * 86_400_000 <= 30_000_000 * 86_400_000) by (nonlinear_arith)
        requires
            days <= 30_000_000,
    ;
    days * MS_PER_DAY + (v.hour as u64) * MS_PER_HOUR + (v.minute as u64) * MS_PER_MINUTE
}

/// The UTC rendering of a minute's start reads that date and minute, with
/// zero seconds.
pub proof fn lemma_datetime_renders_back(v: DateTimeValue)
    requires
        valid_datetime(v),
    ensures
        datetime_ms(v) >= 0,
        epoch_text(datetime_ms(v) as nat) == decimal(v.year as nat) + seq!['/'] + two_digits(
            v.month as nat,
        ) + seq!['/'] + two_digits(v.day as nat) + seq![' '] + two_digits(v.hour as nat) + seq![
            ':',
        ] + two_digits(v.minute as nat) + seq![':'] + two_digits(0),
{
    let (y, m, d) = (v.year as int, v.month as int, v.day as int);
    lemma_days_before_year_bounds(y);
    lemma_month_table(y);
    lemma_month_monotone(y, 1, m);
    let days = civil_days(y, m, d);
    assert(days >= 0);
    let r: int = v.hour * 3_600_000 + v.minute * 60_000;
    assert(0 <= r < 86_400_000) by (nonlinear_arith)
        requires
            r == v.hour * 3_600_000 + v.minute * 60_000,
            v.hour < 24,
            v.minute < 60,
    ;
    let ms = datetime_ms(v);
    assert(ms == days * 86_400_000 + r);
    vstd::arithmetic::div_mod::lemma_fundamental_div_mod_converse(ms, 86_400_000, days, r);
    assert(ms as nat / (MS_PER_DAY as nat) == days);
    assert(ms as nat % (MS_PER_DAY as nat) == r);
    let (y2, m2, d2) = choose|y2: int, m2: int, d2: int|
        valid_date(y2, m2, d2) && civil_days(y2, m2, d2) == days;
    assert(valid_date(y, m, d) && civil_days(y, m, d) == days);
    lemma_civil_days_injective(y, m, d, y2, m2, d2);
    let rem_h: int = v.minute * 60_000;
    assert(0 <= rem_h < 3_600_000) by (nonlinear_arith)
        requires
            rem_h == v.minute * 60_000,
            v.minute < 60,
    ;
    vstd::arithmetic::div_mod::lemma_fundamental_div_mod_converse(r, 3_600_000, v.hour as int, rem_h);
    vstd::arithmetic::div_mod::lemma_fundamental_div_mod_converse(rem_h, 60_000, v.minute as int, 0);
    assert(r == (v.hour * 60 + v.minute) * 60_000);
    vstd::arithmetic::div_mod::lemma_fundamental_div_mod_converse(r, 60_000, v.hour * 60 + v.minute, 0);
    assert(clock_text(r as nat) == two_digits(v.hour as nat) + seq![':'] + two_digits(
        v.minute as nat,
    ) + seq![':'] + two_digits(0));
}

/// Appends `HH:MM:SS` for `t` milliseconds into a day.
pub fn push_clock(v: &mut Vec<char>, t: u64)
    requires
        t < MS_PER_DAY,
    ensures
        final(v)@ == old(v)@ + clock_text(t as nat),
{
    push_two_digits(v, t / MS_PER_HOUR);
    v.push(':');
    push_two_digits(v, t % MS_PER_HOUR / MS_PER_MINUTE);
    v.push(':');
    push_two_digits(v, t % MS_PER_MINUTE / MS_PER_SECOND);
}

/// Appends the UTC rendering of `ms`.
pub fn push_epoch(v: &mut Vec<char>, ms: u64)
    ensures
        final(v)@ == old(v)@ + epoch_text(ms as nat),
{
    let days = ms / MS_PER_DAY;
    let (y, m, d) = civil_from_days(days);
    proof {
        let (y2, m2, d2) = choose|y: int, m: int, d: int|
            valid_date(y, m, d) && civil_days(y, m, d) == days;
        lemma_civil_days_injective(y as int, m as int, d as int, y2, m2, d2);
    }
    push_decimal(v, y);
    v.push('/');
    push_two_digits(v, m);
    v.push('/');
    push_two_digits(v, d);
    v.push(' ');
    push_clock(v, ms % MS_PER_DAY);
}

/// `ms` after the epoch as UTC `YYYY/MM/DD HH:MM:SS`.
pub fn format_epoch_ms_utc(ms: u64) -> (r: String)
    ensures
        r@ == epoch_text(ms as nat),
{
    let mut v: Vec<char> = Vec::new();
    push_epoch(&mut v, ms);
    string_from_chars(v)
}

} // verus!
