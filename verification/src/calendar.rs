//! Proleptic Gregorian calendar arithmetic for UTC timestamps.

use vstd::prelude::*;
use crate::text::{
    lemma_lex_lt_irreflexive, lemma_lex_lt_middle, lemma_padded_len, lemma_padded_order, lex_lt,
    padded_decimal, pow10,
};

verus! {

/// Gregorian leap-year rule.
pub open spec fn is_leap(y: int) -> bool {
    (y % 4 == 0 && y % 100 != 0) || y % 400 == 0
}

/// Number of days of year `y`.
pub open spec fn year_days(y: int) -> int {
    if is_leap(y) { 366 } else { 365 }
}

/// Number of days from 1970-01-01 to the first day of year `y` (for `y >= 1970`).
pub open spec fn days_before_year(y: int) -> int
    decreases y - 1970,
{
    if y <= 1970 { 0 } else { days_before_year(y - 1) + year_days(y - 1) }
}

/// Number of days of month `m` (1-based) of year `y`.
pub open spec fn month_days(y: int, m: int) -> int {
    if m == 2 {
        if is_leap(y) { 29 } else { 28 }
    } else if m == 4 || m == 6 || m == 9 || m == 11 {
        30
    } else {
        31
    }
}

/// Number of days from the start of year `y` to the first day of month `m`.
pub open spec fn days_before_month(y: int, m: int) -> int
    decreases m,
{
    if m <= 1 { 0 } else { days_before_month(y, m - 1) + month_days(y, m - 1) }
}

/// Law: the Gregorian month lengths. April, June, September and November have 30 days,
/// February 29 in a leap year (every fourth year, except centuries not divisible by 400) and
/// 28 otherwise, and every other month 31; so the months start on these days of the year.
pub proof fn lemma_gregorian_months(y: int)
    ensures
        month_days(y, 1) == 31,
        month_days(y, 2) == (if y % 400 == 0 || (y % 4 == 0 && y % 100 != 0) { 29int } else { 28int }),
        month_days(y, 3) == 31,
        month_days(y, 4) == 30,
        month_days(y, 5) == 31,
        month_days(y, 6) == 30,
        month_days(y, 7) == 31,
        month_days(y, 8) == 31,
        month_days(y, 9) == 30,
        month_days(y, 10) == 31,
        month_days(y, 11) == 30,
        month_days(y, 12) == 31,
        ({
            let leap: int = if y % 400 == 0 || (y % 4 == 0 && y % 100 != 0) { 1 } else { 0 };
            &&& days_before_month(y, 1) == 0
            &&& days_before_month(y, 2) == 31
            &&& days_before_month(y, 3) == 59 + leap
            &&& days_before_month(y, 4) == 90 + leap
            &&& days_before_month(y, 5) == 120 + leap
            &&& days_before_month(y, 6) == 151 + leap
            &&& days_before_month(y, 7) == 181 + leap
            &&& days_before_month(y, 8) == 212 + leap
            &&& days_before_month(y, 9) == 243 + leap
            &&& days_before_month(y, 10) == 273 + leap
            &&& days_before_month(y, 11) == 304 + leap
            &&& days_before_month(y, 12) == 334 + leap
            &&& year_days(y) == 365 + leap
        }),
{
    reveal_with_fuel(days_before_month, 13);
}

/// Days since 1970-01-01 of the date `y`-`m`-`d`.
pub open spec fn days_from_civil(y: int, m: int, d: int) -> int {
    days_before_year(y) + days_before_month(y, m) + d - 1
}

/// A broken-down UTC date and time.
#[derive(Clone, Copy, Debug, PartialEq, Eq, Structural)]
pub struct UtcDateTime {
    pub year: u64,
    pub month: u64,
    pub day: u64,
    pub hour: u64,
    pub minute: u64,
    pub second: u64,
}

impl UtcDateTime {
    /// The fields are a valid calendar date and time of day, and they name the instant
    /// `t` seconds after 1970-01-01 00:00:00 UTC.
    pub open spec fn is_utc_of(self, t: u64) -> bool {
        let tod = t % 86400;
        &&& self.hour == tod / 3600
        &&& self.minute == (tod % 3600) / 60
        &&& self.second == tod % 60
        &&& self.year >= 1970
        &&& 1 <= self.month <= 12
        &&& 1 <= self.day <= month_days(self.year as int, self.month as int)
        &&& days_from_civil(self.year as int, self.month as int, self.day as int) == t / 86400
    }
}

/// The UTC date and time of the instant `t` seconds after the epoch.
pub open spec fn utc_of(t: u64) -> UtcDateTime {
    choose|dt: UtcDateTime| dt.is_utc_of(t)
}

/// The rendering `YYYY-MM-DD HH:MM:SS UTC` (each field zero-padded, the year to four digits).
pub open spec fn timestamp_text(dt: UtcDateTime) -> Seq<char> {
    padded_decimal(dt.year as nat, 4) + seq!['-'] + padded_decimal(dt.month as nat, 2) + seq!['-']
        + padded_decimal(dt.day as nat, 2) + seq![' '] + padded_decimal(dt.hour as nat, 2)
        + seq![':'] + padded_decimal(dt.minute as nat, 2) + seq![':']
        + padded_decimal(dt.second as nat, 2) + seq![' ', 'U', 'T', 'C']
}

/// The days before a later year include the whole of every earlier year.
proof fn lemma_days_before_year_mono(y1: int, y2: int)
    requires
        1970 <= y1 < y2,
    ensures
        days_before_year(y1) + year_days(y1) <= days_before_year(y2),
    decreases y2 - y1,
{
    if y2 > y1 + 1 {
        lemma_days_before_year_mono(y1, y2 - 1);
    }
}

proof fn lemma_days_before_year_lower(y: int)
    requires
        y >= 1970,
    ensures
        days_before_year(y) >= 365 * (y - 1970),
    decreases y - 1970,
{
    if y > 1970 {
        lemma_days_before_year_lower(y - 1);
    }
}

/// The days before a later month include the whole of every earlier month.
proof fn lemma_days_before_month_mono(y: int, m1: int, m2: int)
    requires
        1 <= m1 < m2,
    ensures
        days_before_month(y, m1) + month_days(y, m1) <= days_before_month(y, m2),
    decreases m2 - m1,
{
    if m2 > m1 + 1 {
        lemma_days_before_month_mono(y, m1, m2 - 1);
    }
}

/// The twelve months make up the year.
proof fn lemma_months_fill_year(y: int)
    ensures
        days_before_month(y, 13) == year_days(y),
        days_before_month(y, 12) + month_days(y, 12) == year_days(y),
{
    reveal_with_fuel(days_before_month, 13);
}

proof fn lemma_day_within_year(y: int, m: int, d: int)
    requires
        1 <= m <= 12,
        1 <= d <= month_days(y, m),
    ensures
        0 <= days_before_month(y, m) + d - 1 < year_days(y),
{
    lemma_months_fill_year(y);
    if m < 12 {
        lemma_days_before_month_mono(y, m, 13);
    }
    lemma_days_before_month_nonneg(y, m);
}

proof fn lemma_days_before_month_nonneg(y: int, m: int)
    ensures
        days_before_month(y, m) >= 0,
    decreases m,
{
    if m > 1 {
        lemma_days_before_month_nonneg(y, m - 1);
    }
}

/// A day count names at most one calendar date and time: the broken-down form of a
/// timestamp is unique.
pub proof fn lemma_utc_unique(a: UtcDateTime, b: UtcDateTime, t: u64)
    requires
        a.is_utc_of(t),
        b.is_utc_of(t),
    ensures
        a == b,
{
    let (ya, yb) = (a.year as int, b.year as int);
    let (ma, mb) = (a.month as int, b.month as int);
    lemma_day_within_year(ya, ma, a.day as int);
    lemma_day_within_year(yb, mb, b.day as int);
    if ya < yb {
        lemma_days_before_year_mono(ya, yb);
    } else if yb < ya {
        lemma_days_before_year_mono(yb, ya);
    }
    assert(ya == yb);
    if ma < mb {
        lemma_days_before_month_mono(ya, ma, mb);
    } else if mb < ma {
        lemma_days_before_month_mono(ya, mb, ma);
    }
    assert(ma == mb);
}

/// Every timestamp has a broken-down form, and `utc_of` is it.
pub proof fn lemma_utc_of_spec(dt: UtcDateTime, t: u64)
    requires
        dt.is_utc_of(t),
    ensures
        utc_of(t) == dt,
        utc_of(t).is_utc_of(t),
{
    lemma_utc_unique(utc_of(t), dt, t);
}

/// The year reached by counting `d` days from the start of year `y`, and the day within it.
spec fn year_split(y: int, d: nat) -> (int, nat)
    decreases d,
{
    if d < year_days(y) {
        (y, d)
    } else {
        year_split(y + 1, (d - year_days(y)) as nat)
    }
}

proof fn lemma_year_split(y: int, d: nat)
    requires
        y >= 1970,
    ensures
        ({
            let (y2, r) = year_split(y, d);
            &&& y2 >= y
            &&& days_before_year(y2) + r == days_before_year(y) + d
            &&& r < year_days(y2)
            &&& 365 * (y2 - y) <= d
        }),
    decreases d,
{
    if d >= year_days(y) {
        lemma_year_split(y + 1, (d - year_days(y)) as nat);
    }
}

/// The month reached by counting `r` days from the start of month `m` of year `y`, and the
/// day within it.
spec fn month_split(y: int, m: int, r: nat) -> (int, nat)
    decreases 12 - m,
{
    if m >= 12 || r < month_days(y, m) {
        (m, r)
    } else {
        month_split(y, m + 1, (r - month_days(y, m)) as nat)
    }
}

proof fn lemma_month_split(y: int, m: int, r: nat)
    requires
        1 <= m <= 12,
        days_before_month(y, m) + r < year_days(y),
    ensures
        ({
            let (m2, r2) = month_split(y, m, r);
            &&& m <= m2 <= 12
            &&& days_before_month(y, m2) + r2 == days_before_month(y, m) + r
            &&& r2 < month_days(y, m2)
        }),
    decreases 12 - m,
{
    lemma_months_fill_year(y);
    if m < 12 && r >= month_days(y, m) {
        lemma_month_split(y, m + 1, (r - month_days(y, m)) as nat);
    }
}

/// Every timestamp has a broken-down form, and `utc_of` gives it.
pub proof fn lemma_utc_of_valid(t: u64)
    ensures
        utc_of(t).is_utc_of(t),
{
    let days = (t / 86400) as nat;
    lemma_year_split(1970, days);
    let (y, r) = year_split(1970, days);
    lemma_month_split(y, 1, r);
    let (m, r2) = month_split(y, 1, r);
    let tod = t % 86400;
    let dt = UtcDateTime {
        year: y as u64,
        month: m as u64,
        day: (r2 + 1) as u64,
        hour: tod / 3600,
        minute: (tod % 3600) / 60,
        second: tod % 60,
    };
    assert(dt.is_utc_of(t));
    lemma_utc_of_spec(dt, t);
}

/// Of two valid dates, the one with the smaller day count comes first in (year, month, day)
/// order.
proof fn lemma_date_order(y1: int, m1: int, d1: int, y2: int, m2: int, d2: int)
    requires
        y1 >= 1970,
        y2 >= 1970,
        1 <= m1 <= 12,
        1 <= m2 <= 12,
        1 <= d1 <= month_days(y1, m1),
        1 <= d2 <= month_days(y2, m2),
        days_from_civil(y1, m1, d1) < days_from_civil(y2, m2, d2),
    ensures
        y1 < y2 || (y1 == y2 && (m1 < m2 || (m1 == m2 && d1 < d2))),
{
    lemma_day_within_year(y1, m1, d1);
    lemma_day_within_year(y2, m2, d2);
    if y2 < y1 {
        lemma_days_before_year_mono(y2, y1);
    }
    if y1 == y2 && m2 < m1 {
        lemma_days_before_month_mono(y1, m2, m1);
    }
}

/// The time of day orders as (hour, minute, second).
proof fn lemma_time_of_day_order(a: u64, b: u64)
    requires
        a < b < 86400,
    ensures
        ({
            let (ha, ma, sa) = (a / 3600, (a % 3600) / 60, a % 60);
            let (hb, mb, sb) = (b / 3600, (b % 3600) / 60, b % 60);
            ha < hb || (ha == hb && (ma < mb || (ma == mb && sa < sb)))
        }),
{
    lemma_time_of_day_split(a);
    lemma_time_of_day_split(b);
}

proof fn lemma_time_of_day_split(x: u64)
    requires
        x < 86400,
    ensures
        x == 3600 * (x / 3600) + 60 * ((x % 3600) / 60) + x % 60,
        x / 3600 < 24,
        (x % 3600) / 60 < 60,
        x % 60 < 60,
{
    let h = x / 3600;
    let r = x % 3600;
    assert(x == 3600 * h + r && r < 3600) by (nonlinear_arith)
        requires h == x / 3600, r == x % 3600;
    let mi = r / 60;
    assert(r == 60 * mi + r % 60 && r % 60 < 60 && mi < 60) by (nonlinear_arith)
        requires mi == r / 60, r < 3600;
    assert(x % 60 == r % 60) by (nonlinear_arith)
        requires x == 3600 * h + r, r < 3600;
    assert(h < 24) by (nonlinear_arith)
        requires x == 3600 * h + r, x < 86400, r >= 0;
}

/// The number of leap-day corrections up to year `x` in closed form.
spec fn leap_count(x: int) -> int {
    x / 4 - x / 100 + x / 400
}

proof fn lemma_leap_count_step(y: int)
    requires
        y >= 1970,
    ensures
        leap_count(y) - leap_count(y - 1) == if is_leap(y) { 1int } else { 0int },
{
    assert((y / 4 - (y - 1) / 4) == (if y % 4 == 0 { 1int } else { 0int })) by (nonlinear_arith)
        requires y >= 1;
    assert((y / 100 - (y - 1) / 100) == (if y % 100 == 0 { 1int } else { 0int })) by (nonlinear_arith)
        requires y >= 1;
    assert((y / 400 - (y - 1) / 400) == (if y % 400 == 0 { 1int } else { 0int })) by (nonlinear_arith)
        requires y >= 1;
    assert(y % 400 == 0 ==> y % 100 == 0) by (nonlinear_arith)
        requires y >= 1;
    assert(y % 100 == 0 ==> y % 4 == 0) by (nonlinear_arith)
        requires y >= 1;
}

/// Days before a year in closed form.
proof fn lemma_days_before_year_closed(y: int)
    requires
        y >= 1970,
    ensures
        days_before_year(y) == 365 * (y - 1970) + leap_count(y - 1) - leap_count(1969),
    decreases y - 1970,
{
    if y > 1970 {
        lemma_days_before_year_closed(y - 1);
        lemma_leap_count_step(y - 1);
    }
}

/// Timestamps before 253402300800 (the start of year 10000) fall in years of four digits.
proof fn lemma_year_below_10000(dt: UtcDateTime, t: u64)
    requires
        dt.is_utc_of(t),
        t < 253402300800,
    ensures
        dt.year < 10000,
{
    lemma_days_before_year_closed(10000);
    assert(days_before_year(10000) == 2932897);
    lemma_day_within_year(dt.year as int, dt.month as int, dt.day as int);
    if dt.year > 10000 {
        lemma_days_before_year_mono(10000, dt.year as int);
    }
    if dt.year >= 10000 {
        assert(t / 86400 >= 2932897);
        assert(t >= 253402300800) by (nonlinear_arith)
            requires t / 86400 >= 2932897;
    }
}


/// The text after the minutes field.
spec fn tail_after_minute(dt: UtcDateTime) -> Seq<char> {
    seq![':'] + padded_decimal(dt.second as nat, 2) + seq![' ', 'U', 'T', 'C']
}

/// The text after the hours field.
spec fn tail_after_hour(dt: UtcDateTime) -> Seq<char> {
    seq![':'] + padded_decimal(dt.minute as nat, 2) + tail_after_minute(dt)
}

/// The text after the day field.
spec fn tail_after_day(dt: UtcDateTime) -> Seq<char> {
    seq![' '] + padded_decimal(dt.hour as nat, 2) + tail_after_hour(dt)
}

/// The text after the month field.
spec fn tail_after_month(dt: UtcDateTime) -> Seq<char> {
    seq!['-'] + padded_decimal(dt.day as nat, 2) + tail_after_day(dt)
}

/// The text after the year field.
spec fn tail_after_year(dt: UtcDateTime) -> Seq<char> {
    seq!['-'] + padded_decimal(dt.month as nat, 2) + tail_after_month(dt)
}

proof fn lemma_text_pieces(dt: UtcDateTime)
    ensures
        timestamp_text(dt) == seq![] + padded_decimal(dt.year as nat, 4) + tail_after_year(dt),
        timestamp_text(dt) == (padded_decimal(dt.year as nat, 4) + seq!['-']) + padded_decimal(dt.month as nat, 2)
            + tail_after_month(dt),
        timestamp_text(dt) == (padded_decimal(dt.year as nat, 4) + seq!['-'] + padded_decimal(dt.month as nat, 2)
            + seq!['-']) + padded_decimal(dt.day as nat, 2) + tail_after_day(dt),
        timestamp_text(dt) == (padded_decimal(dt.year as nat, 4) + seq!['-'] + padded_decimal(dt.month as nat, 2)
            + seq!['-'] + padded_decimal(dt.day as nat, 2) + seq![' ']) + padded_decimal(dt.hour as nat, 2)
            + tail_after_hour(dt),
        timestamp_text(dt) == (padded_decimal(dt.year as nat, 4) + seq!['-'] + padded_decimal(dt.month as nat, 2)
            + seq!['-'] + padded_decimal(dt.day as nat, 2) + seq![' '] + padded_decimal(dt.hour as nat, 2)
            + seq![':']) + padded_decimal(dt.minute as nat, 2) + tail_after_minute(dt),
        timestamp_text(dt) == (padded_decimal(dt.year as nat, 4) + seq!['-'] + padded_decimal(dt.month as nat, 2)
            + seq!['-'] + padded_decimal(dt.day as nat, 2) + seq![' '] + padded_decimal(dt.hour as nat, 2)
            + seq![':'] + padded_decimal(dt.minute as nat, 2) + seq![':']) + padded_decimal(dt.second as nat, 2)
            + seq![' ', 'U', 'T', 'C'],
{
    let y = padded_decimal(dt.year as nat, 4);
    let mo = padded_decimal(dt.month as nat, 2);
    let d = padded_decimal(dt.day as nat, 2);
    let h = padded_decimal(dt.hour as nat, 2);
    let mi = padded_decimal(dt.minute as nat, 2);
    let sec = padded_decimal(dt.second as nat, 2);
    let utc = seq![' ', 'U', 'T', 'C'];
    let p1 = y + seq!['-'];
    let p2 = p1 + mo + seq!['-'];
    let p3 = p2 + d + seq![' '];
    let p4 = p3 + h + seq![':'];
    lemma_assoc4(p4 + mi, seq![':'], sec, utc);
    lemma_assoc4(p3 + h, seq![':'], mi, tail_after_minute(dt));
    lemma_assoc4(p2 + d, seq![' '], h, tail_after_hour(dt));
    lemma_assoc4(p1 + mo, seq!['-'], d, tail_after_day(dt));
    lemma_assoc4(y, seq!['-'], mo, tail_after_month(dt));
    assert(seq![] + y =~= y);
}

proof fn lemma_assoc4(a: Seq<char>, b: Seq<char>, c: Seq<char>, d: Seq<char>)
    ensures
        a + b + c + d == a + (b + c + d),
{
    assert(a + b + c + d =~= a + (b + c + d));
}

/// Two breakdowns with the same day count have the same date.
proof fn lemma_same_day_same_date(a: UtcDateTime, b: UtcDateTime)
    requires
        a.year >= 1970,
        b.year >= 1970,
        1 <= a.month <= 12,
        1 <= b.month <= 12,
        1 <= a.day <= month_days(a.year as int, a.month as int),
        1 <= b.day <= month_days(b.year as int, b.month as int),
        days_from_civil(a.year as int, a.month as int, a.day as int)
            == days_from_civil(b.year as int, b.month as int, b.day as int),
    ensures
        a.year == b.year && a.month == b.month && a.day == b.day,
{
    let (ya, yb) = (a.year as int, b.year as int);
    let (ma, mb) = (a.month as int, b.month as int);
    lemma_day_within_year(ya, ma, a.day as int);
    lemma_day_within_year(yb, mb, b.day as int);
    if ya < yb {
        lemma_days_before_year_mono(ya, yb);
    } else if yb < ya {
        lemma_days_before_year_mono(yb, ya);
    }
    if ma < mb {
        lemma_days_before_month_mono(ya, ma, mb);
    } else if mb < ma {
        lemma_days_before_month_mono(ya, mb, ma);
    }
}

/// Law: up to the start of year 10000, the text of an earlier timestamp comes strictly before
/// the text of a later one in lexicographic order, so the texts of two timestamps are equal
/// only when the timestamps are.
pub proof fn lemma_timestamp_text_order(a: u64, b: u64)
    requires
        a < b,
        b < 253402300800,
    ensures
        lex_lt(timestamp_text(utc_of(a)), timestamp_text(utc_of(b))),
        timestamp_text(utc_of(a)) != timestamp_text(utc_of(b)),
{
    lemma_utc_of_valid(a);
    lemma_utc_of_valid(b);
    let da = utc_of(a);
    let db = utc_of(b);
    lemma_year_below_10000(da, a);
    lemma_year_below_10000(db, b);
    assert(pow10(4) == 10000) by { reveal_with_fuel(pow10, 5); }
    assert(pow10(2) == 100) by { reveal_with_fuel(pow10, 3); }
    lemma_time_of_day_split(a % 86400);
    lemma_time_of_day_split(b % 86400);
    lemma_padded_len(da.year as nat, 4);
    lemma_padded_len(db.year as nat, 4);
    lemma_padded_len(da.month as nat, 2);
    lemma_padded_len(db.month as nat, 2);
    lemma_padded_len(da.day as nat, 2);
    lemma_padded_len(db.day as nat, 2);
    lemma_padded_len(da.hour as nat, 2);
    lemma_padded_len(db.hour as nat, 2);
    lemma_padded_len(da.minute as nat, 2);
    lemma_padded_len(db.minute as nat, 2);
    lemma_padded_len(da.second as nat, 2);
    lemma_padded_len(db.second as nat, 2);
    lemma_text_pieces(da);
    lemma_text_pieces(db);
    let same_date = da.year == db.year && da.month == db.month && da.day == db.day;
    if a / 86400 < b / 86400 {
        lemma_date_order(
            da.year as int, da.month as int, da.day as int,
            db.year as int, db.month as int, db.day as int,
        );
        assert(!same_date);
    } else {
        assert(a / 86400 == b / 86400);
        lemma_same_day_same_date(da, db);
        assert(a % 86400 < b % 86400) by (nonlinear_arith)
            requires a < b, a / 86400 == b / 86400;
        lemma_time_of_day_order(a % 86400, b % 86400);
    }
    if da.year < db.year {
        lemma_padded_order(da.year as nat, db.year as nat, 4);
        lemma_lex_lt_middle(seq![], padded_decimal(da.year as nat, 4), padded_decimal(db.year as nat, 4),
            tail_after_year(da), tail_after_year(db));
    } else if da.month < db.month {
        lemma_padded_order(da.month as nat, db.month as nat, 2);
        lemma_lex_lt_middle(padded_decimal(da.year as nat, 4) + seq!['-'],
            padded_decimal(da.month as nat, 2), padded_decimal(db.month as nat, 2),
            tail_after_month(da), tail_after_month(db));
    } else if da.day < db.day {
        lemma_padded_order(da.day as nat, db.day as nat, 2);
        lemma_lex_lt_middle(padded_decimal(da.year as nat, 4) + seq!['-'] + padded_decimal(da.month as nat, 2)
            + seq!['-'],
            padded_decimal(da.day as nat, 2), padded_decimal(db.day as nat, 2),
            tail_after_day(da), tail_after_day(db));
    } else if da.hour < db.hour {
        lemma_padded_order(da.hour as nat, db.hour as nat, 2);
        lemma_lex_lt_middle(padded_decimal(da.year as nat, 4) + seq!['-'] + padded_decimal(da.month as nat, 2)
            + seq!['-'] + padded_decimal(da.day as nat, 2) + seq![' '],
            padded_decimal(da.hour as nat, 2), padded_decimal(db.hour as nat, 2),
            tail_after_hour(da), tail_after_hour(db));
    } else if da.minute < db.minute {
        lemma_padded_order(da.minute as nat, db.minute as nat, 2);
        lemma_lex_lt_middle(padded_decimal(da.year as nat, 4) + seq!['-'] + padded_decimal(da.month as nat, 2)
            + seq!['-'] + padded_decimal(da.day as nat, 2) + seq![' '] + padded_decimal(da.hour as nat, 2)
            + seq![':'],
            padded_decimal(da.minute as nat, 2), padded_decimal(db.minute as nat, 2),
            tail_after_minute(da), tail_after_minute(db));
    } else {
        lemma_padded_order(da.second as nat, db.second as nat, 2);
        lemma_lex_lt_middle(padded_decimal(da.year as nat, 4) + seq!['-'] + padded_decimal(da.month as nat, 2)
            + seq!['-'] + padded_decimal(da.day as nat, 2) + seq![' '] + padded_decimal(da.hour as nat, 2)
            + seq![':'] + padded_decimal(da.minute as nat, 2) + seq![':'],
            padded_decimal(da.second as nat, 2), padded_decimal(db.second as nat, 2),
            seq![' ', 'U', 'T', 'C'], seq![' ', 'U', 'T', 'C']);
    }
    lemma_lex_lt_irreflexive(timestamp_text(da));
}

fn is_leap_year(y: u64) -> (b: bool)
    ensures
        b == is_leap(y as int),
{
    (y % 4 == 0 && y % 100 != 0) || y % 400 == 0
}

fn days_in_year(y: u64) -> (d: u64)
    ensures
        d == year_days(y as int),
{
    if is_leap_year(y) { 366 } else { 365 }
}

fn days_in_month(y: u64, m: u64) -> (d: u64)
    ensures
        d == month_days(y as int, m as int),
{
    if m == 2 {
        if is_leap_year(y) { 29 } else { 28 }
    } else if m == 4 || m == 6 || m == 9 || m == 11 {
        30
    } else {
        31
    }
}

/// Breaks a Unix timestamp (seconds since 1970-01-01 00:00:00 UTC) into its UTC date and time.
pub fn utc_from_unix(unix_secs: u64) -> (dt: UtcDateTime)
    ensures
        dt.is_utc_of(unix_secs),
        dt == utc_of(unix_secs),
{
    let days_since_epoch = unix_secs / 86400;
    let time_of_day = unix_secs % 86400;
    let hours = time_of_day / 3600;
    let minutes = (time_of_day % 3600) / 60;
    let seconds = time_of_day % 60;

    let mut year: u64 = 1970;
    let mut remaining_days: u64 = days_since_epoch;
    while remaining_days >= days_in_year(year)
        invariant
            year >= 1970,
            days_since_epoch == unix_secs / 86400,
            days_before_year(year as int) + remaining_days == days_since_epoch,
            365 * (year - 1970) <= days_since_epoch - remaining_days,
        decreases remaining_days,
    {
        let dy = days_in_year(year);
        remaining_days = remaining_days - dy;
        year = year + 1;
    }
    assert(remaining_days < year_days(year as int));

    let mut month: u64 = 1;
    let mut day: u64 = remaining_days + 1;
    while day > days_in_month(year, month)
        invariant
            1 <= month <= 12,
            day >= 1,
            remaining_days < year_days(year as int),
            days_before_month(year as int, month as int) + day - 1 == remaining_days,
        decreases 13 - month,
    {
        proof {
            lemma_months_fill_year(year as int);
            if month < 12 {
                lemma_days_before_month_mono(year as int, month as int, 12);
            }
            lemma_days_before_month_nonneg(year as int, month as int);
        }
        day = day - days_in_month(year, month);
        month = month + 1;
    }
    let dt = UtcDateTime { year, month, day, hour: hours, minute: minutes, second: seconds };
    proof {
        lemma_utc_of_spec(dt, unix_secs);
    }
    dt
}

} // verus!
