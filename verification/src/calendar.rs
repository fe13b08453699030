//! Calendar arithmetic and the display of instants.
//!
//! Instants are microseconds since the Unix epoch; days are counted from
//! 1970-01-01 in the proleptic Gregorian calendar.

use crate::text;
use vstd::arithmetic::div_mod::*;
use vstd::prelude::*;
use vstd::string::*;

verus! {

/// Microseconds in a day.
pub const DAY_MICROS: i64 = 86_400_000_000;

// ---------------------------------------------------------------------------
// The Gregorian calendar
// ---------------------------------------------------------------------------

/// Whether a year has a 29th of February.
pub open spec fn is_leap(y: int) -> bool {
    y % 4 == 0 && (y % 100 != 0 || y % 400 == 0)
}

/// The number of days of a month.
pub open spec fn month_length(y: int, m: int) -> int {
    if m == 2 {
        if is_leap(y) {
            29
        } else {
            28
        }
    } else if m == 4 || m == 6 || m == 9 || m == 11 {
        30
    } else {
        31
    }
}

/// The number of days of a year before its month `m`.
pub open spec fn days_before_month(y: int, m: int) -> int
    decreases m,
{
    if m <= 1 {
        0
    } else {
        days_before_month(y, m - 1) + month_length(y, m - 1)
    }
}

/// The number of days from 1970-01-01 to the first day of year `y`.
pub open spec fn days_before_year(y: int) -> int {
    365 * (y - 1970) + (y - 1) / 4 - (y - 1) / 100 + (y - 1) / 400 - 477
}

/// The day number of a date, counted from 1970-01-01. A day past the end of
/// its month counts on into the next.
pub open spec fn day_number(y: int, m: int, d: int) -> int {
    days_before_year(y) + days_before_month(y, m) + d - 1
}

/// Whether `y-m-d` is a date of the calendar.
pub open spec fn is_date(y: int, m: int, d: int) -> bool {
    1 <= m <= 12 && 1 <= d <= month_length(y, m)
}

/// Consecutive years differ by their number of days.
pub proof fn law_year_length(y: int)
    ensures
        days_before_year(y + 1) == days_before_year(y) + if is_leap(y) {
            366int
        } else {
            365
        },
{
}

/// The days before each month of a year.
proof fn lemma_days_before_month(y: int)
    ensures
        days_before_month(y, 1) == 0,
        days_before_month(y, 2) == 31,
        forall|m: int|
            3 <= m <= 12 ==> #[trigger] days_before_month(y, m) == (153 * (m - 3) + 2) / 5 + (
            if is_leap(y) {
                60int
            } else {
                59
            }),
{
    reveal_with_fuel(days_before_month, 13);
    assert forall|m: int| 3 <= m <= 12 implies #[trigger] days_before_month(y, m) == (153 * (m - 3)
        + 2) / 5 + (if is_leap(y) {
        60int
    } else {
        59
    }) by {
        assert(m == 3 || m == 4 || m == 5 || m == 6 || m == 7 || m == 8 || m == 9 || m == 10 || m
            == 11 || m == 12);
    }
}

/// The year of an era (four hundred years, starting on a 1st of March) in
/// which its day `doe` falls.
spec fn year_of_era(doe: int) -> int {
    (doe - doe / 1460 + doe / 36_524 - doe / 146_096) / 365
}

/// The first day of year `yoe` of an era.
spec fn era_year_start(yoe: int) -> int {
    365 * yoe + yoe / 4 - yoe / 100
}

proof fn lemma_year_of_era(doe: int)
    requires
        0 <= doe < 146_097,
    ensures
        0 <= year_of_era(doe) <= 399,
        era_year_start(year_of_era(doe)) <= doe,
        year_of_era(doe) < 399 ==> doe < era_year_start(year_of_era(doe) + 1),
        doe <= era_year_start(year_of_era(doe)) + 365,
{
}

/// The calendar repeats every four hundred years.
pub proof fn law_calendar_repeats(y: int, k: int)
    ensures
        days_before_year(y + 400 * k) == days_before_year(y) + 146_097 * k,
        is_leap(y + 400 * k) == is_leap(y),
{
    lemma_hoist_over_denominator(y - 1, 100 * k, 4);
    lemma_hoist_over_denominator(y - 1, 4 * k, 100);
    lemma_hoist_over_denominator(y - 1, k, 400);
    lemma_mod_multiples_vanish(100 * k, y, 4);
    lemma_mod_multiples_vanish(4 * k, y, 100);
    lemma_mod_multiples_vanish(k, y, 400);
}

/// Where the years of the first era, which start on a 1st of March, lie among
/// the calendar years.
proof fn lemma_first_era(yoe: int)
    requires
        0 <= yoe <= 399,
    ensures
        days_before_year(yoe) + (if is_leap(yoe) {
            60int
        } else {
            59
        }) == era_year_start(yoe) - 719_468,
        days_before_year(yoe + 1) == era_year_start(yoe) + 306 - 719_468,
        yoe < 399 ==> (is_leap(yoe + 1) <==> era_year_start(yoe + 1) - era_year_start(yoe) == 366),
        yoe == 399 ==> is_leap(yoe + 1),
{
}

/// The date on which day `doy` of year `yoe` of the first era falls.
proof fn lemma_first_era_date(yoe: int, doy: int, mp: int)
    requires
        0 <= yoe <= 399,
        0 <= doy <= 365,
        doy == 365 ==> is_leap(yoe + 1),
        mp == (5 * doy + 2) / 153,
    ensures
        0 <= mp <= 11,
        ({
            let m = if mp < 10 {
                mp + 3
            } else {
                mp - 9
            };
            let y = if m <= 2 {
                yoe + 1
            } else {
                yoe
            };
            let d = doy - (153 * mp + 2) / 5 + 1;
            &&& is_date(y, m, d)
            &&& day_number(y, m, d) == era_year_start(yoe) + doy - 719_468
        }),
{
    lemma_first_era(yoe);
    lemma_days_before_month(yoe);
    lemma_days_before_month(yoe + 1);
    assert(0 <= mp <= 11);
    assert(mp == 0 || mp == 1 || mp == 2 || mp == 3 || mp == 4 || mp == 5 || mp == 6 || mp == 7
        || mp == 8 || mp == 9 || mp == 10 || mp == 11);
}

/// The date of a day number, as `(year, month 1–12, day 1–31)`.
pub fn civil_from_days(z: i64) -> (r: (i64, i64, i64))
    requires
        z <= i64::MAX - 719_468,
    ensures
        is_date(r.0 as int, r.1 as int, r.2 as int),
        day_number(r.0 as int, r.1 as int, r.2 as int) == z,
{
    let shifted: i64 = z + 719_468;
    let mut era: i64 = shifted / 146_097;
    let mut doe: i64 = shifted % 146_097;
    if doe < 0 {
        era = era - 1;
        doe = doe + 146_097;
    }
    proof {
        lemma_year_of_era(doe as int);
    }
    let yoe: i64 = (doe - doe / 1460 + doe / 36_524 - doe / 146_096) / 365;
    let y: i64 = yoe + era * 400;
    let doy: i64 = doe - (365 * yoe + yoe / 4 - yoe / 100);
    let mp: i64 = (5 * doy + 2) / 153;
    proof {
        assert(yoe == year_of_era(doe as int));
        assert(doe == era_year_start(yoe as int) + doy);
        lemma_first_era(yoe as int);
        lemma_first_era_date(yoe as int, doy as int, mp as int);
        law_calendar_repeats(yoe as int, era as int);
        law_calendar_repeats(yoe + 1, era as int);
        lemma_same_months(yoe as int, y as int);
        lemma_same_months(yoe + 1, y + 1);
    }
    let d: i64 = doy - (153 * mp + 2) / 5 + 1;
    let m: i64 = if mp < 10 {
        mp + 3
    } else {
        mp - 9
    };
    let year: i64 = if m <= 2 {
        y + 1
    } else {
        y
    };
    (year, m, d)
}

/// Years that agree on leap days agree on their months.
proof fn lemma_same_months(x: int, y: int)
    requires
        is_leap(x) == is_leap(y),
    ensures
        forall|m: int| #[trigger] month_length(x, m) == month_length(y, m),
        forall|m: int|
            1 <= m <= 12 ==> #[trigger] days_before_month(x, m) == days_before_month(y, m),
{
    lemma_days_before_month(x);
    lemma_days_before_month(y);
}

/// Later years start later.
proof fn lemma_years_grow(y: int, k: nat)
    ensures
        days_before_year(y + k) >= days_before_year(y) + 365 * k,
    decreases k,
{
    if k > 0 {
        lemma_years_grow(y, (k - 1) as nat);
        law_year_length(y + k - 1);
    }
}

/// The days before a date in its year.
proof fn lemma_day_of_year(y: int, m: int, d: int)
    requires
        is_date(y, m, d),
    ensures
        0 <= days_before_month(y, m) + d - 1 < days_before_year(y + 1) - days_before_year(y),
        m < 12 ==> days_before_month(y, m) + d - 1 < days_before_month(y, m + 1),
{
    lemma_days_before_month(y);
    law_year_length(y);
    assert(m == 1 || m == 2 || m == 3 || m == 4 || m == 5 || m == 6 || m == 7 || m == 8 || m == 9
        || m == 10 || m == 11 || m == 12);
}

/// Within a year, later months start later.
proof fn lemma_months_grow(y: int, m: int, n: int)
    requires
        1 <= m < n <= 12,
    ensures
        days_before_month(y, m + 1) <= days_before_month(y, n),
{
    lemma_days_before_month(y);
}

/// A day number belongs to one date only.
pub proof fn law_date_unique(y: int, m: int, d: int, y2: int, m2: int, d2: int)
    requires
        is_date(y, m, d),
        is_date(y2, m2, d2),
        day_number(y, m, d) == day_number(y2, m2, d2),
    ensures
        y == y2,
        m == m2,
        d == d2,
{
    lemma_day_of_year(y, m, d);
    lemma_day_of_year(y2, m2, d2);
    if y < y2 {
        lemma_years_grow(y + 1, (y2 - y - 1) as nat);
    } else if y2 < y {
        lemma_years_grow(y2 + 1, (y - y2 - 1) as nat);
    } else if m < m2 {
        lemma_months_grow(y, m, m2);
    } else if m2 < m {
        lemma_months_grow(y, m2, m);
    }
}

/// Whether day number `z` is the date `t`.
pub open spec fn falls_on(z: int, t: (int, int, int)) -> bool {
    is_date(t.0, t.1, t.2) && day_number(t.0, t.1, t.2) == z
}

/// The date of a day number.
pub open spec fn date_of(z: int) -> (int, int, int) {
    choose|t: (int, int, int)| falls_on(z, t)
}

/// `date_of` gives the date, where there is one.
pub proof fn lemma_date_of(z: int, t: (int, int, int))
    requires
        falls_on(z, t),
    ensures
        date_of(z) == t,
{
    let c = date_of(z);
    assert(falls_on(z, c));
    law_date_unique(t.0, t.1, t.2, c.0, c.1, c.2);
}

// ---------------------------------------------------------------------------
// Display
// ---------------------------------------------------------------------------

/// The whole seconds of a number of microseconds, towards zero.
pub open spec fn whole_seconds(micros: int) -> int {
    if micros >= 0 {
        micros / 1_000_000
    } else {
        -((-micros) / 1_000_000)
    }
}

/// An instant as `YYYY-MM-DD HH:MM UTC`.
pub open spec fn instant_text(micros: int) -> Seq<char> {
    let secs = whole_seconds(micros);
    let t = date_of(secs / 86_400);
    let rem = secs % 86_400;
    text::decimal_width(t.0, 4) + "-"@ + text::decimal_width(t.1, 2) + "-"@ + text::decimal_width(
        t.2,
        2,
    ) + " "@ + text::decimal_width(rem / 3600, 2) + ":"@ + text::decimal_width(
        rem % 3600 / 60,
        2,
    ) + " UTC"@
}

/// Formats an instant (Unix microseconds) as `YYYY-MM-DD HH:MM UTC`.
pub fn format_ts(micros: i64) -> (r: String)
    ensures
        r@ == instant_text(micros as int),
{
    let secs: i64 = micros / 1_000_000;
    let mut days: i64 = secs / 86_400;
    let mut rem: i64 = secs % 86_400;
    if rem < 0 {
        days = days - 1;
        rem = rem + 86_400;
    }
    proof {
        assert(secs == whole_seconds(micros as int));
        assert(days == secs as int / 86_400 && rem == secs as int % 86_400);
    }
    let h: i64 = rem / 3600;
    let m: i64 = (rem % 3600) / 60;
    let (y, mo, d) = civil_from_days(days);
    proof {
        lemma_date_of(days as int, (y as int, mo as int, d as int));
    }
    text::decimal_i64_width(y, 4).concat("-").concat(
        text::decimal_i64_width(mo, 2).as_str(),
    ).concat("-").concat(text::decimal_i64_width(d, 2).as_str()).concat(" ").concat(
        text::decimal_i64_width(h, 2).as_str(),
    ).concat(":").concat(text::decimal_i64_width(m, 2).as_str()).concat(" UTC")
}

/// Formats an instant for the administration pages.
pub fn format_ts_admin(micros: i64) -> (r: String)
    ensures
        r@ == instant_text(micros as int),
{
    format_ts(micros)
}

// ---------------------------------------------------------------------------
// Reading dates
// ---------------------------------------------------------------------------

/// The year, month and day that `YYYY-MM-DD` names: a month from 1 to 12 and a
/// day from 1 to 31.
pub open spec fn date_parts(s: Seq<char>) -> Option<(int, int, int)> {
    let p = text::split_pieces(s, text::Separator::Char('-'));
    if p.len() != 3 {
        None
    } else {
        match (text::i64_value(p[0]), text::i64_value(p[1]), text::i64_value(p[2])) {
            (Some(y), Some(m), Some(d)) => if 1 <= m <= 12 && 1 <= d <= 31 {
                Some((y, m, d))
            } else {
                None
            },
            _ => None,
        }
    }
}

/// The start of the day that a date text names, in Unix microseconds.
pub open spec fn date_start(s: Seq<char>) -> Option<int> {
    match date_parts(s) {
        Some(t) => Some(day_number(t.0, t.1, t.2) * DAY_MICROS),
        None => None,
    }
}

/// A date as `YYYY-MM-DD`.
pub open spec fn date_text(y: int, m: int, d: int) -> Seq<char> {
    text::decimal_width(y, 4) + "-"@ + text::decimal_width(m, 2) + "-"@ + text::decimal_width(d, 2)
}

/// The date that an instant shows is read as the start of its day, from the year
/// 0 on.
pub proof fn law_date_round_trip(micros: int, y: int, m: int, d: int)
    requires
        0 <= y <= i64::MAX,
        falls_on(whole_seconds(micros) / 86_400, (y, m, d)),
    ensures
        date_text(y, m, d) == instant_text(micros).take(date_text(y, m, d).len() as int),
        date_start(date_text(y, m, d)) == Some(
            whole_seconds(micros) / 86_400 * DAY_MICROS,
        ),
{
    let z = whole_seconds(micros) / 86_400;
    let dash = text::Separator::Char('-');
    let pieces = seq![
        text::decimal_width(y, 4),
        text::decimal_width(m, 2),
        text::decimal_width(d, 2),
    ];
    lemma_date_of(z, (y, m, d));
    reveal_strlit("-");
    assert("-"@ =~= seq!['-']);
    text::lemma_unsigned(y as nat, 4);
    text::lemma_unsigned(m as nat, 2);
    text::lemma_unsigned(d as nat, 2);
    assert forall|k: int, i: int|
        0 <= k < pieces.len() && 0 <= i < pieces[k].len() implies !text::separates(
        dash,
        #[trigger] pieces[k][i],
    ) by {
        assert('0' <= pieces[k][i]);
    }
    assert(pieces.drop_last().drop_last() =~= seq![pieces[0]]);
    assert(pieces.drop_last().last() == pieces[1]);
    reveal_with_fuel(text::joined, 4);
    assert(text::joined(pieces, seq!['-']) =~= date_text(y, m, d));
    text::lemma_split_joined(pieces, '-', dash);
    text::law_decimal_round_trip(y, 4);
    text::law_decimal_round_trip(m, 2);
    text::law_decimal_round_trip(d, 2);
    assert(instant_text(micros).take(date_text(y, m, d).len() as int) =~= date_text(y, m, d));
}

/// Whether the instant that a date text names, if any, can be held.
pub open spec fn date_fits(s: Seq<char>) -> bool {
    date_start(s) matches Some(t) ==> i64::MIN <= t <= i64::MAX
}

fn floor_div(a: i128, b: i128) -> (r: i128)
    requires
        0 < b,
        -0x1_0000_0000_0000_0000_0000 < a,
    ensures
        r == a as int / b as int,
{
    if a >= 0 {
        a / b
    } else {
        let q: i128 = -((-(a + 1)) / b) - 1;
        proof {
            let n = (-(a + 1)) as int;
            let bb = b as int;
            assert(n / bb * bb + n % bb == n) by {
                lemma_fundamental_div_mod(n, bb);
                vstd::arithmetic::mul::lemma_mul_is_commutative(n / bb, bb);
            }
            assert(0 <= n % bb < bb) by {
                lemma_mod_bound(n, bb);
            }
            assert(q * bb == -(n / bb * bb) - bb) by (nonlinear_arith)
                requires
                    q == -(n / bb) - 1,
            ;
            lemma_fundamental_div_mod_converse(
                a as int,
                bb,
                q as int,
                bb - 1 - n % bb,
            );
        }
        q
    }
}

fn leap_year(y: i128) -> (r: bool)
    ensures
        r == is_leap(y as int),
{
    y % 4 == 0 && (y % 100 != 0 || y % 400 == 0)
}

/// The days before a year, over a wide range.
fn year_start(y: i64) -> (r: i128)
    ensures
        r == days_before_year(y as int),
        -0x1_0000_0000_0000_0000_0000 < r < 0x1_0000_0000_0000_0000_0000,
{
    let w: i128 = y as i128;
    let fours = floor_div(w - 1, 4);
    let hundreds = floor_div(w - 1, 100);
    let eras = floor_div(w - 1, 400);
    365 * (w - 1970) + fours - hundreds + eras - 477
}

/// The days before a month.
fn month_start(y: i64, m: i64) -> (r: i128)
    requires
        1 <= m <= 12,
    ensures
        r == days_before_month(y as int, m as int),
        0 <= r < 400,
{
    proof {
        lemma_days_before_month(y as int);
    }
    if m == 1 {
        0
    } else if m == 2 {
        31
    } else if leap_year(y as i128) {
        ((153 * (m - 3) + 2) / 5 + 60) as i128
    } else {
        ((153 * (m - 3) + 2) / 5 + 59) as i128
    }
}

/// The start of a day in Unix microseconds, over a wide range.
fn day_start(y: i64, m: i64, d: i64) -> (r: i128)
    requires
        1 <= m <= 12,
        1 <= d <= 31,
    ensures
        r == day_number(y as int, m as int, d as int) * DAY_MICROS,
{
    let by_year = year_start(y);
    let by_month = month_start(y, m);
    (by_year + by_month + d as i128 - 1) * 86_400_000_000
}

/// Reads a `YYYY-MM-DD` date as the instant at which that day starts, over a
/// wide range.
fn read_date(date: &str) -> (r: Option<i128>)
    ensures
        match r {
            Some(t) => date_start(date@) == Some(t as int),
            None => date_start(date@) is None,
        },
{
    let parts = text::split(date, text::Separator::Char('-'));
    proof {
        assert(text::texts(parts@).len() == parts@.len());
        assert(forall|i: int| 0 <= i < parts@.len() ==> text::texts(parts@)[i] == parts@[i]@);
    }
    if parts.len() != 3 {
        return None;
    }
    match (
        text::parse_i64(parts[0].as_str()),
        text::parse_i64(parts[1].as_str()),
        text::parse_i64(parts[2].as_str()),
    ) {
        (Some(y), Some(m), Some(d)) => {
            if 1 <= m && m <= 12 && 1 <= d && d <= 31 {
                Some(day_start(y, m, d))
            } else {
                None
            }
        },
        _ => None,
    }
}

/// Tests whether the instant that a date text names, if any, can be held.
pub fn date_in_range(date: &str) -> (r: bool)
    ensures
        r == date_fits(date@),
{
    match read_date(date) {
        Some(t) => -0x8000_0000_0000_0000 <= t && t <= 0x7fff_ffff_ffff_ffff,
        None => true,
    }
}

/// Parses a `YYYY-MM-DD` date into the instant at which that day starts (UTC).
pub fn parse_date_to_timestamp(date: &str) -> (r: Option<i64>)
    requires
        date_fits(date@),
    ensures
        match r {
            Some(t) => date_start(date@) == Some(t as int),
            None => date_start(date@) is None,
        },
{
    match read_date(date) {
        Some(t) => Some(t as i64),
        None => None,
    }
}

/// The months have the lengths that they have, and a year is a leap year every
/// fourth year, but not at the end of a century, but for every fourth century.
pub proof fn law_months(y: int, m: int)
    ensures
        is_leap(4 * y) <==> (y % 25 != 0 || y % 100 == 0),
        y % 4 != 0 ==> !is_leap(y),
        m == 1 || m == 3 || m == 5 || m == 7 || m == 8 || m == 10 || m == 12 ==> month_length(y, m)
            == 31,
        m == 4 || m == 6 || m == 9 || m == 11 ==> month_length(y, m) == 30,
        month_length(y, 2) == if is_leap(y) {
            29int
        } else {
            28
        },
{
}

/// Days are counted from the first of January 1970, one after the other: the day
/// after the last of a month is the first of the next, and the day after the last
/// of a year the first of the next.
pub proof fn law_days(y: int, m: int, d: int)
    ensures
        day_number(1970, 1, 1) == 0,
        day_number(y, m, d + 1) == day_number(y, m, d) + 1,
        1 <= m < 12 ==> day_number(y, m + 1, 1) == day_number(y, m, month_length(y, m)) + 1,
        day_number(y + 1, 1, 1) == day_number(y, 12, 31) + 1,
        is_date(y, m, d) <==> 1 <= m <= 12 && 1 <= d <= month_length(y, m),
{
    law_year_length(y);
    reveal_with_fuel(days_before_month, 13);
}

/// Whole seconds are counted towards zero.
pub proof fn law_whole_seconds(micros: int)
    ensures
        micros >= 0 ==> 0 <= micros - 1_000_000 * whole_seconds(micros) < 1_000_000,
        micros < 0 ==> -1_000_000 < micros - 1_000_000 * whole_seconds(micros) <= 0,
        whole_seconds(-micros) == -whole_seconds(micros),
{
}

proof fn lemma_two_digits(n: int)
    requires
        0 <= n < 100,
    ensures
        text::decimal_width(n, 2).len() == 2,
        text::digits_value(text::decimal_width(n, 2)) == Some(n as nat),
{
    text::law_decimal_round_trip(n, 2);
    text::lemma_unsigned(n as nat, 2);
    reveal_with_fuel(text::decimal, 3);
    let s = text::decimal_width(n, 2);
    assert('0' <= s[0] <= '9');
}

/// The clock that an instant shows is that of its second in the day, to the
/// minute, in two digits each.
pub proof fn law_clock(micros: int)
    ensures
        ({
            let s = instant_text(micros);
            let n = s.len() as int;
            let rem = whole_seconds(micros) % 86_400;
            let hour = text::digits_value(s.subrange(n - 9, n - 7));
            let minute = text::digits_value(s.subrange(n - 6, n - 4));
            &&& n > 10
            &&& s[n - 10] == ' '
            &&& s[n - 7] == ':'
            &&& s.skip(n - 4) == " UTC"@
            &&& hour matches Some(h) && minute matches Some(m) && h < 24 && m < 60 && 0 <= rem - (
            3600 * h + 60 * m) < 60
        }),
{
    let s = instant_text(micros);
    let n = s.len() as int;
    let secs = whole_seconds(micros);
    let rem = secs % 86_400;
    let t = date_of(secs / 86_400);
    let date = text::decimal_width(t.0, 4) + "-"@ + text::decimal_width(t.1, 2) + "-"@
        + text::decimal_width(t.2, 2);
    let h = text::decimal_width(rem / 3600, 2);
    let m = text::decimal_width(rem % 3600 / 60, 2);
    reveal_strlit(" ");
    reveal_strlit("-");
    reveal_strlit(":");
    reveal_strlit(" UTC");
    lemma_two_digits(rem / 3600);
    lemma_two_digits(rem % 3600 / 60);
    assert(s =~= date + " "@ + h + ":"@ + m + " UTC"@);
    assert(s.subrange(n - 9, n - 7) =~= h);
    assert(s.subrange(n - 6, n - 4) =~= m);
    assert(s.skip(n - 4) =~= " UTC"@);
    assert(date.len() > 0);
}

/// A text is read as a date where it holds three numbers set off by hyphens, a
/// month and a day of the month; its start is that day's, counted in days of
/// equal length.
pub proof fn law_date_start(s: Seq<char>)
    ensures
        ({
            let p = text::split_pieces(s, text::Separator::Char('-'));
            &&& p.len() != 3 ==> date_start(s) is None
            &&& p.len() == 3 ==> match (
                text::i64_value(p[0]),
                text::i64_value(p[1]),
                text::i64_value(p[2]),
            ) {
                (Some(y), Some(m), Some(d)) => if 1 <= m <= 12 && 1 <= d <= 31 {
                    date_start(s) == Some(day_number(y, m, d) * 86_400_000_000)
                } else {
                    date_start(s) is None
                },
                _ => date_start(s) is None,
            }
        }),
        date_fits(s) <==> (date_start(s) matches Some(t) ==> i64::MIN <= t <= i64::MAX),
{
}

} // verus!
