//! UTC calendar arithmetic for rendering Unix timestamps.
use vstd::prelude::*;

use crate::text::{decimal_text, padded_decimal, zero_pad};

verus! {

/// Gregorian leap-year rule.
pub open spec fn spec_is_leap(year: int) -> bool {
    (year % 4 == 0 && year % 100 != 0) || year % 400 == 0
}

/// Whether `year` is a leap year.
pub fn is_leap(year: u32) -> (r: bool)
    ensures
        r == spec_is_leap(year as int),
{
    (year % 4 == 0 && year % 100 != 0) || year % 400 == 0
}

pub open spec fn days_in_year(year: int) -> int {
    if spec_is_leap(year) {
        366
    } else {
        365
    }
}

/// Days from 1970-01-01 to the first day of `year`.
pub open spec fn days_before_year(year: int) -> int
    decreases year - 1970,
{
    if year <= 1970 {
        0
    } else {
        days_before_year(year - 1) + days_in_year(year - 1)
    }
}

/// Days in a non-leap year before the first day of `month` (1..=12).
pub open spec fn common_days_before_month(month: int) -> int {
    if month <= 1 {
        0
    } else if month == 2 {
        31
    } else if month == 3 {
        59
    } else if month == 4 {
        90
    } else if month == 5 {
        120
    } else if month == 6 {
        151
    } else if month == 7 {
        181
    } else if month == 8 {
        212
    } else if month == 9 {
        243
    } else if month == 10 {
        273
    } else if month == 11 {
        304
    } else {
        334
    }
}

/// Days of the year before the first day of `month`.
pub open spec fn days_before_month(month: int, leap: bool) -> int {
    common_days_before_month(month) + if leap && month > 2 {
        1int
    } else {
        0int
    }
}

/// Number of days in `month` of `year`.
pub open spec fn month_length(month: int, year: int) -> int {
    if month == 12 {
        31
    } else {
        days_before_month(month + 1, spec_is_leap(year)) - days_before_month(
            month,
            spec_is_leap(year),
        )
    }
}

/// Splits a day count since `year`'s first day into (year, day of year).
pub open spec fn year_split(days: int, year: int) -> (int, int)
    decreases days,
{
    if days < days_in_year(year) || days < 0 {
        (year, days)
    } else {
        year_split(days - days_in_year(year), year + 1)
    }
}

/// The month containing day-of-year `doy`.
pub open spec fn month_of(doy: int, leap: bool) -> int {
    if doy >= days_before_month(12, leap) {
        12
    } else if doy >= days_before_month(11, leap) {
        11
    } else if doy >= days_before_month(10, leap) {
        10
    } else if doy >= days_before_month(9, leap) {
        9
    } else if doy >= days_before_month(8, leap) {
        8
    } else if doy >= days_before_month(7, leap) {
        7
    } else if doy >= days_before_month(6, leap) {
        6
    } else if doy >= days_before_month(5, leap) {
        5
    } else if doy >= days_before_month(4, leap) {
        4
    } else if doy >= days_before_month(3, leap) {
        3
    } else if doy >= days_before_month(2, leap) {
        2
    } else {
        1
    }
}

/// The calendar date (year, month, day) `days` days after 1970-01-01.
pub open spec fn civil_date(days: int) -> (int, int, int) {
    let (year, doy) = year_split(days, 1970);
    let month = month_of(doy, spec_is_leap(year));
    (year, month, doy - days_before_month(month, spec_is_leap(year)) + 1)
}

/// The day count that the timestamp renderer works from: whole days since the
/// epoch, kept to 32 bits as the renderer stores them.
pub open spec fn day_count(ts: nat) -> int {
    (ts / 86400) as int % 0x1_0000_0000
}

/// `YYYY-MM-DD` for a date.
pub open spec fn date_text(year: int, month: int, day: int) -> Seq<char> {
    zero_pad(decimal_text(year as nat), 4) + seq!['-'] + zero_pad(decimal_text(month as nat), 2)
        + seq!['-'] + zero_pad(decimal_text(day as nat), 2)
}

/// `HH:MM:SS` for a second of the day.
pub open spec fn clock_text(secs: int) -> Seq<char> {
    zero_pad(decimal_text((secs / 3600) as nat), 2) + seq![':'] + zero_pad(
        decimal_text(((secs % 3600) / 60) as nat),
        2,
    ) + seq![':'] + zero_pad(decimal_text((secs % 60) as nat), 2)
}

proof fn lemma_year_split(days: int, year: int)
    requires
        days >= 0,
        year >= 1970,
    ensures
        ({
            let (y, doy) = year_split(days, year);
            &&& y >= year
            &&& 0 <= doy < days_in_year(y)
            &&& days_before_year(y) + doy == days_before_year(year) + days
        }),
    decreases days,
{
    if days < days_in_year(year) {
    } else {
        lemma_year_split(days - days_in_year(year), year + 1);
    }
}

proof fn lemma_month_of(doy: int, leap: bool)
    requires
        0 <= doy < if leap {
            366int
        } else {
            365int
        },
    ensures
        1 <= month_of(doy, leap) <= 12,
        days_before_month(month_of(doy, leap), leap) <= doy,
        month_of(doy, leap) < 12 ==> doy < days_before_month(month_of(doy, leap) + 1, leap),
{
}

/// Days in `month` by the Gregorian rule: thirty days in April, June,
/// September and November, twenty-eight in February (twenty-nine in a leap
/// year), thirty-one in every other month.
pub open spec fn gregorian_month_days(month: int, leap: bool) -> int {
    if month == 4 || month == 6 || month == 9 || month == 11 {
        30
    } else if month == 2 {
        if leap {
            29
        } else {
            28
        }
    } else {
        31
    }
}

/// The month table is the Gregorian calendar: January starts the year, each
/// month lasts its Gregorian number of days, and the twelve months fill the
/// year exactly.
pub proof fn lemma_months_are_gregorian(year: int)
    ensures
        days_before_month(1, spec_is_leap(year)) == 0,
        forall|m: int|
            1 <= m <= 12 ==> #[trigger] month_length(m, year) == gregorian_month_days(m, spec_is_leap(year)),
        forall|m: int|
            1 <= m < 12 ==> days_before_month(m + 1, spec_is_leap(year)) == days_before_month(m, spec_is_leap(year))
                + gregorian_month_days(m, spec_is_leap(year)),
        days_before_month(12, spec_is_leap(year)) + gregorian_month_days(12, spec_is_leap(year)) == days_in_year(year),
{
}

/// Leap years before `year` counted from year 1.
spec fn leaps_before(year: int) -> int {
    (year - 1) / 4 - (year - 1) / 100 + (year - 1) / 400
}

proof fn lemma_div_step(x: int, d: int)
    requires
        x >= 0,
        d > 0,
    ensures
        (x + 1) / d - x / d == if (x + 1) % d == 0 {
            1int
        } else {
            0int
        },
{
    vstd::arithmetic::div_mod::lemma_fundamental_div_mod(x, d);
    vstd::arithmetic::div_mod::lemma_fundamental_div_mod(x + 1, d);
    vstd::arithmetic::div_mod::lemma_mod_bound(x, d);
    vstd::arithmetic::div_mod::lemma_mod_bound(x + 1, d);
    let q1 = x / d;
    let q2 = (x + 1) / d;
    let r1 = x % d;
    let r2 = (x + 1) % d;
    assert(d * (q2 - q1) == 1 + r1 - r2) by (nonlinear_arith)
        requires
            x == d * q1 + r1,
            x + 1 == d * q2 + r2,
    ;
    assert(q2 - q1 == 0 || q2 - q1 == 1) by (nonlinear_arith)
        requires
            d * (q2 - q1) == 1 + r1 - r2,
            0 <= r1 < d,
            0 <= r2 < d,
            d > 0,
    ;
    if q2 - q1 == 1 {
        assert(r2 == 1 + r1 - d);
        assert(r2 == 0);
    } else {
        assert(r2 == 1 + r1);
    }
}

proof fn lemma_leap_step(year: int)
    requires
        year >= 1,
    ensures
        leaps_before(year + 1) - leaps_before(year) == if spec_is_leap(year) {
            1int
        } else {
            0int
        },
{
    lemma_div_step(year - 1, 4);
    lemma_div_step(year - 1, 100);
    lemma_div_step(year - 1, 400);
    if year % 400 == 0 {
        assert(year % 100 == 0 && year % 4 == 0) by {
            vstd::arithmetic::div_mod::lemma_fundamental_div_mod(year, 400);
        }
    } else if year % 100 == 0 {
        assert(year % 4 == 0) by {
            vstd::arithmetic::div_mod::lemma_fundamental_div_mod(year, 100);
        }
    }
}

proof fn lemma_days_before_year_closed(year: int)
    requires
        year >= 1970,
    ensures
        days_before_year(year) == 365 * (year - 1970) + leaps_before(year) - leaps_before(1970),
    decreases year - 1970,
{
    if year > 1970 {
        lemma_days_before_year_closed(year - 1);
        lemma_leap_step(year - 1);
    }
}

/// Every 400 consecutive years hold 146097 days (97 of them leap years), as
/// the Gregorian calendar's cycle does.
pub proof fn lemma_four_hundred_year_cycle(year: int)
    requires
        year >= 1970,
    ensures
        days_before_year(year + 400) == days_before_year(year) + 146097,
{
    lemma_days_before_year_closed(year);
    lemma_days_before_year_closed(year + 400);
    assert((year + 399) / 4 == (year - 1) / 4 + 100);
    assert((year + 399) / 100 == (year - 1) / 100 + 4);
    assert((year + 399) / 400 == (year - 1) / 400 + 1);
}

/// The clock text shows the hours, minutes and seconds of the second of the
/// day: for the one way of writing `secs` as `3600 h + 60 m + s` with
/// minutes and seconds below 60, the text is `hh:mm:ss`, and the hour is
/// below 24.
pub proof fn lemma_clock_text_fields(secs: int, h: int, m: int, s: int)
    requires
        0 <= secs < 86400,
        0 <= h,
        0 <= m < 60,
        0 <= s < 60,
        secs == 3600 * h + 60 * m + s,
    ensures
        h < 24,
        clock_text(secs) == zero_pad(decimal_text(h as nat), 2) + seq![':'] + zero_pad(decimal_text(m as nat), 2)
            + seq![':'] + zero_pad(decimal_text(s as nat), 2),
{
    assert(60 * m + s < 3600);
    vstd::arithmetic::div_mod::lemma_fundamental_div_mod_converse(secs, 3600, h, 60 * m + s);
    vstd::arithmetic::div_mod::lemma_fundamental_div_mod_converse(60 * m + s, 60, m, s);
    vstd::arithmetic::div_mod::lemma_fundamental_div_mod_converse(secs, 60, 60 * h + m, s);
    assert(h < 24) by (nonlinear_arith)
        requires
            secs == 3600 * h + 60 * m + s,
            secs < 86400,
            0 <= m,
            0 <= s,
    ;
}

/// The rendered date is a valid calendar date that counts back to exactly the
/// day count it was computed from.
pub proof fn lemma_civil_date_valid(days: int)
    requires
        days >= 0,
    ensures
        ({
            let (y, m, d) = civil_date(days);
            &&& y >= 1970
            &&& 1 <= m <= 12
            &&& 1 <= d <= month_length(m, y)
            &&& d <= gregorian_month_days(m, spec_is_leap(y))
            &&& days_before_year(y) + days_before_month(m, spec_is_leap(y)) + d - 1 == days
        }),
{
    lemma_months_are_gregorian(civil_date(days).0);
    lemma_year_split(days, 1970);
    let (y, doy) = year_split(days, 1970);
    lemma_month_of(doy, spec_is_leap(y));
}

/// A timestamp whose day count fits the renderer's 32 bits is recovered
/// exactly from its rendering: the date's days since the epoch, times a
/// day's seconds, plus the hours, minutes and seconds shown.
pub proof fn lemma_timestamp_round_trip(ts: nat)
    requires
        ts < 86400 * 0x1_0000_0000,
    ensures
        ({
            let (y, m, d) = civil_date(day_count(ts));
            let secs = (ts % 86400) as int;
            &&& 0 <= secs / 3600 < 24
            &&& 0 <= (secs % 3600) / 60 < 60
            &&& 86400 * (days_before_year(y) + days_before_month(m, spec_is_leap(y)) + d - 1) + 3600
                * (secs / 3600) + 60 * ((secs % 3600) / 60) + secs % 60 == ts
        }),
{
    let days = (ts / 86400) as int;
    assert(0 <= days < 0x1_0000_0000) by (nonlinear_arith)
        requires
            ts < 86400 * 0x1_0000_0000,
            days == ts / 86400,
    ;
    assert(day_count(ts) == days);
    lemma_civil_date_valid(days);
    let secs = (ts % 86400) as int;
    vstd::arithmetic::div_mod::lemma_fundamental_div_mod(ts as int, 86400);
    vstd::arithmetic::div_mod::lemma_fundamental_div_mod(secs, 3600);
    vstd::arithmetic::div_mod::lemma_fundamental_div_mod(secs % 3600, 60);
    assert(0 <= secs / 3600 < 24) by (nonlinear_arith)
        requires
            0 <= secs < 86400,
    ;
    assert(0 <= (secs % 3600) / 60 < 60) by (nonlinear_arith)
        requires
            0 <= secs % 3600 < 3600,
    ;
}

/// Formats a Unix timestamp (seconds) as `("YYYY-MM-DD", "HH:MM:SS")` in UTC.
pub fn format_timestamp(ts: u64) -> (r: (String, String))
    ensures
        ({
            let (y, m, d) = civil_date(day_count(ts as nat));
            r.0@ == date_text(y, m, d)
        }),
        r.1@ == clock_text((ts % 86400) as int),
{
    let secs_of_day = (ts % 86400) as u32;
    let hours = secs_of_day / 3600;
    let minutes = (secs_of_day % 3600) / 60;
    let seconds = secs_of_day % 60;

    let total: u64 = (ts / 86400) % 0x1_0000_0000;
    let mut days = total as u32;
    let mut year: u32 = 1970;
    let ghost total_days = days as int;
    assert(total_days == day_count(ts as nat));
    while days >= year_length(year)
        invariant
            year >= 1970,
            days_before_year(year as int) + days == total_days,
            days_before_year(year as int) >= 365 * (year - 1970),
            total_days < 0x1_0000_0000,
            year_split(total_days, 1970) == year_split(days as int, year as int),
        decreases days,
    {
        let days_in = year_length(year);
        proof {
            assert(days_before_year(year + 1) == days_before_year(year as int) + days_in_year(
                year as int,
            ));
        }
        days = days - days_in;
        year = year + 1;
    }
    let ghost doy = days as int;
    assert(year_split(days as int, year as int) == (year as int, doy));
    let leap = is_leap(year);
    let mut month: u32 = 12;
    while days < month_start(month, leap)
        invariant
            1 <= month <= 12,
            days == doy,
            0 <= doy < days_in_year(year as int),
            leap == spec_is_leap(year as int),
            forall|k: int| month < k <= 12 ==> doy < days_before_month(k, leap),
        decreases month,
    {
        month = month - 1;
    }
    days = days - month_start(month, leap);
    assert(month as int == month_of(doy, leap));
    let day = days + 1;

    let mut date: Vec<char> = padded_decimal(year as u64, 4);
    date.push('-');
    let mm = padded_decimal(month as u64, 2);
    let dd = padded_decimal(day as u64, 2);
    let ghost d0 = date@;
    append_all(&mut date, &mm);
    date.push('-');
    append_all(&mut date, &dd);
    let mut clock: Vec<char> = padded_decimal(hours as u64, 2);
    clock.push(':');
    let mi = padded_decimal(minutes as u64, 2);
    let ss = padded_decimal(seconds as u64, 2);
    append_all(&mut clock, &mi);
    clock.push(':');
    append_all(&mut clock, &ss);
    (crate::text::string_of(&date), crate::text::string_of(&clock))
}

/// Days in `year`.
fn year_length(year: u32) -> (r: u32)
    ensures
        r == days_in_year(year as int),
{
    if is_leap(year) {
        366
    } else {
        365
    }
}

/// First day-of-year (0-based) of `month`.
fn month_start(month: u32, leap: bool) -> (r: u32)
    requires
        1 <= month <= 12,
    ensures
        r == days_before_month(month as int, leap),
{
    let common = common_month_start(month);
    if leap && month > 2 {
        common + 1
    } else {
        common
    }
}

/// First day-of-year (0-based) of `month` in a common year.
fn common_month_start(month: u32) -> (r: u32)
    requires
        1 <= month <= 12,
    ensures
        r == common_days_before_month(month as int),
{
    match month {
        1 => 0,
        2 => 31,
        3 => 59,
        4 => 90,
        5 => 120,
        6 => 151,
        7 => 181,
        8 => 212,
        9 => 243,
        10 => 273,
        11 => 304,
        _ => 334,
    }
}

fn append_all(out: &mut Vec<char>, more: &Vec<char>)
    ensures
        final(out)@ == old(out)@ + more@,
{
    let mut k: usize = 0;
    while k < more.len()
        invariant
            k <= more.len(),
            out@ == old(out)@ + more@.take(k as int),
        decreases more.len() - k,
    {
        out.push(more[k]);
        assert(more@.take(k as int).push(more@[k as int]) == more@.take(k + 1));
        k = k + 1;
    }
    assert(more@.take(more.len() as int) == more@);
}

} // verus!
