//! Time: the wall clock, moments on the monotonic clock, and calendar dates.

use vstd::prelude::*;

use crate::text;
use crate::text::push_zero_padded;

verus! {

/// A reading of the wall clock: seconds since 1970 and the nanoseconds of the second.
/// `None` stands for a clock that was set to before 1970.
pub type WallTime = Option<(u64, u32)>;

/// A moment on the monotonic clock.
#[verifier::external_type_specification]
#[verifier::external_body]
pub struct ExInstant(std::time::Instant);

/// `std::time::Instant::now`: the present moment.
pub assume_specification[ std::time::Instant::now ]() -> (r: std::time::Instant)
;

/// What `std::time::Instant::saturating_duration_since` gives, in whole seconds: the time
/// from one moment to another, 0 where the other is the earlier one.
pub uninterp spec fn seconds_between(from: std::time::Instant, to: std::time::Instant) -> u64;

/// `std::time::Instant::saturating_duration_since` in whole seconds. It depends on the two
/// moments alone.
#[verifier::external_body]
pub(crate) fn seconds_from(from: &std::time::Instant, to: &std::time::Instant) -> (r: u64)
    ensures
        r == seconds_between(*from, *to),
{
    to.saturating_duration_since(*from).as_secs()
}

/// `std::time::SystemTime::elapsed` of the epoch; what it gives is up to the time. The
/// nanoseconds are always fewer than a second.
#[verifier::external_body]
pub(crate) fn wall_time() -> (r: WallTime)
    ensures
        r matches Some((_, nanos)) ==> nanos < 1_000_000_000,
{
    std::time::UNIX_EPOCH.elapsed().ok().map(|d| (d.as_secs(), d.subsec_nanos()))
}

/// The seconds of a reading, 0 before 1970.
pub fn seconds_of(t: WallTime) -> (r: u64)
    ensures
        r == (match t {
            Some((secs, _)) => secs,
            None => 0,
        }),
{
    match t {
        Some((secs, _)) => secs,
        None => 0,
    }
}

/// The milliseconds of a reading modulo 2^64, 0 before 1970.
pub fn millis_of(t: WallTime) -> (r: u64)
    ensures
        r == (match t {
            Some((secs, nanos)) => (secs * 1000 + nanos / 1_000_000) % 18446744073709551616,
            None => 0,
        }),
{
    match t {
        Some((secs, nanos)) => {
            let ms: u64 = (nanos / 1_000_000) as u64;
            let whole: u128 = secs as u128 * 1000 + ms as u128;
            (whole % 18446744073709551616) as u64
        },
        None => 0,
    }
}

/// Seconds since 1970 by the wall clock.
pub(crate) fn unix_now() -> u64 {
    seconds_of(wall_time())
}

/// Milliseconds since 1970 by the wall clock.
pub fn unix_millis() -> u64 {
    millis_of(wall_time())
}

/// A synchronization source taken from a reading: the nanoseconds and the low half of the
/// seconds, mixed, and odd so that it is never 0.
pub fn ssrc_of(t: WallTime) -> (r: u32)
    ensures
        r == (match t {
            Some((secs, nanos)) => (nanos ^ (secs as u32)) | 1,
            None => 0x1234_5679u32,
        }),
        r % 2 == 1,
{
    match t {
        Some((secs, nanos)) => {
            let mixed: u32 = nanos ^ (
            #[verifier::truncate]
            (secs as u32));
            assert((mixed | 1) % 2 == 1) by (bit_vector);
            mixed | 1
        },
        None => 0x1234_5679,
    }
}

/// A synchronization source taken from the wall clock.
pub fn ssrc_from_time() -> (r: u32)
    ensures
        r % 2 == 1,
{
    ssrc_of(wall_time())
}

/// Whether a year has a February of 29 days.
pub open spec fn leap_year(y: int) -> bool {
    y % 4 == 0 && (y % 100 != 0 || y % 400 == 0)
}

/// Days of a month.
pub open spec fn month_len(y: int, m: int) -> int {
    if m == 2 {
        if leap_year(y) {
            29
        } else {
            28
        }
    } else if m == 4 || m == 6 || m == 9 || m == 11 {
        30
    } else {
        31
    }
}

/// Days of the months before month `m` of a year.
pub open spec fn days_before_month(y: int, m: int) -> int
    decreases m,
{
    if m <= 1 {
        0
    } else {
        days_before_month(y, m - 1) + month_len(y, m - 1)
    }
}

/// Days from the start of year 0 to the start of year `y`; negative before it.
pub open spec fn days_before_year(y: int) -> int {
    365 * y + (y + 3) / 4 - (y + 99) / 100 + (y + 399) / 400
}

/// Whether there is a day `d` in month `m` of year `y`.
pub open spec fn valid_date(y: int, m: int, d: int) -> bool {
    1 <= m <= 12 && 1 <= d <= month_len(y, m)
}

/// Days from 1970-01-01 to a date.
pub open spec fn days_from_1970(y: int, m: int, d: int) -> int {
    days_before_year(y) - days_before_year(1970) + days_before_month(y, m) + d - 1
}

/// Days from 1 March of year 0 to 1 March of year `y`.
spec fn march_days(y: int) -> int {
    365 * y + y / 4 - y / 100 + y / 400
}

proof fn lemma_quotients(y: int)
    ensures
        (y + 3) / 4 == y / 4 + (if y % 4 == 0 {
            0int
        } else {
            1
        }),
        (y + 4) / 4 == y / 4 + 1,
        (y + 99) / 100 == y / 100 + (if y % 100 == 0 {
            0int
        } else {
            1
        }),
        (y + 100) / 100 == y / 100 + 1,
        (y + 399) / 400 == y / 400 + (if y % 400 == 0 {
            0int
        } else {
            1
        }),
        (y + 400) / 400 == y / 400 + 1,
{
}

proof fn lemma_multiples(y: int)
    ensures
        y % 100 == 0 ==> y % 4 == 0,
        y % 400 == 0 ==> y % 100 == 0,
{
}

proof fn lemma_march(y: int)
    ensures
        days_before_year(y) + 59 + (if leap_year(y) {
            1int
        } else {
            0
        }) == march_days(y) + 60,
        days_before_year(y + 1) == march_days(y) + 366,
{
    lemma_quotients(y);
    lemma_multiples(y);
}

/// Consecutive years are as many days apart as the first of them has.
pub proof fn law_years_have_their_days(y: int)
    ensures
        days_before_year(y + 1) - days_before_year(y) == days_before_month(y, 13),
        days_before_month(y, 13) == (if leap_year(y) {
            366int
        } else {
            365
        }),
{
    lemma_march(y);
    reveal_with_fuel(days_before_month, 14);
}

proof fn lemma_march_month(y: int, doy: int, mp: int)
    requires
        0 <= doy <= 365,
        doy == 365 ==> leap_year(y + 1),
        mp == (5 * doy + 2) / 153,
    ensures
        ({
            let m = if mp < 10 {
                mp + 3
            } else {
                mp - 9
            };
            let d = doy - (153 * mp + 2) / 5 + 1;
            let yy = if m <= 2 {
                y + 1
            } else {
                y
            };
            &&& 0 <= mp <= 11
            &&& 0 <= (153 * mp + 2) / 5 <= doy
            &&& valid_date(yy, m, d)
            &&& days_before_year(yy) + days_before_month(yy, m) + d - 1 == march_days(y) + 60 + doy
        }),
{
    reveal_with_fuel(days_before_month, 14);
    lemma_march(y);
    lemma_march(y + 1);
    assert(153 * mp <= 5 * doy + 2 < 153 * mp + 153);
    assert(mp == 0 || mp == 1 || mp == 2 || mp == 3 || mp == 4 || mp == 5 || mp == 6 || mp == 7
        || mp == 8 || mp == 9 || mp == 10 || mp == 11);
}

/// A place in the cycle of 400 years, taken apart: the century, the group of four years in
/// it, the year of the group and the day of the year, which begins in March.
struct CyclePlace {
    century: u64,
    quad: u64,
    year: u64,
    doy: u64,
}

impl CyclePlace {
    spec fn year_of_cycle(self) -> int {
        self.century * 100 + self.quad * 4 + self.year
    }
}

fn cycle_place(doe: u64) -> (r: CyclePlace)
    requires
        doe < 146_097,
    ensures
        r.century <= 3,
        r.quad <= 24,
        r.year <= 3,
        r.doy <= 365,
        doe == r.century * 36_524 + r.quad * 1_461 + r.year * 365 + r.doy,
        r.doy == 365 ==> r.year == 3 && (r.quad == 24 ==> r.century == 3),
{
    let century: u64 = if doe / 36_524 < 4 {
        doe / 36_524
    } else {
        3
    };
    let doc: u64 = doe - century * 36_524;
    let quad: u64 = doc / 1_461;
    let doq: u64 = doc - quad * 1_461;
    let year: u64 = if doq / 365 < 4 {
        doq / 365
    } else {
        3
    };
    CyclePlace { century, quad, year, doy: doq - year * 365 }
}

proof fn lemma_cycle(era: int, p: CyclePlace)
    requires
        p.century <= 3,
        p.quad <= 24,
        p.year <= 3,
    ensures
        ({
            let y = era * 400 + p.year_of_cycle();
            &&& y / 400 == era
            &&& y / 100 == era * 4 + p.century
            &&& y / 4 == era * 100 + p.century * 25 + p.quad
        }),
{
    let in_century = p.quad * 4 + p.year;
    assert(0 <= in_century < 100);
}

proof fn lemma_long_year(era: int, p: CyclePlace)
    requires
        p.century <= 3,
        p.quad <= 24,
        p.year == 3,
        p.quad == 24 ==> p.century == 3,
    ensures
        leap_year(era * 400 + p.year_of_cycle() + 1),
{
    let y = era * 400 + p.year_of_cycle() + 1;
    if p.quad == 24 {
        assert(y == (era + 1) * 400);
        assert(y % 400 == 0);
        lemma_multiples(y);
    } else {
        let rest = p.quad * 4 + 4;
        assert(0 < rest < 100);
        assert(y == (era * 4 + p.century) * 100 + rest);
        assert(y % 100 == rest);
        assert(y == (era * 100 + p.century * 25 + p.quad + 1) * 4);
        assert(y % 4 == 0);
    }
}

/// The date that lies `z` days after 1970-01-01.
pub fn civil_from_days(z: i64) -> (r: (i64, u32, u32))
    requires
        z <= i64::MAX - 719_468,
    ensures
        valid_date(r.0 as int, r.1 as int, r.2 as int),
        days_from_1970(r.0 as int, r.1 as int, r.2 as int) == z,
{
    let n: i64 = z + 719_468;
    let era: i64 = if n >= 0 {
        (n as u64 / 146_097) as i64
    } else {
        -(((-(n + 1)) as u64 / 146_097) as i64) - 1
    };
    assert(0 <= n - era * 146_097 < 146_097);
    let doe: u64 = (n - era * 146_097) as u64;
    let place = cycle_place(doe);
    let y: i64 = era * 400 + (place.century * 100 + place.quad * 4 + place.year) as i64;
    proof {
        lemma_cycle(era as int, place);
        assert(march_days(y as int) + place.doy == n);
        if place.doy == 365 {
            lemma_long_year(era as int, place);
        }
    }
    let mp: u64 = (5 * place.doy + 2) / 153;
    proof {
        lemma_march_month(y as int, place.doy as int, mp as int);
    }
    let d: u32 = (place.doy - (153 * mp + 2) / 5 + 1) as u32;
    let m: u32 = if mp < 10 {
        (mp + 3) as u32
    } else {
        (mp - 9) as u32
    };
    (if m <= 2 {
        y + 1
    } else {
        y
    }, m, d)
}

proof fn lemma_years_rise(a: int, b: int)
    requires
        a < b,
    ensures
        days_before_year(a + 1) <= days_before_year(b),
    decreases b - a,
{
    if a + 1 < b {
        lemma_years_rise(a, b - 1);
        law_years_have_their_days(b - 1);
    }
}

proof fn lemma_months_rise(y: int, a: int, b: int)
    requires
        1 <= a < b <= 13,
    ensures
        days_before_month(y, a) + month_len(y, a) <= days_before_month(y, b),
    decreases b - a,
{
    if a + 1 < b {
        lemma_months_rise(y, a, b - 1);
    }
}

proof fn lemma_day_in_year(y: int, m: int, d: int)
    requires
        valid_date(y, m, d),
    ensures
        days_before_year(y) <= days_from_1970(y, m, d) + days_before_year(1970) < days_before_year(
            y + 1,
        ),
        0 <= days_before_month(y, m),
{
    lemma_months_rise(y, m, 13);
    law_years_have_their_days(y);
    if m > 1 {
        lemma_months_rise(y, 1, m);
    }
}

/// A date is determined by the number of its day: no two dates share one.
pub proof fn law_day_numbers_determine_dates(y: int, m: int, d: int, y2: int, m2: int, d2: int)
    requires
        valid_date(y, m, d),
        valid_date(y2, m2, d2),
        days_from_1970(y, m, d) == days_from_1970(y2, m2, d2),
    ensures
        y == y2 && m == m2 && d == d2,
{
    lemma_day_in_year(y, m, d);
    lemma_day_in_year(y2, m2, d2);
    if y < y2 {
        lemma_years_rise(y, y2);
    } else if y2 < y {
        lemma_years_rise(y2, y);
    }
    if m < m2 {
        lemma_months_rise(y, m, m2);
    } else if m2 < m {
        lemma_months_rise(y, m2, m);
    }
}

/// A date and a time of day as `YYYYMMDD-HHMMSS`.
pub open spec fn stamp_text(y: int, m: int, d: int, time: int) -> Seq<char> {
    text::zero_padded(y as nat, 4) + text::zero_padded(m as nat, 2) + text::zero_padded(d as nat, 2)
        + seq!['-'] + text::zero_padded((time / 3600) as nat, 2) + text::zero_padded(
        (time % 3600 / 60) as nat,
        2,
    ) + text::zero_padded((time % 60) as nat, 2)
}

/// The stamp of a number of seconds since 1970: the date of its day and the time of day.
pub fn stamp_of(secs: u64) -> (r: String)
    ensures
        exists|y: int, m: int, d: int|
            valid_date(y, m, d) && days_from_1970(y, m, d) == secs as int / 86_400 && r@
                == #[trigger] stamp_text(y, m, d, secs as int % 86_400),
{
    let (y, m, d) = civil_from_days((secs / 86_400) as i64);
    proof {
        lemma_day_in_year(y as int, m as int, d as int);
        if y < 1970 {
            lemma_years_rise(y as int, 1970);
        }
    }
    let time: u64 = secs % 86_400;
    let mut out = String::new();
    push_zero_padded(&mut out, y as u64, 4);
    push_zero_padded(&mut out, m as u64, 2);
    push_zero_padded(&mut out, d as u64, 2);
    out.push('-');
    push_zero_padded(&mut out, time / 3600, 2);
    push_zero_padded(&mut out, time % 3600 / 60, 2);
    push_zero_padded(&mut out, time % 60, 2);
    proof {
        assert(out@ =~= stamp_text(y as int, m as int, d as int, secs as int % 86_400));
    }
    out
}

/// The stamp of the present.
pub fn chrono_like_stamp() -> (r: String)
    ensures
        exists|secs: u64, y: int, m: int, d: int|
            valid_date(y, m, d) && days_from_1970(y, m, d) == secs as int / 86_400 && r@
                == #[trigger] stamp_text(y, m, d, secs as int % 86_400),
{
    stamp_of(seconds_of(wall_time()))
}

/// Days are counted one by one from 1970-01-01, through months of their lengths and years with
/// a leap day in every fourth, but in no hundredth that is no four-hundredth.
pub proof fn law_days_follow_each_other(y: int, m: int, d: int)
    requires
        1 <= m <= 12,
        d >= 1,
        ({
            let leap = (y % 4 == 0 && y % 100 != 0) || y % 400 == 0;
            d <= (if m == 2 {
                if leap {
                    29int
                } else {
                    28
                }
            } else if m == 4 || m == 6 || m == 9 || m == 11 {
                30
            } else {
                31
            })
        }),
    ensures
        valid_date(y, m, d),
        days_from_1970(1970, 1, 1) == 0,
        valid_date(y, m, d + 1) ==> days_from_1970(y, m, d + 1) == days_from_1970(y, m, d) + 1,
        !valid_date(y, m, d + 1) && m < 12 ==> days_from_1970(y, m + 1, 1) == days_from_1970(
            y,
            m,
            d,
        ) + 1,
        !valid_date(y, m, d + 1) && m == 12 ==> days_from_1970(y + 1, 1, 1) == days_from_1970(
            y,
            m,
            d,
        ) + 1,
{
    law_years_have_their_days(y);
}

/// A stamp is date, hyphen and time, each part in its own width: in a year of four digits it
/// is fifteen characters long, and its parts make up year, month, day, hour, minute and second.
pub proof fn law_stamps_hold_date_and_time(y: int, m: int, d: int, time: int)
    requires
        1000 <= y <= 9999,
        1 <= m <= 12,
        1 <= d <= 31,
        0 <= time < 86_400,
    ensures
        ({
            let s = stamp_text(y, m, d, time);
            &&& s.len() == 15
            &&& text::base10(s.subrange(0, 4)) == y
            &&& text::base10(s.subrange(4, 6)) == m
            &&& text::base10(s.subrange(6, 8)) == d
            &&& s[8] == '-'
            &&& text::base10(s.subrange(9, 11)) == time / 3600
            &&& text::base10(s.subrange(11, 13)) == time / 60 % 60
            &&& text::base10(s.subrange(13, 15)) == time % 60
        }),
{
    let hour = time / 3600;
    let minute = time % 3600 / 60;
    let second = time % 60;
    assert(minute == time / 60 % 60);
    lemma_padded_value(y as nat, 4);
    lemma_padded_value(m as nat, 2);
    lemma_padded_value(d as nat, 2);
    lemma_padded_value(hour as nat, 2);
    lemma_padded_value(minute as nat, 2);
    lemma_padded_value(second as nat, 2);
    let s = stamp_text(y, m, d, time);
    assert(s.subrange(0, 4) =~= text::zero_padded(y as nat, 4));
    assert(s.subrange(4, 6) =~= text::zero_padded(m as nat, 2));
    assert(s.subrange(6, 8) =~= text::zero_padded(d as nat, 2));
    assert(s.subrange(9, 11) =~= text::zero_padded(hour as nat, 2));
    assert(s.subrange(11, 13) =~= text::zero_padded(minute as nat, 2));
    assert(s.subrange(13, 15) =~= text::zero_padded(second as nat, 2));
}

proof fn lemma_padded_value(n: nat, width: int)
    requires
        (width == 2 && n < 100) || (width == 4 && 1000 <= n < 10_000),
    ensures
        text::zero_padded(n, width).len() == width,
        text::base10(text::zero_padded(n, width)) == n,
{
    text::law_decimals_make_up_their_number(n);
    text::law_padding_is_zeros_before_the_number(n, width);
    reveal_with_fuel(text::decimal, 5);
    let s = text::zero_padded(n, width);
    if width == 2 && n < 10 {
        let d = text::decimal(n);
        assert(s =~= seq!['0'] + d);
        assert(s.drop_last() =~= seq!['0']);
        assert(s.drop_last().drop_last() =~= Seq::<char>::empty());
        reveal_with_fuel(text::base10, 3);
        assert(d.drop_last() =~= Seq::<char>::empty());
    } else {
        assert(s =~= text::decimal(n));
    }
}

} // verus!
