//! Dates from day counts.
use crate::text;
use crate::text::{lit, pad};
use vstd::prelude::*;

verus! {

/// A leap year of the Gregorian calendar.
pub open spec fn leap(y: int) -> bool {
    y % 4 == 0 && (y % 100 != 0 || y % 400 == 0)
}

/// How many days a month has.
pub open spec fn month_days(y: int, m: int) -> int {
    if m == 4 || m == 6 || m == 9 || m == 11 {
        30
    } else if m == 2 {
        if leap(y) {
            29
        } else {
            28
        }
    } else {
        31
    }
}

/// How many days of a year stand before a month.
pub open spec fn days_before_month(y: int, m: int) -> int
    decreases m,
{
    if m <= 1 {
        0
    } else {
        days_before_month(y, m - 1) + month_days(y, m - 1)
    }
}

/// How many days stand before a year, counted from the year 1.
pub open spec fn days_before_year(y: int) -> int {
    365 * (y - 1) + (y - 1) / 4 - (y - 1) / 100 + (y - 1) / 400
}

/// The number of a day, counted from the first of January 1970.
pub open spec fn day_number(y: int, m: int, d: int) -> int {
    days_before_year(y) - days_before_year(1970) + days_before_month(y, m) + d - 1
}

pub open spec fn is_date(y: int, m: int, d: int) -> bool {
    1 <= m <= 12 && 1 <= d <= month_days(y, m)
}

proof fn lemma_months(y: int)
    ensures
        days_before_month(y, 1) == 0,
        days_before_month(y, 2) == 31,
        ({
            let extra: int = if leap(y) {
                1
            } else {
                0
            };
            &&& days_before_month(y, 3) == 59 + extra
            &&& days_before_month(y, 4) == 90 + extra
            &&& days_before_month(y, 5) == 120 + extra
            &&& days_before_month(y, 6) == 151 + extra
            &&& days_before_month(y, 7) == 181 + extra
            &&& days_before_month(y, 8) == 212 + extra
            &&& days_before_month(y, 9) == 243 + extra
            &&& days_before_month(y, 10) == 273 + extra
            &&& days_before_month(y, 11) == 304 + extra
            &&& days_before_month(y, 12) == 334 + extra
        }),
{
    reveal_with_fuel(days_before_month, 13);
}

/// The years of an era, each beginning in March: where one begins, and which one a day
/// falls in.
pub open spec fn year_begins(yoe: int) -> int {
    365 * yoe + yoe / 4 - yoe / 100
}

proof fn lemma_year_of_era(doe: int)
    requires
        0 <= doe < 146097,
    ensures
        ({
            let yoe = (doe - doe / 1460 + doe / 36524 - doe / 146096) / 365;
            let doy = doe - year_begins(yoe);
            &&& 0 <= yoe < 400
            &&& 0 <= doy <= 365
            &&& doy == 365 ==> leap(yoe + 1)
        }),
{
    let c = doe / 36524;
    if c >= 4 {
        assert(doe == 146096);
    } else {
        let r = doe - 36524 * c;
        let q = r / 1461;
        let t = r - 1461 * q;
        assert(0 <= c <= 3 && 0 <= r < 36524 && 0 <= q <= 24 && 0 <= t <= 1460);
        assert(t == 1460 ==> q <= 23);
        let e: int = if 24 * c + q + t >= 1460 {
            1
        } else {
            0
        };
        assert(doe == 1460 * (25 * c + q + e) + (24 * c + q + t - 1460 * e));
        assert(0 <= 24 * c + q + t - 1460 * e < 1460);
        assert(doe / 1460 == 25 * c + q + e);
        assert(doe / 146096 == 0);
        let j = (t - e) / 365;
        assert(0 <= j <= 3);
        let n = doe - doe / 1460 + doe / 36524 - doe / 146096;
        assert(n == 365 * (100 * c + 4 * q + j) + (t - e - 365 * j));
        assert(0 <= t - e - 365 * j < 365);
        let yoe = n / 365;
        assert(yoe == 100 * c + 4 * q + j);
        assert(yoe / 4 == 25 * c + q);
        assert(0 <= 4 * q + j <= 99);
        assert(yoe / 100 == c);
        assert(doe - year_begins(yoe) == t - 365 * j);
        if t - 365 * j == 365 {
            assert(t == 1460 && j == 3);
            assert((yoe + 1) % 4 == 0);
            assert((yoe + 1) == 100 * c + 4 * (q + 1));
            assert((yoe + 1) % 100 == 4 * (q + 1));
        }
    }
}

proof fn lemma_month_of_year(doy: int)
    requires
        0 <= doy <= 365,
    ensures
        ({
            let mp = (5 * doy + 2) / 153;
            let d = doy - (153 * mp + 2) / 5 + 1;
            &&& 0 <= mp <= 11
            &&& 1 <= d
            &&& mp == 0 ==> (153 * mp + 2) / 5 == 0 && d <= 31
            &&& mp == 1 ==> (153 * mp + 2) / 5 == 31 && d <= 30
            &&& mp == 2 ==> (153 * mp + 2) / 5 == 61 && d <= 31
            &&& mp == 3 ==> (153 * mp + 2) / 5 == 92 && d <= 30
            &&& mp == 4 ==> (153 * mp + 2) / 5 == 122 && d <= 31
            &&& mp == 5 ==> (153 * mp + 2) / 5 == 153 && d <= 31
            &&& mp == 6 ==> (153 * mp + 2) / 5 == 184 && d <= 30
            &&& mp == 7 ==> (153 * mp + 2) / 5 == 214 && d <= 31
            &&& mp == 8 ==> (153 * mp + 2) / 5 == 245 && d <= 30
            &&& mp == 9 ==> (153 * mp + 2) / 5 == 275 && d <= 31
            &&& mp == 10 ==> (153 * mp + 2) / 5 == 306 && d <= 31
            &&& mp == 11 ==> (153 * mp + 2) / 5 == 337 && d <= 29 && (d == 29 <==> doy == 365)
        }),
{
}

#[verifier::spinoff_prover]
proof fn lemma_before_march(y: int)
    ensures
        days_before_year(y) + (if leap(y) {
            1int
        } else {
            0int
        }) == 365 * (y - 1) + y / 4 - y / 100 + y / 400,
{
    assert((y - 1) / 4 + (if y % 4 == 0 {
        1int
    } else {
        0int
    }) == y / 4);
    assert((y - 1) / 100 + (if y % 100 == 0 {
        1int
    } else {
        0int
    }) == y / 100);
    assert((y - 1) / 400 + (if y % 400 == 0 {
        1int
    } else {
        0int
    }) == y / 400);
    assert(y % 400 == 0 ==> y % 100 == 0);
    assert(y % 100 == 0 ==> y % 4 == 0);
}

proof fn lemma_era(era: int, yoe: int)
    requires
        0 <= yoe < 400,
    ensures
        (400 * era + yoe) / 4 == 100 * era + yoe / 4,
        (400 * era + yoe) / 100 == 4 * era + yoe / 100,
        (400 * era + yoe) / 400 == era,
        leap(400 * era + yoe + 1) == leap(yoe + 1),
{
    assert((400 * era + yoe + 1) % 4 == (yoe + 1) % 4);
    assert((400 * era + yoe + 1) % 100 == (yoe + 1) % 100);
    assert((400 * era + yoe + 1) % 400 == (yoe + 1) % 400);
}

proof fn lemma_year_length(y: int)
    ensures
        days_before_year(y + 1) - days_before_year(y) == (if leap(y) {
            366int
        } else {
            365int
        }),
{
    lemma_before_march(y);
}

proof fn lemma_years_grow(a: int, b: int)
    requires
        a < b,
    ensures
        days_before_year(a + 1) <= days_before_year(b),
    decreases b - a,
{
    if a + 1 < b {
        lemma_years_grow(a, b - 1);
        lemma_year_length(b - 1);
    }
}

proof fn lemma_day_of_year(y: int, m: int, d: int)
    requires
        is_date(y, m, d),
    ensures
        0 <= days_before_month(y, m) + d - 1 < (if leap(y) {
            366int
        } else {
            365int
        }),
{
    lemma_months(y);
}

/// A day has one date.
pub proof fn law_a_day_has_one_date(y: int, m: int, d: int, y2: int, m2: int, d2: int)
    requires
        is_date(y, m, d),
        is_date(y2, m2, d2),
        day_number(y, m, d) == day_number(y2, m2, d2),
    ensures
        y == y2,
        m == m2,
        d == d2,
{
    lemma_day_of_year(y, m, d);
    lemma_day_of_year(y2, m2, d2);
    lemma_year_length(y);
    lemma_year_length(y2);
    if y < y2 {
        lemma_years_grow(y, y2);
    }
    if y2 < y {
        lemma_years_grow(y2, y);
    }
    lemma_months(y);
}

/// The date of a day.
pub open spec fn date_of(z: int) -> (int, int, int) {
    choose|y: int, m: int, d: int| is_date(y, m, d) && #[trigger] day_number(y, m, d) == z
}

/// Where the pieces of a day's era lead: the year and the month beginning in March.
pub open spec fn year_of(doe: int) -> int {
    (doe - doe / 1460 + doe / 36524 - doe / 146096) / 365
}

pub open spec fn month_of(doe: int) -> int {
    (5 * (doe - year_begins(year_of(doe))) + 2) / 153
}

#[verifier::spinoff_prover]
#[verifier::rlimit(40)]
proof fn lemma_civil(era: int, doe: int)
    requires
        0 <= doe < 146097,
    ensures
        ({
            let doy = doe - year_begins(year_of(doe));
            let mp = month_of(doe);
            let m = if mp < 10 {
                mp + 3
            } else {
                mp - 9
            };
            let y = year_of(doe) + era * 400 + if m <= 2 {
                1int
            } else {
                0int
            };
            let d = doy - (153 * mp + 2) / 5 + 1;
            &&& is_date(y, m, d)
            &&& day_number(y, m, d) == 146097 * era + doe - 719468
        }),
{
    let yoe = year_of(doe);
    lemma_year_of_era(doe);
    let doy = doe - year_begins(yoe);
    lemma_month_of_year(doy);
    let mp = month_of(doe);
    let y0 = yoe + era * 400;
    lemma_era(era, yoe);
    lemma_before_march(y0);
    lemma_months(y0);
    lemma_months(y0 + 1);
    assert(days_before_year(1970) == 719162);
}

/// The date of a day, counted from the first of January 1970; days before it are
/// negative.
pub fn civil_from_days(z: i64) -> (r: (i64, u32, u32))
    requires
        z <= i64::MAX - 719_468,
    ensures
        is_date(r.0 as int, r.1 as int, r.2 as int),
        day_number(r.0 as int, r.1 as int, r.2 as int) == z,
        (r.0 as int, r.1 as int, r.2 as int) == date_of(z as int),
        z >= 0 ==> r.0 >= 0,
{
    let z2: i64 = z + 719_468;
    let n: u64 = if z2 >= 0 {
        z2 as u64
    } else {
        (-(z2 + 1)) as u64
    };
    let eras: i64 = (n / 146_097) as i64;
    let (era, doe): (i64, u64) = if z2 >= 0 {
        (eras, n % 146_097)
    } else {
        (-1 - eras, 146_096 - n % 146_097)
    };
    assert(z2 == 146_097 * era + doe);
    proof {
        lemma_year_of_era(doe as int);
        lemma_month_of_year(doe - year_begins(year_of(doe as int)));
        lemma_civil(era as int, doe as int);
    }
    let yoe: u64 = (doe - doe / 1460 + doe / 36_524 - doe / 146_096) / 365;
    let y: i64 = yoe as i64 + era * 400;
    let doy: u64 = doe - (365 * yoe + yoe / 4 - yoe / 100);
    let mp: u64 = (5 * doy + 2) / 153;
    let d: u64 = doy - (153 * mp + 2) / 5 + 1;
    let m: u64 = if mp < 10 {
        mp + 3
    } else {
        mp - 9
    };
    let year: i64 = if m <= 2 {
        y + 1
    } else {
        y
    };
    proof {
        let (y3, m3, d3) = date_of(z as int);
        assert(day_number(year as int, m as int, d as int) == z as int);
        law_a_day_has_one_date(year as int, m as int, d as int, y3, m3, d3);
    }
    (year, m as u32, d as u32)
}

/// A day as it is shown.
pub open spec fn shown(date: (int, int, int)) -> Seq<char> {
    text::padded(date.0 as nat, 4) + "-"@ + text::padded(date.1 as nat, 2) + "-"@ + text::padded(
        date.2 as nat,
        2,
    )
}

/// The day of a moment, in milliseconds since 1970; unknown where that is zero.
pub open spec fn day_of(millis: u64) -> Seq<char> {
    if millis == 0 {
        "unknown"@
    } else {
        shown(date_of((millis / 1000 / 86_400) as int))
    }
}

pub fn when(millis: u64) -> (r: String)
    ensures
        r@ == day_of(millis),
{
    if millis == 0 {
        return lit("unknown");
    }
    let (y, m, d) = civil_from_days((millis / 1000 / 86_400) as i64);
    pad(y as u64, 4).concat("-").concat(pad(m as u64, 2).as_str()).concat("-").concat(
        pad(d as u64, 2).as_str(),
    )
}

} // verus!
