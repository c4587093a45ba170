//! Wall-clock readings as RFC 3339 UTC text with millisecond precision,
//! on the proleptic Gregorian calendar from the Unix epoch on.

use vstd::prelude::*;

use crate::decimal::{decimal, decimal_padded, push_decimal, push_decimal_padded};
use crate::dogfood::audit::WallClockTime;
use crate::text::{push_str, string_of};

verus! {

/// Whether `y` is a Gregorian leap year.
pub open spec fn is_leap(y: int) -> bool {
    (y % 4 == 0 && y % 100 != 0) || y % 400 == 0
}

/// The number of days in year `y`.
pub open spec fn year_len(y: int) -> int {
    if is_leap(y) {
        366
    } else {
        365
    }
}

/// Leap years among years `1 .. y - 1`.
pub open spec fn leaps_before(y: int) -> int {
    (y - 1) / 4 - (y - 1) / 100 + (y - 1) / 400
}

/// Days from 1970-01-01 to the first day of year `y`.
pub open spec fn days_before_year(y: int) -> int {
    365 * (y - 1970) + leaps_before(y) - leaps_before(1970)
}

/// The number of days in month `m` (1..=12) of year `y`.
pub open spec fn days_in_month(y: int, m: int) -> int {
    if m == 2 {
        if is_leap(y) {
            29
        } else {
            28
        }
    } else if m == 4 || m == 6 || m == 9 || m == 11 {
        30
    } else {
        31
    }
}

/// Days in year `y` before the first day of month `m`.
pub open spec fn days_before_month(y: int, m: int) -> int
    decreases m,
{
    if m <= 1 {
        0
    } else {
        days_before_month(y, m - 1) + days_in_month(y, m - 1)
    }
}

/// `(y, m, d)` names a real day from 1970 on.
pub open spec fn valid_date(y: int, m: int, d: int) -> bool {
    y >= 1970 && 1 <= m <= 12 && 1 <= d <= days_in_month(y, m)
}

/// Days from 1970-01-01 to `(y, m, d)`.
pub open spec fn days_from_civil(y: int, m: int, d: int) -> int {
    days_before_year(y) + days_before_month(y, m) + d - 1
}

/// One year further is one year's length further.
pub proof fn lemma_year_step(y: int)
    requires
        y >= 1,
    ensures
        days_before_year(y + 1) == days_before_year(y) + year_len(y),
{
    assert(y / 4 - (y - 1) / 4 == if y % 4 == 0 {
        1int
    } else {
        0int
    }) by (nonlinear_arith)
        requires
            y >= 1,
    ;
    assert(y / 100 - (y - 1) / 100 == if y % 100 == 0 {
        1int
    } else {
        0int
    }) by (nonlinear_arith)
        requires
            y >= 1,
    ;
    assert(y / 400 - (y - 1) / 400 == if y % 400 == 0 {
        1int
    } else {
        0int
    }) by (nonlinear_arith)
        requires
            y >= 1,
    ;
    assert(y % 400 == 0 ==> y % 100 == 0 && y % 4 == 0) by (nonlinear_arith);
    assert(y % 100 == 0 ==> y % 4 == 0) by (nonlinear_arith);
}

/// Four hundred years are always 146097 days.
pub proof fn lemma_era(y: int, k: int)
    requires
        y >= 1,
        k >= 0,
    ensures
        days_before_year(y + 400 * k) == days_before_year(y) + 146097 * k,
    decreases k,
{
    if k > 0 {
        lemma_era(y, k - 1);
        let x = y + 400 * (k - 1);
        assert((x + 399) / 4 == (x - 1) / 4 + 100);
        assert((x + 399) / 100 == (x - 1) / 100 + 4);
        assert((x + 399) / 400 == (x - 1) / 400 + 1);
        assert(x + 400 == y + 400 * k);
    }
}

/// A year's months fill exactly the year.
proof fn lemma_months_fill_year(y: int)
    ensures
        days_before_month(y, 12) + days_in_month(y, 12) == year_len(y),
{
    reveal_with_fuel(days_before_month, 12);
}

/// The civil date `z` days after 1970-01-01, with `z >= 0`.
pub fn civil_from_days(z: i64) -> (r: (i64, u32, u32))
    requires
        z >= 0,
    ensures
        valid_date(r.0 as int, r.1 as int, r.2 as int),
        days_from_civil(r.0 as int, r.1 as int, r.2 as int) == z,
{
    let era: i64 = z / 146097;
    let mut rem: i64 = z % 146097;
    let mut y: i64 = 1970 + 400 * era;
    proof {
        lemma_era(1970, era as int);
    }
    let mut ylen: i64 = if (y % 4 == 0 && y % 100 != 0) || y % 400 == 0 {
        366
    } else {
        365
    };
    while rem >= ylen
        invariant
            1970 <= y <= 1970 + 400 * era + 400,
            era == z / 146097,
            z >= 0,
            0 <= rem < 146097,
            ylen == year_len(y as int),
            days_before_year(y as int) + rem == z,
            rem + days_before_year(y as int) - days_before_year(1970 + 400 * era) < 146097,
            days_before_year(1970 + 400 * era + 400) == days_before_year(1970 + 400 * era)
                + 146097,
        decreases rem,
    {
        proof {
            lemma_year_step(y as int);
        }
        rem = rem - ylen;
        y = y + 1;
        proof {
            if y > 1970 + 400 * era + 400 {
                assert(false);
            }
        }
        ylen = if (y % 4 == 0 && y % 100 != 0) || y % 400 == 0 {
            366
        } else {
            365
        };
    }
    let leap = (y % 4 == 0 && y % 100 != 0) || y % 400 == 0;
    assert(leap == is_leap(y as int));
    assert(rem < year_len(y as int));
    proof {
        lemma_months_fill_year(y as int);
    }
    let mut m: u32 = 1;
    let mut dim: i64 = 31;
    while rem >= dim
        invariant
            1 <= m <= 12,
            dim == days_in_month(y as int, m as int),
            leap == is_leap(y as int),
            0 <= rem,
            days_before_month(y as int, m as int) + rem < year_len(y as int),
            days_before_year(y as int) + days_before_month(y as int, m as int) + rem == z,
            days_before_month(y as int, 12) + days_in_month(y as int, 12) == year_len(y as int),
            y >= 1970,
        decreases 12 - m,
    {
        rem = rem - dim;
        if m == 12 {
            assert(false);
        }
        m = m + 1;
        dim = if m == 2 {
            if leap {
                29
            } else {
                28
            }
        } else if m == 4 || m == 6 || m == 9 || m == 11 {
            30
        } else {
            31
        };
    }
    (y, m, (rem + 1) as u32)
}

/// The RFC 3339 text of a day, a second of that day and a millisecond
/// count: `YYYY-MM-DDTHH:MM:SS.mmmZ`, each field zero-padded to at least
/// its width.
pub open spec fn stamp_text(y: int, m: int, d: int, secs_of_day: int, millis: int) -> Seq<char> {
    decimal_padded(y as nat, 4) + "-"@ + decimal_padded(m as nat, 2) + "-"@ + decimal_padded(
        d as nat,
        2,
    ) + "T"@ + decimal_padded((secs_of_day / 3600) as nat, 2) + ":"@ + decimal_padded(
        ((secs_of_day % 3600) / 60) as nat,
        2,
    ) + ":"@ + decimal_padded((secs_of_day % 60) as nat, 2) + "."@ + decimal_padded(
        millis as nat,
        3,
    ) + "Z"@
}

/// The civil date `z` days after 1970-01-01.
pub open spec fn civil_of(z: int) -> (int, int, int) {
    choose|c: (int, int, int)| valid_date(c.0, c.1, c.2) && days_from_civil(c.0, c.1, c.2) == z
}

/// The RFC 3339 text of a reading from the epoch on.
pub open spec fn rfc3339_text(t: WallClockTime) -> Seq<char> {
    let c = civil_of((t.unix_secs / 86400) as int);
    stamp_text(c.0, c.1, c.2, (t.unix_secs % 86400) as int, (t.nanos / 1000000) as int)
}

/// The message for a reading before the epoch.
pub open spec fn pre_epoch_message(unix_secs: i64) -> Seq<char> {
    "cannot format a pre-epoch WallClockTime (unix_secs=-"@ + decimal((-unix_secs) as nat) + ")"@
}

/// Format `time` as RFC 3339 UTC with millisecond precision, e.g.
/// `2026-09-24T10:15:03.001Z`. A reading before the epoch is refused:
/// it is far more likely a clock fault than an observation.
pub fn format_rfc3339_millis(time: WallClockTime) -> (r: Result<String, String>)
    ensures
        time.unix_secs < 0 ==> (r matches Err(e) && e@ == pre_epoch_message(time.unix_secs)),
        time.unix_secs >= 0 ==> (r matches Ok(s) && s@ == rfc3339_text(time)),
{
    proof {
        reveal_strlit("cannot format a pre-epoch WallClockTime (unix_secs=-");
        reveal_strlit(")");
        reveal_strlit("-");
        reveal_strlit("T");
        reveal_strlit(":");
        reveal_strlit(".");
        reveal_strlit("Z");
    }
    if time.unix_secs < 0 {
        let mut s = string_of("cannot format a pre-epoch WallClockTime (unix_secs=-");
        push_decimal(&mut s, (0i128 - time.unix_secs as i128) as u128);
        push_str(&mut s, ")");
        return Err(s);
    }
    let days = time.unix_secs / 86400;
    let secs_of_day = time.unix_secs % 86400;
    let (year, month, day) = civil_from_days(days);
    let mut s = String::new();
    push_decimal_padded(&mut s, year as u128, 4);
    push_str(&mut s, "-");
    push_decimal_padded(&mut s, month as u128, 2);
    push_str(&mut s, "-");
    push_decimal_padded(&mut s, day as u128, 2);
    push_str(&mut s, "T");
    push_decimal_padded(&mut s, (secs_of_day / 3600) as u128, 2);
    push_str(&mut s, ":");
    push_decimal_padded(&mut s, ((secs_of_day % 3600) / 60) as u128, 2);
    push_str(&mut s, ":");
    push_decimal_padded(&mut s, (secs_of_day % 60) as u128, 2);
    push_str(&mut s, ".");
    push_decimal_padded(&mut s, (time.nanos / 1000000) as u128, 3);
    push_str(&mut s, "Z");
    proof {
        assert(s@ =~= stamp_text(
            year as int,
            month as int,
            day as int,
            (time.unix_secs % 86400) as int,
            (time.nanos / 1000000) as int,
        ));
        let z = (time.unix_secs / 86400) as int;
        let w = (year as int, month as int, day as int);
        assert(valid_date(w.0, w.1, w.2) && days_from_civil(w.0, w.1, w.2) == z);
        let c = civil_of(z);
        law_civil_date_is_unique(c.0, c.1, c.2, w.0, w.1, w.2);
    }
    Ok(s)
}

/// A civil date from 1970 on is determined by its day count: two valid
/// dates with the same count are the same date.
pub proof fn law_civil_date_is_unique(y1: int, m1: int, d1: int, y2: int, m2: int, d2: int)
    requires
        valid_date(y1, m1, d1),
        valid_date(y2, m2, d2),
        days_from_civil(y1, m1, d1) == days_from_civil(y2, m2, d2),
    ensures
        y1 == y2 && m1 == m2 && d1 == d2,
{
    lemma_date_in_year(y1, m1, d1);
    lemma_date_in_year(y2, m2, d2);
    if y1 < y2 {
        lemma_years_ordered(y1 + 1, y2);
        lemma_year_step(y1);
    } else if y2 < y1 {
        lemma_years_ordered(y2 + 1, y1);
        lemma_year_step(y2);
    }
    assert(y1 == y2);
    if m1 < m2 {
        lemma_months_ordered(y1, m1 + 1, m2);
    } else if m2 < m1 {
        lemma_months_ordered(y1, m2 + 1, m1);
    }
}

/// A valid date falls inside its own year.
proof fn lemma_date_in_year(y: int, m: int, d: int)
    requires
        valid_date(y, m, d),
    ensures
        days_before_year(y) <= days_from_civil(y, m, d) < days_before_year(y) + year_len(y),
{
    lemma_months_fill_year(y);
    lemma_months_ordered(y, m + 1, 13);
    reveal_with_fuel(days_before_month, 13);
}

/// Later years start later.
proof fn lemma_years_ordered(a: int, b: int)
    requires
        1970 <= a <= b,
    ensures
        days_before_year(a) <= days_before_year(b),
    decreases b - a,
{
    if a < b {
        lemma_years_ordered(a, b - 1);
        lemma_year_step(b - 1);
    }
}

/// Later months of a year start at least as late as an earlier month
/// ends.
proof fn lemma_months_ordered(y: int, a: int, b: int)
    requires
        1 <= a <= b,
    ensures
        days_before_month(y, a) <= days_before_month(y, b),
        a >= 2 ==> days_before_month(y, a - 1) + days_in_month(y, a - 1) <= days_before_month(
            y,
            b,
        ),
    decreases b - a,
{
    if a < b {
        lemma_months_ordered(y, a, b - 1);
    }
}

} // verus!
