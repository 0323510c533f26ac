use vstd::prelude::*;

verus! {

/// Leap years of the proleptic Gregorian calendar (year 0 is 1 BCE).
pub open spec fn is_leap_year(y: int) -> bool {
    y % 4 == 0 && (y % 100 != 0 || y % 400 == 0)
}

pub open spec fn days_in_month(y: int, m: int) -> int {
    if m == 2 {
        if is_leap_year(y) { 29 } else { 28 }
    } else if m == 4 || m == 6 || m == 9 || m == 11 {
        30
    } else {
        31
    }
}

/// The date `y-m-d` and the time `h:mi:s` exist (no leap second).
pub open spec fn valid_civil(y: int, m: int, d: int, h: int, mi: int, s: int) -> bool {
    &&& 1 <= m <= 12
    &&& 1 <= d <= days_in_month(y, m)
    &&& 0 <= h < 24
    &&& 0 <= mi < 60
    &&& 0 <= s < 60
}

/// Number of leap years in `[1, y)`, extended to all integers by floor division.
pub open spec fn leap_years_before(y: int) -> int {
    (y - 1) / 4 - (y - 1) / 100 + (y - 1) / 400
}

/// Days from 1970-01-01 to January 1st of year `y`.
pub open spec fn days_before_year(y: int) -> int {
    365 * (y - 1970) + leap_years_before(y) - leap_years_before(1970)
}

/// Days from January 1st to the first day of month `m` of year `y`.
pub open spec fn days_before_month(y: int, m: int) -> int
    decreases m,
{
    if m <= 1 {
        0
    } else {
        days_before_month(y, m - 1) + days_in_month(y, m - 1)
    }
}

/// Days from 1970-01-01 to `y-m-d`.
pub open spec fn days_since_epoch(y: int, m: int, d: int) -> int {
    days_before_year(y) + days_before_month(y, m) + d - 1
}

/// Seconds from 1970-01-01T00:00:00 to the given civil time, both read on one clock.
pub open spec fn civil_seconds(y: int, m: int, d: int, h: int, mi: int, s: int) -> int {
    days_since_epoch(y, m, d) * 86400 + h * 3600 + mi * 60 + s
}

/// The day after `y-m-d`.
pub open spec fn next_day(y: int, m: int, d: int) -> (int, int, int) {
    if d < days_in_month(y, m) {
        (y, m, d + 1)
    } else if m < 12 {
        (y, m + 1, 1)
    } else {
        (y + 1, 1, 1)
    }
}

/// The day before `y-m-d`.
pub open spec fn prev_day(y: int, m: int, d: int) -> (int, int, int) {
    if d > 1 {
        (y, m, d - 1)
    } else if m > 1 {
        (y, m - 1, days_in_month(y, m - 1))
    } else {
        (y - 1, 12, 31)
    }
}

/// The civil time `delta` minutes after `y-m-d h:mi:s`, carrying into the
/// neighbouring day where the time of day leaves `[00:00, 24:00)`.
pub open spec fn shift_minutes(
    y: int,
    m: int,
    d: int,
    h: int,
    mi: int,
    s: int,
    delta: int,
) -> (int, int, int, int, int, int) {
    let t = h * 60 + mi + delta;
    if t < 0 {
        let (y2, m2, d2) = prev_day(y, m, d);
        (y2, m2, d2, (t + 1440) / 60, (t + 1440) % 60, s)
    } else if t >= 1440 {
        let (y2, m2, d2) = next_day(y, m, d);
        (y2, m2, d2, (t - 1440) / 60, (t - 1440) % 60, s)
    } else {
        (y, m, d, t / 60, t % 60, s)
    }
}

proof fn lemma_floor_step(y: int)
    ensures
        y / 4 - (y - 1) / 4 == (if y % 4 == 0 { 1int } else { 0int }),
        y / 100 - (y - 1) / 100 == (if y % 100 == 0 { 1int } else { 0int }),
        y / 400 - (y - 1) / 400 == (if y % 400 == 0 { 1int } else { 0int }),
{
    vstd::arithmetic::div_mod::lemma_fundamental_div_mod(y, 4);
    vstd::arithmetic::div_mod::lemma_fundamental_div_mod(y - 1, 4);
    vstd::arithmetic::div_mod::lemma_fundamental_div_mod(y, 100);
    vstd::arithmetic::div_mod::lemma_fundamental_div_mod(y - 1, 100);
    vstd::arithmetic::div_mod::lemma_fundamental_div_mod(y, 400);
    vstd::arithmetic::div_mod::lemma_fundamental_div_mod(y - 1, 400);
}

proof fn lemma_year_length(y: int)
    ensures
        days_before_year(y + 1) == days_before_year(y) + 365 + (if is_leap_year(y) { 1int } else { 0int }),
        days_before_month(y, 12) == 334 + (if is_leap_year(y) { 1int } else { 0int }),
{
    lemma_floor_step(y);
    reveal_with_fuel(days_before_month, 12);
}

/// The day after a valid date is valid and one day later.
pub proof fn lemma_next_day(y: int, m: int, d: int)
    requires
        1 <= m <= 12,
        1 <= d <= days_in_month(y, m),
    ensures
        ({
            let (y2, m2, d2) = next_day(y, m, d);
            &&& 1 <= m2 <= 12
            &&& 1 <= d2 <= days_in_month(y2, m2)
            &&& days_since_epoch(y2, m2, d2) == days_since_epoch(y, m, d) + 1
        }),
{
    if d == days_in_month(y, m) && m == 12 {
        lemma_year_length(y);
    }
}

/// The day before a valid date is valid and one day earlier.
pub proof fn lemma_prev_day(y: int, m: int, d: int)
    requires
        1 <= m <= 12,
        1 <= d <= days_in_month(y, m),
    ensures
        ({
            let (y2, m2, d2) = prev_day(y, m, d);
            &&& 1 <= m2 <= 12
            &&& 1 <= d2 <= days_in_month(y2, m2)
            &&& days_since_epoch(y2, m2, d2) == days_since_epoch(y, m, d) - 1
        }),
{
    if d == 1 && m == 1 {
        lemma_year_length(y - 1);
    }
}

/// Shifting a valid civil time by less than a day keeps it valid and moves its
/// seconds by exactly `60 * delta`.
pub proof fn lemma_shift_minutes(y: int, m: int, d: int, h: int, mi: int, s: int, delta: int)
    requires
        valid_civil(y, m, d, h, mi, s),
        -1440 < delta < 1440,
    ensures
        ({
            let (y2, m2, d2, h2, mi2, s2) = shift_minutes(y, m, d, h, mi, s, delta);
            &&& valid_civil(y2, m2, d2, h2, mi2, s2)
            &&& civil_seconds(y2, m2, d2, h2, mi2, s2) == civil_seconds(y, m, d, h, mi, s) + 60 * delta
        }),
{
    let t = h * 60 + mi + delta;
    lemma_next_day(y, m, d);
    lemma_prev_day(y, m, d);
    if t < 0 {
        vstd::arithmetic::div_mod::lemma_fundamental_div_mod(t + 1440, 60);
    } else if t >= 1440 {
        vstd::arithmetic::div_mod::lemma_fundamental_div_mod(t - 1440, 60);
    } else {
        vstd::arithmetic::div_mod::lemma_fundamental_div_mod(t, 60);
    }
}

} // verus!
