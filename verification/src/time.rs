//! Points in time.

use vstd::prelude::*;
use crate::text::padded_decimal;

verus! {

/// A point in time: nanoseconds since the Unix epoch, in UTC.
#[derive(Clone, Copy, Debug, PartialEq, Eq, Structural)]
pub struct Timestamp {
    pub nanos: i128,
}

/// The first second that chrono's calendar holds: the start of the year -262143.
pub const FIRST_SECOND: i64 = -8_334_601_228_800;

/// The last second that chrono's calendar holds: the end of the year 262142.
pub const LAST_SECOND: i64 = 8_210_266_876_799;

// Renderings

/// The RFC 3339 rendering, in UTC, of the point `secs` seconds and `subsec`
/// nanoseconds after the Unix epoch, as `chrono::DateTime::to_rfc3339` writes it.
pub uninterp spec fn rfc3339_text(secs: i64, subsec: u32) -> Seq<char>;

/// Whole seconds since the Unix epoch and the nanoseconds since then, of a point
/// in the calendar; of any other point, those of the nearest that is in it.
pub open spec fn calendar_parts(t: Timestamp) -> (i64, u32) {
    let secs = t.nanos as int / 1_000_000_000;
    if secs < FIRST_SECOND {
        (FIRST_SECOND, 0)
    } else if secs > LAST_SECOND {
        (LAST_SECOND, 999_999_999)
    } else {
        (secs as i64, (t.nanos as int % 1_000_000_000) as u32)
    }
}

/// The RFC 3339 rendering of a point in time, in UTC.
pub open spec fn rfc3339_at(t: Timestamp) -> Seq<char> {
    rfc3339_text(calendar_parts(t).0, calendar_parts(t).1)
}

/// The time of day, in UTC, of the second `secs` after the Unix epoch, as
/// `HH:MM`.
pub open spec fn hour_minute_text(secs: int) -> Seq<char> {
    let second = secs % 86_400;
    padded_decimal((second / 3600) as nat, 2) + seq![':'] + padded_decimal(
        (second % 3600 / 60) as nat,
        2,
    )
}

/// The time of day in UTC as `HH:MM`.
pub open spec fn hour_minute_at(t: Timestamp) -> Seq<char> {
    hour_minute_text(calendar_parts(t).0 as int)
}

/// Whether a year is a leap year.
pub open spec fn leap_year(year: int) -> bool {
    year % 4 == 0 && (year % 100 != 0 || year % 400 == 0)
}

/// How many days a month has.
pub open spec fn month_len(year: int, month: int) -> int {
    if month == 2 {
        if leap_year(year) {
            29
        } else {
            28
        }
    } else if month == 4 || month == 6 || month == 9 || month == 11 {
        30
    } else {
        31
    }
}

/// How many days of a year come before a month of it.
pub open spec fn days_before_month(year: int, month: int) -> int
    decreases month,
{
    if month <= 1 {
        0
    } else {
        days_before_month(year, month - 1) + month_len(year, month - 1)
    }
}

/// How many days come before a year, from the year 1 on.
#[verifier::opaque]
pub open spec fn days_before_year(year: int) -> int {
    365 * (year - 1) + (year - 1) / 4 - (year - 1) / 100 + (year - 1) / 400
}

/// Whether a date (year, month, day) is that of the day `day` days after
/// 1 January 1970.
pub open spec fn is_date(date: (i32, u32, u32), day: int) -> bool {
    &&& 1 <= date.1 <= 12
    &&& 1 <= date.2 <= month_len(date.0 as int, date.1 as int)
    &&& days_before_year(date.0 as int) + days_before_month(date.0 as int, date.1 as int) + date.2
        - 1 - days_before_year(1970) == day
}

/// Year, month and day of the day `day` days after 1 January 1970.
pub open spec fn civil_date(day: int) -> (i32, u32, u32) {
    choose|date: (i32, u32, u32)| is_date(date, day)
}

/// Year, month and day in UTC.
pub open spec fn date_at(t: Timestamp) -> (i32, u32, u32) {
    civil_date(calendar_parts(t).0 as int / 86_400)
}

/// A quotient grows by one at each multiple.
proof fn lemma_quotient_step(x: int, n: int)
    requires
        n > 0,
    ensures
        x / n - (x - 1) / n == if x % n == 0 {
            1int
        } else {
            0
        },
{
    let q = x / n;
    let r = x % n;
    vstd::arithmetic::div_mod::lemma_fundamental_div_mod(x, n);
    vstd::arithmetic::div_mod::lemma_mod_bound(x, n);
    if r == 0 {
        assert(x - 1 == n * (q - 1) + (n - 1)) by (nonlinear_arith)
            requires
                x == n * q + r,
                r == 0,
        ;
        vstd::arithmetic::div_mod::lemma_fundamental_div_mod_converse(x - 1, n, q - 1, n - 1);
    } else {
        assert(x - 1 == n * q + (r - 1));
        vstd::arithmetic::div_mod::lemma_fundamental_div_mod_converse(x - 1, n, q, r - 1);
    }
}

/// How many days a year has.
pub open spec fn year_len(year: int) -> int {
    if leap_year(year) {
        366
    } else {
        365
    }
}

/// A year starts when the one before it ends.
pub proof fn lemma_year_len(year: int)
    ensures
        days_before_year(year + 1) == days_before_year(year) + year_len(year),
{
    reveal(days_before_year);
    lemma_quotient_step(year, 4);
    lemma_quotient_step(year, 100);
    lemma_quotient_step(year, 400);
    assert(year % 400 == 0 ==> year % 100 == 0) by {
        lemma_multiple(year, 400, 4, 100);
    }
    assert(year % 100 == 0 ==> year % 4 == 0) by {
        lemma_multiple(year, 100, 25, 4);
    }
}

/// A multiple of `n` is one of each factor of `n`.
proof fn lemma_multiple(x: int, n: int, k: int, m: int)
    requires
        n == k * m,
        m > 0,
        n > 0,
    ensures
        x % n == 0 ==> x % m == 0,
{
    if x % n == 0 {
        vstd::arithmetic::div_mod::lemma_fundamental_div_mod(x, n);
        let q = x / n;
        assert(x == m * (k * q)) by (nonlinear_arith)
            requires
                x == n * q,
                n == k * m,
        ;
        vstd::arithmetic::div_mod::lemma_fundamental_div_mod_converse(x, m, k * q, 0);
    }
}

/// A year starts after the days of every earlier year.
proof fn lemma_year_starts(a: int, b: int)
    requires
        a < b,
    ensures
        days_before_year(a) + year_len(a) <= days_before_year(b),
    decreases b - a,
{
    lemma_year_len(a);
    if a + 1 < b {
        lemma_year_starts(a + 1, b);
    }
}

/// A month ends before a later month of the year starts, and the last one ends
/// with the year.
proof fn lemma_month_starts(year: int, a: int, b: int)
    requires
        1 <= a <= b <= 12,
    ensures
        a < b ==> days_before_month(year, a) + month_len(year, a) <= days_before_month(year, b),
        days_before_month(year, a) >= 0,
        days_before_month(year, b) + month_len(year, b) <= year_len(year),
{
    reveal_with_fuel(days_before_month, 13);
}

/// A day has one date.
pub proof fn lemma_one_date(a: (i32, u32, u32), b: (i32, u32, u32), day: int)
    requires
        is_date(a, day),
        is_date(b, day),
    ensures
        a == b,
{
    let (ya, ma, yb, mb) = (a.0 as int, a.1 as int, b.0 as int, b.1 as int);
    lemma_month_starts(ya, ma, ma);
    lemma_month_starts(yb, mb, mb);
    if ya < yb {
        lemma_year_starts(ya, yb);
    } else if yb < ya {
        lemma_year_starts(yb, ya);
    } else if ma < mb {
        lemma_month_starts(ya, ma, mb);
    } else if mb < ma {
        lemma_month_starts(ya, mb, ma);
    }
}

/// `chrono::Utc::now`, `DateTime::timestamp` and
/// `DateTime::timestamp_subsec_nanos`: the current time in whole seconds since
/// the Unix epoch, which it does not precede, and nanoseconds since then.
#[verifier::external_body]
fn clock_parts() -> (parts: (i64, u32))
    ensures
        parts.0 >= 0,
{
    let now = chrono::Utc::now();
    (now.timestamp(), now.timestamp_subsec_nanos())
}

/// `DateTime::from_timestamp`, which succeeds for every second in the calendar,
/// and `DateTime::to_rfc3339`: the rendering is a function of the point in time.
#[verifier::external_body]
fn rfc3339_of(secs: i64, subsec: u32) -> (s: String)
    requires
        FIRST_SECOND <= secs <= LAST_SECOND,
        subsec < 1_000_000_000,
    ensures
        s@ == rfc3339_text(secs, subsec),
{
    chrono::DateTime::from_timestamp(secs, subsec).expect("a point in the calendar").to_rfc3339()
}

/// `DateTime::from_timestamp`, which succeeds for every second in the calendar,
/// and `DateTime::format` with `%H:%M`: hour and minute of the day in UTC, two
/// digits each.
#[verifier::external_body]
fn hour_minute_of(secs: i64) -> (s: String)
    requires
        FIRST_SECOND <= secs <= LAST_SECOND,
    ensures
        s@ == hour_minute_text(secs as int),
{
    let at = chrono::DateTime::from_timestamp(secs, 0).expect("a point in the calendar");
    at.format("%H:%M").to_string()
}

/// `DateTime::from_timestamp`, which succeeds for every second in the calendar,
/// and `Datelike::{year, month, day}`: the date in the Gregorian calendar, which
/// is carried on before its introduction.
#[verifier::external_body]
fn date_of(secs: i64) -> (date: (i32, u32, u32))
    requires
        FIRST_SECOND <= secs <= LAST_SECOND,
    ensures
        is_date(date, secs as int / 86_400),
{
    let at = chrono::DateTime::from_timestamp(secs, 0).expect("a point in the calendar");
    (chrono::Datelike::year(&at), chrono::Datelike::month(&at), chrono::Datelike::day(&at))
}

// Spans

/// The nearest number that has 64 bits.
pub open spec fn bounded(n: int) -> int {
    if n < i64::MIN {
        i64::MIN as int
    } else if n > i64::MAX {
        i64::MAX as int
    } else {
        n
    }
}

/// Whole seconds from `then` to `now`, rounded toward zero, as far as 64 bits
/// go.
pub open spec fn elapsed_secs(now: Timestamp, then: Timestamp) -> int {
    let span = now.nanos - then.nanos;
    bounded(
        if span >= 0 {
            span / 1_000_000_000
        } else {
            -((-span) / 1_000_000_000)
        },
    )
}

/// The point `secs` seconds after `t`, or the last point there is.
pub open spec fn secs_later(t: Timestamp, secs: int) -> Timestamp {
    let nanos = t.nanos + secs * 1_000_000_000;
    Timestamp {
        nanos: if nanos > i128::MAX {
            i128::MAX
        } else {
            nanos as i128
        },
    }
}

/// Whole seconds since the Unix epoch, as far as 64 bits go.
pub open spec fn unix_secs(t: Timestamp) -> int {
    bounded(t.nanos as int / 1_000_000_000)
}

/// Milliseconds since the Unix epoch, `delay_ms` milliseconds after `t`, as far
/// as 64 bits go.
pub open spec fn unix_millis_after(t: Timestamp, delay_ms: int) -> int {
    bounded(t.nanos as int / 1_000_000 + delay_ms)
}

/// The nearest number that has 64 bits.
fn bound(n: i128) -> (res: i64)
    ensures
        res == bounded(n as int),
{
    if n < i64::MIN as i128 {
        i64::MIN
    } else if n > i64::MAX as i128 {
        i64::MAX
    } else {
        n as i64
    }
}

/// `a / b`, rounded down, and what is left.
fn floor_div(a: i128, b: i128) -> (res: (i128, i128))
    requires
        1_000_000 <= b <= 1_000_000_000,
    ensures
        res.0 == a as int / b as int,
        res.1 == a as int % b as int,
        0 <= res.1 < b,
        -0x8_0000_0000_0000_0000_0000_0000_0000 <= res.0,
        res.0 <= 0x8_0000_0000_0000_0000_0000_0000_0000,
{
    if a >= 0 {
        proof {
            lemma_quotient(a as int, b as int);
        }
        (a / b, a % b)
    } else {
        let up = -(a + 1);
        proof {
            lemma_floor(a as int, b as int);
            lemma_quotient(up as int, b as int);
        }
        (-(up / b) - 1, b - 1 - up % b)
    }
}

/// Dividing by a million or more leaves room.
proof fn lemma_quotient(a: int, b: int)
    requires
        0 <= a <= i128::MAX,
        b >= 1_000_000,
    ensures
        0 <= a / b < 0x8_0000_0000_0000_0000_0000_0000_0000,
        0 <= a % b < b,
{
    vstd::arithmetic::div_mod::lemma_fundamental_div_mod(a, b);
    vstd::arithmetic::div_mod::lemma_mod_bound(a, b);
    let q = a / b;
    assert(q >= 0) by {
        vstd::arithmetic::div_mod::lemma_div_pos_is_pos(a, b);
    }
    assert(1_000_000 * q <= b * q) by (nonlinear_arith)
        requires
            q >= 0,
            b >= 1_000_000,
    ;
}

proof fn lemma_floor(a: int, b: int)
    requires
        b > 0,
        a < 0,
    ensures
        -((-(a + 1)) / b) - 1 == a / b,
        b - 1 - (-(a + 1)) % b == a % b,
{
    let q = a / b;
    let r = a % b;
    vstd::arithmetic::div_mod::lemma_fundamental_div_mod(a, b);
    assert(0 <= r < b) by {
        vstd::arithmetic::div_mod::lemma_mod_bound(a, b);
    }
    assert(-(a + 1) == b * (-q - 1) + (b - 1 - r)) by (nonlinear_arith)
        requires
            a == b * q + r,
    ;
    vstd::arithmetic::div_mod::lemma_fundamental_div_mod_converse(
        -(a + 1),
        b,
        -q - 1,
        b - 1 - r,
    );
}

/// Whole seconds between two points, from the seconds at which each stands.
proof fn lemma_span(late: int, early: int)
    requires
        early <= late,
    ensures
        (late - early) / 1_000_000_000 == late / 1_000_000_000 - early / 1_000_000_000 - (if late
            % 1_000_000_000 < early % 1_000_000_000 {
            1int
        } else {
            0
        }),
{
}

impl Timestamp {
    /// The current time, which does not precede the Unix epoch. Which point that
    /// is rests on the clock, and nothing is said of it; [`Timestamp::from_clock`]
    /// says what becomes of each reading.
    pub fn now() -> (t: Timestamp)
        ensures
            t.nanos >= 0,
    {
        let (secs, subsec) = clock_parts();
        Timestamp::from_clock(secs, subsec)
    }

    /// The point that a clock reading stands for: so many seconds and nanoseconds
    /// after the Unix epoch.
    pub fn from_clock(secs: i64, subsec: u32) -> (t: Timestamp)
        ensures
            t.nanos == secs * 1_000_000_000 + subsec,
    {
        Timestamp { nanos: secs as i128 * 1_000_000_000 + subsec as i128 }
    }

    /// Whole seconds from `then` to this point, rounded toward zero.
    pub fn secs_since(self, then: Timestamp) -> (secs: i64)
        ensures
            secs == elapsed_secs(self, then),
    {
        let (a, a_rest) = floor_div(self.nanos, 1_000_000_000);
        let (b, b_rest) = floor_div(then.nanos, 1_000_000_000);
        if self.nanos >= then.nanos {
            proof {
                lemma_span(self.nanos as int, then.nanos as int);
            }
            let borrow: i128 = if a_rest < b_rest {
                1
            } else {
                0
            };
            bound(a - b - borrow)
        } else {
            proof {
                lemma_span(then.nanos as int, self.nanos as int);
            }
            let borrow: i128 = if b_rest < a_rest {
                1
            } else {
                0
            };
            bound(-(b - a - borrow))
        }
    }

    /// The point `secs` seconds later, or the last point there is.
    pub fn later(self, secs: u32) -> (t: Timestamp)
        ensures
            t == secs_later(self, secs as int),
    {
        let step = secs as i128 * 1_000_000_000;
        if self.nanos > i128::MAX - step {
            Timestamp { nanos: i128::MAX }
        } else {
            Timestamp { nanos: self.nanos + step }
        }
    }

    /// Whole seconds since the Unix epoch, rounded down.
    pub fn unix_secs(self) -> (secs: i64)
        ensures
            secs == unix_secs(self),
    {
        bound(floor_div(self.nanos, 1_000_000_000).0)
    }

    /// Milliseconds since the Unix epoch, `delay_ms` milliseconds later.
    pub fn millis_after(self, delay_ms: u16) -> (millis: i64)
        ensures
            millis == unix_millis_after(self, delay_ms as int),
    {
        bound(floor_div(self.nanos, 1_000_000).0 + delay_ms as i128)
    }

    /// Whole seconds since the Unix epoch and nanoseconds since then, as the
    /// calendar has them.
    pub fn parts(self) -> (parts: (i64, u32))
        ensures
            parts == calendar_parts(self),
            FIRST_SECOND <= parts.0 <= LAST_SECOND,
            parts.1 < 1_000_000_000,
    {
        let (secs, subsec) = floor_div(self.nanos, 1_000_000_000);
        if secs < FIRST_SECOND as i128 {
            (FIRST_SECOND, 0)
        } else if secs > LAST_SECOND as i128 {
            (LAST_SECOND, 999_999_999)
        } else {
            (secs as i64, subsec as u32)
        }
    }

    /// The RFC 3339 rendering in UTC.
    pub fn rfc3339(self) -> (s: String)
        ensures
            s@ == rfc3339_at(self),
    {
        let (secs, subsec) = self.parts();
        rfc3339_of(secs, subsec)
    }

    /// The time of day in UTC as `HH:MM`.
    pub fn hour_minute(self) -> (s: String)
        ensures
            s@ == hour_minute_at(self),
    {
        hour_minute_of(self.parts().0)
    }

    /// Year, month and day in UTC.
    pub fn date(self) -> (date: (i32, u32, u32))
        ensures
            date == date_at(self),
            is_date(date, calendar_parts(self).0 as int / 86_400),
    {
        let secs = self.parts().0;
        let date = date_of(secs);
        proof {
            let day = secs as int / 86_400;
            lemma_one_date(date, civil_date(day), day);
        }
        date
    }
}

} // verus!
