//! Local civil (calendar) time, modeled as plain year/month/day/hour/minute/
//! second fields.
//!
//! Rotation boundaries are local calendar instants, so the model is the local
//! civil clock reading itself, not a UTC offset or a monotonic instant.  Note
//! that across a daylight-saving transition the local clock may repeat or skip
//! readings; the rotation semantics deliberately follow the local calendar and
//! inherit that ambiguity.

use vstd::prelude::*;

verus! {

/// Smallest year a timestamp obtained from the system clock can carry.
pub const MIN_YEAR: i32 = -262144;

/// Largest year a timestamp obtained from the system clock can carry.
pub const MAX_YEAR: i32 = 262143;

/// Year of the sentinel instant that stands for "never": it lies strictly
/// after every well-formed timestamp.
pub const SENTINEL_YEAR: i32 = 262144;

/// A local civil date and time of day, second precision.
#[derive(Clone, Copy, PartialEq, Eq, Structural, Debug)]
pub struct Timestamp {
    pub year: i32,
    /// 1-based month, `1..=12`.
    pub month: u8,
    /// 1-based day of month.
    pub day: u8,
    pub hour: u8,
    pub minute: u8,
    pub second: u8,
}

/// Proleptic Gregorian leap-year rule.
pub open spec fn is_leap_year(y: int) -> bool {
    (y % 4 == 0 && y % 100 != 0) || y % 400 == 0
}

/// Number of days in the given month of the given year.
pub open spec fn spec_days_in_month(y: int, m: int) -> int {
    if m == 2 {
        if is_leap_year(y) {
            29
        } else {
            28
        }
    } else if m == 4 || m == 6 || m == 9 || m == 11 {
        30
    } else {
        31
    }
}

/// Injective encoding of the date fields into a single integer; the order of
/// encodings is the calendar order of valid dates.
pub open spec fn enc_date(t: Timestamp) -> int {
    ((t.year as int) * 13 + (t.month as int)) * 32 + (t.day as int)
}

/// Encoding of the fields down to the hour.
pub open spec fn enc_hour(t: Timestamp) -> int {
    enc_date(t) * 24 + (t.hour as int)
}

/// Encoding of the fields down to the minute.
pub open spec fn enc_minute(t: Timestamp) -> int {
    enc_hour(t) * 60 + (t.minute as int)
}

/// Injective, order-preserving encoding of a whole timestamp.
pub open spec fn enc(t: Timestamp) -> int {
    enc_minute(t) * 60 + (t.second as int)
}

/// `a` is strictly earlier than `b`.
pub open spec fn ts_lt(a: Timestamp, b: Timestamp) -> bool {
    enc(a) < enc(b)
}

/// `a` is earlier than or equal to `b`.
pub open spec fn ts_le(a: Timestamp, b: Timestamp) -> bool {
    enc(a) <= enc(b)
}

impl Timestamp {
    /// Every field is within its plain range; the year range additionally
    /// admits the sentinel year.
    pub open spec fn in_range(self) -> bool {
        &&& MIN_YEAR <= self.year <= SENTINEL_YEAR
        &&& 1 <= self.month <= 12
        &&& 1 <= self.day <= 31
        &&& self.hour <= 23
        &&& self.minute <= 59
        &&& self.second <= 59
    }

    /// A well-formed timestamp: a valid calendar date (day count respects the
    /// month) combined with a valid time of day, within the representable
    /// year range of the system clock.
    pub open spec fn wf(self) -> bool {
        &&& self.in_range()
        &&& self.year <= MAX_YEAR
        &&& self.day <= spec_days_in_month(self.year as int, self.month as int)
    }

    /// Builds a timestamp from its fields.
    pub fn new(year: i32, month: u8, day: u8, hour: u8, minute: u8, second: u8) -> (t: Timestamp)
        ensures
            t == (Timestamp { year, month, day, hour, minute, second }),
    {
        Timestamp { year, month, day, hour, minute, second }
    }

    /// Decides well-formedness, so that unverified callers can validate a
    /// timestamp before handing it to functions that expect one.
    pub fn is_wf(&self) -> (r: bool)
        ensures
            r == self.wf(),
    {
        MIN_YEAR <= self.year && self.year <= MAX_YEAR && 1 <= self.month && self.month <= 12
            && 1 <= self.day && self.day <= days_in_month(self.year, self.month) && self.hour
            <= 23 && self.minute <= 59 && self.second <= 59
    }

    /// True when `self` is at or after `other` in calendar order.
    pub fn at_or_after(&self, other: &Timestamp) -> (r: bool)
        requires
            self.in_range(),
            other.in_range(),
        ensures
            r == ts_le(*other, *self),
    {
        enc_i64(self) >= enc_i64(other)
    }

    /// True when `self` is strictly before `other` in calendar order.
    pub fn before(&self, other: &Timestamp) -> (r: bool)
        requires
            self.in_range(),
            other.in_range(),
        ensures
            r == ts_lt(*self, *other),
    {
        enc_i64(self) < enc_i64(other)
    }
}

/// Executable form of the timestamp encoding, exact on every in-range value.
fn enc_i64(t: &Timestamp) -> (r: i64)
    requires
        t.in_range(),
    ensures
        r as int == enc(*t),
{
    let d: i64 = ((t.year as i64) * 13 + (t.month as i64)) * 32 + (t.day as i64);
    let m: i64 = (d * 24 + (t.hour as i64)) * 60 + (t.minute as i64);
    m * 60 + (t.second as i64)
}

/// Executable leap-year test, exact against the proleptic Gregorian rule.
pub fn days_in_month(year: i32, month: u8) -> (r: u8)
    requires
        MIN_YEAR <= year <= SENTINEL_YEAR,
        1 <= month <= 12,
    ensures
        r as int == spec_days_in_month(year as int, month as int),
{
    if month == 2 {
        if leap_year(year) {
            29
        } else {
            28
        }
    } else if month == 4 || month == 6 || month == 9 || month == 11 {
        30
    } else {
        31
    }
}

/// True exactly on leap years of the proleptic Gregorian calendar.
fn leap_year(year: i32) -> (r: bool)
    requires
        MIN_YEAR <= year <= SENTINEL_YEAR,
    ensures
        r == is_leap_year(year as int),
{
    // Shift by a multiple of the 400-year cycle so the remainders are taken
    // of a non-negative value.
    let y: i32 = year + 262400;
    proof {
        lemma_leap_shift(year as int);
    }
    (y % 4 == 0 && y % 100 != 0) || y % 400 == 0
}

/// The leap-year rule has period 400, so shifting by 262400 preserves it.
proof fn lemma_leap_shift(y: int)
    ensures
        is_leap_year(y + 262400) == is_leap_year(y),
{
    assert((y + 262400) % 4 == y % 4) by {
        vstd::arithmetic::div_mod::lemma_mod_multiples_vanish(65600, y, 4);
    };
    assert((y + 262400) % 100 == y % 100) by {
        vstd::arithmetic::div_mod::lemma_mod_multiples_vanish(2624, y, 100);
    };
    assert((y + 262400) % 400 == y % 400) by {
        vstd::arithmetic::div_mod::lemma_mod_multiples_vanish(656, y, 400);
    };
}

} // verus!
