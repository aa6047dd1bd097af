//! Rotation periods and the boundary computation: the earliest instant
//! strictly after a given timestamp at which a file opened at that timestamp
//! becomes stale.

use vstd::prelude::*;

use crate::time::{
    enc, enc_date, enc_hour, enc_minute, spec_days_in_month, ts_le, ts_lt, days_in_month,
    Timestamp, SENTINEL_YEAR,
};

verus! {

/// Calendar granularity at which a new log file is started.
#[derive(Clone, Copy, PartialEq, Eq, Structural, Debug)]
pub enum Rotation {
    Minutely,
    Hourly,
    Daily,
    Never,
}

/// Start of the next calendar day, i.e. midnight of the successor date.
pub open spec fn spec_next_day(t: Timestamp) -> Timestamp {
    if (t.day as int) < spec_days_in_month(t.year as int, t.month as int) {
        Timestamp { day: (t.day + 1) as u8, hour: 0, minute: 0, second: 0, ..t }
    } else if t.month < 12 {
        Timestamp { month: (t.month + 1) as u8, day: 1, hour: 0, minute: 0, second: 0, ..t }
    } else {
        Timestamp { year: (t.year + 1) as i32, month: 1, day: 1, hour: 0, minute: 0, second: 0, ..t }
    }
}

/// Start of the next hour.
pub open spec fn spec_next_hour(t: Timestamp) -> Timestamp {
    if t.hour < 23 {
        Timestamp { hour: (t.hour + 1) as u8, minute: 0, second: 0, ..t }
    } else {
        spec_next_day(t)
    }
}

/// Start of the next minute.
pub open spec fn spec_next_minute(t: Timestamp) -> Timestamp {
    if t.minute < 59 {
        Timestamp { minute: (t.minute + 1) as u8, second: 0, ..t }
    } else {
        spec_next_hour(t)
    }
}

/// The sentinel boundary used for `Never`: strictly after every well-formed
/// timestamp, so it is never reached.
pub open spec fn spec_never_boundary() -> Timestamp {
    Timestamp { year: SENTINEL_YEAR, month: 1, day: 1, hour: 0, minute: 0, second: 0 }
}

/// The earliest instant strictly after `t` at which a file opened at `t`
/// becomes stale under rotation period `r`.
pub open spec fn spec_next_boundary(r: Rotation, t: Timestamp) -> Timestamp {
    match r {
        Rotation::Minutely => spec_next_minute(t),
        Rotation::Hourly => spec_next_hour(t),
        Rotation::Daily => spec_next_day(t),
        Rotation::Never => spec_never_boundary(),
    }
}

impl Rotation {
    /// Computes the next rotation boundary after `now`.
    ///
    /// The result is the start of the next minute, hour or calendar day in
    /// local civil time, or the unreachable sentinel for `Never`.
    pub fn next_boundary(&self, now: &Timestamp) -> (r: Timestamp)
        requires
            now.wf(),
        ensures
            r == spec_next_boundary(*self, *now),
            r.in_range(),
            ts_lt(*now, r),
    {
        proof {
            lemma_next_boundary_after(*self, *now);
            lemma_next_boundary_in_range(*self, *now);
        }
        match self {
            Rotation::Minutely => {
                if now.minute < 59 {
                    Timestamp { minute: now.minute + 1, second: 0, ..*now }
                } else {
                    next_hour(now)
                }
            }
            Rotation::Hourly => next_hour(now),
            Rotation::Daily => next_day(now),
            Rotation::Never => Timestamp {
                year: SENTINEL_YEAR,
                month: 1,
                day: 1,
                hour: 0,
                minute: 0,
                second: 0,
            },
        }
    }
}

/// Executable start-of-next-hour, exact against `spec_next_hour`; for a
/// timestamp at 23h it falls through to the next day.
fn next_hour(now: &Timestamp) -> (r: Timestamp)
    requires
        now.wf(),
    ensures
        r == if now.hour < 23 { spec_next_hour(*now) } else { spec_next_day(*now) },
{
    if now.hour < 23 {
        Timestamp { hour: now.hour + 1, minute: 0, second: 0, ..*now }
    } else {
        next_day(now)
    }
}

/// Executable start-of-next-day, exact against `spec_next_day`.
fn next_day(now: &Timestamp) -> (r: Timestamp)
    requires
        now.wf(),
    ensures
        r == spec_next_day(*now),
{
    let dim = days_in_month(now.year, now.month);
    if now.day < dim {
        Timestamp { day: now.day + 1, hour: 0, minute: 0, second: 0, ..*now }
    } else if now.month < 12 {
        Timestamp { month: now.month + 1, day: 1, hour: 0, minute: 0, second: 0, ..*now }
    } else {
        Timestamp { year: now.year + 1, month: 1, day: 1, hour: 0, minute: 0, second: 0, ..*now }
    }
}

/// The boundary lies strictly after the timestamp it was computed from, for
/// every rotation period.
pub proof fn lemma_next_boundary_after(r: Rotation, t: Timestamp)
    requires
        t.wf(),
    ensures
        ts_lt(t, spec_next_boundary(r, t)),
{
}

/// The boundary of a well-formed timestamp stays within the representable
/// field ranges (the year may reach the sentinel year, nothing more).
pub proof fn lemma_next_boundary_in_range(r: Rotation, t: Timestamp)
    requires
        t.wf(),
    ensures
        spec_next_boundary(r, t).in_range(),
{
}

/// No well-formed date lies strictly between a date and its calendar
/// successor: the successor of `t`'s date is the least well-formed date
/// whose encoding exceeds `t`'s.
proof fn lemma_date_successor_gap(t: Timestamp, u: Timestamp)
    requires
        t.wf(),
        u.wf(),
        enc_date(t) < enc_date(u),
    ensures
        enc_date(spec_next_day(t)) <= enc_date(u),
{
    let dim = spec_days_in_month(t.year as int, t.month as int);
    let a = ((u.year as int) * 13 + (u.month as int)) - ((t.year as int) * 13 + (t.month as int));
    if a == 0 {
        assert(u.year == t.year && u.month == t.month);
        assert(u.day <= spec_days_in_month(u.year as int, u.month as int));
    }
}

/// Two well-formed timestamps on the same calendar day, where the second is
/// not earlier and still precedes the start of the next day, share their
/// date fields.
proof fn lemma_same_date(t: Timestamp, u: Timestamp)
    requires
        t.wf(),
        u.wf(),
        ts_le(t, u),
        ts_lt(u, spec_next_day(t)),
    ensures
        u.year == t.year,
        u.month == t.month,
        u.day == t.day,
{
    let edn = enc_date(spec_next_day(t));
    assert(enc(t) == enc_date(t) * 86400 + (t.hour as int) * 3600 + (t.minute as int) * 60
        + (t.second as int));
    assert(enc(u) == enc_date(u) * 86400 + (u.hour as int) * 3600 + (u.minute as int) * 60
        + (u.second as int));
    assert(enc(spec_next_day(t)) == edn * 86400);
    assert(enc_date(u) >= enc_date(t));
    assert(enc_date(u) < edn);
    if enc_date(u) > enc_date(t) {
        lemma_date_successor_gap(t, u);
        assert(false);
    }
    assert(enc_date(u) == enc_date(t));
}

/// The timestamp fields shown at granularity `r`: the whole date for daily
/// rotation, refined by the hour and the minute for the finer periods.
/// For `Never` no timestamp fields are shown, so all stamps agree.
pub open spec fn same_stamp(r: Rotation, a: Timestamp, b: Timestamp) -> bool {
    match r {
        Rotation::Minutely => enc_minute(a) == enc_minute(b),
        Rotation::Hourly => enc_hour(a) == enc_hour(b),
        Rotation::Daily => enc_date(a) == enc_date(b),
        Rotation::Never => true,
    }
}

/// Recomputing the boundary from any timestamp at or after `t` but still
/// before `t`'s boundary yields the same boundary: the computation is
/// idempotent within one period.
pub proof fn lemma_next_boundary_stable(r: Rotation, t: Timestamp, t2: Timestamp)
    requires
        t.wf(),
        t2.wf(),
        ts_le(t, t2),
        ts_lt(t2, spec_next_boundary(r, t)),
    ensures
        spec_next_boundary(r, t2) == spec_next_boundary(r, t),
{
    lemma_same_period(r, t, t2);
    match r {
        Rotation::Minutely => {
            assert(spec_next_minute(t2) == spec_next_minute(t));
        }
        Rotation::Hourly => {
            assert(spec_next_hour(t2) == spec_next_hour(t));
        }
        Rotation::Daily => {
            assert(spec_next_day(t2) == spec_next_day(t));
        }
        Rotation::Never => {}
    }
}

/// A timestamp at or after `t` but before `t`'s boundary lies in the same
/// period as `t`: it shows the same fields at the rotation's granularity.
pub proof fn lemma_same_period(r: Rotation, t: Timestamp, t2: Timestamp)
    requires
        t.wf(),
        t2.wf(),
        ts_le(t, t2),
        ts_lt(t2, spec_next_boundary(r, t)),
    ensures
        same_stamp(r, t, t2),
        r != Rotation::Never ==> t2.hour == t.hour || r == Rotation::Daily,
        r == Rotation::Minutely ==> t2.minute == t.minute,
        r != Rotation::Never ==> t2.year == t.year && t2.month == t.month && t2.day == t.day,
{
    let b = spec_next_boundary(r, t);
    match r {
        Rotation::Daily => {
            lemma_same_date(t, t2);
        }
        Rotation::Hourly => {
            lemma_before_next_hour_same_date(t, t2);
            assert(enc_date(t2) == enc_date(t));
            assert(enc(t) == enc_date(t) * 86400 + (t.hour as int) * 3600 + (t.minute as int)
                * 60 + (t.second as int));
            assert(enc(t2) == enc_date(t2) * 86400 + (t2.hour as int) * 3600 + (t2.minute as int)
                * 60 + (t2.second as int));
            if t.hour < 23 {
                assert(enc(b) == enc_date(t) * 86400 + ((t.hour + 1) as int) * 3600);
            }
            assert(t2.hour == t.hour);
        }
        Rotation::Minutely => {
            lemma_before_next_minute_same_date(t, t2);
            assert(enc_date(t2) == enc_date(t));
            assert(enc(t) == enc_date(t) * 86400 + (t.hour as int) * 3600 + (t.minute as int)
                * 60 + (t.second as int));
            assert(enc(t2) == enc_date(t2) * 86400 + (t2.hour as int) * 3600 + (t2.minute as int)
                * 60 + (t2.second as int));
            if t.minute < 59 {
                assert(enc(b) == enc_date(t) * 86400 + (t.hour as int) * 3600 + ((t.minute
                    + 1) as int) * 60);
            } else if t.hour < 23 {
                assert(enc(b) == enc_date(t) * 86400 + ((t.hour + 1) as int) * 3600);
            }
            assert(t2.hour == t.hour);
            assert(t2.minute == t.minute);
        }
        Rotation::Never => {}
    }
}

/// A timestamp before the start of `t`'s next hour is still on `t`'s day.
proof fn lemma_before_next_hour_same_date(t: Timestamp, t2: Timestamp)
    requires
        t.wf(),
        t2.wf(),
        ts_le(t, t2),
        ts_lt(t2, spec_next_hour(t)),
    ensures
        t2.year == t.year,
        t2.month == t.month,
        t2.day == t.day,
{
    if t.hour < 23 {
        let b = spec_next_hour(t);
        assert(enc(b) == enc_date(t) * 86400 + ((t.hour + 1) as int) * 3600);
        lemma_date_jump(t);
        assert(ts_lt(t2, spec_next_day(t)));
        lemma_same_date(t, t2);
    } else {
        lemma_same_date(t, t2);
    }
}

/// A timestamp before the start of `t`'s next minute is still on `t`'s day.
proof fn lemma_before_next_minute_same_date(t: Timestamp, t2: Timestamp)
    requires
        t.wf(),
        t2.wf(),
        ts_le(t, t2),
        ts_lt(t2, spec_next_minute(t)),
    ensures
        t2.year == t.year,
        t2.month == t.month,
        t2.day == t.day,
{
    if t.minute < 59 {
        let b = spec_next_minute(t);
        assert(enc(b) == enc_date(t) * 86400 + (t.hour as int) * 3600 + ((t.minute + 1) as int)
            * 60);
        lemma_date_jump(t);
        assert(ts_lt(t2, spec_next_day(t)));
        lemma_same_date(t, t2);
    } else {
        lemma_before_next_hour_same_date(t, t2);
    }
}

/// The date encoding strictly increases from a date to its successor.
proof fn lemma_date_jump(t: Timestamp)
    requires
        t.wf(),
    ensures
        enc_date(spec_next_day(t)) >= enc_date(t) + 1,
        enc(spec_next_day(t)) == enc_date(spec_next_day(t)) * 86400,
{
}

/// Once a timestamp has reached the boundary computed from `t`, it no longer
/// shows `t`'s fields at the rotation's granularity: a fresh file name must
/// differ.
pub proof fn lemma_boundary_crossed(r: Rotation, t: Timestamp, t2: Timestamp)
    requires
        r != Rotation::Never,
        t.wf(),
        t2.wf(),
        ts_le(spec_next_boundary(r, t), t2),
    ensures
        !same_stamp(r, t, t2),
{
    let b = spec_next_boundary(r, t);
    assert(enc(t2) == enc_date(t2) * 86400 + (t2.hour as int) * 3600 + (t2.minute as int) * 60
        + (t2.second as int));
    lemma_date_jump(t);
    match r {
        Rotation::Daily => {
            if enc_date(t2) == enc_date(t) {
                assert(false);
            }
        }
        Rotation::Hourly => {
            if enc_hour(t2) == enc_hour(t) {
                if t.hour < 23 {
                    assert(enc(b) == enc_date(t) * 86400 + ((t.hour + 1) as int) * 3600);
                }
                assert(false);
            }
        }
        Rotation::Minutely => {
            if enc_minute(t2) == enc_minute(t) {
                if t.minute < 59 {
                    assert(enc(b) == enc_date(t) * 86400 + (t.hour as int) * 3600 + ((t.minute
                        + 1) as int) * 60);
                } else if t.hour < 23 {
                    assert(enc(b) == enc_date(t) * 86400 + ((t.hour + 1) as int) * 3600);
                }
                assert(false);
            }
        }
        Rotation::Never => {}
    }
}

/// Every well-formed timestamp lies strictly before the sentinel boundary:
/// under `Never` the boundary is never reached, however many writes occur.
pub proof fn lemma_never_boundary_unreachable(t: Timestamp)
    requires
        t.wf(),
    ensures
        ts_lt(t, spec_never_boundary()),
        !ts_le(spec_never_boundary(), t),
{
}

} // verus!
