//! Derivation of per-period file names: a prefix joined with a
//! timestamp-formatted suffix whose granularity matches the rotation period.
//!
//! The suffix shows the date for daily rotation, date and hour for hourly,
//! date, hour and minute for minutely, and nothing for a rotation of never.
//! The derivation is a pure function of its arguments, and distinct stamps
//! yield distinct names, which is what makes rotation actually switch files.

use vstd::prelude::*;

use crate::rotation::{same_stamp, Rotation};
use crate::time::{enc_date, enc_hour, enc_minute, Timestamp};

verus! {

/// The decimal digit character for `d`.
pub open spec fn spec_digit_char(d: int) -> char {
    if d == 0 {
        '0'
    } else if d == 1 {
        '1'
    } else if d == 2 {
        '2'
    } else if d == 3 {
        '3'
    } else if d == 4 {
        '4'
    } else if d == 5 {
        '5'
    } else if d == 6 {
        '6'
    } else if d == 7 {
        '7'
    } else if d == 8 {
        '8'
    } else {
        '9'
    }
}

/// Two-digit zero-padded decimal rendering of `n`, for `n < 100`.
pub open spec fn spec_pad2(n: int) -> Seq<char> {
    seq![spec_digit_char(n / 10), spec_digit_char(n % 10)]
}

/// Decimal rendering of `n` zero-padded to at least four digits, for
/// `n < 1000000`.
pub open spec fn spec_pad_min4(n: int) -> Seq<char> {
    if n < 10000 {
        seq![
            spec_digit_char(n / 1000),
            spec_digit_char(n / 100 % 10),
            spec_digit_char(n / 10 % 10),
            spec_digit_char(n % 10),
        ]
    } else if n < 100000 {
        seq![
            spec_digit_char(n / 10000),
            spec_digit_char(n / 1000 % 10),
            spec_digit_char(n / 100 % 10),
            spec_digit_char(n / 10 % 10),
            spec_digit_char(n % 10),
        ]
    } else {
        seq![
            spec_digit_char(n / 100000),
            spec_digit_char(n / 10000 % 10),
            spec_digit_char(n / 1000 % 10),
            spec_digit_char(n / 100 % 10),
            spec_digit_char(n / 10 % 10),
            spec_digit_char(n % 10),
        ]
    }
}

/// Rendering of a year, negative years with a leading minus sign.
pub open spec fn spec_year_seq(y: int) -> Seq<char> {
    if y < 0 {
        seq!['-'] + spec_pad_min4(-y)
    } else {
        spec_pad_min4(y)
    }
}

/// `YYYY-MM-DD` rendering of the date fields of `t`.
pub open spec fn spec_date_seq(t: Timestamp) -> Seq<char> {
    spec_year_seq(t.year as int) + seq!['-'] + spec_pad2(t.month as int) + seq!['-'] + spec_pad2(
        t.day as int,
    )
}

/// The full file name derived from `prefix` for a file opened at `t` under
/// rotation period `r`.
pub open spec fn spec_file_name(r: Rotation, prefix: Seq<char>, t: Timestamp) -> Seq<char> {
    match r {
        Rotation::Never => prefix,
        Rotation::Daily => prefix + seq!['.'] + spec_date_seq(t),
        Rotation::Hourly => prefix + seq!['.'] + spec_date_seq(t) + seq!['-'] + spec_pad2(
            t.hour as int,
        ),
        Rotation::Minutely => prefix + seq!['.'] + spec_date_seq(t) + seq!['-'] + spec_pad2(
            t.hour as int,
        ) + seq!['-'] + spec_pad2(t.minute as int),
    }
}

/// The one-character string for a decimal digit.
fn digit_str(d: u8) -> (r: &'static str)
    requires
        d < 10,
    ensures
        r@ == seq![spec_digit_char(d as int)],
{
    let r = match d {
        0 => "0",
        1 => "1",
        2 => "2",
        3 => "3",
        4 => "4",
        5 => "5",
        6 => "6",
        7 => "7",
        8 => "8",
        _ => "9",
    };
    proof {
        reveal_strlit("0");
        reveal_strlit("1");
        reveal_strlit("2");
        reveal_strlit("3");
        reveal_strlit("4");
        reveal_strlit("5");
        reveal_strlit("6");
        reveal_strlit("7");
        reveal_strlit("8");
        reveal_strlit("9");
        assert(r@ =~= seq![spec_digit_char(d as int)]);
    }
    r
}

/// Appends the two-digit rendering of `n` to `s`.
fn push_pad2(s: &mut String, n: u8)
    requires
        n < 100,
    ensures
        final(s)@ == old(s)@ + spec_pad2(n as int),
{
    s.append(digit_str(n / 10));
    s.append(digit_str(n % 10));
    proof {
        assert(s@ =~= old(s)@ + spec_pad2(n as int));
    }
}

/// Appends the at-least-four-digit rendering of `n` to `s`.
fn push_pad_min4(s: &mut String, n: u32)
    requires
        n < 1000000,
    ensures
        final(s)@ == old(s)@ + spec_pad_min4(n as int),
{
    if n < 10000 {
        s.append(digit_str((n / 1000) as u8));
        s.append(digit_str((n / 100 % 10) as u8));
        s.append(digit_str((n / 10 % 10) as u8));
        s.append(digit_str((n % 10) as u8));
    } else if n < 100000 {
        s.append(digit_str((n / 10000) as u8));
        s.append(digit_str((n / 1000 % 10) as u8));
        s.append(digit_str((n / 100 % 10) as u8));
        s.append(digit_str((n / 10 % 10) as u8));
        s.append(digit_str((n % 10) as u8));
    } else {
        s.append(digit_str((n / 100000) as u8));
        s.append(digit_str((n / 10000 % 10) as u8));
        s.append(digit_str((n / 1000 % 10) as u8));
        s.append(digit_str((n / 100 % 10) as u8));
        s.append(digit_str((n / 10 % 10) as u8));
        s.append(digit_str((n % 10) as u8));
    }
    proof {
        assert(s@ =~= old(s)@ + spec_pad_min4(n as int));
    }
}

/// Appends the rendering of year `y` to `s`.
fn push_year(s: &mut String, y: i32)
    requires
        -1000000 < y < 1000000,
    ensures
        final(s)@ == old(s)@ + spec_year_seq(y as int),
{
    if y < 0 {
        s.append("-");
        push_pad_min4(s, (0 - y) as u32);
        proof {
            reveal_strlit("-");
            assert(s@ =~= old(s)@ + spec_year_seq(y as int));
        }
    } else {
        push_pad_min4(s, y as u32);
    }
}

/// Appends the `YYYY-MM-DD` rendering of `t`'s date to `s`.
fn push_date(s: &mut String, t: &Timestamp)
    requires
        t.in_range(),
    ensures
        final(s)@ == old(s)@ + spec_date_seq(*t),
{
    push_year(s, t.year);
    s.append("-");
    push_pad2(s, t.month);
    s.append("-");
    push_pad2(s, t.day);
    proof {
        reveal_strlit("-");
        assert(s@ =~= old(s)@ + spec_date_seq(*t));
    }
}

impl Rotation {
    /// Derives the file name for a file opened at `now`: the `prefix` joined
    /// with a suffix at this period's granularity, or the bare prefix when
    /// the period is `Never`.
    pub fn file_suffix(&self, prefix: &str, now: &Timestamp) -> (r: String)
        requires
            now.in_range(),
        ensures
            r@ == spec_file_name(*self, prefix@, *now),
    {
        let mut s = String::from_str(prefix);
        match self {
            Rotation::Never => s,
            Rotation::Daily => {
                s.append(".");
                push_date(&mut s, now);
                proof {
                    reveal_strlit(".");
                    assert(s@ =~= spec_file_name(*self, prefix@, *now));
                }
                s
            }
            Rotation::Hourly => {
                s.append(".");
                push_date(&mut s, now);
                s.append("-");
                push_pad2(&mut s, now.hour);
                proof {
                    reveal_strlit(".");
                    reveal_strlit("-");
                    assert(s@ =~= spec_file_name(*self, prefix@, *now));
                }
                s
            }
            Rotation::Minutely => {
                s.append(".");
                push_date(&mut s, now);
                s.append("-");
                push_pad2(&mut s, now.hour);
                s.append("-");
                push_pad2(&mut s, now.minute);
                proof {
                    reveal_strlit(".");
                    reveal_strlit("-");
                    assert(s@ =~= spec_file_name(*self, prefix@, *now));
                }
                s
            }
        }
    }
}

/// Distinct digits render as distinct characters, and never as a sign or a
/// separator character.
proof fn lemma_digit_char_inj(a: int, b: int)
    requires
        0 <= a < 10,
        0 <= b < 10,
    ensures
        spec_digit_char(a) == spec_digit_char(b) ==> a == b,
        spec_digit_char(a) != '-',
        spec_digit_char(a) != '.',
{
}

/// A non-negative integer is recovered from its six low decimal digits.
proof fn lemma_digits6(a: int)
    requires
        0 <= a,
    ensures
        a == (a / 100000) * 100000 + (a / 10000 % 10) * 10000 + (a / 1000 % 10) * 1000 + (a / 100
            % 10) * 100 + (a / 10 % 10) * 10 + a % 10,
{
    vstd::arithmetic::div_mod::lemma_fundamental_div_mod(a, 10);
    vstd::arithmetic::div_mod::lemma_fundamental_div_mod(a / 10, 10);
    vstd::arithmetic::div_mod::lemma_fundamental_div_mod(a / 100, 10);
    vstd::arithmetic::div_mod::lemma_fundamental_div_mod(a / 1000, 10);
    vstd::arithmetic::div_mod::lemma_fundamental_div_mod(a / 10000, 10);
    vstd::arithmetic::div_mod::lemma_div_denominator(a, 10, 10);
    vstd::arithmetic::div_mod::lemma_div_denominator(a, 100, 10);
    vstd::arithmetic::div_mod::lemma_div_denominator(a, 1000, 10);
    vstd::arithmetic::div_mod::lemma_div_denominator(a, 10000, 10);
}

/// Cancelling equal-length tails (and hence heads) of equal concatenations.
proof fn lemma_concat_cancel(a1: Seq<char>, b1: Seq<char>, a2: Seq<char>, b2: Seq<char>)
    requires
        a1 + b1 == a2 + b2,
        b1.len() == b2.len(),
    ensures
        a1 == a2,
        b1 == b2,
{
    assert((a1 + b1).len() == a1.len() + b1.len());
    assert((a2 + b2).len() == a2.len() + b2.len());
    assert(a1.len() == a2.len());
    assert forall|i: int| 0 <= i < a1.len() implies a1[i] == a2[i] by {
        assert((a1 + b1)[i] == a1[i]);
        assert((a2 + b2)[i] == a2[i]);
    }
    assert(a1 =~= a2);
    assert forall|i: int| 0 <= i < b1.len() implies b1[i] == b2[i] by {
        assert((a1 + b1)[a1.len() + i] == b1[i]);
        assert((a2 + b2)[a2.len() + i] == b2[i]);
    }
    assert(b1 =~= b2);
}

/// The two-digit rendering determines its value.
proof fn lemma_pad2_inj(a: int, b: int)
    requires
        0 <= a < 100,
        0 <= b < 100,
        spec_pad2(a) == spec_pad2(b),
    ensures
        a == b,
{
    assert(spec_pad2(a)[0] == spec_digit_char(a / 10));
    assert(spec_pad2(a)[1] == spec_digit_char(a % 10));
    lemma_digit_char_inj(a / 10, b / 10);
    lemma_digit_char_inj(a % 10, b % 10);
    vstd::arithmetic::div_mod::lemma_fundamental_div_mod(a, 10);
    vstd::arithmetic::div_mod::lemma_fundamental_div_mod(b, 10);
}

/// The padded decimal rendering determines its value.
proof fn lemma_pad_min4_inj(a: int, b: int)
    requires
        0 <= a < 1000000,
        0 <= b < 1000000,
        spec_pad_min4(a) == spec_pad_min4(b),
    ensures
        a == b,
{
    lemma_digits6(a);
    lemma_digits6(b);
    if a < 10000 && b < 10000 {
        lemma_digit_char_inj(a / 1000, b / 1000);
        lemma_digit_char_inj(a / 100 % 10, b / 100 % 10);
        lemma_digit_char_inj(a / 10 % 10, b / 10 % 10);
        lemma_digit_char_inj(a % 10, b % 10);
    } else if 10000 <= a < 100000 && 10000 <= b < 100000 {
        lemma_digit_char_inj(a / 10000, b / 10000);
        lemma_digit_char_inj(a / 1000 % 10, b / 1000 % 10);
        lemma_digit_char_inj(a / 100 % 10, b / 100 % 10);
        lemma_digit_char_inj(a / 10 % 10, b / 10 % 10);
        lemma_digit_char_inj(a % 10, b % 10);
    } else if 100000 <= a && 100000 <= b {
        lemma_digit_char_inj(a / 100000, b / 100000);
        lemma_digit_char_inj(a / 10000 % 10, b / 10000 % 10);
        lemma_digit_char_inj(a / 1000 % 10, b / 1000 % 10);
        lemma_digit_char_inj(a / 100 % 10, b / 100 % 10);
        lemma_digit_char_inj(a / 10 % 10, b / 10 % 10);
        lemma_digit_char_inj(a % 10, b % 10);
    } else {
        // widths differ, so the sequences cannot be equal
        assert(spec_pad_min4(a).len() == if a < 10000 {
            4int
        } else if a < 100000 {
            5int
        } else {
            6int
        });
        assert(spec_pad_min4(b).len() == if b < 10000 {
            4int
        } else if b < 100000 {
            5int
        } else {
            6int
        });
    }
}

/// The year rendering determines the year, sign included.
proof fn lemma_year_seq_inj(a: int, b: int)
    requires
        -1000000 < a < 1000000,
        -1000000 < b < 1000000,
        spec_year_seq(a) == spec_year_seq(b),
    ensures
        a == b,
{
    if a >= 0 && b >= 0 {
        lemma_pad_min4_inj(a, b);
    } else if a < 0 && b < 0 {
        assert((seq!['-'] + spec_pad_min4(-a)).len() == 1 + spec_pad_min4(-a).len());
        assert((seq!['-'] + spec_pad_min4(-b)).len() == 1 + spec_pad_min4(-b).len());
        assert(spec_pad_min4(-a).len() == spec_pad_min4(-b).len());
        lemma_concat_cancel(seq!['-'], spec_pad_min4(-a), seq!['-'], spec_pad_min4(-b));
        lemma_pad_min4_inj(-a, -b);
    } else if a >= 0 {
        lemma_digit_char_inj(first_digit(a), first_digit(a));
        assert(spec_year_seq(a)[0] == spec_digit_char(first_digit(a)));
        assert(spec_year_seq(b)[0] == '-');
    } else {
        lemma_digit_char_inj(first_digit(b), first_digit(b));
        assert(spec_year_seq(b)[0] == spec_digit_char(first_digit(b)));
        assert(spec_year_seq(a)[0] == '-');
    }
}

/// Leading digit of the padded rendering of a non-negative integer.
spec fn first_digit(n: int) -> int {
    if n < 10000 {
        n / 1000
    } else if n < 100000 {
        n / 10000
    } else {
        n / 100000
    }
}

/// A file name splits into the prefix, the dot, the year, and the
/// fixed-width stamp tail.
#[verifier::rlimit(60)]
proof fn lemma_name_parts(r: Rotation, prefix: Seq<char>, t: Timestamp)
    requires
        r != Rotation::Never,
    ensures
        spec_file_name(r, prefix, t) == (prefix + seq!['.'] + spec_year_seq(t.year as int))
            + stamp_tail(r, t),
{
    assert(spec_file_name(r, prefix, t) =~= (prefix + seq!['.'] + spec_year_seq(t.year as int))
        + stamp_tail(r, t));
}

/// File names derived from the same prefix for timestamps that differ at the
/// rotation's granularity are themselves distinct: crossing a boundary always
/// switches to a fresh file.
#[verifier::rlimit(60)]
pub proof fn lemma_file_name_differs(r: Rotation, prefix: Seq<char>, t: Timestamp, t2: Timestamp)
    requires
        r != Rotation::Never,
        t.in_range(),
        t2.in_range(),
        !same_stamp(r, t, t2),
    ensures
        spec_file_name(r, prefix, t) != spec_file_name(r, prefix, t2),
{
    let y1 = t.year as int;
    let y2 = t2.year as int;
    let head1 = prefix + seq!['.'] + spec_year_seq(y1);
    let head2 = prefix + seq!['.'] + spec_year_seq(y2);
    if spec_file_name(r, prefix, t) == spec_file_name(r, prefix, t2) {
        let tail1 = stamp_tail(r, t);
        let tail2 = stamp_tail(r, t2);
        lemma_name_parts(r, prefix, t);
        lemma_name_parts(r, prefix, t2);
        assert(tail1.len() == tail2.len());
        lemma_concat_cancel(head1, tail1, head2, tail2);
        assert(head1.len() == (prefix + seq!['.']).len() + spec_year_seq(y1).len());
        assert(head2.len() == (prefix + seq!['.']).len() + spec_year_seq(y2).len());
        assert(spec_year_seq(y1).len() == spec_year_seq(y2).len());
        lemma_concat_cancel(prefix + seq!['.'], spec_year_seq(y1), prefix + seq!['.'],
            spec_year_seq(y2));
        lemma_year_seq_inj(y1, y2);
        let mo1 = t.month as int;
        let mo2 = t2.month as int;
        let d1 = t.day as int;
        let d2 = t2.day as int;
        lemma_digit_char_inj(mo1 / 10, mo2 / 10);
        lemma_digit_char_inj(mo1 % 10, mo2 % 10);
        lemma_digit_char_inj(d1 / 10, d2 / 10);
        lemma_digit_char_inj(d1 % 10, d2 % 10);
        vstd::arithmetic::div_mod::lemma_fundamental_div_mod(mo1, 10);
        vstd::arithmetic::div_mod::lemma_fundamental_div_mod(mo2, 10);
        vstd::arithmetic::div_mod::lemma_fundamental_div_mod(d1, 10);
        vstd::arithmetic::div_mod::lemma_fundamental_div_mod(d2, 10);
        match r {
            Rotation::Daily => {
                assert(t2.month == t.month && t2.day == t.day);
                assert(enc_date(t) == enc_date(t2));
            }
            Rotation::Hourly => {
                let h1 = t.hour as int;
                let h2 = t2.hour as int;
                lemma_digit_char_inj(h1 / 10, h2 / 10);
                lemma_digit_char_inj(h1 % 10, h2 % 10);
                vstd::arithmetic::div_mod::lemma_fundamental_div_mod(h1, 10);
                vstd::arithmetic::div_mod::lemma_fundamental_div_mod(h2, 10);
                assert(t2.month == t.month && t2.day == t.day && t2.hour == t.hour);
                assert(enc_hour(t) == enc_hour(t2));
            }
            Rotation::Minutely => {
                let h1 = t.hour as int;
                let h2 = t2.hour as int;
                let mi1 = t.minute as int;
                let mi2 = t2.minute as int;
                lemma_digit_char_inj(h1 / 10, h2 / 10);
                lemma_digit_char_inj(h1 % 10, h2 % 10);
                lemma_digit_char_inj(mi1 / 10, mi2 / 10);
                lemma_digit_char_inj(mi1 % 10, mi2 % 10);
                vstd::arithmetic::div_mod::lemma_fundamental_div_mod(h1, 10);
                vstd::arithmetic::div_mod::lemma_fundamental_div_mod(h2, 10);
                vstd::arithmetic::div_mod::lemma_fundamental_div_mod(mi1, 10);
                vstd::arithmetic::div_mod::lemma_fundamental_div_mod(mi2, 10);
                assert(t2.month == t.month && t2.day == t.day && t2.hour == t.hour && t2.minute
                    == t.minute);
                assert(enc_minute(t) == enc_minute(t2));
            }
            Rotation::Never => {}
        }
    }
}

/// The fixed-width part of the suffix after the year: separators and the
/// two-digit fields at granularity `r`.
spec fn stamp_tail(r: Rotation, t: Timestamp) -> Seq<char> {
    match r {
        Rotation::Never => Seq::<char>::empty(),
        Rotation::Daily => seq![
            '-',
            spec_digit_char(t.month as int / 10),
            spec_digit_char(t.month as int % 10),
            '-',
            spec_digit_char(t.day as int / 10),
            spec_digit_char(t.day as int % 10),
        ],
        Rotation::Hourly => seq![
            '-',
            spec_digit_char(t.month as int / 10),
            spec_digit_char(t.month as int % 10),
            '-',
            spec_digit_char(t.day as int / 10),
            spec_digit_char(t.day as int % 10),
            '-',
            spec_digit_char(t.hour as int / 10),
            spec_digit_char(t.hour as int % 10),
        ],
        Rotation::Minutely => seq![
            '-',
            spec_digit_char(t.month as int / 10),
            spec_digit_char(t.month as int % 10),
            '-',
            spec_digit_char(t.day as int / 10),
            spec_digit_char(t.day as int % 10),
            '-',
            spec_digit_char(t.hour as int / 10),
            spec_digit_char(t.hour as int % 10),
            '-',
            spec_digit_char(t.minute as int / 10),
            spec_digit_char(t.minute as int % 10),
        ],
    }
}

/// The derived file name is a pure function of the period, prefix and
/// timestamp: any two derivations for the same arguments are byte-identical.
pub proof fn lemma_file_name_stable(
    r: Rotation,
    prefix: Seq<char>,
    t: Timestamp,
    s1: Seq<char>,
    s2: Seq<char>,
)
    requires
        s1 == spec_file_name(r, prefix, t),
        s2 == spec_file_name(r, prefix, t),
    ensures
        s1 == s2,
{
}

} // verus!
