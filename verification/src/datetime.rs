//! A plain-value UTC timestamp and the two zero-padded date formats that
//! SigV4 scopes and string-to-sign lines use.

use vstd::prelude::*;
use crate::text::push_char;

verus! {

/// A UTC timestamp with second precision, held as plain calendar fields.
/// The signing pipeline only reads it through the two format methods.
#[derive(Clone, Copy, Debug, PartialEq, Eq)]
pub struct UtcDateTime {
    pub year: u16,
    pub month: u8,
    pub day: u8,
    pub hour: u8,
    pub minute: u8,
    pub second: u8,
}

/// The decimal digit character for `n`'s last decimal digit.
pub open spec fn dec_digit(n: int) -> char {
    ((48 + (n % 10)) as u8) as char
}

/// `n` rendered as exactly two decimal digits, zero padded.
pub open spec fn two_digits(n: int) -> Seq<char> {
    seq![dec_digit(n / 10), dec_digit(n)]
}

/// `n` rendered as exactly four decimal digits, zero padded.
pub open spec fn four_digits(n: int) -> Seq<char> {
    seq![dec_digit(n / 1000), dec_digit(n / 100), dec_digit(n / 10), dec_digit(n)]
}

/// The `YYYYMMDD` form of a timestamp.
pub open spec fn short_date_chars(d: UtcDateTime) -> Seq<char> {
    four_digits(d.year as int) + two_digits(d.month as int) + two_digits(d.day as int)
}

/// The `YYYYMMDDTHHMMSSZ` form of a timestamp.
pub open spec fn long_datetime_chars(d: UtcDateTime) -> Seq<char> {
    short_date_chars(d) + seq!['T'] + two_digits(d.hour as int) + two_digits(d.minute as int)
        + two_digits(d.second as int) + seq!['Z']
}

impl UtcDateTime {
    /// Field ranges of a well-formed timestamp; the year bound keeps the
    /// four-digit date format exact.
    pub open spec fn wf(self) -> bool {
        &&& self.year <= 9999
        &&& 1 <= self.month <= 12
        &&& 1 <= self.day <= 31
        &&& self.hour <= 23
        &&& self.minute <= 59
        &&& self.second <= 59
    }

    /// The timestamp, checked for well-formedness.
    pub fn new(year: u16, month: u8, day: u8, hour: u8, minute: u8, second: u8) -> (r: Option<
        UtcDateTime,
    >)
        ensures
            ({
                let d = UtcDateTime { year, month, day, hour, minute, second };
                if d.wf() {
                    r == Some(d)
                } else {
                    r is None
                }
            }),
    {
        let d = UtcDateTime { year, month, day, hour, minute, second };
        if year <= 9999 && 1 <= month && month <= 12 && 1 <= day && day <= 31 && hour <= 23
            && minute <= 59 && second <= 59 {
            Some(d)
        } else {
            None
        }
    }

    /// Formats the timestamp as `YYYYMMDD`.
    pub fn format_short_date(&self) -> (r: String)
        requires
            self.wf(),
        ensures
            r@ == short_date_chars(*self),
    {
        let mut out = String::new();
        push_four_digits(&mut out, self.year);
        push_two_digits(&mut out, self.month as u16);
        push_two_digits(&mut out, self.day as u16);
        proof {
            assert(out@ =~= short_date_chars(*self));
        }
        out
    }

    /// Formats the timestamp as `YYYYMMDDTHHMMSSZ`.
    pub fn format_long_datetime(&self) -> (r: String)
        requires
            self.wf(),
        ensures
            r@ == long_datetime_chars(*self),
    {
        let mut out = self.format_short_date();
        push_char(&mut out, 'T');
        push_two_digits(&mut out, self.hour as u16);
        push_two_digits(&mut out, self.minute as u16);
        push_two_digits(&mut out, self.second as u16);
        push_char(&mut out, 'Z');
        proof {
            assert(out@ =~= long_datetime_chars(*self));
        }
        out
    }
}

/// The character of a single decimal digit.
fn dec_digit_char(n: u16) -> (c: char)
    requires
        n < 10,
    ensures
        c == dec_digit(n as int),
{
    ((48 + n) as u8) as char
}

/// Appends `n` as exactly two decimal digits, zero padded.
fn push_two_digits(s: &mut String, n: u16)
    requires
        n < 100,
    ensures
        final(s)@ == old(s)@ + two_digits(n as int),
{
    let c1 = dec_digit_char(n / 10);
    let c2 = dec_digit_char(n % 10);
    push_char(s, c1);
    push_char(s, c2);
    proof {
        assert(s@ =~= old(s)@ + two_digits(n as int));
    }
}

/// Appends `n` as exactly four decimal digits, zero padded.
fn push_four_digits(s: &mut String, n: u16)
    requires
        n < 10000,
    ensures
        final(s)@ == old(s)@ + four_digits(n as int),
{
    let c1 = dec_digit_char(n / 1000);
    let c2 = dec_digit_char((n / 100) % 10);
    let c3 = dec_digit_char((n / 10) % 10);
    let c4 = dec_digit_char(n % 10);
    push_char(s, c1);
    push_char(s, c2);
    push_char(s, c3);
    push_char(s, c4);
    proof {
        assert(s@ =~= old(s)@ + four_digits(n as int));
    }
}

} // verus!
