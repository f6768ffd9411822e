//! The local clock reading and its text forms. Only the reading itself
//! comes from outside; turning a reading into the date and timestamp
//! texts is verified against exact character sequences.

use vstd::prelude::*;
use chrono::{Datelike, Timelike};

verus! {

/// One reading of the local clock, as plain calendar fields.
#[derive(Clone, Copy, Debug, PartialEq, Eq, Structural)]
pub struct LocalTime {
    pub year: i32,
    pub month: u32,
    pub day: u32,
    pub hour: u32,
    pub minute: u32,
    pub second: u32,
}

impl LocalTime {
    /// The calendar ranges of the fields; the year is unconstrained.
    pub open spec fn wf(&self) -> bool {
        &&& 1 <= self.month <= 12
        &&& 1 <= self.day <= 31
        &&& self.hour <= 23
        &&& self.minute <= 59
        &&& self.second <= 59
    }
}

/// Relies on chrono's `Local::now` and its `Datelike`/`Timelike`
/// accessors: `month` is 1 to 12, `day` 1 to 31, `hour` 0 to 23,
/// `minute` and `second` 0 to 59.
#[verifier::external_body]
pub fn now_local() -> (r: LocalTime)
    ensures
        r.wf(),
{
    let t = chrono::Local::now();
    LocalTime {
        year: t.year(),
        month: t.month(),
        day: t.day(),
        hour: t.hour(),
        minute: t.minute(),
        second: t.second(),
    }
}

/// The decimal digit with value `n` (0 to 9).
pub open spec fn digit_char(n: int) -> char {
    if n == 0 { '0' }
    else if n == 1 { '1' }
    else if n == 2 { '2' }
    else if n == 3 { '3' }
    else if n == 4 { '4' }
    else if n == 5 { '5' }
    else if n == 6 { '6' }
    else if n == 7 { '7' }
    else if n == 8 { '8' }
    else { '9' }
}

/// The decimal digits of `n`, most significant first.
pub open spec fn dec_digits(n: nat) -> Seq<char>
    decreases n,
{
    if n < 10 {
        seq![digit_char(n as int)]
    } else {
        dec_digits(n / 10).push(digit_char((n % 10) as int))
    }
}

/// `n` zero-padded to two digits.
pub open spec fn pad2(n: nat) -> Seq<char> {
    if n < 10 {
        seq!['0', digit_char(n as int)]
    } else {
        dec_digits(n)
    }
}

/// `n` zero-padded to four digits.
pub open spec fn pad4(n: nat) -> Seq<char> {
    if n < 10 {
        seq!['0', '0', '0', digit_char(n as int)]
    } else if n < 100 {
        seq!['0', '0'] + dec_digits(n)
    } else if n < 1000 {
        seq!['0'] + dec_digits(n)
    } else {
        dec_digits(n)
    }
}

/// The year, four digits with a sign for years before year zero.
pub open spec fn year_text(y: int) -> Seq<char> {
    if y < 0 {
        seq!['-'] + pad4((-y) as nat)
    } else {
        pad4(y as nat)
    }
}

/// The date as `YYYY-MM-DD`.
pub open spec fn date_text(t: LocalTime) -> Seq<char> {
    year_text(t.year as int) + seq!['-'] + pad2(t.month as nat) + seq!['-'] + pad2(t.day as nat)
}

/// The timestamp as `YYYY-MM-DD_HHMMSS`.
pub open spec fn timestamp_text(t: LocalTime) -> Seq<char> {
    date_text(t) + seq!['_'] + pad2(t.hour as nat) + pad2(t.minute as nat) + pad2(t.second as nat)
}

/// The decimal digit with value `n`, executably.
fn digit_of(n: u64) -> (r: char)
    requires
        n < 10,
    ensures
        r == digit_char(n as int),
{
    if n == 0 { '0' }
    else if n == 1 { '1' }
    else if n == 2 { '2' }
    else if n == 3 { '3' }
    else if n == 4 { '4' }
    else if n == 5 { '5' }
    else if n == 6 { '6' }
    else if n == 7 { '7' }
    else if n == 8 { '8' }
    else { '9' }
}

/// Append the decimal digits of `n`.
pub fn push_dec(out: &mut Vec<char>, n: u64)
    ensures
        final(out)@ == old(out)@ + dec_digits(n as nat),
    decreases n,
{
    if n < 10 {
        out.push(digit_of(n));
        proof {
            assert(out@ =~= old(out)@ + dec_digits(n as nat));
        }
    } else {
        push_dec(out, n / 10);
        out.push(digit_of(n % 10));
        proof {
            assert(out@ =~= old(out)@ + dec_digits(n as nat));
        }
    }
}

/// Append `n` zero-padded to two digits.
pub fn push_pad2(out: &mut Vec<char>, n: u64)
    ensures
        final(out)@ == old(out)@ + pad2(n as nat),
{
    if n < 10 {
        out.push('0');
        out.push(digit_of(n));
        proof {
            assert(out@ =~= old(out)@ + pad2(n as nat));
        }
    } else {
        push_dec(out, n);
    }
}

/// Append `n` zero-padded to four digits.
pub fn push_pad4(out: &mut Vec<char>, n: u64)
    ensures
        final(out)@ == old(out)@ + pad4(n as nat),
{
    if n < 10 {
        out.push('0');
        out.push('0');
        out.push('0');
        out.push(digit_of(n));
        proof {
            assert(out@ =~= old(out)@ + pad4(n as nat));
        }
    } else if n < 100 {
        out.push('0');
        out.push('0');
        push_dec(out, n);
        proof {
            assert(out@ =~= old(out)@ + pad4(n as nat));
        }
    } else if n < 1000 {
        out.push('0');
        push_dec(out, n);
        proof {
            assert(out@ =~= old(out)@ + pad4(n as nat));
        }
    } else {
        push_dec(out, n);
    }
}

/// Append the year text.
pub fn push_year(out: &mut Vec<char>, y: i32)
    ensures
        final(out)@ == old(out)@ + year_text(y as int),
{
    if y < 0 {
        out.push('-');
        let m: i64 = -(y as i64);
        push_pad4(out, m as u64);
        proof {
            assert(out@ =~= old(out)@ + year_text(y as int));
        }
    } else {
        push_pad4(out, y as u64);
    }
}

/// Append the date as `YYYY-MM-DD`.
pub fn push_date(out: &mut Vec<char>, t: &LocalTime)
    ensures
        final(out)@ == old(out)@ + date_text(*t),
{
    push_year(out, t.year);
    out.push('-');
    push_pad2(out, t.month as u64);
    out.push('-');
    push_pad2(out, t.day as u64);
    proof {
        assert(out@ =~= old(out)@ + date_text(*t));
    }
}

/// Append the timestamp as `YYYY-MM-DD_HHMMSS`.
pub fn push_timestamp(out: &mut Vec<char>, t: &LocalTime)
    ensures
        final(out)@ == old(out)@ + timestamp_text(*t),
{
    push_date(out, t);
    out.push('_');
    push_pad2(out, t.hour as u64);
    push_pad2(out, t.minute as u64);
    push_pad2(out, t.second as u64);
    proof {
        assert(out@ =~= old(out)@ + timestamp_text(*t));
    }
}

} // verus!
