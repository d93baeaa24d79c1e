//! A moment as plain numbers: read from the date of a log's name, ordered,
//! and shown to a reader.
use crate::text::{decimal_digits, digit_str, push_decimal};
use vstd::prelude::*;
use vstd::string::*;

verus! {

/// A calendar date and time of day without a time zone, as plain numbers.
#[derive(Clone, Copy, Debug, PartialEq, Eq, Structural)]
pub struct Timestamp {
    pub year: i32,
    pub month: u32,
    pub day: u32,
    pub hour: u32,
    pub minute: u32,
    pub second: u32,
    /// Nanoseconds past the whole second; a billion or more marks a leap second.
    pub nanosecond: u32,
}

impl Timestamp {
    /// `self` is a strictly later moment than `other`.
    pub open spec fn later_than(self, other: Timestamp) -> bool {
        if self.year != other.year {
            self.year > other.year
        } else if self.month != other.month {
            self.month > other.month
        } else if self.day != other.day {
            self.day > other.day
        } else if self.hour != other.hour {
            self.hour > other.hour
        } else if self.minute != other.minute {
            self.minute > other.minute
        } else if self.second != other.second {
            self.second > other.second
        } else {
            self.nanosecond > other.nanosecond
        }
    }

    /// Whether `self` is a strictly later moment than `other`.
    pub fn is_later_than(&self, other: &Timestamp) -> (r: bool)
        ensures
            r == self.later_than(*other),
    {
        if self.year != other.year {
            self.year > other.year
        } else if self.month != other.month {
            self.month > other.month
        } else if self.day != other.day {
            self.day > other.day
        } else if self.hour != other.hour {
            self.hour > other.hour
        } else if self.minute != other.minute {
            self.minute > other.minute
        } else if self.second != other.second {
            self.second > other.second
        } else {
            self.nanosecond > other.nanosecond
        }
    }
}

/// What the text of a log name's date and time reads as, in the layout year,
/// month, day, an underscore, hour, minute, second; `None` where the text
/// does not read as a moment that exists.
pub uninterp spec fn timestamp_of(text: Seq<char>) -> Option<Timestamp>;

/// Reads `text` with `chrono::NaiveDateTime::parse_from_str` and the layout
/// `%Y%m%d_%H%M%S`, and hands the fields of the moment out as numbers.
///
/// Trusted: the result is a function of the text alone.
#[verifier::external_body]
pub(crate) fn parse_timestamp(text: &str) -> (r: Option<Timestamp>)
    ensures
        r == timestamp_of(text@),
{
    match chrono::NaiveDateTime::parse_from_str(text, "%Y%m%d_%H%M%S") {
        Ok(dt) => Some(
            Timestamp {
                year: chrono::Datelike::year(&dt),
                month: chrono::Datelike::month(&dt),
                day: chrono::Datelike::day(&dt),
                hour: chrono::Timelike::hour(&dt),
                minute: chrono::Timelike::minute(&dt),
                second: chrono::Timelike::second(&dt),
                nanosecond: chrono::Timelike::nanosecond(&dt),
            },
        ),
        Err(_) => None,
    }
}

/// The English name of a month, counted from 1; empty for any other number.
pub open spec fn month_name_text(month: u32) -> Seq<char> {
    if month == 1 {
        "January"@
    } else if month == 2 {
        "February"@
    } else if month == 3 {
        "March"@
    } else if month == 4 {
        "April"@
    } else if month == 5 {
        "May"@
    } else if month == 6 {
        "June"@
    } else if month == 7 {
        "July"@
    } else if month == 8 {
        "August"@
    } else if month == 9 {
        "September"@
    } else if month == 10 {
        "October"@
    } else if month == 11 {
        "November"@
    } else if month == 12 {
        "December"@
    } else {
        Seq::empty()
    }
}

/// The name that `chrono::Month::name` gives the month numbered `month`,
/// where `chrono::Month::try_from` takes the number; the empty text where it
/// does not.
///
/// Trusted: chrono numbers the months from 1 to 12 and names them January to
/// December in English.
#[verifier::external_body]
pub(crate) fn month_name(month: u8) -> (name: &'static str)
    ensures
        name@ == month_name_text(month as u32),
{
    match chrono::Month::try_from(month) {
        Ok(m) => m.name(),
        Err(_) => "",
    }
}

/// `n` in base ten, with a leading zero where it has one digit.
pub open spec fn two_digits(n: nat) -> Seq<char> {
    if n < 10 {
        seq!['0'] + decimal_digits(n)
    } else {
        decimal_digits(n)
    }
}

/// `i` in base ten, with a minus sign where it is negative.
pub open spec fn signed_decimal(i: int) -> Seq<char> {
    if i < 0 {
        seq!['-'] + decimal_digits((-i) as nat)
    } else {
        decimal_digits(i as nat)
    }
}

/// How a moment is shown to a reader: the month's name, the day, the year,
/// then the time of day with two digits each, as in `March 9, 2024: 07:05:00`.
pub open spec fn display_text(ts: Timestamp) -> Seq<char> {
    month_name_text(ts.month) + seq![' '] + decimal_digits(ts.day as nat) + seq![',', ' ']
        + signed_decimal(ts.year as int) + seq![':', ' '] + two_digits(ts.hour as nat) + seq![':']
        + two_digits(ts.minute as nat) + seq![':'] + two_digits(ts.second as nat)
}

/// Appends `n` to `out` with at least two digits.
fn push_two_digits(out: &mut String, n: u32)
    ensures
        final(out)@ == old(out)@ + two_digits(n as nat),
{
    if n < 10 {
        out.append(digit_str(0));
        push_decimal(out, n as u64);
        assert(final(out)@ =~= old(out)@ + two_digits(n as nat));
    } else {
        push_decimal(out, n as u64);
    }
}

/// Appends `i` to `out`, with its sign where it is negative.
fn push_signed(out: &mut String, i: i32)
    ensures
        final(out)@ == old(out)@ + signed_decimal(i as int),
{
    if i < 0 {
        proof {
            reveal_strlit("-");
        }
        out.append("-");
        let magnitude: u64 = (-(i as i64)) as u64;
        push_decimal(out, magnitude);
        assert(final(out)@ =~= old(out)@ + signed_decimal(i as int));
    } else {
        push_decimal(out, i as u64);
    }
}

/// The text that shows `ts` to a reader.
pub fn format_display(ts: &Timestamp) -> (out: String)
    ensures
        out@ == display_text(*ts),
{
    proof {
        reveal_strlit(" ");
        reveal_strlit(", ");
        reveal_strlit(": ");
        reveal_strlit(":");
    }
    let mut out = String::new();
    if ts.month <= 12 {
        out.append(month_name(ts.month as u8));
    }
    out.append(" ");
    push_decimal(&mut out, ts.day as u64);
    out.append(", ");
    push_signed(&mut out, ts.year);
    out.append(": ");
    push_two_digits(&mut out, ts.hour);
    out.append(":");
    push_two_digits(&mut out, ts.minute);
    out.append(":");
    push_two_digits(&mut out, ts.second);
    proof {
        assert(" "@ =~= seq![' ']);
        assert(", "@ =~= seq![',', ' ']);
        assert(": "@ =~= seq![':', ' ']);
        assert(":"@ =~= seq![':']);
        assert(out@ =~= display_text(*ts));
    }
    out
}

} // verus!
