//! Expiration dates and whole-day arithmetic between them.
//!
//! A date is written as six digits, `YYMMDD`. The calendar itself is chrono's:
//! the library asks it for the day number of a date and does its own
//! arithmetic on day numbers.

use crate::text::{all_digits, digits_value, parse_number};
use vstd::prelude::*;

verus! {

/// The day number, counted from 1 January of year 1, that chrono's
/// `NaiveDate::parse_from_str` with the format `%y%m%d`, followed by
/// `Datelike::num_days_from_ce`, gives for `text`; `None` where chrono rejects
/// the text.
pub uninterp spec fn yymmdd_day_number(text: Seq<char>) -> Option<i32>;

/// Calls chrono's `NaiveDate::parse_from_str(text, "%y%m%d")` and, where that
/// succeeds, `Datelike::num_days_from_ce` on the date.
///
/// Trusted: the result is taken to be a function of the text alone, which is
/// what `yymmdd_day_number` names. Nothing is claimed of which texts chrono
/// accepts nor of the numbers it gives.
#[verifier::external_body]
fn chrono_day_number(text: &str) -> (r: Option<i32>)
    ensures
        r == yymmdd_day_number(text@),
{
    match chrono::NaiveDate::parse_from_str(text, "%y%m%d") {
        Ok(date) => Some(chrono::Datelike::num_days_from_ce(&date)),
        Err(_) => None,
    }
}

/// An expiration date: the six digits it is written with, read as one number,
/// and its position in the calendar.
#[derive(Clone, Copy, Debug, PartialEq, Eq, Structural)]
pub struct Expiration {
    /// The digits `YYMMDD` as a number, so 3 January 2024 is 240103.
    pub yymmdd: u32,
    /// Days since 1 January of year 1, which is day 1.
    pub day_number: i32,
}

/// Exactly six ASCII digits.
pub open spec fn is_yymmdd(text: Seq<char>) -> bool {
    text.len() == 6 && all_digits(text)
}

/// What `Expiration::parse` makes of a text.
pub open spec fn parsed_expiration(text: Seq<char>) -> Option<Expiration> {
    if is_yymmdd(text) {
        match yymmdd_day_number(text) {
            Some(day_number) => Some(
                Expiration { yymmdd: digits_value(text) as u32, day_number },
            ),
            None => None,
        }
    } else {
        None
    }
}

/// Whole days from `from` to `to`: positive when `to` is the later date.
pub open spec fn days_between(from: Expiration, to: Expiration) -> int {
    to.day_number - from.day_number
}

/// What `calc_time_difference` makes of two texts.
pub open spec fn time_difference(current_date: Seq<char>, date: Seq<char>) -> Option<i64> {
    match (parsed_expiration(current_date), parsed_expiration(date)) {
        (Some(from), Some(to)) => Some(days_between(from, to) as i64),
        _ => None,
    }
}

/// Six digits stand for a number below one million.
pub proof fn lemma_yymmdd_value_bounded(text: Seq<char>)
    requires
        is_yymmdd(text),
    ensures
        0 <= digits_value(text) <= 999_999,
{
    let s5 = text.drop_last();
    let s4 = s5.drop_last();
    let s3 = s4.drop_last();
    let s2 = s3.drop_last();
    let s1 = s2.drop_last();
    let s0 = s1.drop_last();
    assert(s0.len() == 0);
    assert(digits_value(s0) == 0);
    assert(0 <= digits_value(s1) <= 9) by {
        assert(s1.last() == text[0]);
    }
    assert(0 <= digits_value(s2) <= 99) by {
        assert(s2.last() == text[1]);
    }
    assert(0 <= digits_value(s3) <= 999) by {
        assert(s3.last() == text[2]);
    }
    assert(0 <= digits_value(s4) <= 9_999) by {
        assert(s4.last() == text[3]);
    }
    assert(0 <= digits_value(s5) <= 99_999) by {
        assert(s5.last() == text[4]);
    }
    assert(text.last() == text[5]);
}

/// A difference of two day numbers leaves room for a bias of a day.
pub proof fn lemma_time_difference_bounded(current_date: Seq<char>, date: Seq<char>)
    ensures
        time_difference(current_date, date) matches Some(d) ==> -0x1_0000_0000 < d < 0x1_0000_0000,
{
}

impl Expiration {
    /// Reads a date written as `YYMMDD`. The text must be exactly six ASCII
    /// digits that chrono resolves to a calendar date.
    pub fn parse(text: &str) -> (r: Option<Expiration>)
        ensures
            r == parsed_expiration(text@),
    {
        let digits: Option<u64> = parse_number(text);
        match digits {
            Some(value) => {
                if text.unicode_len() != 6 {
                    return None;
                }
                proof {
                    lemma_yymmdd_value_bounded(text@);
                }
                match chrono_day_number(text) {
                    Some(day_number) => Some(Expiration { yymmdd: value as u32, day_number }),
                    None => None,
                }
            },
            None => {
                proof {
                    if is_yymmdd(text@) {
                        lemma_yymmdd_value_bounded(text@);
                    }
                }
                None
            },
        }
    }

    /// Whole days from `self` to `later`; negative when `later` comes first.
    pub fn days_until(&self, later: &Expiration) -> (r: i64)
        ensures
            r == days_between(*self, *later),
    {
        later.day_number as i64 - self.day_number as i64
    }
}

/// Whole days from `current_date` to `date`, both written as `YYMMDD`;
/// `None` where either text is no such date.
pub fn calc_time_difference(current_date: &str, date: &str) -> (r: Option<i64>)
    ensures
        r == time_difference(current_date@, date@),
{
    let from: Option<Expiration> = Expiration::parse(current_date);
    let to: Option<Expiration> = Expiration::parse(date);
    match (from, to) {
        (Some(a), Some(b)) => Some(a.days_until(&b)),
        _ => None,
    }
}

} // verus!
