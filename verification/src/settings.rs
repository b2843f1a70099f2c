//! The operator's settings.
//!
//! A setting is looked for in the configuration first. Where it is missing,
//! some settings fall back to a default and the others are asked of the
//! operator: the library names the question, and whoever runs it puts the
//! question and hands the answer to the function that reads it.

use crate::text::{decimal_cents, parse_cents, parse_whole, signed_value};
use vstd::prelude::*;

verus! {

/// A question to put to the operator.
#[derive(Clone, Copy, Debug, PartialEq, Eq, Structural)]
pub enum Question {
    Strategy,
    FillType,
    Ticker,
    TestMode,
    SecondsToSleep,
    DiscountValue,
    NumDays,
    NumDaysOffset,
}

/// A setting: its value, or the question that will give it.
#[derive(Debug, PartialEq, Eq)]
pub enum Setting<T> {
    Value(T),
    Ask(Question),
}

/// The configured text as it is, or the question for it.
pub open spec fn text_setting(configured: Option<String>, question: Question) -> Setting<String> {
    match configured {
        Some(text) => Setting::Value(text),
        None => Setting::Ask(question),
    }
}

/// The strategy choice: the configured text, or the question for it.
pub fn get_option(configured: Option<String>) -> (r: Setting<String>)
    ensures
        r == text_setting(configured, Question::Strategy),
{
    match configured {
        Some(text) => Setting::Value(text),
        None => Setting::Ask(Question::Strategy),
    }
}

/// The fill type: the configured text, or the question for it.
pub fn get_fill_type(configured: Option<String>) -> (r: Setting<String>)
    ensures
        r == text_setting(configured, Question::FillType),
{
    match configured {
        Some(text) => Setting::Value(text),
        None => Setting::Ask(Question::FillType),
    }
}

/// The ticker: the configured text, or the question for it.
pub fn get_ticker(configured: Option<String>) -> (r: Setting<String>)
    ensures
        r == text_setting(configured, Question::Ticker),
{
    match configured {
        Some(text) => Setting::Value(text),
        None => Setting::Ask(Question::Ticker),
    }
}

/// The text says yes: `y` or `yes`, in capitals or small letters.
pub open spec fn says_yes(s: Seq<char>) -> bool {
    ||| s.len() == 1 && (s[0] == 'y' || s[0] == 'Y')
    ||| s.len() == 3 && (s[0] == 'y' || s[0] == 'Y') && (s[1] == 'e' || s[1] == 'E') && (s[2]
        == 's' || s[2] == 'S')
}

/// Whether the answer to "run in testing mode?" leaves the bot in production
/// mode: every answer but yes does.
pub fn read_mode(answer: &str) -> (production: bool)
    ensures
        production == !says_yes(answer@),
{
    let n: usize = answer.unicode_len();
    if n == 1 {
        let c: char = answer.get_char(0);
        !(c == 'y' || c == 'Y')
    } else if n == 3 {
        let y: char = answer.get_char(0);
        let e: char = answer.get_char(1);
        let s: char = answer.get_char(2);
        !((y == 'y' || y == 'Y') && (e == 'e' || e == 'E') && (s == 's' || s == 'S'))
    } else {
        true
    }
}

/// The mode: `true` for production and `false` for testing, from the
/// configured answer, or the question for it.
pub fn get_mode(configured: Option<String>) -> (r: Setting<bool>)
    ensures
        r == (match configured {
            Some(text) => Setting::Value(!says_yes(text@)),
            None => Setting::Ask(Question::TestMode),
        }),
{
    match configured {
        Some(text) => Setting::Value(read_mode(text.as_str())),
        None => Setting::Ask(Question::TestMode),
    }
}

/// The smallest mispricing threshold, in cents, and the default.
pub const MIN_ARB_VALUE: i64 = 10;

/// The default wing width in cents.
pub const DEFAULT_STRIKE_DIF: u32 = 500;

/// The mispricing threshold that a text stands for: the amount in cents if
/// it is at least ten cents, and ten cents for anything else.
pub open spec fn arb_value_of(s: Seq<char>) -> int {
    match decimal_cents(s) {
        Some(v) => if v >= MIN_ARB_VALUE {
            v
        } else {
            MIN_ARB_VALUE as int
        },
        None => MIN_ARB_VALUE as int,
    }
}

/// The mispricing threshold in cents: the configured amount if it is at
/// least ten cents, and ten cents if it is smaller, unreadable or missing.
pub fn get_arb_value(configured: Option<String>) -> (r: i64)
    ensures
        r == (match configured {
            Some(text) => arb_value_of(text@),
            None => MIN_ARB_VALUE as int,
        }),
{
    match configured {
        Some(text) => match parse_cents(text.as_str()) {
            Some(v) => if v >= MIN_ARB_VALUE {
                v
            } else {
                MIN_ARB_VALUE
            },
            None => MIN_ARB_VALUE,
        },
        None => MIN_ARB_VALUE,
    }
}

/// The wing width that a text stands for: the amount in cents if it is not
/// negative and fits in 32 bits, and five points for anything else.
pub open spec fn strike_dif_of(s: Seq<char>) -> int {
    match decimal_cents(s) {
        Some(v) => if 0 <= v <= u32::MAX {
            v
        } else {
            DEFAULT_STRIKE_DIF as int
        },
        None => DEFAULT_STRIKE_DIF as int,
    }
}

/// The wing width in cents: the configured amount, and five points if it is
/// negative, unreadable or missing.
pub fn get_strike_dif_value(configured: Option<String>) -> (r: u32)
    ensures
        r == (match configured {
            Some(text) => strike_dif_of(text@),
            None => DEFAULT_STRIKE_DIF as int,
        }),
{
    match configured {
        Some(text) => match parse_cents(text.as_str()) {
            Some(v) => if 0 <= v && v <= u32::MAX as i64 {
                v as u32
            } else {
                DEFAULT_STRIKE_DIF
            },
            None => DEFAULT_STRIKE_DIF,
        },
        None => DEFAULT_STRIKE_DIF,
    }
}

/// The seconds to sleep that a text stands for: the number if it is at least
/// five, and sixty for anything else.
pub open spec fn seconds_of(s: Seq<char>) -> int {
    match signed_value(s) {
        Some(v) => if v >= 5 {
            v
        } else {
            60
        },
        None => 60,
    }
}

/// Reads the seconds to sleep between cycles.
pub fn read_seconds_to_sleep(text: &str) -> (r: u64)
    ensures
        r == seconds_of(text@),
{
    match parse_whole(text) {
        Some(v) => if v >= 5 {
            v as u64
        } else {
            60
        },
        None => 60,
    }
}

/// The seconds to sleep between cycles, from the configured text, or the
/// question for them.
pub fn get_seconds_to_sleep(configured: Option<String>) -> (r: Setting<u64>)
    ensures
        r == (match configured {
            Some(text) => Setting::Value(seconds_of(text@) as u64),
            None => Setting::Ask(Question::SecondsToSleep),
        }),
{
    match configured {
        Some(text) => Setting::Value(read_seconds_to_sleep(text.as_str())),
        None => Setting::Ask(Question::SecondsToSleep),
    }
}

/// The discount that a text stands for: the amount in cents if it lies
/// between minus fifteen and fifteen cents, and nothing for anything else.
pub open spec fn discount_of(s: Seq<char>) -> int {
    match decimal_cents(s) {
        Some(v) => if -15 <= v <= 15 {
            v
        } else {
            0
        },
        None => 0,
    }
}

/// Reads the discount on the limit price, in cents.
pub fn read_discount_value(text: &str) -> (r: i32)
    ensures
        r == discount_of(text@),
{
    match parse_cents(text) {
        Some(v) => if -15 <= v && v <= 15 {
            v as i32
        } else {
            0
        },
        None => 0,
    }
}

/// The discount on the limit price, from the configured text, or the
/// question for it.
pub fn get_discount_value(configured: Option<String>) -> (r: Setting<i32>)
    ensures
        r == (match configured {
            Some(text) => Setting::Value(discount_of(text@) as i32),
            None => Setting::Ask(Question::DiscountValue),
        }),
{
    match configured {
        Some(text) => Setting::Value(read_discount_value(text.as_str())),
        None => Setting::Ask(Question::DiscountValue),
    }
}

/// The number that a text stands for if it lies from `low` to `high`, and
/// `fallback` for anything else.
pub open spec fn number_within(s: Seq<char>, low: int, high: int, fallback: int) -> int {
    match signed_value(s) {
        Some(v) => if low <= v <= high {
            v
        } else {
            fallback
        },
        None => fallback,
    }
}

fn read_within(text: &str, low: i64, high: i64, fallback: i64) -> (r: i64)
    ensures
        r == number_within(text@, low as int, high as int, fallback as int),
{
    match parse_whole(text) {
        Some(v) => if low <= v && v <= high {
            v
        } else {
            fallback
        },
        None => fallback,
    }
}

/// Reads the number of expirations to gather: one to nine, and five for
/// anything else.
pub fn read_num_days(text: &str) -> (r: i64)
    ensures
        r == number_within(text@, 1, 9, 5),
{
    read_within(text, 1, 9, 5)
}

/// The number of expirations to gather, from the configured text, or the
/// question for it.
pub fn get_num_days(configured: Option<String>) -> (r: Setting<i64>)
    ensures
        r == (match configured {
            Some(text) => Setting::Value(number_within(text@, 1, 9, 5) as i64),
            None => Setting::Ask(Question::NumDays),
        }),
{
    match configured {
        Some(text) => Setting::Value(read_num_days(text.as_str())),
        None => Setting::Ask(Question::NumDays),
    }
}

/// Reads the day offset: nothing to twenty-one, and nothing for anything
/// else.
pub fn read_num_days_offset(text: &str) -> (r: i64)
    ensures
        r == number_within(text@, 0, 21, 0),
{
    read_within(text, 0, 21, 0)
}

/// The day offset, from the configured text, or the question for it.
pub fn get_num_days_offset(configured: Option<String>) -> (r: Setting<i64>)
    ensures
        r == (match configured {
            Some(text) => Setting::Value(number_within(text@, 0, 21, 0) as i64),
            None => Setting::Ask(Question::NumDaysOffset),
        }),
{
    match configured {
        Some(text) => Setting::Value(read_num_days_offset(text.as_str())),
        None => Setting::Ask(Question::NumDaysOffset),
    }
}

} // verus!
