//! The quote refresh: from the rows of a market-data snapshot to the quote
//! store of the cycle.

use crate::money::{lemma_round_div_bounded, round_div, round_to_nearest};
use crate::quotes::{Quote, QuoteStore};
use crate::text::{
    all_digits, decimal_cents, digits_value, parse_number, read_cents, strip_char, to_chars,
    without,
};
use vstd::prelude::*;

verus! {

/// One row of a snapshot: a contract and the three fields asked for. A field
/// is missing until the vendor has data for it.
#[derive(Debug, PartialEq, Eq)]
pub struct MarketDataResponse {
    /// The broker id of the contract, in digits.
    pub conid_ex: String,
    /// The bid.
    pub field_84: Option<String>,
    /// The size at the ask.
    pub field_85: Option<String>,
    /// The ask.
    pub field_86: Option<String>,
}

/// Why a snapshot could not be read.
#[derive(Clone, Copy, Debug, PartialEq, Eq, Structural)]
pub enum QuoteError {
    FailedToParseBid,
    FailedToParseAsk,
    FailedToParseAsz,
}

/// The price in cents that a field stands for. Commas that group digits are
/// passed over. The price must fit in 32 bits.
pub open spec fn price_of(s: Seq<char>) -> Option<i32> {
    match decimal_cents(without(s, ',')) {
        Some(v) => if i32::MIN <= v <= i32::MAX {
            Some(v as i32)
        } else {
            None
        },
        None => None,
    }
}

/// The size that a field stands for: the number written, rounded to a whole
/// count, and zero if it is negative. Commas that group digits are passed
/// over. The size must fit in 32 bits.
pub open spec fn size_of(s: Seq<char>) -> Option<u32> {
    match decimal_cents(without(s, ',')) {
        Some(v) => if v <= 0 {
            Some(0u32)
        } else if round_div(v, 100) <= u32::MAX {
            Some(round_div(v, 100) as u32)
        } else {
            None
        },
        None => None,
    }
}

/// The field holds a text that is not empty.
pub open spec fn is_filled(field: Option<String>) -> bool {
    field matches Some(text) && text@.len() > 0
}

/// The quote of a row. A row with a field missing or empty stands for a
/// contract without data and gets the empty quote. Of a row with all three
/// fields, bid, ask and size are read in this order, and the first that
/// cannot be read is an error.
pub open spec fn row_quote(row: MarketDataResponse) -> Result<Quote, QuoteError> {
    if is_filled(row.field_84) && is_filled(row.field_85) && is_filled(row.field_86) {
        match price_of(row.field_84->0@) {
            None => Err(QuoteError::FailedToParseBid),
            Some(bid) => match price_of(row.field_86->0@) {
                None => Err(QuoteError::FailedToParseAsk),
                Some(ask) => match size_of(row.field_85->0@) {
                    None => Err(QuoteError::FailedToParseAsz),
                    Some(ask_size) => Ok(Quote { bid, ask, ask_size }),
                },
            },
        }
    } else {
        Ok(Quote { bid: 0, ask: 0, ask_size: 0 })
    }
}

/// The broker id that a text of digits stands for.
pub open spec fn conid_of_text(s: Seq<char>) -> Option<u64> {
    if s.len() > 0 && all_digits(s) && digits_value(s) <= u64::MAX {
        Some(digits_value(s) as u64)
    } else {
        None
    }
}

/// The quotes of the first `n` rows. A later row of a contract replaces an
/// earlier one. A row whose contract id is no number is passed over. The
/// first row that cannot be read makes the whole snapshot an error.
pub open spec fn ticker_data(rows: Seq<MarketDataResponse>, n: int) -> Result<
    Map<u64, Quote>,
    QuoteError,
>
    decreases n,
{
    if n <= 0 {
        Ok(Map::empty())
    } else {
        match ticker_data(rows, n - 1) {
            Err(e) => Err(e),
            Ok(quotes) => match row_quote(rows[n - 1]) {
                Err(e) => Err(e),
                Ok(quote) => match conid_of_text(rows[n - 1].conid_ex@) {
                    Some(conid) => Ok(quotes.insert(conid, quote)),
                    None => Ok(quotes),
                },
            },
        }
    }
}

/// Once a snapshot has met a row that cannot be read, reading on changes
/// nothing.
pub proof fn lemma_ticker_data_error(rows: Seq<MarketDataResponse>, j: int, n: int)
    requires
        0 <= j <= n,
        ticker_data(rows, j) is Err,
    ensures
        ticker_data(rows, n) == ticker_data(rows, j),
    decreases n - j,
{
    if j < n {
        lemma_ticker_data_error(rows, j, n - 1);
    }
}

/// Reads a price field.
pub fn read_price(text: &str) -> (r: Option<i32>)
    ensures
        r == price_of(text@),
{
    let chars: Vec<char> = to_chars(text);
    let plain: Vec<char> = strip_char(&chars, ',');
    match read_cents(&plain) {
        Some(v) => if v >= i32::MIN as i64 && v <= i32::MAX as i64 {
            Some(v as i32)
        } else {
            None
        },
        None => None,
    }
}

/// Reads a size field.
pub fn read_size(text: &str) -> (r: Option<u32>)
    ensures
        r == size_of(text@),
{
    let chars: Vec<char> = to_chars(text);
    let plain: Vec<char> = strip_char(&chars, ',');
    match read_cents(&plain) {
        Some(v) => if v <= 0 {
            Some(0)
        } else {
            let whole: i64 = round_to_nearest(v, 100);
            proof {
                lemma_round_div_bounded(v as int, 100);
            }
            if whole <= u32::MAX as i64 {
                Some(whole as u32)
            } else {
                None
            }
        },
        None => None,
    }
}

fn filled(field: &Option<String>) -> (r: Option<&str>)
    ensures
        r is Some <==> is_filled(*field),
        r matches Some(text) ==> text@ == field->0@,
{
    match field {
        Some(text) => if text.as_str().unicode_len() > 0 {
            Some(text.as_str())
        } else {
            None
        },
        None => None,
    }
}

/// Reads the quote of a row.
pub fn read_row_quote(row: &MarketDataResponse) -> (r: Result<Quote, QuoteError>)
    ensures
        r == row_quote(*row),
{
    let bid_text: &str = match filled(&row.field_84) {
        Some(t) => t,
        None => {
            return Ok(Quote::empty());
        },
    };
    let size_text: &str = match filled(&row.field_85) {
        Some(t) => t,
        None => {
            return Ok(Quote::empty());
        },
    };
    let ask_text: &str = match filled(&row.field_86) {
        Some(t) => t,
        None => {
            return Ok(Quote::empty());
        },
    };
    let bid: i32 = match read_price(bid_text) {
        Some(v) => v,
        None => {
            return Err(QuoteError::FailedToParseBid);
        },
    };
    let ask: i32 = match read_price(ask_text) {
        Some(v) => v,
        None => {
            return Err(QuoteError::FailedToParseAsk);
        },
    };
    let ask_size: u32 = match read_size(size_text) {
        Some(v) => v,
        None => {
            return Err(QuoteError::FailedToParseAsz);
        },
    };
    Ok(Quote::new(bid, ask, ask_size))
}

/// What `get_ticker_data` returned, as a map.
pub open spec fn store_view(r: Result<QuoteStore, QuoteError>) -> Result<Map<u64, Quote>, QuoteError> {
    match r {
        Ok(store) => Ok(store@),
        Err(e) => Err(e),
    }
}

/// Builds the quote store of a cycle from the rows of a snapshot.
pub fn get_ticker_data(rows: &Vec<MarketDataResponse>) -> (r: Result<QuoteStore, QuoteError>)
    ensures
        store_view(r) == ticker_data(rows@, rows@.len() as int),
{
    let mut store: QuoteStore = QuoteStore::new();
    let mut n: usize = 0;
    while n < rows.len()
        invariant
            0 <= n <= rows@.len(),
            ticker_data(rows@, n as int) == Ok::<Map<u64, Quote>, QuoteError>(store@),
        decreases rows@.len() - n,
    {
        let row: &MarketDataResponse = &rows[n];
        match read_row_quote(row) {
            Err(e) => {
                proof {
                    lemma_ticker_data_error(rows@, n as int + 1, rows@.len() as int);
                }
                return Err(e);
            },
            Ok(quote) => match parse_number(row.conid_ex.as_str()) {
                Some(conid) => {
                    store.insert(conid, quote);
                },
                None => {},
            },
        }
        n = n + 1;
    }
    Ok(store)
}

} // verus!
