//! The option chain of the market-data vendor: rows that name a contract by
//! a symbol code and quote it.

use crate::dates::{parsed_expiration, Expiration};
use crate::market_data::{price_of, read_price, read_size, size_of};
use crate::quotes::{right_of, ContractKey, ContractType, Quote};
use crate::text::{
    all_digits, digits_of, digits_value, find_next, fraction_cents, is_digit, next_of, to_chars,
};
use vstd::prelude::*;
use vstd::string::*;

verus! {

/// One row of a chain.
#[derive(Debug, PartialEq, Eq)]
pub struct ChainRow {
    /// `ok` for a row that carries data.
    pub status: String,
    /// The symbol: a root, an underscore and the symbol code.
    pub symbol: String,
    pub bid: String,
    pub ask: String,
    pub ask_size: String,
}

/// A contract of the chain with its quote.
#[derive(Clone, Copy, Debug, PartialEq, Eq, Structural)]
pub struct ChainQuote {
    pub key: ContractKey,
    pub quote: Quote,
}

/// The symbol code of a symbol: what stands between its first underscore and
/// the next, or the end.
pub open spec fn symbol_code(symbol: Seq<char>) -> Option<Seq<char>> {
    let start = next_of(symbol, '_', 0);
    if start >= symbol.len() {
        None
    } else {
        Some(symbol.subrange(start + 1, next_of(symbol, '_', start + 1)))
    }
}

/// The strike in cents that the digits of a symbol code stand for: the last
/// three digits are thousandths of a point, the digits before them whole
/// points.
pub open spec fn code_strike(digits: Seq<char>) -> Option<i32> {
    if digits.len() >= 4 && all_digits(digits) {
        let whole = digits.take(digits.len() - 3);
        let cents = digits_value(whole) * 100 + fraction_cents(digits.skip(digits.len() - 3));
        if cents <= i32::MAX {
            Some(cents as i32)
        } else {
            None
        }
    } else {
        None
    }
}

/// The contract that a symbol code names: six digits of expiration, one
/// letter of type, and the zero-padded strike.
pub open spec fn code_contract(code: Seq<char>) -> Option<ContractKey> {
    if code.len() < 11 {
        None
    } else {
        match (
            parsed_expiration(code.take(6)),
            right_of(code.subrange(6, 7)),
            code_strike(code.skip(7)),
        ) {
            (Some(expiration), Some(contract_type), Some(strike)) => Some(
                ContractKey { expiration, contract_type, strike },
            ),
            _ => None,
        }
    }
}

/// The status of rows that carry data.
pub open spec fn is_ok(status: Seq<char>) -> bool {
    status.len() == 2 && status[0] == 'o' && status[1] == 'k'
}

/// The contract and quote of a row; `None` for a row that carries no data or
/// cannot be read, which is passed over.
pub open spec fn chain_quote(row: ChainRow) -> Option<ChainQuote> {
    if !is_ok(row.status@) {
        None
    } else {
        match symbol_code(row.symbol@) {
            None => None,
            Some(code) => match (
                code_contract(code),
                price_of(row.bid@),
                price_of(row.ask@),
                size_of(row.ask_size@),
            ) {
                (Some(key), Some(bid), Some(ask), Some(ask_size)) => Some(
                    ChainQuote { key, quote: Quote { bid, ask, ask_size } },
                ),
                _ => None,
            },
        }
    }
}

/// The contracts and quotes of the first `n` rows, in order.
pub open spec fn chain_quotes(rows: Seq<ChainRow>, n: int) -> Seq<ChainQuote>
    decreases n,
{
    if n <= 0 {
        Seq::empty()
    } else {
        match chain_quote(rows[n - 1]) {
            Some(q) => chain_quotes(rows, n - 1).push(q),
            None => chain_quotes(rows, n - 1),
        }
    }
}

fn read_code_strike(digits: &str) -> (r: Option<i32>)
    ensures
        r == code_strike(digits@),
{
    let chars: Vec<char> = to_chars(digits);
    let n: usize = chars.len();
    if n < 4 {
        return None;
    }
    let whole: Vec<char> = crate::text::slice_of(&chars, 0, n - 3);
    let ghost tail = chars@.skip(n as int - 3);
    proof {
        assert(whole@ =~= chars@.take(n as int - 3));
        assert(tail.len() == 3);
        assert(tail[0] == chars@[n as int - 3]);
        assert(tail[1] == chars@[n as int - 2]);
        assert(tail[2] == chars@[n as int - 1]);
        if all_digits(chars@) {
            assert forall|i: int| 0 <= i < whole@.len() implies is_digit(#[trigger] whole@[i]) by {
                assert(whole@[i] == chars@[i]);
            }
        }
    }
    let a: char = chars[n - 3];
    let b: char = chars[n - 2];
    let c: char = chars[n - 1];
    if a < '0' || a > '9' || b < '0' || b > '9' || c < '0' || c > '9' {
        proof {
            assert(!is_digit(chars@[n as int - 3]) || !is_digit(chars@[n as int - 2]) || !is_digit(
                chars@[n as int - 1],
            ));
        }
        return None;
    }
    let points: i64 = match digits_of(&whole) {
        Some(v) => v,
        None => {
            proof {
                if all_digits(chars@) {
                    assert(digits_value(whole@) > crate::text::MAX_WHOLE);
                }
            }
            return None;
        },
    };
    proof {
        assert forall|i: int| 0 <= i < chars@.len() implies is_digit(#[trigger] chars@[i]) by {
            if i < n - 3 {
                assert(chars@[i] == whole@[i]);
            }
        }
    }
    let tenths: i64 = (a as u32 - '0' as u32) as i64;
    let hundredths: i64 = (b as u32 - '0' as u32) as i64;
    let thousandths: i64 = (c as u32 - '0' as u32) as i64;
    let cents: i64 = points * 100 + tenths * 10 + hundredths + if thousandths >= 5 {
        1
    } else {
        0
    };
    if cents <= i32::MAX as i64 {
        Some(cents as i32)
    } else {
        None
    }
}

fn read_code_contract(code: &str) -> (r: Option<ContractKey>)
    ensures
        r == code_contract(code@),
{
    let n: usize = code.unicode_len();
    if n < 11 {
        return None;
    }
    proof {
        assert(code@.subrange(0, 6) =~= code@.take(6));
        assert(code@.subrange(7, n as int) =~= code@.skip(7));
    }
    let expiration: Option<Expiration> = Expiration::parse(code.substring_char(0, 6));
    let contract_type: Option<ContractType> = ContractType::from_right(code.substring_char(6, 7));
    let strike: Option<i32> = read_code_strike(code.substring_char(7, n));
    match (expiration, contract_type, strike) {
        (Some(expiration), Some(contract_type), Some(strike)) => Some(
            ContractKey { expiration, contract_type, strike },
        ),
        _ => None,
    }
}

/// Reads the contract that a symbol names.
pub fn parse_symbol(symbol: &str) -> (r: Option<ContractKey>)
    ensures
        r == (match symbol_code(symbol@) {
            Some(code) => code_contract(code),
            None => None,
        }),
{
    let n: usize = symbol.unicode_len();
    let start: usize = find_next(symbol, '_', 0);
    if start >= n {
        return None;
    }
    let end: usize = find_next(symbol, '_', start + 1);
    read_code_contract(symbol.substring_char(start + 1, end))
}

fn status_is_ok(status: &str) -> (b: bool)
    ensures
        b == is_ok(status@),
{
    status.unicode_len() == 2 && status.get_char(0) == 'o' && status.get_char(1) == 'k'
}

/// Reads one row of a chain.
pub fn read_chain_row(row: &ChainRow) -> (r: Option<ChainQuote>)
    ensures
        r == chain_quote(*row),
{
    if !status_is_ok(row.status.as_str()) {
        return None;
    }
    let key: Option<ContractKey> = parse_symbol(row.symbol.as_str());
    let bid: Option<i32> = read_price(row.bid.as_str());
    let ask: Option<i32> = read_price(row.ask.as_str());
    let ask_size: Option<u32> = read_size(row.ask_size.as_str());
    match (key, bid, ask, ask_size) {
        (Some(key), Some(bid), Some(ask), Some(ask_size)) => Some(
            ChainQuote { key, quote: Quote::new(bid, ask, ask_size) },
        ),
        _ => None,
    }
}

/// Reads a chain: the contracts and quotes of its rows, in order, without
/// the rows that carry no data or cannot be read.
pub fn get_spx_data(rows: &Vec<ChainRow>) -> (quotes: Vec<ChainQuote>)
    ensures
        quotes@ == chain_quotes(rows@, rows@.len() as int),
{
    let mut quotes: Vec<ChainQuote> = Vec::new();
    let mut n: usize = 0;
    while n < rows.len()
        invariant
            0 <= n <= rows@.len(),
            quotes@ == chain_quotes(rows@, n as int),
        decreases rows@.len() - n,
    {
        match read_chain_row(&rows[n]) {
            Some(q) => {
                quotes.push(q);
            },
            None => {},
        }
        n = n + 1;
    }
    quotes
}

} // verus!
