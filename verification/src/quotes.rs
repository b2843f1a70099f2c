//! Quotes and the per-cycle quote store.
//!
//! Prices are whole cents. A quote keeps the bid and the ask it was taken
//! from; its mid price is computed from them on demand, so it can never
//! disagree with them.

use crate::dates::Expiration;
use crate::money::{
    lemma_round_div_is_nearest, lemma_round_div_monotonic, round_div, round_to_nearest,
};
use std::collections::HashMap;
use vstd::prelude::*;
use vstd::std_specs::hash::*;

verus! {

broadcast use group_hash_axioms;

/// The two kinds of option contract.
#[derive(Clone, Copy, Debug, PartialEq, Eq, Structural)]
pub enum ContractType {
    Call,
    Put,
}

/// What `ContractType::from_right` makes of a text: `C` is a call, `P` a put.
pub open spec fn right_of(text: Seq<char>) -> Option<ContractType> {
    if text.len() == 1 && text[0] == 'C' {
        Some(ContractType::Call)
    } else if text.len() == 1 && text[0] == 'P' {
        Some(ContractType::Put)
    } else {
        None
    }
}

impl ContractType {
    /// Reads the one-letter code of a contract type.
    pub fn from_right(text: &str) -> (r: Option<ContractType>)
        ensures
            r == right_of(text@),
    {
        if text.unicode_len() != 1 {
            return None;
        }
        let c: char = text.get_char(0);
        if c == 'C' {
            Some(ContractType::Call)
        } else if c == 'P' {
            Some(ContractType::Put)
        } else {
            None
        }
    }

    /// The one-letter code of the type.
    pub fn letter(&self) -> (c: char)
        ensures
            c == (if *self == ContractType::Call { 'C' } else { 'P' }),
    {
        match self {
            ContractType::Call => 'C',
            ContractType::Put => 'P',
        }
    }
}

/// The identity of a contract: expiration, type and strike in cents.
#[derive(Clone, Copy, Debug, PartialEq, Eq, Structural)]
pub struct ContractKey {
    pub expiration: Expiration,
    pub contract_type: ContractType,
    pub strike: i32,
}

/// One contract's market snapshot for the current cycle, in cents.
#[derive(Clone, Copy, Debug, PartialEq, Eq, Structural)]
pub struct Quote {
    pub bid: i32,
    pub ask: i32,
    /// Quoted depth at the ask.
    pub ask_size: u32,
}

impl Quote {
    /// The mid price: the mean of bid and ask, rounded to the cent.
    pub open spec fn spec_mid(self) -> int {
        round_div(self.bid + self.ask, 2)
    }

    pub fn new(bid: i32, ask: i32, ask_size: u32) -> (q: Quote)
        ensures
            q == (Quote { bid, ask, ask_size }),
    {
        Quote { bid, ask, ask_size }
    }

    /// The quote that stands for a contract the vendor sent no figures for.
    pub fn empty() -> (q: Quote)
        ensures
            q == (Quote { bid: 0, ask: 0, ask_size: 0 }),
            q.spec_mid() == 0,
    {
        proof {
            lemma_round_even(0);
        }
        Quote { bid: 0, ask: 0, ask_size: 0 }
    }

    /// The mid price in cents.
    pub fn mid(&self) -> (m: i32)
        ensures
            m == self.spec_mid(),
    {
        proof {
            lemma_mid_between(*self);
        }
        round_to_nearest(self.bid as i64 + self.ask as i64, 2) as i32
    }
}

/// The mid price lies between the bid and the ask, whichever is larger.
pub proof fn lemma_mid_between(q: Quote)
    ensures
        q.bid <= q.ask ==> q.bid <= q.spec_mid() <= q.ask,
        q.ask <= q.bid ==> q.ask <= q.spec_mid() <= q.bid,
{
    let low: int = if q.bid <= q.ask { q.bid as int } else { q.ask as int };
    let high: int = if q.bid <= q.ask { q.ask as int } else { q.bid as int };
    lemma_round_div_monotonic(2 * low, low + high, 2);
    lemma_round_div_monotonic(low + high, 2 * high, 2);
    lemma_round_even(low);
    lemma_round_even(high);
}

/// The mid price is the mean of bid and ask to the cent: twice the mid price
/// differs from their sum by at most one cent.
pub proof fn lemma_mid_is_mean_to_the_cent(q: Quote)
    ensures
        -1 <= 2 * q.spec_mid() - (q.bid + q.ask) <= 1,
{
    lemma_round_div_is_nearest(q.bid + q.ask, 2);
    assert(q.spec_mid() * 2 == 2 * q.spec_mid());
}

/// Halving an even number needs no rounding.
pub proof fn lemma_round_even(n: int)
    ensures
        round_div(2 * n, 2) == n,
{
    if n >= 0 {
        assert((2 * (2 * n) + 2) / 4 == n);
    } else {
        assert((2 * (-(2 * n)) + 2) / 4 == -n);
    }
}

/// A contract's broker id and its quote.
#[derive(Clone, Copy, Debug, PartialEq, Eq, Structural)]
pub struct Quoted {
    pub conid: u64,
    pub quote: Quote,
}

/// The quotes of one polling cycle, by broker contract id. A store is built
/// whole and only read afterwards: each cycle builds a new one.
pub struct QuoteStore {
    quotes: HashMap<u64, Quote>,
}

impl View for QuoteStore {
    type V = Map<u64, Quote>;

    closed spec fn view(&self) -> Map<u64, Quote> {
        self.quotes@
    }
}

/// The quotes of the first `n` entries, by broker id; a later entry of a
/// contract replaces an earlier one.
pub open spec fn quotes_of(entries: Seq<Quoted>, n: int) -> Map<u64, Quote>
    decreases n,
{
    if n <= 0 {
        Map::empty()
    } else {
        quotes_of(entries, n - 1).insert(entries[n - 1].conid, entries[n - 1].quote)
    }
}

impl QuoteStore {
    /// A store with no quotes.
    pub fn new() -> (s: QuoteStore)
        ensures
            s@ == Map::<u64, Quote>::empty(),
    {
        QuoteStore { quotes: HashMap::new() }
    }

    /// The store of the given quotes.
    pub fn from_quotes(entries: &Vec<Quoted>) -> (s: QuoteStore)
        ensures
            s@ == quotes_of(entries@, entries@.len() as int),
    {
        let mut store: QuoteStore = QuoteStore::new();
        let mut n: usize = 0;
        while n < entries.len()
            invariant
                0 <= n <= entries@.len(),
                store@ == quotes_of(entries@, n as int),
            decreases entries@.len() - n,
        {
            store.insert(entries[n].conid, entries[n].quote);
            n = n + 1;
        }
        store
    }

    /// Files `quote` under `conid`, replacing what was filed there.
    pub(crate) fn insert(&mut self, conid: u64, quote: Quote)
        ensures
            final(self)@ == old(self)@.insert(conid, quote),
    {
        self.quotes.insert(conid, quote);
    }

    /// The quote filed under `conid`.
    pub fn get(&self, conid: u64) -> (r: Option<Quote>)
        ensures
            r == (if self@.contains_key(conid) {
                Some(self@[conid])
            } else {
                None
            }),
    {
        match self.quotes.get(&conid) {
            Some(q) => Some(*q),
            None => None,
        }
    }

    /// How many contracts have a quote.
    pub fn len(&self) -> (n: usize)
        ensures
            n == self@.len(),
    {
        self.quotes.len()
    }
}

} // verus!
