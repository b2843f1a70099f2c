//! The contract index: the expirations a listing offers, in the order in
//! which the listing names them, with a call ladder and a put ladder each.
//!
//! The index is filled from listing pages, one page at a time. After each page
//! the builder says whether it wants another, and `finish` puts every ladder
//! in order.

use crate::dates::{parsed_expiration, Expiration};
use crate::ladder::{
    find_strike, is_last_listing, ladder_insert, ladder_of, lemma_ladder_of_contents, put_rung,
    strictly_ascending, Rung,
};
use crate::quotes::{right_of, ContractKey, ContractType, Quote, QuoteStore};
use vstd::prelude::*;
use vstd::string::*;

verus! {

/// One row of a listing page, as the broker sends it.
#[derive(Debug, PartialEq, Eq)]
pub struct ListedContract {
    /// Broker id of the contract.
    pub conid: u64,
    /// Eight characters, `YYYYMMDD`; the century is not read.
    pub maturity_date: String,
    /// `C` or `P`.
    pub right: String,
    /// Strike in cents.
    pub strike: i32,
}

/// A row that was taken into the index: which expiration it belongs to, by
/// position, its type, and its rung.
#[derive(Clone, Copy, Debug, PartialEq, Eq, Structural)]
pub struct Listing {
    pub date_index: usize,
    pub right: ContractType,
    pub rung: Rung,
}

/// What the builder has gathered: the budget of expirations still open, the
/// expirations in order of first appearance, and the rows taken so far.
pub struct Gathered {
    pub remaining: int,
    pub dates: Seq<Expiration>,
    pub listings: Seq<Listing>,
}

/// The expiration that a maturity date names: the last six of its eight
/// characters, read as `YYMMDD`.
pub open spec fn maturity_expiration(text: Seq<char>) -> Option<Expiration> {
    if text.len() == 8 {
        parsed_expiration(text.subrange(2, 8))
    } else {
        None
    }
}

/// The expiration and type of a row; `None` for a row that cannot be read,
/// which is skipped.
pub open spec fn row_shape(row: ListedContract) -> Option<(Expiration, ContractType)> {
    match (maturity_expiration(row.maturity_date@), right_of(row.right@)) {
        (Some(e), Some(t)) => Some((e, t)),
        _ => None,
    }
}

/// A contract is kept unless it expires more than `offset` days before today.
pub open spec fn is_kept(today: Expiration, offset: int, e: Expiration) -> bool {
    e.day_number >= today.day_number - offset
}

/// One row's effect on what has been gathered. The flag says that the row
/// opened an expiration beyond the budget, which ends the page.
pub open spec fn absorb_row(g: Gathered, today: Expiration, offset: int, row: ListedContract) -> (
    Gathered,
    bool,
) {
    match row_shape(row) {
        None => (g, false),
        Some((e, t)) => {
            let rung = Rung { strike: row.strike, conid: row.conid };
            if !is_kept(today, offset, e) {
                (g, false)
            } else if g.dates.contains(e) {
                let listing = Listing { date_index: g.dates.index_of(e) as usize, right: t, rung };
                (Gathered { listings: g.listings.push(listing), ..g }, false)
            } else if g.remaining <= 0 {
                (g, true)
            } else {
                let listing = Listing { date_index: g.dates.len() as usize, right: t, rung };
                (
                    Gathered {
                        remaining: g.remaining - 1,
                        dates: g.dates.push(e),
                        listings: g.listings.push(listing),
                    },
                    false,
                )
            }
        },
    }
}

/// The effect of the rows of a page from position `from` on.
pub open spec fn absorb_page(
    g: Gathered,
    today: Expiration,
    offset: int,
    rows: Seq<ListedContract>,
    from: int,
) -> Gathered
    decreases rows.len() - from,
{
    if from < 0 || from >= rows.len() {
        g
    } else {
        let (next, stop) = absorb_row(g, today, offset, rows[from]);
        if stop {
            next
        } else {
            absorb_page(next, today, offset, rows, from + 1)
        }
    }
}

/// The ladder of one expiration and type: the rows taken for it, put in one
/// by one in order of arrival.
pub open spec fn ladder_for(listings: Seq<Listing>, date_index: int, right: ContractType) -> Seq<
    Rung,
>
    decreases listings.len(),
{
    if listings.len() == 0 {
        Seq::empty()
    } else {
        let rest = ladder_for(listings.drop_last(), date_index, right);
        let last = listings.last();
        if last.date_index == date_index && last.right == right {
            ladder_insert(rest, last.rung)
        } else {
            rest
        }
    }
}

/// Every ladder built from listings is strictly ascending.
pub proof fn lemma_ladder_for_ascending(
    listings: Seq<Listing>,
    date_index: int,
    right: ContractType,
)
    ensures
        strictly_ascending(ladder_for(listings, date_index, right)),
    decreases listings.len(),
{
    if listings.len() > 0 {
        lemma_ladder_for_ascending(listings.drop_last(), date_index, right);
        crate::ladder::lemma_insert_ascending(
            ladder_for(listings.drop_last(), date_index, right),
            listings.last().rung,
        );
    }
}

/// The rungs that arrived for one expiration and type, in order of arrival.
pub open spec fn arrivals_for(listings: Seq<Listing>, date_index: int, right: ContractType) -> Seq<
    Rung,
>
    decreases listings.len(),
{
    if listings.len() == 0 {
        Seq::empty()
    } else {
        let rest = arrivals_for(listings.drop_last(), date_index, right);
        let last = listings.last();
        if last.date_index == date_index && last.right == right {
            rest.push(last.rung)
        } else {
            rest
        }
    }
}

/// The ladder of an expiration and type is the ladder of the rungs that
/// arrived for it. So it holds a rung exactly if that rung arrived for it and
/// no later arrival had the same strike: no listed strike is lost, and of a
/// strike listed twice the last listing stays.
pub proof fn lemma_ladder_for_holds_arrivals(
    listings: Seq<Listing>,
    date_index: int,
    right: ContractType,
    rung: Rung,
)
    ensures
        ladder_for(listings, date_index, right) == ladder_of(
            arrivals_for(listings, date_index, right),
        ),
        ladder_for(listings, date_index, right).contains(rung) <==> exists|k: int| #[trigger]
            is_last_listing(arrivals_for(listings, date_index, right), rung, k),
{
    lemma_ladder_for_is_ladder_of(listings, date_index, right);
    lemma_ladder_of_contents(arrivals_for(listings, date_index, right), rung);
}

proof fn lemma_ladder_for_is_ladder_of(listings: Seq<Listing>, date_index: int, right: ContractType)
    ensures
        ladder_for(listings, date_index, right) == ladder_of(
            arrivals_for(listings, date_index, right),
        ),
    decreases listings.len(),
{
    if listings.len() > 0 {
        lemma_ladder_for_is_ladder_of(listings.drop_last(), date_index, right);
        let rest = arrivals_for(listings.drop_last(), date_index, right);
        let last = listings.last();
        if last.date_index == date_index && last.right == right {
            assert(rest.push(last.rung).drop_last() =~= rest);
        }
    }
}

/// While budget is left, every expiration gathered is paid for out of it:
/// the expirations gathered and the budget left add up to what they added up
/// to before the page.
pub proof fn lemma_page_keeps_budget(
    g: Gathered,
    today: Expiration,
    offset: int,
    rows: Seq<ListedContract>,
    from: int,
)
    requires
        g.remaining >= 0,
        0 <= from,
    ensures
        absorb_page(g, today, offset, rows, from).remaining >= 0,
        absorb_page(g, today, offset, rows, from).dates.len() + absorb_page(
            g,
            today,
            offset,
            rows,
            from,
        ).remaining == g.dates.len() + g.remaining,
    decreases rows.len() - from,
{
    if from < rows.len() {
        let (next, stop) = absorb_row(g, today, offset, rows[from]);
        if !stop {
            lemma_page_keeps_budget(next, today, offset, rows, from + 1);
        }
    }
}

/// The broker ids of the rows taken, in order of arrival.
pub open spec fn listing_conids(listings: Seq<Listing>) -> Seq<u64> {
    listings.map_values(|l: Listing| l.rung.conid)
}

/// A sequence cut into runs of `size`; only the last run may be shorter, and
/// no run is empty.
pub open spec fn chunks(s: Seq<u64>, size: int) -> Seq<Seq<u64>>
    decreases s.len(),
{
    if size <= 0 || s.len() == 0 {
        Seq::empty()
    } else if s.len() <= size {
        seq![s]
    } else {
        seq![s.take(size)] + chunks(s.skip(size), size)
    }
}

/// The contents of each batch.
pub open spec fn batch_views(batches: Seq<Vec<u64>>) -> Seq<Seq<u64>> {
    batches.map_values(|b: Vec<u64>| b@)
}

/// How many broker ids go into one market-data request.
pub const BATCH_SIZE: usize = 300;

/// One expiration with its two ladders.
pub struct ExpirationLadders {
    pub expiration: Expiration,
    pub calls: Vec<Rung>,
    pub puts: Vec<Rung>,
}

/// The mathematical content of `ExpirationLadders`.
pub struct Ladders {
    pub expiration: Expiration,
    pub calls: Seq<Rung>,
    pub puts: Seq<Rung>,
}

impl Ladders {
    /// The ladder of the given type.
    pub open spec fn ladder(self, right: ContractType) -> Seq<Rung> {
        match right {
            ContractType::Call => self.calls,
            ContractType::Put => self.puts,
        }
    }
}

impl View for ExpirationLadders {
    type V = Ladders;

    open spec fn view(&self) -> Ladders {
        Ladders { expiration: self.expiration, calls: self.calls@, puts: self.puts@ }
    }
}

/// The contract index. Its view is the sequence of expirations with their
/// ladders, in listing order.
pub struct ContractIndex {
    entries: Vec<ExpirationLadders>,
}

impl View for ContractIndex {
    type V = Seq<Ladders>;

    closed spec fn view(&self) -> Seq<Ladders> {
        self.entries@.map_values(|e: ExpirationLadders| e@)
    }
}

/// Every ladder is strictly ascending and no expiration occurs twice.
pub open spec fn index_wf(index: Seq<Ladders>) -> bool {
    &&& forall|i: int|
        0 <= i < index.len() ==> strictly_ascending((#[trigger] index[i]).calls)
            && strictly_ascending(index[i].puts)
    &&& forall|i: int, j: int|
        0 <= i < j < index.len() ==> (#[trigger] index[i]).expiration != (
        #[trigger] index[j]).expiration
}

impl ContractIndex {
    /// The invariant of the index.
    pub open spec fn wf(&self) -> bool {
        index_wf(self@)
    }

    /// An index without expirations.
    pub fn empty() -> (index: ContractIndex)
        ensures
            index@.len() == 0,
            index.wf(),
    {
        ContractIndex { entries: Vec::new() }
    }

    /// The number of expirations.
    pub fn len(&self) -> (n: usize)
        ensures
            n == self@.len(),
    {
        self.entries.len()
    }

    /// The `i`-th expiration in listing order.
    pub fn expiration(&self, i: usize) -> (e: Expiration)
        requires
            i < self@.len(),
        ensures
            e == self@[i as int].expiration,
    {
        self.entries[i].expiration
    }

    /// The ladder of the `i`-th expiration for one contract type.
    pub fn ladder(&self, i: usize, right: ContractType) -> (l: &Vec<Rung>)
        requires
            i < self@.len(),
        ensures
            l@ == self@[i as int].ladder(right),
    {
        match right {
            ContractType::Call => &self.entries[i].calls,
            ContractType::Put => &self.entries[i].puts,
        }
    }

    /// The expirations in listing order.
    pub fn dates(&self) -> (dates: Vec<Expiration>)
        ensures
            dates@.len() == self@.len(),
            forall|i: int| 0 <= i < dates@.len() ==> dates@[i] == (#[trigger] self@[i]).expiration,
    {
        let mut dates: Vec<Expiration> = Vec::new();
        let mut i: usize = 0;
        while i < self.entries.len()
            invariant
                0 <= i <= self.entries@.len(),
                dates@.len() == i,
                forall|k: int| 0 <= k < i ==> dates@[k] == (#[trigger] self@[k]).expiration,
            decreases self.entries@.len() - i,
        {
            dates.push(self.entries[i].expiration);
            i = i + 1;
        }
        dates
    }

    /// The position of an expiration in the index.
    pub fn find_expiration(&self, e: Expiration) -> (r: Option<usize>)
        ensures
            r matches Some(i) ==> i < self@.len() && self@[i as int].expiration == e
                && forall|k: int| 0 <= k < i ==> (#[trigger] self@[k]).expiration != e,
            r is None ==> forall|k: int|
                0 <= k < self@.len() ==> (#[trigger] self@[k]).expiration != e,
    {
        let mut i: usize = 0;
        while i < self.entries.len()
            invariant
                0 <= i <= self.entries@.len(),
                forall|k: int| 0 <= k < i ==> (#[trigger] self@[k]).expiration != e,
            decreases self.entries@.len() - i,
        {
            if self.entries[i].expiration == e {
                return Some(i);
            }
            i = i + 1;
        }
        None
    }
}

/// The index lists the contract of `key` at place `p` of expiration `i`.
pub open spec fn lists(index: Seq<Ladders>, key: ContractKey, i: int, p: int) -> bool {
    &&& 0 <= i < index.len()
    &&& index[i].expiration == key.expiration
    &&& 0 <= p < index[i].ladder(key.contract_type).len()
    &&& index[i].ladder(key.contract_type)[p].strike == key.strike
}

/// The broker id of the contract of `key`, if the index lists it.
pub open spec fn conid_in(index: Seq<Ladders>, key: ContractKey) -> Option<u64> {
    if exists|i: int, p: int| #[trigger] lists(index, key, i, p) {
        let (i, p) = choose|i: int, p: int| #[trigger] lists(index, key, i, p);
        Some(index[i].ladder(key.contract_type)[p].conid)
    } else {
        None
    }
}

/// An index lists a contract at one place only.
pub proof fn lemma_listed_once(index: Seq<Ladders>, key: ContractKey, i: int, p: int, j: int, q: int)
    requires
        index_wf(index),
        lists(index, key, i, p),
        lists(index, key, j, q),
    ensures
        i == j,
        p == q,
{
    if i < j {
        assert(index[i].expiration != index[j].expiration);
    } else if j < i {
        assert(index[j].expiration != index[i].expiration);
    } else {
        let ladder = index[i].ladder(key.contract_type);
        assert(strictly_ascending(ladder));
        if p < q {
            assert(ladder[p].strike < ladder[q].strike);
        } else if q < p {
            assert(ladder[q].strike < ladder[p].strike);
        }
    }
}

/// The broker id of a contract, if the index lists it.
pub fn conid_of(index: &ContractIndex, key: &ContractKey) -> (r: Option<u64>)
    requires
        index.wf(),
    ensures
        r == conid_in(index@, *key),
{
    match index.find_expiration(key.expiration) {
        None => {
            proof {
                if exists|i: int, p: int| #[trigger] lists(index@, *key, i, p) {
                    let (i, p) = choose|i: int, p: int| #[trigger] lists(index@, *key, i, p);
                    assert(index@[i].expiration == key.expiration);
                }
            }
            None
        },
        Some(i) => {
            let ladder: &Vec<Rung> = index.ladder(i, key.contract_type);
            match find_strike(ladder, key.strike) {
                None => {
                    proof {
                        if exists|j: int, q: int| #[trigger] lists(index@, *key, j, q) {
                            let (j, q) = choose|j: int, q: int| #[trigger]
                                lists(index@, *key, j, q);
                            if j < i {
                                assert(index@[j].expiration != index@[i as int].expiration);
                            } else if i < j {
                                assert(index@[i as int].expiration != index@[j].expiration);
                            }
                            assert(ladder@[q].strike == key.strike);
                        }
                    }
                    None
                },
                Some(p) => {
                    proof {
                        assert(lists(index@, *key, i as int, p as int));
                        let (j, q) = choose|j: int, q: int| #[trigger] lists(index@, *key, j, q);
                        lemma_listed_once(index@, *key, i as int, p as int, j, q);
                    }
                    Some(ladder[p].conid)
                },
            }
        },
    }
}

/// Why a contract has no quote.
#[derive(Clone, Copy, Debug, PartialEq, Eq, Structural)]
pub enum QuoteLookupError {
    /// The index does not list the contract.
    NotListed,
    /// The contract is listed under this broker id, and the store has no
    /// quote for it.
    NotQuoted { conid: u64 },
}

/// The quote of a contract: the quote filed under the broker id that the
/// index lists the contract with.
pub open spec fn quote_of(index: Seq<Ladders>, quotes: Map<u64, Quote>, key: ContractKey) -> Result<
    Quote,
    QuoteLookupError,
> {
    match conid_in(index, key) {
        None => Err(QuoteLookupError::NotListed),
        Some(conid) => if quotes.contains_key(conid) {
            Ok(quotes[conid])
        } else {
            Err(QuoteLookupError::NotQuoted { conid })
        },
    }
}

/// The quote of a contract named by expiration, type and strike. It is the
/// quote that the broker id of the contract resolves to.
pub fn get_quote(index: &ContractIndex, quotes: &QuoteStore, key: &ContractKey) -> (r: Result<
    Quote,
    QuoteLookupError,
>)
    requires
        index.wf(),
    ensures
        r == quote_of(index@, quotes@, *key),
{
    match conid_of(index, key) {
        None => Err(QuoteLookupError::NotListed),
        Some(conid) => match quotes.get(conid) {
            Some(quote) => Ok(quote),
            None => Err(QuoteLookupError::NotQuoted { conid }),
        },
    }
}

/// Gathers listing pages into a contract index.
pub struct IndexBuilder {
    today: Expiration,
    offset: i64,
    remaining: i64,
    dates: Vec<Expiration>,
    listings: Vec<Listing>,
}

impl View for IndexBuilder {
    type V = Gathered;

    closed spec fn view(&self) -> Gathered {
        Gathered { remaining: self.remaining as int, dates: self.dates@, listings: self.listings@ }
    }
}

/// No expiration was gathered twice, and every row taken belongs to one of
/// the expirations gathered.
pub open spec fn gathered_wf(g: Gathered) -> bool {
    &&& g.dates.no_duplicates()
    &&& forall|k: int| 0 <= k < g.listings.len() ==> (#[trigger] g.listings[k]).date_index
        < g.dates.len()
}

/// Taking a row keeps what was gathered well formed.
pub proof fn lemma_absorb_row_wf(g: Gathered, today: Expiration, offset: int, row: ListedContract)
    requires
        gathered_wf(g),
        g.dates.len() <= usize::MAX,
    ensures
        gathered_wf(absorb_row(g, today, offset, row).0),
{
    let next = absorb_row(g, today, offset, row).0;
    match row_shape(row) {
        None => {},
        Some((e, t)) => {
            if is_kept(today, offset, e) {
                if g.dates.contains(e) {
                    assert forall|k: int| 0 <= k < next.listings.len() implies (
                    #[trigger] next.listings[k]).date_index < next.dates.len() by {
                        if k < g.listings.len() {
                            assert(next.listings[k] == g.listings[k]);
                        }
                    }
                } else if g.remaining > 0 {
                    assert forall|k: int| 0 <= k < next.listings.len() implies (
                    #[trigger] next.listings[k]).date_index < next.dates.len() by {
                        if k < g.listings.len() {
                            assert(next.listings[k] == g.listings[k]);
                        }
                    }
                    assert forall|i: int, j: int|
                        0 <= i < next.dates.len() && 0 <= j < next.dates.len() && i
                            != j implies next.dates[i] != next.dates[j] by {
                        if i < g.dates.len() && j < g.dates.len() {
                            assert(g.dates[i] != g.dates[j]);
                        }
                    }
                }
            }
        },
    }
}

impl IndexBuilder {
    /// The date the builder counts from.
    pub closed spec fn today(&self) -> Expiration {
        self.today
    }

    /// How many days before `today` an expiration may lie and still be kept.
    pub closed spec fn offset(&self) -> int {
        self.offset as int
    }

    /// The invariant of the builder.
    pub closed spec fn wf(&self) -> bool {
        gathered_wf(self@)
    }

    /// A builder that takes up to `num_days` expirations, none of them more
    /// than `num_days_offset` days before `today`.
    pub fn new(num_days: i64, num_days_offset: i64, today: Expiration) -> (b: IndexBuilder)
        ensures
            b.wf(),
            b.today() == today,
            b.offset() == num_days_offset,
            b@.remaining == num_days,
            b@.dates.len() == 0,
            b@.listings.len() == 0,
    {
        IndexBuilder {
            today,
            offset: num_days_offset,
            remaining: num_days,
            dates: Vec::new(),
            listings: Vec::new(),
        }
    }

    /// Whether the budget of expirations is still open, so that the next
    /// listing page should be fetched and added.
    pub fn wants_next_page(&self) -> (b: bool)
        ensures
            b == (self@.remaining > 0),
    {
        self.remaining > 0
    }

    fn find_date(&self, e: Expiration) -> (r: Option<usize>)
        requires
            self.wf(),
        ensures
            r is Some <==> self@.dates.contains(e),
            r matches Some(i) ==> i == self@.dates.index_of(e),
    {
        let mut i: usize = 0;
        while i < self.dates.len()
            invariant
                0 <= i <= self.dates@.len(),
                self.dates@.no_duplicates(),
                forall|k: int| 0 <= k < i ==> self.dates@[k] != e,
            decreases self.dates@.len() - i,
        {
            if self.dates[i] == e {
                proof {
                    let j = self.dates@.index_of(e);
                    assert(self.dates@.contains(e));
                    assert(self.dates@[j] == e);
                }
                return Some(i);
            }
            i = i + 1;
        }
        None
    }

    /// Takes the rows of one listing page, in order. A row that cannot be
    /// read is skipped, and so is one that expired too long ago. The page
    /// ends at the first row that would open an expiration beyond the budget.
    pub fn add_page(&mut self, rows: &Vec<ListedContract>)
        requires
            old(self).wf(),
        ensures
            final(self).wf(),
            final(self).today() == old(self).today(),
            final(self).offset() == old(self).offset(),
            final(self)@ == absorb_page(old(self)@, old(self).today(), old(self).offset(), rows@, 0),
    {
        let ghost start = self@;
        let ghost today = self.today;
        let ghost offset = self.offset as int;
        let mut i: usize = 0;
        while i < rows.len()
            invariant
                0 <= i <= rows@.len(),
                self.wf(),
                self.today == today,
                self.offset as int == offset,
                today == old(self).today(),
                offset == old(self).offset(),
                start == old(self)@,
                absorb_page(start, today, offset, rows@, 0) == absorb_page(
                    self@,
                    today,
                    offset,
                    rows@,
                    i as int,
                ),
            decreases rows@.len() - i,
        {
            let row: &ListedContract = &rows[i];
            let ghost before = self@;
            let listed: usize = self.dates.len();
            proof {
                lemma_absorb_row_wf(before, today, offset, *row);
            }
            match read_row(row) {
                None => {},
                Some((e, t)) => {
                    let rung: Rung = Rung { strike: row.strike, conid: row.conid };
                    if e.day_number as i128 >= self.today.day_number as i128 - self.offset as i128 {
                        match self.find_date(e) {
                            Some(d) => {
                                self.listings.push(Listing { date_index: d, right: t, rung });
                            },
                            None => {
                                if self.remaining <= 0 {
                                    return ;
                                }
                                self.remaining = self.remaining - 1;
                                self.dates.push(e);
                                self.listings.push(Listing { date_index: listed, right: t, rung });
                            },
                        }
                    }
                },
            }
            assert(self@ == absorb_row(before, today, offset, *row).0);
            i = i + 1;
        }
    }
}

/// Builds the two ladders of the expiration at position `date_index`.
fn build_ladders(listings: &Vec<Listing>, date_index: usize) -> (r: (Vec<Rung>, Vec<Rung>))
    ensures
        r.0@ == ladder_for(listings@, date_index as int, ContractType::Call),
        r.1@ == ladder_for(listings@, date_index as int, ContractType::Put),
{
    let mut calls: Vec<Rung> = Vec::new();
    let mut puts: Vec<Rung> = Vec::new();
    let mut i: usize = 0;
    while i < listings.len()
        invariant
            0 <= i <= listings@.len(),
            calls@ == ladder_for(listings@.take(i as int), date_index as int, ContractType::Call),
            puts@ == ladder_for(listings@.take(i as int), date_index as int, ContractType::Put),
        decreases listings@.len() - i,
    {
        let listing: Listing = listings[i];
        proof {
            let shorter = listings@.take(i as int);
            let longer = listings@.take(i as int + 1);
            assert(longer.drop_last() =~= shorter);
            assert(longer.last() == listing);
            lemma_ladder_for_ascending(shorter, date_index as int, ContractType::Call);
            lemma_ladder_for_ascending(shorter, date_index as int, ContractType::Put);
        }
        if listing.date_index == date_index {
            match listing.right {
                ContractType::Call => {
                    put_rung(&mut calls, listing.rung);
                },
                ContractType::Put => {
                    put_rung(&mut puts, listing.rung);
                },
            }
        }
        i = i + 1;
    }
    proof {
        assert(listings@.take(listings@.len() as int) =~= listings@);
    }
    (calls, puts)
}

/// Cuts the broker ids of the rows taken into batches.
fn batch_conids(listings: &Vec<Listing>) -> (batches: Vec<Vec<u64>>)
    ensures
        batch_views(batches@) == chunks(listing_conids(listings@), BATCH_SIZE as int),
{
    let ghost all = listing_conids(listings@);
    let n: usize = listings.len();
    let mut batches: Vec<Vec<u64>> = Vec::new();
    let mut start: usize = 0;
    proof {
        assert(all.skip(0) =~= all);
        assert(batch_views(batches@) =~= Seq::<Seq<u64>>::empty());
    }
    while start < n
        invariant
            0 <= start <= n,
            n == listings@.len(),
            all == listing_conids(listings@),
            chunks(all, BATCH_SIZE as int) == batch_views(batches@) + chunks(
                all.skip(start as int),
                BATCH_SIZE as int,
            ),
        decreases n - start,
    {
        let end: usize = if n - start <= BATCH_SIZE {
            n
        } else {
            start + BATCH_SIZE
        };
        let mut batch: Vec<u64> = Vec::new();
        let mut k: usize = start;
        while k < end
            invariant
                start <= k <= end <= n,
                n == listings@.len(),
                all == listing_conids(listings@),
                batch@ == all.subrange(start as int, k as int),
            decreases end - k,
        {
            batch.push(listings[k].rung.conid);
            proof {
                assert(batch@ =~= all.subrange(start as int, k as int + 1));
            }
            k = k + 1;
        }
        proof {
            let rest = all.skip(start as int);
            let done = batch_views(batches@);
            assert(batch_views(batches@.push(batch)) =~= done.push(batch@));
            if n - start <= BATCH_SIZE {
                assert(batch@ =~= rest);
                assert(all.skip(end as int).len() == 0);
                assert(done + seq![rest] =~= done.push(batch@) + chunks(
                    all.skip(end as int),
                    BATCH_SIZE as int,
                ));
            } else {
                assert(batch@ =~= rest.take(BATCH_SIZE as int));
                assert(rest.skip(BATCH_SIZE as int) =~= all.skip(end as int));
                assert(done + (seq![rest.take(BATCH_SIZE as int)] + chunks(
                    all.skip(end as int),
                    BATCH_SIZE as int,
                )) =~= done.push(batch@) + chunks(all.skip(end as int), BATCH_SIZE as int));
            }
        }
        batches.push(batch);
        start = end;
    }
    proof {
        assert(all.skip(n as int).len() == 0);
        assert(batch_views(batches@) + Seq::<Seq<u64>>::empty() =~= batch_views(batches@));
    }
    batches
}

impl IndexBuilder {
    /// Ends the gathering: puts every ladder in ascending order, a strike
    /// that was listed twice keeping its last broker id, and cuts the broker
    /// ids of all rows taken, in order of arrival, into batches.
    pub fn finish(self) -> (r: (ContractIndex, Vec<Vec<u64>>))
        requires
            self.wf(),
        ensures
            r.0.wf(),
            r.0@.len() == self@.dates.len(),
            forall|d: int|
                0 <= d < r.0@.len() ==> (#[trigger] r.0@[d]) == (Ladders {
                    expiration: self@.dates[d],
                    calls: ladder_for(self@.listings, d, ContractType::Call),
                    puts: ladder_for(self@.listings, d, ContractType::Put),
                }),
            batch_views(r.1@) == chunks(listing_conids(self@.listings), BATCH_SIZE as int),
    {
        let mut entries: Vec<ExpirationLadders> = Vec::new();
        let mut d: usize = 0;
        while d < self.dates.len()
            invariant
                0 <= d <= self.dates@.len(),
                entries@.len() == d,
                forall|k: int|
                    0 <= k < d ==> (#[trigger] entries@[k])@ == (Ladders {
                        expiration: self.dates@[k],
                        calls: ladder_for(self.listings@, k, ContractType::Call),
                        puts: ladder_for(self.listings@, k, ContractType::Put),
                    }),
            decreases self.dates@.len() - d,
        {
            let (calls, puts) = build_ladders(&self.listings, d);
            entries.push(ExpirationLadders { expiration: self.dates[d], calls, puts });
            d = d + 1;
        }
        let batches: Vec<Vec<u64>> = batch_conids(&self.listings);
        let index = ContractIndex { entries };
        proof {
            assert forall|k: int| 0 <= k < index@.len() implies strictly_ascending(
                (#[trigger] index@[k]).calls,
            ) && strictly_ascending(index@[k].puts) by {
                lemma_ladder_for_ascending(self.listings@, k, ContractType::Call);
                lemma_ladder_for_ascending(self.listings@, k, ContractType::Put);
            }
        }
        (index, batches)
    }
}

/// Reads the expiration and type of a row.
fn read_row(row: &ListedContract) -> (r: Option<(Expiration, ContractType)>)
    ensures
        r == row_shape(*row),
{
    let text: &str = row.maturity_date.as_str();
    if text.unicode_len() != 8 {
        return None;
    }
    let short: &str = text.substring_char(2, 8);
    let e: Option<Expiration> = Expiration::parse(short);
    let t: Option<ContractType> = ContractType::from_right(row.right.as_str());
    match (e, t) {
        (Some(e), Some(t)) => Some((e, t)),
        _ => None,
    }
}

} // verus!
