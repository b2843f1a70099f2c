//! The three spread scanners.
//!
//! A scanner walks the contract index expiration by expiration, calls before
//! puts, strike by strike, and asks at every place whether a spread stands
//! there. What it finds at one place is a function of the index, the quotes,
//! the settings and today's date; the scan is the sequence of what was found,
//! in the order of the walk. A contract of the index that has no quote ends
//! the scan with an error as soon as its quote is asked for.

use crate::contender::{Contender, Leg, Spread, SpreadKind};
use crate::dates::{days_between, Expiration};
use crate::index::{ContractIndex, Ladders};
use crate::ladder::{find_strike, has_strike, lower_bound, Rung};
use crate::money::{lemma_round_div_mean_bounded, round_div, round_to_nearest};
use crate::quotes::{ContractType, Quote, QuoteStore};
use crate::rank::{Rank, RANK_DAY_BIAS};
use crate::scan_laws::{all_sound, lemma_scan_is_sound};
use vstd::prelude::*;

verus! {

/// What the scanners are asked to look for.
#[derive(Clone, Copy, Debug, PartialEq, Eq, Structural)]
pub struct ScanSettings {
    /// The mispricing, in cents, that an opportunity must exceed.
    pub arb_threshold: i64,
    /// The bid, in cents, that every leg must exceed.
    pub min_bid: i32,
    /// The days that must lie between the two expirations of a calendar
    /// spread.
    pub adjacency_days: i64,
    /// The gap between neighbouring strikes of a butterfly or box spread, in
    /// cents.
    pub wing_width: u32,
}

/// A contract of the index has no quote in the store.
#[derive(Clone, Copy, Debug, PartialEq, Eq, Structural)]
pub struct MissingQuote {
    pub conid: u64,
}

/// Everything a scan depends on.
pub struct Market {
    pub index: Seq<Ladders>,
    pub quotes: Map<u64, Quote>,
    pub settings: ScanSettings,
    pub today: Expiration,
}

/// What was found at one place: a spread, nothing, or a missing quote.
pub type Found = Result<Option<Contender>, MissingQuote>;

/// What a scan gives: the spreads found, or the first missing quote.
pub type Scan = Result<Seq<Contender>, MissingQuote>;

/// The quote of a contract.
pub open spec fn quote_at(quotes: Map<u64, Quote>, conid: u64) -> Result<Quote, MissingQuote> {
    if quotes.contains_key(conid) {
        Ok(quotes[conid])
    } else {
        Err(MissingQuote { conid })
    }
}

/// The leg that a rung and its quote make.
pub open spec fn leg_of(e: Expiration, t: ContractType, rung: Rung, q: Quote) -> Leg {
    Leg { expiration: e, contract_type: t, strike: rung.strike, mid_price: q.spec_mid() as i32 }
}

/// A quote passes the filters: its bid exceeds the minimum and there is size
/// at the ask.
pub open spec fn passes(settings: ScanSettings, q: Quote) -> bool {
    q.bid > settings.min_bid && q.ask_size > 0
}

/// The gap between two strikes, rounded to the tenth of a point, which is ten
/// cents, is the wing width.
pub open spec fn gap_matches(settings: ScanSettings, low: Rung, high: Rung) -> bool {
    round_div(high.strike - low.strike, 10) * 10 == settings.wing_width
}

/// The rank of an opportunity that expires on `e`.
pub open spec fn rank_on(today: Expiration, e: Expiration, size: u32, arb: i64) -> Rank {
    Rank {
        average_ask_size: size,
        arb_value: arb,
        days: (days_between(today, e) + RANK_DAY_BIAS) as i64,
    }
}

/// The calendar spread on two quoted contracts of the same strike and type,
/// if they make one: sell the near, buy the far.
pub open spec fn calendar_pick(
    settings: ScanSettings,
    today: Expiration,
    near_date: Expiration,
    far_date: Expiration,
    t: ContractType,
    near: Rung,
    near_quote: Quote,
    far: Rung,
    far_quote: Quote,
) -> Option<Contender> {
    let arb = near_quote.spec_mid() - far_quote.spec_mid();
    let size = round_div(near_quote.ask_size + far_quote.ask_size, 2);
    if arb > settings.arb_threshold && passes(settings, near_quote) && passes(settings, far_quote)
        && days_between(near_date, far_date) == settings.adjacency_days {
        Some(
            Contender {
                arb_value: arb as i64,
                average_ask_size: size as u32,
                spread: Spread::Calendar {
                    near: leg_of(near_date, t, near, near_quote),
                    far: leg_of(far_date, t, far, far_quote),
                },
                expiration: near_date,
                rank: rank_on(today, near_date, size as u32, arb as i64),
            },
        )
    } else {
        None
    }
}

/// The butterfly on three quoted neighbours of one ladder, if they make one:
/// buy the wings, sell the body twice.
pub open spec fn butterfly_pick(
    settings: ScanSettings,
    today: Expiration,
    date: Expiration,
    t: ContractType,
    left: Rung,
    left_quote: Quote,
    body: Rung,
    body_quote: Quote,
    right: Rung,
    right_quote: Quote,
) -> Option<Contender> {
    let arb = 2 * body_quote.spec_mid() - (left_quote.spec_mid() + right_quote.spec_mid());
    let size = round_div(left_quote.ask_size + right_quote.ask_size + 2 * body_quote.ask_size, 4);
    if arb > settings.arb_threshold && passes(settings, left_quote) && passes(settings, right_quote)
        && passes(settings, body_quote) && gap_matches(settings, left, body) && gap_matches(
        settings,
        body,
        right,
    ) {
        Some(
            Contender {
                arb_value: arb as i64,
                average_ask_size: size as u32,
                spread: Spread::Butterfly {
                    left: leg_of(date, t, left, left_quote),
                    body: leg_of(date, t, body, body_quote),
                    right: leg_of(date, t, right, right_quote),
                },
                expiration: date,
                rank: rank_on(today, date, size as u32, arb as i64),
            },
        )
    } else {
        None
    }
}

/// The price, in cents, of the low put and the high call less that of the low
/// call and the high put. A fairly priced box has this at minus the width.
pub open spec fn box_balance(low_call: Quote, low_put: Quote, high_call: Quote, high_put: Quote) -> int {
    (low_put.spec_mid() + high_call.spec_mid()) - (low_call.spec_mid() + high_put.spec_mid())
}

/// The box spread on the calls and puts at two neighbouring places, if they
/// make one. Its mispricing is what the balance falls short of minus the wing
/// width.
pub open spec fn box_pick(
    settings: ScanSettings,
    today: Expiration,
    date: Expiration,
    low_call: Rung,
    low_call_quote: Quote,
    low_put: Rung,
    low_put_quote: Quote,
    high_call: Rung,
    high_call_quote: Quote,
    high_put: Rung,
    high_put_quote: Quote,
) -> Option<Contender> {
    let balance = box_balance(low_call_quote, low_put_quote, high_call_quote, high_put_quote);
    let arb = -balance - settings.wing_width;
    let size = round_div(
        low_call_quote.ask_size + high_call_quote.ask_size + low_put_quote.ask_size
            + high_put_quote.ask_size,
        4,
    );
    if arb > settings.arb_threshold && passes(settings, low_call_quote) && passes(
        settings,
        low_put_quote,
    ) && passes(settings, high_call_quote) && passes(settings, high_put_quote) && gap_matches(
        settings,
        low_call,
        high_call,
    ) && gap_matches(settings, low_put, high_put) {
        Some(
            Contender {
                arb_value: arb as i64,
                average_ask_size: size as u32,
                spread: Spread::Boxspread {
                    low_put: leg_of(date, ContractType::Put, low_put, low_put_quote),
                    low_call: leg_of(date, ContractType::Call, low_call, low_call_quote),
                    high_call: leg_of(date, ContractType::Call, high_call, high_call_quote),
                    high_put: leg_of(date, ContractType::Put, high_put, high_put_quote),
                },
                expiration: date,
                rank: rank_on(today, date, size as u32, arb as i64),
            },
        )
    } else {
        None
    }
}

/// The calendar spread at strike `k` of the ladder of type `t` at expiration
/// `i`, against the same strike at the next expiration. Nothing stands there
/// where there is no next expiration or it lacks the strike.
pub open spec fn calendar_candidate(m: Market, i: int, t: ContractType, k: int) -> Found {
    if i + 1 >= m.index.len() {
        Ok(None)
    } else {
        let near = m.index[i].ladder(t)[k];
        let far_ladder = m.index[i + 1].ladder(t);
        match quote_at(m.quotes, near.conid) {
            Err(e) => Err(e),
            Ok(near_quote) => if !has_strike(far_ladder, near.strike as int) {
                Ok(None)
            } else {
                let far = far_ladder[lower_bound(far_ladder, near.strike as int)];
                match quote_at(m.quotes, far.conid) {
                    Err(e) => Err(e),
                    Ok(far_quote) => Ok(
                        calendar_pick(
                            m.settings,
                            m.today,
                            m.index[i].expiration,
                            m.index[i + 1].expiration,
                            t,
                            near,
                            near_quote,
                            far,
                            far_quote,
                        ),
                    ),
                }
            },
        }
    }
}

/// The butterfly whose body is strike `k` of the ladder of type `t` at
/// expiration `i`. Nothing stands at the first and the last strike.
pub open spec fn butterfly_candidate(m: Market, i: int, t: ContractType, k: int) -> Found {
    let ladder = m.index[i].ladder(t);
    if k < 1 || k + 1 >= ladder.len() {
        Ok(None)
    } else {
        match quote_at(m.quotes, ladder[k].conid) {
            Err(e) => Err(e),
            Ok(body_quote) => match quote_at(m.quotes, ladder[k - 1].conid) {
                Err(e) => Err(e),
                Ok(left_quote) => match quote_at(m.quotes, ladder[k + 1].conid) {
                    Err(e) => Err(e),
                    Ok(right_quote) => Ok(
                        butterfly_pick(
                            m.settings,
                            m.today,
                            m.index[i].expiration,
                            t,
                            ladder[k - 1],
                            left_quote,
                            ladder[k],
                            body_quote,
                            ladder[k + 1],
                            right_quote,
                        ),
                    ),
                },
            },
        }
    }
}

/// The box spread on places `k` and `k + 1` of both ladders at expiration
/// `i`. Calls and puts are paired by place, not by strike. The walk meets a
/// box on the call ladder only; nothing stands where either ladder ends.
pub open spec fn box_candidate(m: Market, i: int, t: ContractType, k: int) -> Found {
    let calls = m.index[i].calls;
    let puts = m.index[i].puts;
    if t != ContractType::Call || k + 1 >= calls.len() || k + 1 >= puts.len() {
        Ok(None)
    } else {
        match quote_at(m.quotes, calls[k].conid) {
            Err(e) => Err(e),
            Ok(low_call) => match quote_at(m.quotes, puts[k].conid) {
                Err(e) => Err(e),
                Ok(low_put) => match quote_at(m.quotes, calls[k + 1].conid) {
                    Err(e) => Err(e),
                    Ok(high_call) => match quote_at(m.quotes, puts[k + 1].conid) {
                        Err(e) => Err(e),
                        Ok(high_put) => Ok(
                            box_pick(
                                m.settings,
                                m.today,
                                m.index[i].expiration,
                                calls[k],
                                low_call,
                                puts[k],
                                low_put,
                                calls[k + 1],
                                high_call,
                                puts[k + 1],
                                high_put,
                            ),
                        ),
                    },
                },
            },
        }
    }
}

/// What a scanner of the given kind finds at one place.
pub open spec fn candidate(kind: SpreadKind, m: Market, i: int, t: ContractType, k: int) -> Found {
    match kind {
        SpreadKind::Calendar => calendar_candidate(m, i, t, k),
        SpreadKind::Butterfly => butterfly_candidate(m, i, t, k),
        SpreadKind::Boxspread => box_candidate(m, i, t, k),
    }
}

/// What was found at one place, as a scan of that place alone.
pub open spec fn lift(found: Found) -> Scan {
    match found {
        Err(e) => Err(e),
        Ok(None) => Ok(Seq::empty()),
        Ok(Some(c)) => Ok(seq![c]),
    }
}

/// One scan after another: the finds of both in order, or the first error.
pub open spec fn join(first: Scan, second: Scan) -> Scan {
    match first {
        Err(e) => Err(e),
        Ok(a) => match second {
            Err(e) => Err(e),
            Ok(b) => Ok(a + b),
        },
    }
}

/// The scan of the first `n` strikes of one ladder.
pub open spec fn ladder_scan(kind: SpreadKind, m: Market, i: int, t: ContractType, n: int) -> Scan
    decreases n,
{
    if n <= 0 {
        Ok(Seq::empty())
    } else {
        join(ladder_scan(kind, m, i, t, n - 1), lift(candidate(kind, m, i, t, n - 1)))
    }
}

/// The scan of one expiration: its calls, and after them its puts.
pub open spec fn date_scan(kind: SpreadKind, m: Market, i: int) -> Scan {
    join(
        ladder_scan(kind, m, i, ContractType::Call, m.index[i].calls.len() as int),
        ladder_scan(kind, m, i, ContractType::Put, m.index[i].puts.len() as int),
    )
}

/// The scan of the first `n` expirations.
pub open spec fn dates_scan(kind: SpreadKind, m: Market, n: int) -> Scan
    decreases n,
{
    if n <= 0 {
        Ok(Seq::empty())
    } else {
        join(dates_scan(kind, m, n - 1), date_scan(kind, m, n - 1))
    }
}

/// The scan of the whole index.
pub open spec fn spread_scan(kind: SpreadKind, m: Market) -> Scan {
    dates_scan(kind, m, m.index.len() as int)
}

/// What a scanner returned, as a scan.
pub open spec fn scan_view(r: Result<Vec<Contender>, MissingQuote>) -> Scan {
    match r {
        Ok(v) => Ok(v@),
        Err(e) => Err(e),
    }
}

/// Once a ladder's scan has met a missing quote, scanning on changes nothing.
pub proof fn lemma_ladder_scan_error(
    kind: SpreadKind,
    m: Market,
    i: int,
    t: ContractType,
    j: int,
    n: int,
)
    requires
        0 <= j <= n,
        ladder_scan(kind, m, i, t, j) is Err,
    ensures
        ladder_scan(kind, m, i, t, n) == ladder_scan(kind, m, i, t, j),
    decreases n - j,
{
    if j < n {
        lemma_ladder_scan_error(kind, m, i, t, j, n - 1);
    }
}

/// Once the scan of the index has met a missing quote, scanning on changes
/// nothing.
pub proof fn lemma_dates_scan_error(kind: SpreadKind, m: Market, j: int, n: int)
    requires
        0 <= j <= n,
        dates_scan(kind, m, j) is Err,
    ensures
        dates_scan(kind, m, n) == dates_scan(kind, m, j),
    decreases n - j,
{
    if j < n {
        lemma_dates_scan_error(kind, m, j, n - 1);
    }
}

/// The market that a scanner's arguments stand for.
pub open spec fn market_of(
    index: Seq<Ladders>,
    quotes: Map<u64, Quote>,
    settings: ScanSettings,
    today: Expiration,
) -> Market {
    Market { index, quotes, settings, today }
}

/// Looks a contract's quote up.
fn lookup(quotes: &QuoteStore, conid: u64) -> (r: Result<Quote, MissingQuote>)
    ensures
        r == quote_at(quotes@, conid),
{
    match quotes.get(conid) {
        Some(q) => Ok(q),
        None => Err(MissingQuote { conid }),
    }
}

fn make_leg(e: Expiration, t: ContractType, rung: Rung, q: &Quote) -> (leg: Leg)
    ensures
        leg == leg_of(e, t, rung, *q),
{
    Leg { expiration: e, contract_type: t, strike: rung.strike, mid_price: q.mid() }
}

fn make_rank(today: Expiration, e: Expiration, size: u32, arb: i64) -> (r: Rank)
    ensures
        r == rank_on(today, e, size, arb),
{
    Rank { average_ask_size: size, arb_value: arb, days: today.days_until(&e) + RANK_DAY_BIAS }
}

fn check_passes(settings: &ScanSettings, q: &Quote) -> (b: bool)
    ensures
        b == passes(*settings, *q),
{
    q.bid > settings.min_bid && q.ask_size > 0
}

fn check_gap(settings: &ScanSettings, low: Rung, high: Rung) -> (b: bool)
    ensures
        b == gap_matches(*settings, low, high),
{
    let gap: i64 = high.strike as i64 - low.strike as i64;
    proof {
        crate::money::lemma_round_div_bounded(gap as int, 10);
    }
    round_to_nearest(gap, 10) * 10 == settings.wing_width as i64
}

fn pick_calendar(
    settings: &ScanSettings,
    today: Expiration,
    near_date: Expiration,
    far_date: Expiration,
    t: ContractType,
    near: Rung,
    near_quote: &Quote,
    far: Rung,
    far_quote: &Quote,
) -> (r: Option<Contender>)
    ensures
        r == calendar_pick(
            *settings,
            today,
            near_date,
            far_date,
            t,
            near,
            *near_quote,
            far,
            *far_quote,
        ),
        r matches Some(c) ==> c.wf(),
{
    let arb: i64 = near_quote.mid() as i64 - far_quote.mid() as i64;
    let sum: i64 = near_quote.ask_size as i64 + far_quote.ask_size as i64;
    proof {
        lemma_round_div_mean_bounded(sum as int, 2, u32::MAX as int);
    }
    let size: u32 = round_to_nearest(sum, 2) as u32;
    if arb > settings.arb_threshold && check_passes(settings, near_quote) && check_passes(
        settings,
        far_quote,
    ) && near_date.days_until(&far_date) == settings.adjacency_days {
        Some(
            Contender {
                arb_value: arb,
                average_ask_size: size,
                spread: Spread::Calendar {
                    near: make_leg(near_date, t, near, near_quote),
                    far: make_leg(far_date, t, far, far_quote),
                },
                expiration: near_date,
                rank: make_rank(today, near_date, size, arb),
            },
        )
    } else {
        None
    }
}

fn pick_butterfly(
    settings: &ScanSettings,
    today: Expiration,
    date: Expiration,
    t: ContractType,
    left: Rung,
    left_quote: &Quote,
    body: Rung,
    body_quote: &Quote,
    right: Rung,
    right_quote: &Quote,
) -> (r: Option<Contender>)
    ensures
        r == butterfly_pick(
            *settings,
            today,
            date,
            t,
            left,
            *left_quote,
            body,
            *body_quote,
            right,
            *right_quote,
        ),
        r matches Some(c) ==> c.wf(),
{
    let arb: i64 = 2 * (body_quote.mid() as i64) - (left_quote.mid() as i64
        + right_quote.mid() as i64);
    let sum: i64 = left_quote.ask_size as i64 + right_quote.ask_size as i64 + 2 * (
    body_quote.ask_size as i64);
    proof {
        lemma_round_div_mean_bounded(sum as int, 4, u32::MAX as int);
    }
    let size: u32 = round_to_nearest(sum, 4) as u32;
    if arb > settings.arb_threshold && check_passes(settings, left_quote) && check_passes(
        settings,
        right_quote,
    ) && check_passes(settings, body_quote) && check_gap(settings, left, body) && check_gap(
        settings,
        body,
        right,
    ) {
        Some(
            Contender {
                arb_value: arb,
                average_ask_size: size,
                spread: Spread::Butterfly {
                    left: make_leg(date, t, left, left_quote),
                    body: make_leg(date, t, body, body_quote),
                    right: make_leg(date, t, right, right_quote),
                },
                expiration: date,
                rank: make_rank(today, date, size, arb),
            },
        )
    } else {
        None
    }
}

fn pick_box(
    settings: &ScanSettings,
    today: Expiration,
    date: Expiration,
    low_call: Rung,
    low_call_quote: &Quote,
    low_put: Rung,
    low_put_quote: &Quote,
    high_call: Rung,
    high_call_quote: &Quote,
    high_put: Rung,
    high_put_quote: &Quote,
) -> (r: Option<Contender>)
    ensures
        r == box_pick(
            *settings,
            today,
            date,
            low_call,
            *low_call_quote,
            low_put,
            *low_put_quote,
            high_call,
            *high_call_quote,
            high_put,
            *high_put_quote,
        ),
        r matches Some(c) ==> c.wf(),
{
    let balance: i64 = (low_put_quote.mid() as i64 + high_call_quote.mid() as i64) - (
    low_call_quote.mid() as i64 + high_put_quote.mid() as i64);
    let arb: i64 = -balance - settings.wing_width as i64;
    let sum: i64 = low_call_quote.ask_size as i64 + high_call_quote.ask_size as i64
        + low_put_quote.ask_size as i64 + high_put_quote.ask_size as i64;
    proof {
        lemma_round_div_mean_bounded(sum as int, 4, u32::MAX as int);
    }
    let size: u32 = round_to_nearest(sum, 4) as u32;
    if arb > settings.arb_threshold && check_passes(settings, low_call_quote) && check_passes(
        settings,
        low_put_quote,
    ) && check_passes(settings, high_call_quote) && check_passes(settings, high_put_quote)
        && check_gap(settings, low_call, high_call) && check_gap(settings, low_put, high_put) {
        Some(
            Contender {
                arb_value: arb,
                average_ask_size: size,
                spread: Spread::Boxspread {
                    low_put: make_leg(date, ContractType::Put, low_put, low_put_quote),
                    low_call: make_leg(date, ContractType::Call, low_call, low_call_quote),
                    high_call: make_leg(date, ContractType::Call, high_call, high_call_quote),
                    high_put: make_leg(date, ContractType::Put, high_put, high_put_quote),
                },
                expiration: date,
                rank: make_rank(today, date, size, arb),
            },
        )
    } else {
        None
    }
}

fn calendar_at(
    index: &ContractIndex,
    quotes: &QuoteStore,
    settings: &ScanSettings,
    today: Expiration,
    i: usize,
    t: ContractType,
    k: usize,
) -> (r: Found)
    requires
        index.wf(),
        i < index@.len(),
        k < index@[i as int].ladder(t).len(),
    ensures
        r == calendar_candidate(market_of(index@, quotes@, *settings, today), i as int, t, k as int),
        r matches Ok(Some(c)) ==> c.wf(),
{
    if index.len() - i <= 1 {
        return Ok(None);
    }
    let near: Rung = index.ladder(i, t)[k];
    let far_ladder: &Vec<Rung> = index.ladder(i + 1, t);
    let near_quote: Quote = match lookup(quotes, near.conid) {
        Ok(q) => q,
        Err(e) => {
            return Err(e);
        },
    };
    match find_strike(far_ladder, near.strike) {
        None => Ok(None),
        Some(p) => {
            let far: Rung = far_ladder[p];
            match lookup(quotes, far.conid) {
                Err(e) => Err(e),
                Ok(far_quote) => Ok(
                    pick_calendar(
                        settings,
                        today,
                        index.expiration(i),
                        index.expiration(i + 1),
                        t,
                        near,
                        &near_quote,
                        far,
                        &far_quote,
                    ),
                ),
            }
        },
    }
}

fn butterfly_at(
    index: &ContractIndex,
    quotes: &QuoteStore,
    settings: &ScanSettings,
    today: Expiration,
    i: usize,
    t: ContractType,
    k: usize,
) -> (r: Found)
    requires
        index.wf(),
        i < index@.len(),
        k < index@[i as int].ladder(t).len(),
    ensures
        r == butterfly_candidate(
            market_of(index@, quotes@, *settings, today),
            i as int,
            t,
            k as int,
        ),
        r matches Ok(Some(c)) ==> c.wf(),
{
    let ladder: &Vec<Rung> = index.ladder(i, t);
    if k < 1 || ladder.len() - k <= 1 {
        return Ok(None);
    }
    let body: Rung = ladder[k];
    let left: Rung = ladder[k - 1];
    let right: Rung = ladder[k + 1];
    let body_quote: Quote = match lookup(quotes, body.conid) {
        Ok(q) => q,
        Err(e) => {
            return Err(e);
        },
    };
    let left_quote: Quote = match lookup(quotes, left.conid) {
        Ok(q) => q,
        Err(e) => {
            return Err(e);
        },
    };
    let right_quote: Quote = match lookup(quotes, right.conid) {
        Ok(q) => q,
        Err(e) => {
            return Err(e);
        },
    };
    Ok(
        pick_butterfly(
            settings,
            today,
            index.expiration(i),
            t,
            left,
            &left_quote,
            body,
            &body_quote,
            right,
            &right_quote,
        ),
    )
}

fn box_at(
    index: &ContractIndex,
    quotes: &QuoteStore,
    settings: &ScanSettings,
    today: Expiration,
    i: usize,
    t: ContractType,
    k: usize,
) -> (r: Found)
    requires
        index.wf(),
        i < index@.len(),
        k < index@[i as int].ladder(t).len(),
    ensures
        r == box_candidate(market_of(index@, quotes@, *settings, today), i as int, t, k as int),
        r matches Ok(Some(c)) ==> c.wf(),
{
    match t {
        ContractType::Put => {
            return Ok(None);
        },
        ContractType::Call => {},
    }
    let calls: &Vec<Rung> = index.ladder(i, ContractType::Call);
    let puts: &Vec<Rung> = index.ladder(i, ContractType::Put);
    if calls.len() - k <= 1 || k >= puts.len() || puts.len() - k <= 1 {
        return Ok(None);
    }
    let low_call: Rung = calls[k];
    let low_put: Rung = puts[k];
    let high_call: Rung = calls[k + 1];
    let high_put: Rung = puts[k + 1];
    let low_call_quote: Quote = match lookup(quotes, low_call.conid) {
        Ok(q) => q,
        Err(e) => {
            return Err(e);
        },
    };
    let low_put_quote: Quote = match lookup(quotes, low_put.conid) {
        Ok(q) => q,
        Err(e) => {
            return Err(e);
        },
    };
    let high_call_quote: Quote = match lookup(quotes, high_call.conid) {
        Ok(q) => q,
        Err(e) => {
            return Err(e);
        },
    };
    let high_put_quote: Quote = match lookup(quotes, high_put.conid) {
        Ok(q) => q,
        Err(e) => {
            return Err(e);
        },
    };
    Ok(
        pick_box(
            settings,
            today,
            index.expiration(i),
            low_call,
            &low_call_quote,
            low_put,
            &low_put_quote,
            high_call,
            &high_call_quote,
            high_put,
            &high_put_quote,
        ),
    )
}

fn candidate_at(
    kind: SpreadKind,
    index: &ContractIndex,
    quotes: &QuoteStore,
    settings: &ScanSettings,
    today: Expiration,
    i: usize,
    t: ContractType,
    k: usize,
) -> (r: Found)
    requires
        index.wf(),
        i < index@.len(),
        k < index@[i as int].ladder(t).len(),
    ensures
        r == candidate(kind, market_of(index@, quotes@, *settings, today), i as int, t, k as int),
        r matches Ok(Some(c)) ==> c.wf(),
{
    match kind {
        SpreadKind::Calendar => calendar_at(index, quotes, settings, today, i, t, k),
        SpreadKind::Butterfly => butterfly_at(index, quotes, settings, today, i, t, k),
        SpreadKind::Boxspread => box_at(index, quotes, settings, today, i, t, k),
    }
}

/// Every opportunity of the sequence is within the bound of price arithmetic.
pub open spec fn all_wf(s: Seq<Contender>) -> bool {
    forall|j: int| 0 <= j < s.len() ==> (#[trigger] s[j]).wf()
}

/// Scans one ladder and adds what it finds to `found`.
fn scan_ladder(
    kind: SpreadKind,
    index: &ContractIndex,
    quotes: &QuoteStore,
    settings: &ScanSettings,
    today: Expiration,
    i: usize,
    t: ContractType,
    found: &mut Vec<Contender>,
) -> (r: Result<(), MissingQuote>)
    requires
        index.wf(),
        i < index@.len(),
        all_wf(old(found)@),
    ensures
        all_wf(final(found)@),
        match ladder_scan(
            kind,
            market_of(index@, quotes@, *settings, today),
            i as int,
            t,
            index@[i as int].ladder(t).len() as int,
        ) {
            Ok(s) => r is Ok && final(found)@ == old(found)@ + s,
            Err(e) => r == Err::<(), MissingQuote>(e),
        },
{
    let ghost m = market_of(index@, quotes@, *settings, today);
    let ghost base = found@;
    let n: usize = index.ladder(i, t).len();
    let mut k: usize = 0;
    proof {
        assert(found@ =~= base + Seq::<Contender>::empty());
    }
    while k < n
        invariant
            0 <= k <= n,
            index.wf(),
            i < index@.len(),
            n == index@[i as int].ladder(t).len(),
            m == market_of(index@, quotes@, *settings, today),
            all_wf(found@),
            ladder_scan(kind, m, i as int, t, k as int) matches Ok(s) && found@ == base + s,
        decreases n - k,
    {
        let ghost so_far = ladder_scan(kind, m, i as int, t, k as int)->Ok_0;
        match candidate_at(kind, index, quotes, settings, today, i, t, k) {
            Err(e) => {
                proof {
                    assert(ladder_scan(kind, m, i as int, t, k as int + 1) == Err::<
                        Seq<Contender>,
                        MissingQuote,
                    >(e));
                    lemma_ladder_scan_error(kind, m, i as int, t, k as int + 1, n as int);
                }
                return Err(e);
            },
            Ok(None) => {
                proof {
                    assert(so_far + Seq::<Contender>::empty() =~= so_far);
                }
            },
            Ok(Some(c)) => {
                found.push(c);
                proof {
                    assert(found@ =~= base + (so_far + seq![c]));
                }
            },
        }
        k = k + 1;
    }
    Ok(())
}

/// Walks the index and gathers what the scanner of the given kind finds.
fn scan(
    kind: SpreadKind,
    index: &ContractIndex,
    quotes: &QuoteStore,
    settings: &ScanSettings,
    today: Expiration,
) -> (r: Result<Vec<Contender>, MissingQuote>)
    requires
        index.wf(),
    ensures
        scan_view(r) == spread_scan(kind, market_of(index@, quotes@, *settings, today)),
        r matches Ok(v) ==> all_wf(v@),
{
    let ghost m = market_of(index@, quotes@, *settings, today);
    let mut found: Vec<Contender> = Vec::new();
    let n: usize = index.len();
    let mut i: usize = 0;
    while i < n
        invariant
            0 <= i <= n,
            n == index@.len(),
            index.wf(),
            m == market_of(index@, quotes@, *settings, today),
            all_wf(found@),
            dates_scan(kind, m, i as int) == Ok::<Seq<Contender>, MissingQuote>(found@),
        decreases n - i,
    {
        let ghost before = found@;
        let ghost calls = ladder_scan(
            kind,
            m,
            i as int,
            ContractType::Call,
            m.index[i as int].calls.len() as int,
        );
        let ghost puts = ladder_scan(
            kind,
            m,
            i as int,
            ContractType::Put,
            m.index[i as int].puts.len() as int,
        );
        match scan_ladder(kind, index, quotes, settings, today, i, ContractType::Call, &mut found) {
            Err(e) => {
                proof {
                    assert(date_scan(kind, m, i as int) == Err::<Seq<Contender>, MissingQuote>(e));
                    lemma_dates_scan_error(kind, m, i as int + 1, n as int);
                }
                return Err(e);
            },
            Ok(_) => {},
        }
        match scan_ladder(kind, index, quotes, settings, today, i, ContractType::Put, &mut found) {
            Err(e) => {
                proof {
                    assert(date_scan(kind, m, i as int) == Err::<Seq<Contender>, MissingQuote>(e));
                    lemma_dates_scan_error(kind, m, i as int + 1, n as int);
                }
                return Err(e);
            },
            Ok(_) => {},
        }
        proof {
            assert(found@ =~= before + (calls->Ok_0 + puts->Ok_0));
        }
        i = i + 1;
    }
    Ok(found)
}

/// Scans for calendar spreads: for every expiration but the last, and every
/// strike of its ladders, the same strike at the next expiration.
pub fn get_calendar_contenders(
    index: &ContractIndex,
    quotes: &QuoteStore,
    settings: &ScanSettings,
    today: Expiration,
) -> (r: Result<Vec<Contender>, MissingQuote>)
    requires
        index.wf(),
    ensures
        scan_view(r) == spread_scan(
            SpreadKind::Calendar,
            market_of(index@, quotes@, *settings, today),
        ),
        r matches Ok(v) ==> all_wf(v@) && all_sound(SpreadKind::Calendar, index@, *settings, v@),
{
    proof {
        lemma_scan_is_sound(SpreadKind::Calendar, market_of(index@, quotes@, *settings, today));
    }
    scan(SpreadKind::Calendar, index, quotes, settings, today)
}

/// Scans for butterflies: for every ladder, every strike but the first and
/// the last with its two neighbours.
pub fn get_butterfly_contenders(
    index: &ContractIndex,
    quotes: &QuoteStore,
    settings: &ScanSettings,
    today: Expiration,
) -> (r: Result<Vec<Contender>, MissingQuote>)
    requires
        index.wf(),
    ensures
        scan_view(r) == spread_scan(
            SpreadKind::Butterfly,
            market_of(index@, quotes@, *settings, today),
        ),
        r matches Ok(v) ==> all_wf(v@) && all_sound(SpreadKind::Butterfly, index@, *settings, v@),
{
    proof {
        lemma_scan_is_sound(SpreadKind::Butterfly, market_of(index@, quotes@, *settings, today));
    }
    scan(SpreadKind::Butterfly, index, quotes, settings, today)
}

/// Scans for box spreads: for every expiration, every pair of neighbouring
/// places that both of its ladders have.
pub fn get_boxspread_contenders(
    index: &ContractIndex,
    quotes: &QuoteStore,
    settings: &ScanSettings,
    today: Expiration,
) -> (r: Result<Vec<Contender>, MissingQuote>)
    requires
        index.wf(),
    ensures
        scan_view(r) == spread_scan(
            SpreadKind::Boxspread,
            market_of(index@, quotes@, *settings, today),
        ),
        r matches Ok(v) ==> all_wf(v@) && all_sound(SpreadKind::Boxspread, index@, *settings, v@),
{
    proof {
        lemma_scan_is_sound(SpreadKind::Boxspread, market_of(index@, quotes@, *settings, today));
    }
    scan(SpreadKind::Boxspread, index, quotes, settings, today)
}

} // verus!
