//! What holds of every scan.

use crate::contender::{Contender, Spread, SpreadKind};
use crate::index::{conid_in, index_wf, lists, Ladders};
use crate::ladder::{has_strike, lemma_lower_bound_is_slot, lower_bound, strictly_ascending};
use crate::money::round_div;
use crate::quotes::{lemma_mid_between, ContractType, Quote};
use crate::scan::{
    calendar_candidate, candidate, date_scan, dates_scan, ladder_scan, spread_scan, Market,
    MissingQuote, ScanSettings,
};
use vstd::prelude::*;

verus! {

/// `c` is what the scanner of the given kind finds at strike `k` of the
/// ladder of type `t` at expiration `i`.
pub open spec fn is_find(
    kind: SpreadKind,
    m: Market,
    i: int,
    t: ContractType,
    k: int,
    c: Contender,
) -> bool {
    &&& 0 <= i < m.index.len()
    &&& 0 <= k < m.index[i].ladder(t).len()
    &&& candidate(kind, m, i, t, k) == Ok::<Option<Contender>, MissingQuote>(Some(c))
}

/// `c` is found at some place of the index.
pub open spec fn is_found(kind: SpreadKind, m: Market, c: Contender) -> bool {
    exists|i: int, t: ContractType, k: int| #[trigger] is_find(kind, m, i, t, k, c)
}

proof fn lemma_ladder_scan_members(kind: SpreadKind, m: Market, i: int, t: ContractType, n: int)
    requires
        0 <= i < m.index.len(),
        0 <= n <= m.index[i].ladder(t).len(),
    ensures
        ladder_scan(kind, m, i, t, n) matches Ok(s) ==> forall|j: int|
            0 <= j < s.len() ==> is_found(kind, m, #[trigger] s[j]),
    decreases n,
{
    if n > 0 {
        lemma_ladder_scan_members(kind, m, i, t, n - 1);
        match ladder_scan(kind, m, i, t, n) {
            Ok(s) => {
                let before = ladder_scan(kind, m, i, t, n - 1)->Ok_0;
                assert forall|j: int| 0 <= j < s.len() implies is_found(kind, m, #[trigger] s[j]) by {
                    if j < before.len() {
                        assert(s[j] == before[j]);
                    } else {
                        assert(is_find(kind, m, i, t, n - 1, s[j]));
                    }
                }
            },
            Err(_) => {},
        }
    }
}

proof fn lemma_dates_scan_members(kind: SpreadKind, m: Market, n: int)
    requires
        0 <= n <= m.index.len(),
    ensures
        dates_scan(kind, m, n) matches Ok(s) ==> forall|j: int|
            0 <= j < s.len() ==> is_found(kind, m, #[trigger] s[j]),
    decreases n,
{
    if n > 0 {
        lemma_dates_scan_members(kind, m, n - 1);
        lemma_ladder_scan_members(
            kind,
            m,
            n - 1,
            ContractType::Call,
            m.index[n - 1].calls.len() as int,
        );
        lemma_ladder_scan_members(
            kind,
            m,
            n - 1,
            ContractType::Put,
            m.index[n - 1].puts.len() as int,
        );
        match dates_scan(kind, m, n) {
            Ok(s) => {
                let before = dates_scan(kind, m, n - 1)->Ok_0;
                let calls = ladder_scan(
                    kind,
                    m,
                    n - 1,
                    ContractType::Call,
                    m.index[n - 1].calls.len() as int,
                )->Ok_0;
                let puts = ladder_scan(
                    kind,
                    m,
                    n - 1,
                    ContractType::Put,
                    m.index[n - 1].puts.len() as int,
                )->Ok_0;
                assert(date_scan(kind, m, n - 1) == Ok::<Seq<Contender>, MissingQuote>(
                    calls + puts,
                ));
                assert forall|j: int| 0 <= j < s.len() implies is_found(kind, m, #[trigger] s[j]) by {
                    if j < before.len() {
                        assert(s[j] == before[j]);
                    } else if j < before.len() + calls.len() {
                        assert(s[j] == calls[j - before.len()]);
                    } else {
                        assert(s[j] == puts[j - before.len() - calls.len()]);
                    }
                }
            },
            Err(_) => {},
        }
    }
}

/// A scan holds nothing but what was found at some place of the index.
pub proof fn lemma_scan_members(kind: SpreadKind, m: Market)
    ensures
        spread_scan(kind, m) matches Ok(s) ==> forall|j: int|
            0 <= j < s.len() ==> is_found(kind, m, #[trigger] s[j]),
{
    lemma_dates_scan_members(kind, m, m.index.len() as int);
}

/// Whatever a scanner finds is a spread of its own kind whose mispricing
/// exceeds the threshold.
pub proof fn lemma_find_exceeds_threshold(
    kind: SpreadKind,
    m: Market,
    i: int,
    t: ContractType,
    k: int,
    c: Contender,
)
    requires
        is_find(kind, m, i, t, k, c),
    ensures
        c.spread.spec_kind() == kind,
        c.arb_value > m.settings.arb_threshold,
{
    lemma_mids_fit(m.quotes);
}

/// Every mid price of the store is a 32-bit number of cents.
proof fn lemma_mids_fit(quotes: Map<u64, Quote>)
    ensures
        forall|conid: u64| #[trigger]
            quotes.contains_key(conid) ==> i32::MIN <= quotes[conid].spec_mid() <= i32::MAX,
{
    assert forall|conid: u64| #[trigger] quotes.contains_key(conid) implies i32::MIN
        <= quotes[conid].spec_mid() <= i32::MAX by {
        lemma_mid_between(quotes[conid]);
    }
}

/// Every opportunity of a scan exceeds the threshold and is of the scanner's
/// kind.
pub proof fn lemma_scan_exceeds_threshold(kind: SpreadKind, m: Market)
    ensures
        spread_scan(kind, m) matches Ok(s) ==> forall|j: int|
            0 <= j < s.len() ==> (#[trigger] s[j]).arb_value > m.settings.arb_threshold
                && s[j].spread.spec_kind() == kind,
{
    lemma_scan_members(kind, m);
    match spread_scan(kind, m) {
        Ok(s) => {
            assert forall|j: int| 0 <= j < s.len() implies (#[trigger] s[j]).arb_value
                > m.settings.arb_threshold && s[j].spread.spec_kind() == kind by {
                assert(is_found(kind, m, s[j]));
                let (i, t, k) = choose|i: int, t: ContractType, k: int| #[trigger]
                    is_find(kind, m, i, t, k, s[j]);
                lemma_find_exceeds_threshold(kind, m, i, t, k, s[j]);
            }
        },
        Err(_) => {},
    }
}

/// The calendar scanner finds nothing at a strike that the next expiration
/// does not list.
pub proof fn lemma_calendar_needs_far_strike(m: Market, i: int, t: ContractType, k: int)
    requires
        0 <= i < m.index.len(),
        0 <= k < m.index[i].ladder(t).len(),
        i + 1 >= m.index.len() || !has_strike(
            m.index[i + 1].ladder(t),
            m.index[i].ladder(t)[k].strike as int,
        ),
    ensures
        !(calendar_candidate(m, i, t, k) matches Ok(Some(_))),
{
}

/// A calendar spread that is found has both legs at one strike and one type,
/// the near leg at the expiration scanned and the far leg at the next, whose
/// ladder lists the strike; and the two expirations lie the configured
/// number of days apart.
pub proof fn lemma_calendar_find(m: Market, i: int, t: ContractType, k: int, c: Contender)
    requires
        index_wf(m.index),
        is_find(SpreadKind::Calendar, m, i, t, k, c),
    ensures
        i + 1 < m.index.len(),
        has_strike(m.index[i + 1].ladder(t), m.index[i].ladder(t)[k].strike as int),
        c.spread matches Spread::Calendar { near, far } && near.strike == far.strike
            && near.strike == m.index[i].ladder(t)[k].strike && near.contract_type == t
            && far.contract_type == t && near.expiration == m.index[i].expiration
            && far.expiration == m.index[i + 1].expiration,
        m.index[i + 1].expiration.day_number - m.index[i].expiration.day_number
            == m.settings.adjacency_days,
{
    let far_ladder = m.index[i + 1].ladder(t);
    let strike = m.index[i].ladder(t)[k].strike as int;
    let p = choose|p: int| 0 <= p < far_ladder.len() && #[trigger] far_ladder[p].strike == strike;
    let q = lower_bound(far_ladder, strike);
    lemma_lower_bound_is_slot(far_ladder, strike);
    if p < q {
        assert(far_ladder[p].strike < strike);
    } else if q < p {
        assert(far_ladder[q].strike < far_ladder[p].strike);
        assert(far_ladder[q].strike >= strike);
    }
    lemma_mids_fit(m.quotes);
}

/// The butterfly scanner finds nothing unless the ladder has at least three
/// strikes and both gaps around the body, rounded to ten cents, are the
/// configured wing width.
pub proof fn lemma_butterfly_needs_wings(m: Market, i: int, t: ContractType, k: int, c: Contender)
    requires
        is_find(SpreadKind::Butterfly, m, i, t, k, c),
    ensures
        m.index[i].ladder(t).len() >= 3,
        1 <= k < m.index[i].ladder(t).len() - 1,
        round_div(m.index[i].ladder(t)[k].strike - m.index[i].ladder(t)[k - 1].strike, 10) * 10
            == m.settings.wing_width,
        round_div(m.index[i].ladder(t)[k + 1].strike - m.index[i].ladder(t)[k].strike, 10) * 10
            == m.settings.wing_width,
        c.spread matches Spread::Butterfly { left, body, right } && left.strike
            == m.index[i].ladder(t)[k - 1].strike && body.strike == m.index[i].ladder(t)[k].strike
            && right.strike == m.index[i].ladder(t)[k + 1].strike,
{
}

/// The box scanner finds nothing unless both ladders have the two places and
/// both gaps, rounded to ten cents, are the configured wing width.
pub proof fn lemma_box_needs_wings(m: Market, i: int, t: ContractType, k: int, c: Contender)
    requires
        is_find(SpreadKind::Boxspread, m, i, t, k, c),
    ensures
        k + 1 < m.index[i].calls.len(),
        k + 1 < m.index[i].puts.len(),
        round_div(m.index[i].calls[k + 1].strike - m.index[i].calls[k].strike, 10) * 10
            == m.settings.wing_width,
        round_div(m.index[i].puts[k + 1].strike - m.index[i].puts[k].strike, 10) * 10
            == m.settings.wing_width,
        c.spread matches Spread::Boxspread { low_put, low_call, high_call, high_put }
            && low_put.strike == m.index[i].puts[k].strike && low_call.strike
            == m.index[i].calls[k].strike && high_call.strike == m.index[i].calls[k + 1].strike
            && high_put.strike == m.index[i].puts[k + 1].strike,
{
}

/// What holds of every calendar spread that a scan gives: both legs are at
/// one strike and of one type, the index lists the contract of the far leg,
/// the two expirations lie the configured number of days apart, and the
/// mispricing exceeds the threshold.
pub open spec fn sound_calendar(index: Seq<Ladders>, settings: ScanSettings, c: Contender) -> bool {
    &&& c.spread matches Spread::Calendar { near, far } && near.strike == far.strike
        && near.contract_type == far.contract_type && conid_in(index, far.spec_key()) is Some
        && far.expiration.day_number - near.expiration.day_number == settings.adjacency_days
    &&& c.arb_value > settings.arb_threshold
}

/// What holds of every butterfly that a scan gives: its legs are three
/// contracts of one expiration and type that the index lists, at rising
/// strikes, so their ladder has at least three strikes; both gaps around the
/// body, rounded to ten cents, are the wing width; and the mispricing exceeds
/// the threshold.
pub open spec fn sound_butterfly(index: Seq<Ladders>, settings: ScanSettings, c: Contender) -> bool {
    &&& c.spread matches Spread::Butterfly { left, body, right } && {
        &&& left.expiration == body.expiration && body.expiration == right.expiration
        &&& left.contract_type == body.contract_type && body.contract_type == right.contract_type
        &&& conid_in(index, left.spec_key()) is Some
        &&& conid_in(index, body.spec_key()) is Some
        &&& conid_in(index, right.spec_key()) is Some
        &&& left.strike < body.strike < right.strike
        &&& round_div(body.strike - left.strike, 10) * 10 == settings.wing_width
        &&& round_div(right.strike - body.strike, 10) * 10 == settings.wing_width
    }
    &&& c.arb_value > settings.arb_threshold
}

/// What holds of every box spread that a scan gives: the gap between the
/// calls and the gap between the puts, rounded to ten cents, are the wing
/// width, and the mispricing exceeds the threshold.
pub open spec fn sound_box(settings: ScanSettings, c: Contender) -> bool {
    &&& c.spread matches Spread::Boxspread { low_put, low_call, high_call, high_put } && round_div(
        high_call.strike - low_call.strike,
        10,
    ) * 10 == settings.wing_width && round_div(high_put.strike - low_put.strike, 10) * 10
        == settings.wing_width
    &&& c.arb_value > settings.arb_threshold
}

/// What holds of every opportunity that the scanner of the given kind gives.
pub open spec fn sound(kind: SpreadKind, index: Seq<Ladders>, settings: ScanSettings, c: Contender) -> bool {
    match kind {
        SpreadKind::Calendar => sound_calendar(index, settings, c),
        SpreadKind::Butterfly => sound_butterfly(index, settings, c),
        SpreadKind::Boxspread => sound_box(settings, c),
    }
}

/// Every opportunity of a sequence is sound.
pub open spec fn all_sound(
    kind: SpreadKind,
    index: Seq<Ladders>,
    settings: ScanSettings,
    s: Seq<Contender>,
) -> bool {
    forall|j: int| 0 <= j < s.len() ==> sound(kind, index, settings, #[trigger] s[j])
}

/// Whatever a scanner finds at a place is sound.
pub proof fn lemma_find_is_sound(
    kind: SpreadKind,
    m: Market,
    i: int,
    t: ContractType,
    k: int,
    c: Contender,
)
    requires
        index_wf(m.index),
        is_find(kind, m, i, t, k, c),
    ensures
        sound(kind, m.index, m.settings, c),
{
    lemma_find_exceeds_threshold(kind, m, i, t, k, c);
    match kind {
        SpreadKind::Calendar => {
            lemma_calendar_find(m, i, t, k, c);
            let far_ladder = m.index[i + 1].ladder(t);
            let strike = m.index[i].ladder(t)[k].strike as int;
            let p = choose|p: int|
                0 <= p < far_ladder.len() && #[trigger] far_ladder[p].strike == strike;
            assert(lists(m.index, c.spread->far.spec_key(), i + 1, p));
        },
        SpreadKind::Butterfly => {
            lemma_butterfly_needs_wings(m, i, t, k, c);
            lemma_mids_fit(m.quotes);
            let ladder = m.index[i].ladder(t);
            assert(strictly_ascending(ladder));
            assert(ladder[k - 1].strike < ladder[k].strike);
            assert(ladder[k].strike < ladder[k + 1].strike);
            assert(lists(m.index, c.spread->left.spec_key(), i, k - 1));
            assert(lists(m.index, c.spread->body.spec_key(), i, k));
            assert(lists(m.index, c.spread->right.spec_key(), i, k + 1));
        },
        SpreadKind::Boxspread => {
            lemma_box_needs_wings(m, i, t, k, c);
            lemma_mids_fit(m.quotes);
        },
    }
}

/// Every opportunity of a scan is sound: a calendar scan never gives a spread
/// whose far expiration lacks the strike, and a butterfly or box scan never
/// gives one whose gaps are not the wing width.
pub proof fn lemma_scan_is_sound(kind: SpreadKind, m: Market)
    requires
        index_wf(m.index),
    ensures
        spread_scan(kind, m) matches Ok(s) ==> all_sound(kind, m.index, m.settings, s),
{
    lemma_scan_members(kind, m);
    match spread_scan(kind, m) {
        Ok(s) => {
            assert forall|j: int| 0 <= j < s.len() implies sound(
                kind,
                m.index,
                m.settings,
                #[trigger] s[j],
            ) by {
                assert(is_found(kind, m, s[j]));
                let (i, t, k) = choose|i: int, t: ContractType, k: int| #[trigger]
                    is_find(kind, m, i, t, k, s[j]);
                lemma_find_is_sound(kind, m, i, t, k, s[j]);
            }
        },
        Err(_) => {},
    }
}

} // verus!
