//! Ranking and selection: the scans asked for are run one after another,
//! what they found is put in descending order of rank, and the best are kept.

use crate::contender::{Contender, SpreadKind};
use crate::dates::Expiration;
use crate::index::ContractIndex;
use crate::quotes::QuoteStore;
use crate::rank::{lemma_rank_total, lemma_rank_transitive};
use crate::scan::{
    all_wf, get_boxspread_contenders, get_butterfly_contenders, get_calendar_contenders, join,
    market_of, spread_scan, Market, MissingQuote, Scan, ScanSettings,
};
use vstd::prelude::*;

verus! {

/// The strategy choice as the operator writes it.
#[derive(Clone, Copy, Debug, PartialEq, Eq, Structural)]
pub enum OptionType {
    Calendar,
    Butterfly,
    BoxSpread,
    All,
}

/// Which scanners run.
#[derive(Clone, Copy, Debug, PartialEq, Eq, Structural)]
pub struct Selection {
    pub calendar: bool,
    pub butterfly: bool,
    pub boxspread: bool,
}

/// The choice that a text stands for: `1`, `2` and `3` name one strategy
/// each, and every other text names all of them.
pub open spec fn option_type_of(s: Seq<char>) -> OptionType {
    if s.len() == 1 && s[0] == '1' {
        OptionType::Calendar
    } else if s.len() == 1 && s[0] == '2' {
        OptionType::Butterfly
    } else if s.len() == 1 && s[0] == '3' {
        OptionType::BoxSpread
    } else {
        OptionType::All
    }
}

impl OptionType {
    /// The scanners that the choice stands for.
    pub open spec fn spec_selection(self) -> Selection {
        match self {
            OptionType::Calendar => Selection { calendar: true, butterfly: false, boxspread: false },
            OptionType::Butterfly => Selection {
                calendar: false,
                butterfly: true,
                boxspread: false,
            },
            OptionType::BoxSpread => Selection {
                calendar: false,
                butterfly: false,
                boxspread: true,
            },
            OptionType::All => Selection { calendar: true, butterfly: true, boxspread: true },
        }
    }

    /// Reads the operator's choice. Every text names a choice, so the result
    /// is never `None`.
    pub fn from_str(s: &str) -> (r: Option<OptionType>)
        ensures
            r == Some(option_type_of(s@)),
    {
        if s.unicode_len() != 1 {
            return Some(OptionType::All);
        }
        let c: char = s.get_char(0);
        if c == '1' {
            Some(OptionType::Calendar)
        } else if c == '2' {
            Some(OptionType::Butterfly)
        } else if c == '3' {
            Some(OptionType::BoxSpread)
        } else {
            Some(OptionType::All)
        }
    }

    /// The scanners that the choice stands for.
    pub fn selection(&self) -> (s: Selection)
        ensures
            s == self.spec_selection(),
    {
        match self {
            OptionType::Calendar => Selection { calendar: true, butterfly: false, boxspread: false },
            OptionType::Butterfly => Selection {
                calendar: false,
                butterfly: true,
                boxspread: false,
            },
            OptionType::BoxSpread => Selection {
                calendar: false,
                butterfly: false,
                boxspread: true,
            },
            OptionType::All => Selection { calendar: true, butterfly: true, boxspread: true },
        }
    }
}

/// The scan of one kind if it was asked for, and an empty scan if not.
pub open spec fn chosen_scan(wanted: bool, kind: SpreadKind, m: Market) -> Scan {
    if wanted {
        spread_scan(kind, m)
    } else {
        Ok(Seq::empty())
    }
}

/// The scans asked for, one after another: calendars, butterflies, boxes.
pub open spec fn merged_scan(selection: Selection, m: Market) -> Scan {
    join(
        join(
            chosen_scan(selection.calendar, SpreadKind::Calendar, m),
            chosen_scan(selection.butterfly, SpreadKind::Butterfly, m),
        ),
        chosen_scan(selection.boxspread, SpreadKind::Boxspread, m),
    )
}

/// `c` put into a sequence in descending order of rank, behind everything
/// that ranks at least as high.
pub open spec fn insert_ranked(s: Seq<Contender>, c: Contender) -> Seq<Contender>
    decreases s.len(),
{
    if s.len() == 0 {
        seq![c]
    } else if s.last().rank.at_least(c.rank) {
        s.push(c)
    } else {
        insert_ranked(s.drop_last(), c).push(s.last())
    }
}

/// The sequence in descending order of rank; opportunities of equal rank
/// stay in the order in which they were found.
pub open spec fn ranked(s: Seq<Contender>) -> Seq<Contender>
    decreases s.len(),
{
    if s.len() == 0 {
        Seq::empty()
    } else {
        insert_ranked(ranked(s.drop_last()), s.last())
    }
}

/// The first `count` of a sequence, or all of it if it is shorter.
pub open spec fn top(s: Seq<Contender>, count: int) -> Seq<Contender> {
    if 0 <= count < s.len() {
        s.take(count)
    } else {
        s
    }
}

/// No opportunity ranks below one that stands behind it.
pub open spec fn descending(s: Seq<Contender>) -> bool {
    forall|i: int, j: int| 0 <= i < j < s.len() ==> s[i].rank.at_least(s[j].rank)
}

/// The place where `c` goes: everything before it ranks at least as high as
/// `c`, and nothing from it on does.
pub open spec fn is_place(s: Seq<Contender>, c: Contender, p: int) -> bool {
    &&& 0 <= p <= s.len()
    &&& p > 0 ==> s[p - 1].rank.at_least(c.rank)
    &&& forall|j: int| p <= j < s.len() ==> !(#[trigger] s[j]).rank.at_least(c.rank)
}

/// Putting `c` in is putting it at its place.
pub proof fn lemma_insert_ranked_at(s: Seq<Contender>, c: Contender, p: int)
    requires
        is_place(s, c, p),
    ensures
        insert_ranked(s, c) == s.insert(p, c),
    decreases s.len(),
{
    if s.len() == 0 {
        assert(s.insert(p, c) =~= seq![c]);
    } else if p == s.len() {
        assert(s.insert(p, c) =~= s.push(c));
    } else {
        assert(!s[s.len() - 1].rank.at_least(c.rank));
        let rest = s.drop_last();
        assert(is_place(rest, c, p)) by {
            assert forall|j: int| p <= j < rest.len() implies !(#[trigger] rest[j]).rank.at_least(
                c.rank,
            ) by {
                assert(rest[j] == s[j]);
            }
            if p > 0 {
                assert(rest[p - 1] == s[p - 1]);
            }
        }
        lemma_insert_ranked_at(rest, c, p);
        assert(rest.insert(p, c).push(s.last()) =~= s.insert(p, c));
    }
}

/// Putting an opportunity in adds it and nothing else.
pub proof fn lemma_insert_ranked_multiset(s: Seq<Contender>, c: Contender)
    ensures
        insert_ranked(s, c).to_multiset() == s.to_multiset().insert(c),
        insert_ranked(s, c).len() == s.len() + 1,
    decreases s.len(),
{
    broadcast use vstd::seq_lib::group_to_multiset_ensures;

    if s.len() == 0 {
        assert(seq![c] =~= Seq::<Contender>::empty().push(c));
        assert(s =~= Seq::<Contender>::empty());
    } else if s.last().rank.at_least(c.rank) {
    } else {
        let rest = s.drop_last();
        lemma_insert_ranked_multiset(rest, c);
        assert(rest.push(s.last()) =~= s);
        assert(insert_ranked(s, c).to_multiset() =~= s.to_multiset().insert(c));
    }
}

/// Ranking rearranges: it neither adds nor drops an opportunity.
pub proof fn lemma_ranked_is_permutation(s: Seq<Contender>)
    ensures
        ranked(s).to_multiset() == s.to_multiset(),
        ranked(s).len() == s.len(),
    decreases s.len(),
{
    broadcast use vstd::seq_lib::group_to_multiset_ensures;

    if s.len() == 0 {
        assert(s =~= Seq::<Contender>::empty());
    } else {
        lemma_ranked_is_permutation(s.drop_last());
        lemma_insert_ranked_multiset(ranked(s.drop_last()), s.last());
        assert(s.drop_last().push(s.last()) =~= s);
    }
}

/// Putting an opportunity into a descending sequence leaves it descending.
pub proof fn lemma_insert_ranked_descending(s: Seq<Contender>, c: Contender)
    requires
        descending(s),
    ensures
        descending(insert_ranked(s, c)),
        forall|x: Contender| #[trigger]
            insert_ranked(s, c).contains(x) ==> x == c || s.contains(x),
    decreases s.len(),
{
    let out = insert_ranked(s, c);
    if s.len() == 0 {
    } else if s.last().rank.at_least(c.rank) {
        assert forall|i: int, j: int| 0 <= i < j < out.len() implies out[i].rank.at_least(
            out[j].rank,
        ) by {
            if j < s.len() {
                assert(s[i].rank.at_least(s[j].rank));
            } else if i < s.len() - 1 {
                assert(s[i].rank.at_least(s[s.len() - 1].rank));
                lemma_rank_transitive(s[i].rank, s.last().rank, c.rank);
            }
        }
        assert forall|x: Contender| #[trigger] out.contains(x) implies x == c || s.contains(x) by {
            let i = choose|i: int| 0 <= i < out.len() && out[i] == x;
            if i < s.len() {
                assert(s[i] == x);
            }
        }
    } else {
        let rest = s.drop_last();
        let inner = insert_ranked(rest, c);
        assert(descending(rest)) by {
            assert forall|i: int, j: int| 0 <= i < j < rest.len() implies rest[i].rank.at_least(
                rest[j].rank,
            ) by {
                assert(s[i].rank.at_least(s[j].rank));
            }
        }
        lemma_insert_ranked_descending(rest, c);
        lemma_rank_total(s.last().rank, c.rank);
        assert forall|i: int, j: int| 0 <= i < j < out.len() implies out[i].rank.at_least(
            out[j].rank,
        ) by {
            if j < inner.len() {
                assert(inner[i].rank.at_least(inner[j].rank));
            } else {
                assert(out[j] == s.last());
                assert(inner.contains(inner[i]));
                if inner[i] == c {
                } else {
                    assert(rest.contains(inner[i]));
                    let k = choose|k: int| 0 <= k < rest.len() && rest[k] == inner[i];
                    assert(s[k].rank.at_least(s[s.len() - 1].rank));
                }
            }
        }
        assert forall|x: Contender| #[trigger] out.contains(x) implies x == c || s.contains(x) by {
            let i = choose|i: int| 0 <= i < out.len() && out[i] == x;
            if i < inner.len() {
                assert(inner.contains(x));
                if x != c {
                    let k = choose|k: int| 0 <= k < rest.len() && rest[k] == x;
                    assert(s[k] == x);
                }
            } else {
                assert(s[s.len() - 1] == x);
            }
        }
    }
}

/// What ranking gives is in descending order of rank.
pub proof fn lemma_ranked_descending(s: Seq<Contender>)
    ensures
        descending(ranked(s)),
    decreases s.len(),
{
    if s.len() > 0 {
        lemma_ranked_descending(s.drop_last());
        lemma_insert_ranked_descending(ranked(s.drop_last()), s.last());
    }
}

/// The best of a ranking are in descending order, and nothing that was left
/// out ranks above anything that was kept.
pub proof fn lemma_top_is_best(s: Seq<Contender>, count: int)
    ensures
        descending(top(ranked(s), count)),
        forall|i: int, j: int|
            0 <= i < top(ranked(s), count).len() <= j < ranked(s).len() ==> ranked(
                s,
            )[i].rank.at_least(ranked(s)[j].rank),
        forall|i: int|
            0 <= i < top(ranked(s), count).len() ==> top(ranked(s), count)[i] == ranked(s)[i],
{
    lemma_ranked_descending(s);
    let all = ranked(s);
    let best = top(all, count);
    assert forall|i: int, j: int| 0 <= i < j < best.len() implies best[i].rank.at_least(
        best[j].rank,
    ) by {
        assert(all[i].rank.at_least(all[j].rank));
    }
}

/// Puts `c` into `sorted`, behind everything that ranks at least as high.
fn place_ranked(sorted: &mut Vec<Contender>, c: Contender)
    ensures
        final(sorted)@ == insert_ranked(old(sorted)@, c),
{
    let mut p: usize = sorted.len();
    while p > 0 && !sorted[p - 1].rank.ranks_at_least(&c.rank)
        invariant
            0 <= p <= sorted@.len(),
            sorted@ == old(sorted)@,
            forall|j: int| p <= j < sorted@.len() ==> !(#[trigger] sorted@[j]).rank.at_least(c.rank),
        decreases p,
    {
        p = p - 1;
    }
    proof {
        lemma_insert_ranked_at(sorted@, c, p as int);
    }
    sorted.insert(p, c);
}

/// Puts the opportunities in descending order of rank, leaving those of
/// equal rank in the order in which they stand.
pub fn sort_by_rank(found: &Vec<Contender>) -> (sorted: Vec<Contender>)
    ensures
        sorted@ == ranked(found@),
{
    let mut sorted: Vec<Contender> = Vec::new();
    let mut i: usize = 0;
    while i < found.len()
        invariant
            0 <= i <= found@.len(),
            sorted@ == ranked(found@.take(i as int)),
        decreases found@.len() - i,
    {
        proof {
            assert(found@.take(i as int + 1).drop_last() =~= found@.take(i as int));
        }
        place_ranked(&mut sorted, found[i]);
        i = i + 1;
    }
    proof {
        assert(found@.take(found@.len() as int) =~= found@);
    }
    sorted
}

/// Adds what one scanner found, if it was asked for.
fn add_scan(
    wanted: bool,
    kind: SpreadKind,
    index: &ContractIndex,
    quotes: &QuoteStore,
    settings: &ScanSettings,
    today: Expiration,
    found: &mut Vec<Contender>,
) -> (r: Result<(), MissingQuote>)
    requires
        index.wf(),
        all_wf(old(found)@),
    ensures
        all_wf(final(found)@),
        match chosen_scan(wanted, kind, market_of(index@, quotes@, *settings, today)) {
            Ok(s) => r is Ok && final(found)@ == old(found)@ + s,
            Err(e) => r == Err::<(), MissingQuote>(e),
        },
{
    if !wanted {
        proof {
            assert(found@ + Seq::<Contender>::empty() =~= found@);
        }
        return Ok(());
    }
    let scanned: Result<Vec<Contender>, MissingQuote> = match kind {
        SpreadKind::Calendar => get_calendar_contenders(index, quotes, settings, today),
        SpreadKind::Butterfly => get_butterfly_contenders(index, quotes, settings, today),
        SpreadKind::Boxspread => get_boxspread_contenders(index, quotes, settings, today),
    };
    match scanned {
        Err(e) => Err(e),
        Ok(mut more) => {
            found.append(&mut more);
            Ok(())
        },
    }
}

/// What `get_contender_contracts` returns.
pub open spec fn selected(selection: Selection, m: Market, num_orders: int) -> Scan {
    match merged_scan(selection, m) {
        Err(e) => Err(e),
        Ok(s) => Ok(top(ranked(s), num_orders)),
    }
}

/// Runs the scanners asked for, ranks what they found and keeps the best
/// `num_orders`.
pub fn get_contender_contracts(
    index: &ContractIndex,
    quotes: &QuoteStore,
    settings: &ScanSettings,
    today: Expiration,
    selection: Selection,
    num_orders: usize,
) -> (r: Result<Vec<Contender>, MissingQuote>)
    requires
        index.wf(),
    ensures
        crate::scan::scan_view(r) == selected(
            selection,
            market_of(index@, quotes@, *settings, today),
            num_orders as int,
        ),
        r matches Ok(v) ==> all_wf(v@) && v@.len() <= num_orders && descending(v@),
{
    let ghost m = market_of(index@, quotes@, *settings, today);
    let mut found: Vec<Contender> = Vec::new();
    match add_scan(
        selection.calendar,
        SpreadKind::Calendar,
        index,
        quotes,
        settings,
        today,
        &mut found,
    ) {
        Err(e) => {
            return Err(e);
        },
        Ok(_) => {},
    }
    let ghost first = found@;
    match add_scan(
        selection.butterfly,
        SpreadKind::Butterfly,
        index,
        quotes,
        settings,
        today,
        &mut found,
    ) {
        Err(e) => {
            return Err(e);
        },
        Ok(_) => {},
    }
    match add_scan(
        selection.boxspread,
        SpreadKind::Boxspread,
        index,
        quotes,
        settings,
        today,
        &mut found,
    ) {
        Err(e) => {
            return Err(e);
        },
        Ok(_) => {},
    }
    proof {
        let a = chosen_scan(selection.calendar, SpreadKind::Calendar, m)->Ok_0;
        let b = chosen_scan(selection.butterfly, SpreadKind::Butterfly, m)->Ok_0;
        let c = chosen_scan(selection.boxspread, SpreadKind::Boxspread, m)->Ok_0;
        assert(first =~= a);
        assert(found@ =~= (a + b) + c);
        lemma_ranked_keeps_wf(found@);
        lemma_top_is_best(found@, num_orders as int);
    }
    let mut sorted: Vec<Contender> = sort_by_rank(&found);
    if sorted.len() > num_orders {
        sorted.truncate(num_orders);
    }
    Ok(sorted)
}

/// Ranking keeps every opportunity within the bound of price arithmetic.
pub proof fn lemma_ranked_keeps_wf(s: Seq<Contender>)
    requires
        all_wf(s),
    ensures
        all_wf(ranked(s)),
{
    broadcast use vstd::seq_lib::group_to_multiset_ensures;

    lemma_ranked_is_permutation(s);
    let r = ranked(s);
    assert forall|j: int| 0 <= j < r.len() implies (#[trigger] r[j]).wf() by {
        assert(r.to_multiset().count(r[j]) > 0);
        assert(s.to_multiset().count(r[j]) > 0);
        assert(s.contains(r[j]));
    }
}

} // verus!
