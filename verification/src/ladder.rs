//! Strike ladders: the strikes listed for one expiration and contract type,
//! strictly ascending, each with the broker id of its contract.

use vstd::prelude::*;

verus! {

/// One listed strike, in cents, and the broker id of the contract at it.
#[derive(Clone, Copy, Debug, PartialEq, Eq, Structural)]
pub struct Rung {
    pub strike: i32,
    pub conid: u64,
}

/// Strikes rise from each rung to the next, so no strike occurs twice.
pub open spec fn strictly_ascending(l: Seq<Rung>) -> bool {
    forall|i: int, j: int| 0 <= i < j < l.len() ==> l[i].strike < l[j].strike
}

/// Some rung of the ladder is at `strike`.
pub open spec fn has_strike(l: Seq<Rung>, strike: int) -> bool {
    exists|i: int| 0 <= i < l.len() && #[trigger] l[i].strike == strike
}

/// A ladder holds no strike twice.
pub proof fn lemma_ascending_has_no_duplicates(l: Seq<Rung>)
    requires
        strictly_ascending(l),
    ensures
        forall|i: int, j: int|
            0 <= i < l.len() && 0 <= j < l.len() && i != j ==> l[i].strike != l[j].strike,
{
    assert forall|i: int, j: int| 0 <= i < l.len() && 0 <= j < l.len() && i != j implies l[i].strike
        != l[j].strike by {
        if i < j {
            assert(l[i].strike < l[j].strike);
        } else {
            assert(l[j].strike < l[i].strike);
        }
    }
}

/// How many rungs lie below `strike`. In a ladder this is also the place
/// where a rung at `strike` stands, or would stand.
pub open spec fn lower_bound(l: Seq<Rung>, strike: int) -> int
    decreases l.len(),
{
    if l.len() == 0 {
        0
    } else {
        lower_bound(l.drop_last(), strike) + if l.last().strike < strike {
            1int
        } else {
            0int
        }
    }
}

/// `p` parts the ladder into the rungs below `strike` and the rest.
pub open spec fn is_slot(l: Seq<Rung>, strike: int, p: int) -> bool {
    &&& 0 <= p <= l.len()
    &&& forall|i: int| 0 <= i < p ==> (#[trigger] l[i]).strike < strike
    &&& forall|i: int| p <= i < l.len() ==> (#[trigger] l[i]).strike >= strike
}

/// The ladder with `rung` put in its place. A rung already standing at the
/// same strike is replaced, so the later listing wins.
pub open spec fn ladder_insert(l: Seq<Rung>, rung: Rung) -> Seq<Rung> {
    let p = lower_bound(l, rung.strike as int);
    if p < l.len() && l[p].strike == rung.strike {
        l.update(p, rung)
    } else {
        l.insert(p, rung)
    }
}

/// The ladder that comes of putting the listings in one by one, in the order
/// in which they arrived.
pub open spec fn ladder_of(arrivals: Seq<Rung>) -> Seq<Rung>
    decreases arrivals.len(),
{
    if arrivals.len() == 0 {
        Seq::empty()
    } else {
        ladder_insert(ladder_of(arrivals.drop_last()), arrivals.last())
    }
}

pub proof fn lemma_lower_bound_is_slot(l: Seq<Rung>, strike: int)
    requires
        strictly_ascending(l),
    ensures
        is_slot(l, strike, lower_bound(l, strike)),
    decreases l.len(),
{
    if l.len() > 0 {
        let rest = l.drop_last();
        lemma_lower_bound_is_slot(rest, strike);
        let p = lower_bound(rest, strike);
        if l.last().strike < strike {
            assert forall|i: int| 0 <= i < rest.len() implies (#[trigger] rest[i]).strike
                < strike by {
                assert(l[i].strike < l[l.len() - 1].strike);
            }
            assert(p == rest.len()) by {
                if p < rest.len() {
                    assert(rest[p].strike >= strike);
                }
            }
            assert forall|i: int| 0 <= i < p + 1 implies (#[trigger] l[i]).strike < strike by {
                if i < rest.len() {
                    assert(l[i] == rest[i]);
                }
            }
        } else {
            assert forall|i: int| 0 <= i < p implies (#[trigger] l[i]).strike < strike by {
                assert(l[i] == rest[i]);
            }
            assert forall|i: int| p <= i < l.len() implies (#[trigger] l[i]).strike >= strike by {
                if i < rest.len() {
                    assert(l[i] == rest[i]);
                }
            }
        }
    }
}

pub proof fn lemma_slot_is_lower_bound(l: Seq<Rung>, strike: int, p: int)
    requires
        strictly_ascending(l),
        is_slot(l, strike, p),
    ensures
        p == lower_bound(l, strike),
{
    lemma_lower_bound_is_slot(l, strike);
    let q = lower_bound(l, strike);
    if p < q {
        assert(l[p].strike < strike);
    }
    if q < p {
        assert(l[q].strike >= strike);
    }
}

/// Putting a rung into a ladder gives a ladder.
pub proof fn lemma_insert_ascending(l: Seq<Rung>, rung: Rung)
    requires
        strictly_ascending(l),
    ensures
        strictly_ascending(ladder_insert(l, rung)),
{
    lemma_lower_bound_is_slot(l, rung.strike as int);
    let p = lower_bound(l, rung.strike as int);
    let out = ladder_insert(l, rung);
    if p < l.len() && l[p].strike == rung.strike {
        assert forall|i: int, j: int| 0 <= i < j < out.len() implies out[i].strike
            < out[j].strike by {
            assert(l[i].strike < l[j].strike);
        }
    } else {
        assert forall|i: int, j: int| 0 <= i < j < out.len() implies out[i].strike
            < out[j].strike by {
            if j < p {
                assert(out[i] == l[i] && out[j] == l[j]);
            } else if j == p {
                assert(out[i] == l[i]);
                assert(l[i].strike < rung.strike);
            } else if i < p {
                assert(out[i] == l[i] && out[j] == l[j - 1]);
                if i < j - 1 {
                    assert(l[i].strike < l[j - 1].strike);
                }
            } else if i == p {
                assert(out[j] == l[j - 1]);
                assert(l[j - 1].strike >= rung.strike);
                if p < l.len() {
                    assert(l[p].strike <= l[j - 1].strike) by {
                        if p < j - 1 {
                            assert(l[p].strike < l[j - 1].strike);
                        }
                    }
                }
            } else {
                assert(out[i] == l[i - 1] && out[j] == l[j - 1]);
                assert(l[i - 1].strike < l[j - 1].strike);
            }
        }
    }
}

/// After a rung is put in, the ladder holds it, and every other strike stands
/// as it stood.
pub proof fn lemma_insert_contents(l: Seq<Rung>, rung: Rung, other: Rung)
    requires
        strictly_ascending(l),
    ensures
        ladder_insert(l, rung).contains(rung),
        other.strike != rung.strike ==> (ladder_insert(l, rung).contains(other) <==> l.contains(
            other,
        )),
        other.strike == rung.strike && other != rung ==> !ladder_insert(l, rung).contains(other),
{
    lemma_lower_bound_is_slot(l, rung.strike as int);
    lemma_insert_ascending(l, rung);
    let p = lower_bound(l, rung.strike as int);
    let out = ladder_insert(l, rung);
    assert(out[p] == rung);
    if other.strike != rung.strike {
        if l.contains(other) {
            let i = choose|i: int| 0 <= i < l.len() && l[i] == other;
            if p < l.len() && l[p].strike == rung.strike {
                assert(out[i] == other);
            } else if i < p {
                assert(out[i] == other);
            } else {
                assert(out[i + 1] == other);
            }
        }
        if out.contains(other) {
            let i = choose|i: int| 0 <= i < out.len() && out[i] == other;
            if p < l.len() && l[p].strike == rung.strike {
                assert(l[i] == other);
            } else if i < p {
                assert(l[i] == other);
            } else {
                assert(l[i - 1] == other);
            }
        }
    }
    if other.strike == rung.strike && other != rung && out.contains(other) {
        let i = choose|i: int| 0 <= i < out.len() && out[i] == other;
        if i < p {
            assert(out[i].strike < out[p].strike);
        } else if i > p {
            assert(out[p].strike < out[i].strike);
        }
    }
}

/// Whatever the order of arrival, what is built is a ladder.
pub proof fn lemma_ladder_of_ascending(arrivals: Seq<Rung>)
    ensures
        strictly_ascending(ladder_of(arrivals)),
    decreases arrivals.len(),
{
    if arrivals.len() > 0 {
        lemma_ladder_of_ascending(arrivals.drop_last());
        lemma_insert_ascending(ladder_of(arrivals.drop_last()), arrivals.last());
    }
}

/// `arrivals[k]` is `rung`, and no later arrival has its strike.
pub open spec fn is_last_listing(arrivals: Seq<Rung>, rung: Rung, k: int) -> bool {
    &&& 0 <= k < arrivals.len()
    &&& arrivals[k] == rung
    &&& forall|m: int| k < m < arrivals.len() ==> (#[trigger] arrivals[m]).strike != rung.strike
}

/// A ladder holds a rung exactly if that rung arrived and no later arrival
/// had the same strike.
pub proof fn lemma_ladder_of_contents(arrivals: Seq<Rung>, rung: Rung)
    ensures
        ladder_of(arrivals).contains(rung) <==> exists|k: int| #[trigger]
            is_last_listing(arrivals, rung, k),
    decreases arrivals.len(),
{
    if arrivals.len() == 0 {
        assert(!ladder_of(arrivals).contains(rung));
    } else {
        let rest = arrivals.drop_last();
        let last = arrivals.last();
        lemma_ladder_of_contents(rest, rung);
        lemma_ladder_of_ascending(rest);
        lemma_insert_contents(ladder_of(rest), last, rung);
        if ladder_of(arrivals).contains(rung) {
            if rung == last {
                assert(is_last_listing(arrivals, rung, arrivals.len() - 1));
            } else {
                assert(rung.strike != last.strike);
                assert(ladder_of(rest).contains(rung));
                let k = choose|k: int| #[trigger] is_last_listing(rest, rung, k);
                assert(arrivals[k] == rung);
                assert forall|m: int| k < m < arrivals.len() implies (
                #[trigger] arrivals[m]).strike != rung.strike by {
                    if m < rest.len() {
                        assert(rest[m] == arrivals[m]);
                    }
                }
                assert(is_last_listing(arrivals, rung, k));
            }
        }
        if exists|k: int| #[trigger] is_last_listing(arrivals, rung, k) {
            let k = choose|k: int| #[trigger] is_last_listing(arrivals, rung, k);
            if k == arrivals.len() - 1 {
                assert(rung == last);
            } else {
                assert(arrivals[arrivals.len() - 1].strike != rung.strike);
                assert(rest[k] == rung);
                assert forall|m: int| k < m < rest.len() implies (#[trigger] rest[m]).strike
                    != rung.strike by {
                    assert(rest[m] == arrivals[m]);
                }
                assert(is_last_listing(rest, rung, k));
                assert(ladder_of(rest).contains(rung));
            }
        }
    }
}

/// The place of `strike` in a ladder: the number of rungs below it.
pub fn find_slot(ladder: &Vec<Rung>, strike: i32) -> (p: usize)
    requires
        strictly_ascending(ladder@),
    ensures
        p == lower_bound(ladder@, strike as int),
        is_slot(ladder@, strike as int, p as int),
{
    let mut low: usize = 0;
    let mut high: usize = ladder.len();
    while low < high
        invariant
            0 <= low <= high <= ladder@.len(),
            strictly_ascending(ladder@),
            forall|i: int| 0 <= i < low ==> (#[trigger] ladder@[i]).strike < strike,
            forall|i: int| high <= i < ladder@.len() ==> (#[trigger] ladder@[i]).strike >= strike,
        decreases high - low,
    {
        let middle: usize = low + (high - low) / 2;
        if ladder[middle].strike < strike {
            proof {
                assert forall|i: int| 0 <= i < middle + 1 implies (#[trigger] ladder@[i]).strike
                    < strike by {
                    if i < middle {
                        assert(ladder@[i].strike < ladder@[middle as int].strike);
                    }
                }
            }
            low = middle + 1;
        } else {
            proof {
                assert forall|i: int| middle <= i < ladder@.len() implies (
                #[trigger] ladder@[i]).strike >= strike by {
                    if middle < i {
                        assert(ladder@[middle as int].strike < ladder@[i].strike);
                    }
                }
            }
            high = middle;
        }
    }
    proof {
        lemma_slot_is_lower_bound(ladder@, strike as int, low as int);
    }
    low
}

/// Where the rung at `strike` stands in the ladder, if one does.
pub fn find_strike(ladder: &Vec<Rung>, strike: i32) -> (r: Option<usize>)
    requires
        strictly_ascending(ladder@),
    ensures
        r is Some <==> has_strike(ladder@, strike as int),
        r matches Some(i) ==> i < ladder@.len() && ladder@[i as int].strike == strike && i
            == lower_bound(ladder@, strike as int),
{
    let p: usize = find_slot(ladder, strike);
    if p < ladder.len() && ladder[p].strike == strike {
        Some(p)
    } else {
        proof {
            if has_strike(ladder@, strike as int) {
                let i = choose|i: int| 0 <= i < ladder@.len() && #[trigger] ladder@[i].strike == strike;
                if i < p {
                    assert(ladder@[i].strike < strike);
                } else if i > p {
                    assert(ladder@[p as int].strike < ladder@[i].strike);
                    assert(ladder@[p as int].strike >= strike);
                }
            }
        }
        None
    }
}

/// Puts `rung` in its place, replacing a rung at the same strike.
pub fn put_rung(ladder: &mut Vec<Rung>, rung: Rung)
    requires
        strictly_ascending(old(ladder)@),
    ensures
        final(ladder)@ == ladder_insert(old(ladder)@, rung),
        strictly_ascending(final(ladder)@),
{
    proof {
        lemma_insert_ascending(ladder@, rung);
    }
    let p: usize = find_slot(ladder, rung.strike);
    if p < ladder.len() && ladder[p].strike == rung.strike {
        ladder.set(p, rung);
    } else {
        ladder.insert(p, rung);
    }
}

} // verus!
