//! The rank of an opportunity: its size-weighted mispricing per day left.
//!
//! A rank is kept as an exact quotient and compared without rounding.

use crate::dates::{calc_time_difference, time_difference};
use vstd::arithmetic::div_mod::lemma_fundamental_div_mod;
use vstd::prelude::*;

verus! {

/// The day count of a rank is one more than the days to expiration.
pub const RANK_DAY_BIAS: i64 = 1;

/// The quotient `average_ask_size * arb_value / days`.
#[derive(Clone, Copy, Debug, PartialEq, Eq, Structural)]
pub struct Rank {
    pub average_ask_size: u32,
    /// Mispricing in cents.
    pub arb_value: i64,
    /// Days to expiration plus the bias: the divisor.
    pub days: i64,
}

impl Rank {
    /// The dividend.
    #[verifier::inline]
    pub open spec fn weight(self) -> int {
        self.average_ask_size * self.arb_value
    }

    /// The dividend, with its sign turned where the divisor is negative.
    #[verifier::inline]
    pub open spec fn numerator(self) -> int {
        if self.days < 0 {
            -self.weight()
        } else {
            self.weight()
        }
    }

    /// The size of the divisor.
    #[verifier::inline]
    pub open spec fn denominator(self) -> int {
        if self.days < 0 {
            -self.days
        } else {
            self.days as int
        }
    }

    /// Where the quotient lies: 3 for plus infinity (a positive weight over no
    /// days), 2 for a number, 1 for the quotient of nothing over no days,
    /// which has no value, and 0 for minus infinity.
    pub open spec fn tier(self) -> int {
        if self.days != 0 {
            2
        } else if self.weight() > 0 {
            3
        } else if self.weight() < 0 {
            0
        } else {
            1
        }
    }

    /// `self` ranks at least as high as `other`. Two numbers compare as
    /// fractions; everything else compares by tier.
    pub open spec fn at_least(self, other: Rank) -> bool {
        if self.tier() != other.tier() {
            self.tier() > other.tier()
        } else if self.tier() != 2 {
            true
        } else {
            self.numerator() * other.denominator() >= other.numerator() * self.denominator()
        }
    }

    fn exec_tier(&self) -> (t: u8)
        ensures
            t == self.tier(),
    {
        if self.days != 0 {
            2
        } else if self.average_ask_size == 0 || self.arb_value == 0 {
            proof {
                assert(self.average_ask_size * self.arb_value == 0) by (nonlinear_arith)
                    requires
                        self.average_ask_size == 0 || self.arb_value == 0,
                ;
            }
            1
        } else if self.arb_value > 0 {
            proof {
                assert(self.average_ask_size * self.arb_value > 0) by (nonlinear_arith)
                    requires
                        self.average_ask_size > 0,
                        self.arb_value > 0,
                ;
            }
            3
        } else {
            proof {
                assert(self.average_ask_size * self.arb_value < 0) by (nonlinear_arith)
                    requires
                        self.average_ask_size > 0,
                        self.arb_value < 0,
                ;
            }
            0
        }
    }

    /// The whole part and the remainder of numerator over denominator.
    fn parts(&self) -> (r: (i128, i128, i128))
        requires
            self.days != 0,
        ensures
            r.2 == self.denominator(),
            0 <= r.1 < r.2,
            self.numerator() == r.0 * r.2 + r.1,
            r.2 <= 0x8000_0000_0000_0000,
    {
        let size: i128 = self.average_ask_size as i128;
        let arb: i128 = self.arb_value as i128;
        proof {
            assert(-0x8000_0000_0000_0000_0000_0000 <= size * arb
                <= 0x8000_0000_0000_0000_0000_0000) by (nonlinear_arith)
                requires
                    0 <= size <= 0xffff_ffff,
                    -0x8000_0000_0000_0000 <= arb <= 0x7fff_ffff_ffff_ffff,
            ;
        }
        let weight: i128 = size * arb;
        let numerator: i128 = if self.days < 0 {
            -weight
        } else {
            weight
        };
        let denominator: i128 = if self.days < 0 {
            -(self.days as i128)
        } else {
            self.days as i128
        };
        if numerator >= 0 {
            let q: i128 = numerator / denominator;
            let r: i128 = numerator % denominator;
            proof {
                lemma_fundamental_div_mod(numerator as int, denominator as int);
                assert(denominator * q == q * denominator) by (nonlinear_arith);
            }
            (q, r, denominator)
        } else {
            let m: i128 = -numerator;
            let q: i128 = m / denominator;
            let r: i128 = m % denominator;
            proof {
                lemma_fundamental_div_mod(m as int, denominator as int);
                assert(denominator * q == q * denominator) by (nonlinear_arith);
                assert(0 <= q <= m) by (nonlinear_arith)
                    requires
                        m == q * denominator + r,
                        0 <= r < denominator,
                        m >= 0,
                ;
            }
            if r == 0 {
                proof {
                    assert((-q) * denominator == -(q * denominator)) by (nonlinear_arith);
                }
                (-q, 0, denominator)
            } else {
                proof {
                    assert((-q - 1) * denominator == -(q * denominator) - denominator)
                        by (nonlinear_arith);
                }
                (-q - 1, denominator - r, denominator)
            }
        }
    }

    /// Whether `self` ranks at least as high as `other`.
    pub fn ranks_at_least(&self, other: &Rank) -> (b: bool)
        ensures
            b == self.at_least(*other),
    {
        let mine: u8 = self.exec_tier();
        let theirs: u8 = other.exec_tier();
        if mine != theirs {
            mine > theirs
        } else if mine != 2 {
            true
        } else {
            let (qa, ra, da) = self.parts();
            let (qb, rb, db) = other.parts();
            proof {
                lemma_compare_fractions(
                    self.numerator(),
                    da as int,
                    other.numerator(),
                    db as int,
                    qa as int,
                    ra as int,
                    qb as int,
                    rb as int,
                );
                assert(0 <= ra * db <= 0x8000_0000_0000_0000 * 0x8000_0000_0000_0000)
                    by (nonlinear_arith)
                    requires
                        0 <= ra < da <= 0x8000_0000_0000_0000,
                        0 < db <= 0x8000_0000_0000_0000,
                ;
                assert(0 <= rb * da <= 0x8000_0000_0000_0000 * 0x8000_0000_0000_0000)
                    by (nonlinear_arith)
                    requires
                        0 <= rb < db <= 0x8000_0000_0000_0000,
                        0 < da <= 0x8000_0000_0000_0000,
                ;
            }
            if qa != qb {
                qa > qb
            } else {
                ra * db >= rb * da
            }
        }
    }
}

/// Two fractions with positive divisors compare as their whole parts do and,
/// where these agree, as their remainders do.
pub proof fn lemma_compare_fractions(
    na: int,
    da: int,
    nb: int,
    db: int,
    qa: int,
    ra: int,
    qb: int,
    rb: int,
)
    requires
        da > 0,
        db > 0,
        0 <= ra < da,
        0 <= rb < db,
        na == qa * da + ra,
        nb == qb * db + rb,
    ensures
        (na * db >= nb * da) <==> (qa > qb || (qa == qb && ra * db >= rb * da)),
{
    let unit = da * db;
    assert(unit > 0) by (nonlinear_arith)
        requires
            unit == da * db,
            da > 0,
            db > 0,
    ;
    assert(0 <= ra * db < unit) by (nonlinear_arith)
        requires
            unit == da * db,
            0 <= ra < da,
            db > 0,
    ;
    assert(0 <= rb * da < unit) by (nonlinear_arith)
        requires
            unit == da * db,
            0 <= rb < db,
            da > 0,
    ;
    assert(na * db == qa * unit + ra * db) by (nonlinear_arith)
        requires
            unit == da * db,
            na == qa * da + ra,
    ;
    assert(nb * da == qb * unit + rb * da) by (nonlinear_arith)
        requires
            unit == da * db,
            nb == qb * db + rb,
    ;
    if qa > qb {
        assert(qa * unit >= qb * unit + unit) by (nonlinear_arith)
            requires
                qa >= qb + 1,
                unit > 0,
        ;
    } else if qa < qb {
        assert(qb * unit >= qa * unit + unit) by (nonlinear_arith)
            requires
                qb >= qa + 1,
                unit > 0,
        ;
    }
}

/// What `calc_rank_value` returns.
pub open spec fn rank_value(
    avg_ask: u32,
    arb_val: i64,
    current_date: Seq<char>,
    date: Seq<char>,
) -> Option<Rank> {
    match time_difference(current_date, date) {
        Some(days) => Some(
            Rank {
                average_ask_size: avg_ask,
                arb_value: arb_val,
                days: (days + RANK_DAY_BIAS) as i64,
            },
        ),
        None => None,
    }
}

/// The rank of an opportunity seen on `current_date` that expires on `date`,
/// both written as `YYMMDD`: `avg_ask * arb_val` over the days between the
/// two plus one. `None` where either text is no date.
pub fn calc_rank_value(avg_ask: u32, arb_val: i64, current_date: &str, date: &str) -> (r: Option<
    Rank,
>)
    ensures
        r == rank_value(avg_ask, arb_val, current_date@, date@),
{
    match calc_time_difference(current_date, date) {
        Some(days) => {
            proof {
                crate::dates::lemma_time_difference_bounded(current_date@, date@);
            }
            Some(Rank { average_ask_size: avg_ask, arb_value: arb_val, days: days + RANK_DAY_BIAS })
        },
        None => None,
    }
}

/// Ranking is reflexive: every rank is at least itself.
pub proof fn lemma_rank_reflexive(a: Rank)
    ensures
        a.at_least(a),
{
}

/// Ranking is total: of two ranks, one is at least the other.
pub proof fn lemma_rank_total(a: Rank, b: Rank)
    ensures
        a.at_least(b) || b.at_least(a),
{
}

/// Ranking is transitive.
pub proof fn lemma_rank_transitive(a: Rank, b: Rank, c: Rank)
    requires
        a.at_least(b),
        b.at_least(c),
    ensures
        a.at_least(c),
{
    if a.tier() == 2 && b.tier() == 2 && c.tier() == 2 {
        let (na, da) = (a.numerator(), a.denominator());
        let (nb, db) = (b.numerator(), b.denominator());
        let (nc, dc) = (c.numerator(), c.denominator());
        assert(na * dc >= nc * da) by (nonlinear_arith)
            requires
                da > 0,
                db > 0,
                dc > 0,
                na * db >= nb * da,
                nb * dc >= nc * db,
        {
            assert((na * db) * dc >= (nb * da) * dc);
            assert((nb * dc) * da >= (nc * db) * da);
            assert((na * dc) * db >= (nc * da) * db);
        }
    }
}

/// A larger mispricing never lowers the rank, as long as the day count is
/// not negative.
pub proof fn lemma_rank_monotonic_in_arb_value(low: Rank, high: Rank)
    requires
        low.days >= 0,
        high.days == low.days,
        high.average_ask_size == low.average_ask_size,
        low.arb_value <= high.arb_value,
    ensures
        high.at_least(low),
{
    let size = low.average_ask_size as int;
    assert(size * low.arb_value <= size * high.arb_value) by (nonlinear_arith)
        requires
            size >= 0,
            low.arb_value <= high.arb_value,
    ;
    if low.days > 0 {
        assert(high.weight() * low.days >= low.weight() * low.days) by (nonlinear_arith)
            requires
                high.weight() >= low.weight(),
                low.days > 0,
        ;
    }
}

/// A larger average ask size never lowers the rank, as long as neither the
/// mispricing nor the day count is negative.
pub proof fn lemma_rank_monotonic_in_ask_size(low: Rank, high: Rank)
    requires
        low.days >= 0,
        high.days == low.days,
        high.arb_value == low.arb_value,
        low.arb_value >= 0,
        low.average_ask_size <= high.average_ask_size,
    ensures
        high.at_least(low),
{
    let arb = low.arb_value as int;
    assert(low.average_ask_size * arb <= high.average_ask_size * arb) by (nonlinear_arith)
        requires
            arb >= 0,
            low.average_ask_size <= high.average_ask_size,
    ;
    assert(low.average_ask_size * arb >= 0) by (nonlinear_arith)
        requires
            arb >= 0,
            low.average_ask_size >= 0,
    ;
    if low.days > 0 {
        assert(high.weight() * low.days >= low.weight() * low.days) by (nonlinear_arith)
            requires
                high.weight() >= low.weight(),
                low.days > 0,
        ;
    }
}

/// More days to expiration never raise the rank, as long as the mispricing is
/// not negative and the day count is at least one.
pub proof fn lemma_rank_monotonic_in_days(near: Rank, far: Rank)
    requires
        1 <= near.days <= far.days,
        far.average_ask_size == near.average_ask_size,
        far.arb_value == near.arb_value,
        near.arb_value >= 0,
    ensures
        near.at_least(far),
{
    let w = near.weight();
    assert(w >= 0) by (nonlinear_arith)
        requires
            w == near.average_ask_size * near.arb_value,
            near.arb_value >= 0,
            near.average_ask_size >= 0,
    ;
    assert(w * far.days >= w * near.days) by (nonlinear_arith)
        requires
            w >= 0,
            near.days <= far.days,
    ;
}

} // verus!
