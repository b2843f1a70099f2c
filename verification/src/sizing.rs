//! How many orders to place and how many spreads each may fill, from the
//! equity in the account.

use vstd::prelude::*;

verus! {

/// The equity, in cents, that one fill of one order needs.
pub const EQUITY_PER_FILL: i64 = 100_000;

/// The most fills that one order is given.
pub const MAX_FILLS: i32 = 9;

/// How many fills the equity pays for.
pub open spec fn affordable_fills(port_val: int) -> int {
    port_val / (EQUITY_PER_FILL as int)
}

/// `n` as a 32-bit count: counts beyond the range become the largest count.
pub open spec fn capped(n: int) -> int {
    if n > i32::MAX {
        i32::MAX as int
    } else {
        n
    }
}

/// The square root of `n`, rounded down.
pub open spec fn int_sqrt(n: int) -> int
    decreases n,
{
    if n <= 0 {
        0
    } else {
        let r = int_sqrt(n - 1);
        if (r + 1) * (r + 1) <= n {
            r + 1
        } else {
            r
        }
    }
}

/// `r` is the square root of `n`, rounded down.
pub open spec fn is_root(n: int, r: int) -> bool {
    r >= 0 && r * r <= n < (r + 1) * (r + 1)
}

pub proof fn lemma_int_sqrt_is_root(n: int)
    requires
        n >= 0,
    ensures
        is_root(n, int_sqrt(n)),
    decreases n,
{
    if n > 0 {
        lemma_int_sqrt_is_root(n - 1);
        let r = int_sqrt(n - 1);
        assert((r + 2) * (r + 2) > (r + 1) * (r + 1)) by (nonlinear_arith)
            requires
                r >= 0,
        ;
    }
}

pub proof fn lemma_root_is_unique(n: int, a: int, b: int)
    requires
        is_root(n, a),
        is_root(n, b),
    ensures
        a == b,
{
    if a < b {
        assert((a + 1) * (a + 1) <= b * b) by (nonlinear_arith)
            requires
                0 <= a,
                a + 1 <= b,
        ;
    } else if b < a {
        assert((b + 1) * (b + 1) <= a * a) by (nonlinear_arith)
            requires
                0 <= b,
                b + 1 <= a,
        ;
    }
}

/// The balanced plan for `fills` affordable fills: as many orders as fills
/// per order, the square root of what is affordable; where that would be more
/// than nine fills, nine fills per order and as many orders as that pays for.
pub open spec fn optimal_num_orders(fills: int) -> (i32, i32) {
    if int_sqrt(fills) > MAX_FILLS {
        (capped(fills / (MAX_FILLS as int)) as i32, MAX_FILLS)
    } else {
        (int_sqrt(fills) as i32, int_sqrt(fills) as i32)
    }
}

/// What `calc_final_num_orders` returns: orders and fills per order.
pub open spec fn final_num_orders(fill: Seq<char>, port_val: int) -> (i32, i32) {
    let fills = affordable_fills(port_val);
    if fills < 1 {
        (0, 0)
    } else if fill.len() == 1 && fill[0] == '1' {
        (1, 1)
    } else if fill.len() == 1 && fill[0] == '2' {
        (
            1,
            if fills > MAX_FILLS {
                MAX_FILLS
            } else {
                fills as i32
            },
        )
    } else if fill.len() == 1 && fill[0] == '3' {
        (capped(fills) as i32, 1)
    } else {
        optimal_num_orders(fills)
    }
}

fn cap(n: i64) -> (c: i32)
    requires
        n >= 0,
    ensures
        c == capped(n as int),
{
    if n > i32::MAX as i64 {
        i32::MAX
    } else {
        n as i32
    }
}

/// The balanced plan for the given number of affordable fills.
pub fn get_optimal_num_orders(fills: i64) -> (r: (i32, i32))
    requires
        fills >= 0,
    ensures
        r == optimal_num_orders(fills as int),
{
    proof {
        lemma_int_sqrt_is_root(fills as int);
    }
    if fills >= 100 {
        proof {
            let r = int_sqrt(fills as int);
            if r <= 9 {
                assert((r + 1) * (r + 1) <= 100) by (nonlinear_arith)
                    requires
                        0 <= r <= 9,
                ;
            }
        }
        (cap(fills / 9), MAX_FILLS)
    } else {
        let mut root: i32 = 0;
        let mut next_square: i64 = 1;
        while next_square <= fills
            invariant
                0 <= root <= 10,
                0 <= fills < 100,
                root * root <= fills,
                next_square == (root + 1) * (root + 1),
            decreases 10 - root,
        {
            proof {
                if root >= 9 {
                    assert((root + 1) * (root + 1) >= 100) by (nonlinear_arith)
                        requires
                            root >= 9,
                    ;
                }
                assert((root + 2) * (root + 2) == (root + 1) * (root + 1) + 2 * (root + 1) + 1)
                    by (nonlinear_arith);
            }
            root = root + 1;
            next_square = next_square + 2 * (root as i64) + 1;
        }
        proof {
            assert(is_root(fills as int, root as int));
            lemma_root_is_unique(fills as int, root as int, int_sqrt(fills as int));
            if root > 9 {
                assert(root * root >= 100) by (nonlinear_arith)
                    requires
                        root >= 10,
                ;
            }
        }
        (root, root)
    }
}

/// The number of orders and of fills per order for the given fill type and
/// equity in cents. Fill type `1` is one order with one fill, `2` one order
/// with up to nine fills, `3` as many orders as the equity pays for with one
/// fill each, and anything else the balanced plan. Equity that pays for no
/// fill gives no order.
pub fn calc_final_num_orders(fill: &str, port_val: i64) -> (r: (i32, i32))
    ensures
        r == final_num_orders(fill@, port_val as int),
{
    if port_val < EQUITY_PER_FILL {
        return (0, 0);
    }
    let fills: i64 = port_val / EQUITY_PER_FILL;
    let kind: char = if fill.unicode_len() == 1 {
        fill.get_char(0)
    } else {
        ' '
    };
    if kind == '1' {
        (1, 1)
    } else if kind == '2' {
        (
            1,
            if fills > MAX_FILLS as i64 {
                MAX_FILLS
            } else {
                fills as i32
            },
        )
    } else if kind == '3' {
        (cap(fills), 1)
    } else {
        get_optimal_num_orders(fills)
    }
}

} // verus!
