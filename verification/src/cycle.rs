//! The polling cycle: refresh, scan, rank, submit, sleep, cancel.
//!
//! The cycle is run from outside; the library decides at its two forks.

use vstd::prelude::*;

verus! {

/// Why the polling ends.
#[derive(Clone, Copy, Debug, PartialEq, Eq, Structural)]
pub enum StopReason {
    MarketClosed,
    NotEnoughEquity,
}

/// What to do with the cycle at hand.
#[derive(Clone, Copy, Debug, PartialEq, Eq, Structural)]
pub enum CyclePlan {
    /// End the polling.
    Stop(StopReason),
    /// Refresh the quotes, scan and rank, and sleep. In production the best
    /// opportunities are submitted before the sleep and the live orders are
    /// cancelled after it; in test mode nothing is sent.
    Run { trade: bool },
}

/// Whether a cycle may begin: in test mode always, in production while the
/// market is open.
pub open spec fn may_poll(production: bool, market_open: bool) -> bool {
    !production || market_open
}

/// Whether a cycle may begin.
pub fn should_poll(production: bool, market_open: bool) -> (go: bool)
    ensures
        go == may_poll(production, market_open),
{
    !production || market_open
}

/// The plan of a cycle.
pub open spec fn cycle_plan(production: bool, market_open: bool, num_orders: int) -> CyclePlan {
    if !may_poll(production, market_open) {
        CyclePlan::Stop(StopReason::MarketClosed)
    } else if num_orders <= 0 {
        CyclePlan::Stop(StopReason::NotEnoughEquity)
    } else {
        CyclePlan::Run { trade: production }
    }
}

/// Plans the cycle at hand from the mode, the state of the market and the
/// number of orders that the equity pays for.
pub fn plan_cycle(production: bool, market_open: bool, num_orders: i32) -> (plan: CyclePlan)
    ensures
        plan == cycle_plan(production, market_open, num_orders as int),
{
    if !should_poll(production, market_open) {
        CyclePlan::Stop(StopReason::MarketClosed)
    } else if num_orders <= 0 {
        CyclePlan::Stop(StopReason::NotEnoughEquity)
    } else {
        CyclePlan::Run { trade: production }
    }
}

} // verus!
