//! Opportunities: what a scanner found, ready to be ranked and ordered.

use crate::dates::Expiration;
use crate::quotes::{ContractKey, ContractType};
use crate::rank::Rank;
use vstd::prelude::*;

verus! {

/// One contract of a spread, with the mid price it had when it was found.
#[derive(Clone, Copy, Debug, PartialEq, Eq, Structural)]
pub struct Leg {
    pub expiration: Expiration,
    pub contract_type: ContractType,
    /// Strike in cents.
    pub strike: i32,
    /// Mid price in cents.
    pub mid_price: i32,
}

impl Leg {
    /// The contract of the leg.
    pub open spec fn spec_key(self) -> ContractKey {
        ContractKey {
            expiration: self.expiration,
            contract_type: self.contract_type,
            strike: self.strike,
        }
    }

    /// The contract of the leg.
    pub fn key(&self) -> (k: ContractKey)
        ensures
            k == self.spec_key(),
    {
        ContractKey {
            expiration: self.expiration,
            contract_type: self.contract_type,
            strike: self.strike,
        }
    }
}

/// The three spread topologies.
#[derive(Clone, Copy, Debug, PartialEq, Eq, Structural)]
pub enum SpreadKind {
    Calendar,
    Butterfly,
    Boxspread,
}

/// A spread with its legs. The order of the fields is the order of the legs,
/// and the place of a leg decides whether it is bought or sold.
#[derive(Clone, Copy, Debug, PartialEq, Eq, Structural)]
pub enum Spread {
    /// Same strike and type at two expirations.
    Calendar { near: Leg, far: Leg },
    /// Three neighbouring strikes of one ladder.
    Butterfly { left: Leg, body: Leg, right: Leg },
    /// Calls and puts at two neighbouring strikes of one expiration.
    Boxspread { low_put: Leg, low_call: Leg, high_call: Leg, high_put: Leg },
}

/// Whether a leg is bought or sold.
#[derive(Clone, Copy, Debug, PartialEq, Eq, Structural)]
pub enum Action {
    Buy,
    Sell,
}

impl SpreadKind {
    /// How many legs a spread of this kind has.
    pub open spec fn leg_count(self) -> int {
        match self {
            SpreadKind::Calendar => 2,
            SpreadKind::Butterfly => 3,
            SpreadKind::Boxspread => 4,
        }
    }

    /// What is done with the leg at `index`.
    pub open spec fn leg_action(self, index: int) -> Action {
        match self {
            SpreadKind::Calendar => if index == 0 {
                Action::Sell
            } else {
                Action::Buy
            },
            SpreadKind::Butterfly => if index == 1 {
                Action::Sell
            } else {
                Action::Buy
            },
            SpreadKind::Boxspread => if index % 2 == 1 {
                Action::Sell
            } else {
                Action::Buy
            },
        }
    }

    /// How many contracts of the leg at `index` go into one spread.
    pub open spec fn leg_multiple(self, index: int) -> int {
        if self == SpreadKind::Butterfly && index == 1 {
            2
        } else {
            1
        }
    }

    /// The signed quantity of the leg at `index` in one spread: positive for a
    /// purchase, negative for a sale.
    pub open spec fn signed_quantity(self, index: int) -> int {
        match self.leg_action(index) {
            Action::Buy => self.leg_multiple(index),
            Action::Sell => -self.leg_multiple(index),
        }
    }
}

/// The sign table of the three spreads, leg by leg.
pub proof fn lemma_sign_table()
    ensures
        SpreadKind::Calendar.signed_quantity(0) == -1,
        SpreadKind::Calendar.signed_quantity(1) == 1,
        SpreadKind::Butterfly.signed_quantity(0) == 1,
        SpreadKind::Butterfly.signed_quantity(1) == -2,
        SpreadKind::Butterfly.signed_quantity(2) == 1,
        SpreadKind::Boxspread.signed_quantity(0) == 1,
        SpreadKind::Boxspread.signed_quantity(1) == -1,
        SpreadKind::Boxspread.signed_quantity(2) == 1,
        SpreadKind::Boxspread.signed_quantity(3) == -1,
{
}

impl Spread {
    pub open spec fn spec_kind(self) -> SpreadKind {
        match self {
            Spread::Calendar { .. } => SpreadKind::Calendar,
            Spread::Butterfly { .. } => SpreadKind::Butterfly,
            Spread::Boxspread { .. } => SpreadKind::Boxspread,
        }
    }

    /// The legs in order.
    pub open spec fn spec_legs(self) -> Seq<Leg> {
        match self {
            Spread::Calendar { near, far } => seq![near, far],
            Spread::Butterfly { left, body, right } => seq![left, body, right],
            Spread::Boxspread { low_put, low_call, high_call, high_put } => seq![
                low_put,
                low_call,
                high_call,
                high_put,
            ],
        }
    }

    /// The topology of the spread.
    pub fn kind(&self) -> (k: SpreadKind)
        ensures
            k == self.spec_kind(),
    {
        match self {
            Spread::Calendar { .. } => SpreadKind::Calendar,
            Spread::Butterfly { .. } => SpreadKind::Butterfly,
            Spread::Boxspread { .. } => SpreadKind::Boxspread,
        }
    }

    /// The legs in order.
    pub fn legs(&self) -> (legs: Vec<Leg>)
        ensures
            legs@ == self.spec_legs(),
            legs@.len() == self.spec_kind().leg_count(),
    {
        let mut legs: Vec<Leg> = Vec::new();
        match self {
            Spread::Calendar { near, far } => {
                legs.push(*near);
                legs.push(*far);
            },
            Spread::Butterfly { left, body, right } => {
                legs.push(*left);
                legs.push(*body);
                legs.push(*right);
            },
            Spread::Boxspread { low_put, low_call, high_call, high_put } => {
                legs.push(*low_put);
                legs.push(*low_call);
                legs.push(*high_call);
                legs.push(*high_put);
            },
        }
        proof {
            assert(legs@ =~= self.spec_legs());
        }
        legs
    }
}

/// The largest mispricing, in cents, that an opportunity may carry.
pub const MAX_ARB_VALUE: i64 = 0x100_0000_0000;

/// An opportunity.
#[derive(Clone, Copy, Debug, PartialEq, Eq, Structural)]
pub struct Contender {
    /// The mispricing in cents, above the threshold of its kind; for a box
    /// spread, what exceeds the wing width.
    pub arb_value: i64,
    /// The mean ask size of the legs, rounded.
    pub average_ask_size: u32,
    pub spread: Spread,
    /// The expiration the rank counts the days to.
    pub expiration: Expiration,
    pub rank: Rank,
}

impl Contender {
    /// The mispricing is within the bound that price arithmetic relies on.
    pub open spec fn wf(self) -> bool {
        -MAX_ARB_VALUE <= self.arb_value <= MAX_ARB_VALUE
    }

    /// What is done with the leg at `index`.
    pub fn action(&self, index: usize) -> (a: Action)
        ensures
            a == self.spread.spec_kind().leg_action(index as int),
    {
        match self.spread {
            Spread::Calendar { .. } => if index == 0 {
                Action::Sell
            } else {
                Action::Buy
            },
            Spread::Butterfly { .. } => if index == 1 {
                Action::Sell
            } else {
                Action::Buy
            },
            Spread::Boxspread { .. } => if index % 2 == 1 {
                Action::Sell
            } else {
                Action::Buy
            },
        }
    }

    /// How many contracts of the leg at `index` are traded for `num_fills`
    /// spreads.
    pub fn multiplier(&self, num_fills: i32, index: usize) -> (m: i64)
        ensures
            m == num_fills * self.spread.spec_kind().leg_multiple(index as int),
    {
        match self.spread {
            Spread::Butterfly { .. } => if index == 1 {
                num_fills as i64 * 2
            } else {
                num_fills as i64
            },
            _ => num_fills as i64,
        }
    }
}

} // verus!
