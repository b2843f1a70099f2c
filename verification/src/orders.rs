//! The order builder: from an opportunity to signed multi-leg orders.
//!
//! A butterfly and a box can go to the broker as one combination order or as
//! two vertical spreads. Both ways trade the same signed quantity of every
//! leg.

use crate::contender::{Contender, Leg, Spread, SpreadKind};
use crate::index::{conid_in, conid_of, ContractIndex, Ladders};
use vstd::pervasive::unreached;
use vstd::prelude::*;

verus! {

/// How a spread of more than two legs is sent.
#[derive(Clone, Copy, Debug, PartialEq, Eq, Structural)]
pub enum Decomposition {
    /// One combination order with all legs.
    Combo,
    /// Two orders of two legs each.
    Verticals,
}

/// One leg of an order: the contract and how many of it one unit of the order
/// buys (positive) or sells (negative).
#[derive(Clone, Copy, Debug, PartialEq, Eq, Structural)]
pub struct OrderLeg {
    pub conid: u64,
    pub ratio: i32,
}

/// The leg that buys `count` of a contract.
pub open spec fn bought(conid: u64, count: int) -> OrderLeg {
    OrderLeg { conid, ratio: count as i32 }
}

/// The leg that sells `count` of a contract.
pub open spec fn sold(conid: u64, count: int) -> OrderLeg {
    OrderLeg { conid, ratio: (-count) as i32 }
}

/// A limit order for a combination of contracts.
#[derive(Debug, PartialEq, Eq)]
pub struct OrderBody {
    pub legs: Vec<OrderLeg>,
    /// Limit price in cents.
    pub price: i64,
    pub quantity: i32,
}

/// The content of an order.
pub struct OrderModel {
    pub legs: Seq<OrderLeg>,
    pub price: int,
    pub quantity: int,
}

impl View for OrderBody {
    type V = OrderModel;

    open spec fn view(&self) -> OrderModel {
        OrderModel { legs: self.legs@, price: self.price as int, quantity: self.quantity as int }
    }
}

/// The orders of one submission.
#[derive(Debug, PartialEq, Eq)]
pub struct RequestDataStruct {
    pub orders: Vec<OrderBody>,
}

/// The contents of a sequence of orders.
pub open spec fn order_views(orders: Seq<OrderBody>) -> Seq<OrderModel> {
    orders.map_values(|o: OrderBody| o@)
}

/// A leg of a plan: which leg of the spread, and the ratio it is traded at.
pub struct PlannedLeg {
    pub leg: int,
    pub ratio: int,
}

/// The orders that a spread is sent as, each a list of legs of the spread
/// with their ratios, in the order in which the order names them.
pub open spec fn order_plan(kind: SpreadKind, how: Decomposition) -> Seq<Seq<PlannedLeg>> {
    match kind {
        SpreadKind::Calendar => seq![
            seq![PlannedLeg { leg: 0, ratio: -1 }, PlannedLeg { leg: 1, ratio: 1 }],
        ],
        SpreadKind::Butterfly => match how {
            Decomposition::Combo => seq![
                seq![
                    PlannedLeg { leg: 1, ratio: -2 },
                    PlannedLeg { leg: 0, ratio: 1 },
                    PlannedLeg { leg: 2, ratio: 1 },
                ],
            ],
            Decomposition::Verticals => seq![
                seq![PlannedLeg { leg: 1, ratio: -1 }, PlannedLeg { leg: 0, ratio: 1 }],
                seq![PlannedLeg { leg: 1, ratio: -1 }, PlannedLeg { leg: 2, ratio: 1 }],
            ],
        },
        SpreadKind::Boxspread => match how {
            Decomposition::Combo => seq![
                seq![
                    PlannedLeg { leg: 3, ratio: -1 },
                    PlannedLeg { leg: 2, ratio: 1 },
                    PlannedLeg { leg: 0, ratio: 1 },
                    PlannedLeg { leg: 1, ratio: -1 },
                ],
            ],
            Decomposition::Verticals => seq![
                seq![PlannedLeg { leg: 3, ratio: -1 }, PlannedLeg { leg: 0, ratio: 1 }],
                seq![PlannedLeg { leg: 2, ratio: 1 }, PlannedLeg { leg: 1, ratio: -1 }],
            ],
        },
    }
}

/// What the entry at place `j` of an order adds to the position in `leg`.
pub open spec fn held_at(entries: Seq<PlannedLeg>, j: int, leg: int) -> int {
    if 0 <= j < entries.len() && entries[j].leg == leg {
        entries[j].ratio
    } else {
        0
    }
}

/// The signed quantity of `leg` that one unit of an order trades. An order
/// has at most four legs.
pub open spec fn order_position(entries: Seq<PlannedLeg>, leg: int) -> int {
    held_at(entries, 0, leg) + held_at(entries, 1, leg) + held_at(entries, 2, leg) + held_at(
        entries,
        3,
        leg,
    )
}

/// The signed quantity of `leg` that the orders of a plan trade together. A
/// plan has at most two orders.
pub open spec fn net_position(plan: Seq<Seq<PlannedLeg>>, leg: int) -> int {
    (if plan.len() > 0 {
        order_position(plan[0], leg)
    } else {
        0
    }) + (if plan.len() > 1 {
        order_position(plan[1], leg)
    } else {
        0
    })
}

/// However a spread is sent, its orders together trade every leg at the
/// signed quantity of the sign table: a calendar sells the near leg and buys
/// the far; a butterfly buys each wing once and sells the body twice; a box
/// buys the low put and the high call and sells the low call and the high put.
pub proof fn lemma_orders_keep_sign_table(kind: SpreadKind, how: Decomposition, leg: int)
    requires
        0 <= leg < kind.leg_count(),
    ensures
        net_position(order_plan(kind, how), leg) == kind.signed_quantity(leg),
        order_plan(kind, how).len() <= 2,
        forall|n: int|
            0 <= n < order_plan(kind, how).len() ==> (#[trigger] order_plan(kind, how)[n]).len()
                <= 4,
{
}

/// The limit price, in cents, of order `n` of the plan. A combination is
/// priced at the mispricing less the discount, as a credit; for a box the
/// wing width is part of the credit. A vertical is priced at the difference
/// of its two mid prices plus the discount.
pub open spec fn order_price(
    c: Contender,
    how: Decomposition,
    n: int,
    discount: int,
    wing_width: int,
) -> int {
    match c.spread {
        Spread::Calendar { .. } => -(c.arb_value - discount),
        Spread::Butterfly { left, body, right } => match how {
            Decomposition::Combo => -(c.arb_value - discount),
            Decomposition::Verticals => if n == 0 {
                (left.mid_price - body.mid_price) + discount
            } else {
                (right.mid_price - body.mid_price) + discount
            },
        },
        Spread::Boxspread { low_put, low_call, high_call, high_put } => match how {
            Decomposition::Combo => -((c.arb_value + wing_width) - discount),
            Decomposition::Verticals => if n == 0 {
                (low_put.mid_price - high_put.mid_price) + discount
            } else {
                (high_call.mid_price - low_call.mid_price) + discount
            },
        },
    }
}

/// The legs of an order, with the broker ids of the spread's legs filled in.
pub open spec fn order_legs(entries: Seq<PlannedLeg>, ids: Seq<u64>) -> Seq<OrderLeg> {
    Seq::new(
        entries.len(),
        |j: int| OrderLeg { conid: ids[entries[j].leg], ratio: entries[j].ratio as i32 },
    )
}

/// The orders that an opportunity is sent as, given the broker ids of its
/// legs in order.
pub open spec fn planned_orders(
    c: Contender,
    ids: Seq<u64>,
    num_fills: int,
    discount: int,
    wing_width: int,
    how: Decomposition,
) -> Seq<OrderModel> {
    let plan = order_plan(c.spread.spec_kind(), how);
    Seq::new(
        plan.len(),
        |n: int|
            OrderModel {
                legs: order_legs(plan[n], ids),
                price: order_price(c, how, n, discount, wing_width),
                quantity: num_fills,
            },
    )
}

/// The broker ids of all legs of a spread, in order; `None` if the index
/// does not list one of them.
pub open spec fn leg_conids(index: Seq<Ladders>, legs: Seq<Leg>) -> Option<Seq<u64>> {
    if forall|j: int| 0 <= j < legs.len() ==> (#[trigger] conid_in(index, legs[j].spec_key())) is Some {
        Some(Seq::new(legs.len(), |j: int| conid_in(index, legs[j].spec_key())->0))
    } else {
        None
    }
}

/// The orders of one opportunity; none if the broker id of a leg is missing.
pub open spec fn contender_orders(
    index: Seq<Ladders>,
    c: Contender,
    num_fills: int,
    discount: int,
    wing_width: int,
    how: Decomposition,
) -> Seq<OrderModel> {
    match leg_conids(index, c.spread.spec_legs()) {
        Some(ids) => planned_orders(c, ids, num_fills, discount, wing_width, how),
        None => Seq::empty(),
    }
}

/// The orders of the first `n` opportunities, in order.
pub open spec fn request_orders(
    index: Seq<Ladders>,
    contenders: Seq<Contender>,
    n: int,
    num_fills: int,
    discount: int,
    wing_width: int,
    how: Decomposition,
) -> Seq<OrderModel>
    decreases n,
{
    if n <= 0 {
        Seq::empty()
    } else {
        request_orders(index, contenders, n - 1, num_fills, discount, wing_width, how)
            + contender_orders(index, contenders[n - 1], num_fills, discount, wing_width, how)
    }
}

/// The broker ids of the legs of a spread.
fn resolve_legs(index: &ContractIndex, spread: &Spread) -> (r: Option<Vec<u64>>)
    requires
        index.wf(),
    ensures
        match leg_conids(index@, spread.spec_legs()) {
            Some(ids) => r matches Some(v) && v@ == ids,
            None => r is None,
        },
{
    let legs: Vec<Leg> = spread.legs();
    let mut ids: Vec<u64> = Vec::new();
    let mut j: usize = 0;
    while j < legs.len()
        invariant
            0 <= j <= legs@.len(),
            index.wf(),
            legs@ == spread.spec_legs(),
            ids@.len() == j,
            forall|k: int|
                0 <= k < j ==> conid_in(index@, (#[trigger] legs@[k]).spec_key()) == Some(ids@[k]),
        decreases legs@.len() - j,
    {
        match conid_of(index, &legs[j].key()) {
            None => {
                return None;
            },
            Some(id) => {
                ids.push(id);
            },
        }
        j = j + 1;
    }
    proof {
        assert(ids@ =~= leg_conids(index@, spread.spec_legs())->0);
    }
    Some(ids)
}

fn order_of_two(a: OrderLeg, b: OrderLeg, price: i64, quantity: i32) -> (o: OrderBody)
    ensures
        o@ == (OrderModel { legs: seq![a, b], price: price as int, quantity: quantity as int }),
{
    let mut legs: Vec<OrderLeg> = Vec::new();
    legs.push(a);
    legs.push(b);
    proof {
        assert(legs@ =~= seq![a, b]);
    }
    OrderBody { legs, price, quantity }
}

/// The order for a calendar spread: sell the near leg, buy the far leg.
pub fn build_calendar_order(c: &Contender, ids: &Vec<u64>, num_fills: i32, discount_value: i32) -> (o:
    OrderBody)
    requires
        c.wf(),
        c.spread is Calendar,
        ids@.len() == 2,
    ensures
        o@ == (OrderModel {
            legs: seq![
                sold(ids@[0], 1),
                bought(ids@[1], 1),
            ],
            price: -(c.arb_value - discount_value),
            quantity: num_fills as int,
        }),
{
    order_of_two(
        OrderLeg { conid: ids[0], ratio: -1 },
        OrderLeg { conid: ids[1], ratio: 1 },
        -(c.arb_value - discount_value as i64),
        num_fills,
    )
}

/// The lower vertical of a butterfly: sell the body, buy the left wing.
pub fn build_butterfly_bull_order(
    c: &Contender,
    ids: &Vec<u64>,
    num_fills: i32,
    discount_value: i32,
) -> (o: OrderBody)
    requires
        c.spread is Butterfly,
        ids@.len() == 3,
    ensures
        o@ == (OrderModel {
            legs: seq![
                sold(ids@[1], 1),
                bought(ids@[0], 1),
            ],
            price: (c.spread->left.mid_price - c.spread->body.mid_price) + discount_value,
            quantity: num_fills as int,
        }),
{
    match c.spread {
        Spread::Butterfly { left, body, right } => order_of_two(
            OrderLeg { conid: ids[1], ratio: -1 },
            OrderLeg { conid: ids[0], ratio: 1 },
            (left.mid_price as i64 - body.mid_price as i64) + discount_value as i64,
            num_fills,
        ),
        _ => unreached(),
    }
}

/// The upper vertical of a butterfly: sell the body, buy the right wing.
pub fn build_butterfly_bear_order(
    c: &Contender,
    ids: &Vec<u64>,
    num_fills: i32,
    discount_value: i32,
) -> (o: OrderBody)
    requires
        c.spread is Butterfly,
        ids@.len() == 3,
    ensures
        o@ == (OrderModel {
            legs: seq![
                sold(ids@[1], 1),
                bought(ids@[2], 1),
            ],
            price: (c.spread->right.mid_price - c.spread->body.mid_price) + discount_value,
            quantity: num_fills as int,
        }),
{
    match c.spread {
        Spread::Butterfly { left, body, right } => order_of_two(
            OrderLeg { conid: ids[1], ratio: -1 },
            OrderLeg { conid: ids[2], ratio: 1 },
            (right.mid_price as i64 - body.mid_price as i64) + discount_value as i64,
            num_fills,
        ),
        _ => unreached(),
    }
}

/// The butterfly as one order: sell the body twice, buy both wings.
pub fn build_butterfly_order(c: &Contender, ids: &Vec<u64>, num_fills: i32, discount_value: i32) -> (o:
    OrderBody)
    requires
        c.wf(),
        c.spread is Butterfly,
        ids@.len() == 3,
    ensures
        o@ == (OrderModel {
            legs: seq![
                sold(ids@[1], 2),
                bought(ids@[0], 1),
                bought(ids@[2], 1),
            ],
            price: -(c.arb_value - discount_value),
            quantity: num_fills as int,
        }),
{
    let mut legs: Vec<OrderLeg> = Vec::new();
    legs.push(OrderLeg { conid: ids[1], ratio: -2 });
    legs.push(OrderLeg { conid: ids[0], ratio: 1 });
    legs.push(OrderLeg { conid: ids[2], ratio: 1 });
    proof {
        assert(legs@ =~= seq![
            sold(ids@[1], 2),
            bought(ids@[0], 1),
            bought(ids@[2], 1),
        ]);
    }
    OrderBody { legs, price: -(c.arb_value - discount_value as i64), quantity: num_fills }
}

/// The put vertical of a box: sell the high put, buy the low put.
pub fn build_boxspread_put_order(
    c: &Contender,
    ids: &Vec<u64>,
    num_fills: i32,
    discount_value: i32,
) -> (o: OrderBody)
    requires
        c.spread is Boxspread,
        ids@.len() == 4,
    ensures
        o@ == (OrderModel {
            legs: seq![
                sold(ids@[3], 1),
                bought(ids@[0], 1),
            ],
            price: (c.spread->low_put.mid_price - c.spread->high_put.mid_price) + discount_value,
            quantity: num_fills as int,
        }),
{
    match c.spread {
        Spread::Boxspread { low_put, low_call, high_call, high_put } => order_of_two(
            OrderLeg { conid: ids[3], ratio: -1 },
            OrderLeg { conid: ids[0], ratio: 1 },
            (low_put.mid_price as i64 - high_put.mid_price as i64) + discount_value as i64,
            num_fills,
        ),
        _ => unreached(),
    }
}

/// The call vertical of a box: buy the high call, sell the low call.
pub fn build_boxspread_call_order(
    c: &Contender,
    ids: &Vec<u64>,
    num_fills: i32,
    discount_value: i32,
) -> (o: OrderBody)
    requires
        c.spread is Boxspread,
        ids@.len() == 4,
    ensures
        o@ == (OrderModel {
            legs: seq![
                bought(ids@[2], 1),
                sold(ids@[1], 1),
            ],
            price: (c.spread->high_call.mid_price - c.spread->low_call.mid_price) + discount_value,
            quantity: num_fills as int,
        }),
{
    match c.spread {
        Spread::Boxspread { low_put, low_call, high_call, high_put } => order_of_two(
            OrderLeg { conid: ids[2], ratio: 1 },
            OrderLeg { conid: ids[1], ratio: -1 },
            (high_call.mid_price as i64 - low_call.mid_price as i64) + discount_value as i64,
            num_fills,
        ),
        _ => unreached(),
    }
}

/// The box as one order of four legs.
pub fn build_boxspread_order(
    c: &Contender,
    ids: &Vec<u64>,
    num_fills: i32,
    discount_value: i32,
    wing_width: u32,
) -> (o: OrderBody)
    requires
        c.wf(),
        c.spread is Boxspread,
        ids@.len() == 4,
    ensures
        o@ == (OrderModel {
            legs: seq![
                sold(ids@[3], 1),
                bought(ids@[2], 1),
                bought(ids@[0], 1),
                sold(ids@[1], 1),
            ],
            price: -((c.arb_value + wing_width) - discount_value),
            quantity: num_fills as int,
        }),
{
    let mut legs: Vec<OrderLeg> = Vec::new();
    legs.push(OrderLeg { conid: ids[3], ratio: -1 });
    legs.push(OrderLeg { conid: ids[2], ratio: 1 });
    legs.push(OrderLeg { conid: ids[0], ratio: 1 });
    legs.push(OrderLeg { conid: ids[1], ratio: -1 });
    proof {
        assert(legs@ =~= seq![
            sold(ids@[3], 1),
            bought(ids@[2], 1),
            bought(ids@[0], 1),
            sold(ids@[1], 1),
        ]);
    }
    OrderBody {
        legs,
        price: -((c.arb_value + wing_width as i64) - discount_value as i64),
        quantity: num_fills,
    }
}

/// Adds the orders of one opportunity, or nothing if the index does not list
/// one of its legs.
fn add_contender_orders(
    index: &ContractIndex,
    c: &Contender,
    num_fills: i32,
    discount_value: i32,
    wing_width: u32,
    how: Decomposition,
    orders: &mut Vec<OrderBody>,
)
    requires
        index.wf(),
        c.wf(),
    ensures
        order_views(final(orders)@) == order_views(old(orders)@) + contender_orders(
            index@,
            *c,
            num_fills as int,
            discount_value as int,
            wing_width as int,
            how,
        ),
{
    let ghost before = order_views(orders@);
    let ghost start = orders@;
    let ids: Vec<u64> = match resolve_legs(index, &c.spread) {
        None => {
            proof {
                assert(before + Seq::<OrderModel>::empty() =~= before);
            }
            return ;
        },
        Some(ids) => ids,
    };
    let ghost planned = planned_orders(
        *c,
        ids@,
        num_fills as int,
        discount_value as int,
        wing_width as int,
        how,
    );
    let ghost plan = order_plan(c.spread.spec_kind(), how);
    match c.spread {
        Spread::Calendar { .. } => {
            let only: OrderBody = build_calendar_order(c, &ids, num_fills, discount_value);
            proof {
                assert(planned[0].legs =~= only@.legs);
                assert(planned =~= seq![only@]);
                assert(order_views(start.push(only)) =~= before + planned);
            }
            orders.push(only);
        },
        Spread::Butterfly { .. } => match how {
            Decomposition::Combo => {
                let only: OrderBody = build_butterfly_order(c, &ids, num_fills, discount_value);
                proof {
                    assert(planned[0].legs =~= only@.legs);
                    assert(planned =~= seq![only@]);
                    assert(order_views(start.push(only)) =~= before + planned);
                }
                orders.push(only);
            },
            Decomposition::Verticals => {
                let bull: OrderBody = build_butterfly_bull_order(
                    c,
                    &ids,
                    num_fills,
                    discount_value,
                );
                let bear: OrderBody = build_butterfly_bear_order(
                    c,
                    &ids,
                    num_fills,
                    discount_value,
                );
                proof {
                    assert(planned[0].legs =~= bull@.legs);
                    assert(planned[1].legs =~= bear@.legs);
                    assert(planned =~= seq![bull@, bear@]);
                    assert(order_views(start.push(bull).push(bear)) =~= before + planned);
                }
                orders.push(bull);
                orders.push(bear);
            },
        },
        Spread::Boxspread { .. } => match how {
            Decomposition::Combo => {
                let only: OrderBody = build_boxspread_order(
                    c,
                    &ids,
                    num_fills,
                    discount_value,
                    wing_width,
                );
                proof {
                    assert(planned[0].legs =~= only@.legs);
                    assert(planned =~= seq![only@]);
                    assert(order_views(start.push(only)) =~= before + planned);
                }
                orders.push(only);
            },
            Decomposition::Verticals => {
                let puts: OrderBody = build_boxspread_put_order(
                    c,
                    &ids,
                    num_fills,
                    discount_value,
                );
                let calls: OrderBody = build_boxspread_call_order(
                    c,
                    &ids,
                    num_fills,
                    discount_value,
                );
                proof {
                    assert(planned[0].legs =~= puts@.legs);
                    assert(planned[1].legs =~= calls@.legs);
                    assert(planned =~= seq![puts@, calls@]);
                    assert(order_views(start.push(puts).push(calls)) =~= before + planned);
                }
                orders.push(puts);
                orders.push(calls);
            },
        },
    }
}

/// Every opportunity of the sequence is within the bound of price arithmetic.
pub open spec fn contenders_wf(s: Seq<Contender>) -> bool {
    forall|j: int| 0 <= j < s.len() ==> (#[trigger] s[j]).wf()
}

/// Builds the orders of a submission: for every opportunity, in order, the
/// orders it is sent as. An opportunity with a leg that the index has no
/// broker id for gives no order at all; the others are not affected.
pub fn build_request_data(
    contender_contracts: &Vec<Contender>,
    num_fills: i32,
    index: &ContractIndex,
    discount_value: i32,
    wing_width: u32,
    how: Decomposition,
) -> (request: RequestDataStruct)
    requires
        index.wf(),
        contenders_wf(contender_contracts@),
    ensures
        order_views(request.orders@) == request_orders(
            index@,
            contender_contracts@,
            contender_contracts@.len() as int,
            num_fills as int,
            discount_value as int,
            wing_width as int,
            how,
        ),
{
    let mut orders: Vec<OrderBody> = Vec::new();
    let mut n: usize = 0;
    proof {
        assert(order_views(orders@) =~= Seq::<OrderModel>::empty());
    }
    while n < contender_contracts.len()
        invariant
            0 <= n <= contender_contracts@.len(),
            index.wf(),
            contenders_wf(contender_contracts@),
            order_views(orders@) == request_orders(
                index@,
                contender_contracts@,
                n as int,
                num_fills as int,
                discount_value as int,
                wing_width as int,
                how,
            ),
        decreases contender_contracts@.len() - n,
    {
        add_contender_orders(
            index,
            &contender_contracts[n],
            num_fills,
            discount_value,
            wing_width,
            how,
            &mut orders,
        );
        n = n + 1;
    }
    RequestDataStruct { orders }
}

} // verus!
