use options_arb::contender::{Contender, Leg, Spread};
use options_arb::dates::Expiration;
use options_arb::index::{
    conid_of, get_quote, ContractIndex, IndexBuilder, ListedContract, QuoteLookupError,
};
use options_arb::lifecycle::{
    classify_response, BrokerEvent, BrokerReply, CancelAction, CancelOutcome, Field,
    LifecycleAction, OrderManager, OrderState, ResponseEntry,
};
use options_arb::orders::{
    build_boxspread_call_order, build_boxspread_order, build_boxspread_put_order,
    build_butterfly_bear_order, build_butterfly_bull_order, build_butterfly_order,
    build_calendar_order, build_request_data, Decomposition, OrderBody, OrderLeg,
};
use options_arb::quotes::{ContractKey, ContractType, Quote, QuoteStore, Quoted};
use options_arb::rank::Rank;
use options_arb::render::con_idex;

fn row(conid: u64, maturity_date: &str, right: &str, strike: i32) -> ListedContract {
    ListedContract {
        conid,
        maturity_date: maturity_date.to_string(),
        right: right.to_string(),
        strike,
    }
}

fn day(text: &str) -> Expiration {
    Expiration::parse(text).unwrap()
}

fn index() -> ContractIndex {
    let rows = vec![
        row(101, "20240105", "C", 500_000),
        row(102, "20240105", "C", 500_500),
        row(103, "20240105", "C", 501_000),
        row(201, "20240105", "P", 500_000),
        row(202, "20240105", "P", 500_500),
        row(301, "20240106", "C", 500_000),
    ];
    let mut builder = IndexBuilder::new(9, 0, day("240101"));
    builder.add_page(&rows);
    builder.finish().0
}

fn leg(date: &str, contract_type: ContractType, strike: i32, mid_price: i32) -> Leg {
    Leg { expiration: day(date), contract_type, strike, mid_price }
}

fn contender(arb_value: i64, spread: Spread) -> Contender {
    Contender {
        arb_value,
        average_ask_size: 1,
        spread,
        expiration: day("240105"),
        rank: Rank { average_ask_size: 1, arb_value, days: 5 },
    }
}

fn calendar() -> Contender {
    contender(
        100,
        Spread::Calendar {
            near: leg("240105", ContractType::Call, 500_000, 2000),
            far: leg("240106", ContractType::Call, 500_000, 1900),
        },
    )
}

fn butterfly() -> Contender {
    contender(
        1200,
        Spread::Butterfly {
            left: leg("240105", ContractType::Call, 500_000, 2000),
            body: leg("240105", ContractType::Call, 500_500, 2600),
            right: leg("240105", ContractType::Call, 501_000, 2050),
        },
    )
}

fn boxspread() -> Contender {
    contender(
        850,
        Spread::Boxspread {
            low_put: leg("240105", ContractType::Put, 500_000, 1000),
            low_call: leg("240105", ContractType::Call, 500_000, 2000),
            high_call: leg("240105", ContractType::Call, 500_500, 1600),
            high_put: leg("240105", ContractType::Put, 500_500, 1950),
        },
    )
}

fn order(legs: &[(u64, i32)], price: i64, quantity: i32) -> OrderBody {
    OrderBody {
        legs: legs.iter().map(|(conid, ratio)| OrderLeg { conid: *conid, ratio: *ratio }).collect(),
        price,
        quantity,
    }
}

/// The signed quantity that the orders trade of each contract, in the order
/// of the ids given.
fn net(orders: &Vec<OrderBody>, ids: &[u64]) -> Vec<i32> {
    ids.iter()
        .map(|id| {
            orders
                .iter()
                .flat_map(|o| o.legs.iter())
                .filter(|l| l.conid == *id)
                .map(|l| l.ratio)
                .sum()
        })
        .collect()
}

#[test]
fn conids_are_found_by_expiration_type_and_strike() {
    let index = index();
    assert_eq!(conid_of(&index, &leg("240105", ContractType::Call, 500_500, 0).key()), Some(102));
    assert_eq!(conid_of(&index, &leg("240105", ContractType::Put, 500_500, 7).key()), Some(202));
    assert_eq!(conid_of(&index, &leg("240106", ContractType::Call, 500_000, 0).key()), Some(301));
    assert_eq!(conid_of(&index, &leg("240106", ContractType::Put, 500_000, 0).key()), None);
    assert_eq!(conid_of(&index, &leg("240107", ContractType::Call, 500_000, 0).key()), None);
    assert_eq!(conid_of(&index, &leg("240105", ContractType::Call, 500_250, 0).key()), None);
}

#[test]
fn a_contract_and_its_broker_id_resolve_to_the_same_quote() {
    let index = index();
    let quotes = QuoteStore::from_quotes(&vec![Quoted { conid: 102, quote: Quote::new(10, 20, 3) }]);
    let key = ContractKey {
        expiration: day("240105"),
        contract_type: ContractType::Call,
        strike: 500_500,
    };
    assert_eq!(get_quote(&index, &quotes, &key), Ok(Quote::new(10, 20, 3)));
    assert_eq!(Ok(quotes.get(conid_of(&index, &key).unwrap()).unwrap()), get_quote(&index, &quotes, &key));
    let unquoted = ContractKey { strike: 500_000, ..key };
    assert_eq!(
        get_quote(&index, &quotes, &unquoted),
        Err(QuoteLookupError::NotQuoted { conid: 101 })
    );
    let unlisted = ContractKey { strike: 1, ..key };
    assert_eq!(get_quote(&index, &quotes, &unlisted), Err(QuoteLookupError::NotListed));
}

#[test]
fn calendar_order_sells_near_and_buys_far() {
    let request =
        build_request_data(&vec![calendar()], 3, &index(), 5, 500, Decomposition::Verticals);
    assert_eq!(request.orders, vec![order(&[(101, -1), (301, 1)], -95, 3)]);
    let request = build_request_data(&vec![calendar()], 3, &index(), -5, 500, Decomposition::Combo);
    assert_eq!(request.orders, vec![order(&[(101, -1), (301, 1)], -105, 3)]);
    assert_eq!(net(&request.orders, &[101, 301]), vec![-1, 1]);
    assert_eq!(con_idex(&request.orders[0]), "28812380;;;101/-1,301/1");
}

#[test]
fn butterfly_orders_keep_the_sign_table() {
    let combo = build_request_data(&vec![butterfly()], 2, &index(), 5, 500, Decomposition::Combo);
    assert_eq!(combo.orders, vec![order(&[(102, -2), (101, 1), (103, 1)], -1195, 2)]);
    assert_eq!(net(&combo.orders, &[101, 102, 103]), vec![1, -2, 1]);
    assert_eq!(con_idex(&combo.orders[0]), "28812380;;;102/-2,101/1,103/1");

    let verticals =
        build_request_data(&vec![butterfly()], 2, &index(), 5, 500, Decomposition::Verticals);
    assert_eq!(
        verticals.orders,
        vec![
            order(&[(102, -1), (101, 1)], (2000 - 2600) + 5, 2),
            order(&[(102, -1), (103, 1)], (2050 - 2600) + 5, 2),
        ]
    );
    assert_eq!(net(&verticals.orders, &[101, 102, 103]), vec![1, -2, 1]);
}

#[test]
fn box_orders_keep_the_sign_table() {
    let combo = build_request_data(&vec![boxspread()], 1, &index(), 10, 500, Decomposition::Combo);
    // The credit is the excess of 8.50 and the width of 5.00, less the discount.
    assert_eq!(
        combo.orders,
        vec![order(&[(202, -1), (102, 1), (201, 1), (101, -1)], -(850 + 500 - 10), 1)]
    );
    assert_eq!(net(&combo.orders, &[201, 101, 102, 202]), vec![1, -1, 1, -1]);
    assert_eq!(con_idex(&combo.orders[0]), "28812380;;;202/-1,102/1,201/1,101/-1");

    let verticals =
        build_request_data(&vec![boxspread()], 1, &index(), 10, 500, Decomposition::Verticals);
    assert_eq!(
        verticals.orders,
        vec![
            order(&[(202, -1), (201, 1)], (1000 - 1950) + 10, 1),
            order(&[(102, 1), (101, -1)], (1600 - 2000) + 10, 1),
        ]
    );
    assert_eq!(net(&verticals.orders, &[201, 101, 102, 202]), vec![1, -1, 1, -1]);
}

#[test]
fn single_order_builders_match_the_request() {
    let ids2: Vec<u64> = vec![11, 12];
    let ids3: Vec<u64> = vec![11, 12, 13];
    let ids4: Vec<u64> = vec![11, 12, 13, 14];
    assert_eq!(build_calendar_order(&calendar(), &ids2, 4, 0), order(&[(11, -1), (12, 1)], -100, 4));
    assert_eq!(
        build_butterfly_order(&butterfly(), &ids3, 4, 1),
        order(&[(12, -2), (11, 1), (13, 1)], -1199, 4)
    );
    assert_eq!(
        build_butterfly_bull_order(&butterfly(), &ids3, 4, 1),
        order(&[(12, -1), (11, 1)], -599, 4)
    );
    assert_eq!(
        build_butterfly_bear_order(&butterfly(), &ids3, 4, 1),
        order(&[(12, -1), (13, 1)], -549, 4)
    );
    assert_eq!(
        build_boxspread_order(&boxspread(), &ids4, 4, 0, 500),
        order(&[(14, -1), (13, 1), (11, 1), (12, -1)], -1350, 4)
    );
    assert_eq!(
        build_boxspread_put_order(&boxspread(), &ids4, 4, 0),
        order(&[(14, -1), (11, 1)], -950, 4)
    );
    assert_eq!(
        build_boxspread_call_order(&boxspread(), &ids4, 4, 0),
        order(&[(13, 1), (12, -1)], -400, 4)
    );
}

#[test]
fn missing_broker_id_drops_that_opportunity_only() {
    let stray = contender(
        300,
        Spread::Butterfly {
            left: leg("240105", ContractType::Call, 500_000, 2000),
            body: leg("240105", ContractType::Call, 500_500, 2600),
            right: leg("240105", ContractType::Call, 509_000, 2050),
        },
    );
    let contenders = vec![calendar(), stray, boxspread()];
    let request = build_request_data(&contenders, 1, &index(), 0, 500, Decomposition::Verticals);
    assert_eq!(
        request.orders,
        vec![
            order(&[(101, -1), (301, 1)], -100, 1),
            order(&[(202, -1), (201, 1)], -950, 1),
            order(&[(102, 1), (101, -1)], -400, 1),
        ]
    );
    let none = build_request_data(&Vec::new(), 1, &index(), 0, 500, Decomposition::Combo);
    assert_eq!(none.orders, Vec::new());
    let empty = build_request_data(
        &vec![calendar()],
        1,
        &ContractIndex::empty(),
        0,
        500,
        Decomposition::Combo,
    );
    assert_eq!(empty.orders, Vec::new());
}

fn text(s: &str) -> Field {
    Field::Text(s.to_string())
}

fn prompt(id: &str) -> ResponseEntry {
    ResponseEntry { id: text(id), order_id: Field::Absent }
}

fn accepted(order_id: &str) -> ResponseEntry {
    ResponseEntry { id: Field::Absent, order_id: text(order_id) }
}

#[test]
fn responses_are_told_apart_by_their_first_entry() {
    assert_eq!(classify_response(&Vec::new()), BrokerReply::Terminal);
    assert_eq!(
        classify_response(&vec![prompt("r1"), accepted("7")]),
        BrokerReply::PendingConfirmation("r1".to_string())
    );
    assert_eq!(
        classify_response(&vec![accepted("7"), accepted("8")]),
        BrokerReply::Accepted(vec!["7".to_string(), "8".to_string()])
    );
    // An order id that is no text counts as an acceptance but names no order.
    let odd = ResponseEntry { id: Field::Other, order_id: Field::Other };
    assert_eq!(
        classify_response(&vec![odd, accepted("8"), prompt("x")]),
        BrokerReply::Accepted(vec!["8".to_string()])
    );
    let bare = ResponseEntry { id: Field::Absent, order_id: Field::Absent };
    assert_eq!(classify_response(&vec![bare, accepted("8")]), BrokerReply::Terminal);
    // A prompt wins over an order id in the same entry.
    let both = ResponseEntry { id: text("r"), order_id: text("9") };
    assert_eq!(
        classify_response(&vec![both]),
        BrokerReply::PendingConfirmation("r".to_string())
    );
}

/// Drives one submission against a broker that answers the calls in turn and
/// returns how many confirmations were sent.
fn drive(manager: &mut OrderManager, mut answers: Vec<BrokerEvent>) -> (usize, Vec<String>) {
    answers.reverse();
    let mut confirmed: Vec<String> = Vec::new();
    let mut action = manager.submit();
    let mut submitted: usize = 0;
    loop {
        match action {
            LifecycleAction::Submit => {
                submitted += 1;
            }
            LifecycleAction::Confirm(id) => {
                // No live order is recorded while prompts are being answered.
                confirmed.push(id);
            }
            LifecycleAction::Finish => break,
        }
        let event = answers.pop().expect("the broker has an answer for every call");
        action = manager.handle(event);
    }
    assert_eq!(submitted, 1);
    assert!(answers.is_empty());
    (confirmed.len(), confirmed)
}

#[test]
fn every_prompt_takes_one_confirmation_before_orders_go_live() {
    for m in 0..5usize {
        let mut manager = OrderManager::new();
        assert_eq!(manager.state(), OrderState::Built);
        let mut answers: Vec<BrokerEvent> = Vec::new();
        let mut ids: Vec<String> = Vec::new();
        for k in 0..m {
            ids.push(format!("reply-{}", k));
            answers.push(BrokerEvent::Replied(BrokerReply::PendingConfirmation(format!(
                "reply-{}",
                k
            ))));
        }
        answers.push(BrokerEvent::Replied(BrokerReply::Accepted(vec![
            "900".to_string(),
            "901".to_string(),
        ])));
        let (count, confirmed) = drive(&mut manager, answers);
        assert_eq!(count, m);
        assert_eq!(confirmed, ids);
        assert_eq!(manager.state(), OrderState::Accepted);
        assert_eq!(manager.live_orders(), &vec!["900".to_string(), "901".to_string()]);
    }
}

#[test]
fn no_order_is_live_while_prompts_are_answered() {
    let mut manager = OrderManager::new();
    assert_eq!(manager.submit(), LifecycleAction::Submit);
    assert_eq!(manager.state(), OrderState::Submitted);
    for k in 0..3 {
        let action = manager
            .handle(BrokerEvent::Replied(BrokerReply::PendingConfirmation(format!("r{}", k))));
        assert_eq!(action, LifecycleAction::Confirm(format!("r{}", k)));
        assert_eq!(manager.state(), OrderState::Confirming);
        assert!(manager.live_orders().is_empty());
    }
    let action = manager.handle(BrokerEvent::Replied(BrokerReply::Accepted(vec!["5".to_string()])));
    assert_eq!(action, LifecycleAction::Finish);
    assert_eq!(manager.live_orders(), &vec!["5".to_string()]);
}

#[test]
fn failed_confirmation_records_no_live_order() {
    let mut manager = OrderManager::new();
    let answers = vec![
        BrokerEvent::Replied(BrokerReply::PendingConfirmation("a".to_string())),
        BrokerEvent::Replied(BrokerReply::PendingConfirmation("b".to_string())),
        BrokerEvent::Failed,
    ];
    let (count, _) = drive(&mut manager, answers);
    assert_eq!(count, 2);
    assert_eq!(manager.state(), OrderState::Rejected);
    assert!(manager.live_orders().is_empty());
    // What arrives after the end changes nothing.
    let late = manager.handle(BrokerEvent::Replied(BrokerReply::Accepted(vec!["1".to_string()])));
    assert_eq!(late, LifecycleAction::Finish);
    assert_eq!(manager.state(), OrderState::Rejected);
    assert!(manager.live_orders().is_empty());
}

#[test]
fn terminal_response_ends_without_live_order_and_live_orders_persist() {
    let mut manager = OrderManager::new();
    drive(&mut manager, vec![BrokerEvent::Replied(BrokerReply::Accepted(vec!["1".to_string()]))]);
    drive(&mut manager, vec![BrokerEvent::Replied(BrokerReply::Terminal)]);
    assert_eq!(manager.state(), OrderState::Rejected);
    assert_eq!(manager.live_orders(), &vec!["1".to_string()]);
    drive(&mut manager, vec![BrokerEvent::Failed]);
    assert_eq!(manager.live_orders(), &vec!["1".to_string()]);
    drive(
        &mut manager,
        vec![BrokerEvent::Replied(BrokerReply::Accepted(vec!["2".to_string(), "3".to_string()]))],
    );
    assert_eq!(
        manager.live_orders(),
        &vec!["1".to_string(), "2".to_string(), "3".to_string()]
    );
    // An event before anything was submitted is ignored.
    let mut idle = OrderManager::new();
    let action = idle.handle(BrokerEvent::Replied(BrokerReply::Accepted(vec!["9".to_string()])));
    assert_eq!(action, LifecycleAction::Finish);
    assert_eq!(idle.state(), OrderState::Built);
    assert!(idle.live_orders().is_empty());
}

#[test]
fn cancellation_goes_on_after_a_failure_and_clears_the_live_set() {
    let mut manager = OrderManager::new();
    drive(
        &mut manager,
        vec![BrokerEvent::Replied(BrokerReply::Accepted(vec![
            "11".to_string(),
            "12".to_string(),
            "13".to_string(),
        ]))],
    );
    // The broker answers the second DELETE with HTTP 500.
    let broker = |id: &str| -> CancelOutcome {
        if id == "12" {
            CancelOutcome::Failed(500)
        } else {
            CancelOutcome::Cancelled
        }
    };
    let mut deleted: Vec<String> = Vec::new();
    manager.begin_cancellation();
    let mut previous: Option<CancelOutcome> = None;
    loop {
        match manager.cancel_next(previous) {
            CancelAction::Delete(id) => {
                previous = Some(broker(&id));
                deleted.push(id);
            }
            CancelAction::Done => break,
        }
    }
    assert_eq!(deleted, vec!["11".to_string(), "12".to_string(), "13".to_string()]);
    assert!(manager.live_orders().is_empty());
    assert_eq!(manager.failed_cancellations(), 1);
    // A run over no live order is done at once.
    manager.begin_cancellation();
    assert_eq!(manager.cancel_next(None), CancelAction::Done);
    assert_eq!(manager.failed_cancellations(), 0);
}

#[test]
fn cancellation_clears_the_live_set_when_every_call_fails() {
    let mut manager = OrderManager::new();
    drive(
        &mut manager,
        vec![BrokerEvent::Replied(BrokerReply::Accepted(vec!["1".to_string(), "2".to_string()]))],
    );
    manager.begin_cancellation();
    assert_eq!(manager.cancel_next(None), CancelAction::Delete("1".to_string()));
    assert_eq!(manager.live_orders().len(), 2);
    assert_eq!(
        manager.cancel_next(Some(CancelOutcome::Failed(503))),
        CancelAction::Delete("2".to_string())
    );
    assert_eq!(manager.cancel_next(Some(CancelOutcome::Failed(0))), CancelAction::Done);
    assert!(manager.live_orders().is_empty());
    assert_eq!(manager.failed_cancellations(), 2);
}
