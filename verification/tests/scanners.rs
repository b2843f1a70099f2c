use options_arb::contender::{Action, Contender, Leg, Spread, SpreadKind};
use options_arb::dates::Expiration;
use options_arb::index::{ContractIndex, IndexBuilder, ListedContract};
use options_arb::quotes::{ContractType, Quote, QuoteStore, Quoted};
use options_arb::rank::Rank;
use options_arb::scan::{
    get_boxspread_contenders, get_butterfly_contenders, get_calendar_contenders, MissingQuote,
    ScanSettings,
};
use options_arb::select::{get_contender_contracts, sort_by_rank, Selection};

fn row(conid: u64, maturity_date: &str, right: &str, strike: i32) -> ListedContract {
    ListedContract {
        conid,
        maturity_date: maturity_date.to_string(),
        right: right.to_string(),
        strike,
    }
}

fn day(text: &str) -> Expiration {
    Expiration::parse(text).unwrap()
}

fn index_of(rows: &Vec<ListedContract>, today: &str) -> ContractIndex {
    let mut builder = IndexBuilder::new(9, 0, day(today));
    builder.add_page(rows);
    builder.finish().0
}

fn store_of(quotes: &[(u64, Quote)]) -> QuoteStore {
    let entries: Vec<Quoted> =
        quotes.iter().map(|(conid, quote)| Quoted { conid: *conid, quote: *quote }).collect();
    QuoteStore::from_quotes(&entries)
}

fn settings(arb_threshold: i64, min_bid: i32, adjacency_days: i64, wing_width: u32) -> ScanSettings {
    ScanSettings { arb_threshold, min_bid, adjacency_days, wing_width }
}

const ALL: Selection = Selection { calendar: true, butterfly: true, boxspread: true };

#[test]
fn calendar_scanner_needs_adjacent_expirations() {
    let rows = vec![row(1, "20240101", "C", 500_000), row(2, "20240103", "C", 500_000)];
    let index = index_of(&rows, "240101");
    let near = Quote::new(200, 250, 10);
    let far = Quote::new(50, 100, 10);
    assert_eq!(near.mid(), 225);
    assert_eq!(far.mid(), 75);
    let quotes = store_of(&[(1, near), (2, far)]);
    let today = day("240101");
    // The mispricing of 1.50 exceeds the threshold, and with no minimum bid
    // only the day gap of two stands in the way.
    let found = get_calendar_contenders(&index, &quotes, &settings(10, 0, 1, 500), today);
    assert_eq!(found, Ok(Vec::new()));
    let found = get_calendar_contenders(&index, &quotes, &settings(10, 100, 1, 500), today);
    assert_eq!(found, Ok(Vec::new()));

    // With a configured distance of two days the spread is found.
    let found = get_calendar_contenders(&index, &quotes, &settings(10, 0, 2, 500), today).unwrap();
    assert_eq!(
        found,
        vec![Contender {
            arb_value: 150,
            average_ask_size: 10,
            spread: Spread::Calendar {
                near: Leg {
                    expiration: day("240101"),
                    contract_type: ContractType::Call,
                    strike: 500_000,
                    mid_price: 225,
                },
                far: Leg {
                    expiration: day("240103"),
                    contract_type: ContractType::Call,
                    strike: 500_000,
                    mid_price: 75,
                },
            },
            expiration: day("240101"),
            rank: Rank { average_ask_size: 10, arb_value: 150, days: 1 },
        }]
    );
}

#[test]
fn calendar_scanner_never_emits_without_the_far_strike() {
    let rows = vec![
        row(1, "20240101", "C", 500_000),
        row(2, "20240102", "C", 500_500),
        row(3, "20240101", "P", 500_000),
        row(4, "20240102", "P", 500_000),
    ];
    let index = index_of(&rows, "240101");
    let rich = Quote::new(900, 1000, 10);
    let cheap = Quote::new(100, 200, 10);
    let quotes = store_of(&[(1, rich), (2, cheap), (3, rich), (4, cheap)]);
    let found =
        get_calendar_contenders(&index, &quotes, &settings(10, 0, 1, 500), day("240101")).unwrap();
    // Only the puts share a strike across the two expirations.
    assert_eq!(found.len(), 1);
    assert_eq!(found[0].spread.kind(), SpreadKind::Calendar);
    match found[0].spread {
        Spread::Calendar { near, far } => {
            assert_eq!(near.contract_type, ContractType::Put);
            assert_eq!(near.strike, far.strike);
            assert_eq!(far.expiration, day("240102"));
        }
        _ => panic!("a calendar scan gives calendar spreads"),
    }
    assert_eq!(found[0].arb_value, 800);
}

#[test]
fn calendar_scanner_applies_every_filter() {
    let rows = vec![row(1, "20240102", "C", 500_000), row(2, "20240103", "C", 500_000)];
    let index = index_of(&rows, "240101");
    let today = day("240101");
    let cfg = settings(50, 100, 1, 500);
    let scan = |near: Quote, far: Quote| {
        get_calendar_contenders(&index, &store_of(&[(1, near), (2, far)]), &cfg, today)
            .unwrap()
            .len()
    };
    assert_eq!(scan(Quote::new(300, 400, 3), Quote::new(200, 300, 4)), 1);
    // The mispricing must exceed the threshold, not only reach it.
    assert_eq!(scan(Quote::new(250, 350, 3), Quote::new(200, 300, 4)), 0);
    assert_eq!(scan(Quote::new(251, 351, 3), Quote::new(200, 300, 4)), 1);
    // Both bids must exceed the minimum.
    assert_eq!(scan(Quote::new(300, 400, 3), Quote::new(100, 400, 4)), 0);
    assert_eq!(scan(Quote::new(100, 900, 3), Quote::new(101, 300, 4)), 0);
    // Both legs need size at the ask.
    assert_eq!(scan(Quote::new(300, 400, 0), Quote::new(200, 300, 4)), 0);
    assert_eq!(scan(Quote::new(300, 400, 3), Quote::new(200, 300, 0)), 0);

    let found = get_calendar_contenders(
        &index,
        &store_of(&[(1, Quote::new(300, 400, 3)), (2, Quote::new(200, 300, 4))]),
        &cfg,
        today,
    )
    .unwrap();
    // The mean of 3 and 4 rounds to 4; the near expiration is a day away.
    assert_eq!(found[0].average_ask_size, 4);
    assert_eq!(found[0].rank, Rank { average_ask_size: 4, arb_value: 100, days: 2 });
}

#[test]
fn scanners_report_the_first_missing_quote() {
    let rows = vec![
        row(1, "20240102", "C", 500_000),
        row(2, "20240102", "C", 500_500),
        row(3, "20240103", "C", 500_000),
        row(4, "20240103", "C", 500_500),
    ];
    let index = index_of(&rows, "240101");
    let q = Quote::new(300, 400, 3);
    let cfg = settings(50, 100, 1, 500);
    let today = day("240101");
    let found = get_calendar_contenders(&index, &store_of(&[(1, q), (3, q), (4, q)]), &cfg, today);
    assert_eq!(found, Err(MissingQuote { conid: 2 }));
    let found = get_calendar_contenders(&index, &store_of(&[(1, q), (2, q), (4, q)]), &cfg, today);
    assert_eq!(found, Err(MissingQuote { conid: 3 }));
    let found = get_calendar_contenders(&index, &store_of(&[]), &cfg, today);
    assert_eq!(found, Err(MissingQuote { conid: 1 }));
    // Two strikes make no butterfly and, without puts, no box: no quote is
    // asked for.
    assert_eq!(get_butterfly_contenders(&index, &store_of(&[]), &cfg, today), Ok(Vec::new()));
    assert_eq!(get_boxspread_contenders(&index, &store_of(&[]), &cfg, today), Ok(Vec::new()));
    assert_eq!(
        get_contender_contracts(&index, &store_of(&[]), &cfg, today, ALL, 5),
        Err(MissingQuote { conid: 1 })
    );
}

#[test]
fn scanners_find_nothing_in_an_empty_index() {
    let index = ContractIndex::empty();
    let quotes = QuoteStore::new();
    let cfg = settings(10, 100, 1, 500);
    let today = day("240101");
    assert_eq!(get_calendar_contenders(&index, &quotes, &cfg, today), Ok(Vec::new()));
    assert_eq!(get_butterfly_contenders(&index, &quotes, &cfg, today), Ok(Vec::new()));
    assert_eq!(get_boxspread_contenders(&index, &quotes, &cfg, today), Ok(Vec::new()));
    assert_eq!(get_contender_contracts(&index, &quotes, &cfg, today, ALL, 3), Ok(Vec::new()));
}

#[test]
fn butterfly_scanner_rejects_a_gap_that_is_not_the_wing_width() {
    let rows = vec![
        row(1, "20240105", "C", 290_000),
        row(2, "20240105", "C", 300_000),
        row(3, "20240105", "C", 310_000),
    ];
    let index = index_of(&rows, "240101");
    let left = Quote::new(990, 1010, 5);
    let body = Quote::new(1110, 1130, 5);
    let right = Quote::new(1230, 1250, 5);
    assert_eq!((left.mid(), body.mid(), right.mid()), (1000, 1120, 1240));
    let quotes = store_of(&[(1, left), (2, body), (3, right)]);
    let today = day("240101");
    // The grid is 100 points and the wing width 5: nothing is found, though
    // a mispricing of zero exceeds the threshold chosen here.
    let found = get_butterfly_contenders(&index, &quotes, &settings(-1, 100, 1, 500), today);
    assert_eq!(found, Ok(Vec::new()));
    let found = get_butterfly_contenders(&index, &quotes, &settings(10, 100, 1, 500), today);
    assert_eq!(found, Ok(Vec::new()));
    // With the wing width of the grid, the same mispricing is found.
    let found =
        get_butterfly_contenders(&index, &quotes, &settings(-1, 100, 1, 10_000), today).unwrap();
    assert_eq!(found.len(), 1);
    assert_eq!(found[0].arb_value, 0);
    // And at a threshold of zero it is not: zero does not exceed zero.
    let found = get_butterfly_contenders(&index, &quotes, &settings(0, 100, 1, 10_000), today);
    assert_eq!(found, Ok(Vec::new()));
}

#[test]
fn butterfly_scanner_finds_convexity_violations() {
    let rows = vec![
        row(1, "20240105", "P", 500_000),
        row(2, "20240105", "P", 500_500),
        row(3, "20240105", "P", 501_000),
        row(4, "20240105", "P", 501_500),
        row(5, "20240105", "P", 502_500),
    ];
    let index = index_of(&rows, "240101");
    let quotes = store_of(&[
        (1, Quote::new(1000, 1020, 2)),
        (2, Quote::new(1200, 1220, 3)),
        (3, Quote::new(1100, 1120, 4)),
        (4, Quote::new(1300, 1320, 8)),
        (5, Quote::new(1100, 1120, 8)),
    ]);
    let found =
        get_butterfly_contenders(&index, &quotes, &settings(10, 100, 1, 500), day("240101"))
            .unwrap();
    // Body 5005: 2 * 12.10 - (10.10 + 11.10) = 3.00. Body 5010 is concave the
    // right way. Body 5015 has a right gap of 10 points.
    assert_eq!(
        found,
        vec![Contender {
            arb_value: 300,
            average_ask_size: 3,
            spread: Spread::Butterfly {
                left: Leg {
                    expiration: day("240105"),
                    contract_type: ContractType::Put,
                    strike: 500_000,
                    mid_price: 1010,
                },
                body: Leg {
                    expiration: day("240105"),
                    contract_type: ContractType::Put,
                    strike: 500_500,
                    mid_price: 1210,
                },
                right: Leg {
                    expiration: day("240105"),
                    contract_type: ContractType::Put,
                    strike: 501_000,
                    mid_price: 1110,
                },
            },
            expiration: day("240105"),
            rank: Rank { average_ask_size: 3, arb_value: 300, days: 5 },
        }]
    );
}

#[test]
fn butterfly_gap_is_compared_after_rounding_to_ten_cents() {
    let rows = vec![
        row(1, "20240105", "C", 500_000),
        row(2, "20240105", "C", 500_504),
        row(3, "20240105", "C", 501_000),
    ];
    let index = index_of(&rows, "240101");
    let quotes = store_of(&[
        (1, Quote::new(1000, 1000, 1)),
        (2, Quote::new(1500, 1500, 1)),
        (3, Quote::new(1000, 1000, 1)),
    ]);
    let today = day("240101");
    // Gaps of 5.04 and 4.96 both round to 5.0.
    let found = get_butterfly_contenders(&index, &quotes, &settings(10, 100, 1, 500), today);
    assert_eq!(found.unwrap().len(), 1);
    // A wing width that is no multiple of ten cents matches no gap.
    let found = get_butterfly_contenders(&index, &quotes, &settings(10, 100, 1, 504), today);
    assert_eq!(found, Ok(Vec::new()));
}

#[test]
fn box_scanner_finds_a_box_below_its_width() {
    let rows = vec![
        row(1, "20240105", "C", 500_000),
        row(2, "20240105", "C", 500_500),
        row(3, "20240105", "P", 500_000),
        row(4, "20240105", "P", 500_500),
    ];
    let index = index_of(&rows, "240101");
    let today = day("240101");
    let quotes = store_of(&[
        (1, Quote::new(2000, 2000, 4)),
        (2, Quote::new(1600, 1600, 4)),
        (3, Quote::new(1000, 1000, 4)),
        (4, Quote::new(1950, 1950, 5)),
    ]);
    // (10.00 + 16.00) - (20.00 + 19.50) = -13.50: 8.50 beyond the width of 5.
    let found =
        get_boxspread_contenders(&index, &quotes, &settings(10, 100, 1, 500), today).unwrap();
    let put = |strike: i32, mid_price: i32| Leg {
        expiration: day("240105"),
        contract_type: ContractType::Put,
        strike,
        mid_price,
    };
    let call = |strike: i32, mid_price: i32| Leg {
        expiration: day("240105"),
        contract_type: ContractType::Call,
        strike,
        mid_price,
    };
    assert_eq!(
        found,
        vec![Contender {
            arb_value: 850,
            average_ask_size: 4,
            spread: Spread::Boxspread {
                low_put: put(500_000, 1000),
                low_call: call(500_000, 2000),
                high_call: call(500_500, 1600),
                high_put: put(500_500, 1950),
            },
            expiration: day("240105"),
            rank: Rank { average_ask_size: 4, arb_value: 850, days: 5 },
        }]
    );
    // The excess must exceed the threshold.
    let found = get_boxspread_contenders(&index, &quotes, &settings(850, 100, 1, 500), today);
    assert_eq!(found, Ok(Vec::new()));
    let found = get_boxspread_contenders(&index, &quotes, &settings(849, 100, 1, 500), today);
    assert_eq!(found.unwrap().len(), 1);
    // Both gaps must be the wing width.
    let found = get_boxspread_contenders(&index, &quotes, &settings(10, 100, 1, 1000), today);
    assert_eq!(found, Ok(Vec::new()));
}

#[test]
fn box_scanner_pairs_ladders_by_place_and_stops_at_the_shorter() {
    let rows = vec![
        row(1, "20240105", "C", 500_000),
        row(2, "20240105", "C", 500_500),
        row(3, "20240105", "C", 501_000),
        row(4, "20240105", "P", 500_000),
        row(5, "20240105", "P", 500_500),
    ];
    let index = index_of(&rows, "240101");
    let quotes = store_of(&[
        (1, Quote::new(2000, 2000, 4)),
        (2, Quote::new(1600, 1600, 4)),
        (4, Quote::new(1000, 1000, 4)),
        (5, Quote::new(1950, 1950, 4)),
    ]);
    // The third call has no put beside it and no quote: it is never asked for.
    let found =
        get_boxspread_contenders(&index, &quotes, &settings(10, 100, 1, 500), day("240101"));
    assert_eq!(found.unwrap().len(), 1);
}

fn plain(arb_value: i64, average_ask_size: u32, days: i64, strike: i32) -> Contender {
    let leg = Leg {
        expiration: day("240105"),
        contract_type: ContractType::Call,
        strike,
        mid_price: 0,
    };
    Contender {
        arb_value,
        average_ask_size,
        spread: Spread::Calendar { near: leg, far: leg },
        expiration: day("240105"),
        rank: Rank { average_ask_size, arb_value, days },
    }
}

#[test]
fn sorting_is_descending_and_stable() {
    let found = vec![
        plain(100, 1, 2, 1),
        plain(300, 1, 2, 2),
        plain(100, 2, 4, 3),
        plain(50, 1, 1, 4),
        plain(400, 1, 1, 5),
        plain(300, 2, 4, 6),
    ];
    let sorted = sort_by_rank(&found);
    let order: Vec<i32> = sorted
        .iter()
        .map(|c| match c.spread {
            Spread::Calendar { near, .. } => near.strike,
            _ => 0,
        })
        .collect();
    // 400 first, the two at 150 in the order found, the three at 50 last.
    assert_eq!(order, vec![5, 2, 6, 1, 3, 4]);
    assert_eq!(sort_by_rank(&Vec::new()), Vec::new());
}

#[test]
fn selection_merges_sorts_and_truncates() {
    let rows = vec![
        row(1, "20240105", "C", 500_000),
        row(2, "20240105", "C", 500_500),
        row(3, "20240105", "C", 501_000),
        row(4, "20240105", "P", 500_000),
        row(5, "20240105", "P", 500_500),
        row(6, "20240106", "C", 500_000),
    ];
    let index = index_of(&rows, "240101");
    let quotes = store_of(&[
        (1, Quote::new(2000, 2000, 4)),
        (2, Quote::new(2600, 2600, 4)),
        (3, Quote::new(2000, 2000, 4)),
        (4, Quote::new(1000, 1000, 4)),
        (5, Quote::new(2950, 2950, 4)),
        (6, Quote::new(1900, 1900, 4)),
    ]);
    let cfg = settings(10, 100, 1, 500);
    let today = day("240101");
    let kinds = |found: &Vec<Contender>| -> Vec<SpreadKind> {
        found.iter().map(|c| c.spread.kind()).collect()
    };
    // Calendar 1.00, butterfly 12.00, box 13.50 - 5.00 = 8.50.
    let all = get_contender_contracts(&index, &quotes, &cfg, today, ALL, 10).unwrap();
    assert_eq!(
        kinds(&all),
        vec![SpreadKind::Butterfly, SpreadKind::Boxspread, SpreadKind::Calendar]
    );
    assert_eq!(all[0].arb_value, 1200);
    assert_eq!(all[1].arb_value, 850);
    assert_eq!(all[2].arb_value, 100);
    let best = get_contender_contracts(&index, &quotes, &cfg, today, ALL, 2).unwrap();
    assert_eq!(kinds(&best), vec![SpreadKind::Butterfly, SpreadKind::Boxspread]);
    let none = get_contender_contracts(&index, &quotes, &cfg, today, ALL, 0).unwrap();
    assert_eq!(none, Vec::new());
    let pair = Selection { calendar: true, butterfly: false, boxspread: true };
    let two = get_contender_contracts(&index, &quotes, &cfg, today, pair, 10).unwrap();
    assert_eq!(kinds(&two), vec![SpreadKind::Boxspread, SpreadKind::Calendar]);
    let only = Selection { calendar: false, butterfly: true, boxspread: false };
    let one = get_contender_contracts(&index, &quotes, &cfg, today, only, 10).unwrap();
    assert_eq!(kinds(&one), vec![SpreadKind::Butterfly]);
    let nothing = Selection { calendar: false, butterfly: false, boxspread: false };
    assert_eq!(
        get_contender_contracts(&index, &quotes, &cfg, today, nothing, 10),
        Ok(Vec::new())
    );
}

#[test]
fn legs_actions_and_multipliers_follow_the_sign_table() {
    let leg = |strike: i32| Leg {
        expiration: day("240105"),
        contract_type: ContractType::Call,
        strike,
        mid_price: 0,
    };
    let with = |spread: Spread| Contender {
        arb_value: 0,
        average_ask_size: 0,
        spread,
        expiration: day("240105"),
        rank: Rank { average_ask_size: 0, arb_value: 0, days: 1 },
    };
    let calendar = with(Spread::Calendar { near: leg(1), far: leg(2) });
    let butterfly = with(Spread::Butterfly { left: leg(1), body: leg(2), right: leg(3) });
    let boxspread = with(Spread::Boxspread {
        low_put: leg(1),
        low_call: leg(2),
        high_call: leg(3),
        high_put: leg(4),
    });
    assert_eq!(calendar.spread.legs(), vec![leg(1), leg(2)]);
    assert_eq!(butterfly.spread.legs(), vec![leg(1), leg(2), leg(3)]);
    assert_eq!(boxspread.spread.legs(), vec![leg(1), leg(2), leg(3), leg(4)]);
    let signed = |c: &Contender, n: usize| -> Vec<i64> {
        (0..n)
            .map(|i| match c.action(i) {
                Action::Buy => c.multiplier(1, i),
                Action::Sell => -c.multiplier(1, i),
            })
            .collect()
    };
    assert_eq!(signed(&calendar, 2), vec![-1, 1]);
    assert_eq!(signed(&butterfly, 3), vec![1, -2, 1]);
    assert_eq!(signed(&boxspread, 4), vec![1, -1, 1, -1]);
    assert_eq!(butterfly.multiplier(7, 1), 14);
    assert_eq!(butterfly.multiplier(7, 0), 7);
    assert_eq!(butterfly.multiplier(i32::MAX, 1), 2 * i32::MAX as i64);
    assert_eq!(boxspread.multiplier(7, 1), 7);
}
