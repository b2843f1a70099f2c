use options_arb::chain::{get_spx_data, parse_symbol, ChainQuote, ChainRow};
use options_arb::dates::Expiration;
use options_arb::market_data::{
    get_ticker_data, read_price, read_row_quote, read_size, MarketDataResponse, QuoteError,
};
use options_arb::market_hours::{is_us_stock_market_open, market_is_open};
use options_arb::orders::{OrderBody, OrderLeg};
use options_arb::quotes::{ContractKey, ContractType, Quote};
use options_arb::render::{con_idex, format_strike, push_number};
use options_arb::secdef::{get_ticker_conid, SecDefResponse, Section, TickerConid};
use options_arb::text::{parse_cents, parse_number, parse_whole};

#[test]
fn numbers_are_digits_and_nothing_else() {
    assert_eq!(parse_number("0"), Some(0));
    assert_eq!(parse_number("007"), Some(7));
    assert_eq!(parse_number("12345678"), Some(12_345_678));
    assert_eq!(parse_number("18446744073709551615"), Some(u64::MAX));
    assert_eq!(parse_number("18446744073709551616"), None);
    assert_eq!(parse_number(""), None);
    assert_eq!(parse_number("+1"), None);
    assert_eq!(parse_number("1 "), None);
    assert_eq!(parse_number("1e3"), None);
    assert_eq!(parse_number("１"), None);
}

#[test]
fn whole_numbers_may_carry_a_sign() {
    assert_eq!(parse_whole("42"), Some(42));
    assert_eq!(parse_whole("+42"), Some(42));
    assert_eq!(parse_whole("-42"), Some(-42));
    assert_eq!(parse_whole("-0"), Some(0));
    assert_eq!(parse_whole("10000000000000000"), Some(10_000_000_000_000_000));
    assert_eq!(parse_whole("10000000000000001"), None);
    assert_eq!(parse_whole(""), None);
    assert_eq!(parse_whole("-"), None);
    assert_eq!(parse_whole("+-1"), None);
    assert_eq!(parse_whole("4.0"), None);
    assert_eq!(parse_whole(" 4"), None);
}

#[test]
fn amounts_are_read_to_the_cent() {
    assert_eq!(parse_cents("2.25"), Some(225));
    assert_eq!(parse_cents("0.75"), Some(75));
    assert_eq!(parse_cents("5"), Some(500));
    assert_eq!(parse_cents("5."), Some(500));
    assert_eq!(parse_cents(".5"), Some(50));
    assert_eq!(parse_cents("0.1"), Some(10));
    assert_eq!(parse_cents("-0.15"), Some(-15));
    assert_eq!(parse_cents("+0.15"), Some(15));
    assert_eq!(parse_cents("12.345"), Some(1235));
    assert_eq!(parse_cents("12.3449"), Some(1234));
    assert_eq!(parse_cents("-12.345"), Some(-1235));
    assert_eq!(parse_cents("0.995"), Some(100));
    assert_eq!(parse_cents("0.004"), Some(0));
    assert_eq!(parse_cents("-0.004"), Some(0));
    assert_eq!(parse_cents("10000000000000000.999"), Some(1_000_000_000_000_000_100));
    assert_eq!(parse_cents("10000000000000001"), None);
    assert_eq!(parse_cents(""), None);
    assert_eq!(parse_cents("."), None);
    assert_eq!(parse_cents("-"), None);
    assert_eq!(parse_cents("-."), None);
    assert_eq!(parse_cents("1.2.3"), None);
    assert_eq!(parse_cents("1,234.5"), None);
    assert_eq!(parse_cents("1e2"), None);
    assert_eq!(parse_cents(" 1"), None);
    assert_eq!(parse_cents("1.x"), None);
    assert_eq!(parse_cents("x.1"), None);
    assert_eq!(parse_cents("--1"), None);
}

#[test]
fn prices_and_sizes_pass_over_commas() {
    assert_eq!(read_price("1,234.50"), Some(123_450));
    assert_eq!(read_price("2.5"), Some(250));
    assert_eq!(read_price("-2.5"), Some(-250));
    assert_eq!(read_price("21474836.47"), Some(i32::MAX));
    assert_eq!(read_price("21474836.48"), None);
    assert_eq!(read_price("-21474836.48"), Some(i32::MIN));
    assert_eq!(read_price("-21474836.49"), None);
    assert_eq!(read_price(","), None);
    assert_eq!(read_price("abc"), None);
    assert_eq!(read_size("10"), Some(10));
    assert_eq!(read_size("1,000"), Some(1000));
    assert_eq!(read_size("12.4"), Some(12));
    assert_eq!(read_size("12.5"), Some(13));
    assert_eq!(read_size("-3"), Some(0));
    assert_eq!(read_size("0"), Some(0));
    assert_eq!(read_size("4294967295"), Some(u32::MAX));
    assert_eq!(read_size("4294967295.4"), Some(u32::MAX));
    assert_eq!(read_size("4294967295.5"), None);
    assert_eq!(read_size("many"), None);
}

fn snapshot(conid: &str, bid: Option<&str>, size: Option<&str>, ask: Option<&str>) -> MarketDataResponse {
    MarketDataResponse {
        conid_ex: conid.to_string(),
        field_84: bid.map(|s| s.to_string()),
        field_85: size.map(|s| s.to_string()),
        field_86: ask.map(|s| s.to_string()),
    }
}

#[test]
fn ticker_data_builds_the_quote_store() {
    let rows = vec![
        snapshot("1", Some("2.00"), Some("10"), Some("2.50")),
        snapshot("2", Some("0.50"), Some("1,200"), Some("1.00")),
        snapshot("3", None, Some("10"), Some("1.00")),
        snapshot("4", Some("1.00"), Some(""), Some("1.00")),
        snapshot("5", Some("1.00"), Some("3"), None),
        snapshot("not a number", Some("1.00"), Some("3"), Some("1.10")),
        snapshot("1", Some("2.01"), Some("11"), Some("2.50")),
    ];
    let store = get_ticker_data(&rows).unwrap();
    assert_eq!(store.len(), 5);
    let first = store.get(1).unwrap();
    assert_eq!(first, Quote { bid: 201, ask: 250, ask_size: 11 });
    assert_eq!(first.mid(), 226);
    assert_eq!(store.get(2), Some(Quote { bid: 50, ask: 100, ask_size: 1200 }));
    assert_eq!(store.get(2).unwrap().mid(), 75);
    assert_eq!(store.get(3), Some(Quote::empty()));
    assert_eq!(store.get(4), Some(Quote::empty()));
    assert_eq!(store.get(5), Some(Quote::empty()));
    assert_eq!(store.get(6), None);
    assert_eq!(get_ticker_data(&Vec::new()).unwrap().len(), 0);
}

#[test]
fn ticker_data_fails_on_the_first_unreadable_field() {
    let good = snapshot("1", Some("2.00"), Some("10"), Some("2.50"));
    let bad_bid = snapshot("2", Some("x"), Some("y"), Some("z"));
    let bad_ask = snapshot("3", Some("1"), Some("y"), Some("z"));
    let bad_size = snapshot("4", Some("1"), Some("y"), Some("2"));
    assert_eq!(read_row_quote(&good), Ok(Quote { bid: 200, ask: 250, ask_size: 10 }));
    assert_eq!(read_row_quote(&bad_bid), Err(QuoteError::FailedToParseBid));
    assert_eq!(read_row_quote(&bad_ask), Err(QuoteError::FailedToParseAsk));
    assert_eq!(read_row_quote(&bad_size), Err(QuoteError::FailedToParseAsz));
    let rows = vec![
        snapshot("1", Some("2.00"), Some("10"), Some("2.50")),
        bad_size,
        bad_bid,
    ];
    assert_eq!(get_ticker_data(&rows).err(), Some(QuoteError::FailedToParseAsz));
    // An unreadable field is an error even where the contract id is no number.
    let rows = vec![snapshot("x", Some("1"), Some("1"), Some("?"))];
    assert_eq!(get_ticker_data(&rows).err(), Some(QuoteError::FailedToParseAsk));
}

#[test]
fn strikes_are_written_with_the_decimals_they_need() {
    assert_eq!(format_strike(500_000), "5000");
    assert_eq!(format_strike(500_050), "5000.5");
    assert_eq!(format_strike(500_005), "5000.05");
    assert_eq!(format_strike(10_050), "100.5");
    assert_eq!(format_strike(10_000), "100");
    assert_eq!(format_strike(0), "0");
    assert_eq!(format_strike(7), "0.07");
    assert_eq!(format_strike(70), "0.7");
    assert_eq!(format_strike(-50), "-0.5");
    assert_eq!(format_strike(-12_345), "-123.45");
    assert_eq!(format_strike(i32::MAX), "21474836.47");
    assert_eq!(format_strike(i32::MIN), "-21474836.48");
}

#[test]
fn numbers_are_written_in_decimal() {
    let mut out = String::from("n=");
    push_number(&mut out, 0);
    out.push(' ');
    push_number(&mut out, 9);
    out.push(' ');
    push_number(&mut out, 10);
    out.push(' ');
    push_number(&mut out, 1_002_003);
    out.push(' ');
    push_number(&mut out, u64::MAX);
    assert_eq!(out, "n=0 9 10 1002003 18446744073709551615");
    for n in [0u64, 5, 10, 99, 100, 12_345, 9_007_199_254_740_993] {
        let mut text = String::new();
        push_number(&mut text, n);
        assert_eq!(parse_number(&text), Some(n));
    }
}

#[test]
fn order_legs_are_written_as_the_broker_reads_them() {
    let order = OrderBody {
        legs: vec![
            OrderLeg { conid: 654_321, ratio: -2 },
            OrderLeg { conid: 7, ratio: 1 },
            OrderLeg { conid: 0, ratio: 0 },
            OrderLeg { conid: u64::MAX, ratio: i32::MIN },
        ],
        price: 0,
        quantity: 1,
    };
    assert_eq!(
        con_idex(&order),
        "28812380;;;654321/-2,7/1,0/0,18446744073709551615/-2147483648"
    );
    let empty = OrderBody { legs: Vec::new(), price: 0, quantity: 1 };
    assert_eq!(con_idex(&empty), "28812380;;;");
}

fn search(conid: Option<&str>, sections: Option<Vec<(&str, Option<&str>)>>) -> SecDefResponse {
    SecDefResponse {
        conid: conid.map(|s| s.to_string()),
        sections: sections.map(|list| {
            list.into_iter()
                .map(|(sec_type, months)| Section {
                    sec_type: sec_type.to_string(),
                    months: months.map(|m| m.to_string()),
                })
                .collect()
        }),
    }
}

fn ticker(conid: &str, current_month: &str, next_month: &str) -> Option<TickerConid> {
    Some(TickerConid {
        conid: conid.to_string(),
        current_month: current_month.to_string(),
        next_month: next_month.to_string(),
    })
}

#[test]
fn ticker_conid_takes_the_first_two_months_of_the_option_section() {
    let results = vec![
        search(
            Some("416904"),
            Some(vec![
                ("IND", None),
                ("OPT", Some("JAN24;FEB24;MAR24")),
                ("OPT", Some("APR24;MAY24")),
            ]),
        ),
        search(Some("1"), None),
    ];
    assert_eq!(get_ticker_conid(&results), ticker("416904", "JAN24", "FEB24"));
    let two = vec![search(Some("9"), Some(vec![("OPT", Some("JAN24;FEB24"))]))];
    assert_eq!(get_ticker_conid(&two), ticker("9", "JAN24", "FEB24"));
    let odd = vec![search(Some("9"), Some(vec![("OPT", Some(";FEB24;"))]))];
    assert_eq!(get_ticker_conid(&odd), ticker("9", "", "FEB24"));
    let tail = vec![search(Some("9"), Some(vec![("OPT", Some("JAN24;"))]))];
    assert_eq!(get_ticker_conid(&tail), ticker("9", "JAN24", ""));
}

#[test]
fn ticker_conid_without_two_months_gives_empty_months() {
    let one = vec![search(Some("9"), Some(vec![("OPT", Some("JAN24"))]))];
    assert_eq!(get_ticker_conid(&one), ticker("9", "", ""));
    let none = vec![search(Some("9"), Some(vec![("OPT", None), ("OPT", Some("A;B"))]))];
    assert_eq!(get_ticker_conid(&none), ticker("9", "", ""));
    let other = vec![search(Some("9"), Some(vec![("STK", Some("A;B")), ("opt", Some("A;B"))]))];
    assert_eq!(get_ticker_conid(&other), ticker("9", "", ""));
    let bare = vec![search(Some("9"), None)];
    assert_eq!(get_ticker_conid(&bare), ticker("9", "", ""));
}

#[test]
fn ticker_conid_needs_a_contract_id() {
    assert_eq!(get_ticker_conid(&Vec::new()), None);
    assert_eq!(get_ticker_conid(&vec![search(None, Some(vec![("OPT", Some("A;B"))]))]), None);
    assert_eq!(get_ticker_conid(&vec![search(Some(""), Some(vec![("OPT", Some("A;B"))]))]), None);
    assert_eq!(get_ticker_conid(&vec![search(None, None), search(Some("5"), None)]), None);
}

#[test]
fn session_runs_from_half_past_nine_to_half_past_three() {
    assert!(market_is_open(0, 34_200, 0));
    assert!(!market_is_open(0, 34_199, 999_999_999));
    assert!(market_is_open(4, 55_799, 999_999_999));
    assert!(market_is_open(4, 55_800, 0));
    assert!(!market_is_open(4, 55_800, 1));
    assert!(!market_is_open(4, 55_801, 0));
    assert!(!market_is_open(5, 40_000, 0));
    assert!(!market_is_open(6, 40_000, 0));
    assert!(market_is_open(2, 40_000, 0));
}

#[test]
fn market_hours_follow_the_clock_of_new_york() {
    let tuesday: i64 = 1_704_153_600; // 2 January 2024, midnight UTC; New York is five hours behind.
    assert!(!is_us_stock_market_open(tuesday + 14 * 3600 + 29 * 60 + 59, 0));
    assert!(is_us_stock_market_open(tuesday + 14 * 3600 + 30 * 60, 0));
    assert!(is_us_stock_market_open(tuesday + 20 * 3600 + 30 * 60, 0));
    assert!(!is_us_stock_market_open(tuesday + 20 * 3600 + 30 * 60, 1));
    assert!(!is_us_stock_market_open(tuesday + 20 * 3600 + 30 * 60 + 1, 0));
    assert!(!is_us_stock_market_open(tuesday, 0));
    let saturday: i64 = tuesday + 4 * 86_400;
    assert!(!is_us_stock_market_open(saturday + 15 * 3600, 0));
    let sunday: i64 = tuesday + 5 * 86_400;
    assert!(!is_us_stock_market_open(sunday + 15 * 3600, 0));
    // In summer New York is four hours behind.
    let monday_in_july: i64 = 1_719_792_000;
    assert!(is_us_stock_market_open(monday_in_july + 13 * 3600 + 30 * 60, 0));
    assert!(!is_us_stock_market_open(monday_in_july + 13 * 3600 + 29 * 60, 0));
    assert!(is_us_stock_market_open(monday_in_july + 19 * 3600 + 30 * 60, 0));
    assert!(!is_us_stock_market_open(monday_in_july + 19 * 3600 + 31 * 60, 0));
    assert!(!is_us_stock_market_open(i64::MAX, 0));
    assert!(!is_us_stock_market_open(i64::MIN, 0));
    assert!(!is_us_stock_market_open(tuesday + 15 * 3600, 2_000_000_000));
}

fn day(text: &str) -> Expiration {
    Expiration::parse(text).unwrap()
}

#[test]
fn symbol_codes_are_decoded_exactly() {
    assert_eq!(
        parse_symbol("SPXW_240119C05000000"),
        Some(ContractKey {
            expiration: day("240119"),
            contract_type: ContractType::Call,
            strike: 500_000,
        })
    );
    assert_eq!(
        parse_symbol("SPXW_240119P04912500_x"),
        Some(ContractKey {
            expiration: day("240119"),
            contract_type: ContractType::Put,
            strike: 491_250,
        })
    );
    assert_eq!(
        parse_symbol("_240119P00000005"),
        Some(ContractKey { expiration: day("240119"), contract_type: ContractType::Put, strike: 1 })
    );
    assert_eq!(
        parse_symbol("R_240119P0004"),
        Some(ContractKey { expiration: day("240119"), contract_type: ContractType::Put, strike: 0 })
    );
    assert_eq!(parse_symbol("SPXW240119C05000000"), None);
    assert_eq!(parse_symbol("SPXW_240119C050"), None);
    assert_eq!(parse_symbol("SPXW_240119X05000000"), None);
    assert_eq!(parse_symbol("SPXW_240230C05000000"), None);
    assert_eq!(parse_symbol("SPXW_240119C0500000A"), None);
    assert_eq!(parse_symbol("SPXW_240119C0500A000"), None);
    assert_eq!(parse_symbol("SPXW_240119C99999999999"), None);
    assert_eq!(parse_symbol("SPXW_240119C21474836470"), Some(ContractKey {
        expiration: day("240119"),
        contract_type: ContractType::Call,
        strike: i32::MAX,
    }));
    assert_eq!(parse_symbol("SPXW_240119C21474836475"), None);
    assert_eq!(parse_symbol(""), None);
    assert_eq!(parse_symbol("_"), None);
}

fn chain_row(status: &str, symbol: &str, bid: &str, ask: &str, ask_size: &str) -> ChainRow {
    ChainRow {
        status: status.to_string(),
        symbol: symbol.to_string(),
        bid: bid.to_string(),
        ask: ask.to_string(),
        ask_size: ask_size.to_string(),
    }
}

#[test]
fn chain_rows_that_cannot_be_read_are_passed_over() {
    let rows = vec![
        chain_row("ok", "SPXW_240119C05000000", "2.00", "2.50", "10"),
        chain_row("error", "SPXW_240119C05005000", "2.00", "2.50", "10"),
        chain_row("ok", "SPXW_240119C050", "2.00", "2.50", "10"),
        chain_row("ok", "SPXW_240119P05000000", "two", "2.50", "10"),
        chain_row("ok", "SPXW_240119P05000000", "2.00", "", "10"),
        chain_row("ok", "SPXW_240119P05000000", "2.00", "2.50", "ten"),
        chain_row("ok", "SPXW_240119P05000000", "0.50", "1.00", "7"),
    ];
    let call = ContractKey {
        expiration: day("240119"),
        contract_type: ContractType::Call,
        strike: 500_000,
    };
    let put = ContractKey { contract_type: ContractType::Put, ..call };
    assert_eq!(
        get_spx_data(&rows),
        vec![
            ChainQuote { key: call, quote: Quote { bid: 200, ask: 250, ask_size: 10 } },
            ChainQuote { key: put, quote: Quote { bid: 50, ask: 100, ask_size: 7 } },
        ]
    );
    assert_eq!(get_spx_data(&Vec::new()), Vec::new());
}
