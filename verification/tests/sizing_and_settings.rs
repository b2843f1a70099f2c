use options_arb::cycle::{plan_cycle, should_poll, CyclePlan, StopReason};
use options_arb::select::{OptionType, Selection};
use options_arb::settings::{
    get_arb_value, get_discount_value, get_fill_type, get_mode, get_num_days,
    get_num_days_offset, get_option, get_seconds_to_sleep, get_strike_dif_value, get_ticker,
    read_discount_value, read_mode, read_num_days, read_num_days_offset, read_seconds_to_sleep,
    Question, Setting,
};
use options_arb::sizing::{calc_final_num_orders, get_optimal_num_orders};

#[test]
fn test_calc_final_num_orders() {
    assert_eq!(calc_final_num_orders("1", 99_900), (0, 0));

    assert_eq!(calc_final_num_orders("1", 100_000), (1, 1));
    assert_eq!(calc_final_num_orders("1", 200_000), (1, 1));

    assert_eq!(calc_final_num_orders("2", 100_000), (1, 1));
    assert_eq!(calc_final_num_orders("2", 200_000), (1, 2));

    assert_eq!(calc_final_num_orders("3", 100_000), (1, 1));
    assert_eq!(calc_final_num_orders("3", 200_000), (2, 1));
}

#[test]
fn final_num_orders_edges() {
    assert_eq!(calc_final_num_orders("2", 99_999), (0, 0));
    assert_eq!(calc_final_num_orders("DEFAULT", 0), (0, 0));
    assert_eq!(calc_final_num_orders("3", -500_000), (0, 0));
    assert_eq!(calc_final_num_orders("3", i64::MIN), (0, 0));
    assert_eq!(calc_final_num_orders("2", 900_000), (1, 9));
    assert_eq!(calc_final_num_orders("2", 1_000_000), (1, 9));
    assert_eq!(calc_final_num_orders("2", 10_000_000_000), (1, 9));
    assert_eq!(calc_final_num_orders("3", 10_000_000), (100, 1));
    assert_eq!(calc_final_num_orders("3", i64::MAX), (i32::MAX, 1));
    assert_eq!(calc_final_num_orders("11", 2_500_000), (5, 5));
    assert_eq!(calc_final_num_orders("", 2_500_000), (5, 5));
}

#[test]
fn optimal_num_orders_balances() {
    assert_eq!(get_optimal_num_orders(0), (0, 0));
    assert_eq!(get_optimal_num_orders(1), (1, 1));
    assert_eq!(get_optimal_num_orders(3), (1, 1));
    assert_eq!(get_optimal_num_orders(4), (2, 2));
    assert_eq!(get_optimal_num_orders(80), (8, 8));
    assert_eq!(get_optimal_num_orders(81), (9, 9));
    assert_eq!(get_optimal_num_orders(99), (9, 9));
    assert_eq!(get_optimal_num_orders(100), (11, 9));
    assert_eq!(get_optimal_num_orders(125), (13, 9));
    assert_eq!(get_optimal_num_orders(i64::MAX), (i32::MAX, 9));
    assert_eq!(calc_final_num_orders("DEFAULT", 10_000_000), (11, 9));
    assert_eq!(calc_final_num_orders("DEFAULT", 100_000), (1, 1));
}

#[test]
fn option_type_reads_the_choice() {
    assert_eq!(OptionType::from_str("1"), Some(OptionType::Calendar));
    assert_eq!(OptionType::from_str("2"), Some(OptionType::Butterfly));
    assert_eq!(OptionType::from_str("3"), Some(OptionType::BoxSpread));
    assert_eq!(OptionType::from_str("DEFAULT"), Some(OptionType::All));
    assert_eq!(OptionType::from_str(""), Some(OptionType::All));
    assert_eq!(OptionType::from_str("12"), Some(OptionType::All));
    assert_eq!(OptionType::from_str("4"), Some(OptionType::All));
    assert_eq!(
        OptionType::Calendar.selection(),
        Selection { calendar: true, butterfly: false, boxspread: false }
    );
    assert_eq!(
        OptionType::Butterfly.selection(),
        Selection { calendar: false, butterfly: true, boxspread: false }
    );
    assert_eq!(
        OptionType::BoxSpread.selection(),
        Selection { calendar: false, butterfly: false, boxspread: true }
    );
    assert_eq!(
        OptionType::All.selection(),
        Selection { calendar: true, butterfly: true, boxspread: true }
    );
}

#[test]
fn text_settings_pass_through_or_ask() {
    assert_eq!(get_option(Some("2".to_string())), Setting::Value("2".to_string()));
    assert_eq!(get_option(None), Setting::Ask(Question::Strategy));
    assert_eq!(get_fill_type(Some("DEFAULT".to_string())), Setting::Value("DEFAULT".to_string()));
    assert_eq!(get_fill_type(None), Setting::Ask(Question::FillType));
    assert_eq!(get_ticker(Some("SPX".to_string())), Setting::Value("SPX".to_string()));
    assert_eq!(get_ticker(None), Setting::Ask(Question::Ticker));
}

#[test]
fn mode_is_production_unless_yes() {
    assert_eq!(get_mode(Some("yes".to_string())), Setting::Value(false));
    assert_eq!(get_mode(Some("Y".to_string())), Setting::Value(false));
    assert_eq!(get_mode(Some("YeS".to_string())), Setting::Value(false));
    assert_eq!(get_mode(Some("no".to_string())), Setting::Value(true));
    assert_eq!(get_mode(Some("".to_string())), Setting::Value(true));
    assert_eq!(get_mode(Some("yes ".to_string())), Setting::Value(true));
    assert_eq!(get_mode(Some("ye".to_string())), Setting::Value(true));
    assert_eq!(get_mode(None), Setting::Ask(Question::TestMode));
    assert!(!read_mode("y"));
    assert!(!read_mode("YES"));
    assert!(read_mode("n"));
    assert!(read_mode("yep"));
    assert!(read_mode("yés"));
}

#[test]
fn arb_value_has_a_floor() {
    assert_eq!(get_arb_value(Some("0.25".to_string())), 25);
    assert_eq!(get_arb_value(Some("0.10".to_string())), 10);
    assert_eq!(get_arb_value(Some("0.09".to_string())), 10);
    assert_eq!(get_arb_value(Some("-3".to_string())), 10);
    assert_eq!(get_arb_value(Some("abc".to_string())), 10);
    assert_eq!(get_arb_value(Some("1".to_string())), 100);
    assert_eq!(get_arb_value(None), 10);
}

#[test]
fn strike_dif_defaults_to_five_points() {
    assert_eq!(get_strike_dif_value(Some("5.0".to_string())), 500);
    assert_eq!(get_strike_dif_value(Some("2.5".to_string())), 250);
    assert_eq!(get_strike_dif_value(Some("0".to_string())), 0);
    assert_eq!(get_strike_dif_value(Some("-1".to_string())), 500);
    assert_eq!(get_strike_dif_value(Some("five".to_string())), 500);
    assert_eq!(get_strike_dif_value(Some("99999999999".to_string())), 500);
    assert_eq!(get_strike_dif_value(None), 500);
}

#[test]
fn seconds_to_sleep_are_at_least_five() {
    assert_eq!(get_seconds_to_sleep(Some("30".to_string())), Setting::Value(30));
    assert_eq!(get_seconds_to_sleep(Some("5".to_string())), Setting::Value(5));
    assert_eq!(get_seconds_to_sleep(Some("4".to_string())), Setting::Value(60));
    assert_eq!(get_seconds_to_sleep(Some("-30".to_string())), Setting::Value(60));
    assert_eq!(get_seconds_to_sleep(Some("1.5".to_string())), Setting::Value(60));
    assert_eq!(get_seconds_to_sleep(None), Setting::Ask(Question::SecondsToSleep));
    assert_eq!(read_seconds_to_sleep("+7"), 7);
    assert_eq!(read_seconds_to_sleep(""), 60);
    assert_eq!(read_seconds_to_sleep("120"), 120);
}

#[test]
fn discount_stays_within_fifteen_cents() {
    assert_eq!(get_discount_value(Some("0.05".to_string())), Setting::Value(5));
    assert_eq!(get_discount_value(Some("-0.15".to_string())), Setting::Value(-15));
    assert_eq!(get_discount_value(Some("0.15".to_string())), Setting::Value(15));
    assert_eq!(get_discount_value(Some("0.16".to_string())), Setting::Value(0));
    assert_eq!(get_discount_value(Some("-0.2".to_string())), Setting::Value(0));
    assert_eq!(get_discount_value(Some("x".to_string())), Setting::Value(0));
    assert_eq!(get_discount_value(None), Setting::Ask(Question::DiscountValue));
    assert_eq!(read_discount_value(".1"), 10);
    assert_eq!(read_discount_value("0"), 0);
}

#[test]
fn day_counts_stay_in_range() {
    assert_eq!(get_num_days(Some("3".to_string())), Setting::Value(3));
    assert_eq!(get_num_days(Some("9".to_string())), Setting::Value(9));
    assert_eq!(get_num_days(Some("10".to_string())), Setting::Value(5));
    assert_eq!(get_num_days(Some("0".to_string())), Setting::Value(5));
    assert_eq!(get_num_days(Some("two".to_string())), Setting::Value(5));
    assert_eq!(get_num_days(None), Setting::Ask(Question::NumDays));
    assert_eq!(read_num_days("1"), 1);
    assert_eq!(get_num_days_offset(Some("0".to_string())), Setting::Value(0));
    assert_eq!(get_num_days_offset(Some("21".to_string())), Setting::Value(21));
    assert_eq!(get_num_days_offset(Some("22".to_string())), Setting::Value(0));
    assert_eq!(get_num_days_offset(Some("-1".to_string())), Setting::Value(0));
    assert_eq!(get_num_days_offset(None), Setting::Ask(Question::NumDaysOffset));
    assert_eq!(read_num_days_offset("7"), 7);
    assert_eq!(read_num_days_offset("7 "), 0);
}

#[test]
fn cycle_plan_follows_mode_market_and_equity() {
    assert!(should_poll(false, false));
    assert!(should_poll(false, true));
    assert!(should_poll(true, true));
    assert!(!should_poll(true, false));
    assert_eq!(plan_cycle(true, false, 5), CyclePlan::Stop(StopReason::MarketClosed));
    assert_eq!(plan_cycle(true, false, 0), CyclePlan::Stop(StopReason::MarketClosed));
    assert_eq!(plan_cycle(true, true, 0), CyclePlan::Stop(StopReason::NotEnoughEquity));
    assert_eq!(plan_cycle(false, false, -1), CyclePlan::Stop(StopReason::NotEnoughEquity));
    assert_eq!(plan_cycle(true, true, 1), CyclePlan::Run { trade: true });
    assert_eq!(plan_cycle(false, false, 3), CyclePlan::Run { trade: false });
    assert_eq!(plan_cycle(false, true, i32::MAX), CyclePlan::Run { trade: false });
}
