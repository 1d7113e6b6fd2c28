use receipt_processor::receipt::{Item, Receipt};
use receipt_processor::money::parse_cents;
use receipt_processor::score::{
    afternoon_points, item_points, items_points, odd_day_points, pair_points, quarter_points,
    retailer_points, round_dollar_points, score, threshold_points,
};

fn item(desc: &str, price: &str) -> Item {
    Item { short_description: desc.to_string(), price: price.to_string() }
}

fn receipt(
    retailer: &str,
    date: &str,
    time: &str,
    items: Vec<Item>,
    total: &str,
) -> Receipt {
    Receipt {
        retailer: retailer.to_string(),
        purchase_date: date.to_string(),
        purchase_time: time.to_string(),
        items,
        total: total.to_string(),
    }
}

fn scenario_a() -> Receipt {
    receipt(
        "Target",
        "2022-01-01",
        "13:01",
        vec![
            item("Mountain Dew 12PK", "6.49"),
            item("Emils Cheese Pizza", "12.25"),
            item("Knorr Creamy Chicken", "1.26"),
            item("Doritos Nacho Cheese", "3.35"),
            item("   Klarbrunn 12-PK 12 FL OZ  ", "12.00"),
        ],
        "35.35",
    )
}

#[test]
fn scenario_a_rule_by_rule() {
    let r = scenario_a();
    assert_eq!(retailer_points("Target"), 6);
    assert_eq!(round_dollar_points("35.35"), 0);
    assert_eq!(quarter_points("35.35"), 0);
    assert_eq!(pair_points(5), 10);
    assert_eq!(item_points(&item("Mountain Dew 12PK", "6.49")), 0);
    assert_eq!(item_points(&item("Emils Cheese Pizza", "12.25")), 3);
    assert_eq!(item_points(&item("Knorr Creamy Chicken", "1.26")), 0);
    assert_eq!(item_points(&item("Doritos Nacho Cheese", "3.35")), 0);
    assert_eq!(item_points(&item("   Klarbrunn 12-PK 12 FL OZ  ", "12.00")), 3);
    assert_eq!(items_points(&r.items), 6);
    assert_eq!(threshold_points("35.35"), 5);
    assert_eq!(odd_day_points("2022-01-01"), 6);
    assert_eq!(afternoon_points("13:01"), 0);
    // 6 + 10 + 6 + 5 + 6: every other rule contributes nothing.
    assert_eq!(score(&r), 33);
}

#[test]
fn scenario_b_total() {
    let r = receipt(
        "M&M Corner Market",
        "2022-03-20",
        "14:33",
        vec![
            item("Gatorade", "2.25"),
            item("Gatorade", "2.25"),
            item("Gatorade", "2.25"),
            item("Gatorade", "2.25"),
        ],
        "9.00",
    );
    assert_eq!(retailer_points("M&M Corner Market"), 14);
    assert_eq!(round_dollar_points("9.00"), 50);
    assert_eq!(quarter_points("9.00"), 25);
    assert_eq!(pair_points(4), 10);
    assert_eq!(items_points(&r.items), 0);
    assert_eq!(threshold_points("9.00"), 0);
    assert_eq!(odd_day_points("2022-03-20"), 0);
    assert_eq!(afternoon_points("14:33"), 10);
    assert_eq!(score(&r), 109);
}

#[test]
fn ceiling_not_rounding() {
    // 6.49 dollars with a qualifying description: a fifth is 1.298, and the
    // contribution is its ceiling 2, not the rounded 1.
    assert_eq!(item_points(&item("abc", "6.49")), 2);
    assert_eq!(item_points(&item("abcdef", "12.25")), 3);
    // An exact multiple stays exact: a fifth of 10.00 is 2.00.
    assert_eq!(item_points(&item("abc", "10.00")), 2);
}

#[test]
fn money_parsing_exact() {
    assert_eq!(parse_cents("35.35"), Some(3535));
    assert_eq!(parse_cents("9.00"), Some(900));
    assert_eq!(parse_cents("10.00"), Some(1000));
    assert_eq!(parse_cents("0.01"), Some(1));
    assert_eq!(parse_cents("6.49"), Some(649));
}

#[test]
fn money_parsing_rejects() {
    assert_eq!(parse_cents(""), None);
    assert_eq!(parse_cents("9"), None);
    assert_eq!(parse_cents("9.0"), None);
    assert_eq!(parse_cents("9.000"), None);
    assert_eq!(parse_cents(".00"), None);
    assert_eq!(parse_cents("-1.00"), None);
    assert_eq!(parse_cents("1x.00"), None);
    assert_eq!(parse_cents("1.0x"), None);
    assert_eq!(parse_cents("99999999999999999999999999.99"), None);
}

#[test]
fn round_dollar_rule() {
    assert_eq!(round_dollar_points("9.00"), 50);
    assert_eq!(round_dollar_points("9.01"), 0);
    assert_eq!(round_dollar_points(".00"), 50);
    assert_eq!(round_dollar_points("00"), 0);
}

#[test]
fn quarter_rule() {
    assert_eq!(quarter_points("9.25"), 25);
    assert_eq!(quarter_points("9.50"), 25);
    assert_eq!(quarter_points("9.75"), 25);
    assert_eq!(quarter_points("9.26"), 0);
    assert_eq!(quarter_points("not money"), 0);
}

#[test]
fn pair_rule() {
    assert_eq!(pair_points(0), 0);
    assert_eq!(pair_points(1), 0);
    assert_eq!(pair_points(2), 5);
    assert_eq!(pair_points(3), 5);
    assert_eq!(pair_points(8), 20);
}

#[test]
fn threshold_rule_is_strict() {
    assert_eq!(threshold_points("10.00"), 0);
    assert_eq!(threshold_points("10.01"), 5);
    assert_eq!(threshold_points("gibberish"), 0);
}

#[test]
fn odd_day_rule() {
    assert_eq!(odd_day_points("2022-01-01"), 6);
    assert_eq!(odd_day_points("2022-01-02"), 0);
    assert_eq!(odd_day_points("2022-01-31"), 6);
    assert_eq!(odd_day_points("not-a-date"), 0);
    // An impossible calendar date does not parse and scores nothing.
    assert_eq!(odd_day_points("2022-02-31"), 0);
}

#[test]
fn afternoon_window_is_exclusive() {
    assert_eq!(afternoon_points("14:00"), 0);
    assert_eq!(afternoon_points("14:01"), 10);
    assert_eq!(afternoon_points("15:59"), 10);
    assert_eq!(afternoon_points("16:00"), 0);
    assert_eq!(afternoon_points("13:01"), 0);
    assert_eq!(afternoon_points("25:00"), 0);
    assert_eq!(afternoon_points("noonish"), 0);
}

#[test]
fn retailer_rule_counts_alphanumerics() {
    assert_eq!(retailer_points("Target"), 6);
    assert_eq!(retailer_points("M&M Corner Market"), 14);
    assert_eq!(retailer_points("   "), 0);
    assert_eq!(retailer_points("&&&---"), 0);
    assert_eq!(retailer_points(""), 0);
}

#[test]
fn description_is_trimmed_before_measuring() {
    // Untrimmed length 4 but trimmed length 3: the rule must fire.
    assert_eq!(item_points(&item(" abc", "6.49")), 2);
    // Untrimmed length 6 is a multiple of 3, trimmed length 4 is not:
    // the rule must not fire.
    assert_eq!(item_points(&item(" abcd ", "6.49")), 0);
    // Whitespace-only descriptions trim to nothing and never fire.
    assert_eq!(item_points(&item("      ", "6.49")), 0);
    // A price that does not parse contributes nothing.
    assert_eq!(item_points(&item("abc", "cheap")), 0);
}

#[test]
fn unparseable_fields_only_silence_their_own_rules() {
    let r = receipt(
        "Shop42",
        "eventually",
        "later",
        vec![item("abc", "6.49"), item("x", "1.00")],
        "not a number",
    );
    // Retailer 6, one pair 5, one qualifying description 2; the total,
    // date and time rules all fail to parse and add nothing.
    assert_eq!(score(&r), 13);
}

#[test]
fn empty_receipt_scores_zero() {
    let r = receipt("", "", "", vec![], "");
    assert_eq!(score(&r), 0);
}
