use rate_tray::decimal::{satoshis_per_unit, two_places_chars, Decimal};
use rate_tray::fetch::{
    satoshi_provider_enabled, bcv_rate_from_html, bcv_rate_from_text, binance_rate, binance_request_payload, satoshi_rate,
    satoshi_rate_from_text, BinanceAdv, BinanceAdvContainer, BinanceResponse, FetchError,
};
use rate_tray::text::{normalize_locale_number, parse_decimal, parse_locale_decimal, same_text};

fn dec(negative: bool, digits: u64, scale: u32) -> Decimal {
    Decimal { negative, digits, scale }
}

fn shown(d: Decimal) -> String {
    two_places_chars(d).into_iter().collect()
}

#[test]
fn locale_number_normalizes_to_canonical_form() {
    assert_eq!(normalize_locale_number("103.456,78"), "103456.78");
    assert_eq!(parse_locale_decimal("103.456,78"), Some(dec(false, 10345678, 2)));
}

#[test]
fn locale_number_ignores_surrounding_white_space() {
    assert_eq!(parse_locale_decimal("  36,5\n\t"), Some(dec(false, 365, 1)));
    assert_eq!(parse_locale_decimal("\u{a0}1.000,00 "), Some(dec(false, 100000, 2)));
}

#[test]
fn locale_number_keeps_inner_characters() {
    assert_eq!(normalize_locale_number("1.2,3,4"), "12.3.4");
    assert_eq!(parse_locale_decimal("1.2,3,4"), None);
    assert_eq!(normalize_locale_number(""), "");
}

#[test]
fn plain_numbers_parse_exactly() {
    assert_eq!(parse_decimal("108.20"), Some(dec(false, 10820, 2)));
    assert_eq!(parse_decimal("5."), Some(dec(false, 5, 0)));
    assert_eq!(parse_decimal(".25"), Some(dec(false, 25, 2)));
    assert_eq!(parse_decimal("-3"), Some(dec(true, 3, 0)));
    assert_eq!(parse_decimal("+0.5"), Some(dec(false, 5, 1)));
    assert_eq!(parse_decimal("007"), Some(dec(false, 7, 0)));
}

#[test]
fn malformed_numbers_are_rejected() {
    for text in ["", ".", "-", "+.", "1.2.3", "1e5", "abc", "12a", " 1", "1,5", "--1", "inf"] {
        assert_eq!(parse_decimal(text), None, "{text}");
    }
}

#[test]
fn numbers_beyond_the_limits_are_rejected() {
    assert_eq!(parse_decimal("18446744073709551615"), Some(dec(false, u64::MAX, 0)));
    assert_eq!(parse_decimal("18446744073709551616"), None);
    assert_eq!(parse_decimal("0.000000000000000001"), Some(dec(false, 1, 18)));
    assert_eq!(parse_decimal("0.0000000000000000001"), None);
}

#[test]
fn two_places_rounds_ties_to_even() {
    assert_eq!(shown(dec(false, 1035, 1)), "103.50");
    assert_eq!(shown(dec(false, 10820, 2)), "108.20");
    assert_eq!(shown(dec(false, 125, 3)), "0.12");
    assert_eq!(shown(dec(false, 135, 3)), "0.14");
    assert_eq!(shown(dec(false, 115, 3)), "0.12");
    assert_eq!(shown(dec(false, 1251, 4)), "0.13");
    assert_eq!(shown(dec(false, 124, 3)), "0.12");
    assert_eq!(shown(dec(true, 125, 3)), "-0.12");
    assert_eq!(shown(dec(false, 0, 0)), "0.00");
    assert_eq!(shown(dec(true, 25, 2)), "-0.25");
    assert_eq!(shown(dec(false, 7, 0)), "7.00");
    assert_eq!(shown(dec(false, 10345678, 2)), "103456.78");
    assert_eq!(shown(dec(false, 199999, 5)), "2.00");
}

#[test]
fn two_places_handles_any_scale() {
    assert_eq!(shown(dec(false, u64::MAX, 0)), "18446744073709551615.00");
    assert_eq!(shown(dec(false, 5, 30)), "0.00");
    assert_eq!(shown(dec(false, u64::MAX, 20)), "0.18");
    assert_eq!(shown(dec(false, u64::MAX, 40)), "0.00");
}

#[test]
fn satoshis_per_dollar_from_bitcoin_price() {
    assert_eq!(satoshis_per_unit(dec(false, 50000, 0)), Some(dec(false, 200000000000, 8)));
    assert_eq!(satoshi_rate(dec(false, 3, 0)), Ok(dec(false, 3333333333333333, 8)));
    assert_eq!(satoshi_rate(dec(false, 0, 2)), Err(FetchError::InvalidPrice));
    assert_eq!(satoshi_rate_from_text("100000"), Ok(dec(false, 100000000000, 8)));
    assert_eq!(satoshi_rate_from_text("n/a"), Err(FetchError::BadNumber));
}

#[test]
fn satoshi_rate_of_a_tiny_price_is_out_of_range() {
    assert_eq!(satoshi_rate(dec(false, 1, 18)), Err(FetchError::InvalidPrice));
}

#[test]
fn official_rate_from_node_text() {
    assert_eq!(bcv_rate_from_text(Some(" 103.456,78 ")), Ok(dec(false, 10345678, 2)));
    assert_eq!(bcv_rate_from_text(Some("sin dato")), Err(FetchError::BadNumber));
    assert_eq!(bcv_rate_from_text(None), Err(FetchError::NodeNotFound));
}

fn wrap(tag: &str, nth: usize, inner: &str) -> String {
    let mut s = String::new();
    for _ in 1..nth {
        s.push_str(&format!("<{tag}></{tag}>"));
    }
    s.push_str(&format!("<{tag}>{inner}</{tag}>"));
    s
}

fn bank_page(rate_text: &str) -> String {
    let path: [(&str, usize); 14] = [
        ("div", 4),
        ("div", 1),
        ("div", 2),
        ("div", 1),
        ("div", 1),
        ("div", 1),
        ("section", 1),
        ("div", 1),
        ("div", 2),
        ("div", 1),
        ("div", 7),
        ("div", 1),
        ("div", 1),
        ("div", 2),
    ];
    let mut inner = format!("<strong> {rate_text} </strong>");
    for (tag, nth) in path.iter().rev() {
        inner = wrap(tag, *nth, &inner);
    }
    format!("<html><head></head><body>{inner}</body></html>")
}

#[test]
fn official_rate_from_the_bank_page() {
    let page = bank_page("36,50210000");
    assert_eq!(bcv_rate_from_html(&page), Ok(dec(false, 3650210000, 8)));
}

#[test]
fn bank_page_without_the_node() {
    assert_eq!(
        bcv_rate_from_html("<html><body><strong>36,5</strong></body></html>"),
        Err(FetchError::NodeNotFound)
    );
}

fn offer(price: &str) -> BinanceAdvContainer {
    BinanceAdvContainer { adv: BinanceAdv { price: price.to_string() } }
}

#[test]
fn p2p_rate_is_the_first_offer() {
    let resp = BinanceResponse {
        code: "000000".to_string(),
        data: Some(vec![offer("108.20"), offer("110.00")]),
        success: true,
    };
    assert_eq!(binance_rate(&resp), Ok(dec(false, 10820, 2)));
}

#[test]
fn p2p_reply_errors() {
    let failed = BinanceResponse { code: "000000".to_string(), data: None, success: false };
    assert_eq!(binance_rate(&failed), Err(FetchError::Rejected));
    let wrong_code =
        BinanceResponse { code: "100001".to_string(), data: Some(vec![offer("1")]), success: true };
    assert_eq!(binance_rate(&wrong_code), Err(FetchError::Rejected));
    let missing = BinanceResponse { code: "000000".to_string(), data: None, success: true };
    assert_eq!(binance_rate(&missing), Err(FetchError::NoOffers));
    let empty = BinanceResponse { code: "000000".to_string(), data: Some(vec![]), success: true };
    assert_eq!(binance_rate(&empty), Err(FetchError::NoOffers));
    let bad =
        BinanceResponse { code: "000000".to_string(), data: Some(vec![offer("1,5")]), success: true };
    assert_eq!(binance_rate(&bad), Err(FetchError::BadNumber));
}

#[test]
fn p2p_search_payload() {
    let p = binance_request_payload();
    assert_eq!(p.asset, "USDT");
    assert_eq!(p.fiat, "VES");
    assert!(!p.merchant_check);
    assert_eq!(p.page, 1);
    assert_eq!(p.pay_types, vec!["PagoMovil".to_string()]);
    assert_eq!(p.publisher_type, None);
    assert_eq!(p.rows, 1);
    assert_eq!(p.trade_type, "SELL");
}

#[test]
fn texts_compare_by_characters() {
    assert!(same_text("bcv", "bcv"));
    assert!(!same_text("bcv", "bcx"));
    assert!(!same_text("bcv", "bc"));
    assert!(same_text("", ""));
}

#[test]
fn white_space_is_the_unicode_set() {
    assert_eq!(parse_locale_decimal("\u{3000}12,5\u{2028}"), Some(dec(false, 125, 1)));
    assert_eq!(parse_locale_decimal("\u{85}\u{2009}7\u{202f}"), Some(dec(false, 7, 0)));
    assert_eq!(parse_locale_decimal("\u{200b}7"), None);
    assert_eq!(parse_locale_decimal("\u{feff}7"), None);
}

#[test]
fn market_data_needs_a_key() {
    assert!(satoshi_provider_enabled("SECRET-REDACTED"));
    assert!(!satoshi_provider_enabled(""));
}
