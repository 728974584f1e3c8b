use rate_tray::compositor::{
    currency_mappings, fallback_width, fetch_rates, plan_composite, scaled_icon_width,
    segment_text, tooltip, wants_icon, CompositePlan, CurrencyMapping, RateInfo, SegmentMetrics,
    SlotPlacement, ICON_HEIGHT, PADDING,
};
use rate_tray::decimal::Decimal;
use rate_tray::store::RateStore;

fn dec(digits: u64, scale: u32) -> Decimal {
    Decimal { negative: false, digits, scale }
}

fn mapping(label: &str, symbol: &str) -> CurrencyMapping {
    CurrencyMapping {
        label: label.to_string(),
        icon_asset: format!("{symbol}.png"),
        symbol: symbol.to_string(),
    }
}

fn scenario_store() -> RateStore {
    let mut store = RateStore::new();
    store.upsert("bcv".to_string(), dec(10350, 2), "t".to_string());
    store.upsert("binance".to_string(), dec(10820, 2), "t".to_string());
    store
}

fn scenario_mappings() -> Vec<CurrencyMapping> {
    vec![mapping("BCV", "bcv"), mapping("BIN", "binance"), mapping("SAT", "satoshi")]
}

fn metrics(icon_width: Option<u32>, text_width: u32) -> SegmentMetrics {
    SegmentMetrics { icon_width, text_width }
}

#[test]
fn configured_mappings() {
    let m = currency_mappings();
    let rows: Vec<(String, String, String)> =
        m.into_iter().map(|c| (c.label, c.icon_asset, c.symbol)).collect();
    assert_eq!(
        rows,
        vec![
            ("BCV".to_string(), "ved.png".to_string(), "bcv".to_string()),
            ("BIN".to_string(), "binance.png".to_string(), "binance".to_string()),
            ("SAT".to_string(), "satoshi.png".to_string(), "satoshi".to_string()),
        ]
    );
}

#[test]
fn missing_quote_shows_zero_without_icon() {
    let rates = fetch_rates(&scenario_store(), &scenario_mappings());
    assert_eq!(rates.len(), 3);
    assert_eq!(rates[2].currency, "SAT");
    assert_eq!(rates[2].rate, Decimal::zero());
    assert!(rates[2].degraded);
    assert_eq!(rates[2].icon_asset_path, "satoshi.png");
    assert!(!rates[0].degraded);
    let ms = vec![metrics(Some(16), 40), metrics(Some(16), 40), metrics(Some(16), 32)];
    match plan_composite(&rates, &ms) {
        CompositePlan::Composite { slots, .. } => {
            assert_eq!(slots.len(), 3);
            assert_eq!(slots[2].icon_x, None);
            assert!(slots[2].text_x.is_some());
        }
        other => panic!("expected a composite, got {other:?}"),
    }
}

#[test]
fn three_rates_scenario() {
    let rates = fetch_rates(&scenario_store(), &scenario_mappings());
    assert_eq!(tooltip(&rates), "BCV: 103.50 | BIN: 108.20 | SAT: 0.00");
    let ms = vec![metrics(Some(16), 48), metrics(Some(20), 48), metrics(Some(16), 40)];
    let seg0 = 16 + PADDING + 48;
    let seg1 = 20 + PADDING + 48;
    let seg2 = ICON_HEIGHT / 2 + PADDING + 40;
    match plan_composite(&rates, &ms) {
        CompositePlan::Composite { width, height, slots, tooltip } => {
            assert_eq!(width, seg0 + seg1 + seg2 + 2 * PADDING);
            assert_eq!(width, 200);
            assert_eq!(height, ICON_HEIGHT);
            assert_eq!(tooltip, "BCV: 103.50 | BIN: 108.20 | SAT: 0.00");
            assert_eq!(
                slots,
                vec![
                    SlotPlacement { icon_x: Some(0), text_x: Some(20), text_width: 48 },
                    SlotPlacement { icon_x: Some(72), text_x: Some(96), text_width: 48 },
                    SlotPlacement { icon_x: None, text_x: Some(160), text_width: 40 },
                ]
            );
        }
        other => panic!("expected a composite, got {other:?}"),
    }
}

#[test]
fn all_degraded_falls_back() {
    let rates = fetch_rates(&RateStore::new(), &scenario_mappings());
    assert!(rates.iter().all(|r| r.degraded));
    let ms = vec![metrics(Some(16), 40); 3];
    match plan_composite(&rates, &ms) {
        CompositePlan::Fallback { icon_text, tooltip } => {
            assert_eq!(icon_text, "No Data");
            assert_eq!(tooltip, "No data");
        }
        other => panic!("expected the fallback, got {other:?}"),
    }
}

#[test]
fn no_rates_falls_back() {
    let plan = plan_composite(&vec![], &vec![]);
    assert!(matches!(plan, CompositePlan::Fallback { .. }));
}

#[test]
fn narrow_text_and_icons_take_their_floors() {
    let rates = vec![RateInfo {
        currency: "BCV".to_string(),
        rate: dec(1, 0),
        icon_asset_path: "ved.png".to_string(),
        degraded: false,
    }];
    match plan_composite(&rates, &vec![metrics(Some(0), 0)]) {
        CompositePlan::Composite { width, slots, .. } => {
            assert_eq!(width, 1 + PADDING + 10);
            assert_eq!(slots[0], SlotPlacement { icon_x: Some(0), text_x: Some(5), text_width: 10 });
        }
        other => panic!("expected a composite, got {other:?}"),
    }
    match plan_composite(&rates, &vec![metrics(None, 3)]) {
        CompositePlan::Composite { width, slots, .. } => {
            assert_eq!(width, ICON_HEIGHT / 2 + PADDING + 10);
            assert_eq!(slots[0].icon_x, None);
        }
        other => panic!("expected a composite, got {other:?}"),
    }
}

#[test]
fn huge_widths_saturate_and_skip_what_does_not_fit() {
    let live = RateInfo {
        currency: "BIN".to_string(),
        rate: dec(1, 0),
        icon_asset_path: "binance.png".to_string(),
        degraded: false,
    };
    let rates = vec![live.clone(), live];
    let ms = vec![metrics(Some(u32::MAX - 20), 10), metrics(Some(16), 10)];
    match plan_composite(&rates, &ms) {
        CompositePlan::Composite { width, slots, .. } => {
            assert_eq!(width, u32::MAX);
            assert_eq!(slots[0].icon_x, Some(0));
            assert_eq!(slots[0].text_x, Some(u32::MAX - 16));
            assert_eq!(slots[1].icon_x, None);
            assert_eq!(slots[1].text_x, None);
        }
        other => panic!("expected a composite, got {other:?}"),
    }
}

#[test]
fn layout_is_reproducible() {
    let rates = fetch_rates(&scenario_store(), &scenario_mappings());
    let ms = vec![metrics(Some(16), 48), metrics(Some(20), 48), metrics(Some(16), 40)];
    let a = plan_composite(&rates, &ms);
    let b = plan_composite(&rates, &ms);
    assert_eq!(format!("{a:?}"), format!("{b:?}"));
}

#[test]
fn icons_scale_to_the_target_height() {
    assert_eq!(scaled_icon_width(32, 32, 16), Some(16));
    assert_eq!(scaled_icon_width(64, 32, 16), Some(32));
    assert_eq!(scaled_icon_width(3, 2, 16), Some(24));
    assert_eq!(scaled_icon_width(5, 32, 16), Some(3));
    assert_eq!(scaled_icon_width(1, 100, 16), Some(1));
    assert_eq!(scaled_icon_width(u32::MAX, 1, 16), Some(u32::MAX));
    assert_eq!(scaled_icon_width(0, 32, 16), None);
    assert_eq!(scaled_icon_width(32, 0, 16), None);
    assert_eq!(scaled_icon_width(32, 32, 0), None);
}

#[test]
fn segment_text_has_two_places_and_trailing_space() {
    assert_eq!(segment_text(dec(10350, 2)), "103.50  ");
    assert_eq!(segment_text(Decimal::zero()), "0.00  ");
}

#[test]
fn fallback_width_pads_the_text() {
    assert_eq!(fallback_width(30), 38);
    assert_eq!(fallback_width(0), 18);
    assert_eq!(fallback_width(u32::MAX), u32::MAX);
}

#[test]
fn empty_tooltip_for_no_rates() {
    assert_eq!(tooltip(&vec![]), "");
}

#[test]
fn measurements_that_do_not_match_fall_back() {
    let rates = fetch_rates(&scenario_store(), &scenario_mappings());
    match plan_composite(&rates, &vec![metrics(Some(16), 40)]) {
        CompositePlan::Fallback { icon_text, tooltip } => {
            assert_eq!(icon_text, "Error");
            assert_eq!(tooltip, "Error generating icon");
        }
        other => panic!("expected the fallback, got {other:?}"),
    }
}

#[test]
fn only_quoted_rates_want_an_icon() {
    let rates = fetch_rates(&scenario_store(), &scenario_mappings());
    let wanted: Vec<bool> = rates.iter().map(wants_icon).collect();
    assert_eq!(wanted, vec![true, true, false]);
}
