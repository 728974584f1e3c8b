use rate_tray::decimal::Decimal;
use rate_tray::fetch::FetchError;
use rate_tray::host::{dispatch, request_macos_redraw, HostAction, HostEvent};
use rate_tray::orchestrator::{
    commit_refresh, signal_for, timestamp_text, FetchOutcome, Orchestrator, OrchestratorError, Phase,
    RefreshSignal, SymbolValue, TriggerStep,
};
use rate_tray::store::RateStore;

fn dec(digits: u64, scale: u32) -> Decimal {
    Decimal { negative: false, digits, scale }
}

fn pair(symbol: &str, digits: u64, scale: u32) -> SymbolValue {
    SymbolValue { symbol: symbol.to_string(), value: dec(digits, scale) }
}

fn value_of(store: &RateStore, symbol: &str) -> Option<(Decimal, String)> {
    store.latest(symbol).map(|q| (q.value, q.observed_at))
}

#[test]
fn absent_symbol_has_no_quote() {
    let mut store = RateStore::new();
    assert_eq!(store.latest("satoshi"), None);
    store.upsert("bcv".to_string(), dec(10350, 2), "t1".to_string());
    assert_eq!(store.latest("satoshi"), None);
    assert_eq!(store.latest("bc"), None);
    assert_eq!(store.len(), 1);
}

#[test]
fn upsert_is_idempotent() {
    let mut store = RateStore::new();
    store.upsert("bcv".to_string(), dec(10350, 2), "t1".to_string());
    store.upsert("bcv".to_string(), dec(10350, 2), "t1".to_string());
    assert_eq!(store.len(), 1);
    let q = store.latest("bcv").unwrap();
    assert_eq!(q.symbol, "bcv");
    assert_eq!(q.value, dec(10350, 2));
    assert_eq!(q.observed_at, "t1");
}

#[test]
fn latest_is_the_last_write() {
    let mut store = RateStore::new();
    store.upsert("binance".to_string(), dec(100, 0), "t1".to_string());
    store.upsert("bcv".to_string(), dec(36, 0), "t1".to_string());
    store.upsert("binance".to_string(), dec(10820, 2), "t2".to_string());
    assert_eq!(value_of(&store, "binance"), Some((dec(10820, 2), "t2".to_string())));
    assert_eq!(value_of(&store, "bcv"), Some((dec(36, 0), "t1".to_string())));
    assert_eq!(store.len(), 2);
}

#[test]
fn batch_read_keeps_the_callers_order() {
    let mut store = RateStore::new();
    store.upsert("bcv".to_string(), dec(1, 0), "t".to_string());
    store.upsert("satoshi".to_string(), dec(3, 0), "t".to_string());
    let symbols = vec!["satoshi".to_string(), "binance".to_string(), "bcv".to_string()];
    let all = store.latest_all(&symbols);
    assert_eq!(all.len(), 3);
    assert_eq!(all[0].as_ref().map(|q| q.value), Some(dec(3, 0)));
    assert_eq!(all[1], None);
    assert_eq!(all[2].as_ref().map(|q| q.value), Some(dec(1, 0)));
}

fn seeded() -> RateStore {
    let mut store = RateStore::new();
    store.upsert("bcv".to_string(), dec(3600, 2), "t0".to_string());
    store.upsert("binance".to_string(), dec(4000, 2), "t0".to_string());
    store
}

#[test]
fn one_provider_succeeding_is_a_success() {
    let mut store = seeded();
    let outcomes: Vec<FetchOutcome> = vec![
        Err(FetchError::Network),
        Ok(vec![pair("binance", 10820, 2)]),
        Err(FetchError::Status(503)),
    ];
    let result = commit_refresh(&mut store, &outcomes, &"t1".to_string());
    assert_eq!(result, Ok(vec![pair("binance", 10820, 2)]));
    assert_eq!(signal_for(&result), RefreshSignal::RefreshCompleted);
    assert_eq!(value_of(&store, "binance"), Some((dec(10820, 2), "t1".to_string())));
    assert_eq!(value_of(&store, "bcv"), Some((dec(3600, 2), "t0".to_string())));
    assert_eq!(store.latest("satoshi"), None);
}

#[test]
fn all_providers_failing_changes_nothing() {
    let mut store = seeded();
    let outcomes: Vec<FetchOutcome> =
        vec![Err(FetchError::NodeNotFound), Err(FetchError::Rejected), Err(FetchError::Payload)];
    let result = commit_refresh(&mut store, &outcomes, &"t1".to_string());
    assert_eq!(result, Err(OrchestratorError::NoSourcesUpdated));
    assert_eq!(signal_for(&result), RefreshSignal::RefreshFailed);
    assert_eq!(value_of(&store, "bcv"), Some((dec(3600, 2), "t0".to_string())));
    assert_eq!(value_of(&store, "binance"), Some((dec(4000, 2), "t0".to_string())));
    assert_eq!(store.len(), 2);
}

#[test]
fn a_provider_with_no_values_is_no_update() {
    let mut store = seeded();
    let outcomes: Vec<FetchOutcome> = vec![Err(FetchError::Network), Ok(vec![])];
    let result = commit_refresh(&mut store, &outcomes, &"t1".to_string());
    assert_eq!(result, Err(OrchestratorError::NoSourcesUpdated));
    assert_eq!(result.unwrap_err().message(), "no sources updated");
}

#[test]
fn later_values_of_a_cycle_win() {
    let mut store = RateStore::new();
    let outcomes: Vec<FetchOutcome> =
        vec![Ok(vec![pair("bcv", 1, 0), pair("satoshi", 2, 0)]), Ok(vec![pair("bcv", 5, 0)])];
    let result = commit_refresh(&mut store, &outcomes, &"t".to_string());
    assert_eq!(result.map(|v| v.len()), Ok(3));
    assert_eq!(store.latest("bcv").map(|q| q.value), Some(dec(5, 0)));
    assert_eq!(store.latest("satoshi").map(|q| q.value), Some(dec(2, 0)));
    assert_eq!(store.len(), 2);
}

#[test]
fn requests_during_a_cycle_are_coalesced() {
    let mut orch = Orchestrator::new();
    let mut store = RateStore::new();
    assert_eq!(orch.current_phase(), Phase::Idle);
    assert_eq!(orch.on_trigger(), TriggerStep::StartFetch);
    assert_eq!(orch.current_phase(), Phase::Fetching);
    assert_eq!(orch.on_trigger(), TriggerStep::Coalesced);
    assert_eq!(orch.on_trigger(), TriggerStep::Coalesced);
    let first = orch.finish(&mut store, &vec![Ok(vec![pair("bcv", 7, 0)])], "t1".to_string());
    assert!(first.fetch_again);
    assert_eq!(first.signal, RefreshSignal::RefreshCompleted);
    assert_eq!(first.observed_at, "t1");
    assert_eq!(orch.current_phase(), Phase::Fetching);
    let second = orch.finish(&mut store, &vec![Err(FetchError::Network)], "t2".to_string());
    assert!(!second.fetch_again);
    assert_eq!(second.signal, RefreshSignal::RefreshFailed);
    assert_eq!(orch.current_phase(), Phase::Idle);
    assert_eq!(value_of(&store, "bcv"), Some((dec(7, 0), "t1".to_string())));
}

#[test]
fn finishing_now_stamps_the_current_time() {
    let mut orch = Orchestrator::new();
    let mut store = RateStore::new();
    assert_eq!(orch.on_trigger(), TriggerStep::StartFetch);
    let report = orch.finish_now(&mut store, &vec![Ok(vec![pair("satoshi", 150000, 2)])]);
    assert_eq!(report.signal, RefreshSignal::RefreshCompleted);
    assert!(report.observed_at.len() >= 20);
    assert!(report.observed_at.contains('T'));
    let q = store.latest("satoshi").unwrap();
    assert_eq!(q.observed_at, report.observed_at);
    assert_eq!(orch.current_phase(), Phase::Idle);
}

#[test]
fn host_events_map_to_actions() {
    assert_eq!(dispatch(HostEvent::Started), HostAction::ShowLoading);
    assert_eq!(dispatch(HostEvent::RefreshCompleted), HostAction::Render);
    assert_eq!(dispatch(HostEvent::RefreshFailed), HostAction::ShowError);
    assert_eq!(dispatch(HostEvent::ManualRefreshRequested), HostAction::RequestRefresh);
    assert_eq!(dispatch(HostEvent::QuitRequested), HostAction::Exit);
    assert_eq!(dispatch(HostEvent::TrayActivity), HostAction::Ignore);
    request_macos_redraw();
}

#[test]
fn clock_readings_as_rfc3339_text() {
    assert_eq!(timestamp_text(Ok((0, 0))), "1970-01-01T00:00:00+00:00");
    assert_eq!(timestamp_text(Ok((86_400, 250_000_000))), "1970-01-02T00:00:00.250+00:00");
    assert_eq!(timestamp_text(Err((1, 0))), "1969-12-31T23:59:59+00:00");
    assert_eq!(timestamp_text(Err((0, 500_000_000))), "1969-12-31T23:59:59.500+00:00");
}

#[test]
fn clock_readings_beyond_the_calendar_are_empty() {
    assert_eq!(timestamp_text(Ok((u64::MAX, 0))), "");
    assert_eq!(timestamp_text(Ok((i64::MAX as u64, 0))), "");
    assert_eq!(timestamp_text(Err((u64::MAX, 1))), "");
}
