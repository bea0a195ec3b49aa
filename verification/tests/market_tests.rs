use std::time::{SystemTime, UNIX_EPOCH};
use vipertrade::clock::{millis_text, millis_to_i64, now_ms, unix_time_ms};
use vipertrade::consensus::{
    btc_context_applies, score_key, tally_regimes, ConsensusLatch, ScoreWeights,
    CONSENSUS_SIDE_CONFIRMATION_CYCLES,
};
use vipertrade::market::{
    analytics_min_evaluated, min_exchanges, publish_plan, route_health_request, HealthRoute,
    PublishPlan,
};
use vipertrade::symbols::{
    normalize_symbol, okx_inst_id, order_by_open_time, swing_kline_url, swing_targets,
    SymbolAvailability, MACRO_SYMBOL, MIN_SWING_CANDLES, SWING_CANDLE_LIMIT, SWING_INTERVAL,
};

#[test]
fn score_key_joins_exchange_and_symbol() {
    assert_eq!(score_key("bybit", "BTCUSDT"), "bybit:BTCUSDT");
    assert_eq!(score_key("binance", "ETHUSDT"), "binance:ETHUSDT");
    assert_eq!(score_key("", ""), ":");
}

#[test]
fn unix_time_ms_is_recent_and_positive() {
    let ts = unix_time_ms();
    assert!(ts > 1_700_000_000_000, "ts={ts} looks prehistoric");
    let now = SystemTime::now()
        .duration_since(UNIX_EPOCH)
        .map(|d| d.as_millis() as i64)
        .unwrap_or(0);
    assert!((ts - now).abs() < 1000, "ts={ts} should be near current time");
}

#[test]
fn clock_readings_convert_exactly() {
    assert_eq!(millis_to_i64(Some(1_700_000_000_123)), 1_700_000_000_123);
    assert_eq!(millis_to_i64(None), 0);
    assert_eq!(millis_text(Some(42)), "42");
    assert_eq!(millis_text(None), "0");
    let text = now_ms();
    assert!(text.chars().all(|c| c.is_ascii_digit()));
    assert!(text.len() >= 13);
}

#[test]
fn okx_inst_id_transforms_symbol() {
    assert_eq!(okx_inst_id("BTCUSDT"), "BTC-USDT-SWAP");
    assert_eq!(okx_inst_id("ETHUSDT"), "ETH-USDT-SWAP");
    assert_eq!(okx_inst_id("1000PEPEUSDT"), "1000PEPE-USDT-SWAP");
}

#[test]
fn okx_inst_id_passes_through_non_usdt_suffix() {
    assert_eq!(okx_inst_id("BTC-USD"), "BTC-USD-USDT-SWAP");
    assert_eq!(okx_inst_id("SOL"), "SOL-USDT-SWAP");
}

#[test]
fn kline_url_requests_four_hour_candles() {
    let u = swing_kline_url("https://api.bybit.com", "APTUSDT");
    assert!(u.contains("interval=240"), "4H = 240 minutes: {u}");
    assert!(u.contains("symbol=APTUSDT"));
    assert!(u.contains(&format!("limit={SWING_CANDLE_LIMIT}")));
}

#[test]
fn kline_url_is_exact() {
    assert_eq!(
        swing_kline_url("https://api.bybit.com", "APTUSDT"),
        "https://api.bybit.com/v5/market/kline?category=linear&symbol=APTUSDT&interval=240&limit=300"
    );
    assert_eq!(SWING_INTERVAL, "240");
}

#[test]
fn macro_symbol_is_bitcoin() {
    assert_eq!(MACRO_SYMBOL, "BTCUSDT");
}

#[test]
fn candle_limit_covers_the_slow_average() {
    assert!(SWING_CANDLE_LIMIT >= 200, "limit {SWING_CANDLE_LIMIT} does not cover the EMA200");
    assert!(SWING_CANDLE_LIMIT >= MIN_SWING_CANDLES);
}

#[test]
fn parse_returns_candles_in_chronological_order() {
    let rows = vec![
        (3000i64, "12.5".to_string()),
        (1000i64, "10.5".to_string()),
        (2000i64, "11.5".to_string()),
    ];
    let out = order_by_open_time(rows);
    assert_eq!(out.len(), 3);
    assert_eq!(out[0].0, 1000);
    assert_eq!(out[2].0, 3000);
}

#[test]
fn parse_deduplicates_by_timestamp() {
    let rows = vec![
        (1000i64, "10.5".to_string()),
        (1000i64, "10.7".to_string()),
        (2000i64, "11.5".to_string()),
    ];
    let out = order_by_open_time(rows);
    assert_eq!(out.len(), 2);
    // The first row seen for a timestamp is the one kept.
    assert_eq!(out[0].1, "10.5");
}

#[test]
fn ordering_keeps_negative_and_large_keys() {
    let out = order_by_open_time(vec![(i64::MAX, 'c'), (-5, 'a'), (0, 'b'), (-5, 'x')]);
    let keys: Vec<i64> = out.iter().map(|r| r.0).collect();
    assert_eq!(keys, vec![-5, 0, i64::MAX]);
    assert_eq!(out[0].1, 'a');
    assert!(order_by_open_time::<u8>(vec![]).is_empty());
}

#[test]
fn swing_targets_add_bitcoin_once() {
    let t = swing_targets(&vec!["ETHUSDT".to_string(), "SOLUSDT".to_string()]);
    assert_eq!(t, vec!["ETHUSDT", "SOLUSDT", "BTCUSDT"]);
    let t2 = swing_targets(&vec!["BTCUSDT".to_string(), "ETHUSDT".to_string()]);
    assert_eq!(t2, vec!["BTCUSDT", "ETHUSDT"]);
    assert_eq!(swing_targets(&vec![]), vec!["BTCUSDT"]);
}

#[test]
fn operator_symbols_are_normalized() {
    assert_eq!(normalize_symbol(" dogeusdt "), Some("DOGEUSDT".to_string()));
    assert_eq!(normalize_symbol("USDT"), None);
    assert_eq!(normalize_symbol("DOGE-USDT"), None);
    assert_eq!(normalize_symbol("DOGEUSD"), None);
    assert_eq!(normalize_symbol("1000PEPEUSDT"), Some("1000PEPEUSDT".to_string()));
}

#[test]
fn availability_lists_missing_venues_in_order() {
    let all = SymbolAvailability { bybit: true, binance: true, okx: true };
    assert!(all.available_on_all());
    assert!(all.missing().is_empty());
    let some = SymbolAvailability { bybit: false, binance: true, okx: false };
    assert!(!some.available_on_all());
    assert_eq!(some.missing(), vec!["bybit", "okx"]);
}

#[test]
fn latch_initial_side_is_applied_immediately() {
    let mut latch = ConsensusLatch::new();
    assert_eq!(latch.stabilize("BTCUSDT", "bullish"), "bullish");
}

#[test]
fn latch_needs_two_cycles_to_confirm_switch() {
    let mut latch = ConsensusLatch::new();
    assert_eq!(latch.stabilize("BTCUSDT", "bullish"), "bullish");
    assert_eq!(
        latch.stabilize("BTCUSDT", "bearish"),
        "bullish",
        "still latched after 1 bearish cycle"
    );
    assert_eq!(latch.stabilize("BTCUSDT", "bearish"), "bearish", "confirmed after 2 cycles");
}

#[test]
fn latch_switch_before_confirmation_resets_counter() {
    let mut latch = ConsensusLatch::new();
    assert_eq!(latch.stabilize("BTCUSDT", "bullish"), "bullish");
    assert_eq!(latch.stabilize("BTCUSDT", "bearish"), "bullish", "still latched after 1 bearish");
    assert_eq!(latch.stabilize("BTCUSDT", "neutral"), "bullish", "still latched after 1 neutral");
    assert_eq!(latch.stabilize("BTCUSDT", "neutral"), "neutral", "neutral confirmed after 2 cycles");
}

#[test]
fn latch_multiple_symbols_independent() {
    let mut latch = ConsensusLatch::new();
    assert_eq!(latch.stabilize("BTCUSDT", "bullish"), "bullish");
    assert_eq!(latch.stabilize("ETHUSDT", "bearish"), "bearish");
    assert_eq!(latch.stabilize("BTCUSDT", "bullish"), "bullish");
}

#[test]
fn latch_returning_to_stable_side_clears_pending() {
    let mut latch = ConsensusLatch::new();
    latch.stabilize("BTCUSDT", "bullish");
    assert_eq!(latch.stabilize("BTCUSDT", "bearish"), "bullish");
    assert_eq!(latch.stabilize("BTCUSDT", "bullish"), "bullish");
    assert_eq!(latch.stabilize("BTCUSDT", "bearish"), "bullish");
    assert_eq!(CONSENSUS_SIDE_CONFIRMATION_CYCLES, 2);
}

#[test]
fn btc_context_skips_btcusdt_itself() {
    assert!(!btc_context_applies("BTCUSDT"));
}

#[test]
fn btc_context_injects_into_altcoin() {
    assert!(btc_context_applies("ETHUSDT"));
}

#[test]
fn btc_context_case_insensitive_skip() {
    assert!(!btc_context_applies("btcusdt"));
}

#[test]
fn regimes_tally_to_a_unanimous_or_neutral_side() {
    let all_bull = tally_regimes(&vec!["bullish".to_string(), "bullish".to_string()]);
    assert_eq!((all_bull.bullish, all_bull.bearish, all_bull.exchanges), (2, 0, 2));
    assert_eq!(all_bull.side, "bullish");
    let mixed = tally_regimes(&vec![
        "bullish".to_string(),
        "bearish".to_string(),
        "neutral".to_string(),
    ]);
    assert_eq!((mixed.bullish, mixed.bearish, mixed.exchanges), (1, 1, 3));
    assert_eq!(mixed.side, "neutral");
    let bear = tally_regimes(&vec!["bearish".to_string(); 3]);
    assert_eq!(bear.side, "bearish");
}

#[test]
fn score_weight_falls_back_to_exchange_wildcard() {
    let mut w: ScoreWeights<u32> = ScoreWeights::new();
    w.insert("bybit", "*", 7);
    w.insert("bybit", "ETHUSDT", 9);
    assert_eq!(w.weight_for("bybit", "ETHUSDT"), Some(9));
    assert_eq!(w.weight_for("bybit", "SOLUSDT"), Some(7));
    assert_eq!(w.weight_for("okx", "SOLUSDT"), None);
}

#[test]
fn market_settings_defaults_and_bounds() {
    assert_eq!(analytics_min_evaluated(None), 20);
    assert_eq!(analytics_min_evaluated(Some("50")), 50);
    assert_eq!(analytics_min_evaluated(Some("-3")), 1);
    assert_eq!(analytics_min_evaluated(Some("x")), 20);
    assert_eq!(min_exchanges(None), 2);
    assert_eq!(min_exchanges(Some("0")), 1);
    assert_eq!(min_exchanges(Some("7")), 3);
    assert_eq!(min_exchanges(Some("3")), 3);
    assert_eq!(min_exchanges(Some("-1")), 2);
}

#[test]
fn health_requests_are_routed_by_request_line() {
    assert_eq!(route_health_request("GET /latest-signals HTTP/1.1\r\n"), HealthRoute::LatestSignals);
    assert_eq!(route_health_request("GET /latest_signals?x=1 HTTP/1.1"), HealthRoute::LatestSignals);
    assert_eq!(route_health_request("GET /health HTTP/1.1"), HealthRoute::Health);
    assert_eq!(route_health_request("POST /health HTTP/1.1"), HealthRoute::NotFound);
    assert_eq!(route_health_request(""), HealthRoute::NotFound);
}

#[test]
fn publish_plan_skips_empty_cycles() {
    assert_eq!(publish_plan(5, 0), PublishPlan::SkipCycle);
    assert_eq!(publish_plan(5, 3), PublishPlan::Publish { skipped: 2 });
    assert_eq!(publish_plan(5, 5), PublishPlan::Publish { skipped: 0 });
    assert_eq!(publish_plan(2, 5), PublishPlan::Publish { skipped: 0 });
}
