use vipertrade::clock::utc_date_of_reading;
use vipertrade::consensus::require_exchange_signals;
use vipertrade::executor::{is_symbol_allowed_live, parse_allowlist, ReconcileDailyCounts};
use vipertrade::pairs::pairs_from_config_text;
use vipertrade::market::{
    cycle_begin, cycle_step, CycleCommand, CycleEvent, CycleStage, PublishResult, SymbolFetch,
};
use vipertrade::rate_limit::RateLimiter;
use vipertrade::signing::bybit_sign;
use vipertrade::symbols::normalize_symbol;

/// Feeds `events` to a cycle over `expected` symbols and collects the
/// commands issued, the first one included.
fn run_cycle(expected: usize, events: &[CycleEvent]) -> (CycleStage, Vec<CycleCommand>) {
    let (mut stage, cmd) = cycle_begin();
    let mut cmds = vec![cmd];
    for ev in events {
        let (s, c) = cycle_step(expected, stage, *ev);
        stage = s;
        cmds.push(c);
    }
    (stage, cmds)
}

#[test]
fn cycle_fetches_btc_first() {
    assert_eq!(cycle_begin(), (CycleStage::AwaitBtc, CycleCommand::FetchBtc));
}

#[test]
fn cycle_without_btc_context_clears_and_fetches_nothing() {
    let (stage, cmds) = run_cycle(3, &[CycleEvent::Btc(false), CycleEvent::Symbol(SymbolFetch::Valid)]);
    assert_eq!(stage, CycleStage::Done);
    assert_eq!(
        cmds,
        vec![CycleCommand::FetchBtc, CycleCommand::ClearAndWait, CycleCommand::EndCycle]
    );
}

#[test]
fn cycle_fetches_each_symbol_then_publishes_the_valid_ones() {
    let (stage, cmds) = run_cycle(
        3,
        &[
            CycleEvent::Btc(true),
            CycleEvent::Symbol(SymbolFetch::Valid),
            CycleEvent::Symbol(SymbolFetch::Failed),
            CycleEvent::Symbol(SymbolFetch::Valid),
            CycleEvent::Publish(PublishResult::Sent),
            CycleEvent::Publish(PublishResult::Sent),
        ],
    );
    assert_eq!(stage, CycleStage::Done);
    assert_eq!(
        cmds,
        vec![
            CycleCommand::FetchBtc,
            CycleCommand::FetchSymbol(0),
            CycleCommand::FetchSymbol(1),
            CycleCommand::FetchSymbol(2),
            CycleCommand::StoreAndPublishFirst { skipped: 1 },
            CycleCommand::Publish(1),
            CycleCommand::EndCycle,
        ]
    );
}

#[test]
fn cycle_with_no_valid_signal_clears_latest() {
    let (stage, cmds) = run_cycle(
        2,
        &[
            CycleEvent::Btc(true),
            CycleEvent::Symbol(SymbolFetch::Invalid),
            CycleEvent::Symbol(SymbolFetch::Failed),
        ],
    );
    assert_eq!(stage, CycleStage::Done);
    assert_eq!(cmds.last(), Some(&CycleCommand::ClearLatest { skipped: 2 }));
}

#[test]
fn cycle_over_an_empty_universe_clears_latest() {
    let (_, cmds) = run_cycle(0, &[CycleEvent::Btc(true)]);
    assert_eq!(cmds.last(), Some(&CycleCommand::ClearLatest { skipped: 0 }));
}

#[test]
fn cycle_stops_publishing_at_a_failed_send() {
    let (_, cmds) = run_cycle(
        3,
        &[
            CycleEvent::Btc(true),
            CycleEvent::Symbol(SymbolFetch::Valid),
            CycleEvent::Symbol(SymbolFetch::Valid),
            CycleEvent::Symbol(SymbolFetch::Valid),
            CycleEvent::Publish(PublishResult::Invalid),
            CycleEvent::Publish(PublishResult::SendFailed),
            CycleEvent::Publish(PublishResult::Sent),
        ],
    );
    assert_eq!(
        &cmds[4..],
        &[
            CycleCommand::StoreAndPublishFirst { skipped: 0 },
            CycleCommand::Publish(1),
            CycleCommand::EndCycle,
            CycleCommand::EndCycle,
        ][..]
    );
}

#[test]
fn cycle_aborts_on_an_unencodable_signal() {
    let (stage, cmds) = run_cycle(
        1,
        &[
            CycleEvent::Btc(true),
            CycleEvent::Symbol(SymbolFetch::Valid),
            CycleEvent::Publish(PublishResult::EncodeFailed),
        ],
    );
    assert_eq!(stage, CycleStage::Done);
    assert_eq!(cmds.last(), Some(&CycleCommand::Abort));
}

#[test]
fn cycle_repeats_its_command_on_an_unexpected_event() {
    let (stage, cmds) = run_cycle(2, &[CycleEvent::Btc(true), CycleEvent::Btc(true)]);
    assert_eq!(stage, CycleStage::AwaitSymbol { index: 0, valid: 0 });
    assert_eq!(cmds.last(), Some(&CycleCommand::FetchSymbol(0)));
}

#[test]
fn consensus_needs_an_exchange_signal() {
    assert_eq!(
        require_exchange_signals("SOLUSDT", 0),
        Err("no exchange signal available for SOLUSDT".to_string())
    );
    assert!(require_exchange_signals("SOLUSDT", 0).unwrap_err().contains("no exchange signal"));
    assert_eq!(require_exchange_signals("SOLUSDT", 2), Ok(()));
}

#[test]
fn utc_date_of_clock_readings() {
    assert_eq!(utc_date_of_reading(Some(1_705_276_800_000)), Some("2024-01-15".to_string()));
    assert_eq!(utc_date_of_reading(Some(1_705_276_799_999)), Some("2024-01-14".to_string()));
    assert_eq!(utc_date_of_reading(Some(0)), Some("1970-01-01".to_string()));
    assert_eq!(utc_date_of_reading(Some(951_782_400_000)), Some("2000-02-29".to_string()));
    assert_eq!(utc_date_of_reading(Some(4_107_542_400_000)), Some("2100-03-01".to_string()));
    assert_eq!(
        utc_date_of_reading(Some(253_402_300_799_999)),
        Some("9999-12-31".to_string())
    );
    assert_eq!(utc_date_of_reading(Some(1_735_689_599_999)), Some("2024-12-31".to_string()));
    assert_eq!(utc_date_of_reading(None), None);
    assert_eq!(utc_date_of_reading(Some(u128::MAX)), None);
    assert_eq!(utc_date_of_reading(Some(i64::MAX as u128)), None);
}

#[test]
fn daily_budget_by_clock_reading() {
    let mut counts = ReconcileDailyCounts::new();
    let day1: u128 = 1_705_276_800_000;
    assert!(counts.check_daily_limit_at("SOLUSDT", "Long", Some(day1), 1));
    assert!(!counts.check_daily_limit_at("SOLUSDT", "Long", Some(day1 + 3_600_000), 1));
    // The next UTC day starts a new budget.
    assert!(counts.check_daily_limit_at("SOLUSDT", "Long", Some(day1 + 86_400_000), 1));
    // Without a reading no fix is allowed.
    assert!(!counts.check_daily_limit_at("ETHUSDT", "Long", None, 5));
}

#[test]
fn normalized_symbol_normalizes_to_itself() {
    let once = normalize_symbol("  DogeUsdt ").expect("accepted");
    assert_eq!(once, "DOGEUSDT");
    assert_eq!(normalize_symbol(&once), Some(once.clone()));
}

#[test]
fn allowlist_ignores_ascii_case() {
    let list = parse_allowlist("dogeusdt, XrpUsdt");
    assert!(is_symbol_allowed_live(&list, "DOGEUSDT"));
    assert!(is_symbol_allowed_live(&list, "DogeUSDT"));
    assert!(is_symbol_allowed_live(&list, "xrpusdt"));
    assert!(!is_symbol_allowed_live(&list, "ADAUSDT"));
}

#[test]
fn refused_request_records_nothing_and_expires() {
    let mut rl = RateLimiter::new(2, 60);
    assert!(rl.check_and_consume("a", 100_000));
    assert!(rl.check_and_consume("a", 110_000));
    assert!(!rl.check_and_consume("a", 120_000));
    assert!(rl.check_and_consume("b", 120_000));
    // Both counted requests are older than the window at 171 s; had the
    // refused one of 120 s been recorded, the request of 172 s would be
    // refused.
    assert!(rl.check_and_consume("a", 171_000));
    assert!(rl.check_and_consume("a", 172_000));
    assert!(!rl.check_and_consume("a", 173_000));
}

#[test]
fn signature_with_a_key_longer_than_the_block() {
    let key = "k".repeat(100);
    assert_eq!(
        bybit_sign(&key, "payload").expect("must sign"),
        "d1f7df739bab9a7fe462c212b3057053056af9cc307e5f9d64122aaaf148e9fe"
    );
}

#[test]
fn config_text_enables_pairs_uppercased_and_sorted() {
    let raw = "global:\n  enabled: true\nxrpusdt:\n  enabled: true\n  risk: 0.5\nBTCUSDT:\n  enabled: false\nDogeUsdt:\n  leverage: 2\n  enabled: true\nProfiles:\n  enabled: true\nSOLUSDT: 3\nADAUSDT:\n  enabled: \"true\"\n";
    assert_eq!(
        pairs_from_config_text(raw),
        Some(vec!["DOGEUSDT".to_string(), "XRPUSDT".to_string()])
    );
}

#[test]
fn config_text_without_enabled_pairs_gives_none() {
    assert_eq!(pairs_from_config_text("BTCUSDT:\n  enabled: false\n"), None);
    assert_eq!(pairs_from_config_text("global:\n  enabled: true\n"), None);
    assert_eq!(pairs_from_config_text(""), None);
}

#[test]
fn config_text_that_is_not_a_mapping_gives_none() {
    assert_eq!(pairs_from_config_text("- BTCUSDT\n- ETHUSDT\n"), None);
    assert_eq!(pairs_from_config_text("BTCUSDT: [unclosed\n"), None);
    assert_eq!(pairs_from_config_text("a: 1\na: 2\n"), None);
}

#[test]
fn config_text_reads_only_string_keys() {
    assert_eq!(
        pairs_from_config_text("123:\n  enabled: true\nethusdt:\n  enabled: true\n"),
        Some(vec!["ETHUSDT".to_string()])
    );
}

#[test]
fn rate_limiter_early_in_the_clock_drops_nothing() {
    let mut rl = RateLimiter::new(1, 60);
    assert!(rl.check_and_consume("a", 1_000));
    assert!(!rl.check_and_consume("a", 59_000));
    assert!(rl.check_and_consume("a", 61_001));
}
