use vipertrade::analyst::{
    dominant_entry_gate, evaluate_symbol_risk, EntryGate, evaluate_thesis_quality, substitution_pool, InvestigateRequest,
    LossBand, ThesisSignals, DEFAULT_INVESTIGATE_HOURS, DEFAULT_INVESTIGATE_QUESTION,
};
use vipertrade::config::{
    configured_pairs_path, default_pairs_config_path, is_valid_trading_pair, parse_bool_flag,
    parse_trading_pairs_list, read_bool, read_bybit_credential, read_interval_sec,
    read_non_empty, resolve_bybit_base_url, resolve_bybit_credentials, resolve_bybit_env,
    resolve_database_url, resolve_redis_url, BybitCredentialEnv, DatabaseEnv, TradingMode,
};
use vipertrade::domain::{validate_decision_envelope, validate_market_envelope, SCHEMA_VERSION};
use vipertrade::keyed::KeyedStore;
use vipertrade::numeric::{format_u128, parse_i64, parse_u64};
use vipertrade::pairs::{enabled_config_pairs, sort_strings};
use vipertrade::executor::parse_allowlist;
use vipertrade::tuning::{grid, grid_overrides, VariantClass};

#[test]
fn grid_paths_are_fully_qualified() {
    let overrides = grid_overrides();
    assert_eq!(overrides.len(), 16, "3+3+3+4+3 grid values");
    for set in &overrides {
        for (path, _value) in set {
            assert!(
                path.starts_with("mode_profiles.PAPER."),
                "path not fully qualified: {path}"
            );
        }
    }
}

#[test]
fn sizing_is_exposure_trailing_is_alpha() {
    let g = grid();
    let sizing = g
        .iter()
        .find(|a| a.path.contains("max_position_wallet_pct"))
        .expect("sizing axis");
    assert_eq!(sizing.class, VariantClass::Exposure);
    let trailing = g
        .iter()
        .find(|a| a.path.contains("activate_after_profit_pct"))
        .expect("trailing axis");
    assert_eq!(trailing.class, VariantClass::Alpha);
}

#[test]
fn grid_overrides_are_single_value_sets_in_grid_order() {
    let overrides = grid_overrides();
    assert!(overrides.iter().all(|set| set.len() == 1));
    assert_eq!(
        overrides[0][0],
        (
            "mode_profiles.PAPER.trailing_stop.activate_after_profit_pct".to_string(),
            "0.001".to_string()
        )
    );
    assert_eq!(
        overrides[15][0],
        ("mode_profiles.PAPER.risk.max_position_wallet_pct".to_string(), "0.16".to_string())
    );
}

fn thesis(long_pnl: f64, short_pnl: f64, positive_close: f64, no_align: i64, health: i64) -> ThesisSignals {
    ThesisSignals {
        long_fragile: long_pnl <= -0.20,
        profit_protective: positive_close >= 25.0,
        short_not_worse: short_pnl >= long_pnl,
        no_alignment_hits: no_align,
        health_threshold_hits: health,
    }
}

#[test]
fn thesis_quality_long_fragile_when_bad_long_pnl_and_no_alignment_dominant() {
    let r = evaluate_thesis_quality(&thesis(-0.25, -0.041, 18.1, 50, 20));
    assert_eq!(r.severity, "fail");
    assert_eq!(r.reason, "thesis_quality_long_fragile");
    assert_eq!(r.recommendation, "harden_long_invalidation_inputs");
}

#[test]
fn thesis_quality_profit_protective_when_positive_close_high() {
    let r = evaluate_thesis_quality(&thesis(-0.1, -0.041, 30.0, 5, 10));
    assert_eq!(r.severity, "pass");
    assert_eq!(r.reason, "thesis_quality_profit_protective");
}

#[test]
fn thesis_quality_threshold_driven_when_health_exceeds_no_alignment() {
    let r = evaluate_thesis_quality(&thesis(-0.1, -0.041, 10.0, 10, 30));
    assert_eq!(r.severity, "warn");
    assert_eq!(r.reason, "thesis_quality_threshold_driven");
}

#[test]
fn thesis_quality_asymmetric_when_short_exceeds_long() {
    let r = evaluate_thesis_quality(&thesis(-0.05, 0.10, 10.0, 10, 5));
    assert_eq!(r.severity, "warn");
    assert_eq!(r.reason, "thesis_quality_directionally_asymmetric");
}

#[test]
fn thesis_quality_stable_when_no_condition_triggers() {
    let r = evaluate_thesis_quality(&thesis(0.05, 0.02, 10.0, 5, 3));
    assert_eq!(r.severity, "pass");
    assert_eq!(r.reason, "thesis_quality_stable");
    assert_eq!(r.recommendation, "keep_current_thesis_policy");
}

fn band(pnl: f64) -> LossBand {
    if pnl <= -0.30 {
        LossBand::Heavy
    } else if pnl < 0.0 {
        LossBand::Light
    } else {
        LossBand::NoLoss
    }
}

#[test]
fn symbol_risk_fail_when_worst_symbol_pnl_very_negative() {
    let r = evaluate_symbol_risk("SOLUSDT", band(-0.50));
    assert_eq!(r.severity, "fail");
    assert_eq!(r.reason, "symbol_risk_high");
    assert_eq!(r.symbol, "SOLUSDT");
}

#[test]
fn symbol_risk_warn_when_worst_symbol_pnl_moderately_negative() {
    let r = evaluate_symbol_risk("SOLUSDT", band(-0.15));
    assert_eq!(r.severity, "warn");
    assert_eq!(r.reason, "symbol_risk_elevated");
}

#[test]
fn symbol_risk_pass_when_worst_symbol_pnl_non_negative() {
    let r = evaluate_symbol_risk("SOLUSDT", band(0.10));
    assert_eq!(r.severity, "pass");
    assert_eq!(r.reason, "symbol_risk_stable");
}

#[test]
fn investigate_request_defaults() {
    let none = InvestigateRequest { question: None, hours: None };
    assert_eq!(none.lookback_hours(), DEFAULT_INVESTIGATE_HOURS);
    assert_eq!(none.lookback_hours(), 168);
    assert_eq!(none.question_or_default(), DEFAULT_INVESTIGATE_QUESTION);
    let neg = InvestigateRequest { question: Some("why?".to_string()), hours: Some(-4) };
    assert_eq!(neg.lookback_hours(), 168);
    assert_eq!(neg.question_or_default(), "why?");
    let given = InvestigateRequest { question: None, hours: Some(24) };
    assert_eq!(given.lookback_hours(), 24);
}

#[test]
fn substitution_pool_lists_disabled_symbols() {
    let universe = vec![
        ("BTCUSDT".to_string(), true),
        ("APTUSDT".to_string(), false),
        ("SUIUSDT".to_string(), false),
        ("ETHUSDT".to_string(), true),
    ];
    assert_eq!(substitution_pool(&universe), vec!["APTUSDT", "SUIUSDT"]);
    assert!(substitution_pool(&vec![]).is_empty());
}

#[test]
fn enabled_pairs_are_uppercased_sorted_and_skip_sections() {
    let entries = vec![
        (Some("solusdt".to_string()), true),
        (Some("global".to_string()), true),
        (Some("Profiles".to_string()), true),
        (Some("ADAUSDT".to_string()), true),
        (Some("XRPUSDT".to_string()), false),
        (None, true),
        (Some("btcusdt".to_string()), true),
    ];
    assert_eq!(
        enabled_config_pairs(&entries),
        Some(vec!["ADAUSDT".to_string(), "BTCUSDT".to_string(), "SOLUSDT".to_string()])
    );
    let none = vec![(Some("global".to_string()), true), (Some("ETHUSDT".to_string()), false)];
    assert_eq!(enabled_config_pairs(&none), None);
}

#[test]
fn strings_sort_like_std() {
    let input: Vec<String> = ["b", "a", "ab", "", "B", "aa", "a"].iter().map(|s| s.to_string()).collect();
    let mut expected = input.clone();
    expected.sort();
    assert_eq!(sort_strings(input), expected);
}

#[test]
fn trading_mode_labels() {
    assert_eq!(TradingMode::from_label(Some(" TestNet ")), TradingMode::Testnet);
    assert_eq!(TradingMode::from_label(Some("live")), TradingMode::Mainnet);
    assert_eq!(TradingMode::from_label(Some("whatever")), TradingMode::Paper);
    assert_eq!(TradingMode::from_label(None), TradingMode::Paper);
    assert_eq!(TradingMode::Testnet.bybit_env(), "testnet");
    assert_eq!(TradingMode::Paper.bybit_env(), "mainnet");
    assert_eq!(TradingMode::Testnet.bybit_base_url(), "https://api-testnet.bybit.com");
    assert_eq!(TradingMode::Mainnet.bybit_base_url(), "https://api.bybit.com");
    assert!(TradingMode::Paper.uses_simulated_positions());
    assert!(!TradingMode::Mainnet.uses_simulated_positions());
    assert!(TradingMode::Testnet.executes_exchange_orders());
    assert!(TradingMode::Paper.uses_simulated_wallet());
    assert_eq!(TradingMode::Paper.as_str(), "PAPER");
    assert_eq!(TradingMode::Mainnet.as_status_label(), "MAINNET");
    assert_eq!(TradingMode::Testnet.trade_profile_label(), "SMOKE");
    assert_eq!(TradingMode::Mainnet.trade_profile_label(), "STANDARD");
    assert_eq!(TradingMode::Paper.exchange_env_label(), "paper");
}

#[test]
fn bybit_environment_resolution() {
    assert_eq!(resolve_bybit_env(Some("testnet"), Some("mainnet")), "testnet");
    assert_eq!(resolve_bybit_env(None, Some("testnet")), "mainnet");
    assert_eq!(resolve_bybit_env(Some("other"), Some("custom")), "custom");
    assert_eq!(resolve_bybit_env(Some("other"), None), "testnet");
    assert_eq!(
        resolve_bybit_base_url(None, Some("testnet"), None),
        "https://api-testnet.bybit.com"
    );
    assert_eq!(resolve_bybit_base_url(None, Some("paper"), None), "https://api.bybit.com");
    assert_eq!(resolve_bybit_base_url(Some(" http://p "), None, None), "http://p");
}

#[test]
fn env_value_helpers() {
    assert_eq!(read_non_empty(Some("  x  ")), Some("x".to_string()));
    assert_eq!(read_non_empty(Some("   ")), None);
    assert_eq!(read_non_empty(None), None);
    assert_eq!(parse_bool_flag(" On "), Some(true));
    assert_eq!(parse_bool_flag("no"), Some(false));
    assert_eq!(parse_bool_flag("maybe"), None);
    assert!(read_bool(Some("yes"), false));
    assert!(read_bool(Some("maybe"), true));
    assert!(!read_bool(None, false));
    assert_eq!(read_interval_sec(Some("15"), Some("2"), 60), 15);
    assert_eq!(read_interval_sec(Some("x"), Some("2"), 60), 120);
    assert_eq!(read_interval_sec(None, None, 60), 60);
    assert_eq!(read_interval_sec(None, Some("18446744073709551615"), 60), u64::MAX);
    assert_eq!(resolve_redis_url(Some("  ")), "redis://vipertrade-redis:6379");
    assert_eq!(resolve_redis_url(Some("redis://x:1")), "redis://x:1");
    assert_eq!(default_pairs_config_path(), "/app/config/pairs.yaml");
    assert_eq!(configured_pairs_path(Some(" /etc/p.yaml ")), "/etc/p.yaml");
    assert_eq!(configured_pairs_path(None), "/app/config/pairs.yaml");
}

#[test]
fn database_url_resolution() {
    let parts = DatabaseEnv {
        database_url: Some("  ".to_string()),
        host: Some("db".to_string()),
        port: None,
        name: Some("viper".to_string()),
        user: Some("u".to_string()),
        password: Some("p".to_string()),
    };
    assert_eq!(resolve_database_url(&parts), Some("postgresql://u:p@db:5432/viper".to_string()));
    let direct = DatabaseEnv {
        database_url: Some("postgres://x".to_string()),
        host: None,
        port: None,
        name: None,
        user: None,
        password: None,
    };
    assert_eq!(resolve_database_url(&direct), Some("postgres://x".to_string()));
    let missing = DatabaseEnv {
        database_url: None,
        host: Some("db".to_string()),
        port: Some("6543".to_string()),
        name: None,
        user: Some("u".to_string()),
        password: Some("p".to_string()),
    };
    assert_eq!(resolve_database_url(&missing), None);
}

#[test]
fn credentials_follow_mode_then_fallback() {
    let env = BybitCredentialEnv {
        testnet_key: Some(" tk ".to_string()),
        testnet_secret: None,
        mainnet_key: Some("".to_string()),
        mainnet_secret: Some("ms".to_string()),
        fallback_key: Some("fk".to_string()),
        fallback_secret: Some("fs".to_string()),
    };
    assert_eq!(
        read_bybit_credential(TradingMode::Testnet, &env),
        (Some("tk".to_string()), Some("fs".to_string()))
    );
    assert_eq!(
        resolve_bybit_credentials(TradingMode::Paper, &env),
        ("fk".to_string(), "ms".to_string())
    );
}

#[test]
fn trading_pair_validation() {
    assert!(is_valid_trading_pair("DOGEUSDT"));
    assert!(is_valid_trading_pair("dogeusdt"));
    assert!(!is_valid_trading_pair("BTC/USDT"));
    assert!(!is_valid_trading_pair("BTC USDT"));
    assert!(!is_valid_trading_pair("BTCUSD"));
    assert!(!is_valid_trading_pair("AUSDT"));
    assert!(!is_valid_trading_pair("VERYLONGNAMEUSDT"));
    let (valid, rejected) = parse_trading_pairs_list(" dogeusdt, BTC/USDT ,, xrpusdt");
    assert_eq!(valid, vec!["DOGEUSDT", "XRPUSDT"]);
    assert_eq!(rejected, vec!["BTC/USDT"]);
}

#[test]
fn invalid_schema_version_is_rejected() {
    let r = validate_decision_envelope("2.0", "evt-1", "src-evt-1", "ENTER_LONG", "DOGEUSDT");
    assert_eq!(
        r,
        Err("unsupported strategy decision schema_version '2.0' expected '1.0'".to_string())
    );
    assert_eq!(
        validate_decision_envelope(SCHEMA_VERSION, "evt-1", "src-evt-1", "ENTER_LONG", "DOGEUSDT"),
        Ok(())
    );
}

#[test]
fn envelope_blank_fields_are_rejected_in_order() {
    assert_eq!(
        validate_decision_envelope("1.0", " ", "", "", ""),
        Err("strategy decision event_id is empty".to_string())
    );
    assert_eq!(
        validate_decision_envelope("1.0", "e", "s", "A", "  "),
        Err("strategy decision symbol is empty".to_string())
    );
    assert_eq!(
        validate_market_envelope("0.9", "e", "BTCUSDT"),
        Err("unsupported market signal schema_version '0.9' expected '1.0'".to_string())
    );
    assert_eq!(
        validate_market_envelope("1.0", "e", ""),
        Err("market signal symbol is empty".to_string())
    );
    assert_eq!(validate_market_envelope("1.0", "e", "BTCUSDT"), Ok(()));
}

#[test]
fn integer_parsing_matches_std() {
    for s in ["0", "+7", "-7", "9223372036854775807", "-9223372036854775808", "9223372036854775808", "", "-", "+", " 1", "1a", "007"] {
        assert_eq!(parse_i64(s), s.parse::<i64>().ok(), "input {s:?}");
    }
    for s in ["0", "+18446744073709551615", "18446744073709551616", "-1", "", "12"] {
        assert_eq!(parse_u64(s), s.parse::<u64>().ok(), "input {s:?}");
    }
    assert_eq!(format_u128(0).iter().collect::<String>(), "0");
    assert_eq!(format_u128(u128::MAX).iter().collect::<String>(), u128::MAX.to_string());
}

#[test]
fn keyed_store_is_a_map() {
    let mut s: KeyedStore<u32> = KeyedStore::new();
    s.insert("a".to_string(), 1);
    s.insert("b".to_string(), 2);
    s.insert("a".to_string(), 3);
    assert_eq!(s.len(), 2);
    assert_eq!(s.get("a"), Some(&3));
    assert_eq!(s.remove("a"), Some(3));
    assert_eq!(s.get("a"), None);
    assert_eq!(s.remove("zz"), None);
    assert_eq!(s.len(), 1);
}

#[test]
fn uppercase_follows_unicode() {
    let list = parse_allowlist("dogeusdt,straßeusdt");
    assert!(list.contains("DOGEUSDT"));
    assert!(list.contains("STRASSEUSDT"));
    assert!(!list.contains("straßeusdt"));
}

#[test]
fn entry_pressure_dominant_gate_consensus_when_highest() {
    let g = dominant_entry_gate(100, 50, 30);
    assert_eq!(g, EntryGate::Consensus);
    assert_eq!(g.label(), "consensus");
    assert_eq!(g.reason(), "entry_pressure_consensus");
}

#[test]
fn entry_pressure_dominant_gate_volume_when_highest() {
    let g = dominant_entry_gate(30, 100, 50);
    assert_eq!(g.label(), "volume");
    assert_eq!(g.reason(), "entry_pressure_volume");
}

#[test]
fn entry_pressure_dominant_gate_macd_when_highest() {
    let g = dominant_entry_gate(30, 50, 100);
    assert_eq!(g.label(), "macd");
    assert_eq!(g.reason(), "entry_pressure_macd");
}

#[test]
fn entry_gate_ties_prefer_consensus_then_volume() {
    assert_eq!(dominant_entry_gate(5, 5, 5), EntryGate::Consensus);
    assert_eq!(dominant_entry_gate(1, 5, 5), EntryGate::Volume);
    assert_eq!(dominant_entry_gate(0, 0, 0), EntryGate::Consensus);
}
