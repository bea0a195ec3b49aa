use vipertrade::align::{
    align_candles, align_error_message, AlignError, CANDLE_INTERVAL_MS, REQUIRED_CANDLE_COUNT,
};
use vipertrade::clock::unix_time_ms;

fn series(timestamps: &[i64], price: u32) -> Vec<(i64, u32)> {
    timestamps.iter().map(|ts| (*ts, price)).collect()
}

fn message(sources: &[&str], e: AlignError) -> String {
    let source = match e {
        AlignError::ClosedIncomplete { index, .. } | AlignError::CountMismatch { index, .. } => {
            sources[index]
        }
        _ => "",
    };
    align_error_message("BTCUSDT", source, e)
}

#[test]
fn align_empty_snapshots_returns_error() {
    let err = align_candles::<u32>(&vec![], unix_time_ms()).unwrap_err();
    assert_eq!(err, AlignError::NoSnapshots);
    assert!(message(&[], err).contains("no exchange snapshots"));
}

#[test]
fn align_partial_overlap_produces_exact_count() {
    let interval = 60_000i64;
    let n = 210usize;
    let now = unix_time_ms();
    let start = now - (n as i64 * interval) - 3_600_000;

    let bybit_ts: Vec<i64> = (0..n).map(|i| start + i as i64 * interval).collect();
    let binance_ts: Vec<i64> = (1..=n).map(|i| start + i as i64 * interval).collect();
    let okx_ts: Vec<i64> = (2..=(n + 1)).map(|i| start + i as i64 * interval).collect();

    let input = vec![series(&bybit_ts, 100), series(&binance_ts, 101), series(&okx_ts, 102)];
    let (keep, out) = align_candles(&input, now).expect("alignment");

    for snap in &out {
        assert_eq!(snap.len(), REQUIRED_CANDLE_COUNT);
    }
    let ref_ts: Vec<i64> = out[0].iter().map(|c| c.0).collect();
    assert_eq!(ref_ts, keep);
    for snap in &out[1..] {
        let ts: Vec<i64> = snap.iter().map(|c| c.0).collect();
        assert_eq!(ts, ref_ts);
    }
    // Payloads stay with their series.
    assert!(out[1].iter().all(|c| c.1 == 101));
}

#[test]
fn align_identical_timestamps_keeps_last_200() {
    let interval = 60_000i64;
    let n = 220usize;
    let now = unix_time_ms();
    let start = now - (n as i64 * interval) - 3_600_000;

    let ts: Vec<i64> = (0..n).map(|i| start + i as i64 * interval).collect();
    let input = vec![series(&ts, 100), series(&ts, 101)];

    let (_, out) = align_candles(&input, now).expect("alignment");
    for snap in &out {
        assert_eq!(snap.len(), REQUIRED_CANDLE_COUNT);
    }
    let last_ts: Vec<i64> = ts[ts.len() - REQUIRED_CANDLE_COUNT..].to_vec();
    let aligned_ts: Vec<i64> = out[0].iter().map(|c| c.0).collect();
    assert_eq!(aligned_ts, last_ts);
}

#[test]
fn align_insufficient_overlap_rejected() {
    let interval = 60_000i64;
    let now = unix_time_ms();
    let start = now - (250 * interval) - 3_600_000;

    let bybit_ts: Vec<i64> = (0..210).map(|i| start + i as i64 * interval).collect();
    let binance_ts: Vec<i64> = (150..360).map(|i| start + i as i64 * interval).collect();

    let input = vec![series(&bybit_ts, 100), series(&binance_ts, 101)];
    let err = align_candles(&input, now).unwrap_err();
    let text = message(&["bybit", "binance"], err);
    assert!(text.contains("incomplete"), "expected alignment error: {text}");
}

#[test]
fn align_drops_open_and_non_positive_candles() {
    let now = 1_000_000_000i64;
    let mut ts: Vec<i64> = (1..=200).map(|i| now - 60_000 - (200 - i) * 60_000).collect();
    ts.push(now - 30_000); // still open
    ts.push(0); // no open time
    let (keep, out) = align_candles(&vec![series(&ts, 1)], now).expect("alignment");
    assert_eq!(keep.len(), 200);
    assert_eq!(*keep.last().unwrap(), now - 60_000);
    assert_eq!(out[0].len(), 200);
}

#[test]
fn align_reports_the_first_short_series() {
    let now = 1_000_000_000i64;
    let full: Vec<i64> = (0..200).map(|i| now - 60_000 - i * 60_000).collect();
    let short: Vec<i64> = full[..150].to_vec();
    let err = align_candles(&vec![series(&full, 1), series(&short, 2), series(&short, 3)], now)
        .unwrap_err();
    assert_eq!(err, AlignError::ClosedIncomplete { index: 1, got: 150 });
    assert_eq!(
        message(&["bybit", "binance", "okx"], err),
        "binance BTCUSDT closed candles incomplete: expected at least 200, got 150"
    );
}

#[test]
fn align_rejects_duplicate_kept_timestamps() {
    let now = 1_000_000_000i64;
    let full: Vec<i64> = (0..200).map(|i| now - 60_000 - i * 60_000).collect();
    let mut dup = full.clone();
    dup.push(full[0]);
    let err = align_candles(&vec![series(&full, 1), series(&dup, 2)], now).unwrap_err();
    assert_eq!(err, AlignError::CountMismatch { index: 1, got: 201 });
    assert_eq!(
        message(&["bybit", "okx"], err),
        "okx BTCUSDT aligned candle count mismatch: expected 200, got 201"
    );
}

#[test]
fn align_common_shortfall_is_counted() {
    let now = 1_000_000_000i64;
    let a: Vec<i64> = (0..200).map(|i| now - 60_000 - i * 60_000).collect();
    let b: Vec<i64> = (10..210).map(|i| now - 60_000 - i * 60_000).collect();
    let err = align_candles(&vec![series(&a, 1), series(&b, 2)], now).unwrap_err();
    assert_eq!(err, AlignError::CommonIncomplete { got: 190 });
    assert_eq!(
        message(&["a", "b"], err),
        "BTCUSDT aligned closed candles incomplete across exchanges: expected at least 200, got 190"
    );
    assert_eq!(CANDLE_INTERVAL_MS, 60_000);
}
