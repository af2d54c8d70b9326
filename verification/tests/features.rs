//! Tests of the histogram, value area, order flow, quote imbalance,
//! volatility and the feature engine.
//!
//! One price unit is 0.1 of quote currency unless a test says otherwise; one
//! size unit is 0.001 of a contract; ratios are in basis points and
//! volatility in millionths.

use auction_trader::config::Config;
use auction_trader::engine::FeatureEngine;
use auction_trader::histogram::RollingHistogram;
use auction_trader::order_flow::OrderFlowAggregator;
use auction_trader::order_flow::QuoteImbalanceTracker;
use auction_trader::types::Bar1m;
use auction_trader::types::ClassifiedTrade;
use auction_trader::types::Trade;
use auction_trader::types::TradeSide;
use auction_trader::value_area::BinVol;
use auction_trader::value_area::ValueAreaComputer;
use auction_trader::value_area::ValueAreaConfig;
use auction_trader::volatility::RollingVolatility;

#[test]
fn histogram_test_single_trade() {
    let mut hist = RollingHistogram::new(10, 5);

    hist.add_trade(0, 1005, 10_000);
    hist.flush_current_minute();

    assert_eq!(hist.bin_count(), 1);
    assert_eq!(hist.total_volume(), 10_000);
}

#[test]
fn test_multiple_trades_same_bin() {
    let mut hist = RollingHistogram::new(10, 5);

    hist.add_trade(0, 1002, 5_000);
    hist.add_trade(0, 1008, 5_000);
    hist.flush_current_minute();

    assert_eq!(hist.bin_count(), 1);
    assert_eq!(hist.total_volume(), 10_000);
}

#[test]
fn test_multiple_bins() {
    let mut hist = RollingHistogram::new(10, 5);

    hist.add_trade(0, 1005, 5_000);
    hist.add_trade(0, 1015, 5_000);
    hist.add_trade(0, 1025, 5_000);
    hist.flush_current_minute();

    assert_eq!(hist.bin_count(), 3);
    assert_eq!(hist.total_volume(), 15_000);
}

#[test]
fn histogram_test_rolling_window() {
    let mut hist = RollingHistogram::new(10, 3);

    for min in 0..5i64 {
        hist.add_trade(min, 1000 + 10 * min, 10_000);
        hist.flush_current_minute();
    }

    assert_eq!(hist.minute_count(), 3);
    // Volume from the three retained minutes.
    assert_eq!(hist.total_volume(), 30_000);
}

#[test]
fn test_aggregate_to_wider_bins() {
    let mut hist = RollingHistogram::new(10, 5);

    hist.add_trade(0, 1005, 10_000);
    hist.add_trade(0, 1015, 20_000);
    hist.add_trade(0, 1025, 30_000);
    hist.add_trade(0, 1035, 40_000);
    hist.flush_current_minute();

    let agg = hist.aggregate_to(20);

    assert_eq!(agg.len(), 2);
    assert_eq!(agg[0], BinVol { price: 1000, volume: 30_000 });
    assert_eq!(agg[1], BinVol { price: 1020, volume: 70_000 });
}

#[test]
fn test_is_ready() {
    let mut hist = RollingHistogram::new(10, 3);

    assert!(!hist.is_ready());

    for min in 0..3i64 {
        hist.add_trade(min, 1000, 10_000);
        hist.flush_current_minute();
    }

    assert!(hist.is_ready());
}

#[test]
fn test_histogram_conservation() {
    // The aggregate's total always equals the summed totals of the retained
    // minutes, across adds, flushes and evictions.
    let mut hist = RollingHistogram::new(10, 2);
    hist.add_trade(0, 1000, 7_000);
    hist.add_trade(0, 1010, 3_000);
    hist.flush_current_minute();
    assert_eq!(hist.total_volume(), 10_000);
    hist.add_trade(1, 1020, 5_000);
    hist.flush_current_minute();
    assert_eq!(hist.total_volume(), 15_000);
    hist.add_trade(2, 1030, 4_000);
    hist.flush_current_minute();
    // The first minute fell out of the two-minute window.
    assert_eq!(hist.minute_count(), 2);
    assert_eq!(hist.total_volume(), 9_000);
}

fn make_histogram(data: &[(i64, i128)]) -> Vec<BinVol> {
    data.iter().map(|&(price, volume)| BinVol { price, volume }).collect()
}

#[test]
fn test_simple_va() {
    let computer = ValueAreaComputer::new(ValueAreaConfig { va_fraction: 7000, min_bins: 3 });

    let hist = make_histogram(&[
        (980, 50_000),
        (990, 100_000),
        (1000, 200_000),
        (1010, 100_000),
        (1020, 50_000),
    ]);

    let va = computer.compute(&hist, 10);

    assert!(va.is_valid);
    assert_eq!(va.poc, 1005);
    assert_eq!(va.total_volume, 500_000);
}

#[test]
fn test_asymmetric_va() {
    let computer = ValueAreaComputer::new(ValueAreaConfig { va_fraction: 7000, min_bins: 3 });

    let hist = make_histogram(&[
        (980, 10_000),
        (990, 20_000),
        (1000, 100_000),
        (1010, 80_000),
        (1020, 60_000),
    ]);

    let va = computer.compute(&hist, 10);

    assert!(va.is_valid);
    assert_eq!(va.poc, 1005);
}

#[test]
fn test_insufficient_bins() {
    let computer = ValueAreaComputer::new(ValueAreaConfig { va_fraction: 7000, min_bins: 20 });

    let hist = make_histogram(&[(1000, 100_000), (1010, 100_000)]);

    let va = computer.compute(&hist, 10);
    assert!(!va.is_valid);
}

#[test]
fn test_poc_at_edge() {
    let computer = ValueAreaComputer::new(ValueAreaConfig { va_fraction: 7000, min_bins: 3 });

    let hist = make_histogram(&[
        (1000, 200_000),
        (1010, 50_000),
        (1020, 50_000),
        (1030, 50_000),
    ]);

    let va = computer.compute(&hist, 10);

    assert!(va.is_valid);
    assert_eq!(va.val, 1000);
}

#[test]
fn test_va_coverage() {
    let computer = ValueAreaComputer::new(ValueAreaConfig { va_fraction: 7000, min_bins: 3 });

    let hist = make_histogram(&[
        (980, 100_000),
        (990, 100_000),
        (1000, 100_000),
        (1010, 100_000),
        (1020, 100_000),
    ]);

    let va = computer.compute(&hist, 10);

    assert!(va.is_valid);
    assert!(va.coverage >= 7000);
}

#[test]
fn test_empty_histogram() {
    let computer = ValueAreaComputer::new(ValueAreaConfig::default());
    let hist: Vec<BinVol> = Vec::new();
    let va = computer.compute(&hist, 10);
    assert!(!va.is_valid);
}

fn make_classified(ts_ms: i64, size: i64, side: TradeSide) -> ClassifiedTrade {
    ClassifiedTrade {
        trade: Trade { ts_ms, price: 500000, size },
        side,
        quote_bid_px: 500000,
        quote_ask_px: 500010,
        quote_staleness_ms: 10,
    }
}

#[test]
fn test_single_minute() {
    let mut agg = OrderFlowAggregator::new(10);

    agg.add_trade(&make_classified(60_000, 1000, TradeSide::Buy));
    agg.add_trade(&make_classified(60_000 + 30_000, 2000, TradeSide::Sell));
    agg.add_trade(&make_classified(60_000 + 45_000, 500, TradeSide::Ambiguous));

    let metrics = agg.get_minute(60_000).unwrap();

    assert_eq!(metrics.buy_volume, 1000);
    assert_eq!(metrics.sell_volume, 2000);
    assert_eq!(metrics.ambiguous_volume, 500);
    assert_eq!(metrics.of_1m, -1000);
    assert_eq!(metrics.total_volume, 3500);
}

#[test]
fn order_flow_test_multiple_minutes() {
    let mut agg = OrderFlowAggregator::new(10);

    agg.add_trade(&make_classified(60_000, 1000, TradeSide::Buy));
    agg.add_trade(&make_classified(120_000, 2000, TradeSide::Sell));

    let m1 = agg.get_minute(60_000).unwrap();
    let m2 = agg.get_minute(120_000).unwrap();

    assert_eq!(m1.of_1m, 1000);
    assert_eq!(m2.of_1m, -2000);
}

#[test]
fn test_rolling_metrics() {
    let mut agg = OrderFlowAggregator::new(10);

    agg.add_trade(&make_classified(60_000, 1000, TradeSide::Buy));
    agg.add_trade(&make_classified(120_000, 2000, TradeSide::Buy));
    agg.add_trade(&make_classified(180_000, 3000, TradeSide::Sell));

    let rolling = agg.get_rolling(3);

    assert_eq!(rolling.buy_volume, 3000);
    assert_eq!(rolling.sell_volume, 3000);
    assert_eq!(rolling.of_1m, 0);
}

#[test]
fn test_normalized_of() {
    let mut agg = OrderFlowAggregator::new(10);

    agg.add_trade(&make_classified(60_000, 10_000, TradeSide::Buy));

    let metrics = agg.get_minute(60_000).unwrap();
    assert_eq!(metrics.of_norm_1m, 10000);

    agg.add_trade(&make_classified(120_000, 10_000, TradeSide::Sell));

    let metrics2 = agg.get_minute(120_000).unwrap();
    assert_eq!(metrics2.of_norm_1m, -10000);
}

#[test]
fn test_qimb_tracker() {
    let mut tracker = QuoteImbalanceTracker::new(1000, 60);

    tracker.add(60_000, 1000);
    tracker.add(60_500, 2000);
    tracker.add(61_000, 3000);

    let avg = tracker.avg_for_minute(60_000);
    assert_eq!(avg, 2000);
}

#[test]
fn test_not_ready() {
    let vol = RollingVolatility::new(240);
    assert!(!vol.is_ready());
    assert!(vol.volatility().is_none());
}

#[test]
fn test_constant_price() {
    let mut vol = RollingVolatility::new(5);

    for _ in 0..10 {
        vol.add_price(1_000_000);
    }

    assert_eq!(vol.volatility(), Some(0));
}

#[test]
fn test_alternating_price() {
    let mut vol = RollingVolatility::new(4);

    vol.add_price(1_000_000);
    vol.add_price(1_010_000);
    vol.add_price(1_000_000);
    vol.add_price(1_010_000);
    vol.add_price(1_000_000);

    let sigma = vol.volatility().unwrap();
    assert!(sigma > 0);
}

#[test]
fn volatility_test_rolling_window() {
    let mut vol = RollingVolatility::new(3);

    vol.add_price(1_000_000);
    vol.add_price(1_010_000);
    vol.add_price(1_020_000);
    vol.add_price(1_030_000);

    assert_eq!(vol.count(), 3);

    vol.add_price(1_040_000);
    assert_eq!(vol.count(), 3);
}

#[test]
fn test_known_volatility() {
    let mut vol = RollingVolatility::new(3);

    // Returns of exactly 1%, 2% and 3% in millionths: 10 000, 20 000,
    // 30 000. The population deviation is sqrt(2/3) * 10^4 = 8164.9...,
    // carried as floor(isqrt(3 * 1.4e9 - 6e8^?) / 3) = 8164.
    vol.add_price(1_000_000);
    vol.add_price(1_010_000);
    vol.add_price(1_030_200);
    vol.add_price(1_061_106);

    assert_eq!(vol.volatility(), Some(8164));
}

fn default_config() -> Config {
    let mut config = Config::default();
    config.instrument.rolling_window_minutes = 5;
    config.value_area.min_va_bins = 3;
    config
}

fn make_bar(ts_min: i64, close: i64) -> Bar1m {
    Bar1m {
        ts_min,
        open: close,
        high: close + 100,
        low: close - 100,
        close,
        volume: 100_000,
        vwap_num: close as i128 * 100_000,
        trade_count: 10,
        bid_px_close: close - 5,
        ask_px_close: close + 5,
        bid_sz_close: 100_000,
        ask_sz_close: 100_000,
    }
}

fn make_engine_trade(ts_ms: i64, price: i64, size: i64, side: TradeSide) -> ClassifiedTrade {
    ClassifiedTrade {
        trade: Trade { ts_ms, price, size },
        side,
        quote_bid_px: price - 5,
        quote_ask_px: price + 5,
        quote_staleness_ms: 10,
    }
}

#[test]
fn test_engine_creation() {
    let config = default_config();
    let engine = FeatureEngine::new(&config);
    assert!(!engine.is_ready());
}

#[test]
fn test_warmup() {
    let config = default_config();
    let mut engine = FeatureEngine::new(&config);

    // A window of five returns needs six bar closes: the first close only
    // seeds the previous price.
    for i in 0..6i64 {
        let ts_min = (i + 1) * 60_000;

        for j in 0..10i64 {
            let price = 500_000 + (i * 10 + j) * 10;
            engine.add_trade(&make_engine_trade(ts_min + j * 1000, price, 1000, TradeSide::Buy));
        }

        engine.add_bar(&make_bar(ts_min, 500_000 + i * 100));
    }

    assert!(engine.is_ready());
}

#[test]
fn test_compute_features() {
    let config = default_config();
    let mut engine = FeatureEngine::new(&config);

    for i in 0..5i64 {
        let ts_min = (i + 1) * 60_000;

        for j in 0..10i64 {
            let price = 500_000 + j * 10;
            engine.add_trade(&make_engine_trade(ts_min + j * 1000, price, 1000, TradeSide::Buy));
        }

        engine.add_bar(&make_bar(ts_min, 500_000 + i * 10));
    }

    let ts_min = 5 * 60_000;
    let bar = make_bar(ts_min, 500_040);
    let features = engine.compute_features(ts_min, &bar);

    assert!(features.va.is_valid || !engine.is_ready());
    assert!(features.sigma_240 >= 0);
}
