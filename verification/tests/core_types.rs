//! Tests of the core data types and configuration.
//!
//! Unit conventions: one price unit is 0.1 of quote currency, one size unit
//! is 0.001 of a contract, so one price·size unit is 10^-4 of currency.

use auction_trader::ts_to_minute;
use auction_trader::config::Config;
use auction_trader::types::Quote;
use auction_trader::types::SignalType;
use auction_trader::types::TradeSide;

#[test]
fn test_ts_to_minute() {
    let ts = 1704067290500i64;
    let minute = ts_to_minute(ts);
    assert_eq!(minute, 1704067260000);
}

#[test]
fn test_quote_mid() {
    let quote = Quote { ts_ms: 0, bid_px: 500000, bid_sz: 1000, ask_px: 500100, ask_sz: 1000 };
    assert_eq!(quote.mid(), 500050);
}

#[test]
fn test_quote_imbalance() {
    let quote = Quote { ts_ms: 0, bid_px: 500000, bid_sz: 100000, ask_px: 500100, ask_sz: 50000 };
    // (100 - 50) / (100 + 50) = 1/3, truncated to 3333 basis points.
    assert_eq!(quote.imbalance(), 3333);
}

#[test]
fn test_trade_side_sign() {
    assert_eq!(TradeSide::Buy.sign(), 1);
    assert_eq!(TradeSide::Sell.sign(), -1);
    assert_eq!(TradeSide::Ambiguous.sign(), 0);
}

#[test]
fn test_signal_priority() {
    assert!(SignalType::BreakinLong.priority() < SignalType::FailedBreakoutLong.priority());
    assert!(SignalType::FailedBreakoutShort.priority() < SignalType::BreakoutShort.priority());
}

#[test]
fn test_default_config() {
    let config = Config::default();
    assert_eq!(config.value_area.va_fraction, 7000);
    assert_eq!(config.signal.accept_outside_k, 3);
    assert_eq!(config.sizing.risk_pct, 200);
}

#[test]
fn test_signal_long_short() {
    assert!(SignalType::BreakoutLong.is_long());
    assert!(!SignalType::BreakoutLong.is_short());
    assert!(SignalType::BreakinShort.is_short());
    assert!(SignalType::FailedBreakoutShort.is_short());
}

#[test]
fn test_imbalance_zero_sizes() {
    let quote = Quote { ts_ms: 0, bid_px: 500000, bid_sz: 0, ask_px: 500100, ask_sz: 0 };
    assert_eq!(quote.imbalance(), 0);
}
