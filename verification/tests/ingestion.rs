//! Tests of trade classification and bar building.
//!
//! One price unit is 0.1 of quote currency, one size unit 0.001 of a
//! contract.

use auction_trader::bar_builder::BarBuilder;
use auction_trader::classifier::TradeClassifier;
use auction_trader::types::ClassifiedTrade;
use auction_trader::types::Quote;
use auction_trader::types::Trade;
use auction_trader::types::TradeSide;

fn make_quote(ts_ms: i64, bid: i64, ask: i64) -> Quote {
    Quote { ts_ms, bid_px: bid, bid_sz: 1000, ask_px: ask, ask_sz: 1000 }
}

fn make_trade(ts_ms: i64, price: i64, size: i64) -> Trade {
    Trade { ts_ms, price, size }
}

#[test]
fn test_classify_at_ask() {
    let mut classifier = TradeClassifier::new(250, false);
    classifier.add_quote(make_quote(1000, 500000, 500010));

    let trade = make_trade(1100, 500010, 100);
    let classified = classifier.classify(trade);

    assert_eq!(classified.side, TradeSide::Buy);
    assert_eq!(classified.quote_bid_px, 500000);
    assert_eq!(classified.quote_ask_px, 500010);
}

#[test]
fn test_classify_at_bid() {
    let mut classifier = TradeClassifier::new(250, false);
    classifier.add_quote(make_quote(1000, 500000, 500010));

    let trade = make_trade(1100, 500000, 100);
    let classified = classifier.classify(trade);

    assert_eq!(classified.side, TradeSide::Sell);
}

#[test]
fn test_classify_ambiguous() {
    let mut classifier = TradeClassifier::new(250, false);
    classifier.add_quote(make_quote(1000, 500000, 500020));

    let trade = make_trade(1100, 500010, 100);
    let classified = classifier.classify(trade);

    assert_eq!(classified.side, TradeSide::Ambiguous);
}

#[test]
fn test_tick_rule_fallback() {
    let mut classifier = TradeClassifier::new(250, true);
    classifier.add_quote(make_quote(1000, 500000, 500020));

    let trade1 = make_trade(1100, 500010, 100);
    let _ = classifier.classify(trade1);

    let trade2 = make_trade(1200, 500015, 100);
    let classified2 = classifier.classify(trade2);
    assert_eq!(classified2.side, TradeSide::Buy);

    let trade3 = make_trade(1300, 500005, 100);
    let classified3 = classifier.classify(trade3);
    assert_eq!(classified3.side, TradeSide::Sell);
}

#[test]
fn test_zero_tick_continuation() {
    let mut classifier = TradeClassifier::new(250, true);
    classifier.add_quote(make_quote(1000, 500000, 500020));

    let trade1 = make_trade(1100, 500020, 100);
    let classified1 = classifier.classify(trade1);
    assert_eq!(classified1.side, TradeSide::Buy);

    classifier.add_quote(make_quote(1150, 500010, 500030));
    let trade2 = make_trade(1200, 500020, 100);
    let classified2 = classifier.classify(trade2);
    assert_eq!(classified2.side, TradeSide::Buy);
}

#[test]
fn test_batch_aggregation() {
    let mut classifier = TradeClassifier::new(250, false);
    classifier.add_quote(make_quote(1000, 500000, 500010));

    let trades = vec![
        make_trade(1100, 500010, 100),
        make_trade(1100, 500010, 200),
        make_trade(1200, 500000, 100),
    ];

    let classified = classifier.classify_batch(trades);

    assert_eq!(classified.len(), 2);
    assert_eq!(classified[0].trade.size, 300);
    assert_eq!(classified[1].trade.size, 100);
}

#[test]
fn test_stats() {
    let mut classifier = TradeClassifier::new(250, false);
    classifier.add_quote(make_quote(1000, 500000, 500010));

    classifier.classify(make_trade(1100, 500010, 100));
    classifier.classify(make_trade(1200, 500000, 200));
    classifier.classify(make_trade(1300, 500005, 300));

    let stats = classifier.stats();
    assert_eq!(stats.total_trades, 3);
    assert_eq!(stats.buy_trades, 1);
    assert_eq!(stats.sell_trades, 1);
    assert_eq!(stats.ambiguous_trades, 1);
    assert_eq!(stats.buy_volume, 100);
    assert_eq!(stats.sell_volume, 200);
    assert_eq!(stats.ambiguous_volume, 300);
}

#[test]
fn test_staleness_nonnegative_with_quote() {
    let mut classifier = TradeClassifier::new(250, true);
    classifier.add_quote(make_quote(1000, 500000, 500010));
    let classified = classifier.classify(make_trade(1100, 500010, 100));
    assert_eq!(classified.quote_staleness_ms, 100);
    assert!(classified.quote_staleness_ms >= 0);

    // Without any quote the sentinel marks the quoteless case.
    let mut bare = TradeClassifier::new(250, false);
    let c2 = bare.classify(make_trade(1100, 500010, 100));
    assert_eq!(c2.quote_staleness_ms, i64::MAX);
    assert_eq!(c2.side, TradeSide::Ambiguous);
}

fn make_classified_trade(ts_ms: i64, price: i64, size: i64) -> ClassifiedTrade {
    ClassifiedTrade {
        trade: Trade { ts_ms, price, size },
        side: TradeSide::Buy,
        quote_bid_px: price - 5,
        quote_ask_px: price + 5,
        quote_staleness_ms: 10,
    }
}

#[test]
fn bar_builder_test_single_trade() {
    let mut builder = BarBuilder::new();

    builder.add_quote(make_quote(60_000 + 59_999, 500000, 500010));

    let trade = make_classified_trade(60_000 + 30_000, 500005, 100);
    builder.add_trade(&trade);

    let bars = builder.finalize_before(120_000 + 1000);

    assert_eq!(bars.len(), 1);
    assert_eq!(bars[0].ts_min, 60_000);
    assert_eq!(bars[0].open, 500005);
    assert_eq!(bars[0].close, 500005);
    assert_eq!(bars[0].volume, 100);
    assert_eq!(bars[0].trade_count, 1);
    assert_eq!(bars[0].bid_px_close, 500000);
}

#[test]
fn test_multiple_trades_same_minute() {
    let mut builder = BarBuilder::new();
    builder.add_quote(make_quote(60_000 + 59_999, 500000, 500020));

    builder.add_trade(&make_classified_trade(60_000 + 10_000, 500000, 100));
    builder.add_trade(&make_classified_trade(60_000 + 20_000, 500050, 200));
    builder.add_trade(&make_classified_trade(60_000 + 30_000, 499950, 100));
    builder.add_trade(&make_classified_trade(60_000 + 50_000, 500010, 100));

    let bars = builder.finalize_before(120_000 + 1000);

    assert_eq!(bars.len(), 1);
    assert_eq!(bars[0].open, 500000);
    assert_eq!(bars[0].high, 500050);
    assert_eq!(bars[0].low, 499950);
    assert_eq!(bars[0].close, 500010);
    assert_eq!(bars[0].volume, 500);
    assert_eq!(bars[0].trade_count, 4);
}

#[test]
fn test_vwap_calculation() {
    let mut builder = BarBuilder::new();
    builder.add_quote(make_quote(60_000 + 59_999, 500000, 500020));

    // 100 contracts at 50 000, then 200 contracts at 50 010: the weighted
    // average is (100 * 50 000 + 200 * 50 010) / 300.
    builder.add_trade(&make_classified_trade(60_000 + 10_000, 500000, 100_000));
    builder.add_trade(&make_classified_trade(60_000 + 20_000, 500100, 200_000));

    let bars = builder.finalize_before(120_000 + 1000);

    assert_eq!(bars.len(), 1);
    assert_eq!(bars[0].vwap_num, 500000i128 * 100_000 + 500100i128 * 200_000);
    assert_eq!(bars[0].volume, 300_000);
    // Exactly 50 006.6 after rounding down to a whole price unit.
    assert_eq!(bars[0].vwap(), Some(500066));
}

#[test]
fn bar_builder_test_multiple_minutes() {
    let mut builder = BarBuilder::new();

    builder.add_quote(make_quote(60_000 + 59_999, 500000, 500010));
    builder.add_quote(make_quote(120_000 + 59_999, 500100, 500110));

    builder.add_trade(&make_classified_trade(60_000 + 30_000, 500005, 100));
    builder.add_trade(&make_classified_trade(120_000 + 30_000, 500105, 200));

    let bars = builder.finalize_before(180_000 + 1000);

    assert_eq!(bars.len(), 2);
    assert_eq!(bars[0].ts_min, 60_000);
    assert_eq!(bars[1].ts_min, 120_000);
}

#[test]
fn test_incomplete_bar_not_finalized() {
    let mut builder = BarBuilder::new();

    builder.add_trade(&make_classified_trade(60_000 + 30_000, 500005, 100));

    let bars = builder.finalize_before(60_000 + 45_000);

    assert_eq!(bars.len(), 0);
    assert_eq!(builder.pending_bar_count(), 1);
}

#[test]
fn test_bar_invariants_hold() {
    let mut builder = BarBuilder::new();
    builder.add_quote(make_quote(60_000 + 59_999, 500000, 500020));
    builder.add_trade(&make_classified_trade(60_000 + 10_000, 500010, 70));
    builder.add_trade(&make_classified_trade(60_000 + 20_000, 499990, 30));
    let bars = builder.finalize_before(130_000);
    assert_eq!(bars.len(), 1);
    let b = &bars[0];
    assert!(b.low <= b.open && b.open <= b.high);
    assert!(b.low <= b.close && b.close <= b.high);
    assert_eq!(b.volume, 100);
    assert!(b.trade_count >= 1);
}
