//! Seed scenarios with literal inputs and literal expectations.
//!
//! One price unit is 0.1 of quote currency, one size unit 0.001 of a
//! contract, so one price·size unit is 10^-4 of currency.

use auction_trader::bar_builder::BarBuilder;
use auction_trader::fill_model::FillModel;
use auction_trader::fill_model::FillModelConfig;
use auction_trader::types::ClassifiedTrade;
use auction_trader::types::Quote;
use auction_trader::types::Trade;
use auction_trader::types::TradeSide;
use auction_trader::value_area::BinVol;
use auction_trader::value_area::ValueAreaComputer;
use auction_trader::value_area::ValueAreaConfig;

fn quote(bid: i64, ask: i64) -> Quote {
    Quote { ts_ms: 0, bid_px: bid, bid_sz: 100_000, ask_px: ask, ask_sz: 100_000 }
}

#[test]
fn scenario_market_buy_slippage() {
    // Tick 0.1, one tick of entry slippage, 5 bps taker fee; quote
    // bid 50 000, ask 50 001. A market buy of 0.1 fills at 50 001.1 with
    // 0.1 of slippage; the fee is notional * 5 / 10000 = 2.500055, truncated
    // to whole price·size units as 2.5000.
    let model = FillModel::new(FillModelConfig {
        slippage_ticks_entry: 1,
        slippage_ticks_exit: 1,
        tick_size: 1,
        taker_fee_bps: 5,
        maker_fee_bps: -1,
    });
    let q = quote(500000, 500010);
    let fill = model.market_buy(1000, &q, 100);
    assert_eq!(fill.price, 500011);
    assert_eq!(fill.slippage, 1);
    assert_eq!(fill.fee, 25000);
    assert!(((fill.fee as f64) * 1e-4 - 2.500055f64).abs() < 0.01);
}

#[test]
fn scenario_limit_buy_hits() {
    // Default config, quote (50 000, 50 001): a limit buy at 50 002 fills at
    // the ask, 50 001.0; a limit buy at 50 000 does not fill.
    let model = FillModel::new(FillModelConfig::default());
    let q = quote(500000, 500010);

    let fill = model.limit_buy(1000, 500020, &q, 100);
    assert_eq!(fill.unwrap().price, 500010);

    let miss = model.limit_buy(1000, 500000, &q, 100);
    assert!(miss.is_none());
}

#[test]
fn scenario_bar_vwap() {
    // Trades inside the minute [60 000, 120 000): 100 contracts at 50 000,
    // then 200 at 50 010. The emitted bar's weighted value is exactly
    // 100 * 50 000 + 200 * 50 010 over a volume of 300.
    let mut builder = BarBuilder::new();
    builder.add_quote(Quote {
        ts_ms: 119_999,
        bid_px: 500000,
        bid_sz: 1000,
        ask_px: 500010,
        ask_sz: 1000,
    });
    let t1 = ClassifiedTrade {
        trade: Trade { ts_ms: 70_000, price: 500000, size: 100_000 },
        side: TradeSide::Buy,
        quote_bid_px: 500000,
        quote_ask_px: 500010,
        quote_staleness_ms: 5,
    };
    let t2 = ClassifiedTrade {
        trade: Trade { ts_ms: 80_000, price: 500100, size: 200_000 },
        side: TradeSide::Buy,
        quote_bid_px: 500000,
        quote_ask_px: 500010,
        quote_staleness_ms: 5,
    };
    builder.add_trade(&t1);
    builder.add_trade(&t2);
    let bars = builder.finalize_before(125_000);
    assert_eq!(bars.len(), 1);
    assert_eq!(bars[0].vwap_num, 500000i128 * 100_000 + 500100i128 * 200_000);
    assert_eq!(bars[0].volume, 300_000);
    let expected = (100.0f64 * 50_000.0 + 200.0 * 50_010.0) / 300.0;
    let got = bars[0].vwap_num as f64 / bars[0].volume as f64 * 0.1;
    assert!((got - expected).abs() < 1e-9);
}

#[test]
fn scenario_value_area_symmetric() {
    // Bins at 98:50, 99:100, 100:200, 101:100, 102:50 with width 1 and a 70%
    // target over at least 3 bins. The point of control alone covers 200 of
    // 500; the tie between 99 and 101 goes to the lower side first, then 101
    // joins, reaching 400 of the 350 target. So poc = 100.5, val = 99,
    // vah = 102, coverage 80%.
    let computer = ValueAreaComputer::new(ValueAreaConfig { va_fraction: 7000, min_bins: 3 });
    let hist = vec![
        BinVol { price: 980, volume: 50_000 },
        BinVol { price: 990, volume: 100_000 },
        BinVol { price: 1000, volume: 200_000 },
        BinVol { price: 1010, volume: 100_000 },
        BinVol { price: 1020, volume: 50_000 },
    ];
    let va = computer.compute(&hist, 10);
    assert!(va.is_valid);
    assert_eq!(va.poc, 1005);
    assert_eq!(va.val, 990);
    assert_eq!(va.vah, 1020);
    assert_eq!(va.coverage, 8000);
    assert_eq!(va.bin_count, 3);
    assert!(va.val <= va.poc && va.poc <= va.vah);
    assert!(va.coverage >= 7000);
}
