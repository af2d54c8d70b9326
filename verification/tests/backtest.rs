//! Tests of the fill model, the position tracker, the metrics calculator and
//! the backtest simulator.
//!
//! One price unit is 0.1 of quote currency, one size unit 0.001 of a
//! contract, so one price·size unit is 10^-4 of currency.

use auction_trader::fill_model::FillModel;
use auction_trader::fill_model::FillModelConfig;
use auction_trader::metrics::MetricsCalculator;
use auction_trader::position::ClosedTrade;
use auction_trader::position::ExitReason;
use auction_trader::position::Position;
use auction_trader::position::PositionTracker;
use auction_trader::simulator::BacktestConfig;
use auction_trader::simulator::BacktestSimulator;
use auction_trader::simulator::Signal;
use auction_trader::types::Action;
use auction_trader::types::Fill;
use auction_trader::types::PositionSide;
use auction_trader::types::Quote;
use auction_trader::types::Bar1m;

fn make_quote(bid: i64, ask: i64) -> Quote {
    Quote { ts_ms: 0, bid_px: bid, bid_sz: 100_000, ask_px: ask, ask_sz: 100_000 }
}

#[test]
fn test_market_buy() {
    let model = FillModel::new(FillModelConfig {
        slippage_ticks_entry: 1,
        tick_size: 1,
        taker_fee_bps: 5,
        ..Default::default()
    });

    let quote = make_quote(500000, 500010);
    let fill = model.market_buy(1000, &quote, 100);

    // The ask plus one tick of slippage: 50 001.1.
    assert_eq!(fill.price, 500011);
    assert_eq!(fill.slippage, 1);

    // Notional 50 001.1 * 0.1 in price·size units, at 5 bps, truncated:
    // 500011 * 100 * 5 / 10000 = 25000.55 -> 25000, i.e. 2.5000 currency.
    assert_eq!(fill.fee, 25000);
}

#[test]
fn test_market_sell() {
    let model = FillModel::new(FillModelConfig {
        slippage_ticks_exit: 1,
        tick_size: 1,
        taker_fee_bps: 5,
        ..Default::default()
    });

    let quote = make_quote(500000, 500010);
    let fill = model.market_sell(1000, &quote, 100);

    // The bid less one tick of slippage: 49 999.9.
    assert_eq!(fill.price, 499999);
}

#[test]
fn test_limit_buy_filled() {
    let model = FillModel::new(FillModelConfig::default());
    let quote = make_quote(500000, 500010);

    let fill = model.limit_buy(1000, 500020, &quote, 100);
    assert!(fill.is_some());
    assert_eq!(fill.unwrap().price, 500010);
}

#[test]
fn test_limit_buy_not_filled() {
    let model = FillModel::new(FillModelConfig::default());
    let quote = make_quote(500000, 500010);

    let fill = model.limit_buy(1000, 500000, &quote, 100);
    assert!(fill.is_none());
}

#[test]
fn test_maker_rebate() {
    let model = FillModel::new(FillModelConfig { maker_fee_bps: -1, ..Default::default() });

    // A notional of 10 000 currency units at a 1 bps rebate gives back 1.
    let fee = model.calculate_fee(100_000_000, true);
    assert_eq!(fee, -10_000);
}

fn make_fill(price: i64, size: i64, side: PositionSide) -> Fill {
    Fill { ts_ms: 1000, price, size, side, fee: 10_000, slippage: 1 }
}

#[test]
fn test_open_close_long() {
    let mut tracker = PositionTracker::new();

    tracker.open_position(
        make_fill(500000, 100, PositionSide::Long),
        495000,
        Some(505000),
        Some(510000),
        "test".to_string(),
    );

    assert!(tracker.has_position());
    assert!(tracker.is_long());

    let trade = tracker.close_position(2000, 505000, 100, 10_000, ExitReason::TakeProfit1);

    assert!(trade.is_some());
    let trade = trade.unwrap();
    // 50 currency of raw profit less 1 of entry fee and 1 of exit fee.
    assert_eq!(trade.pnl, 480_000);
    assert_eq!(tracker.wins, 1);
    assert!(!tracker.has_position());
}

#[test]
fn test_partial_exit() {
    let mut tracker = PositionTracker::new();

    tracker.open_position(
        make_fill(500000, 1000, PositionSide::Long),
        495000,
        Some(505000),
        Some(510000),
        "test".to_string(),
    );

    tracker.close_position(2000, 505000, 300, 10_000, ExitReason::TakeProfit1);

    assert!(tracker.has_position());
    assert_eq!(tracker.position.as_ref().unwrap().size, 700);

    tracker.close_position(3000, 510000, 700, 10_000, ExitReason::TakeProfit2);

    assert!(!tracker.has_position());
    assert_eq!(tracker.trades.len(), 2);
}

#[test]
fn test_stop_triggered() {
    let position = Position::new(
        1000,
        PositionSide::Long,
        500000,
        100,
        495000,
        Some(505000),
        Some(510000),
        "test".to_string(),
        10_000,
    );

    assert!(position.is_stopped(494000, 502000));
    assert!(!position.is_stopped(496000, 502000));
}

#[test]
fn test_equity_matches_closed_pnl() {
    let mut tracker = PositionTracker::new();
    tracker.open_position(
        make_fill(500000, 1000, PositionSide::Long),
        495000,
        None,
        None,
        "test".to_string(),
    );
    tracker.close_position(2000, 505000, 400, 0, ExitReason::TakeProfit1);
    tracker.close_position(3000, 495000, 600, 0, ExitReason::StopLoss);
    let sum: i128 = tracker.trades.iter().map(|t| t.pnl).sum();
    assert_eq!(tracker.equity(100_000_000), 100_000_000 + sum);
    // The closed sizes sum exactly to the original position size.
    let closed: i64 = tracker.trades.iter().map(|t| t.size).sum();
    assert_eq!(closed, 1000);
    assert!(!tracker.has_position());
}

fn make_closed(pnl: i128, fees: i128, duration_ms: i64) -> ClosedTrade {
    ClosedTrade {
        entry_ts: 0,
        exit_ts: duration_ms,
        side: PositionSide::Long,
        entry_price: 500000,
        exit_price: 500000,
        size: 100,
        pnl,
        fees,
        funding: 0,
        exit_reason: ExitReason::TakeProfit1,
        strategy_tag: "test".to_string(),
    }
}

#[test]
fn test_basic_metrics() {
    let calculator = MetricsCalculator::new(100_000_000);

    let trades = vec![
        make_closed(1_000_000, 50_000, 60_000),
        make_closed(-500_000, 50_000, 120_000),
        make_closed(750_000, 50_000, 90_000),
    ];

    let metrics = calculator.calculate(&trades);

    assert_eq!(metrics.total_trades, 3);
    assert_eq!(metrics.winning_trades, 2);
    assert_eq!(metrics.losing_trades, 1);
    // 2/3 in basis points, truncated.
    assert_eq!(metrics.win_rate, 6666);
    assert_eq!(metrics.net_pnl, 1_250_000);
}

#[test]
fn test_empty_trades() {
    let calculator = MetricsCalculator::new(100_000_000);
    let metrics = calculator.calculate(&Vec::new());

    assert_eq!(metrics.total_trades, 0);
    assert_eq!(metrics.net_pnl, 0);
}

#[test]
fn test_equity_curve() {
    let calculator = MetricsCalculator::new(100_000_000);

    let trades = vec![
        make_closed(1_000_000, 0, 60_000),
        make_closed(-1_500_000, 0, 120_000),
        make_closed(2_000_000, 0, 180_000),
    ];

    let curve = calculator.build_equity_curve(&trades);

    assert_eq!(curve.len(), 4);
    assert_eq!(curve[0].equity, 100_000_000);
    assert_eq!(curve[1].equity, 101_000_000);
    assert_eq!(curve[2].equity, 99_500_000);
    assert!(curve[2].drawdown > 0);
}

#[test]
fn test_consecutive_wins_losses() {
    let calculator = MetricsCalculator::new(100_000_000);

    let trades = vec![
        make_closed(100_000, 0, 1000),
        make_closed(100_000, 0, 2000),
        make_closed(100_000, 0, 3000),
        make_closed(-50_000, 0, 4000),
        make_closed(-50_000, 0, 5000),
    ];

    let metrics = calculator.calculate(&trades);

    assert_eq!(metrics.max_consecutive_wins, 3);
    assert_eq!(metrics.max_consecutive_losses, 2);
}

#[test]
fn test_metrics_idempotent() {
    let calculator = MetricsCalculator::new(100_000_000);
    let trades = vec![
        make_closed(1_000_000, 50_000, 60_000),
        make_closed(-500_000, 50_000, 120_000),
    ];
    let m1 = calculator.calculate(&trades);
    let m2 = calculator.calculate(&trades);
    assert_eq!(m1.total_trades, m2.total_trades);
    assert_eq!(m1.winning_trades, m2.winning_trades);
    assert_eq!(m1.losing_trades, m2.losing_trades);
    assert_eq!(m1.net_pnl, m2.net_pnl);
    assert_eq!(m1.gross_pnl, m2.gross_pnl);
    assert_eq!(m1.max_drawdown, m2.max_drawdown);
    assert_eq!(m1.total_trades, m1.winning_trades + m1.losing_trades);
}

fn sim_quote(ts_ms: i64, bid: i64, ask: i64) -> Quote {
    Quote { ts_ms, bid_px: bid, bid_sz: 100_000, ask_px: ask, ask_sz: 100_000 }
}

fn make_bar(ts_min: i64, low: i64, high: i64, close: i64) -> Bar1m {
    Bar1m {
        ts_min,
        open: close,
        high,
        low,
        close,
        volume: 100_000,
        vwap_num: close as i128 * 100_000,
        trade_count: 10,
        bid_px_close: close - 5,
        ask_px_close: close + 5,
        bid_sz_close: 100_000,
        ask_sz_close: 100_000,
    }
}

#[test]
fn test_enter_long() {
    let mut sim = BacktestSimulator::new(BacktestConfig::default());

    let signal = Signal {
        ts_ms: 1000,
        action: Action::EnterLong,
        stop_price: Some(495000),
        tp1_price: Some(505000),
        tp2_price: Some(510000),
        size: Some(100),
        strategy_tag: "test".to_string(),
    };

    let quote = sim_quote(1000, 500000, 500010);
    sim.process_signal(&signal, &quote);

    assert!(sim.position().is_some());
    assert_eq!(sim.position().unwrap().side, PositionSide::Long);
}

#[test]
fn test_stop_loss() {
    let mut sim = BacktestSimulator::new(BacktestConfig::default());

    let signal = Signal {
        ts_ms: 1000,
        action: Action::EnterLong,
        stop_price: Some(495000),
        tp1_price: Some(505000),
        tp2_price: Some(510000),
        size: Some(100),
        strategy_tag: "test".to_string(),
    };

    let quote = sim_quote(1000, 500000, 500010);
    sim.process_signal(&signal, &quote);

    let bar = make_bar(60_000, 494000, 501000, 496000);
    sim.check_stops_targets(&bar, &quote);

    assert!(sim.position().is_none());
    assert_eq!(sim.trades().len(), 1);
    assert_eq!(sim.trades()[0].exit_reason, ExitReason::StopLoss);
    assert_eq!(sim.trades()[0].exit_price, 495000);
}

#[test]
fn test_take_profit() {
    let config = BacktestConfig { tp1_pct: 3000, move_stop_to_breakeven: true, ..Default::default() };
    let mut sim = BacktestSimulator::new(config);

    let signal = Signal {
        ts_ms: 1000,
        action: Action::EnterLong,
        stop_price: Some(495000),
        tp1_price: Some(505000),
        tp2_price: Some(510000),
        size: Some(1000),
        strategy_tag: "test".to_string(),
    };

    let quote = sim_quote(1000, 500000, 500010);
    sim.process_signal(&signal, &quote);

    let bar = make_bar(60_000, 500000, 506000, 505500);
    sim.check_stops_targets(&bar, &quote);

    assert!(sim.position().is_some());
    assert_eq!(sim.position().unwrap().size, 700);
    assert_eq!(sim.trades().len(), 1);
    assert_eq!(sim.trades()[0].exit_reason, ExitReason::TakeProfit1);
    // The stop was promoted to the entry price.
    assert_eq!(sim.position().unwrap().stop_price, 500011);
    assert!(sim.position().unwrap().tp1_hit);
}

#[test]
fn test_flip_position() {
    let mut sim = BacktestSimulator::new(BacktestConfig::default());

    let long_signal = Signal {
        ts_ms: 1000,
        action: Action::EnterLong,
        stop_price: Some(495000),
        tp1_price: None,
        tp2_price: None,
        size: Some(100),
        strategy_tag: "test".to_string(),
    };

    let quote = sim_quote(1000, 500000, 500010);
    sim.process_signal(&long_signal, &quote);

    assert_eq!(sim.position().unwrap().side, PositionSide::Long);

    let short_signal = Signal {
        ts_ms: 2000,
        action: Action::EnterShort,
        stop_price: Some(505000),
        tp1_price: None,
        tp2_price: None,
        size: Some(100),
        strategy_tag: "test".to_string(),
    };

    let quote2 = sim_quote(2000, 500100, 500110);
    sim.process_signal(&short_signal, &quote2);

    assert_eq!(sim.position().unwrap().side, PositionSide::Short);
    assert_eq!(sim.trades().len(), 1);
    assert_eq!(sim.trades()[0].exit_reason, ExitReason::SignalFlip);
    // The long was closed at the bid less one tick of exit slippage.
    assert_eq!(sim.trades()[0].exit_price, 500099);
}

#[test]
fn test_stop_before_take_profit() {
    // Both the stop and the first take-profit fall inside the bar's range:
    // the conservative ordering closes the whole position at the stop and
    // records no take-profit fill.
    let mut sim = BacktestSimulator::new(BacktestConfig::default());

    let signal = Signal {
        ts_ms: 1000,
        action: Action::EnterLong,
        stop_price: Some(495000),
        tp1_price: Some(505000),
        tp2_price: None,
        size: Some(100),
        strategy_tag: "test".to_string(),
    };

    // Entry at the ask plus one tick: exactly 50 000.0.
    let quote = sim_quote(1000, 499990, 499999);
    sim.process_signal(&signal, &quote);
    assert_eq!(sim.position().unwrap().entry_price, 500000);

    let bar = make_bar(60_000, 494000, 506000, 501000);
    sim.check_stops_targets(&bar, &quote);

    assert!(sim.position().is_none());
    assert_eq!(sim.trades().len(), 1);
    assert_eq!(sim.trades()[0].exit_reason, ExitReason::StopLoss);
    assert_eq!(sim.trades()[0].exit_price, 495000);
    assert_eq!(sim.trades()[0].size, 100);
    assert_eq!(sim.trades()[0].exit_ts, 60_000 + 59_999);
}

#[test]
fn test_funding_applies_once_per_interval() {
    let mut sim = BacktestSimulator::new(BacktestConfig::default());
    let signal = Signal {
        ts_ms: 1000,
        action: Action::EnterLong,
        stop_price: Some(495000),
        tp1_price: None,
        tp2_price: None,
        size: Some(100),
        strategy_tag: "test".to_string(),
    };
    let quote = sim_quote(1000, 500000, 500010);
    sim.process_signal(&signal, &quote);

    // First call applies: notional 500000 * 100 at 1 bps = 5000 units.
    sim.process_funding(10_000, 500000);
    assert_eq!(sim.position().unwrap().funding_paid, 5000);

    // A second call inside the interval changes nothing.
    sim.process_funding(20_000, 500000);
    assert_eq!(sim.position().unwrap().funding_paid, 5000);

    // After eight hours it applies again.
    sim.process_funding(10_000 + 28_800_000, 500000);
    assert_eq!(sim.position().unwrap().funding_paid, 10_000);
}

#[test]
fn test_manual_exit_and_metrics() {
    let mut sim = BacktestSimulator::new(BacktestConfig::default());
    let signal = Signal {
        ts_ms: 1000,
        action: Action::EnterLong,
        stop_price: Some(495000),
        tp1_price: None,
        tp2_price: None,
        size: Some(100),
        strategy_tag: "test".to_string(),
    };
    let quote = sim_quote(1000, 500000, 500010);
    sim.process_signal(&signal, &quote);

    let exit_signal = Signal {
        ts_ms: 2000,
        action: Action::Exit,
        stop_price: None,
        tp1_price: None,
        tp2_price: None,
        size: None,
        strategy_tag: "test".to_string(),
    };
    let quote2 = sim_quote(2000, 500200, 500210);
    sim.process_signal(&exit_signal, &quote2);

    assert!(sim.position().is_none());
    assert_eq!(sim.trades().len(), 1);
    assert_eq!(sim.trades()[0].exit_reason, ExitReason::Manual);

    let metrics = sim.calculate_metrics();
    assert_eq!(metrics.total_trades, 1);
    assert_eq!(metrics.total_trades, metrics.winning_trades + metrics.losing_trades);
    assert_eq!(metrics.net_pnl, sim.trades()[0].pnl);
    assert_eq!(sim.equity(), 100_000_000 + sim.trades()[0].pnl);
}
