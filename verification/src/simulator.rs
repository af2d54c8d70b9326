//! Event-driven backtest simulator: a state machine over flat, long and short
//! driven by signals and finished bars, with a realistic fill model, partial
//! take-profits, breakeven promotion and periodic funding.

use vstd::prelude::*;
use crate::fill_model::fee_of;
use crate::fill_model::FillModel;
use crate::fill_model::FillModelConfig;
use crate::math::div_trunc;
use crate::math::div_trunc_i128;
use crate::metrics::BacktestMetrics;
use crate::metrics::MetricsCalculator;
use crate::metrics::CAPITAL_MAX;
use crate::metrics::sum_funding;
use crate::position::ClosedTrade;
use crate::position::ExitReason;
use crate::position::Position;
use crate::position::PositionTracker;
use crate::position::sum_pnl;
use crate::position::count_wins;
use crate::position::TOTAL_FUNDING_ABS_MAX;
use crate::types::Action;
use crate::types::PositionSide;
use crate::types::Quote;
use crate::types::TimestampMs;
use crate::types::pos_sign;
use crate::types::valid_price;
use crate::types::Bar1m;
use crate::types::FEE_ABS_MAX;
use crate::types::FUNDING_ABS_MAX;
use crate::types::PRICE_MAX;
use crate::types::SIZE_MAX;

verus! {

/// Milliseconds in eight hours, the default funding interval.
pub const FUNDING_INTERVAL_MS: i64 = 28_800_000;

/// Backtest configuration. Fractions are in basis points.
#[derive(Clone, Copy, Debug)]
pub struct BacktestConfig {
    /// Starting capital, in price·size units.
    pub initial_capital: i128,
    /// Fill model configuration.
    pub fill_model: FillModelConfig,
    /// Funding rate per eight hours, in basis points.
    pub funding_rate_8h_bps: i64,
    /// Share of the position closed at the first take-profit, in basis
    /// points.
    pub tp1_pct: i64,
    /// Whether to move the stop to the entry price after the first
    /// take-profit.
    pub move_stop_to_breakeven: bool,
    /// Size used when an entry signal names none, in size units.
    pub default_size: i64,
}

impl BacktestConfig {
    /// An admissible configuration.
    pub open spec fn wf(self) -> bool {
        &&& 0 < self.initial_capital <= CAPITAL_MAX
        &&& self.fill_model.wf()
        &&& -10000 <= self.funding_rate_8h_bps <= 10000
        &&& 0 <= self.tp1_pct <= 10000
        &&& 0 < self.default_size <= SIZE_MAX
    }
}

impl Default for BacktestConfig {
    /// Defaults at the canonical scale of one price unit per tick and one
    /// thousandth of a contract per size unit: capital of 10 000 currency
    /// units, a 1 bps funding rate, 30% closed at the first take-profit, and
    /// a tenth of a contract when a signal names no size.
    fn default() -> (r: BacktestConfig)
        ensures
            r.wf(),
            r.initial_capital == 100_000_000,
            r.fill_model == (FillModelConfig {
                slippage_ticks_entry: 1u32,
                slippage_ticks_exit: 1u32,
                tick_size: 1i64,
                taker_fee_bps: 5i64,
                maker_fee_bps: -1i64,
            }),
            r.funding_rate_8h_bps == 1,
            r.tp1_pct == 3000,
            r.move_stop_to_breakeven,
            r.default_size == 100,
    {
        BacktestConfig {
            initial_capital: 100_000_000,
            fill_model: FillModelConfig {
                slippage_ticks_entry: 1,
                slippage_ticks_exit: 1,
                tick_size: 1,
                taker_fee_bps: 5,
                maker_fee_bps: -1,
            },
            funding_rate_8h_bps: 1,
            tp1_pct: 3000,
            move_stop_to_breakeven: true,
            default_size: 100,
        }
    }
}

/// A trading signal handed to the simulator.
pub struct Signal {
    /// Timestamp of the signal.
    pub ts_ms: TimestampMs,
    /// What to do.
    pub action: Action,
    /// Stop price for entries.
    pub stop_price: Option<i64>,
    /// First take-profit price.
    pub tp1_price: Option<i64>,
    /// Second take-profit price.
    pub tp2_price: Option<i64>,
    /// Position size, in size units.
    pub size: Option<i64>,
    /// Label for analytics.
    pub strategy_tag: String,
}

impl Signal {
    /// A signal the simulator admits: any prices it names lie on the
    /// admitted grid.
    pub open spec fn wf(self) -> bool {
        &&& self.ts_ms >= 0
        &&& match self.stop_price {
            Some(s) => 0 <= s <= PRICE_MAX && (self.action is EnterShort ==> s > 0),
            None => true,
        }
        &&& match self.tp1_price {
            Some(t) => valid_price(t),
            None => true,
        }
        &&& match self.tp2_price {
            Some(t) => valid_price(t),
            None => true,
        }
        &&& match self.size {
            Some(s) => 0 < s <= SIZE_MAX,
            None => true,
        }
    }
}

/// Exit price of a market close against a quote: the bid less the exit
/// slippage for a long, the ask plus the exit slippage for a short.
pub open spec fn exit_px(cfg: FillModelConfig, side: PositionSide, q: Quote) -> int {
    match side {
        PositionSide::Long => q.bid_px - cfg.slippage_ticks_exit * cfg.tick_size,
        PositionSide::Short => q.ask_px + cfg.slippage_ticks_exit * cfg.tick_size,
    }
}

/// Taker fee on closing `size` units at `price`.
pub open spec fn exit_fee_of(cfg: FillModelConfig, price: int, size: int) -> int {
    fee_of(price * size, cfg.taker_fee_bps as int)
}

/// Realized profit of closing `size` units of `p` at `price` with `fee`:
/// the signed price difference less the pro-rated entry fee and funding and
/// the exit fee.
pub open spec fn close_pnl(p: Position, price: int, size: int, fee: int) -> int {
    pos_sign(p.side) * (price - p.entry_price) * size
        - div_trunc(p.fees_paid as int * size, p.original_size as int)
        - div_trunc(p.funding_paid as int * size, p.original_size as int)
        - fee
}

/// The record appended when `size` units of `p` are closed.
pub open spec fn close_record(
    p: Position,
    ts: int,
    price: int,
    size: int,
    fee: int,
    reason: ExitReason,
) -> ClosedTrade {
    ClosedTrade {
        entry_ts: p.entry_ts,
        exit_ts: ts as i64,
        side: p.side,
        entry_price: p.entry_price,
        exit_price: price as i64,
        size: size as i64,
        pnl: close_pnl(p, price, size, fee) as i128,
        fees: (div_trunc(p.fees_paid as int * size, p.original_size as int) + fee) as i128,
        funding: div_trunc(p.funding_paid as int * size, p.original_size as int) as i128,
        exit_reason: reason,
        strategy_tag: p.strategy_tag,
    }
}

/// Whether the bar range touches the stop of `p`.
pub open spec fn stop_hit(p: Position, bar: Bar1m) -> bool {
    match p.side {
        PositionSide::Long => bar.low <= p.stop_price,
        PositionSide::Short => bar.high >= p.stop_price,
    }
}

/// Whether the bar range triggers the first take-profit of `p`, which it
/// never does once that take-profit has been hit.
pub open spec fn tp1_hit_now(p: Position, bar: Bar1m) -> bool {
    !p.tp1_hit && match (p.side, p.tp1_price) {
        (PositionSide::Long, Some(t)) => bar.high >= t,
        (PositionSide::Short, Some(t)) => bar.low <= t,
        _ => false,
    }
}

/// Whether the bar range triggers the second take-profit of `p`.
pub open spec fn tp2_hit_now(p: Position, bar: Bar1m) -> bool {
    match (p.side, p.tp2_price) {
        (PositionSide::Long, Some(t)) => bar.high >= t,
        (PositionSide::Short, Some(t)) => bar.low <= t,
        _ => false,
    }
}

/// Size closed at the first take-profit: the configured share of the
/// remaining size, rounded down to whole units.
pub open spec fn tp1_size(cfg: BacktestConfig, p: Position) -> int {
    p.size * cfg.tp1_pct / 10000
}

/// Funding accrued by `p` at `mark` for one interval, signed by side: longs
/// pay when the rate is positive, shorts receive.
pub open spec fn funding_amount(cfg: BacktestConfig, p: Position, mark: int) -> int {
    let f = div_trunc(mark * p.size * cfg.funding_rate_8h_bps, 10000);
    match p.side {
        PositionSide::Long => f,
        PositionSide::Short => -f,
    }
}

/// The position left after the first take-profit phase on a bar: unchanged
/// when it does not fire; shrunk by the partial size when it does, cleared
/// when the partial size is the whole remainder, and with the stop promoted
/// to breakeven when so configured. A partial size of zero whole units
/// closes nothing but still promotes the stop.
pub open spec fn tp1_outcome_pos(cfg: BacktestConfig, p: Position, bar: Bar1m) -> Option<
    Position,
> {
    if tp1_hit_now(p, bar) && p.tp1_price is Some {
        let partial = tp1_size(cfg, p);
        let q0 = if 0 < partial && partial == p.size {
            None
        } else if 0 < partial {
            Some(
                Position {
                    size: (p.size - partial) as i64,
                    closed_sizes: Ghost(p.closed_sizes@.push(partial)),
                    ..p
                },
            )
        } else {
            Some(p)
        };
        if cfg.move_stop_to_breakeven {
            match q0 {
                Some(q) => Some(Position { stop_price: q.entry_price, tp1_hit: true, ..q }),
                None => None,
            }
        } else {
            q0
        }
    } else {
        Some(p)
    }
}

/// The records the first take-profit phase appends: one partial exit, or
/// none when it does not fire or rounds to zero units.
pub open spec fn tp1_records(cfg: BacktestConfig, p: Position, bar: Bar1m, ts: int) -> Seq<
    ClosedTrade,
> {
    if tp1_hit_now(p, bar) && p.tp1_price is Some && tp1_size(cfg, p) > 0 {
        seq![
            close_record(
                p,
                ts,
                p.tp1_price->Some_0 as int,
                tp1_size(cfg, p),
                exit_fee_of(cfg.fill_model, p.tp1_price->Some_0 as int, tp1_size(cfg, p)),
                ExitReason::TakeProfit1,
            ),
        ]
    } else {
        Seq::empty()
    }
}

/// The position entered on a long signal against a quote: a market buy at
/// the ask plus entry slippage, protected by the signal's stop (0 when it
/// names none) and take-profits.
pub open spec fn entered_long(cfg: BacktestConfig, s: Signal, q: Quote) -> Position {
    let size = match s.size {
        Some(z) => z,
        None => cfg.default_size,
    };
    let px = q.ask_px + cfg.fill_model.slippage_ticks_entry * cfg.fill_model.tick_size;
    Position {
        entry_ts: q.ts_ms,
        side: PositionSide::Long,
        entry_price: px as i64,
        size,
        original_size: size,
        stop_price: match s.stop_price {
            Some(st) => st,
            None => 0,
        },
        tp1_price: s.tp1_price,
        tp2_price: s.tp2_price,
        tp1_hit: false,
        strategy_tag: s.strategy_tag,
        fees_paid: fee_of(px * size, cfg.fill_model.taker_fee_bps as int) as i128,
        funding_paid: 0,
        closed_sizes: Ghost(Seq::<int>::empty()),
    }
}

/// The position entered on a short signal against a quote: a market sell at
/// the bid less the exit slippage, protected by the signal's stop
/// (`i64::MAX`, never reachable, when it names none) and take-profits.
pub open spec fn entered_short(cfg: BacktestConfig, s: Signal, q: Quote) -> Position {
    let size = match s.size {
        Some(z) => z,
        None => cfg.default_size,
    };
    let px = q.bid_px - cfg.fill_model.slippage_ticks_exit * cfg.fill_model.tick_size;
    Position {
        entry_ts: q.ts_ms,
        side: PositionSide::Short,
        entry_price: px as i64,
        size,
        original_size: size,
        stop_price: match s.stop_price {
            Some(st) => st,
            None => i64::MAX,
        },
        tp1_price: s.tp1_price,
        tp2_price: s.tp2_price,
        tp1_hit: false,
        strategy_tag: s.strategy_tag,
        fees_paid: fee_of(px * size, cfg.fill_model.taker_fee_bps as int) as i128,
        funding_paid: 0,
        closed_sizes: Ghost(Seq::<int>::empty()),
    }
}

/// The backtest simulator.
pub struct BacktestSimulator {
    config: BacktestConfig,
    fill_model: FillModel,
    position_tracker: PositionTracker,
    /// When funding was last applied.
    last_funding_ts: Option<TimestampMs>,
    /// Funding interval, in milliseconds.
    funding_interval_ms: i64,
}

impl BacktestSimulator {
    /// The configuration the simulator was built with.
    pub closed spec fn cfg(self) -> BacktestConfig {
        self.config
    }

    /// The open position, if any.
    pub closed spec fn pos(self) -> Option<Position> {
        self.position_tracker.position
    }

    /// The closed trades so far, oldest first.
    pub closed spec fn trades_seq(self) -> Seq<ClosedTrade> {
        self.position_tracker.trades@
    }

    /// The tracker's running funding total.
    pub closed spec fn funding_total(self) -> i128 {
        self.position_tracker.total_funding
    }

    /// When funding was last applied.
    pub closed spec fn last_funding(self) -> Option<TimestampMs> {
        self.last_funding_ts
    }

    /// The simulator's invariant: an admissible configuration, a consistent
    /// fill model, a tracker holding its own invariant, and stop and
    /// take-profit prices on which a triggered exit is always a valid fill:
    /// a long's stop lies on the price grid and a short's is positive, and
    /// named take-profits lie on the grid.
    pub closed spec fn inv(self) -> bool {
        &&& self.config.wf()
        &&& self.fill_model.cfg() == self.config.fill_model
        &&& self.position_tracker.inv()
        &&& self.funding_interval_ms == FUNDING_INTERVAL_MS
        &&& match self.last_funding_ts {
            Some(l) => l >= 0,
            None => true,
        }
        &&& match self.position_tracker.position {
            Some(p) => {
                &&& (p.side is Long ==> p.stop_price <= PRICE_MAX)
                &&& (p.side is Short ==> p.stop_price > 0)
                &&& match p.tp1_price {
                    Some(t) => valid_price(t),
                    None => true,
                }
                &&& match p.tp2_price {
                    Some(t) => valid_price(t),
                    None => true,
                }
            },
            None => true,
        }
    }

    /// Builds a simulator with no position and no trades.
    pub fn new(config: BacktestConfig) -> (r: BacktestSimulator)
        requires
            config.wf(),
        ensures
            r.inv(),
            r.cfg() == config,
            r.pos() is None,
            r.trades_seq().len() == 0,
            r.funding_total() == 0,
            r.last_funding() is None,
    {
        let fill_model = FillModel::new(config.fill_model);
        BacktestSimulator {
            config,
            fill_model,
            position_tracker: PositionTracker::new(),
            last_funding_ts: None,
            funding_interval_ms: FUNDING_INTERVAL_MS,
        }
    }

    /// Closes the whole open position at the market against `quote`.
    fn close_current(&mut self, ts_ms: TimestampMs, quote: &Quote, reason: ExitReason)
        requires
            old(self).inv(),
            old(self).pos() is Some,
            quote.wf(),
            ts_ms >= 0,
            quote.bid_px - old(self).cfg().fill_model.slippage_ticks_exit
                * old(self).cfg().fill_model.tick_size > 0,
            quote.ask_px + old(self).cfg().fill_model.slippage_ticks_exit
                * old(self).cfg().fill_model.tick_size <= PRICE_MAX,
            old(self).trades_seq().len() < u32::MAX,
            -TOTAL_FUNDING_ABS_MAX + FUNDING_ABS_MAX <= old(self).funding_total()
                <= TOTAL_FUNDING_ABS_MAX - FUNDING_ABS_MAX,
        ensures
            final(self).inv(),
            final(self).cfg() == old(self).cfg(),
            final(self).pos() is None,
            final(self).last_funding() == old(self).last_funding(),
            ({
                let p = old(self).pos()->Some_0;
                let px = exit_px(old(self).cfg().fill_model, p.side, *quote);
                let fee = exit_fee_of(old(self).cfg().fill_model, px, p.size as int);
                final(self).trades_seq() == old(self).trades_seq().push(
                    close_record(p, ts_ms as int, px, p.size as int, fee, reason),
                )
            }),
            final(self).funding_total() - old(self).funding_total() == sum_funding(
                final(self).trades_seq(),
            ) - sum_funding(old(self).trades_seq()),
            old(self).funding_total() - FUNDING_ABS_MAX <= final(self).funding_total()
                <= old(self).funding_total() + FUNDING_ABS_MAX,
    {
        let (size, exit_price): (i64, i64) = match &self.position_tracker.position {
            Some(pos) => {
                let px: i64 = match pos.side {
                    PositionSide::Long => quote.bid_px - (self.config.fill_model.slippage_ticks_exit
                        as i64) * self.config.fill_model.tick_size,
                    PositionSide::Short => quote.ask_px + (self.config.fill_model.slippage_ticks_exit
                        as i64) * self.config.fill_model.tick_size,
                };
                (pos.size, px)
            },
            None => {
                return ;
            },
        };
        proof {
            assert(0 <= (exit_price as int) * (size as int) <= PRICE_MAX as int * SIZE_MAX as int)
                by (nonlinear_arith)
                requires 0 < exit_price <= PRICE_MAX, 0 < size <= SIZE_MAX
            ;
        }
        let notional: i128 = (exit_price as i128) * (size as i128);
        let fee = self.fill_model.calculate_fee(notional, false);
        proof {
            crate::fill_model::lemma_fee_bounded(notional as int, self.config.fill_model.taker_fee_bps as int);
            assert(notional <= FEE_ABS_MAX);
        }
        let ghost trades0 = self.position_tracker.trades@;
        let ghost p0 = self.position_tracker.position->Some_0;
        let _ = self.position_tracker.close_position(ts_ms, exit_price, size, fee, reason);
        proof {
            assert(self.position_tracker.trades@.drop_last() =~= trades0);
            crate::position::lemma_prorata_bounded(
                p0.funding_paid as int,
                size as int,
                p0.original_size as int,
                FUNDING_ABS_MAX as int,
            );
        }
    }

    /// Opens a long from a signal: a market buy of the signal's size (or the
    /// configured default) at the ask plus entry slippage.
    fn enter_long(&mut self, signal: &Signal, quote: &Quote)
        requires
            old(self).inv(),
            old(self).pos() is None,
            signal.wf(),
            quote.wf(),
            quote.ask_px + old(self).cfg().fill_model.slippage_ticks_entry
                * old(self).cfg().fill_model.tick_size <= PRICE_MAX,
        ensures
            final(self).inv(),
            final(self).cfg() == old(self).cfg(),
            final(self).pos() == Some(entered_long(old(self).cfg(), *signal, *quote)),
            final(self).trades_seq() == old(self).trades_seq(),
            final(self).funding_total() == old(self).funding_total(),
            final(self).last_funding() == old(self).last_funding(),
    {
        let size: i64 = match signal.size {
            Some(z) => z,
            None => self.config.default_size,
        };
        let fill = self.fill_model.market_buy(quote.ts_ms, quote, size);
        let stop: i64 = match signal.stop_price {
            Some(s) => s,
            None => 0,
        };
        self.position_tracker.open_position(
            fill,
            stop,
            signal.tp1_price,
            signal.tp2_price,
            signal.strategy_tag.clone(),
        );
    }

    /// Opens a short from a signal: a market sell of the signal's size (or
    /// the configured default) at the bid less the exit slippage.
    fn enter_short(&mut self, signal: &Signal, quote: &Quote)
        requires
            old(self).inv(),
            old(self).pos() is None,
            signal.wf(),
            signal.action is EnterShort,
            quote.wf(),
            quote.bid_px - old(self).cfg().fill_model.slippage_ticks_exit
                * old(self).cfg().fill_model.tick_size > 0,
        ensures
            final(self).inv(),
            final(self).cfg() == old(self).cfg(),
            final(self).pos() == Some(entered_short(old(self).cfg(), *signal, *quote)),
            final(self).trades_seq() == old(self).trades_seq(),
            final(self).funding_total() == old(self).funding_total(),
            final(self).last_funding() == old(self).last_funding(),
    {
        let size: i64 = match signal.size {
            Some(z) => z,
            None => self.config.default_size,
        };
        let fill = self.fill_model.market_sell(quote.ts_ms, quote, size);
        let stop: i64 = match signal.stop_price {
            Some(s) => s,
            None => i64::MAX,
        };
        self.position_tracker.open_position(
            fill,
            stop,
            signal.tp1_price,
            signal.tp2_price,
            signal.strategy_tag.clone(),
        );
    }

    /// Handles a signal against the prevailing quote.
    ///
    /// An entry while flat opens a position; an entry against an open
    /// position of the opposite side first closes it at the market with
    /// reason `SignalFlip`, then opens the new one; an entry on the same
    /// side, and `Hold`, change nothing. `Exit` closes any open position
    /// with reason `Manual`.
    pub fn process_signal(&mut self, signal: &Signal, quote: &Quote)
        requires
            old(self).inv(),
            signal.wf(),
            quote.wf(),
            quote.ask_px + old(self).cfg().fill_model.slippage_ticks_entry
                * old(self).cfg().fill_model.tick_size <= PRICE_MAX,
            quote.ask_px + old(self).cfg().fill_model.slippage_ticks_exit
                * old(self).cfg().fill_model.tick_size <= PRICE_MAX,
            quote.bid_px - old(self).cfg().fill_model.slippage_ticks_exit
                * old(self).cfg().fill_model.tick_size > 0,
            old(self).trades_seq().len() < u32::MAX,
            -TOTAL_FUNDING_ABS_MAX + FUNDING_ABS_MAX <= old(self).funding_total()
                <= TOTAL_FUNDING_ABS_MAX - FUNDING_ABS_MAX,
        ensures
            final(self).inv(),
            final(self).cfg() == old(self).cfg(),
            final(self).last_funding() == old(self).last_funding(),
            match signal.action {
                Action::EnterLong => match old(self).pos() {
                    None => final(self).pos() == Some(entered_long(old(self).cfg(), *signal, *quote))
                        && final(self).trades_seq() == old(self).trades_seq(),
                    Some(p) => if p.side is Short {
                        let px = exit_px(old(self).cfg().fill_model, p.side, *quote);
                        let fee = exit_fee_of(old(self).cfg().fill_model, px, p.size as int);
                        &&& final(self).pos() == Some(entered_long(old(self).cfg(), *signal, *quote))
                        &&& final(self).trades_seq() == old(self).trades_seq().push(
                            close_record(
                                p,
                                quote.ts_ms as int,
                                px,
                                p.size as int,
                                fee,
                                ExitReason::SignalFlip,
                            ),
                        )
                    } else {
                        final(self).pos() == old(self).pos() && final(self).trades_seq() == old(
                            self,
                        ).trades_seq()
                    },
                },
                Action::EnterShort => match old(self).pos() {
                    None => final(self).pos() == Some(
                        entered_short(old(self).cfg(), *signal, *quote),
                    ) && final(self).trades_seq() == old(self).trades_seq(),
                    Some(p) => if p.side is Long {
                        let px = exit_px(old(self).cfg().fill_model, p.side, *quote);
                        let fee = exit_fee_of(old(self).cfg().fill_model, px, p.size as int);
                        &&& final(self).pos() == Some(
                            entered_short(old(self).cfg(), *signal, *quote),
                        )
                        &&& final(self).trades_seq() == old(self).trades_seq().push(
                            close_record(
                                p,
                                quote.ts_ms as int,
                                px,
                                p.size as int,
                                fee,
                                ExitReason::SignalFlip,
                            ),
                        )
                    } else {
                        final(self).pos() == old(self).pos() && final(self).trades_seq() == old(
                            self,
                        ).trades_seq()
                    },
                },
                Action::Exit => match old(self).pos() {
                    Some(p) => {
                        let px = exit_px(old(self).cfg().fill_model, p.side, *quote);
                        let fee = exit_fee_of(old(self).cfg().fill_model, px, p.size as int);
                        &&& final(self).pos() is None
                        &&& final(self).trades_seq() == old(self).trades_seq().push(
                            close_record(
                                p,
                                quote.ts_ms as int,
                                px,
                                p.size as int,
                                fee,
                                ExitReason::Manual,
                            ),
                        )
                    },
                    None => final(self).pos() is None && final(self).trades_seq() == old(
                        self,
                    ).trades_seq(),
                },
                Action::Hold => final(self).pos() == old(self).pos() && final(self).trades_seq()
                    == old(self).trades_seq(),
            },
            final(self).funding_total() - old(self).funding_total() == sum_funding(
                final(self).trades_seq(),
            ) - sum_funding(old(self).trades_seq()),
            old(self).funding_total() - FUNDING_ABS_MAX <= final(self).funding_total()
                <= old(self).funding_total() + FUNDING_ABS_MAX,
    {
        match signal.action {
            Action::EnterLong => {
                if !self.position_tracker.has_position() {
                    self.enter_long(signal, quote);
                } else if self.position_tracker.is_short() {
                    self.close_current(quote.ts_ms, quote, ExitReason::SignalFlip);
                    self.enter_long(signal, quote);
                }
            },
            Action::EnterShort => {
                if !self.position_tracker.has_position() {
                    self.enter_short(signal, quote);
                } else if self.position_tracker.is_long() {
                    self.close_current(quote.ts_ms, quote, ExitReason::SignalFlip);
                    self.enter_short(signal, quote);
                }
            },
            Action::Exit => {
                if self.position_tracker.has_position() {
                    self.close_current(quote.ts_ms, quote, ExitReason::Manual);
                }
            },
            Action::Hold => {},
        }
    }

    /// Checks the protective levels against a finished bar and closes what
    /// they hit, in the conservative worst-case order: the stop first, then
    /// the first take-profit (a partial exit, optionally promoting the stop
    /// to breakeven), then the second take-profit. Exits are stamped at the
    /// bar's last millisecond. A partial exit of zero whole units appends no
    /// record.
    #[verifier::rlimit(100)]
    pub fn check_stops_targets(&mut self, bar: &Bar1m, quote: &Quote)
        requires
            old(self).inv(),
            bar.wf(),
            quote.wf(),
            bar.ts_min <= i64::MAX - 59999,
            old(self).trades_seq().len() + 2 <= u32::MAX,
            -TOTAL_FUNDING_ABS_MAX + 2 * FUNDING_ABS_MAX <= old(self).funding_total()
                <= TOTAL_FUNDING_ABS_MAX - 2 * FUNDING_ABS_MAX,
        ensures
            final(self).inv(),
            final(self).cfg() == old(self).cfg(),
            final(self).last_funding() == old(self).last_funding(),
            match old(self).pos() {
                None => final(self).pos() is None && final(self).trades_seq() == old(
                    self,
                ).trades_seq(),
                Some(p) => {
                    let cfg = old(self).cfg();
                    let ts = bar.ts_min + 59999;
                    if stop_hit(p, *bar) {
                        &&& final(self).pos() is None
                        &&& final(self).trades_seq() == old(self).trades_seq().push(
                            close_record(
                                p,
                                ts,
                                p.stop_price as int,
                                p.size as int,
                                exit_fee_of(cfg.fill_model, p.stop_price as int, p.size as int),
                                ExitReason::StopLoss,
                            ),
                        )
                    } else {
                        let mid_trades = old(self).trades_seq() + tp1_records(cfg, p, *bar, ts);
                        match tp1_outcome_pos(cfg, p, *bar) {
                            None => final(self).pos() is None && final(self).trades_seq()
                                == mid_trades,
                            Some(q) => if tp2_hit_now(q, *bar) {
                                &&& final(self).pos() is None
                                &&& final(self).trades_seq() == mid_trades.push(
                                    close_record(
                                        q,
                                        ts,
                                        q.tp2_price->Some_0 as int,
                                        q.size as int,
                                        exit_fee_of(
                                            cfg.fill_model,
                                            q.tp2_price->Some_0 as int,
                                            q.size as int,
                                        ),
                                        ExitReason::TakeProfit2,
                                    ),
                                )
                            } else {
                                final(self).pos() == Some(q) && final(self).trades_seq()
                                    == mid_trades
                            },
                        }
                    }
                },
            },
            final(self).funding_total() - old(self).funding_total() == sum_funding(
                final(self).trades_seq(),
            ) - sum_funding(old(self).trades_seq()),
            old(self).funding_total() - 2 * FUNDING_ABS_MAX <= final(self).funding_total()
                <= old(self).funding_total() + 2 * FUNDING_ABS_MAX,
    {
        let p: Position = match &self.position_tracker.position {
            Some(pp) => pp.duplicate(),
            None => {
                return ;
            },
        };
        let exit_ts: i64 = bar.ts_min + 59_999;

        if p.is_stopped(bar.low, bar.high) {
            let size = p.size;
            let exit_price = p.stop_price;
            proof {
                match p.side {
                    PositionSide::Long => {
                        assert(bar.low <= p.stop_price);
                        assert(p.stop_price <= PRICE_MAX);
                    },
                    PositionSide::Short => {
                        assert(p.stop_price <= bar.high);
                        assert(p.stop_price > 0);
                    },
                }
                assert(0 <= (exit_price as int) * (size as int)
                    <= PRICE_MAX as int * SIZE_MAX as int) by (nonlinear_arith)
                    requires 0 < exit_price <= PRICE_MAX, 0 < size <= SIZE_MAX
                ;
            }
            let notional: i128 = (exit_price as i128) * (size as i128);
            let fee = self.fill_model.calculate_fee(notional, false);
            let ghost trades0 = self.position_tracker.trades@;
            let _ = self.position_tracker.close_position(
                exit_ts,
                exit_price,
                size,
                fee,
                ExitReason::StopLoss,
            );
            proof {
                assert(self.position_tracker.trades@.drop_last() =~= trades0);
                assert(sum_funding(self.position_tracker.trades@) == sum_funding(trades0)
                    + self.position_tracker.trades@.last().funding);
                crate::position::lemma_prorata_bounded(
                    p.funding_paid as int,
                    size as int,
                    p.original_size as int,
                    FUNDING_ABS_MAX as int,
                );
            }
            return ;
        }

        if p.is_tp1_triggered(bar.low, bar.high) {
            match p.tp1_price {
                Some(tp1_price) => {
                    proof {
                        assert(0 <= p.size * self.config.tp1_pct <= 10000 * SIZE_MAX as int)
                            by (nonlinear_arith)
                            requires 0 < p.size <= SIZE_MAX, 0 <= self.config.tp1_pct <= 10000
                        ;
                        assert(p.size * self.config.tp1_pct <= p.size * 10000) by (nonlinear_arith)
                            requires 0 <= p.size, self.config.tp1_pct <= 10000
                        ;
                        assert(p.size * self.config.tp1_pct / 10000 <= p.size * 10000 / 10000)
                            by (nonlinear_arith)
                            requires p.size * self.config.tp1_pct <= p.size * 10000
                        ;
                        assert(p.size * 10000 / 10000 == p.size) by (nonlinear_arith);
                        assert(p.size * self.config.tp1_pct / 10000 >= 0) by (nonlinear_arith)
                            requires p.size * self.config.tp1_pct >= 0
                        ;
                    }
                    let partial: i64 = (p.size * self.config.tp1_pct) / 10000;
                    if partial > 0 {
                        proof {
                            assert(0 <= (tp1_price as int) * (partial as int)
                                <= PRICE_MAX as int * SIZE_MAX as int) by (nonlinear_arith)
                                requires 0 < tp1_price <= PRICE_MAX, 0 < partial <= SIZE_MAX
                            ;
                        }
                        let notional: i128 = (tp1_price as i128) * (partial as i128);
                        let fee = self.fill_model.calculate_fee(notional, false);
                        let ghost trades1 = self.position_tracker.trades@;
                        let _ = self.position_tracker.close_position(
                            exit_ts,
                            tp1_price,
                            partial,
                            fee,
                            ExitReason::TakeProfit1,
                        );
                        proof {
                            assert(self.position_tracker.trades@.drop_last() =~= trades1);
                            assert(sum_funding(self.position_tracker.trades@) == sum_funding(
                                trades1,
                            ) + self.position_tracker.trades@.last().funding);
                            crate::position::lemma_prorata_bounded(
                                p.funding_paid as int,
                                partial as int,
                                p.original_size as int,
                                FUNDING_ABS_MAX as int,
                            );
                        }
                    }
                    if self.config.move_stop_to_breakeven {
                        self.position_tracker.move_stop_to_breakeven();
                    }
                },
                None => {},
            }
        }

        let q: Position = match &self.position_tracker.position {
            Some(qq) => qq.duplicate(),
            None => {
                return ;
            },
        };
        if q.is_tp2_triggered(bar.low, bar.high) {
            match q.tp2_price {
                Some(tp2_price) => {
                    let size = q.size;
                    proof {
                        assert(0 <= (tp2_price as int) * (size as int)
                            <= PRICE_MAX as int * SIZE_MAX as int) by (nonlinear_arith)
                            requires 0 < tp2_price <= PRICE_MAX, 0 < size <= SIZE_MAX
                        ;
                    }
                    let notional: i128 = (tp2_price as i128) * (size as i128);
                    let fee = self.fill_model.calculate_fee(notional, false);
                    let ghost trades2 = self.position_tracker.trades@;
                    let ghost q2 = self.position_tracker.position->Some_0;
                    let _ = self.position_tracker.close_position(
                        exit_ts,
                        tp2_price,
                        size,
                        fee,
                        ExitReason::TakeProfit2,
                    );
                    proof {
                        assert(self.position_tracker.trades@.drop_last() =~= trades2);
                        assert(sum_funding(self.position_tracker.trades@) == sum_funding(trades2)
                            + self.position_tracker.trades@.last().funding);
                        crate::position::lemma_prorata_bounded(
                            q2.funding_paid as int,
                            size as int,
                            q2.original_size as int,
                            FUNDING_ABS_MAX as int,
                        );
                    }
                },
                None => {},
            }
        }
    }

    /// Applies funding when due: at most once per interval, and only while a
    /// position is open. Longs pay when the configured rate is positive,
    /// shorts receive, on the mark-price notional of the remaining size.
    pub fn process_funding(&mut self, ts_ms: TimestampMs, mark_price: i64)
        requires
            old(self).inv(),
            ts_ms >= 0,
            valid_price(mark_price),
            match old(self).pos() {
                Some(p) => -FUNDING_ABS_MAX + FEE_ABS_MAX <= p.funding_paid <= FUNDING_ABS_MAX
                    - FEE_ABS_MAX,
                None => true,
            },
            -TOTAL_FUNDING_ABS_MAX + FUNDING_ABS_MAX <= old(self).funding_total()
                <= TOTAL_FUNDING_ABS_MAX - FUNDING_ABS_MAX,
        ensures
            final(self).inv(),
            final(self).cfg() == old(self).cfg(),
            final(self).trades_seq() == old(self).trades_seq(),
            ({
                let due = match old(self).last_funding() {
                    Some(l) => ts_ms - l >= FUNDING_INTERVAL_MS,
                    None => true,
                };
                match old(self).pos() {
                    Some(p) => if due {
                        let amt = funding_amount(old(self).cfg(), p, mark_price as int);
                        &&& final(self).pos() == Some(
                            Position { funding_paid: (p.funding_paid + amt) as i128, ..p },
                        )
                        &&& final(self).funding_total() == old(self).funding_total() + amt
                        &&& final(self).last_funding() == Some(ts_ms)
                    } else {
                        &&& final(self).pos() == old(self).pos()
                        &&& final(self).funding_total() == old(self).funding_total()
                        &&& final(self).last_funding() == old(self).last_funding()
                    },
                    None => {
                        &&& final(self).pos() is None
                        &&& final(self).funding_total() == old(self).funding_total()
                        &&& final(self).last_funding() == old(self).last_funding()
                    },
                }
            }),
    {
        let should_apply: bool = match self.last_funding_ts {
            Some(last) => ts_ms - last >= self.funding_interval_ms,
            None => true,
        };

        if should_apply && self.position_tracker.has_position() {
            let (side, size): (PositionSide, i64) = match &self.position_tracker.position {
                Some(pos) => (pos.side, pos.size),
                None => (PositionSide::Long, 0),
            };
            proof {
                assert(0 <= (mark_price as int) * (size as int)
                    <= PRICE_MAX as int * SIZE_MAX as int) by (nonlinear_arith)
                    requires 0 < mark_price <= PRICE_MAX, 0 <= size <= SIZE_MAX
                ;
            }
            let notional: i128 = (mark_price as i128) * (size as i128);
            proof {
                crate::fill_model::lemma_fee_bounded(
                    notional as int,
                    self.config.funding_rate_8h_bps as int,
                );
                assert(-(PRICE_MAX as int * SIZE_MAX as int) * 10000 <= notional
                    * self.config.funding_rate_8h_bps <= PRICE_MAX as int * SIZE_MAX as int
                    * 10000) by (nonlinear_arith)
                    requires
                        0 <= notional <= PRICE_MAX as int * SIZE_MAX as int,
                        -10000 <= self.config.funding_rate_8h_bps <= 10000,
                ;
            }
            let funding: i128 = div_trunc_i128(
                notional * (self.config.funding_rate_8h_bps as i128),
                10000,
            );
            let funding_cost: i128 = match side {
                PositionSide::Long => funding,
                PositionSide::Short => -funding,
            };
            self.position_tracker.add_funding(funding_cost);
            self.last_funding_ts = Some(ts_ms);
        }
    }

    /// The open position, if any.
    pub fn position(&self) -> (r: Option<&Position>)
        ensures
            match r {
                Some(p) => self.pos() == Some(*p),
                None => self.pos() is None,
            },
    {
        self.position_tracker.position.as_ref()
    }

    /// The closed trades so far, oldest first.
    pub fn trades(&self) -> (r: &Vec<ClosedTrade>)
        ensures
            r@ == self.trades_seq(),
    {
        &self.position_tracker.trades
    }

    /// Current equity: the initial capital plus all realized profit.
    pub fn equity(&self) -> (r: i128)
        requires
            self.inv(),
        ensures
            r == self.cfg().initial_capital + sum_pnl(self.trades_seq()),
    {
        self.position_tracker.equity(self.config.initial_capital)
    }

    /// Summary statistics over the closed trades.
    pub fn calculate_metrics(&self) -> (r: BacktestMetrics)
        requires
            self.inv(),
        ensures
            r.total_trades == self.trades_seq().len(),
            r.winning_trades == count_wins(self.trades_seq()),
            r.losing_trades == self.trades_seq().len() - count_wins(self.trades_seq()),
            r.total_trades == r.winning_trades + r.losing_trades,
            r.net_pnl == sum_pnl(self.trades_seq()),
    {
        let calculator = MetricsCalculator::new(self.config.initial_capital);
        calculator.calculate(&self.position_tracker.trades)
    }

    /// Clears the position, the trades and the funding clock.
    pub fn reset(&mut self)
        requires
            old(self).inv(),
        ensures
            final(self).inv(),
            final(self).cfg() == old(self).cfg(),
            final(self).pos() is None,
            final(self).trades_seq().len() == 0,
            final(self).funding_total() == 0,
            final(self).last_funding() is None,
    {
        self.position_tracker = PositionTracker::new();
        self.last_funding_ts = None;
    }
}

} // verus!
