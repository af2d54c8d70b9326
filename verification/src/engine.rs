//! Feature engine: orchestrates volatility, the rolling histogram, the value
//! area, order flow and quote imbalance, and assembles the per-minute feature
//! record.

use vstd::prelude::*;
use crate::config::Config;
use crate::histogram::RollingHistogram;
use crate::math::div_trunc_i128;
use crate::math::round_to_tick_i128;
use crate::histogram::minutes_after_flush;
use crate::histogram::vol_at;
use crate::histogram::MinuteVolume;
use crate::order_flow::evicted;
use crate::order_flow::flow_with_trade;
use crate::order_flow::fresh_flow;
use crate::order_flow::metrics_of;
use crate::order_flow::MinuteFlow;
use crate::order_flow::OrderFlowAggregator;
use crate::order_flow::QuoteImbalanceTracker;
use crate::order_flow::OF_VOL_MAX;
use crate::types::Bar1m;
use crate::types::ClassifiedTrade;
use crate::types::Features1m;
use crate::types::OrderFlowMetrics;
use crate::types::Quote;
use crate::types::TimestampMs;
use crate::types::PRICE_MAX;
use crate::value_area::va_of;
use crate::value_area::bins_sorted;
use crate::value_area::bins_wf;
use crate::value_area::BinVol;
use crate::value_area::ValueAreaComputer;
use crate::value_area::ValueAreaConfig;
use crate::value_area::HIST_VOL_MAX;
use crate::volatility::RollingVolatility;
use crate::volatility::ret_scaled;
use crate::volatility::vol_of;
use crate::volatility::RET_ABS_MAX;
use crate::ts_to_minute;

verus! {

/// The zero order-flow record reported for a minute with no trades.
pub open spec fn zero_flow() -> OrderFlowMetrics {
    OrderFlowMetrics {
        of_1m: 0i128,
        of_norm_1m: 0i64,
        total_volume: 0i128,
        buy_volume: 0i128,
        sell_volume: 0i128,
        ambiguous_volume: 0i128,
        ambiguous_frac: 0i64,
    }
}

/// Sum of the spread components of a stamped-spread sequence.
pub open spec fn sum_snd(s: Seq<(i64, i64)>) -> int
    decreases s.len(),
{
    if s.len() == 0 {
        0
    } else {
        sum_snd(s.drop_last()) + s.last().1
    }
}

/// The volatility-scaled bin width: `alpha * mid * sigma` (alpha in basis
/// points, sigma in millionths) rounded to the tick and clamped between the
/// tick and the configured maximum.
pub open spec fn target_width(
    tick: int,
    width_max: int,
    alpha_bps: int,
    mid: int,
    sigma: int,
) -> int {
    let raw = (alpha_bps * mid * sigma) / 10_000_000_000;
    let rounded = tick * ((raw + tick / 2) / tick);
    let capped = if rounded > width_max {
        width_max
    } else {
        rounded
    };
    if capped < tick {
        tick
    } else {
        capped
    }
}

/// Whether the bin width is re-bucketed: always the first time, otherwise
/// when the interval has elapsed or the width moved by the configured share.
pub open spec fn rebucket_due(
    last: Option<i64>,
    ts_min: int,
    interval: int,
    change_bps: int,
    cur_w: int,
    new_w: int,
) -> bool {
    match last {
        None => true,
        Some(l) => {
            let mins = if ts_min >= l {
                (ts_min - l) / 60000
            } else {
                0int
            };
            let diff = if new_w >= cur_w {
                new_w - cur_w
            } else {
                cur_w - new_w
            };
            mins >= interval || diff * 10000 >= change_bps * cur_w
        },
    }
}

/// Orchestrates the per-minute feature computation.
pub struct FeatureEngine {
    /// Rolling volatility of the bar mid closes.
    volatility: RollingVolatility,
    /// Rolling volume-at-price histogram.
    histogram: RollingHistogram,
    /// Value-area computer.
    va_computer: ValueAreaComputer,
    /// Per-minute order flow.
    order_flow: OrderFlowAggregator,
    /// Quote-imbalance tracker.
    qimb_tracker: QuoteImbalanceTracker,
    /// Recent per-bar spreads, oldest first.
    spreads: Vec<(TimestampMs, i64)>,
    /// Tick size, in price units.
    tick_size: i64,
    /// Volatility scaling of the bin width, in basis points.
    alpha_bin: i64,
    /// Largest bin width, in price units.
    bin_width_max: i64,
    /// Spread lookback, in bars.
    spread_lookback: usize,
    /// Rolling window, in minutes.
    rolling_window: usize,
    /// Bin width the value area is computed at.
    current_bin_width: i64,
    /// When the width was last re-bucketed.
    last_rebucket_min: Option<TimestampMs>,
    /// Fewest minutes between scheduled re-bucketings.
    rebucket_interval: u32,
    /// Relative width change that forces a re-bucketing, in basis points.
    rebucket_change_bps: i64,
}

impl FeatureEngine {
    /// The tick size.
    pub closed spec fn tick(self) -> i64 {
        self.tick_size
    }

    /// The bin width the value area is computed at.
    pub closed spec fn bin_width(self) -> i64 {
        self.current_bin_width
    }

    /// The rolling window, in minutes.
    pub closed spec fn window(self) -> int {
        self.rolling_window as int
    }

    /// All volume the histogram holds.
    pub closed spec fn held_volume(self) -> int {
        self.histogram.held_volume()
    }

    /// Volume accounted by the order-flow aggregator.
    pub closed spec fn flow_volume(self) -> int {
        crate::order_flow::sum_flow(self.order_flow.mins())
    }

    /// Number of bins in the aggregate histogram.
    pub closed spec fn agg_bins(self) -> int {
        self.histogram.agg().len() as int
    }

    /// The engine's invariant: every component holds its own invariant and
    /// the recorded bin width lies between the tick and the configured
    /// maximum.
    pub closed spec fn inv(self) -> bool {
        &&& self.volatility.inv()
        &&& self.histogram.inv()
        &&& self.order_flow.inv()
        &&& self.qimb_tracker.inv()
        &&& self.va_computer.cfg().wf()
        &&& 0 < self.tick_size <= self.current_bin_width <= self.bin_width_max <= PRICE_MAX
        &&& self.histogram.base() == self.tick_size
        &&& self.histogram.win() == self.rolling_window as int
        &&& self.volatility.win() == self.rolling_window as int
        &&& self.order_flow.cap() == self.rolling_window as int
        &&& 0 <= self.alpha_bin <= 10000
        &&& 0 <= self.rebucket_change_bps <= 1_000_000
        &&& 1 <= self.spread_lookback
        &&& forall|i: int|
            0 <= i < self.spreads@.len() ==> -PRICE_MAX <= (#[trigger] self.spreads@[i]).1
                <= PRICE_MAX
        &&& self.spreads@.len() <= self.spread_lookback
        &&& match self.last_rebucket_min {
            Some(t) => t >= 0,
            None => true,
        }
    }

    /// Builds an engine from an admissible configuration.
    pub fn new(config: &Config) -> (r: FeatureEngine)
        requires
            config.wf(),
        ensures
            r.inv(),
            r.tick() == config.instrument.tick_size,
            r.bin_width() == config.instrument.tick_size,
            r.window() == config.instrument.rolling_window_minutes,
            r.vol_win() == config.instrument.rolling_window_minutes,
            r.flow_cap() == config.instrument.rolling_window_minutes,
            r.spread_cap() == config.order_flow.spread_lookback_minutes,
            r.qimb_den() == 10 * config.order_flow.spread_lookback_minutes + 1,
            r.qimb_cap() == 1_000_000,
            r.alpha_bps() == config.value_area.alpha_bin,
            r.width_max() == config.value_area.bin_width_max_ticks
                * config.instrument.tick_size,
            r.interval() == config.value_area.rebucket_interval_minutes,
            r.change_bps() == config.value_area.rebucket_change_pct,
            r.va_fraction() == config.value_area.va_fraction,
            r.min_bins() == config.value_area.min_va_bins,
            r.last_rebucket() is None,
            r.hist_agg().len() == 0 && r.hist_minutes().len() == 0 && r.hist_current().len() == 0,
            r.vol_rets().len() == 0 && r.prev_mid() is None,
            r.flow_mins().len() == 0,
            r.qimb_vals().len() == 0,
            r.spread_vals().len() == 0,
            !r.is_ready_spec(),
    {
        let rolling_window = config.instrument.rolling_window_minutes as usize;
        let tick_size = config.instrument.tick_size;
        proof {
            assert(1 * tick_size <= config.value_area.bin_width_max_ticks as int * tick_size)
                by (nonlinear_arith)
                requires tick_size > 0, config.value_area.bin_width_max_ticks >= 1
            ;
        }
        FeatureEngine {
            volatility: RollingVolatility::new(rolling_window),
            histogram: RollingHistogram::new(tick_size, rolling_window),
            va_computer: ValueAreaComputer::new(
                ValueAreaConfig {
                    va_fraction: config.value_area.va_fraction,
                    min_bins: config.value_area.min_va_bins,
                },
            ),
            order_flow: OrderFlowAggregator::new(rolling_window),
            qimb_tracker: QuoteImbalanceTracker::new(
                1_000_000,
                config.order_flow.spread_lookback_minutes,
            ),
            spreads: Vec::new(),
            tick_size,
            alpha_bin: config.value_area.alpha_bin,
            bin_width_max: (config.value_area.bin_width_max_ticks as i64) * tick_size,
            spread_lookback: config.order_flow.spread_lookback_minutes as usize,
            rolling_window,
            current_bin_width: tick_size,
            last_rebucket_min: None,
            rebucket_interval: config.value_area.rebucket_interval_minutes,
            rebucket_change_bps: config.value_area.rebucket_change_pct,
        }
    }

    /// Records a quote's imbalance.
    pub fn add_quote(&mut self, quote: &Quote)
        requires
            old(self).inv(),
            quote.wf(),
        ensures
            final(self).inv(),
            final(self).tick() == old(self).tick(),
            final(self).bin_width() == old(self).bin_width(),
            ({
                let v = (
                    quote.ts_ms,
                    crate::types::imbalance_bps(quote.bid_sz as int, quote.ask_sz as int) as i64,
                );
                final(self).qimb_vals() == if old(self).qimb_vals().len() >= old(self).qimb_cap() {
                    old(self).qimb_vals().remove(0).push(v)
                } else {
                    old(self).qimb_vals().push(v)
                }
            }),
            final(self).hist_agg() == old(self).hist_agg() && final(self).hist_minutes() == old(self).hist_minutes() && final(self).hist_current() == old(self).hist_current(),
            final(self).flow_mins() == old(self).flow_mins(),
            final(self).spread_vals() == old(self).spread_vals(),
            final(self).vol_rets() == old(self).vol_rets(),
    {
        let imb = quote.imbalance();
        self.qimb_tracker.add(quote.ts_ms, imb);
    }

    /// Routes a classified trade to the histogram and the order flow.
    pub fn add_trade(&mut self, trade: &ClassifiedTrade)
        requires
            old(self).inv(),
            trade.wf(),
            old(self).held_volume() + trade.trade.size <= HIST_VOL_MAX,
            old(self).flow_volume() + trade.trade.size <= OF_VOL_MAX,
        ensures
            final(self).inv(),
            final(self).tick() == old(self).tick(),
            final(self).bin_width() == old(self).bin_width(),
            final(self).held_volume() <= old(self).held_volume() + trade.trade.size,
            final(self).flow_volume() <= old(self).flow_volume() + trade.trade.size,
            final(self).hist_cur_minute() == Some(
                (60000 * ((trade.trade.ts_ms as int) / 60000)) as i64,
            ),
            ({
                let m = 60000 * ((trade.trade.ts_ms as int) / 60000);
                let rolled = match old(self).hist_cur_minute() {
                    Some(c) => c != m,
                    None => false,
                };
                let base_cur: Seq<BinVol> = if rolled {
                    Seq::empty()
                } else {
                    old(self).hist_current()
                };
                let key = (old(self).tick() as int) * ((trade.trade.price as int) / (old(self).tick() as int));
                forall|p: int|
                    #[trigger] vol_at(final(self).hist_current(), p) == vol_at(base_cur, p) + (
                    if p == key && trade.trade.size > 0 {
                        trade.trade.size as int
                    } else {
                        0int
                    })
            }),
            ({
                let m = 60000 * ((trade.trade.ts_ms as int) / 60000);
                let rolled = match old(self).hist_cur_minute() {
                    Some(c) => c != m,
                    None => false,
                };
                if rolled {
                    &&& (old(self).hist_current().len() > 0 ==> minutes_after_flush(
                        old(self).hist_minutes(),
                        old(self).window(),
                        final(self).hist_minutes(),
                        old(self).hist_current(),
                        old(self).hist_cur_minute()->Some_0 as int,
                    ))
                    &&& (old(self).hist_current().len() == 0 ==> final(self).hist_minutes()
                        == old(self).hist_minutes() && final(self).hist_agg() == old(self).hist_agg())
                } else {
                    final(self).hist_minutes() == old(self).hist_minutes() && final(self).hist_agg() == old(self).hist_agg()
                }
            }),
            ({
                let m = 60000 * ((trade.trade.ts_ms as int) / 60000);
                let size = trade.trade.size as int;
                if exists|i: int|
                    0 <= i < old(self).flow_mins().len() && (#[trigger] old(self).flow_mins()[
                    i
                ]).ts_min == m {
                    exists|i: int|
                        0 <= i < old(self).flow_mins().len() && (#[trigger] old(self).flow_mins()[
                        i
                    ]).ts_min == m && final(self).flow_mins() == evicted(
                            old(self).flow_mins().update(
                                i,
                                flow_with_trade(old(self).flow_mins()[i], trade.side, size),
                            ),
                            old(self).flow_cap(),
                        )
                } else {
                    exists|i: int|
                        0 <= i <= old(self).flow_mins().len() && final(self).flow_mins()
                            == evicted(
                            #[trigger] old(self).flow_mins().insert(
                                i,
                                fresh_flow(m, trade.side, size),
                            ),
                            old(self).flow_cap(),
                        )
                }
            }),
            final(self).qimb_vals() == old(self).qimb_vals(),
            final(self).spread_vals() == old(self).spread_vals(),
            final(self).vol_rets() == old(self).vol_rets(),
            final(self).bin_width() == old(self).bin_width() && final(self).last_rebucket()
                == old(self).last_rebucket(),
    {
        let ts_min = ts_to_minute(trade.trade.ts_ms);
        self.histogram.add_trade(ts_min, trade.trade.price, trade.trade.size);
        self.order_flow.add_trade(trade);
        proof {
            let m = 60000 * ((trade.trade.ts_ms as int) / 60000);
            let sz = trade.trade.size as int;
            let ms0 = old(self).order_flow.mins();
            let cap = old(self).order_flow.cap();
            if exists|i: int| 0 <= i < ms0.len() && (#[trigger] ms0[i]).ts_min == m {
                let i = choose|i: int|
                    0 <= i < ms0.len() && (#[trigger] ms0[i]).ts_min == m
                        && self.order_flow.mins() == evicted(
                        ms0.update(i, flow_with_trade(ms0[i], trade.side, sz)),
                        cap,
                    );
                assert(0 <= i < ms0.len() && ms0[i].ts_min == m && self.order_flow.mins()
                    == evicted(ms0.update(i, flow_with_trade(ms0[i], trade.side, sz)), cap));
            } else {
                let i = choose|i: int|
                    0 <= i <= ms0.len() && self.order_flow.mins() == evicted(
                        #[trigger] ms0.insert(i, fresh_flow(m, trade.side, sz)),
                        cap,
                    );
                assert(0 <= i <= ms0.len() && self.order_flow.mins() == evicted(
                    ms0.insert(i, fresh_flow(m, trade.side, sz)),
                    cap,
                ));
                assert(old(self).flow_mins() == ms0);
                assert(old(self).flow_mins().insert(i, fresh_flow(m, trade.side, sz))
                    == ms0.insert(i, fresh_flow(m, trade.side, sz)));
                assert(self.flow_mins() == evicted(
                    old(self).flow_mins().insert(i, fresh_flow(m, trade.side, sz)),
                    old(self).flow_cap(),
                ));
            }
        }
    }

    /// Absorbs a finished bar: its mid close feeds the volatility, its
    /// spread the rolling spread window, the histogram's minute is flushed,
    /// and the bin width is re-bucketed when due.
    pub fn add_bar(&mut self, bar: &Bar1m)
        requires
            old(self).inv(),
            bar.wf(),
            ({
                let mid = (bar.bid_px_close + bar.ask_px_close) / 2;
                mid > 0 ==> match old(self).prev_mid() {
                    Some(p) => -RET_ABS_MAX <= crate::volatility::ret_scaled(p as int, mid as int)
                        <= RET_ABS_MAX,
                    None => true,
                }
            }),
        ensures
            final(self).inv(),
            final(self).tick() == old(self).tick(),
            final(self).held_volume() <= old(self).held_volume(),
            ({
                let mid = (bar.bid_px_close + bar.ask_px_close) / 2;
                if mid > 0 {
                    &&& final(self).prev_mid() == Some(mid as i64)
                    &&& match old(self).prev_mid() {
                        Some(pm) => final(self).vol_rets() == (if old(self).vol_rets().len()
                            >= old(self).vol_win() {
                            old(self).vol_rets().remove(0)
                        } else {
                            old(self).vol_rets()
                        }).push(ret_scaled(pm as int, mid) as i64),
                        None => final(self).vol_rets() == old(self).vol_rets(),
                    }
                } else {
                    final(self).prev_mid() == old(self).prev_mid() && final(self).vol_rets()
                        == old(self).vol_rets()
                }
            }),
            ({
                let sp = (bar.ts_min, (bar.ask_px_close - bar.bid_px_close) as i64);
                let pushed = old(self).spread_vals().push(sp);
                final(self).spread_vals() == if pushed.len() > old(self).spread_cap() {
                    pushed.remove(0)
                } else {
                    pushed
                }
            }),
            final(self).hist_cur_minute() is None && final(self).hist_current().len() == 0,
            old(self).hist_current().len() == 0 ==> final(self).hist_minutes() == old(self).hist_minutes() && final(self).hist_agg() == old(self).hist_agg(),
            match old(self).hist_cur_minute() {
                Some(t) => old(self).hist_current().len() > 0 ==> minutes_after_flush(
                    old(self).hist_minutes(),
                    old(self).window(),
                    final(self).hist_minutes(),
                    old(self).hist_current(),
                    t as int,
                ),
                None => final(self).hist_minutes() == old(self).hist_minutes() && final(self).hist_agg() == old(self).hist_agg(),
            },
            final(self).flow_mins() == old(self).flow_mins(),
            final(self).qimb_vals() == old(self).qimb_vals(),
            ({
                let mid = (bar.bid_px_close + bar.ask_px_close) / 2;
                let sigma: int = match vol_of(final(self).vol_rets()) {
                    Some(v) => v as int,
                    None => 0,
                };
                let new_w = target_width(
                    old(self).tick() as int,
                    old(self).width_max() as int,
                    old(self).alpha_bps() as int,
                    mid as int,
                    sigma,
                );
                if rebucket_due(
                    old(self).last_rebucket(),
                    bar.ts_min as int,
                    old(self).interval(),
                    old(self).change_bps() as int,
                    old(self).bin_width() as int,
                    new_w,
                ) {
                    final(self).bin_width() == new_w && final(self).last_rebucket() == Some(
                        bar.ts_min,
                    )
                } else {
                    final(self).bin_width() == old(self).bin_width() && final(self).last_rebucket() == old(self).last_rebucket()
                }
            }),
    {
        let mid = bar.mid_close();
        if mid > 0 {
            let _ = self.volatility.add_price(mid);
        }

        let spread = bar.spread_close();
        let ghost sp0 = self.spreads@;
        self.spreads.push((bar.ts_min, spread));
        proof {
            assert forall|i: int| 0 <= i < self.spreads@.len() implies -PRICE_MAX
                <= (#[trigger] self.spreads@[i]).1 <= PRICE_MAX by {
                if i < sp0.len() {
                    assert(self.spreads@[i] == sp0[i]);
                }
            }
        }
        if self.spreads.len() > self.spread_lookback {
            let ghost sp1 = self.spreads@;
            let _ = self.spreads.remove(0);
            proof {
                assert forall|i: int| 0 <= i < self.spreads@.len() implies -PRICE_MAX
                    <= (#[trigger] self.spreads@[i]).1 <= PRICE_MAX by {
                    assert(self.spreads@[i] == sp1[i + 1]);
                }
            }
        }

        self.histogram.flush_current_minute();
        self.maybe_rebucket(bar.ts_min, mid);
    }

    /// The previous mid price the volatility holds.
    pub closed spec fn prev_mid(self) -> Option<i64> {
        self.volatility.prev()
    }

    /// Re-buckets the value-area bin width when never re-bucketed, when the
    /// interval has elapsed, or when the volatility-scaled width moved by
    /// the configured share: the new width is `alpha * mid * sigma` rounded
    /// to the tick and clamped between the tick and the maximum.
    fn maybe_rebucket(&mut self, ts_min: TimestampMs, mid_price: i64)
        requires
            old(self).inv(),
            ts_min >= 0,
            0 <= mid_price <= PRICE_MAX,
        ensures
            final(self).inv(),
            final(self).tick() == old(self).tick(),
            final(self).held_volume() == old(self).held_volume(),
            final(self).vol_rets() == old(self).vol_rets() && final(self).prev_mid() == old(self).prev_mid(),
            final(self).hist_agg() == old(self).hist_agg() && final(self).hist_minutes() == old(self).hist_minutes() && final(self).hist_current() == old(self).hist_current() && final(self).hist_cur_minute() == old(self).hist_cur_minute(),
            final(self).flow_mins() == old(self).flow_mins(),
            final(self).qimb_vals() == old(self).qimb_vals(),
            final(self).spread_vals() == old(self).spread_vals(),
            ({
                let sigma: int = match vol_of(old(self).vol_rets()) {
                    Some(v) => v as int,
                    None => 0,
                };
                let new_w = target_width(
                    old(self).tick() as int,
                    old(self).width_max() as int,
                    old(self).alpha_bps() as int,
                    mid_price as int,
                    sigma,
                );
                if rebucket_due(
                    old(self).last_rebucket(),
                    ts_min as int,
                    old(self).interval(),
                    old(self).change_bps() as int,
                    old(self).bin_width() as int,
                    new_w,
                ) {
                    final(self).bin_width() == new_w && final(self).last_rebucket() == Some(
                        ts_min,
                    )
                } else {
                    final(self).bin_width() == old(self).bin_width() && final(self).last_rebucket() == old(self).last_rebucket()
                }
            }),
    {
        let sigma: i64 = match self.volatility.volatility() {
            Some(s) => s,
            None => 0,
        };
        proof {
            assert(0 <= self.alpha_bin as int * mid_price <= 10000 * PRICE_MAX as int)
                by (nonlinear_arith)
                requires 0 <= self.alpha_bin <= 10000, 0 <= mid_price <= PRICE_MAX
            ;
            assert(0 <= (self.alpha_bin as int * mid_price) * sigma <= (10000 * PRICE_MAX as int)
                * 200_000_000_000_000_000) by (nonlinear_arith)
                requires
                    0 <= self.alpha_bin as int * mid_price <= 10000 * PRICE_MAX as int,
                    0 <= sigma <= 200_000_000_000_000_000i64,
            ;
        }
        let raw: i128 = ((self.alpha_bin as i128) * (mid_price as i128) * (sigma as i128))
            / 10_000_000_000;
        let rounded: i128 = round_to_tick_i128(raw, self.tick_size as i128);
        let mut new_width: i64 = if rounded > (self.bin_width_max as i128) {
            self.bin_width_max
        } else {
            rounded as i64
        };
        if new_width < self.tick_size {
            new_width = self.tick_size;
        }

        let should: bool = match self.last_rebucket_min {
            Some(last) => {
                let minutes_since: i64 = if ts_min >= last {
                    (ts_min - last) / 60000
                } else {
                    0
                };
                let diff: i64 = if new_width >= self.current_bin_width {
                    new_width - self.current_bin_width
                } else {
                    self.current_bin_width - new_width
                };
                proof {
                    assert(0 <= (diff as int) * 10000 <= PRICE_MAX as int * 10000)
                        by (nonlinear_arith)
                        requires 0 <= diff <= PRICE_MAX
                    ;
                    assert(0 <= (self.rebucket_change_bps as int) * (self.current_bin_width as int)
                        <= 1_000_000 * PRICE_MAX as int) by (nonlinear_arith)
                        requires
                            0 <= self.rebucket_change_bps <= 1_000_000,
                            0 < self.current_bin_width <= PRICE_MAX,
                    ;
                }
                minutes_since >= (self.rebucket_interval as i64) || (diff as i128) * 10000
                    >= (self.rebucket_change_bps as i128) * (self.current_bin_width as i128)
            },
            None => true,
        };

        if should {
            self.current_bin_width = new_width;
            self.last_rebucket_min = Some(ts_min);
        }
    }

    /// The feature record of one minute: the closing mid and imbalance, the
    /// window's volatility, the value area of the histogram at the current
    /// bin width, the minute's order flow (or the zero record), the minute's
    /// imbalance average, and the mean spread over the lookback (the tick
    /// when no spreads were seen). A valid value area always has
    /// `val <= poc <= vah` and covers at least the target fraction unless
    /// the histogram is exhausted.
    pub fn compute_features(&self, ts_min: TimestampMs, bar: &Bar1m) -> (r: Features1m)
        requires
            self.inv(),
            bar.wf(),
            0 <= ts_min <= i64::MAX - 60000,
            self.agg_bins() <= u32::MAX,
        ensures
            r.ts_min == ts_min,
            r.mid_close == (bar.bid_px_close + bar.ask_px_close) / 2,
            r.bin_width == self.bin_width(),
            r.qimb_close == crate::types::imbalance_bps(
                bar.bid_sz_close as int,
                bar.ask_sz_close as int,
            ),
            r.qimb_ema == crate::order_flow::ema_of(
                crate::order_flow::minute_vals(self.qimb_vals(), ts_min as int),
                self.qimb_den(),
            ),
            r.va.is_valid ==> r.va.val <= r.va.poc <= r.va.vah && r.va.bin_count >= 1
                && r.va.total_volume == crate::value_area::total_vol(self.hist_agg())
                && r.va.bin_width == self.bin_width(),
            (exists|h: Seq<BinVol>|
                bins_sorted(h) && bins_wf(h) && h.len() <= self.hist_agg().len() && (forall|p: int|
                    #[trigger] vol_at(h, p) == crate::histogram::widened_vol(
                        self.hist_agg(),
                        self.bin_width() as int,
                        p,
                    )) && r.va == #[trigger] va_of(
                    h,
                    self.bin_width(),
                    self.va_fraction(),
                    self.min_bins(),
                )),
            r.sigma_240 == (match crate::volatility::vol_of(self.vol_rets()) {
                Some(v) => v,
                None => 0i64,
            }),
            r.sigma_240 >= 0,
            r.spread_avg_60m == (if self.spread_vals().len() == 0 {
                self.tick() as int
            } else {
                crate::math::div_trunc(sum_snd(self.spread_vals()), self.spread_vals().len() as int)
            }),
            (exists|i: int|
                0 <= i < self.flow_mins().len() && (#[trigger] self.flow_mins()[i]).ts_min == ts_min
                    && r.order_flow == metrics_of(self.flow_mins()[i])) || (r.order_flow
                == zero_flow() && forall|i: int|
                0 <= i < self.flow_mins().len() ==> (#[trigger] self.flow_mins()[i]).ts_min
                    != ts_min),
    {
        let mid_close = bar.mid_close();
        let sigma: i64 = match self.volatility.volatility() {
            Some(s) => s,
            None => 0,
        };

        let agg_hist = self.histogram.aggregate_to(self.current_bin_width);
        let va = self.va_computer.compute(&agg_hist, self.current_bin_width);
        proof {
            assert(bins_sorted(agg_hist@) && bins_wf(agg_hist@) && agg_hist@.len()
                <= self.hist_agg().len() && (forall|p: int|
                #[trigger] vol_at(agg_hist@, p) == crate::histogram::widened_vol(
                    self.hist_agg(),
                    self.bin_width() as int,
                    p,
                )) && va == va_of(
                agg_hist@,
                self.bin_width(),
                self.va_fraction(),
                self.min_bins(),
            ));
        }

        let of_opt = self.order_flow.get_minute(ts_min);
        let order_flow: OrderFlowMetrics = match of_opt {
            Some(m) => m,
            None => OrderFlowMetrics {
                of_1m: 0,
                of_norm_1m: 0,
                total_volume: 0,
                buy_volume: 0,
                sell_volume: 0,
                ambiguous_volume: 0,
                ambiguous_frac: 0,
            },
        };
        proof {
            match of_opt {
                Some(m) => {
                    let i = choose|i: int|
                        0 <= i < self.order_flow.mins().len() && (
                        #[trigger] self.order_flow.mins()[i]).ts_min == ts_min && m == metrics_of(
                            self.order_flow.mins()[i],
                        );
                    assert(0 <= i < self.flow_mins().len() && self.flow_mins()[i].ts_min == ts_min
                        && order_flow == metrics_of(self.flow_mins()[i]));
                },
                None => {
                    assert(order_flow == zero_flow());
                    assert forall|i: int|
                        0 <= i < self.flow_mins().len() implies (#[trigger] self.flow_mins()[
                        i
                    ]).ts_min != ts_min by {
                        assert(self.order_flow.mins()[i].ts_min != ts_min);
                    }
                },
            }
        }

        let qimb_close = bar.qimb_close();
        let qimb_ema = self.qimb_tracker.ema_for_minute(ts_min);

        Features1m {
            ts_min,
            mid_close,
            sigma_240: sigma,
            bin_width: self.current_bin_width,
            va,
            order_flow,
            qimb_close,
            qimb_ema,
            spread_avg_60m: self.avg_spread(),
        }
    }

    /// The aggregate histogram's bins.
    pub closed spec fn hist_agg(self) -> Seq<crate::value_area::BinVol> {
        self.histogram.agg()
    }

    /// The retained volatility returns.
    pub closed spec fn vol_rets(self) -> Seq<i64> {
        self.volatility.rets()
    }

    /// The retained quote-imbalance values.
    pub closed spec fn qimb_vals(self) -> Seq<(i64, i64)> {
        self.qimb_tracker.vals()
    }

    /// The imbalance retention limit.
    pub closed spec fn qimb_cap(self) -> int {
        self.qimb_tracker.cap()
    }

    /// The histogram's in-progress bins.
    pub closed spec fn hist_current(self) -> Seq<BinVol> {
        self.histogram.current()
    }

    /// The histogram's in-progress minute.
    pub closed spec fn hist_cur_minute(self) -> Option<TimestampMs> {
        self.histogram.cur_minute()
    }

    /// The histogram's retained minute snapshots.
    pub closed spec fn hist_minutes(self) -> Seq<MinuteVolume> {
        self.histogram.minutes()
    }

    /// The order-flow retention limit.
    pub closed spec fn flow_cap(self) -> int {
        self.order_flow.cap()
    }

    /// The retained per-bar spreads.
    pub closed spec fn spread_vals(self) -> Seq<(i64, i64)> {
        self.spreads@
    }

    /// The spread retention limit.
    pub closed spec fn spread_cap(self) -> int {
        self.spread_lookback as int
    }

    /// The volatility window, in returns.
    pub closed spec fn vol_win(self) -> int {
        self.volatility.win()
    }

    /// The width-scaling share, in basis points.
    pub closed spec fn alpha_bps(self) -> i64 {
        self.alpha_bin
    }

    /// The largest bin width, in price units.
    pub closed spec fn width_max(self) -> i64 {
        self.bin_width_max
    }

    /// The re-bucketing interval, in minutes.
    pub closed spec fn interval(self) -> int {
        self.rebucket_interval as int
    }

    /// The re-bucketing change threshold, in basis points.
    pub closed spec fn change_bps(self) -> i64 {
        self.rebucket_change_bps
    }

    /// When the width was last re-bucketed.
    pub closed spec fn last_rebucket(self) -> Option<TimestampMs> {
        self.last_rebucket_min
    }

    /// The value-area target coverage, in basis points.
    pub closed spec fn va_fraction(self) -> i64 {
        self.va_computer.cfg().va_fraction
    }

    /// The fewest bins on which a value area is reported.
    pub closed spec fn min_bins(self) -> u32 {
        self.va_computer.cfg().min_bins
    }

    /// The imbalance decay denominator.
    pub closed spec fn qimb_den(self) -> int {
        self.qimb_tracker.den()
    }

    /// The retained order-flow minutes.
    pub closed spec fn flow_mins(self) -> Seq<MinuteFlow> {
        self.order_flow.mins()
    }

    /// Mean spread over the lookback window, truncated toward zero; the tick
    /// when no spreads were seen.
    fn avg_spread(&self) -> (r: i64)
        requires
            self.inv(),
        ensures
            self.spread_vals().len() == 0 ==> r == self.tick(),
            self.spread_vals().len() > 0 ==> r == crate::math::div_trunc(
                sum_snd(self.spread_vals()),
                self.spread_vals().len() as int,
            ),
    {
        let n = self.spreads.len();
        if n == 0 {
            return self.tick_size;
        }
        let ghost sv = self.spreads@;
        proof {
            assert(sum_snd(sv.subrange(0, 0)) == 0);
        }
        let mut sum: i128 = 0;
        let mut i: usize = 0;
        while i < n
            invariant
                self.inv(),
                sv == self.spread_vals(),
                n == sv.len(),
                0 <= i <= n,
                sum == sum_snd(sv.subrange(0, i as int)),
                -(i as int) * PRICE_MAX <= sum <= (i as int) * PRICE_MAX,
            decreases n - i,
        {
            proof {
                assert(-PRICE_MAX <= self.spreads@[i as int].1 <= PRICE_MAX);
                let pre1 = sv.subrange(0, i + 1);
                assert(pre1.drop_last() =~= sv.subrange(0, i as int));
                assert(pre1.last() == sv[i as int]);
            }
            sum = sum + (self.spreads[i].1 as i128);
            i = i + 1;
        }
        proof {
            assert(sv.subrange(0, n as int) =~= sv);
            crate::math::lemma_div_trunc_bounded(sum as int, n as int, PRICE_MAX as int);
        }
        div_trunc_i128(sum, n as i128) as i64
    }

    /// Whether both the volatility and the histogram windows are full.
    pub fn is_ready(&self) -> (r: bool)
        requires
            self.inv(),
        ensures
            r == self.is_ready_spec(),
    {
        self.volatility.is_ready() && self.histogram.is_ready()
    }

    /// Both the volatility and the histogram windows are full.
    pub closed spec fn is_ready_spec(self) -> bool {
        self.volatility.rets().len() >= self.volatility.win() && self.histogram.minutes().len()
            >= self.histogram.win()
    }

    /// The rolling window length, in minutes.
    pub fn window_size(&self) -> (r: usize)
        ensures
            r == self.window(),
    {
        self.rolling_window
    }

    /// The bin width the value area is computed at.
    pub fn current_bin_width(&self) -> (r: i64)
        ensures
            r == self.bin_width(),
    {
        self.current_bin_width
    }

    /// Drops all accumulated state and resets the bin width to the tick.
    pub fn clear(&mut self)
        requires
            old(self).inv(),
        ensures
            final(self).inv(),
            final(self).tick() == old(self).tick(),
            final(self).bin_width() == old(self).tick(),
            !final(self).is_ready_spec(),
    {
        self.volatility.clear();
        self.histogram.clear();
        self.order_flow.clear();
        self.qimb_tracker.clear();
        self.spreads.clear();
        self.current_bin_width = self.tick_size;
        self.last_rebucket_min = None;
    }
}

} // verus!
