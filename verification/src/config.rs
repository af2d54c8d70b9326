//! Configuration for the whole system. Fractional parameters are in basis
//! points; prices are in price units.

use vstd::prelude::*;
use crate::types::PRICE_MAX;
use crate::classifier::STALENESS_LIMIT_MAX;

verus! {

/// Instrument parameters.
#[derive(Clone, Debug)]
pub struct InstrumentConfig {
    /// Trading symbol.
    pub symbol: String,
    /// Exchange name.
    pub exchange: String,
    /// Bar timeframe label.
    pub timeframe: String,
    /// Tick size, in price units.
    pub tick_size: i64,
    /// Rolling window, in minutes.
    pub rolling_window_minutes: u32,
}

impl InstrumentConfig {
    /// An admissible instrument: a positive tick on the price grid and a
    /// window of at least two minutes.
    pub open spec fn wf(self) -> bool {
        0 < self.tick_size <= PRICE_MAX && 2 <= self.rolling_window_minutes <= 100_000
    }
}

impl Default for InstrumentConfig {
    /// A tick of one price unit and a four-hour window.
    fn default() -> (r: InstrumentConfig)
        ensures
            r.wf(),
            r.tick_size == 1,
            r.rolling_window_minutes == 240,
    {
        InstrumentConfig {
            symbol: String::new(),
            exchange: String::new(),
            timeframe: String::new(),
            tick_size: 1,
            rolling_window_minutes: 240,
        }
    }
}

/// Value-area parameters.
#[derive(Clone, Copy, Debug, PartialEq, Eq, Structural)]
pub struct ValueAreaConfig {
    /// Target coverage, in basis points.
    pub va_fraction: i64,
    /// Base bin width, in ticks.
    pub base_bin_ticks: u32,
    /// Volatility scaling of the bin width, in basis points.
    pub alpha_bin: i64,
    /// Largest bin width, in ticks.
    pub bin_width_max_ticks: u32,
    /// Fewest minutes between scheduled re-bucketings.
    pub rebucket_interval_minutes: u32,
    /// Relative width change that forces a re-bucketing, in basis points.
    pub rebucket_change_pct: i64,
    /// Fewest bins on which a value area is reported.
    pub min_va_bins: u32,
}

impl ValueAreaConfig {
    /// An admissible configuration.
    pub open spec fn wf(self) -> bool {
        &&& 0 < self.va_fraction <= 10000
        &&& 1 <= self.base_bin_ticks
        &&& 0 <= self.alpha_bin <= 10000
        &&& 1 <= self.bin_width_max_ticks
        &&& 0 <= self.rebucket_change_pct <= 1_000_000
    }
}

impl Default for ValueAreaConfig {
    /// 70% coverage, one-tick base bins, a quarter-sigma width scale capped
    /// at 200 ticks, re-bucketing every 15 minutes or on a 25% width change,
    /// at least 20 bins.
    fn default() -> (r: ValueAreaConfig)
        ensures
            r.wf(),
            r == (ValueAreaConfig {
                va_fraction: 7000i64,
                base_bin_ticks: 1u32,
                alpha_bin: 2500i64,
                bin_width_max_ticks: 200u32,
                rebucket_interval_minutes: 15u32,
                rebucket_change_pct: 2500i64,
                min_va_bins: 20u32,
            }),
    {
        ValueAreaConfig {
            va_fraction: 7000,
            base_bin_ticks: 1,
            alpha_bin: 2500,
            bin_width_max_ticks: 200,
            rebucket_interval_minutes: 15,
            rebucket_change_pct: 2500,
            min_va_bins: 20,
        }
    }
}

/// Order-flow parameters.
#[derive(Clone, Copy, Debug, PartialEq, Eq, Structural)]
pub struct OrderFlowConfig {
    /// Staleness cutoff for trade classification, in milliseconds.
    pub max_quote_staleness_ms: i64,
    /// Largest tolerated ambiguous share, in basis points.
    pub ambiguous_trade_frac_max: i64,
    /// Whether the tick rule resolves ambiguous trades.
    pub use_tick_rule_fallback: bool,
    /// Whether quote imbalance filters signals.
    pub use_qimb: bool,
    /// Least imbalance for entries, in basis points.
    pub qimb_entry_min: i64,
    /// Least imbalance for breakouts, in basis points.
    pub qimb_breakout_min: i64,
    /// Largest imbalance for failed breakouts, in basis points.
    pub qimb_fail_max: i64,
    /// Spread average lookback, in minutes.
    pub spread_lookback_minutes: u32,
}

impl OrderFlowConfig {
    /// An admissible configuration.
    pub open spec fn wf(self) -> bool {
        &&& 0 <= self.max_quote_staleness_ms <= STALENESS_LIMIT_MAX
        &&& 1 <= self.spread_lookback_minutes <= 1_000_000
    }
}

impl Default for OrderFlowConfig {
    /// A quarter-second staleness cutoff with the tick rule enabled and an
    /// hour of spread lookback.
    fn default() -> (r: OrderFlowConfig)
        ensures
            r.wf(),
            r == (OrderFlowConfig {
                max_quote_staleness_ms: 250i64,
                ambiguous_trade_frac_max: 3500i64,
                use_tick_rule_fallback: true,
                use_qimb: true,
                qimb_entry_min: 1000i64,
                qimb_breakout_min: 1000i64,
                qimb_fail_max: -1000i64,
                spread_lookback_minutes: 60u32,
            }),
    {
        OrderFlowConfig {
            max_quote_staleness_ms: 250,
            ambiguous_trade_frac_max: 3500,
            use_tick_rule_fallback: true,
            use_qimb: true,
            qimb_entry_min: 1000,
            qimb_breakout_min: 1000,
            qimb_fail_max: -1000,
            spread_lookback_minutes: 60,
        }
    }
}

/// Signal-detection parameters.
#[derive(Clone, Copy, Debug, PartialEq, Eq, Structural)]
pub struct SignalConfig {
    /// Least absolute order flow for entries, in size units.
    pub of_entry_min: i128,
    /// Least normalized order flow for entries, in basis points.
    pub of_entry_min_norm: i64,
    /// Least absolute order flow for breakouts, in size units.
    pub of_breakout_min: i128,
    /// Least normalized order flow for breakouts, in basis points.
    pub of_breakout_min_norm: i64,
    /// Largest order flow for failed breakouts, in size units.
    pub of_fail_max: i128,
    /// Largest normalized order flow for failed breakouts, in basis points.
    pub of_fail_max_norm: i64,
    /// Consecutive closes outside value for acceptance.
    pub accept_outside_k: u32,
    /// Whether retest mode is enabled for breakouts.
    pub enable_retest_mode: bool,
    /// Whether an opposing signal reverses without an explicit exit.
    pub enable_flip_on_signal: bool,
}

impl Default for SignalConfig {
    /// Entries and breakouts need a tenth of normalized flow; acceptance
    /// takes three closes.
    fn default() -> (r: SignalConfig)
        ensures
            r == (SignalConfig {
                of_entry_min: 0i128,
                of_entry_min_norm: 1000i64,
                of_breakout_min: 0i128,
                of_breakout_min_norm: 1000i64,
                of_fail_max: 0i128,
                of_fail_max_norm: -1000i64,
                accept_outside_k: 3u32,
                enable_retest_mode: true,
                enable_flip_on_signal: true,
            }),
    {
        SignalConfig {
            of_entry_min: 0,
            of_entry_min_norm: 1000,
            of_breakout_min: 0,
            of_breakout_min_norm: 1000,
            of_fail_max: 0,
            of_fail_max_norm: -1000,
            accept_outside_k: 3,
            enable_retest_mode: true,
            enable_flip_on_signal: true,
        }
    }
}

/// Position-sizing parameters.
#[derive(Clone, Copy, Debug, PartialEq, Eq, Structural)]
pub struct SizingConfig {
    /// Risk per trade, in basis points of available margin.
    pub risk_pct: i64,
    /// Largest leverage, in basis points of one times.
    pub max_leverage: i64,
    /// Share closed at the first take-profit, in basis points.
    pub tp1_pct: i64,
    /// Share closed at the second take-profit, in basis points.
    pub tp2_pct: i64,
    /// Whether the stop moves to breakeven after the first take-profit.
    pub move_stop_to_breakeven_after_tp1: bool,
}

impl Default for SizingConfig {
    /// 2% risk, 10x leverage, 30% then 70% take-profit allocation.
    fn default() -> (r: SizingConfig)
        ensures
            r == (SizingConfig {
                risk_pct: 200i64,
                max_leverage: 100_000i64,
                tp1_pct: 3000i64,
                tp2_pct: 7000i64,
                move_stop_to_breakeven_after_tp1: true,
            }),
    {
        SizingConfig {
            risk_pct: 200,
            max_leverage: 100_000,
            tp1_pct: 3000,
            tp2_pct: 7000,
            move_stop_to_breakeven_after_tp1: true,
        }
    }
}

/// Risk-management parameters.
#[derive(Clone, Copy, Debug, PartialEq, Eq, Structural)]
pub struct RiskConfig {
    /// Base maximum hold time, in minutes.
    pub max_hold_minutes: u32,
    /// Whether profitable positions may be held longer.
    pub extend_if_profitable: bool,
    /// Cooldown after an exit, in minutes.
    pub cooldown_minutes: u32,
    /// Stop buffer, in ticks.
    pub stop_buffer_ticks: u32,
    /// Largest tolerated daily loss, in price·size units.
    pub max_daily_loss: Option<i128>,
}

impl Default for RiskConfig {
    /// An hour's hold with extension, a three-minute cooldown, a two-tick
    /// stop buffer, and no daily loss cap.
    fn default() -> (r: RiskConfig)
        ensures
            r == (RiskConfig {
                max_hold_minutes: 60u32,
                extend_if_profitable: true,
                cooldown_minutes: 3u32,
                stop_buffer_ticks: 2u32,
                max_daily_loss: None::<i128>,
            }),
    {
        RiskConfig {
            max_hold_minutes: 60,
            extend_if_profitable: true,
            cooldown_minutes: 3,
            stop_buffer_ticks: 2,
            max_daily_loss: None,
        }
    }
}

/// Execution parameters.
#[derive(Clone, Copy, Debug, PartialEq, Eq, Structural)]
pub struct ExecutionConfig {
    /// Whether entries rest as limit orders first.
    pub use_limit_for_entry: bool,
    /// Minutes before a resting entry converts to a market order.
    pub limit_order_timeout_minutes: u32,
    /// Entry slippage, in ticks.
    pub slippage_ticks_entry: u32,
    /// Exit slippage, in ticks.
    pub slippage_ticks_exit: u32,
    /// Taker fee, in basis points.
    pub taker_fee_bps: i64,
    /// Maker fee, in basis points; negative is a rebate.
    pub maker_fee_bps: i64,
}

impl Default for ExecutionConfig {
    /// One tick of slippage each way, a 5 bps taker fee and a 1 bps maker
    /// rebate.
    fn default() -> (r: ExecutionConfig)
        ensures
            r == (ExecutionConfig {
                use_limit_for_entry: true,
                limit_order_timeout_minutes: 1u32,
                slippage_ticks_entry: 1u32,
                slippage_ticks_exit: 1u32,
                taker_fee_bps: 5i64,
                maker_fee_bps: -1i64,
            }),
    {
        ExecutionConfig {
            use_limit_for_entry: true,
            limit_order_timeout_minutes: 1,
            slippage_ticks_entry: 1,
            slippage_ticks_exit: 1,
            taker_fee_bps: 5,
            maker_fee_bps: -1,
        }
    }
}

/// Backtest parameters.
#[derive(Clone, Copy, Debug, PartialEq, Eq, Structural)]
pub struct BacktestConfig {
    /// Funding rate per eight hours, in basis points.
    pub funding_rate_8h_bps: i64,
    /// Initial capital, in price·size units.
    pub initial_capital: i128,
    /// Parallel workers; 0 picks automatically.
    pub workers: u32,
}

impl Default for BacktestConfig {
    /// A 1 bps funding rate and the canonical-scale capital of 10 000
    /// currency units.
    fn default() -> (r: BacktestConfig)
        ensures
            r == (BacktestConfig {
                funding_rate_8h_bps: 1i64,
                initial_capital: 100_000_000i128,
                workers: 0u32,
            }),
    {
        BacktestConfig { funding_rate_8h_bps: 1, initial_capital: 100_000_000, workers: 0 }
    }
}

/// The complete configuration.
#[derive(Clone, Debug)]
pub struct Config {
    /// Instrument parameters.
    pub instrument: InstrumentConfig,
    /// Value-area parameters.
    pub value_area: ValueAreaConfig,
    /// Order-flow parameters.
    pub order_flow: OrderFlowConfig,
    /// Signal parameters.
    pub signal: SignalConfig,
    /// Sizing parameters.
    pub sizing: SizingConfig,
    /// Risk parameters.
    pub risk: RiskConfig,
    /// Execution parameters.
    pub execution: ExecutionConfig,
    /// Backtest parameters.
    pub backtest: BacktestConfig,
}

impl Config {
    /// An admissible configuration for the feature engine.
    pub open spec fn wf(self) -> bool {
        &&& self.instrument.wf()
        &&& self.value_area.wf()
        &&& self.order_flow.wf()
        &&& self.value_area.bin_width_max_ticks * self.instrument.tick_size <= PRICE_MAX
    }
}

impl Default for Config {
    /// All sections at their defaults.
    fn default() -> (r: Config)
        ensures
            r.wf(),
            r.instrument.wf(),
            r.instrument.tick_size == 1,
            r.instrument.rolling_window_minutes == 240,
            r.value_area == ValueAreaConfig::default_spec(),
            r.order_flow == OrderFlowConfig::default_spec(),
            r.signal == SignalConfig::default_spec(),
            r.sizing == SizingConfig::default_spec(),
            r.risk == RiskConfig::default_spec(),
            r.execution == ExecutionConfig::default_spec(),
            r.backtest == BacktestConfig::default_spec(),
    {
        Config {
            instrument: InstrumentConfig::default(),
            value_area: ValueAreaConfig::default(),
            order_flow: OrderFlowConfig::default(),
            signal: SignalConfig::default(),
            sizing: SizingConfig::default(),
            risk: RiskConfig::default(),
            execution: ExecutionConfig::default(),
            backtest: BacktestConfig::default(),
        }
    }
}

impl ValueAreaConfig {
    /// The default value as a specification value.
    pub open spec fn default_spec() -> ValueAreaConfig {
        ValueAreaConfig {
            va_fraction: 7000i64,
            base_bin_ticks: 1u32,
            alpha_bin: 2500i64,
            bin_width_max_ticks: 200u32,
            rebucket_interval_minutes: 15u32,
            rebucket_change_pct: 2500i64,
            min_va_bins: 20u32,
        }
    }
}

impl OrderFlowConfig {
    /// The default value as a specification value.
    pub open spec fn default_spec() -> OrderFlowConfig {
        OrderFlowConfig {
            max_quote_staleness_ms: 250i64,
            ambiguous_trade_frac_max: 3500i64,
            use_tick_rule_fallback: true,
            use_qimb: true,
            qimb_entry_min: 1000i64,
            qimb_breakout_min: 1000i64,
            qimb_fail_max: -1000i64,
            spread_lookback_minutes: 60u32,
        }
    }
}

impl SignalConfig {
    /// The default value as a specification value.
    pub open spec fn default_spec() -> SignalConfig {
        SignalConfig {
            of_entry_min: 0i128,
            of_entry_min_norm: 1000i64,
            of_breakout_min: 0i128,
            of_breakout_min_norm: 1000i64,
            of_fail_max: 0i128,
            of_fail_max_norm: -1000i64,
            accept_outside_k: 3u32,
            enable_retest_mode: true,
            enable_flip_on_signal: true,
        }
    }
}

impl SizingConfig {
    /// The default value as a specification value.
    pub open spec fn default_spec() -> SizingConfig {
        SizingConfig {
            risk_pct: 200i64,
            max_leverage: 100_000i64,
            tp1_pct: 3000i64,
            tp2_pct: 7000i64,
            move_stop_to_breakeven_after_tp1: true,
        }
    }
}

impl RiskConfig {
    /// The default value as a specification value.
    pub open spec fn default_spec() -> RiskConfig {
        RiskConfig {
            max_hold_minutes: 60u32,
            extend_if_profitable: true,
            cooldown_minutes: 3u32,
            stop_buffer_ticks: 2u32,
            max_daily_loss: None::<i128>,
        }
    }
}

impl ExecutionConfig {
    /// The default value as a specification value.
    pub open spec fn default_spec() -> ExecutionConfig {
        ExecutionConfig {
            use_limit_for_entry: true,
            limit_order_timeout_minutes: 1u32,
            slippage_ticks_entry: 1u32,
            slippage_ticks_exit: 1u32,
            taker_fee_bps: 5i64,
            maker_fee_bps: -1i64,
        }
    }
}

impl BacktestConfig {
    /// The default value as a specification value.
    pub open spec fn default_spec() -> BacktestConfig {
        BacktestConfig { funding_rate_8h_bps: 1i64, initial_capital: 100_000_000i128, workers: 0u32 }
    }
}

} // verus!
