//! Core market-data types.
//!
//! Prices and sizes are fixed-point integers: a price is a count of price
//! units (the instrument's tick is some whole number of units) and a size is a
//! count of size units. Dimensionless ratios (quote imbalance, coverage, fee
//! rates) are in basis points.

use vstd::prelude::*;
use crate::math::div_trunc;
use crate::math::div_trunc_i128;

verus! {

/// Milliseconds since the Unix epoch (UTC).
pub type TimestampMs = i64;

/// Largest admitted price, in price units.
pub const PRICE_MAX: i64 = 1_000_000_000_000;

/// Largest admitted size, in size units.
pub const SIZE_MAX: i64 = 100_000_000_000;

/// Largest admitted fee magnitude on a single fill, in price·size units.
pub const FEE_ABS_MAX: i128 = 100_000_000_000_000_000_000_000;

/// Largest admitted accumulated funding on one position, in price·size units.
pub const FUNDING_ABS_MAX: i128 = 100_000_000_000_000_000_000_000;

/// Bound on the realized profit or loss of one closed trade, in price·size
/// units: a price difference of at most `PRICE_MAX` over at most `SIZE_MAX`
/// units, plus fees and accumulated funding.
pub const PNL_ABS_MAX: i128 = 400_000_000_000_000_000_000_000;

/// A price that lies on the admitted grid.
pub open spec fn valid_price(p: i64) -> bool {
    0 < p <= PRICE_MAX
}

/// A size within the admitted range.
pub open spec fn valid_size(s: i64) -> bool {
    0 <= s <= SIZE_MAX
}

/// A single trade print from the exchange.
#[derive(Clone, Copy, Debug, PartialEq, Eq, Structural)]
pub struct Trade {
    /// Timestamp in milliseconds.
    pub ts_ms: TimestampMs,
    /// Trade price, in price units.
    pub price: i64,
    /// Trade size, in size units.
    pub size: i64,
}

impl Trade {
    /// A trade the pipeline admits.
    pub open spec fn wf(self) -> bool {
        self.ts_ms >= 0 && valid_price(self.price) && valid_size(self.size)
    }
}

/// A level-1 quote (best bid and ask).
#[derive(Clone, Copy, Debug, PartialEq, Eq, Structural)]
pub struct Quote {
    /// Timestamp in milliseconds.
    pub ts_ms: TimestampMs,
    /// Best bid price, in price units.
    pub bid_px: i64,
    /// Best bid size, in size units.
    pub bid_sz: i64,
    /// Best ask price, in price units.
    pub ask_px: i64,
    /// Best ask size, in size units.
    pub ask_sz: i64,
}

impl Quote {
    /// A quote the pipeline admits.
    pub open spec fn wf(self) -> bool {
        self.ts_ms >= 0 && valid_price(self.bid_px) && valid_price(self.ask_px)
            && valid_size(self.bid_sz) && valid_size(self.ask_sz)
    }

    /// Mid price, rounded down to a whole price unit.
    pub fn mid(&self) -> (r: i64)
        requires
            self.wf(),
        ensures
            r == (self.bid_px + self.ask_px) / 2,
    {
        (self.bid_px + self.ask_px) / 2
    }

    /// Quoted spread; negative when the book is crossed.
    pub fn spread(&self) -> (r: i64)
        requires
            self.wf(),
        ensures
            r == self.ask_px - self.bid_px,
    {
        self.ask_px - self.bid_px
    }

    /// Quote imbalance `(bid_sz - ask_sz) / (bid_sz + ask_sz)` in basis
    /// points, or 0 when both sizes are 0.
    pub fn imbalance(&self) -> (r: i64)
        requires
            self.wf(),
        ensures
            r == imbalance_bps(self.bid_sz as int, self.ask_sz as int),
            -10000 <= r <= 10000,
    {
        let total: i64 = self.bid_sz + self.ask_sz;
        if total > 0 {
            let num: i128 = (self.bid_sz as i128 - self.ask_sz as i128) * 10000;
            let q = div_trunc_i128(num, total as i128);
            proof {
                lemma_ratio_bps_bounded(
                    self.bid_sz as int - self.ask_sz as int,
                    total as int,
                );
            }
            q as i64
        } else {
            0
        }
    }
}

/// `(a - b) * 10000 / (a + b)` truncated toward zero, or 0 when `a + b <= 0`.
pub open spec fn imbalance_bps(a: int, b: int) -> int {
    if a + b > 0 {
        div_trunc((a - b) * 10000, a + b)
    } else {
        0
    }
}

/// A truncated ratio scaled to basis points stays within one: when
/// `|n| <= d`, the quotient `n * 10000 / d` lies in `[-10000, 10000]`.
pub proof fn lemma_ratio_bps_bounded(n: int, d: int)
    requires
        d > 0,
        -d <= n <= d,
    ensures
        -10000 <= div_trunc(n * 10000, d) <= 10000,
{
    if n >= 0 {
        assert(n * 10000 <= d * 10000) by (nonlinear_arith)
            requires 0 <= n <= d
        ;
        assert(n * 10000 / d <= d * 10000 / d) by (nonlinear_arith)
            requires d > 0, n * 10000 <= d * 10000
        ;
        assert(d * 10000 / d == 10000) by (nonlinear_arith)
            requires d > 0
        ;
        assert(n * 10000 / d >= 0) by (nonlinear_arith)
            requires d > 0, n >= 0
        ;
    } else {
        let m = -n;
        assert(m * 10000 <= d * 10000) by (nonlinear_arith)
            requires 0 <= m <= d
        ;
        assert(m * 10000 / d <= d * 10000 / d) by (nonlinear_arith)
            requires d > 0, m * 10000 <= d * 10000
        ;
        assert(d * 10000 / d == 10000) by (nonlinear_arith)
            requires d > 0
        ;
        assert(m * 10000 / d >= 0) by (nonlinear_arith)
            requires d > 0, m >= 0
        ;
        assert(n * 10000 == -(m * 10000));
    }
}

/// Trade side inferred from bid/ask alignment.
#[derive(Clone, Copy, Debug, PartialEq, Eq, Structural)]
pub enum TradeSide {
    /// Trade at or above the ask (buyer-initiated).
    Buy,
    /// Trade at or below the bid (seller-initiated).
    Sell,
    /// Trade between bid and ask.
    Ambiguous,
}

impl TradeSide {
    /// +1 for buy, -1 for sell, 0 for ambiguous.
    pub fn sign(self) -> (r: i8)
        ensures
            r == side_sign(self),
    {
        match self {
            TradeSide::Buy => 1,
            TradeSide::Sell => -1,
            TradeSide::Ambiguous => 0,
        }
    }
}

/// The sign a side contributes to signed flow.
pub open spec fn side_sign(s: TradeSide) -> int {
    match s {
        TradeSide::Buy => 1,
        TradeSide::Sell => -1,
        TradeSide::Ambiguous => 0,
    }
}

/// A trade together with its inferred side and the quote it was judged
/// against.
#[derive(Clone, Copy, Debug, PartialEq, Eq, Structural)]
pub struct ClassifiedTrade {
    /// The original trade.
    pub trade: Trade,
    /// Inferred side.
    pub side: TradeSide,
    /// Bid of the quote used, 0 when no quote existed.
    pub quote_bid_px: i64,
    /// Ask of the quote used, 0 when no quote existed.
    pub quote_ask_px: i64,
    /// Trade timestamp minus quote timestamp; `i64::MAX` when no quote
    /// existed.
    pub quote_staleness_ms: i64,
}

impl ClassifiedTrade {
    /// A classified trade the pipeline admits.
    pub open spec fn wf(self) -> bool {
        self.trade.wf()
    }

    /// Size signed by the side: positive for buys, negative for sells, zero
    /// when ambiguous.
    pub fn signed_size(&self) -> (r: i64)
        requires
            self.wf(),
        ensures
            r == self.trade.size * side_sign(self.side),
    {
        match self.side {
            TradeSide::Buy => self.trade.size,
            TradeSide::Sell => -self.trade.size,
            TradeSide::Ambiguous => 0,
        }
    }
}

/// A finished one-minute OHLCV bar with the closing quote snapshot.
///
/// The volume-weighted average price is carried exactly as its numerator
/// `vwap_num` (the sum of price times size over the bar's trades) so that no
/// precision is lost; `vwap` derives the rounded quotient.
#[derive(Clone, Debug)]
pub struct Bar1m {
    /// Minute boundary timestamp.
    pub ts_min: TimestampMs,
    /// Open price.
    pub open: i64,
    /// Highest trade price.
    pub high: i64,
    /// Lowest trade price.
    pub low: i64,
    /// Last trade price.
    pub close: i64,
    /// Total traded size.
    pub volume: i128,
    /// Sum of price times size over the bar's trades.
    pub vwap_num: i128,
    /// Number of trades.
    pub trade_count: u32,
    /// Bid price of the closing quote, 0 when no quote qualified.
    pub bid_px_close: i64,
    /// Ask price of the closing quote, 0 when no quote qualified.
    pub ask_px_close: i64,
    /// Bid size of the closing quote.
    pub bid_sz_close: i64,
    /// Ask size of the closing quote.
    pub ask_sz_close: i64,
}

impl Bar1m {
    /// A bar the pipeline admits. The quote fields may all be zero (no
    /// snapshot); prices obey the OHLC ordering.
    pub open spec fn wf(self) -> bool {
        &&& self.ts_min >= 0
        &&& valid_price(self.open)
        &&& valid_price(self.high)
        &&& valid_price(self.low)
        &&& valid_price(self.close)
        &&& self.low <= self.open <= self.high
        &&& self.low <= self.close <= self.high
        &&& 0 <= self.volume
        &&& 0 <= self.vwap_num
        &&& self.trade_count >= 1
        &&& 0 <= self.bid_px_close <= PRICE_MAX
        &&& 0 <= self.ask_px_close <= PRICE_MAX
        &&& valid_size(self.bid_sz_close)
        &&& valid_size(self.ask_sz_close)
    }

    /// Volume-weighted average price rounded down to a whole price unit, or
    /// `None` when the bar carries no volume.
    pub fn vwap(&self) -> (r: Option<i128>)
        requires
            self.wf(),
        ensures
            match r {
                Some(v) => self.volume > 0 && v == self.vwap_num / self.volume,
                None => self.volume == 0,
            },
    {
        if self.volume > 0 {
            Some(div_trunc_i128(self.vwap_num, self.volume))
        } else {
            None
        }
    }

    /// Mid price of the closing quote, rounded down to a whole price unit.
    pub fn mid_close(&self) -> (r: i64)
        requires
            self.wf(),
        ensures
            r == (self.bid_px_close + self.ask_px_close) / 2,
    {
        (self.bid_px_close + self.ask_px_close) / 2
    }

    /// Spread of the closing quote.
    pub fn spread_close(&self) -> (r: i64)
        requires
            self.wf(),
        ensures
            r == self.ask_px_close - self.bid_px_close,
    {
        self.ask_px_close - self.bid_px_close
    }

    /// Quote imbalance of the closing quote in basis points.
    pub fn qimb_close(&self) -> (r: i64)
        requires
            self.wf(),
        ensures
            r == imbalance_bps(self.bid_sz_close as int, self.ask_sz_close as int),
            -10000 <= r <= 10000,
    {
        let total: i64 = self.bid_sz_close + self.ask_sz_close;
        if total > 0 {
            let num: i128 = (self.bid_sz_close as i128 - self.ask_sz_close as i128) * 10000;
            let q = div_trunc_i128(num, total as i128);
            proof {
                lemma_ratio_bps_bounded(
                    self.bid_sz_close as int - self.ask_sz_close as int,
                    total as int,
                );
            }
            q as i64
        } else {
            0
        }
    }
}

/// Point of control and value-area boundaries of a volume histogram.
///
/// When `is_valid` is false every numeric field is zero and the record means
/// "no value area".
#[derive(Clone, Copy, Debug, PartialEq, Eq, Structural)]
pub struct ValueArea {
    /// Midpoint of the highest-volume bin.
    pub poc: i64,
    /// Upper edge of the highest included bin.
    pub vah: i64,
    /// Lower edge of the lowest included bin.
    pub val: i64,
    /// Achieved coverage in basis points of total volume.
    pub coverage: i64,
    /// Number of bins inside the value area.
    pub bin_count: u32,
    /// Total volume over the whole histogram.
    pub total_volume: i128,
    /// Bin width used, in price units.
    pub bin_width: i64,
    /// Whether the value area is usable.
    pub is_valid: bool,
}

impl ValueArea {
    /// The "no value area" record: invalid, with every numeric field zero.
    pub fn invalid() -> (r: ValueArea)
        ensures
            !r.is_valid,
            r.poc == 0 && r.vah == 0 && r.val == 0 && r.coverage == 0,
            r.bin_count == 0 && r.total_volume == 0 && r.bin_width == 0,
    {
        ValueArea {
            poc: 0,
            vah: 0,
            val: 0,
            coverage: 0,
            bin_count: 0,
            total_volume: 0,
            bin_width: 0,
            is_valid: false,
        }
    }
}

/// Per-minute order-flow totals. `of_1m` is buy volume minus sell volume;
/// the normalized fields are in basis points of total volume.
#[derive(Clone, Copy, Debug, PartialEq, Eq, Structural)]
pub struct OrderFlowMetrics {
    /// Net signed order flow: buy volume minus sell volume.
    pub of_1m: i128,
    /// `of_1m / total_volume` in basis points, 0 when there is no volume.
    pub of_norm_1m: i64,
    /// Total volume.
    pub total_volume: i128,
    /// Buyer-initiated volume.
    pub buy_volume: i128,
    /// Seller-initiated volume.
    pub sell_volume: i128,
    /// Volume of ambiguous trades.
    pub ambiguous_volume: i128,
    /// `ambiguous_volume / total_volume` in basis points.
    pub ambiguous_frac: i64,
}

impl OrderFlowMetrics {
    /// Whether the ambiguous fraction exceeds a threshold in basis points.
    pub fn is_high_ambiguous(&self, threshold_bps: i64) -> (r: bool)
        ensures
            r == (self.ambiguous_frac > threshold_bps),
    {
        self.ambiguous_frac > threshold_bps
    }
}

/// Complete feature record for one minute.
#[derive(Clone, Debug)]
pub struct Features1m {
    /// Minute boundary timestamp.
    pub ts_min: TimestampMs,
    /// Mid price at close, in price units.
    pub mid_close: i64,
    /// Rolling volatility of returns over the configured window, in
    /// micro-return units.
    pub sigma_240: i64,
    /// Bin width the value area was computed at.
    pub bin_width: i64,
    /// Value area.
    pub va: ValueArea,
    /// Order flow for the minute.
    pub order_flow: OrderFlowMetrics,
    /// Quote imbalance at close, in basis points.
    pub qimb_close: i64,
    /// Exponential moving average of the quote imbalance over the minute, in
    /// basis points.
    pub qimb_ema: i64,
    /// Average quoted spread over the lookback window, in price units.
    pub spread_avg_60m: i64,
}

/// Trading signal category.
#[derive(Clone, Copy, Debug, PartialEq, Eq, Structural)]
pub enum SignalType {
    /// Failed auction below value, close back above.
    BreakinLong,
    /// Failed auction above value, close back below.
    BreakinShort,
    /// Acceptance above the value-area high.
    BreakoutLong,
    /// Acceptance below the value-area low.
    BreakoutShort,
    /// Fakeout below value, reversal up.
    FailedBreakoutLong,
    /// Fakeout above value, reversal down.
    FailedBreakoutShort,
}

impl SignalType {
    /// Whether this is a long signal.
    pub fn is_long(self) -> (r: bool)
        ensures
            r == (self is BreakinLong || self is BreakoutLong || self is FailedBreakoutLong),
    {
        matches!(
            self,
            SignalType::BreakinLong | SignalType::BreakoutLong | SignalType::FailedBreakoutLong
        )
    }

    /// Whether this is a short signal.
    pub fn is_short(self) -> (r: bool)
        ensures
            r == !(self is BreakinLong || self is BreakoutLong || self is FailedBreakoutLong),
    {
        !self.is_long()
    }

    /// Priority rank, lower being higher priority: break-in before failed
    /// breakout before breakout.
    pub fn priority(self) -> (r: u8)
        ensures
            (self is BreakinLong || self is BreakinShort) ==> r == 1,
            (self is FailedBreakoutLong || self is FailedBreakoutShort) ==> r == 2,
            (self is BreakoutLong || self is BreakoutShort) ==> r == 3,
    {
        match self {
            SignalType::BreakinLong | SignalType::BreakinShort => 1,
            SignalType::FailedBreakoutLong | SignalType::FailedBreakoutShort => 2,
            SignalType::BreakoutLong | SignalType::BreakoutShort => 3,
        }
    }
}

/// Side of an open position.
#[derive(Clone, Copy, Debug, PartialEq, Eq, Structural)]
pub enum PositionSide {
    Long,
    Short,
}

impl PositionSide {
    /// +1 for long, -1 for short.
    pub fn sign(self) -> (r: i64)
        ensures
            r == pos_sign(self),
    {
        match self {
            PositionSide::Long => 1,
            PositionSide::Short => -1,
        }
    }
}

/// The sign a position side gives to price moves.
pub open spec fn pos_sign(s: PositionSide) -> int {
    match s {
        PositionSide::Long => 1,
        PositionSide::Short => -1,
    }
}

/// Action requested by a signal.
#[derive(Clone, Copy, Debug, PartialEq, Eq, Structural)]
pub enum Action {
    /// Enter a long position.
    EnterLong,
    /// Enter a short position.
    EnterShort,
    /// Exit the current position.
    Exit,
    /// Do nothing.
    Hold,
}

/// A simulated order execution.
#[derive(Clone, Copy, Debug, PartialEq, Eq, Structural)]
pub struct Fill {
    /// Timestamp of the fill.
    pub ts_ms: TimestampMs,
    /// Fill price, in price units.
    pub price: i64,
    /// Fill size, in size units (positive).
    pub size: i64,
    /// Side of the fill.
    pub side: PositionSide,
    /// Fee paid, in price·size units; negative for a rebate.
    pub fee: i128,
    /// Realized slippage from the touch, in price units.
    pub slippage: i64,
}

impl Fill {
    /// A fill the pipeline admits.
    pub open spec fn wf(self) -> bool {
        self.ts_ms >= 0 && valid_price(self.price) && valid_size(self.size) && self.size > 0
            && -FEE_ABS_MAX <= self.fee <= FEE_ABS_MAX
    }
}

} // verus!
