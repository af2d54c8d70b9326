//! Fill model: fill prices, slippage and fees for simulated market and limit
//! orders.

use vstd::prelude::*;
use crate::math::div_trunc;
use crate::math::div_trunc_i128;
use crate::types::Fill;
use crate::types::PositionSide;
use crate::types::Quote;
use crate::types::PRICE_MAX;
use crate::types::SIZE_MAX;
use crate::types::valid_price;

verus! {

/// Configuration of the fill model. Fee rates are in basis points of the
/// notional; the maker rate may be negative (a rebate).
#[derive(Clone, Copy, Debug, PartialEq, Eq, Structural)]
pub struct FillModelConfig {
    /// Slippage charged on entry orders, in ticks.
    pub slippage_ticks_entry: u32,
    /// Slippage charged on exit orders, in ticks.
    pub slippage_ticks_exit: u32,
    /// Tick size, in price units.
    pub tick_size: i64,
    /// Taker fee, in basis points.
    pub taker_fee_bps: i64,
    /// Maker fee, in basis points; negative means a rebate.
    pub maker_fee_bps: i64,
}

impl FillModelConfig {
    /// An admissible configuration: a positive tick, slippage that stays on
    /// the price grid, and fee rates of at most 100%.
    pub open spec fn wf(self) -> bool {
        &&& 0 < self.tick_size <= PRICE_MAX
        &&& self.slippage_ticks_entry * self.tick_size <= PRICE_MAX
        &&& self.slippage_ticks_exit * self.tick_size <= PRICE_MAX
        &&& -10000 <= self.taker_fee_bps <= 10000
        &&& -10000 <= self.maker_fee_bps <= 10000
    }
}

impl Default for FillModelConfig {
    /// One tick of slippage each way on a one-unit tick, a 5 bps taker fee
    /// and a 1 bps maker rebate.
    fn default() -> (r: FillModelConfig)
        ensures
            r == (FillModelConfig {
                slippage_ticks_entry: 1u32,
                slippage_ticks_exit: 1u32,
                tick_size: 1i64,
                taker_fee_bps: 5i64,
                maker_fee_bps: -1i64,
            }),
            r.wf(),
    {
        FillModelConfig {
            slippage_ticks_entry: 1,
            slippage_ticks_exit: 1,
            tick_size: 1,
            taker_fee_bps: 5,
            maker_fee_bps: -1,
        }
    }
}

/// Fee on a notional at a rate in basis points, truncated toward zero.
pub open spec fn fee_of(notional: int, bps: int) -> int {
    div_trunc(notional * bps, 10000)
}

/// The fee magnitude never exceeds the notional magnitude at rates of at most
/// 100%.
pub proof fn lemma_fee_bounded(notional: int, bps: int)
    requires
        -10000 <= bps <= 10000,
    ensures
        notional >= 0 ==> -notional <= fee_of(notional, bps) <= notional,
{
    if notional >= 0 {
        if bps >= 0 {
            assert(notional * bps <= notional * 10000) by (nonlinear_arith)
                requires notional >= 0, bps <= 10000
            ;
            assert(notional * bps >= 0) by (nonlinear_arith)
                requires notional >= 0, bps >= 0
            ;
            assert(notional * bps / 10000 <= notional * 10000 / 10000) by (nonlinear_arith)
                requires notional * bps <= notional * 10000
            ;
            assert(notional * 10000 / 10000 == notional) by (nonlinear_arith);
            assert(notional * bps / 10000 >= 0) by (nonlinear_arith)
                requires notional * bps >= 0
            ;
        } else {
            let m = -bps;
            assert(notional * m <= notional * 10000) by (nonlinear_arith)
                requires notional >= 0, 0 <= m <= 10000
            ;
            assert(notional * m >= 0) by (nonlinear_arith)
                requires notional >= 0, m >= 0
            ;
            assert(notional * m / 10000 <= notional * 10000 / 10000) by (nonlinear_arith)
                requires notional * m <= notional * 10000
            ;
            assert(notional * 10000 / 10000 == notional) by (nonlinear_arith);
            assert(notional * m / 10000 >= 0) by (nonlinear_arith)
                requires notional * m >= 0
            ;
            assert(notional * bps == -(notional * m)) by (nonlinear_arith)
                requires m == -bps
            ;
        }
    }
}

/// Simulates order executions against level-1 quotes.
pub struct FillModel {
    config: FillModelConfig,
}

impl FillModel {
    /// The configuration the model was built with.
    pub closed spec fn cfg(self) -> FillModelConfig {
        self.config
    }

    /// Builds a fill model from an admissible configuration.
    pub fn new(config: FillModelConfig) -> (r: FillModel)
        requires
            config.wf(),
        ensures
            r.cfg() == config,
    {
        FillModel { config }
    }

    /// Fee on a notional: the taker rate for aggressive orders, the maker
    /// rate (possibly a rebate) for resting orders.
    pub fn calculate_fee(&self, notional: i128, is_maker: bool) -> (r: i128)
        requires
            self.cfg().wf(),
            0 <= notional <= PRICE_MAX as i128 * SIZE_MAX as i128,
        ensures
            r == fee_of(
                notional as int,
                if is_maker { self.cfg().maker_fee_bps as int } else { self.cfg().taker_fee_bps as int },
            ),
            -notional <= r <= notional,
    {
        let bps: i64 = if is_maker {
            self.config.maker_fee_bps
        } else {
            self.config.taker_fee_bps
        };
        proof {
            lemma_fee_bounded(notional as int, bps as int);
            assert(-(PRICE_MAX as int * SIZE_MAX as int) * 10000 <= notional * bps
                <= PRICE_MAX as int * SIZE_MAX as int * 10000) by (nonlinear_arith)
                requires
                    0 <= notional <= PRICE_MAX as int * SIZE_MAX as int,
                    -10000 <= bps <= 10000,
            ;
        }
        div_trunc_i128(notional * (bps as i128), 10000)
    }

    /// Market buy: fills at the ask plus the entry slippage, paying the taker
    /// fee on the notional.
    pub fn market_buy(&self, ts_ms: i64, quote: &Quote, size: i64) -> (r: Fill)
        requires
            self.cfg().wf(),
            quote.wf(),
            ts_ms >= 0,
            0 < size <= SIZE_MAX,
            quote.ask_px + self.cfg().slippage_ticks_entry * self.cfg().tick_size <= PRICE_MAX,
        ensures
            r.ts_ms == ts_ms,
            r.price == quote.ask_px + self.cfg().slippage_ticks_entry * self.cfg().tick_size,
            r.size == size,
            r.side is Long,
            r.slippage == self.cfg().slippage_ticks_entry * self.cfg().tick_size,
            r.fee == fee_of(r.price as int * size as int, self.cfg().taker_fee_bps as int),
            r.wf(),
    {
        let slippage: i64 = (self.config.slippage_ticks_entry as i64) * self.config.tick_size;
        let fill_price: i64 = quote.ask_px + slippage;
        proof {
            assert(0 <= (fill_price as int) * (size as int) <= PRICE_MAX as int * SIZE_MAX as int)
                by (nonlinear_arith)
                requires 0 < fill_price <= PRICE_MAX, 0 < size <= SIZE_MAX
            ;
        }
        let notional: i128 = (fill_price as i128) * (size as i128);
        let fee = self.calculate_fee(notional, false);
        Fill { ts_ms, price: fill_price, size, side: PositionSide::Long, fee, slippage }
    }

    /// Market sell: fills at the bid minus the exit slippage, paying the
    /// taker fee on the notional.
    pub fn market_sell(&self, ts_ms: i64, quote: &Quote, size: i64) -> (r: Fill)
        requires
            self.cfg().wf(),
            quote.wf(),
            ts_ms >= 0,
            0 < size <= SIZE_MAX,
            quote.bid_px - self.cfg().slippage_ticks_exit * self.cfg().tick_size > 0,
        ensures
            r.ts_ms == ts_ms,
            r.price == quote.bid_px - self.cfg().slippage_ticks_exit * self.cfg().tick_size,
            r.size == size,
            r.side is Short,
            r.slippage == self.cfg().slippage_ticks_exit * self.cfg().tick_size,
            r.fee == fee_of(r.price as int * size as int, self.cfg().taker_fee_bps as int),
            r.wf(),
    {
        let slippage: i64 = (self.config.slippage_ticks_exit as i64) * self.config.tick_size;
        let fill_price: i64 = quote.bid_px - slippage;
        proof {
            assert(0 <= (fill_price as int) * (size as int) <= PRICE_MAX as int * SIZE_MAX as int)
                by (nonlinear_arith)
                requires 0 < fill_price <= PRICE_MAX, 0 < size <= SIZE_MAX
            ;
        }
        let notional: i128 = (fill_price as i128) * (size as i128);
        let fee = self.calculate_fee(notional, false);
        Fill { ts_ms, price: fill_price, size, side: PositionSide::Short, fee, slippage }
    }

    /// Limit buy: fills exactly when the ask is at or below the limit, at the
    /// lower of the two, with the maker fee and no slippage.
    pub fn limit_buy(&self, ts_ms: i64, limit_price: i64, quote: &Quote, size: i64) -> (r: Option<
        Fill,
    >)
        requires
            self.cfg().wf(),
            quote.wf(),
            ts_ms >= 0,
            valid_price(limit_price),
            0 < size <= SIZE_MAX,
        ensures
            r is Some <==> quote.ask_px <= limit_price,
            match r {
                Some(f) => {
                    &&& f.ts_ms == ts_ms
                    &&& f.price == if limit_price <= quote.ask_px { limit_price } else { quote.ask_px }
                    &&& f.size == size
                    &&& f.side is Long
                    &&& f.slippage == 0
                    &&& f.fee == fee_of(f.price as int * size as int, self.cfg().maker_fee_bps as int)
                    &&& f.wf()
                },
                None => true,
            },
    {
        if quote.ask_px <= limit_price {
            let fill_price: i64 = if limit_price <= quote.ask_px {
                limit_price
            } else {
                quote.ask_px
            };
            proof {
                assert(0 <= (fill_price as int) * (size as int)
                    <= PRICE_MAX as int * SIZE_MAX as int) by (nonlinear_arith)
                    requires 0 < fill_price <= PRICE_MAX, 0 < size <= SIZE_MAX
                ;
            }
            let notional: i128 = (fill_price as i128) * (size as i128);
            let fee = self.calculate_fee(notional, true);
            Some(Fill { ts_ms, price: fill_price, size, side: PositionSide::Long, fee, slippage: 0 })
        } else {
            None
        }
    }

    /// Limit sell: fills exactly when the bid is at or above the limit, at
    /// the higher of the two, with the maker fee and no slippage.
    pub fn limit_sell(&self, ts_ms: i64, limit_price: i64, quote: &Quote, size: i64) -> (r: Option<
        Fill,
    >)
        requires
            self.cfg().wf(),
            quote.wf(),
            ts_ms >= 0,
            valid_price(limit_price),
            0 < size <= SIZE_MAX,
        ensures
            r is Some <==> quote.bid_px >= limit_price,
            match r {
                Some(f) => {
                    &&& f.ts_ms == ts_ms
                    &&& f.price == if limit_price >= quote.bid_px { limit_price } else { quote.bid_px }
                    &&& f.size == size
                    &&& f.side is Short
                    &&& f.slippage == 0
                    &&& f.fee == fee_of(f.price as int * size as int, self.cfg().maker_fee_bps as int)
                    &&& f.wf()
                },
                None => true,
            },
    {
        if quote.bid_px >= limit_price {
            let fill_price: i64 = if limit_price >= quote.bid_px {
                limit_price
            } else {
                quote.bid_px
            };
            proof {
                assert(0 <= (fill_price as int) * (size as int)
                    <= PRICE_MAX as int * SIZE_MAX as int) by (nonlinear_arith)
                    requires 0 < fill_price <= PRICE_MAX, 0 < size <= SIZE_MAX
                ;
            }
            let notional: i128 = (fill_price as i128) * (size as i128);
            let fee = self.calculate_fee(notional, true);
            Some(Fill { ts_ms, price: fill_price, size, side: PositionSide::Short, fee, slippage: 0 })
        } else {
            None
        }
    }
}

} // verus!
