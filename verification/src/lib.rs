//! Market-microstructure feature pipeline and event-driven backtester.
//!
//! All quantities are fixed-point integers: prices and sizes are counts of
//! caller-chosen units, timestamps are milliseconds since the Unix epoch, and
//! dimensionless fractions (fees, value-area coverage, normalized order flow)
//! are expressed in basis points (1/10000).

use vstd::prelude::*;

pub mod bar_builder;
pub mod classifier;
pub mod config;
pub mod engine;
pub mod fill_model;
pub mod histogram;
pub mod math;
pub mod metrics;
pub mod order_flow;
pub mod position;
pub mod simulator;
pub mod types;
pub mod value_area;
pub mod volatility;

verus! {

/// Minute boundary containing a timestamp: the timestamp floor-divided by
/// 60 000 ms and multiplied back.
pub fn ts_to_minute(ts_ms: i64) -> (r: i64)
    requires
        ts_ms >= 0,
    ensures
        r == 60000 * ((ts_ms as int) / 60000),
        0 <= r <= ts_ms,
        ts_ms - r < 60000,
{
    let q = ts_ms / 60000;
    q * 60000
}

} // verus!
