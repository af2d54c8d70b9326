//! Backtest performance metrics derived from the closed-trade record.
//!
//! Every statistic is an exact integer: sums are exact, ratios are truncated
//! quotients in basis points. The calculator is stateless apart from the
//! initial capital, so the same trade record always yields the same metrics.

use vstd::prelude::*;
use crate::math::div_trunc;
use crate::math::div_trunc_i128;
use crate::position::ClosedTrade;
use crate::position::count_wins;
use crate::position::sum_fees;
use crate::position::sum_pnl;
use crate::types::TimestampMs;
use crate::types::FUNDING_ABS_MAX;
use crate::types::PNL_ABS_MAX;

verus! {

/// Largest admitted initial capital, in price·size units.
pub const CAPITAL_MAX: i128 = 1_000_000_000_000_000_000_000_000_000_000;

/// Backtest performance summary. All monetary fields are in price·size
/// units; ratio fields are truncated quotients in basis points.
pub struct BacktestMetrics {
    /// Number of closed trades.
    pub total_trades: u32,
    /// Trades with strictly positive profit.
    pub winning_trades: u32,
    /// Trades with non-positive profit.
    pub losing_trades: u32,
    /// Winning share of all trades, in basis points.
    pub win_rate: i64,
    /// Profit before fees and funding: the sum of `pnl + fees + funding`.
    pub gross_pnl: i128,
    /// Profit after fees and funding: the sum of `pnl`.
    pub net_pnl: i128,
    /// Total fees attributed.
    pub total_fees: i128,
    /// Total funding attributed.
    pub total_funding: i128,
    /// Mean profit of winning trades, truncated.
    pub avg_win: i128,
    /// Mean profit of losing trades, truncated.
    pub avg_loss: i128,
    /// Gross wins over gross losses in basis points; `None` means infinite
    /// (there are wins but no losses).
    pub profit_factor: Option<i128>,
    /// Deepest peak-to-trough equity decline.
    pub max_drawdown: i128,
    /// That decline as basis points of the peak it fell from.
    pub max_drawdown_bps: i128,
    /// Net profit as basis points of the initial capital.
    pub total_return_bps: i128,
    /// Mean time from entry to exit, in whole minutes.
    pub avg_trade_duration_min: i64,
    /// Largest single-trade profit, at least 0.
    pub largest_win: i128,
    /// Most negative single-trade profit, at most 0.
    pub largest_loss: i128,
    /// Longest run of consecutive winning trades.
    pub max_consecutive_wins: u32,
    /// Longest run of consecutive losing trades.
    pub max_consecutive_losses: u32,
}

impl Default for BacktestMetrics {
    /// The all-zero summary, reported for an empty trade record.
    fn default() -> (r: BacktestMetrics)
        ensures
            r.total_trades == 0 && r.winning_trades == 0 && r.losing_trades == 0,
            r.win_rate == 0,
            r.gross_pnl == 0 && r.net_pnl == 0 && r.total_fees == 0 && r.total_funding == 0,
            r.avg_win == 0 && r.avg_loss == 0,
            r.profit_factor == Some(0i128),
            r.max_drawdown == 0 && r.max_drawdown_bps == 0 && r.total_return_bps == 0,
            r.avg_trade_duration_min == 0,
            r.largest_win == 0 && r.largest_loss == 0,
            r.max_consecutive_wins == 0 && r.max_consecutive_losses == 0,
    {
        BacktestMetrics {
            total_trades: 0,
            winning_trades: 0,
            losing_trades: 0,
            win_rate: 0,
            gross_pnl: 0,
            net_pnl: 0,
            total_fees: 0,
            total_funding: 0,
            avg_win: 0,
            avg_loss: 0,
            profit_factor: Some(0),
            max_drawdown: 0,
            max_drawdown_bps: 0,
            total_return_bps: 0,
            avg_trade_duration_min: 0,
            largest_win: 0,
            largest_loss: 0,
            max_consecutive_wins: 0,
            max_consecutive_losses: 0,
        }
    }
}

/// One point of the equity curve.
#[derive(Clone, Copy, Debug, PartialEq, Eq, Structural)]
pub struct EquityPoint {
    /// Exit timestamp of the trade that produced the point; 0 for the seed.
    pub ts_ms: TimestampMs,
    /// Equity after the trade.
    pub equity: i128,
    /// Decline from the running peak.
    pub drawdown: i128,
    /// That decline in basis points of the running peak.
    pub drawdown_bps: i128,
}

/// The absolute value of an integer.
pub open spec fn abs_int(x: int) -> int {
    if x >= 0 {
        x
    } else {
        -x
    }
}

/// The larger of two integers.
pub open spec fn max_int(a: int, b: int) -> int {
    if a >= b {
        a
    } else {
        b
    }
}

/// Gross profit of one record: realized profit with its fees and funding
/// added back.
pub open spec fn gross_of(t: ClosedTrade) -> int {
    t.pnl + t.fees + t.funding
}

/// Sum of attributed funding over a trade record.
pub open spec fn sum_funding(s: Seq<ClosedTrade>) -> int
    decreases s.len(),
{
    if s.len() == 0 {
        0
    } else {
        sum_funding(s.drop_last()) + s.last().funding
    }
}

/// Sum of gross profit over a trade record.
pub open spec fn sum_gross(s: Seq<ClosedTrade>) -> int
    decreases s.len(),
{
    if s.len() == 0 {
        0
    } else {
        sum_gross(s.drop_last()) + gross_of(s.last())
    }
}

/// Sum of entry-to-exit times over a trade record.
pub open spec fn sum_duration(s: Seq<ClosedTrade>) -> int
    decreases s.len(),
{
    if s.len() == 0 {
        0
    } else {
        sum_duration(s.drop_last()) + (s.last().exit_ts - s.last().entry_ts)
    }
}

/// Sum of profit over the winning records.
pub open spec fn sum_win_pnl(s: Seq<ClosedTrade>) -> int
    decreases s.len(),
{
    if s.len() == 0 {
        0
    } else {
        sum_win_pnl(s.drop_last()) + if s.last().pnl > 0 {
            s.last().pnl as int
        } else {
            0int
        }
    }
}

/// Sum of profit over the losing records.
pub open spec fn sum_loss_pnl(s: Seq<ClosedTrade>) -> int
    decreases s.len(),
{
    if s.len() == 0 {
        0
    } else {
        sum_loss_pnl(s.drop_last()) + if s.last().pnl <= 0 {
            s.last().pnl as int
        } else {
            0int
        }
    }
}

/// Sum of gross profit over the winning records.
pub open spec fn sum_gross_wins(s: Seq<ClosedTrade>) -> int
    decreases s.len(),
{
    if s.len() == 0 {
        0
    } else {
        sum_gross_wins(s.drop_last()) + if s.last().pnl > 0 {
            gross_of(s.last())
        } else {
            0int
        }
    }
}

/// Sum of absolute gross profit over the losing records.
pub open spec fn sum_gross_losses(s: Seq<ClosedTrade>) -> int
    decreases s.len(),
{
    if s.len() == 0 {
        0
    } else {
        sum_gross_losses(s.drop_last()) + if s.last().pnl <= 0 {
            abs_int(gross_of(s.last()))
        } else {
            0int
        }
    }
}

/// Largest winning profit so far, at least 0.
pub open spec fn largest_win_of(s: Seq<ClosedTrade>) -> int
    decreases s.len(),
{
    if s.len() == 0 {
        0
    } else if s.last().pnl > 0 {
        max_int(largest_win_of(s.drop_last()), s.last().pnl as int)
    } else {
        largest_win_of(s.drop_last())
    }
}

/// Most negative losing profit so far, at most 0.
pub open spec fn largest_loss_of(s: Seq<ClosedTrade>) -> int
    decreases s.len(),
{
    if s.len() == 0 {
        0
    } else if s.last().pnl <= 0 {
        -max_int(-largest_loss_of(s.drop_last()), -(s.last().pnl as int))
    } else {
        largest_loss_of(s.drop_last())
    }
}

/// Length of the winning streak at the end of the record.
pub open spec fn end_win_streak(s: Seq<ClosedTrade>) -> int
    decreases s.len(),
{
    if s.len() == 0 {
        0
    } else if s.last().pnl > 0 {
        end_win_streak(s.drop_last()) + 1
    } else {
        0
    }
}

/// Longest winning streak anywhere in the record.
pub open spec fn max_win_streak(s: Seq<ClosedTrade>) -> int
    decreases s.len(),
{
    if s.len() == 0 {
        0
    } else {
        max_int(max_win_streak(s.drop_last()), end_win_streak(s))
    }
}

/// Length of the losing streak at the end of the record.
pub open spec fn end_loss_streak(s: Seq<ClosedTrade>) -> int
    decreases s.len(),
{
    if s.len() == 0 {
        0
    } else if s.last().pnl <= 0 {
        end_loss_streak(s.drop_last()) + 1
    } else {
        0
    }
}

/// Longest losing streak anywhere in the record.
pub open spec fn max_loss_streak(s: Seq<ClosedTrade>) -> int
    decreases s.len(),
{
    if s.len() == 0 {
        0
    } else {
        max_int(max_loss_streak(s.drop_last()), end_loss_streak(s))
    }
}

/// Equity after the whole record, starting from `cap`.
pub open spec fn equity_of(s: Seq<ClosedTrade>, cap: int) -> int {
    cap + sum_pnl(s)
}

/// Running equity peak over the record, starting from `cap`.
pub open spec fn peak_of(s: Seq<ClosedTrade>, cap: int) -> int
    decreases s.len(),
{
    if s.len() == 0 {
        cap
    } else {
        max_int(peak_of(s.drop_last(), cap), equity_of(s, cap))
    }
}

/// Deepest peak-to-trough decline over the record.
pub open spec fn max_dd_of(s: Seq<ClosedTrade>, cap: int) -> int
    decreases s.len(),
{
    if s.len() == 0 {
        0
    } else {
        let d = peak_of(s, cap) - equity_of(s, cap);
        if d > max_dd_of(s.drop_last(), cap) {
            d
        } else {
            max_dd_of(s.drop_last(), cap)
        }
    }
}

/// Basis points of the peak lost at the first point where the deepest
/// decline is reached.
pub open spec fn max_dd_bps_of(s: Seq<ClosedTrade>, cap: int) -> int
    decreases s.len(),
{
    if s.len() == 0 {
        0
    } else {
        let p = peak_of(s, cap);
        let d = p - equity_of(s, cap);
        if d > max_dd_of(s.drop_last(), cap) {
            if p > 0 {
                d * 10000 / p
            } else {
                0
            }
        } else {
            max_dd_bps_of(s.drop_last(), cap)
        }
    }
}

/// The running peak never falls below the capital and never exceeds the
/// capital plus the largest possible run-up.
pub proof fn lemma_peak_bounds(s: Seq<ClosedTrade>, cap: int)
    requires
        forall|i: int| 0 <= i < s.len() ==> #[trigger] s[i].wf(),
    ensures
        cap <= peak_of(s, cap) <= cap + (s.len() as int) * PNL_ABS_MAX,
        cap - (s.len() as int) * PNL_ABS_MAX <= equity_of(s, cap)
            <= cap + (s.len() as int) * PNL_ABS_MAX,
        0 <= max_dd_of(s, cap) <= 2 * (s.len() as int) * PNL_ABS_MAX,
    decreases s.len(),
{
    crate::position::lemma_sums_bounded(s);
    if s.len() > 0 {
        assert forall|i: int| 0 <= i < s.drop_last().len() implies #[trigger] s.drop_last()[i].wf() by {
            assert(s.drop_last()[i] == s[i]);
        }
        lemma_peak_bounds(s.drop_last(), cap);
        let n = s.len() as int;
        assert(sum_pnl(s) == sum_pnl(s.drop_last()) + s.last().pnl);
        assert(s[s.len() - 1].wf());
    }
}

/// Metrics calculator; stateless apart from the initial capital, so equal
/// trade records always produce equal metrics.
pub struct MetricsCalculator {
    initial_capital: i128,
}

impl MetricsCalculator {
    /// The capital the calculator was built with.
    pub closed spec fn capital(self) -> i128 {
        self.initial_capital
    }

    /// Builds a calculator for a positive initial capital.
    pub fn new(initial_capital: i128) -> (r: MetricsCalculator)
        requires
            0 < initial_capital <= CAPITAL_MAX,
        ensures
            r.capital() == initial_capital,
    {
        MetricsCalculator { initial_capital }
    }

    /// Equity curve: a seed point at the initial capital followed by one
    /// point per trade, each carrying the equity after that trade and its
    /// decline from the running peak.
    pub fn build_equity_curve(&self, trades: &Vec<ClosedTrade>) -> (r: Vec<EquityPoint>)
        requires
            0 < self.capital() <= CAPITAL_MAX,
            trades@.len() <= u32::MAX,
            forall|i: int| 0 <= i < trades@.len() ==> #[trigger] trades@[i].wf(),
        ensures
            r@.len() == trades@.len() + 1,
            r@[0] == (EquityPoint {
                ts_ms: 0,
                equity: self.capital(),
                drawdown: 0,
                drawdown_bps: 0,
            }),
            forall|i: int|
                1 <= i < r@.len() ==> #[trigger] r@[i] == (EquityPoint {
                    ts_ms: trades@[i - 1].exit_ts,
                    equity: equity_of(trades@.subrange(0, i), self.capital() as int) as i128,
                    drawdown: (peak_of(trades@.subrange(0, i), self.capital() as int) - equity_of(
                        trades@.subrange(0, i),
                        self.capital() as int,
                    )) as i128,
                    drawdown_bps: ((peak_of(trades@.subrange(0, i), self.capital() as int)
                        - equity_of(trades@.subrange(0, i), self.capital() as int)) * 10000
                        / peak_of(trades@.subrange(0, i), self.capital() as int)) as i128,
                }),
    {
        let cap = self.initial_capital;
        let ghost capint = cap as int;
        let mut curve: Vec<EquityPoint> = Vec::new();
        curve.push(EquityPoint { ts_ms: 0, equity: cap, drawdown: 0, drawdown_bps: 0 });

        let mut equity: i128 = cap;
        let mut peak: i128 = cap;
        let n = trades.len();
        let mut i: usize = 0;
        while i < n
            invariant
                n == trades@.len() <= u32::MAX,
                0 <= i <= n,
                forall|k: int| 0 <= k < trades@.len() ==> #[trigger] trades@[k].wf(),
                0 < cap <= CAPITAL_MAX,
                capint == cap as int,
                equity == equity_of(trades@.subrange(0, i as int), capint),
                peak == peak_of(trades@.subrange(0, i as int), capint),
                curve@.len() == i + 1,
                curve@[0] == (EquityPoint { ts_ms: 0, equity: cap, drawdown: 0, drawdown_bps: 0 }),
                forall|k: int|
                    1 <= k <= i ==> #[trigger] curve@[k] == (EquityPoint {
                        ts_ms: trades@[k - 1].exit_ts,
                        equity: equity_of(trades@.subrange(0, k), capint) as i128,
                        drawdown: (peak_of(trades@.subrange(0, k), capint) - equity_of(
                            trades@.subrange(0, k),
                            capint,
                        )) as i128,
                        drawdown_bps: ((peak_of(trades@.subrange(0, k), capint) - equity_of(
                            trades@.subrange(0, k),
                            capint,
                        )) * 10000 / peak_of(trades@.subrange(0, k), capint)) as i128,
                    }),
            decreases n - i,
        {
            proof {
                lemma_peak_bounds(trades@.subrange(0, i as int), capint);
                crate::position::lemma_sums_bounded(trades@.subrange(0, i as int));
                let pre1 = trades@.subrange(0, i + 1);
                assert(pre1.drop_last() =~= trades@.subrange(0, i as int));
                assert(pre1.last() == trades@[i as int]);
                assert(trades@[i as int].wf());
                lemma_peak_bounds(pre1, capint);
            }
            let t_pnl = trades[i].pnl;
            let t_ts = trades[i].exit_ts;
            equity = equity + t_pnl;
            if equity > peak {
                peak = equity;
            }
            let dd: i128 = peak - equity;
            let dd_bps: i128 = div_trunc_i128(dd * 10000, peak);
            curve.push(EquityPoint { ts_ms: t_ts, equity, drawdown: dd, drawdown_bps: dd_bps });
            i = i + 1;
        }
        curve
    }

    /// Summary statistics of a trade record, in one pass.
    ///
    /// The counts partition the record into winners (`pnl > 0`) and losers;
    /// `net_pnl` is the exact sum of realized profit; `gross_pnl` adds fees
    /// and funding back. The result is a function of the record and the
    /// capital alone.
    pub fn calculate(&self, trades: &Vec<ClosedTrade>) -> (r: BacktestMetrics)
        requires
            0 < self.capital() <= CAPITAL_MAX,
            trades@.len() <= u32::MAX,
            forall|i: int| 0 <= i < trades@.len() ==> #[trigger] trades@[i].wf(),
        ensures
            r.total_trades == trades@.len(),
            r.winning_trades == count_wins(trades@),
            r.losing_trades == trades@.len() - count_wins(trades@),
            r.total_trades == r.winning_trades + r.losing_trades,
            trades@.len() > 0 ==> r.win_rate == count_wins(trades@) * 10000 / (trades@.len() as int),
            trades@.len() == 0 ==> r.win_rate == 0,
            r.net_pnl == sum_pnl(trades@),
            r.gross_pnl == sum_gross(trades@),
            r.total_fees == sum_fees(trades@),
            r.total_funding == sum_funding(trades@),
            r.avg_win == if count_wins(trades@) > 0 {
                div_trunc(sum_win_pnl(trades@), count_wins(trades@))
            } else {
                0int
            },
            r.avg_loss == if trades@.len() - count_wins(trades@) > 0 {
                div_trunc(sum_loss_pnl(trades@), trades@.len() - count_wins(trades@))
            } else {
                0int
            },
            r.profit_factor == if sum_gross_losses(trades@) > 0 {
                Some(div_trunc(sum_gross_wins(trades@) * 10000, sum_gross_losses(trades@)) as i128)
            } else if sum_gross_wins(trades@) > 0 {
                None::<i128>
            } else {
                Some(0i128)
            },
            r.max_drawdown == max_dd_of(trades@, self.capital() as int),
            r.max_drawdown_bps == max_dd_bps_of(trades@, self.capital() as int),
            r.total_return_bps == div_trunc(sum_pnl(trades@) * 10000, self.capital() as int),
            r.avg_trade_duration_min == if trades@.len() > 0 {
                div_trunc(div_trunc(sum_duration(trades@), trades@.len() as int), 60000)
            } else {
                0int
            },
            r.largest_win == largest_win_of(trades@),
            r.largest_loss == largest_loss_of(trades@),
            r.max_consecutive_wins == max_win_streak(trades@),
            r.max_consecutive_losses == max_loss_streak(trades@),
    {
        let ghost capint = self.initial_capital as int;
        let n = trades.len();
        if n == 0 {
            return BacktestMetrics::default();
        }

        let mut net: i128 = 0;
        let mut gross: i128 = 0;
        let mut fees: i128 = 0;
        let mut funding: i128 = 0;
        let mut wins: u32 = 0;
        let mut twin: i128 = 0;
        let mut tloss: i128 = 0;
        let mut gwins: i128 = 0;
        let mut glosses: i128 = 0;
        let mut lwin: i128 = 0;
        let mut lloss: i128 = 0;
        let mut cur_w: u32 = 0;
        let mut max_w: u32 = 0;
        let mut cur_l: u32 = 0;
        let mut max_l: u32 = 0;
        let mut dur: i128 = 0;
        let mut equity: i128 = self.initial_capital;
        let mut peak: i128 = self.initial_capital;
        let mut maxdd: i128 = 0;
        let mut maxddbps: i128 = 0;

        let mut i: usize = 0;
        while i < n
            invariant
                n == trades@.len() <= u32::MAX,
                0 <= i <= n,
                forall|k: int| 0 <= k < trades@.len() ==> #[trigger] trades@[k].wf(),
                0 < self.initial_capital <= CAPITAL_MAX,
                capint == self.initial_capital as int,
                net == sum_pnl(trades@.subrange(0, i as int)),
                gross == sum_gross(trades@.subrange(0, i as int)),
                fees == sum_fees(trades@.subrange(0, i as int)),
                funding == sum_funding(trades@.subrange(0, i as int)),
                wins == count_wins(trades@.subrange(0, i as int)),
                wins <= i,
                twin == sum_win_pnl(trades@.subrange(0, i as int)),
                tloss == sum_loss_pnl(trades@.subrange(0, i as int)),
                gwins == sum_gross_wins(trades@.subrange(0, i as int)),
                glosses == sum_gross_losses(trades@.subrange(0, i as int)),
                lwin == largest_win_of(trades@.subrange(0, i as int)),
                lloss == largest_loss_of(trades@.subrange(0, i as int)),
                cur_w == end_win_streak(trades@.subrange(0, i as int)),
                max_w == max_win_streak(trades@.subrange(0, i as int)),
                cur_l == end_loss_streak(trades@.subrange(0, i as int)),
                max_l == max_loss_streak(trades@.subrange(0, i as int)),
                dur == sum_duration(trades@.subrange(0, i as int)),
                equity == equity_of(trades@.subrange(0, i as int), capint),
                peak == peak_of(trades@.subrange(0, i as int), capint),
                maxdd == max_dd_of(trades@.subrange(0, i as int), capint),
                maxddbps == max_dd_bps_of(trades@.subrange(0, i as int), capint),
            decreases n - i,
        {
            proof {
                lemma_metric_sums_bounded(trades@.subrange(0, i as int));
                crate::position::lemma_sums_bounded(trades@.subrange(0, i as int));
                lemma_peak_bounds(trades@.subrange(0, i as int), capint);
                let pre1 = trades@.subrange(0, i + 1);
                assert(pre1.drop_last() =~= trades@.subrange(0, i as int));
                assert(pre1.last() == trades@[i as int]);
                assert(trades@[i as int].wf());
                lemma_peak_bounds(pre1, capint);
                lemma_streaks_bounded(trades@.subrange(0, i as int));
                lemma_streaks_bounded(pre1);
            }
            let t = &trades[i];
            let t_gross: i128 = t.pnl + t.fees + t.funding;
            net = net + t.pnl;
            gross = gross + t_gross;
            fees = fees + t.fees;
            funding = funding + t.funding;
            dur = dur + (t.exit_ts as i128 - t.entry_ts as i128);

            if t.pnl > 0 {
                wins = wins + 1;
                twin = twin + t.pnl;
                gwins = gwins + t_gross;
                if t.pnl > lwin {
                    lwin = t.pnl;
                }
                cur_w = cur_w + 1;
                cur_l = 0;
                if cur_w > max_w {
                    max_w = cur_w;
                }
            } else {
                tloss = tloss + t.pnl;
                glosses = glosses + if t_gross >= 0 {
                    t_gross
                } else {
                    -t_gross
                };
                if t.pnl < lloss {
                    lloss = t.pnl;
                }
                cur_l = cur_l + 1;
                cur_w = 0;
                if cur_l > max_l {
                    max_l = cur_l;
                }
            }

            equity = equity + t.pnl;
            if equity > peak {
                peak = equity;
            }
            let dd: i128 = peak - equity;
            if dd > maxdd {
                maxdd = dd;
                maxddbps = div_trunc_i128(dd * 10000, peak);
            }
            i = i + 1;
        }

        proof {
            assert(trades@.subrange(0, n as int) =~= trades@);
            lemma_metric_sums_bounded(trades@);
            crate::position::lemma_sums_bounded(trades@);
            lemma_streaks_bounded(trades@);
            crate::math::lemma_div_trunc_bounded(
                sum_duration(trades@),
                n as int,
                DURATION_ABS_MAX as int,
            );
            crate::math::lemma_div_trunc_bounded(
                div_trunc(sum_duration(trades@), n as int),
                60000,
                153_722_867_280_913,
            );
        }

        let losses: u32 = (n as u32) - wins;
        let win_rate: i64 = ((wins as u64) * 10000 / (n as u64)) as i64;
        let avg_win: i128 = if wins > 0 {
            div_trunc_i128(twin, wins as i128)
        } else {
            0
        };
        let avg_loss: i128 = if losses > 0 {
            div_trunc_i128(tloss, losses as i128)
        } else {
            0
        };
        let profit_factor: Option<i128> = if glosses > 0 {
            Some(div_trunc_i128(gwins * 10000, glosses))
        } else if gwins > 0 {
            None
        } else {
            Some(0)
        };
        let total_return_bps: i128 = div_trunc_i128(net * 10000, self.initial_capital);
        let avg_dur_min: i64 = div_trunc_i128(div_trunc_i128(dur, n as i128), 60000) as i64;

        BacktestMetrics {
            total_trades: n as u32,
            winning_trades: wins,
            losing_trades: losses,
            win_rate,
            gross_pnl: gross,
            net_pnl: net,
            total_fees: fees,
            total_funding: funding,
            avg_win,
            avg_loss,
            profit_factor,
            max_drawdown: maxdd,
            max_drawdown_bps: maxddbps,
            total_return_bps,
            avg_trade_duration_min: avg_dur_min,
            largest_win: lwin,
            largest_loss: lloss,
            max_consecutive_wins: max_w,
            max_consecutive_losses: max_l,
        }
    }
}

/// The per-category sums of well-formed records are bounded by the record
/// count.
pub proof fn lemma_metric_sums_bounded(s: Seq<ClosedTrade>)
    requires
        forall|i: int| 0 <= i < s.len() ==> #[trigger] s[i].wf(),
    ensures
        -(s.len() as int) * PNL_ABS_MAX <= sum_win_pnl(s) <= (s.len() as int) * PNL_ABS_MAX,
        -(s.len() as int) * PNL_ABS_MAX <= sum_loss_pnl(s) <= (s.len() as int) * PNL_ABS_MAX,
        -(s.len() as int) * GROSS_ABS_MAX <= sum_gross(s) <= (s.len() as int) * GROSS_ABS_MAX,
        -(s.len() as int) * GROSS_ABS_MAX <= sum_gross_wins(s) <= (s.len() as int) * GROSS_ABS_MAX,
        0 <= sum_gross_losses(s) <= (s.len() as int) * GROSS_ABS_MAX,
        -(s.len() as int) * FUNDING_ABS_MAX <= sum_funding(s) <= (s.len() as int)
            * FUNDING_ABS_MAX,
        -(s.len() as int) * DURATION_ABS_MAX <= sum_duration(s) <= (s.len() as int)
            * DURATION_ABS_MAX,
        0 <= largest_win_of(s) <= PNL_ABS_MAX,
        -PNL_ABS_MAX <= largest_loss_of(s) <= 0,
    decreases s.len(),
{
    if s.len() > 0 {
        assert forall|i: int| 0 <= i < s.drop_last().len() implies #[trigger] s.drop_last()[i].wf() by {
            assert(s.drop_last()[i] == s[i]);
        }
        lemma_metric_sums_bounded(s.drop_last());
        assert(s[s.len() - 1].wf());
    }
}

/// The number of winning records never exceeds the record count.
pub proof fn lemma_count_wins_within_len(s: Seq<ClosedTrade>)
    ensures
        0 <= count_wins(s) <= s.len(),
    decreases s.len(),
{
    if s.len() > 0 {
        lemma_count_wins_within_len(s.drop_last());
    }
}

/// Streak lengths never exceed the record length.
pub proof fn lemma_streaks_bounded(s: Seq<ClosedTrade>)
    ensures
        0 <= end_win_streak(s) <= s.len(),
        0 <= max_win_streak(s) <= s.len(),
        0 <= end_loss_streak(s) <= s.len(),
        0 <= max_loss_streak(s) <= s.len(),
    decreases s.len(),
{
    if s.len() > 0 {
        lemma_streaks_bounded(s.drop_last());
    }
}

/// Bound on the gross profit of one well-formed record.
pub const GROSS_ABS_MAX: i128 = 700_000_000_000_000_000_000_000;

/// Bound on the entry-to-exit time of one record, in milliseconds.
pub const DURATION_ABS_MAX: i128 = 9_223_372_036_854_775_807;

/// Two metric computations from equal inputs give equal results: the
/// calculator is idempotent because every field of the summary is pinned to a
/// function of the trade record and the capital.
pub proof fn lemma_metrics_deterministic(
    r1: BacktestMetrics,
    r2: BacktestMetrics,
    trades: Seq<ClosedTrade>,
    cap: int,
)
    requires
        r1.net_pnl == sum_pnl(trades) && r2.net_pnl == sum_pnl(trades),
        r1.total_trades == trades.len() && r2.total_trades == trades.len(),
        r1.winning_trades == count_wins(trades) && r2.winning_trades == count_wins(trades),
        r1.losing_trades == trades.len() - count_wins(trades) && r2.losing_trades == trades.len()
            - count_wins(trades),
    ensures
        r1.net_pnl == r2.net_pnl,
        r1.total_trades == r2.total_trades,
        r1.winning_trades == r2.winning_trades,
        r1.losing_trades == r2.losing_trades,
        r1.total_trades == r1.winning_trades + r1.losing_trades,
{
    lemma_count_wins_within_len(trades);
}

} // verus!
