//! Order-flow aggregation: per-minute buy, sell and ambiguous volume, and a
//! quote-imbalance tracker with a per-minute average and exponential moving
//! average.

use vstd::prelude::*;
use crate::math::div_trunc;
use crate::math::div_trunc_i128;
use crate::types::ClassifiedTrade;
use crate::types::OrderFlowMetrics;
use crate::types::TimestampMs;
use crate::types::TradeSide;
use crate::ts_to_minute;

verus! {

/// Largest admitted total volume across all retained minutes, in size units.
pub const OF_VOL_MAX: i128 = 1_000_000_000_000_000_000_000_000_000_000_000;

/// Per-minute order-flow accumulator.
#[derive(Clone, Copy, Debug, PartialEq, Eq, Structural)]
pub struct MinuteFlow {
    /// Minute boundary timestamp.
    pub ts_min: TimestampMs,
    /// Buyer-initiated volume.
    pub buy_volume: i128,
    /// Seller-initiated volume.
    pub sell_volume: i128,
    /// Volume of ambiguous trades.
    pub ambiguous_volume: i128,
}

impl MinuteFlow {
    /// Total volume of the minute.
    pub open spec fn total(self) -> int {
        self.buy_volume + self.sell_volume + self.ambiguous_volume
    }

    /// Non-negative volumes.
    pub open spec fn wf(self) -> bool {
        self.ts_min >= 0 && self.buy_volume >= 0 && self.sell_volume >= 0
            && self.ambiguous_volume >= 0
    }
}

/// The metrics a flow accumulator yields: net flow is buys less sells, and
/// the normalized fields are truncated basis-point ratios of total volume,
/// 0 without volume.
pub open spec fn metrics_of(f: MinuteFlow) -> OrderFlowMetrics {
    let total = f.total();
    OrderFlowMetrics {
        of_1m: (f.buy_volume - f.sell_volume) as i128,
        of_norm_1m: (if total > 0 {
            div_trunc((f.buy_volume - f.sell_volume) * 10000, total)
        } else {
            0int
        }) as i64,
        total_volume: total as i128,
        buy_volume: f.buy_volume,
        sell_volume: f.sell_volume,
        ambiguous_volume: f.ambiguous_volume,
        ambiguous_frac: (if total > 0 {
            div_trunc(f.ambiguous_volume * 10000, total)
        } else {
            0int
        }) as i64,
    }
}

/// Sum of minute totals.
pub open spec fn sum_flow(ms: Seq<MinuteFlow>) -> int
    decreases ms.len(),
{
    if ms.len() == 0 {
        0
    } else {
        sum_flow(ms.drop_last()) + ms.last().total()
    }
}

/// Minutes in strictly increasing key order, all well formed.
pub open spec fn flows_wf(ms: Seq<MinuteFlow>) -> bool {
    &&& forall|i: int| 0 <= i < ms.len() ==> #[trigger] ms[i].wf()
    &&& forall|i: int, j: int| 0 <= i < j < ms.len() ==> ms[i].ts_min < ms[j].ts_min
}

/// Sums of well-formed minutes are non-negative and bound each minute.
proof fn lemma_flow_sums(ms: Seq<MinuteFlow>)
    requires
        flows_wf(ms),
    ensures
        sum_flow(ms) >= 0,
        forall|i: int| 0 <= i < ms.len() ==> #[trigger] ms[i].total() <= sum_flow(ms),
    decreases ms.len(),
{
    if ms.len() > 0 {
        assert forall|i: int| 0 <= i < ms.drop_last().len() implies #[trigger] ms.drop_last()[i].wf()
        by {
            assert(ms.drop_last()[i] == ms[i]);
        }
        assert forall|i: int, j: int|
            0 <= i < j < ms.drop_last().len() implies ms.drop_last()[i].ts_min
            < ms.drop_last()[j].ts_min by {
            assert(ms.drop_last()[i] == ms[i] && ms.drop_last()[j] == ms[j]);
        }
        lemma_flow_sums(ms.drop_last());
        assert(ms.last().wf());
        assert forall|i: int| 0 <= i < ms.len() implies #[trigger] ms[i].total() <= sum_flow(ms)
        by {
            if i < ms.len() - 1 {
                assert(ms.drop_last()[i] == ms[i]);
            }
        }
    }
}

/// Dropping the oldest minute removes exactly its total.
proof fn lemma_flow_remove_first(ms: Seq<MinuteFlow>)
    requires
        ms.len() > 0,
        flows_wf(ms),
    ensures
        sum_flow(ms.remove(0)) == sum_flow(ms) - ms[0].total(),
        flows_wf(ms.remove(0)),
    decreases ms.len(),
{
    if ms.len() == 1 {
        assert(ms.remove(0) =~= Seq::<MinuteFlow>::empty());
        assert(ms.drop_last() =~= Seq::<MinuteFlow>::empty());
        assert(sum_flow(Seq::<MinuteFlow>::empty()) == 0);
    } else {
        assert(ms.remove(0).drop_last() =~= ms.drop_last().remove(0));
        assert(ms.remove(0).last() == ms.last());
        assert forall|i: int| 0 <= i < ms.drop_last().len() implies #[trigger] ms.drop_last()[i].wf()
        by {
            assert(ms.drop_last()[i] == ms[i]);
        }
        assert forall|i: int, j: int|
            0 <= i < j < ms.drop_last().len() implies ms.drop_last()[i].ts_min
            < ms.drop_last()[j].ts_min by {
            assert(ms.drop_last()[i] == ms[i] && ms.drop_last()[j] == ms[j]);
        }
        lemma_flow_remove_first(ms.drop_last());
        assert(ms.drop_last()[0] == ms[0]);
    }
    assert forall|i: int| 0 <= i < ms.remove(0).len() implies #[trigger] ms.remove(0)[i].wf() by {
        assert(ms.remove(0)[i] == ms[i + 1]);
    }
    assert forall|i: int, j: int|
        0 <= i < j < ms.remove(0).len() implies ms.remove(0)[i].ts_min < ms.remove(0)[j].ts_min by {
        assert(ms.remove(0)[i] == ms[i + 1] && ms.remove(0)[j] == ms[j + 1]);
    }
}


/// The accumulator after one more trade of `size` on `side`.
pub open spec fn flow_with_trade(f: MinuteFlow, side: TradeSide, size: int) -> MinuteFlow {
    match side {
        TradeSide::Buy => MinuteFlow { buy_volume: (f.buy_volume + size) as i128, ..f },
        TradeSide::Sell => MinuteFlow { sell_volume: (f.sell_volume + size) as i128, ..f },
        TradeSide::Ambiguous => MinuteFlow {
            ambiguous_volume: (f.ambiguous_volume + size) as i128,
            ..f
        },
    }
}

/// A fresh accumulator holding one trade of `size` on `side`.
pub open spec fn fresh_flow(ts_min: int, side: TradeSide, size: int) -> MinuteFlow {
    flow_with_trade(
        MinuteFlow { ts_min: ts_min as i64, buy_volume: 0, sell_volume: 0, ambiguous_volume: 0 },
        side,
        size,
    )
}

/// The minutes left after evicting the oldest beyond the retention limit.
pub open spec fn evicted(ms: Seq<MinuteFlow>, cap: int) -> Seq<MinuteFlow> {
    if ms.len() > cap {
        ms.skip(ms.len() - cap)
    } else {
        ms
    }
}

/// Per-minute order-flow totals over a bounded number of minutes, oldest
/// evicted first.
pub struct OrderFlowAggregator {
    /// Retained minutes, in increasing key order.
    minutes: Vec<MinuteFlow>,
    /// Most minutes retained.
    max_minutes: usize,
}

impl OrderFlowAggregator {
    /// The retained minutes.
    pub closed spec fn mins(self) -> Seq<MinuteFlow> {
        self.minutes@
    }

    /// The retention limit.
    pub closed spec fn cap(self) -> int {
        self.max_minutes as int
    }

    /// The invariant: minutes sorted by key, volumes non-negative, within
    /// the retention limit, and bounded total volume.
    pub open spec fn inv(self) -> bool {
        &&& 1 <= self.cap()
        &&& flows_wf(self.mins())
        &&& self.mins().len() <= self.cap()
        &&& 0 <= sum_flow(self.mins()) <= OF_VOL_MAX
    }

    /// An empty aggregator retaining at most `max_minutes` minutes.
    pub fn new(max_minutes: usize) -> (r: OrderFlowAggregator)
        requires
            max_minutes >= 1,
        ensures
            r.inv(),
            r.cap() == max_minutes,
            r.mins().len() == 0,
    {
        proof {
            assert(sum_flow(Seq::<MinuteFlow>::empty()) == 0);
        }
        OrderFlowAggregator { minutes: Vec::new(), max_minutes }
    }

    /// Accumulates a classified trade into its minute, creating the minute
    /// in key order if absent and evicting the oldest minutes beyond the
    /// retention limit.
    pub fn add_trade(&mut self, trade: &ClassifiedTrade)
        requires
            old(self).inv(),
            trade.wf(),
            sum_flow(old(self).mins()) + trade.trade.size <= OF_VOL_MAX,
        ensures
            final(self).inv(),
            final(self).cap() == old(self).cap(),
            sum_flow(final(self).mins()) <= sum_flow(old(self).mins()) + trade.trade.size,
            final(self).mins().len() >= 1,
            ({
                let m = 60000 * ((trade.trade.ts_ms as int) / 60000);
                let size = trade.trade.size as int;
                if exists|i: int|
                    0 <= i < old(self).mins().len() && (#[trigger] old(self).mins()[i]).ts_min
                        == m {
                    exists|i: int|
                        0 <= i < old(self).mins().len() && (#[trigger] old(self).mins()[i]).ts_min
                            == m && final(self).mins() == evicted(
                            old(self).mins().update(
                                i,
                                flow_with_trade(old(self).mins()[i], trade.side, size),
                            ),
                            old(self).cap(),
                        )
                } else {
                    exists|i: int|
                        0 <= i <= old(self).mins().len() && final(self).mins() == evicted(
                            #[trigger] old(self).mins().insert(i, fresh_flow(m, trade.side, size)),
                            old(self).cap(),
                        )
                }
            }),
    {
        let ts_min = ts_to_minute(trade.trade.ts_ms);
        let size = trade.trade.size as i128;

        // Find the minute, scanning from the newest.
        let ghost ms0 = self.minutes@;
        let n = self.minutes.len();
        let mut idx: usize = 0;
        while idx < n && self.minutes[idx].ts_min < ts_min
            invariant
                n == self.minutes@.len(),
                self.minutes@ == ms0,
                0 <= idx <= n,
                forall|j: int| 0 <= j < idx ==> #[trigger] ms0[j].ts_min < ts_min,
                flows_wf(ms0),
            decreases n - idx,
        {
            idx = idx + 1;
        }

        if idx < n && self.minutes[idx].ts_min == ts_min {
            let m = self.minutes[idx];
            proof {
                lemma_flow_sums(ms0);
                assert(ms0[idx as int].total() <= sum_flow(ms0));
                assert(ms0[idx as int].wf());
            }
            let updated = match trade.side {
                TradeSide::Buy => MinuteFlow { buy_volume: m.buy_volume + size, ..m },
                TradeSide::Sell => MinuteFlow { sell_volume: m.sell_volume + size, ..m },
                TradeSide::Ambiguous => MinuteFlow { ambiguous_volume: m.ambiguous_volume + size, ..m },
            };
            proof {
                lemma_flow_update_one(ms0, idx as int, updated, size as int);
                assert(ms0.remove(idx as int).insert(idx as int, updated) =~= ms0.update(
                    idx as int,
                    updated,
                ));
                let t = ms0.update(idx as int, updated);
                assert forall|i: int, j: int| 0 <= i < j < t.len() implies t[i].ts_min
                    < t[j].ts_min by {
                    assert(ms0[i].ts_min < ms0[j].ts_min);
                }
                assert forall|i: int| 0 <= i < t.len() implies #[trigger] t[i].wf() by {
                    if i != idx {
                        assert(t[i] == ms0[i]);
                    }
                }
            }
            let _ = self.minutes.remove(idx);
            self.minutes.insert(idx, updated);
            proof {
                assert(self.minutes@ =~= ms0.update(idx as int, updated));
                assert(updated == flow_with_trade(ms0[idx as int], trade.side, size as int));
                lemma_flow_sums(self.minutes@);
            }
        } else {
            let fresh = match trade.side {
                TradeSide::Buy => MinuteFlow {
                    ts_min,
                    buy_volume: size,
                    sell_volume: 0,
                    ambiguous_volume: 0,
                },
                TradeSide::Sell => MinuteFlow {
                    ts_min,
                    buy_volume: 0,
                    sell_volume: size,
                    ambiguous_volume: 0,
                },
                TradeSide::Ambiguous => MinuteFlow {
                    ts_min,
                    buy_volume: 0,
                    sell_volume: 0,
                    ambiguous_volume: size,
                },
            };
            proof {
                lemma_flow_total_insert(ms0, idx as int, fresh);
                let t = ms0.insert(idx as int, fresh);
                assert forall|i: int, j: int| 0 <= i < j < t.len() implies t[i].ts_min
                    < t[j].ts_min by {
                    if i < idx && j == idx {
                        assert(t[i] == ms0[i]);
                    } else if i == idx && j > idx {
                        assert(t[j] == ms0[j - 1]);
                        if idx < ms0.len() {
                            assert(ms0[idx as int].ts_min != ts_min);
                            assert(ms0[idx as int].ts_min >= ts_min);
                        }
                    } else if i < idx && j > idx {
                        assert(t[i] == ms0[i] && t[j] == ms0[j - 1]);
                    } else if i > idx && j > idx {
                        assert(t[i] == ms0[i - 1] && t[j] == ms0[j - 1]);
                    } else {
                        assert(t[i] == ms0[i] && t[j] == ms0[j]);
                    }
                }
                assert forall|i: int| 0 <= i < t.len() implies #[trigger] t[i].wf() by {
                    if i < idx {
                        assert(t[i] == ms0[i]);
                    } else if i > idx {
                        assert(t[i] == ms0[i - 1]);
                    }
                }
            }
            self.minutes.insert(idx, fresh);
            proof {
                assert forall|i: int| 0 <= i < ms0.len() implies (#[trigger] ms0[i]).ts_min
                    != ts_min by {
                    if i < idx {
                        assert(ms0[i].ts_min < ts_min);
                    }
                }
                assert(fresh == fresh_flow(ts_min as int, trade.side, size as int));
                lemma_flow_sums(self.minutes@);
            }
        }

        // Evict the oldest minutes beyond the limit.
        let ghost pre = self.minutes@;
        proof {
            assert(pre.skip(0) =~= pre);
        }
        while self.minutes.len() > self.max_minutes
            invariant
                flows_wf(self.minutes@),
                0 <= sum_flow(self.minutes@) <= OF_VOL_MAX,
                sum_flow(self.minutes@) <= sum_flow(ms0) + trade.trade.size,
                self.max_minutes == old(self).max_minutes,
                1 <= self.max_minutes,
                self.minutes@.len() >= 1,
                self.minutes@.len() <= pre.len(),
                self.minutes@ == pre.skip(pre.len() - self.minutes@.len()),
                self.minutes@.len() >= self.max_minutes || self.minutes@ == pre,
            decreases self.minutes@.len(),
        {
            proof {
                assert(self.minutes@[0].wf());
                lemma_flow_remove_first(self.minutes@);
                lemma_flow_sums(self.minutes@);
                lemma_flow_sums(self.minutes@.remove(0));
                let k = pre.len() - self.minutes@.len();
                assert(pre.skip(k).remove(0) =~= pre.skip(k + 1));
            }
            let _ = self.minutes.remove(0);
        }
        proof {
            if pre.len() > self.max_minutes as int {
                assert(self.minutes@.len() == self.max_minutes);
            } else {
                assert(self.minutes@ =~= pre);
            }
        }
    }

    /// The metrics of one minute, or nothing when it holds no trades.
    pub fn get_minute(&self, ts_min: TimestampMs) -> (r: Option<OrderFlowMetrics>)
        requires
            self.inv(),
        ensures
            match r {
                Some(m) => exists|i: int|
                    0 <= i < self.mins().len() && (#[trigger] self.mins()[i]).ts_min == ts_min
                        && m == metrics_of(self.mins()[i]),
                None => forall|i: int|
                    0 <= i < self.mins().len() ==> (#[trigger] self.mins()[i]).ts_min != ts_min,
            },
    {
        let n = self.minutes.len();
        let mut idx: usize = 0;
        while idx < n && self.minutes[idx].ts_min != ts_min
            invariant
                self.inv(),
                n == self.mins().len(),
                0 <= idx <= n,
                forall|j: int| 0 <= j < idx ==> (#[trigger] self.mins()[j]).ts_min != ts_min,
            decreases n - idx,
        {
            idx = idx + 1;
        }
        if idx < n {
            Some(self.to_metrics(idx))
        } else {
            None
        }
    }

    /// The newest minute's key and metrics, or nothing when empty.
    pub fn get_latest(&self) -> (r: Option<(TimestampMs, OrderFlowMetrics)>)
        requires
            self.inv(),
        ensures
            match r {
                Some(p) => self.mins().len() > 0 && p.0 == self.mins().last().ts_min && p.1
                    == metrics_of(self.mins().last()),
                None => self.mins().len() == 0,
            },
    {
        let n = self.minutes.len();
        if n == 0 {
            return None;
        }
        let m = self.minutes[n - 1];
        Some((m.ts_min, self.to_metrics(n - 1)))
    }

    /// Metrics summed over the newest `minutes` retained minutes.
    pub fn get_rolling(&self, minutes: usize) -> (r: OrderFlowMetrics)
        requires
            self.inv(),
        ensures
            ({
                let k = if minutes <= self.mins().len() {
                    minutes as int
                } else {
                    self.mins().len() as int
                };
                let tail = self.mins().skip(self.mins().len() - k);
                r == metrics_of(
                    MinuteFlow {
                        ts_min: 0,
                        buy_volume: sum_buy(tail) as i128,
                        sell_volume: sum_sell(tail) as i128,
                        ambiguous_volume: sum_amb(tail) as i128,
                    },
                )
            }),
    {
        let n = self.minutes.len();
        let k: usize = if minutes <= n {
            minutes
        } else {
            n
        };
        let start = n - k;
        let ghost tail = self.mins().skip(start as int);
        let mut buy: i128 = 0;
        let mut sell: i128 = 0;
        let mut amb: i128 = 0;
        let mut i: usize = start;
        proof {
            lemma_flow_sums(self.mins());
            lemma_tail_sums(self.mins(), start as int);
            assert(tail.take(0) =~= Seq::<MinuteFlow>::empty());
            assert(sum_buy(Seq::<MinuteFlow>::empty()) == 0);
            assert(sum_sell(Seq::<MinuteFlow>::empty()) == 0);
            assert(sum_amb(Seq::<MinuteFlow>::empty()) == 0);
        }
        while i < n
            invariant
                self.inv(),
                n == self.mins().len(),
                0 <= start <= i <= n,
                tail == self.mins().skip(start as int),
                buy == sum_buy(tail.take(i - start)),
                sell == sum_sell(tail.take(i - start)),
                amb == sum_amb(tail.take(i - start)),
                0 <= buy && 0 <= sell && 0 <= amb,
                buy + sell + amb <= sum_flow(self.mins()),
            decreases n - i,
        {
            proof {
                let pre1 = tail.take(i + 1 - start);
                assert(pre1.drop_last() =~= tail.take(i - start));
                assert(pre1.last() == self.mins()[i as int]);
                lemma_flow_sums(self.mins());
                lemma_partial_flow_bound(self.mins(), start as int, i + 1);
            }
            let m = self.minutes[i];
            buy = buy + m.buy_volume;
            sell = sell + m.sell_volume;
            amb = amb + m.ambiguous_volume;
            i = i + 1;
        }
        proof {
            assert(tail.take(n - start) =~= tail);
        }
        let total: i128 = buy + sell + amb;
        let of: i128 = buy - sell;
        let (of_norm, amb_frac): (i64, i64) = if total > 0 {
            proof {
                crate::types::lemma_ratio_bps_bounded(of as int, total as int);
                crate::math::lemma_div_trunc_bounded(amb * 10000, total as int, 10000);
            }
            (
                div_trunc_i128(of * 10000, total) as i64,
                div_trunc_i128(amb * 10000, total) as i64,
            )
        } else {
            (0, 0)
        };
        OrderFlowMetrics {
            of_1m: of,
            of_norm_1m: of_norm,
            total_volume: total,
            buy_volume: buy,
            sell_volume: sell,
            ambiguous_volume: amb,
            ambiguous_frac: amb_frac,
        }
    }

    /// Number of retained minutes.
    pub fn minute_count(&self) -> (r: usize)
        ensures
            r == self.mins().len(),
    {
        self.minutes.len()
    }

    /// Drops all minutes.
    pub fn clear(&mut self)
        requires
            old(self).inv(),
        ensures
            final(self).inv(),
            final(self).cap() == old(self).cap(),
            final(self).mins().len() == 0,
    {
        self.minutes.clear();
        proof {
            assert(sum_flow(Seq::<MinuteFlow>::empty()) == 0);
        }
    }

    /// The metrics of the minute at `idx`.
    fn to_metrics(&self, idx: usize) -> (r: OrderFlowMetrics)
        requires
            self.inv(),
            idx < self.mins().len(),
        ensures
            r == metrics_of(self.mins()[idx as int]),
    {
        let m = self.minutes[idx];
        proof {
            lemma_flow_sums(self.mins());
            assert(self.mins()[idx as int].total() <= sum_flow(self.mins()));
            assert(self.mins()[idx as int].wf());
        }
        let total: i128 = m.buy_volume + m.sell_volume + m.ambiguous_volume;
        let of: i128 = m.buy_volume - m.sell_volume;
        let (of_norm, amb_frac): (i64, i64) = if total > 0 {
            proof {
                crate::types::lemma_ratio_bps_bounded(of as int, total as int);
                crate::math::lemma_div_trunc_bounded(m.ambiguous_volume * 10000, total as int, 10000);
            }
            (
                div_trunc_i128(of * 10000, total) as i64,
                div_trunc_i128(m.ambiguous_volume * 10000, total) as i64,
            )
        } else {
            (0, 0)
        };
        OrderFlowMetrics {
            of_1m: of,
            of_norm_1m: of_norm,
            total_volume: total,
            buy_volume: m.buy_volume,
            sell_volume: m.sell_volume,
            ambiguous_volume: m.ambiguous_volume,
            ambiguous_frac: amb_frac,
        }
    }
}

/// Sum of buy volume over minutes.
pub open spec fn sum_buy(ms: Seq<MinuteFlow>) -> int
    decreases ms.len(),
{
    if ms.len() == 0 {
        0
    } else {
        sum_buy(ms.drop_last()) + ms.last().buy_volume
    }
}

/// Sum of sell volume over minutes.
pub open spec fn sum_sell(ms: Seq<MinuteFlow>) -> int
    decreases ms.len(),
{
    if ms.len() == 0 {
        0
    } else {
        sum_sell(ms.drop_last()) + ms.last().sell_volume
    }
}

/// Sum of ambiguous volume over minutes.
pub open spec fn sum_amb(ms: Seq<MinuteFlow>) -> int
    decreases ms.len(),
{
    if ms.len() == 0 {
        0
    } else {
        sum_amb(ms.drop_last()) + ms.last().ambiguous_volume
    }
}

/// Updating one minute with a flow of total `ms[i].total() + v` adds `v`.
proof fn lemma_flow_update_one(ms: Seq<MinuteFlow>, i: int, f: MinuteFlow, v: int)
    requires
        0 <= i < ms.len(),
        f.total() == ms[i].total() + v,
    ensures
        sum_flow(ms.update(i, f)) == sum_flow(ms) + v,
    decreases ms.len(),
{
    let t = ms.update(i, f);
    assert(t.len() == ms.len());
    assert(sum_flow(t) == sum_flow(t.drop_last()) + t.last().total());
    assert(sum_flow(ms) == sum_flow(ms.drop_last()) + ms.last().total());
    if i == ms.len() - 1 {
        assert(t.drop_last() =~= ms.drop_last());
        assert(t.last() == f);
    } else {
        assert(t.drop_last() =~= ms.drop_last().update(i, f));
        assert(t.last() == ms.last());
        assert(ms.drop_last()[i] == ms[i]);
        lemma_flow_update_one(ms.drop_last(), i, f, v);
    }
}

/// Inserting a minute adds its total.
proof fn lemma_flow_total_insert(ms: Seq<MinuteFlow>, i: int, f: MinuteFlow)
    requires
        0 <= i <= ms.len(),
    ensures
        sum_flow(ms.insert(i, f)) == sum_flow(ms) + f.total(),
    decreases ms.len(),
{
    let t = ms.insert(i, f);
    assert(t.len() == ms.len() + 1);
    assert(sum_flow(t) == sum_flow(t.drop_last()) + t.last().total());
    if i == ms.len() {
        assert(t.drop_last() =~= ms);
        assert(t.last() == f);
    } else {
        assert(t.drop_last() =~= ms.drop_last().insert(i, f));
        assert(t.last() == ms.last());
        assert(sum_flow(ms) == sum_flow(ms.drop_last()) + ms.last().total());
        lemma_flow_total_insert(ms.drop_last(), i, f);
    }
}

/// A window of well-formed minutes is itself well formed.
proof fn lemma_window_wf(ms: Seq<MinuteFlow>, start: int, upto: int)
    requires
        flows_wf(ms),
        0 <= start <= upto <= ms.len(),
    ensures
        flows_wf(ms.skip(start).take(upto - start)),
{
    let w = ms.skip(start).take(upto - start);
    assert forall|i: int| 0 <= i < w.len() implies #[trigger] w[i].wf() by {
        assert(w[i] == ms[start + i]);
    }
    assert forall|i: int, j: int| 0 <= i < j < w.len() implies w[i].ts_min < w[j].ts_min by {
        assert(w[i] == ms[start + i] && w[j] == ms[start + j]);
    }
}

/// A window's flow never exceeds the whole.
proof fn lemma_window_le_whole(ms: Seq<MinuteFlow>, start: int, upto: int)
    requires
        flows_wf(ms),
        0 <= start <= upto <= ms.len(),
    ensures
        0 <= sum_flow(ms.skip(start).take(upto - start)) <= sum_flow(ms),
    decreases start,
{
    lemma_window_wf(ms, start, upto);
    lemma_flow_sums(ms.skip(start).take(upto - start));
    lemma_flow_sums(ms);
    if start == 0 {
        assert(ms.skip(0).take(upto) =~= ms.take(upto));
        lemma_flow_prefix_le(ms, upto);
    } else if upto == start {
        assert(ms.skip(start).take(0) =~= Seq::<MinuteFlow>::empty());
        assert(sum_flow(Seq::<MinuteFlow>::empty()) == 0);
    } else {
        let outer = ms.skip(start - 1).take(upto - (start - 1));
        lemma_window_wf(ms, start - 1, upto);
        assert(ms.skip(start).take(upto - start) =~= outer.remove(0));
        lemma_flow_remove_first(outer);
        assert(outer[0].wf());
        lemma_window_le_whole(ms, start - 1, upto);
    }
}

/// Partial sums over a window of well-formed minutes stay within the whole.
proof fn lemma_partial_flow_bound(ms: Seq<MinuteFlow>, start: int, upto: int)
    requires
        flows_wf(ms),
        0 <= start <= upto <= ms.len(),
    ensures
        0 <= sum_buy(ms.skip(start).take(upto - start)),
        0 <= sum_sell(ms.skip(start).take(upto - start)),
        0 <= sum_amb(ms.skip(start).take(upto - start)),
        sum_buy(ms.skip(start).take(upto - start)) + sum_sell(ms.skip(start).take(upto - start))
            + sum_amb(ms.skip(start).take(upto - start)) <= sum_flow(ms),
    decreases upto - start,
{
    let tail = ms.skip(start).take(upto - start);
    if upto == start {
        assert(tail =~= Seq::<MinuteFlow>::empty());
    } else {
        lemma_partial_flow_bound(ms, start, upto - 1);
        assert(tail.drop_last() =~= ms.skip(start).take(upto - 1 - start));
        assert(tail.last() == ms[upto - 1]);
        assert(ms[upto - 1].wf());
    }
    lemma_parts_sum(tail);
    lemma_window_le_whole(ms, start, upto);
}

/// The three per-side sums add up to the flow sum.
proof fn lemma_parts_sum(ms: Seq<MinuteFlow>)
    ensures
        sum_buy(ms) + sum_sell(ms) + sum_amb(ms) == sum_flow(ms),
    decreases ms.len(),
{
    if ms.len() > 0 {
        lemma_parts_sum(ms.drop_last());
    }
}

/// A prefix's flow is at most the whole.
proof fn lemma_flow_prefix_le(ms: Seq<MinuteFlow>, k: int)
    requires
        flows_wf(ms),
        0 <= k <= ms.len(),
    ensures
        sum_flow(ms.take(k)) <= sum_flow(ms),
    decreases ms.len() - k,
{
    if k < ms.len() {
        assert(ms.take(k + 1).drop_last() =~= ms.take(k));
        assert(ms.take(k + 1).last() == ms[k]);
        assert(ms[k].wf());
        lemma_flow_prefix_le(ms, k + 1);
    } else {
        assert(ms.take(k) =~= ms);
    }
}

/// Tail sums are bounded by the whole flow.
proof fn lemma_tail_sums(ms: Seq<MinuteFlow>, start: int)
    requires
        flows_wf(ms),
        0 <= start <= ms.len(),
    ensures
        forall|i: int| 0 <= i < ms.skip(start).len() ==> (#[trigger] ms.skip(start)[i]).wf(),
{
    assert forall|i: int| 0 <= i < ms.skip(start).len() implies (#[trigger] ms.skip(start)[i]).wf()
    by {
        assert(ms.skip(start)[i] == ms[start + i]);
    }
}

/// Values of a quote-imbalance stream in basis points, each stamped.
pub open spec fn qvals_wf(vs: Seq<(i64, i64)>) -> bool {
    forall|i: int|
        0 <= i < vs.len() ==> (#[trigger] vs[i]).0 >= 0 && -10000 <= vs[i].1 <= 10000
}

/// The stamped values of `vs` whose timestamps fall inside the minute at
/// `m`, in order.
pub open spec fn minute_vals(vs: Seq<(i64, i64)>, m: int) -> Seq<int>
    decreases vs.len(),
{
    if vs.len() == 0 {
        Seq::empty()
    } else if m <= vs.last().0 < m + 60000 {
        minute_vals(vs.drop_last(), m).push(vs.last().1 as int)
    } else {
        minute_vals(vs.drop_last(), m)
    }
}

/// The fixed-point exponential moving average of a value sequence with decay
/// denominator `den`: seeded with the first value, then
/// `ema' = (2 * x + (den - 2) * ema) / den`, truncated toward zero; 0 when
/// the sequence is empty.
pub open spec fn ema_of(vals: Seq<int>, den: int) -> int
    decreases vals.len(),
{
    if vals.len() == 0 {
        0
    } else if vals.len() == 1 {
        vals[0]
    } else {
        div_trunc(2 * vals.last() + (den - 2) * ema_of(vals.drop_last(), den), den)
    }
}

/// The sum of a value sequence.
pub open spec fn sum_vals(vals: Seq<int>) -> int
    decreases vals.len(),
{
    if vals.len() == 0 {
        0
    } else {
        sum_vals(vals.drop_last()) + vals.last()
    }
}

/// Values in basis points stay in basis points.
pub open spec fn vals_bounded(vals: Seq<int>) -> bool {
    forall|i: int| 0 <= i < vals.len() ==> -10000 <= #[trigger] vals[i] <= 10000
}

/// The in-minute values of a well-formed stream are bounded.
proof fn lemma_minute_vals_bounded(vs: Seq<(i64, i64)>, m: int)
    requires
        qvals_wf(vs),
    ensures
        vals_bounded(minute_vals(vs, m)),
        minute_vals(vs, m).len() <= vs.len(),
    decreases vs.len(),
{
    if vs.len() > 0 {
        assert forall|i: int| 0 <= i < vs.drop_last().len() implies (#[trigger] vs.drop_last()[
            i
        ]).0 >= 0 && -10000 <= vs.drop_last()[i].1 <= 10000 by {
            assert(vs.drop_last()[i] == vs[i]);
        }
        lemma_minute_vals_bounded(vs.drop_last(), m);
        let inner = minute_vals(vs.drop_last(), m);
        if m <= vs.last().0 < m + 60000 {
            let pushed = inner.push(vs.last().1 as int);
            assert(vs.last() == vs[vs.len() - 1]);
            assert forall|i: int| 0 <= i < pushed.len() implies -10000 <= #[trigger] pushed[i]
                <= 10000 by {
                if i < inner.len() {
                    assert(pushed[i] == inner[i]);
                } else {
                    assert(pushed[i] == vs[vs.len() - 1].1);
                }
            }
        }
    }
}

/// The exponential moving average of bounded values is bounded.
proof fn lemma_ema_bounded(vals: Seq<int>, den: int)
    requires
        vals_bounded(vals),
        den >= 2,
    ensures
        -10000 <= ema_of(vals, den) <= 10000,
    decreases vals.len(),
{
    if vals.len() == 0 {
    } else if vals.len() == 1 {
        assert(-10000 <= vals[0] <= 10000);
    } else {
        assert forall|i: int| 0 <= i < vals.drop_last().len() implies -10000
            <= #[trigger] vals.drop_last()[i] <= 10000 by {
            assert(vals.drop_last()[i] == vals[i]);
        }
        lemma_ema_bounded(vals.drop_last(), den);
        let x = vals.last();
        let e = ema_of(vals.drop_last(), den);
        assert(-10000 <= x <= 10000);
        assert(-(den * 10000) <= 2 * x + (den - 2) * e <= den * 10000) by (nonlinear_arith)
            requires -10000 <= x <= 10000, -10000 <= e <= 10000, den >= 2
        ;
        crate::math::lemma_div_trunc_bounded(2 * x + (den - 2) * e, den, 10000);
    }
}

/// Sums of bounded values are bounded by the count.
proof fn lemma_sum_vals_bounded(vals: Seq<int>)
    requires
        vals_bounded(vals),
    ensures
        -(vals.len() as int) * 10000 <= sum_vals(vals) <= (vals.len() as int) * 10000,
    decreases vals.len(),
{
    if vals.len() > 0 {
        assert forall|i: int| 0 <= i < vals.drop_last().len() implies -10000
            <= #[trigger] vals.drop_last()[i] <= 10000 by {
            assert(vals.drop_last()[i] == vals[i]);
        }
        lemma_sum_vals_bounded(vals.drop_last());
        assert(-10000 <= vals.last() <= 10000);
    }
}

/// Bounded ring of stamped quote-imbalance values with a per-minute average
/// and exponential moving average.
pub struct QuoteImbalanceTracker {
    /// Stamped values in basis points, oldest first.
    values: Vec<(i64, i64)>,
    /// Most values retained.
    max_values: usize,
    /// Decay denominator of the moving average: with a span of `s` seconds
    /// and about ten updates a second, `10 * s + 1`.
    ema_den: i64,
}

impl QuoteImbalanceTracker {
    /// The retained stamped values.
    pub closed spec fn vals(self) -> Seq<(i64, i64)> {
        self.values@
    }

    /// The retention limit.
    pub closed spec fn cap(self) -> int {
        self.max_values as int
    }

    /// The decay denominator.
    pub closed spec fn den(self) -> int {
        self.ema_den as int
    }

    /// The invariant: bounded, stamped values within the retention limit,
    /// and a decay denominator of at least 2.
    pub open spec fn inv(self) -> bool {
        &&& qvals_wf(self.vals())
        &&& self.vals().len() <= self.cap()
        &&& 1 <= self.cap()
        &&& 2 <= self.den() <= 10_000_001
    }

    /// An empty tracker retaining at most `max_values` values, with the
    /// decay of a span of `ema_span_seconds` seconds at about ten updates a
    /// second: `alpha = 2 / (10 * span + 1)`.
    pub fn new(max_values: usize, ema_span_seconds: u32) -> (r: QuoteImbalanceTracker)
        requires
            max_values >= 1,
            1 <= ema_span_seconds <= 1_000_000,
        ensures
            r.inv(),
            r.cap() == max_values,
            r.den() == 10 * ema_span_seconds + 1,
            r.vals().len() == 0,
    {
        QuoteImbalanceTracker {
            values: Vec::new(),
            max_values,
            ema_den: (ema_span_seconds as i64) * 10 + 1,
        }
    }

    /// Appends a stamped value, evicting the oldest when full.
    pub fn add(&mut self, ts_ms: TimestampMs, qimb: i64)
        requires
            old(self).inv(),
            ts_ms >= 0,
            -10000 <= qimb <= 10000,
        ensures
            final(self).inv(),
            final(self).cap() == old(self).cap() && final(self).den() == old(self).den(),
            final(self).vals() == if old(self).vals().len() >= old(self).cap() {
                old(self).vals().remove(0).push((ts_ms, qimb))
            } else {
                old(self).vals().push((ts_ms, qimb))
            },
    {
        let ghost vs0 = self.values@;
        if self.values.len() >= self.max_values {
            let _ = self.values.remove(0);
            proof {
                assert forall|i: int| 0 <= i < self.values@.len() implies (#[trigger] self.values@[
                    i
                ]).0 >= 0 && -10000 <= self.values@[i].1 <= 10000 by {
                    assert(self.values@[i] == vs0[i + 1]);
                }
            }
        }
        let ghost vs1 = self.values@;
        self.values.push((ts_ms, qimb));
        proof {
            assert forall|i: int| 0 <= i < self.values@.len() implies (#[trigger] self.values@[
                i
            ]).0 >= 0 && -10000 <= self.values@[i].1 <= 10000 by {
                if i < vs1.len() {
                    assert(self.values@[i] == vs1[i]);
                }
            }
        }
    }

    /// The newest value, if any.
    pub fn latest(&self) -> (r: Option<i64>)
        ensures
            match r {
                Some(v) => self.vals().len() > 0 && v == self.vals().last().1,
                None => self.vals().len() == 0,
            },
    {
        let n = self.values.len();
        if n > 0 {
            Some(self.values[n - 1].1)
        } else {
            None
        }
    }

    /// The exponential moving average of the values inside the minute at
    /// `ts_min`, in basis points; 0 when the minute holds none.
    pub fn ema_for_minute(&self, ts_min: TimestampMs) -> (r: i64)
        requires
            self.inv(),
            0 <= ts_min <= i64::MAX - 60000,
        ensures
            r == ema_of(minute_vals(self.vals(), ts_min as int), self.den()),
            -10000 <= r <= 10000,
    {
        let ghost vs = self.values@;
        let minute_end: i64 = ts_min + 60_000;
        let mut ema: i64 = 0;
        let mut seen: bool = false;
        let n = self.values.len();
        let mut i: usize = 0;
        proof {
            assert(vs.subrange(0, 0) =~= Seq::<(i64, i64)>::empty());
            lemma_minute_vals_bounded(vs, ts_min as int);
        }
        while i < n
            invariant
                self.inv(),
                vs == self.vals(),
                n == vs.len(),
                0 <= i <= n,
                0 <= ts_min <= i64::MAX - 60000,
                minute_end == ts_min + 60000,
                seen <==> minute_vals(vs.subrange(0, i as int), ts_min as int).len() > 0,
                seen ==> ema == ema_of(
                    minute_vals(vs.subrange(0, i as int), ts_min as int),
                    self.den(),
                ),
                !seen ==> ema == 0,
                -10000 <= ema <= 10000,
            decreases n - i,
        {
            proof {
                let pre1 = vs.subrange(0, i + 1);
                assert(pre1.drop_last() =~= vs.subrange(0, i as int));
                assert(pre1.last() == vs[i as int]);
                lemma_minute_vals_bounded(vs.subrange(0, i as int), ts_min as int);
                lemma_minute_vals_bounded(pre1, ts_min as int);
                assert((vs[i as int]).0 >= 0 && -10000 <= vs[i as int].1 <= 10000);
                let inner = minute_vals(vs.subrange(0, i as int), ts_min as int);
                if ts_min as int <= vs[i as int].0 < ts_min + 60000 {
                    let pushed = inner.push(vs[i as int].1 as int);
                    assert(pushed.drop_last() =~= inner);
                    assert(pushed.last() == vs[i as int].1 as int);
                    if inner.len() == 0 {
                        assert(pushed[0] == vs[i as int].1 as int);
                    }
                }
            }
            let (ts, v) = self.values[i];
            if ts >= ts_min && ts < minute_end {
                if !seen {
                    ema = v;
                    seen = true;
                } else {
                    proof {
                        let den = self.ema_den as int;
                        assert(-(den * 10000) <= 2 * (v as int) + (den - 2) * (ema as int) <= den
                            * 10000) by (nonlinear_arith)
                            requires
                                -10000 <= v <= 10000,
                                -10000 <= ema <= 10000,
                                den >= 2,
                        ;
                        crate::math::lemma_div_trunc_bounded(
                            2 * (v as int) + (den - 2) * (ema as int),
                            den,
                            10000,
                        );
                    }
                    let num: i128 = 2 * (v as i128) + ((self.ema_den - 2) as i128) * (ema as i128);
                    ema = div_trunc_i128(num, self.ema_den as i128) as i64;
                }
            }
            i = i + 1;
        }
        proof {
            assert(vs.subrange(0, n as int) =~= vs);
        }
        ema
    }

    /// The arithmetic mean of the values inside the minute at `ts_min`, in
    /// basis points, truncated toward zero; 0 when the minute holds none.
    pub fn avg_for_minute(&self, ts_min: TimestampMs) -> (r: i64)
        requires
            self.inv(),
            0 <= ts_min <= i64::MAX - 60000,
        ensures
            ({
                let mv = minute_vals(self.vals(), ts_min as int);
                if mv.len() > 0 {
                    r == div_trunc(sum_vals(mv), mv.len() as int)
                } else {
                    r == 0
                }
            }),
            -10000 <= r <= 10000,
    {
        let ghost vs = self.values@;
        let minute_end: i64 = ts_min + 60_000;
        let mut sum: i128 = 0;
        let mut count: u64 = 0;
        let n = self.values.len();
        let mut i: usize = 0;
        proof {
            assert(vs.subrange(0, 0) =~= Seq::<(i64, i64)>::empty());
            lemma_minute_vals_bounded(vs, ts_min as int);
        }
        while i < n
            invariant
                self.inv(),
                vs == self.vals(),
                n == vs.len() <= usize::MAX,
                0 <= i <= n,
                0 <= ts_min <= i64::MAX - 60000,
                minute_end == ts_min + 60000,
                count == minute_vals(vs.subrange(0, i as int), ts_min as int).len(),
                count <= i,
                sum == sum_vals(minute_vals(vs.subrange(0, i as int), ts_min as int)),
                -(count as int) * 10000 <= sum <= (count as int) * 10000,
            decreases n - i,
        {
            proof {
                let pre1 = vs.subrange(0, i + 1);
                assert(pre1.drop_last() =~= vs.subrange(0, i as int));
                assert(pre1.last() == vs[i as int]);
                lemma_minute_vals_bounded(vs.subrange(0, i as int), ts_min as int);
                lemma_minute_vals_bounded(pre1, ts_min as int);
                assert((vs[i as int]).0 >= 0 && -10000 <= vs[i as int].1 <= 10000);
                let inner = minute_vals(vs.subrange(0, i as int), ts_min as int);
                if ts_min as int <= vs[i as int].0 < ts_min + 60000 {
                    let pushed = inner.push(vs[i as int].1 as int);
                    assert(pushed.drop_last() =~= inner);
                    assert(pushed.last() == vs[i as int].1 as int);
                }
            }
            let (ts, v) = self.values[i];
            if ts >= ts_min && ts < minute_end {
                sum = sum + (v as i128);
                count = count + 1;
            }
            i = i + 1;
        }
        proof {
            assert(vs.subrange(0, n as int) =~= vs);
        }
        if count > 0 {
            proof {
                crate::math::lemma_div_trunc_bounded(sum as int, count as int, 10000);
            }
            div_trunc_i128(sum, count as i128) as i64
        } else {
            0
        }
    }

    /// Drops all values.
    pub fn clear(&mut self)
        requires
            old(self).inv(),
        ensures
            final(self).inv(),
            final(self).cap() == old(self).cap() && final(self).den() == old(self).den(),
            final(self).vals().len() == 0,
    {
        self.values.clear();
    }
}

} // verus!
