//! One-minute OHLCV bars built from classified trades, with the closing
//! quote snapshot attached at finalization.

use vstd::prelude::*;
use crate::types::Bar1m;
use crate::types::ClassifiedTrade;
use crate::types::Quote;
use crate::types::TimestampMs;
use crate::types::PRICE_MAX;
use crate::types::SIZE_MAX;
use crate::types::valid_price;
use crate::types::valid_size;
use crate::ts_to_minute;

verus! {

/// Largest admitted volume of one bar, in size units.
pub const BAR_VOL_MAX: i128 = 1_000_000_000_000_000_000_000_000;

/// Sum of the sizes of a price–size history.
pub open spec fn hist_sizes(ts: Seq<(int, int)>) -> int
    decreases ts.len(),
{
    if ts.len() == 0 {
        0
    } else {
        hist_sizes(ts.drop_last()) + ts.last().1
    }
}

/// Sum of price times size of a price–size history.
pub open spec fn hist_values(ts: Seq<(int, int)>) -> int
    decreases ts.len(),
{
    if ts.len() == 0 {
        0
    } else {
        hist_values(ts.drop_last()) + ts.last().0 * ts.last().1
    }
}

/// A bar under construction for one minute.
pub struct BarAcc {
    /// Minute boundary timestamp.
    pub ts_min: TimestampMs,
    /// First trade price.
    pub open: i64,
    /// Highest trade price.
    pub high: i64,
    /// Lowest trade price.
    pub low: i64,
    /// Latest trade price.
    pub close: i64,
    /// Total traded size.
    pub volume: i128,
    /// Sum of price times size.
    pub vwap_num: i128,
    /// Number of trades.
    pub trade_count: u32,
    /// The prices and sizes attributed to this minute, in order.
    pub trades: Ghost<Seq<(int, int)>>,
}

impl BarAcc {
    /// The accumulator's invariant: the open, high, low and close bracket
    /// every price, the volume is exactly the sum of the attributed trades'
    /// sizes, and the weighted value is their exact price–size sum.
    pub open spec fn wf(self) -> bool {
        &&& self.ts_min >= 0
        &&& valid_price(self.open)
        &&& valid_price(self.high)
        &&& valid_price(self.low)
        &&& valid_price(self.close)
        &&& self.low <= self.open <= self.high
        &&& self.low <= self.close <= self.high
        &&& 1 <= self.trade_count
        &&& self.trades@.len() == self.trade_count
        &&& self.volume == hist_sizes(self.trades@)
        &&& self.vwap_num == hist_values(self.trades@)
        &&& 0 <= self.volume <= BAR_VOL_MAX
        &&& 0 <= self.vwap_num <= self.volume * PRICE_MAX
    }

    /// An accumulator opened by its first trade.
    pub fn new(ts_min: TimestampMs, price: i64, size: i64) -> (r: BarAcc)
        requires
            ts_min >= 0,
            valid_price(price),
            valid_size(size),
        ensures
            r.wf(),
            r.ts_min == ts_min,
            r.open == price && r.high == price && r.low == price && r.close == price,
            r.volume == size,
            r.vwap_num == price * size,
            r.trade_count == 1,
            r.trades@ == seq![(price as int, size as int)],
    {
        let ghost h = seq![(price as int, size as int)];
        proof {
            assert(h.drop_last() =~= Seq::<(int, int)>::empty());
            assert(h.last() == (price as int, size as int));
            assert(hist_sizes(h.drop_last()) == 0);
            assert(hist_values(h.drop_last()) == 0);
            assert(0 <= (price as int) * (size as int) <= (size as int) * PRICE_MAX)
                by (nonlinear_arith)
                requires 0 < price <= PRICE_MAX, 0 <= size <= SIZE_MAX
            ;
        }
        BarAcc {
            ts_min,
            open: price,
            high: price,
            low: price,
            close: price,
            volume: size as i128,
            vwap_num: (price as i128) * (size as i128),
            trade_count: 1,
            trades: Ghost(h),
        }
    }

    /// Folds one more trade into the bar: the high and low widen, the close
    /// moves, the volume and weighted value grow by exactly this trade.
    pub fn add_trade(&mut self, price: i64, size: i64)
        requires
            old(self).wf(),
            valid_price(price),
            valid_size(size),
            old(self).volume + size <= BAR_VOL_MAX,
            old(self).trade_count < u32::MAX,
        ensures
            final(self).wf(),
            final(self).ts_min == old(self).ts_min,
            final(self).open == old(self).open,
            final(self).high == if price > old(self).high {
                price
            } else {
                old(self).high
            },
            final(self).low == if price < old(self).low {
                price
            } else {
                old(self).low
            },
            final(self).close == price,
            final(self).volume == old(self).volume + size,
            final(self).vwap_num == old(self).vwap_num + price * size,
            final(self).trade_count == old(self).trade_count + 1,
            final(self).trades@ == old(self).trades@.push((price as int, size as int)),
    {
        proof {
            let h = self.trades@.push((price as int, size as int));
            assert(h.drop_last() =~= self.trades@);
            assert(h.last() == (price as int, size as int));
            assert(0 <= (price as int) * (size as int) <= (size as int) * PRICE_MAX)
                by (nonlinear_arith)
                requires 0 < price <= PRICE_MAX, 0 <= size <= SIZE_MAX
            ;
            assert(self.volume * PRICE_MAX + (size as int) * PRICE_MAX == (self.volume
                + size as int) * PRICE_MAX) by (nonlinear_arith);
            assert(0 <= (self.volume + size as int) * PRICE_MAX
                <= 1_000_000_000_000_000_000_000_000 * PRICE_MAX) by (nonlinear_arith)
                requires 0 <= self.volume + size as int <= 1_000_000_000_000_000_000_000_000i128
            ;
        }
        if price > self.high {
            self.high = price;
        }
        if price < self.low {
            self.low = price;
        }
        self.close = price;
        self.volume = self.volume + (size as i128);
        self.vwap_num = self.vwap_num + (price as i128) * (size as i128);
        self.trade_count = self.trade_count + 1;
        self.trades = Ghost(self.trades@.push((price as int, size as int)));
    }

    /// The finished bar, carrying the quote snapshot (zeroes when none
    /// qualified). Emitted bars satisfy `low <= open, close <= high`, have at
    /// least one trade, and their volume is exactly the sum of the sizes
    /// attributed to the minute.
    pub fn to_bar(&self, quote: Option<Quote>) -> (r: Bar1m)
        requires
            self.wf(),
            match quote {
                Some(q) => q.wf(),
                None => true,
            },
        ensures
            r == bar_of(*self, quote),
            r.wf(),
            r.volume == hist_sizes(self.trades@),
            r.vwap_num == hist_values(self.trades@),
            r.trade_count == self.trade_count >= 1,
    {
        let (bid_px, ask_px, bid_sz, ask_sz): (i64, i64, i64, i64) = match quote {
            Some(q) => (q.bid_px, q.ask_px, q.bid_sz, q.ask_sz),
            None => (0, 0, 0, 0),
        };
        Bar1m {
            ts_min: self.ts_min,
            open: self.open,
            high: self.high,
            low: self.low,
            close: self.close,
            volume: self.volume,
            vwap_num: self.vwap_num,
            trade_count: self.trade_count,
            bid_px_close: bid_px,
            ask_px_close: ask_px,
            bid_sz_close: bid_sz,
            ask_sz_close: ask_sz,
        }
    }
}


/// The accumulator after one more trade: the high and low widen, the close
/// moves, the volume, weighted value, count and attributed history grow by
/// exactly this trade; unchanged when the volume or count bound would be
/// passed.
pub open spec fn bar_with_trade(acc: BarAcc, price: i64, size: i64) -> BarAcc {
    if acc.volume + size <= BAR_VOL_MAX && acc.trade_count < u32::MAX {
        BarAcc {
            high: if price > acc.high { price } else { acc.high },
            low: if price < acc.low { price } else { acc.low },
            close: price,
            volume: (acc.volume + size) as i128,
            vwap_num: (acc.vwap_num + price * size) as i128,
            trade_count: (acc.trade_count + 1) as u32,
            trades: Ghost(acc.trades@.push((price as int, size as int))),
            ..acc
        }
    } else {
        acc
    }
}

/// The most recently arrived quote stamped at or before `t`.
pub open spec fn snap_q(qs: Seq<Quote>, t: int) -> Option<Quote>
    decreases qs.len(),
{
    if qs.len() == 0 {
        None
    } else if qs.last().ts_ms <= t {
        Some(qs.last())
    } else {
        snap_q(qs.drop_last(), t)
    }
}

/// The last millisecond of a bucket's minute, saturating at the largest
/// timestamp.
pub open spec fn close_probe(ts_min: int) -> int {
    if ts_min <= i64::MAX - 59999 {
        ts_min + 59999
    } else {
        i64::MAX as int
    }
}

/// The bar a bucket finalizes to with a quote snapshot (zeroes when none).
pub open spec fn bar_of(acc: BarAcc, q: Option<Quote>) -> Bar1m {
    Bar1m {
        ts_min: acc.ts_min,
        open: acc.open,
        high: acc.high,
        low: acc.low,
        close: acc.close,
        volume: acc.volume,
        vwap_num: acc.vwap_num,
        trade_count: acc.trade_count,
        bid_px_close: match q {
            Some(q) => q.bid_px,
            None => 0,
        },
        ask_px_close: match q {
            Some(q) => q.ask_px,
            None => 0,
        },
        bid_sz_close: match q {
            Some(q) => q.bid_sz,
            None => 0,
        },
        ask_sz_close: match q {
            Some(q) => q.ask_sz,
            None => 0,
        },
    }
}

/// A snapshot found among admitted quotes is admitted and at or before the
/// probe.
proof fn lemma_snap_q_wf(qs: Seq<Quote>, t: int)
    requires
        quotes_sorted(qs),
    ensures
        match snap_q(qs, t) {
            Some(q) => q.wf() && q.ts_ms <= t,
            None => true,
        },
    decreases qs.len(),
{
    if qs.len() > 0 {
        assert(qs.last() == qs[qs.len() - 1]);
        if !(qs.last().ts_ms <= t) {
            assert forall|i: int| 0 <= i < qs.drop_last().len() implies (
            #[trigger] qs.drop_last()[i]).wf() by {
                assert(qs.drop_last()[i] == qs[i]);
            }
            assert forall|i: int, j: int|
                0 <= i < j < qs.drop_last().len() implies qs.drop_last()[i].ts_ms
                <= qs.drop_last()[j].ts_ms by {
                assert(qs.drop_last()[i] == qs[i] && qs.drop_last()[j] == qs[j]);
            }
            lemma_snap_q_wf(qs.drop_last(), t);
        }
    }
}

/// A well-formed bucket finalizes to a well-formed bar.
proof fn lemma_bar_of_wf(acc: BarAcc, q: Option<Quote>)
    requires
        acc.wf(),
        match q {
            Some(q) => q.wf(),
            None => true,
        },
    ensures
        bar_of(acc, q).wf(),
        bar_of(acc, q).trade_count >= 1,
{
}

/// Buckets in strictly increasing minute order, all well formed.
pub open spec fn buckets_wf(bs: Seq<BarAcc>) -> bool {
    &&& forall|i: int| 0 <= i < bs.len() ==> (#[trigger] bs[i]).wf()
    &&& forall|i: int, j: int| 0 <= i < j < bs.len() ==> bs[i].ts_min < bs[j].ts_min
}

/// Quotes in non-decreasing stamp order, all admitted.
pub open spec fn quotes_sorted(qs: Seq<Quote>) -> bool {
    &&& forall|i: int| 0 <= i < qs.len() ==> (#[trigger] qs[i]).wf()
    &&& forall|i: int, j: int| 0 <= i < j < qs.len() ==> qs[i].ts_ms <= qs[j].ts_ms
}

/// Builds one-minute bars from classified trades and quotes.
pub struct BarBuilder {
    /// Buckets under construction, in increasing minute order.
    bars: Vec<BarAcc>,
    /// Recent quotes, in stamp order.
    quotes: Vec<Quote>,
    /// Most quotes retained.
    max_quotes: usize,
}

impl BarBuilder {
    /// The buckets under construction.
    pub closed spec fn buckets(self) -> Seq<BarAcc> {
        self.bars@
    }

    /// The retained quotes.
    pub closed spec fn qs(self) -> Seq<Quote> {
        self.quotes@
    }

    /// The invariant: sorted well-formed buckets and sorted admitted quotes
    /// within the retention limit.
    pub open spec fn inv(self) -> bool {
        &&& buckets_wf(self.buckets())
        &&& quotes_sorted(self.qs())
        &&& self.qs().len() <= 1_000_000
        &&& self.max_q() == 1_000_000
    }

    /// The quote retention limit.
    pub closed spec fn max_q(self) -> int {
        self.max_quotes as int
    }

    /// An empty builder.
    pub fn new() -> (r: BarBuilder)
        ensures
            r.inv(),
            r.buckets().len() == 0,
            r.qs().len() == 0,
    {
        BarBuilder { bars: Vec::new(), quotes: Vec::new(), max_quotes: 1_000_000 }
    }

    /// Appends a quote; quotes must arrive in non-decreasing stamp order.
    /// When the buffer is full, the older half is dropped.
    pub fn add_quote(&mut self, quote: Quote)
        requires
            old(self).inv(),
            quote.wf(),
            old(self).qs().len() > 0 ==> old(self).qs().last().ts_ms <= quote.ts_ms,
        ensures
            final(self).inv(),
            final(self).buckets() == old(self).buckets(),
            final(self).qs().len() >= 1,
            final(self).qs().last() == quote,
    {
        if self.quotes.len() >= self.max_quotes {
            let half: usize = self.max_quotes / 2;
            let ghost qs0 = self.quotes@;
            let tail = self.quotes.split_off(half);
            self.quotes = tail;
            proof {
                assert forall|i: int| 0 <= i < self.quotes@.len() implies (
                #[trigger] self.quotes@[i]).wf() by {
                    assert(self.quotes@[i] == qs0[half + i]);
                }
                assert forall|i: int, j: int|
                    0 <= i < j < self.quotes@.len() implies self.quotes@[i].ts_ms
                    <= self.quotes@[j].ts_ms by {
                    assert(self.quotes@[i] == qs0[half + i] && self.quotes@[j] == qs0[half + j]);
                }
                if self.quotes@.len() > 0 {
                    assert(self.quotes@.last() == qs0.last());
                }
            }
        }
        let ghost qs1 = self.quotes@;
        self.quotes.push(quote);
        proof {
            assert forall|i: int| 0 <= i < self.quotes@.len() implies (
            #[trigger] self.quotes@[i]).wf() by {
                if i < qs1.len() {
                    assert(self.quotes@[i] == qs1[i]);
                }
            }
            assert forall|i: int, j: int|
                0 <= i < j < self.quotes@.len() implies self.quotes@[i].ts_ms
                <= self.quotes@[j].ts_ms by {
                if j < qs1.len() {
                    assert(self.quotes@[i] == qs1[i] && self.quotes@[j] == qs1[j]);
                } else if i < qs1.len() {
                    assert(self.quotes@[i] == qs1[i]);
                    if qs1.len() > 0 {
                        assert(qs1[i].ts_ms <= qs1.last().ts_ms || i == qs1.len() - 1);
                    }
                }
            }
        }
    }

    /// Routes a classified trade to its minute's bucket, opening the bucket
    /// in order when the minute is new. A trade that would push the bucket
    /// past its volume or count bound is not attributed.
    pub fn add_trade(&mut self, trade: &ClassifiedTrade)
        requires
            old(self).inv(),
            trade.wf(),
        ensures
            final(self).inv(),
            final(self).qs() == old(self).qs(),
            final(self).buckets().len() >= 1,
            ({
                let m = 60000 * ((trade.trade.ts_ms as int) / 60000);
                let price = trade.trade.price;
                let size = trade.trade.size;
                if exists|i: int|
                    0 <= i < old(self).buckets().len() && (#[trigger] old(self).buckets()[
                    i
                ]).ts_min == m {
                    exists|i: int|
                        0 <= i < old(self).buckets().len() && (#[trigger] old(self).buckets()[
                        i
                    ]).ts_min == m && final(self).buckets() == old(self).buckets().update(
                            i,
                            bar_with_trade(old(self).buckets()[i], price, size),
                        )
                } else {
                    exists|i: int|
                        0 <= i <= old(self).buckets().len() && final(self).buckets() == (
                        #[trigger] old(self).buckets().insert(
                            i,
                            BarAcc {
                                ts_min: m as i64,
                                open: price,
                                high: price,
                                low: price,
                                close: price,
                                volume: size as i128,
                                vwap_num: (price * size) as i128,
                                trade_count: 1u32,
                                trades: Ghost(seq![(price as int, size as int)]),
                            },
                        ))
                }
            }),
    {
        let ts_min = ts_to_minute(trade.trade.ts_ms);
        let price = trade.trade.price;
        let size = trade.trade.size;

        let ghost bs0 = self.bars@;
        let n = self.bars.len();
        let mut idx: usize = 0;
        while idx < n && self.bars[idx].ts_min < ts_min
            invariant
                n == self.bars@.len(),
                self.bars@ == bs0,
                0 <= idx <= n,
                forall|j: int| 0 <= j < idx ==> (#[trigger] bs0[j]).ts_min < ts_min,
                buckets_wf(bs0),
            decreases n - idx,
        {
            idx = idx + 1;
        }

        if idx < n && self.bars[idx].ts_min == ts_min {
            proof {
                assert(bs0[idx as int].wf());
            }
            let mut acc = self.bars.remove(idx);
            if acc.volume + (size as i128) <= BAR_VOL_MAX && acc.trade_count < u32::MAX {
                acc.add_trade(price, size);
            }
            let ghost acc1 = acc;
            self.bars.insert(idx, acc);
            proof {
                assert(acc1 == bar_with_trade(bs0[idx as int], price, size));
                let t = bs0.update(idx as int, acc1);
                assert(self.bars@ =~= t);
                assert forall|i: int, j: int| 0 <= i < j < t.len() implies t[i].ts_min
                    < t[j].ts_min by {
                    assert(bs0[i].ts_min < bs0[j].ts_min);
                }
                assert forall|i: int| 0 <= i < t.len() implies (#[trigger] t[i]).wf() by {
                    if i != idx {
                        assert(t[i] == bs0[i]);
                    }
                }
            }
        } else {
            let acc = BarAcc::new(ts_min, price, size);
            self.bars.insert(idx, acc);
            proof {
                assert forall|i: int| 0 <= i < bs0.len() implies (#[trigger] bs0[i]).ts_min
                    != ts_min by {
                    if i < idx {
                        assert(bs0[i].ts_min < ts_min);
                    }
                }
                let t = bs0.insert(idx as int, acc);
                assert(self.bars@ =~= t);
                assert forall|i: int, j: int| 0 <= i < j < t.len() implies t[i].ts_min
                    < t[j].ts_min by {
                    if i < idx && j == idx {
                        assert(t[i] == bs0[i]);
                    } else if i == idx && j > idx {
                        assert(t[j] == bs0[j - 1]);
                        if idx < bs0.len() {
                            assert(bs0[idx as int].ts_min != ts_min);
                            assert(bs0[idx as int].ts_min >= ts_min);
                        }
                    } else if i < idx && j > idx {
                        assert(t[i] == bs0[i] && t[j] == bs0[j - 1]);
                    } else if i > idx && j > idx {
                        assert(t[i] == bs0[i - 1] && t[j] == bs0[j - 1]);
                    } else {
                        assert(t[i] == bs0[i] && t[j] == bs0[j]);
                    }
                }
                assert forall|i: int| 0 <= i < t.len() implies (#[trigger] t[i]).wf() by {
                    if i < idx {
                        assert(t[i] == bs0[i]);
                    } else if i > idx {
                        assert(t[i] == bs0[i - 1]);
                    }
                }
            }
        }
    }

    /// Routes several classified trades.
    pub fn add_trades(&mut self, trades: &Vec<ClassifiedTrade>)
        requires
            old(self).inv(),
            forall|i: int| 0 <= i < trades@.len() ==> (#[trigger] trades@[i]).wf(),
        ensures
            final(self).inv(),
            final(self).qs() == old(self).qs(),
    {
        let n = trades.len();
        let mut i: usize = 0;
        while i < n
            invariant
                self.inv(),
                n == trades@.len(),
                0 <= i <= n,
                forall|k: int| 0 <= k < trades@.len() ==> (#[trigger] trades@[k]).wf(),
                self.qs() == old(self).qs(),
            decreases n - i,
        {
            self.add_trade(&trades[i]);
            i = i + 1;
        }
    }

    /// The most recent quote stamped at or before `ts_ms`.
    fn find_quote(&self, ts_ms: TimestampMs) -> (r: Option<Quote>)
        requires
            self.inv(),
        ensures
            r == snap_q(self.qs(), ts_ms as int),
            match r {
                Some(q) => q.wf() && q.ts_ms <= ts_ms,
                None => true,
            },
    {
        let ghost qs = self.quotes@;
        proof {
            assert(qs.subrange(0, qs.len() as int) =~= qs);
        }
        let mut i: usize = self.quotes.len();
        while i > 0
            invariant
                qs == self.qs(),
                self.inv(),
                0 <= i <= qs.len(),
                snap_q(qs, ts_ms as int) == snap_q(qs.subrange(0, i as int), ts_ms as int),
            decreases i,
        {
            proof {
                let pre = qs.subrange(0, i as int);
                assert(pre.drop_last() =~= qs.subrange(0, i - 1));
                assert(pre.last() == qs[i - 1]);
            }
            if self.quotes[i - 1].ts_ms <= ts_ms {
                proof {
                    assert(qs[i - 1].wf());
                }
                return Some(self.quotes[i - 1]);
            }
            i = i - 1;
        }
        proof {
            assert(qs.subrange(0, 0) =~= Seq::<Quote>::empty());
        }
        None
    }

    /// Emits and removes every bucket whose minute lies strictly before the
    /// minute of `current_ts_ms`, in increasing minute order; buckets for the
    /// current and later minutes stay. Each emitted bar is exactly its
    /// bucket's finalization, carrying the most recent quote stamped at or
    /// before the bucket's last millisecond.
    pub fn finalize_before(&mut self, current_ts_ms: TimestampMs) -> (r: Vec<Bar1m>)
        requires
            old(self).inv(),
            current_ts_ms >= 0,
        ensures
            final(self).inv(),
            final(self).qs() == old(self).qs(),
            ({
                let cutoff = 60000 * ((current_ts_ms as int) / 60000);
                exists|k: int|
                    0 <= k <= old(self).buckets().len() && (forall|i: int|
                        0 <= i < k ==> (#[trigger] old(self).buckets()[i]).ts_min < cutoff)
                        && (forall|i: int|
                        k <= i < old(self).buckets().len() ==> (#[trigger] old(self).buckets()[
                            i
                        ]).ts_min >= cutoff) && final(self).buckets() == (
                    #[trigger] old(self).buckets().skip(k)) && r@.len() == k && (forall|i: int|
                        0 <= i < k ==> #[trigger] r@[i] == bar_of(
                            old(self).buckets()[i],
                            snap_q(
                                old(self).qs(),
                                close_probe(old(self).buckets()[i].ts_min as int),
                            ),
                        ))
            }),
            forall|k: int|
                0 <= k < r@.len() ==> {
                    &&& (#[trigger] r@[k]).wf()
                    &&& r@[k].trade_count >= 1
                    &&& r@[k].ts_min < 60000 * ((current_ts_ms as int) / 60000)
                },
            forall|k: int, l: int| 0 <= k < l < r@.len() ==> r@[k].ts_min < r@[l].ts_min,
            r@.len() + final(self).buckets().len() == old(self).buckets().len(),
    {
        let current_minute = ts_to_minute(current_ts_ms);
        let mut completed: Vec<Bar1m> = Vec::new();
        let ghost bs_full = self.bars@;
        let ghost qs0 = self.quotes@;
        proof {
            assert(bs_full.skip(0) =~= bs_full);
        }

        while self.bars.len() > 0 && self.bars[0].ts_min < current_minute
            invariant
                self.inv(),
                buckets_wf(bs_full),
                self.qs() == qs0,
                qs0 == old(self).qs(),
                bs_full == old(self).buckets(),
                current_minute == 60000 * ((current_ts_ms as int) / 60000),
                current_ts_ms >= 0,
                completed@.len() <= bs_full.len(),
                self.buckets() == bs_full.skip(completed@.len() as int),
                forall|i: int|
                    0 <= i < completed@.len() ==> (#[trigger] bs_full[i]).ts_min
                        < current_minute,
                forall|i: int|
                    0 <= i < completed@.len() ==> #[trigger] completed@[i] == bar_of(
                        bs_full[i],
                        snap_q(qs0, close_probe(bs_full[i].ts_min as int)),
                    ),
            decreases self.bars@.len(),
        {
            let ghost j = completed@.len() as int;
            proof {
                assert(self.bars@[0] == bs_full[j]);
                assert(bs_full[j].wf());
                assert(bs_full.skip(j).remove(0) =~= bs_full.skip(j + 1));
            }
            let acc = self.bars.remove(0);
            let close_ts: i64 = if acc.ts_min <= i64::MAX - 59_999 {
                acc.ts_min + 59_999
            } else {
                i64::MAX
            };
            let quote = self.find_quote(close_ts);
            let bar = acc.to_bar(quote);
            completed.push(bar);
        }

        proof {
            let k = completed@.len() as int;
            assert forall|i: int|
                k <= i < bs_full.len() implies (#[trigger] bs_full[i]).ts_min
                >= current_minute by {
                assert(self.bars@[0] == bs_full[k]);
                if i > k {
                    assert(bs_full[k].ts_min < bs_full[i].ts_min);
                }
            }
            assert forall|x: int, y: int|
                0 <= x < y < completed@.len() implies completed@[x].ts_min
                < completed@[y].ts_min by {
                assert(bs_full[x].ts_min < bs_full[y].ts_min);
            }
            assert forall|i: int| 0 <= i < completed@.len() implies {
                &&& (#[trigger] completed@[i]).wf()
                &&& completed@[i].trade_count >= 1
            } by {
                assert(bs_full[i].wf());
                lemma_snap_q_wf(qs0, close_probe(bs_full[i].ts_min as int));
                lemma_bar_of_wf(bs_full[i], snap_q(qs0, close_probe(bs_full[i].ts_min as int)));
            }
        }
        completed
    }

    /// Finalizes one specific minute now, complete or not: exactly the
    /// bucket holding that minute is removed and finalized with the most
    /// recent quote stamped at or before the minute's last millisecond;
    /// nothing comes back when no bucket holds it.
    pub fn force_finalize(&mut self, ts_min: TimestampMs) -> (r: Option<Bar1m>)
        requires
            old(self).inv(),
        ensures
            final(self).inv(),
            final(self).qs() == old(self).qs(),
            match r {
                Some(b) => exists|i: int|
                    0 <= i < old(self).buckets().len() && (#[trigger] old(self).buckets()[
                    i
                ]).ts_min == ts_min && final(self).buckets() == old(self).buckets().remove(i)
                        && b == bar_of(
                        old(self).buckets()[i],
                        snap_q(old(self).qs(), close_probe(ts_min as int)),
                    ) && b.wf() && b.trade_count >= 1,
                None => final(self).buckets() == old(self).buckets() && (forall|i: int|
                    0 <= i < old(self).buckets().len() ==> (#[trigger] old(self).buckets()[
                    i
                ]).ts_min != ts_min),
            },
    {
        let ghost bs0 = self.bars@;
        let n = self.bars.len();
        let mut idx: usize = 0;
        while idx < n && self.bars[idx].ts_min != ts_min
            invariant
                n == self.bars@.len(),
                self.bars@ == bs0,
                0 <= idx <= n,
                forall|j: int| 0 <= j < idx ==> (#[trigger] bs0[j]).ts_min != ts_min,
            decreases n - idx,
        {
            idx = idx + 1;
        }
        if idx >= n {
            return None;
        }
        proof {
            assert(bs0[idx as int].wf());
        }
        let acc = self.bars.remove(idx);
        proof {
            assert forall|i: int| 0 <= i < self.bars@.len() implies (
            #[trigger] self.bars@[i]).wf() by {
                if i < idx {
                    assert(self.bars@[i] == bs0[i]);
                } else {
                    assert(self.bars@[i] == bs0[i + 1]);
                }
            }
            assert forall|i: int, j: int|
                0 <= i < j < self.bars@.len() implies self.bars@[i].ts_min
                < self.bars@[j].ts_min by {
                let oi: int = if i < idx {
                    i
                } else {
                    i + 1
                };
                let oj: int = if j < idx {
                    j
                } else {
                    j + 1
                };
                assert(self.bars@[i] == bs0[oi] && self.bars@[j] == bs0[oj]);
            }
        }
        let close_ts: i64 = if acc.ts_min <= i64::MAX - 59_999 {
            acc.ts_min + 59_999
        } else {
            i64::MAX
        };
        let quote = self.find_quote(close_ts);
        proof {
            lemma_bar_of_wf(acc, quote);
        }
        Some(acc.to_bar(quote))
    }

    /// Number of buckets under construction.
    pub fn pending_bar_count(&self) -> (r: usize)
        ensures
            r == self.buckets().len(),
    {
        self.bars.len()
    }

    /// Drops all buckets and quotes.
    pub fn clear(&mut self)
        requires
            old(self).inv(),
        ensures
            final(self).inv(),
            final(self).buckets().len() == 0,
            final(self).qs().len() == 0,
    {
        self.bars.clear();
        self.quotes.clear();
    }

    /// Drops quotes stamped before `keep_after_ts`.
    pub fn prune_quotes(&mut self, keep_after_ts: TimestampMs)
        requires
            old(self).inv(),
        ensures
            final(self).inv(),
            final(self).buckets() == old(self).buckets(),
            forall|i: int|
                0 <= i < final(self).qs().len() ==> (#[trigger] final(self).qs()[i]).ts_ms
                    >= keep_after_ts,
    {
        let ghost qs0 = self.quotes@;
        let n = self.quotes.len();
        let mut idx: usize = 0;
        while idx < n && self.quotes[idx].ts_ms < keep_after_ts
            invariant
                n == self.quotes@.len(),
                self.quotes@ == qs0,
                0 <= idx <= n,
                forall|j: int| 0 <= j < idx ==> (#[trigger] qs0[j]).ts_ms < keep_after_ts,
                quotes_sorted(qs0),
            decreases n - idx,
        {
            idx = idx + 1;
        }
        let tail = self.quotes.split_off(idx);
        self.quotes = tail;
        proof {
            assert forall|i: int| 0 <= i < self.quotes@.len() implies (
            #[trigger] self.quotes@[i]).ts_ms >= keep_after_ts && self.quotes@[i].wf() by {
                assert(self.quotes@[i] == qs0[idx + i]);
                assert(idx < n);
                assert(qs0[idx as int].ts_ms >= keep_after_ts);
                if i > 0 {
                    assert(qs0[idx as int].ts_ms <= qs0[idx + i].ts_ms);
                }
            }
            assert forall|i: int, j: int|
                0 <= i < j < self.quotes@.len() implies self.quotes@[i].ts_ms
                <= self.quotes@[j].ts_ms by {
                assert(self.quotes@[i] == qs0[idx + i] && self.quotes@[j] == qs0[idx + j]);
            }
        }
    }
}

} // verus!
