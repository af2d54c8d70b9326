//! Trade side inference: aligns trades with the most recent quote at or
//! before them and infers buyer- or seller-initiation, with a tick-rule
//! fallback and zero-tick continuation.

use vstd::prelude::*;
use crate::math::div_trunc;
use crate::math::div_trunc_i128;
use crate::types::ClassifiedTrade;
use crate::types::Quote;
use crate::types::Trade;
use crate::types::TradeSide;
use crate::types::PRICE_MAX;
use crate::types::SIZE_MAX;
use crate::types::valid_price;

verus! {

/// Largest admitted total volume a classifier accounts, in size units.
pub const CLS_VOL_MAX: i128 = 1_000_000_000_000_000_000_000_000_000_000_000;

/// Largest admitted staleness cutoff, in milliseconds.
pub const STALENESS_LIMIT_MAX: i64 = 1_000_000_000_000;

/// Counters describing classification quality.
#[derive(Clone, Copy, Debug, PartialEq, Eq, Structural)]
pub struct ClassificationStats {
    /// Trades classified.
    pub total_trades: u64,
    /// Trades judged buyer-initiated.
    pub buy_trades: u64,
    /// Trades judged seller-initiated.
    pub sell_trades: u64,
    /// Trades left ambiguous.
    pub ambiguous_trades: u64,
    /// Total size processed.
    pub total_volume: i128,
    /// Buyer-initiated size.
    pub buy_volume: i128,
    /// Seller-initiated size.
    pub sell_volume: i128,
    /// Ambiguous size.
    pub ambiguous_volume: i128,
    /// Sum of per-trade staleness, each capped at ten times the cutoff.
    pub total_staleness_ms: i128,
    /// Trades whose quote was staler than the cutoff.
    pub stale_quote_trades: u64,
}

impl ClassificationStats {
    /// Consistent counters: the side counts partition the total, the side
    /// volumes sum to the total volume, and the staleness sum is bounded by
    /// the trade count times the cap.
    pub open spec fn wf(self, staleness_cap: int) -> bool {
        &&& self.total_trades == self.buy_trades + self.sell_trades + self.ambiguous_trades
        &&& self.total_volume == self.buy_volume + self.sell_volume + self.ambiguous_volume
        &&& 0 <= self.buy_volume && 0 <= self.sell_volume && 0 <= self.ambiguous_volume
        &&& self.total_volume <= CLS_VOL_MAX
        &&& 0 <= self.total_staleness_ms <= self.total_trades * staleness_cap
        &&& 0 <= staleness_cap <= 10 * STALENESS_LIMIT_MAX
        &&& self.stale_quote_trades <= self.total_trades
    }

    /// The all-zero counters.
    pub fn new() -> (r: ClassificationStats)
        ensures
            r == zero_stats(),
    {
        ClassificationStats {
            total_trades: 0,
            buy_trades: 0,
            sell_trades: 0,
            ambiguous_trades: 0,
            total_volume: 0,
            buy_volume: 0,
            sell_volume: 0,
            ambiguous_volume: 0,
            total_staleness_ms: 0,
            stale_quote_trades: 0,
        }
    }

    /// Share of ambiguous volume, in basis points; 0 without volume.
    pub fn ambiguous_frac(&self) -> (r: i64)
        requires
            self.total_volume <= CLS_VOL_MAX,
            0 <= self.ambiguous_volume <= self.total_volume,
        ensures
            self.total_volume > 0 ==> r == div_trunc(
                self.ambiguous_volume * 10000,
                self.total_volume as int,
            ),
            self.total_volume <= 0 ==> r == 0,
            0 <= r <= 10000,
    {
        if self.total_volume > 0 {
            proof {
                crate::math::lemma_div_trunc_bounded(
                    self.ambiguous_volume * 10000,
                    self.total_volume as int,
                    10000,
                );
            }
            div_trunc_i128(self.ambiguous_volume * 10000, self.total_volume) as i64
        } else {
            0
        }
    }

    /// Mean capped staleness per trade, in milliseconds; 0 without trades.
    pub fn avg_staleness_ms(&self) -> (r: i64)
        requires
            0 <= self.total_staleness_ms <= self.total_trades * (10 * STALENESS_LIMIT_MAX as int),
        ensures
            self.total_trades > 0 ==> r == self.total_staleness_ms as int / self.total_trades as int,
            self.total_trades == 0 ==> r == 0,
    {
        if self.total_trades > 0 {
            proof {
                crate::math::lemma_div_trunc_bounded(
                    self.total_staleness_ms as int,
                    self.total_trades as int,
                    10 * STALENESS_LIMIT_MAX as int,
                );
            }
            div_trunc_i128(self.total_staleness_ms, self.total_trades as i128) as i64
        } else {
            0
        }
    }

    /// Zeroes every counter.
    pub fn reset(&mut self)
        ensures
            *final(self) == zero_stats(),
    {
        *self = ClassificationStats::new();
    }
}

/// The all-zero counters.
pub open spec fn zero_stats() -> ClassificationStats {
    ClassificationStats {
        total_trades: 0u64,
        buy_trades: 0u64,
        sell_trades: 0u64,
        ambiguous_trades: 0u64,
        total_volume: 0i128,
        buy_volume: 0i128,
        sell_volume: 0i128,
        ambiguous_volume: 0i128,
        total_staleness_ms: 0i128,
        stale_quote_trades: 0u64,
    }
}

/// All quotes are admitted.
pub open spec fn quotes_wf(qs: Seq<Quote>) -> bool {
    forall|i: int| 0 <= i < qs.len() ==> (#[trigger] qs[i]).wf()
}

/// The most recently arrived quote stamped at or before `t`.
pub open spec fn find_q(qs: Seq<Quote>, t: int) -> Option<Quote>
    decreases qs.len(),
{
    if qs.len() == 0 {
        None
    } else if qs.last().ts_ms <= t {
        Some(qs.last())
    } else {
        find_q(qs.drop_last(), t)
    }
}

/// A found quote is stamped at or before the probe and is admitted.
pub proof fn lemma_find_q(qs: Seq<Quote>, t: int)
    requires
        quotes_wf(qs),
    ensures
        match find_q(qs, t) {
            Some(q) => q.ts_ms <= t && q.wf(),
            None => true,
        },
    decreases qs.len(),
{
    if qs.len() > 0 {
        assert(qs.last() == qs[qs.len() - 1]);
        if !(qs.last().ts_ms <= t) {
            assert forall|i: int| 0 <= i < qs.drop_last().len() implies (
            #[trigger] qs.drop_last()[i]).wf() by {
                assert(qs.drop_last()[i] == qs[i]);
            }
            lemma_find_q(qs.drop_last(), t);
        }
    }
}

/// The tick rule: strictly above the last trade price is a buy, strictly
/// below a sell, equal carries the last resolved side forward; with no last
/// price the side stays ambiguous.
pub open spec fn tick_side(last_px: Option<i64>, last_side: TradeSide, price: int) -> TradeSide {
    match last_px {
        Some(lp) => if price > lp {
            TradeSide::Buy
        } else if price < lp {
            TradeSide::Sell
        } else {
            last_side
        },
        None => TradeSide::Ambiguous,
    }
}

/// The side a trade resolves to: at or above the ask is a buy, at or below
/// the bid a sell, in between ambiguous with the tick rule as the enabled
/// fallback; without any quote, the tick rule alone when enabled.
pub open spec fn classify_side(
    q_opt: Option<Quote>,
    use_tick: bool,
    last_px: Option<i64>,
    last_side: TradeSide,
    trade: Trade,
) -> TradeSide {
    match q_opt {
        Some(q) => {
            let base = if trade.price >= q.ask_px {
                TradeSide::Buy
            } else if trade.price <= q.bid_px {
                TradeSide::Sell
            } else {
                TradeSide::Ambiguous
            };
            if base is Ambiguous && use_tick {
                tick_side(last_px, last_side, trade.price as int)
            } else {
                base
            }
        },
        None => if use_tick {
            tick_side(last_px, last_side, trade.price as int)
        } else {
            TradeSide::Ambiguous
        },
    }
}


/// Number of maximal runs of equal timestamps in a trade sequence.
pub open spec fn count_groups(s: Seq<Trade>) -> int
    decreases s.len(),
{
    if s.len() == 0 {
        0
    } else if s.len() == 1 {
        1
    } else {
        count_groups(s.drop_last()) + if s[s.len() - 1].ts_ms == s[s.len() - 2].ts_ms {
            0int
        } else {
            1int
        }
    }
}

/// Total size over a trade sequence.
pub open spec fn sum_sizes_tr(s: Seq<Trade>) -> int
    decreases s.len(),
{
    if s.len() == 0 {
        0
    } else {
        sum_sizes_tr(s.drop_last()) + s.last().size
    }
}

/// Size of the maximal equal-timestamp run ending at `k`.
pub open spec fn group_sum_at(s: Seq<Trade>, k: int) -> int
    decreases k,
{
    if k <= 0 {
        s[0].size as int
    } else if s[k].ts_ms == s[k - 1].ts_ms {
        group_sum_at(s, k - 1) + s[k].size
    } else {
        s[k].size as int
    }
}

/// Size-weighted value of the maximal equal-timestamp run ending at `k`.
pub open spec fn group_val_at(s: Seq<Trade>, k: int) -> int
    decreases k,
{
    if k <= 0 {
        s[0].price * s[0].size
    } else if s[k].ts_ms == s[k - 1].ts_ms {
        group_val_at(s, k - 1) + s[k].price * s[k].size
    } else {
        s[k].price * s[k].size
    }
}



/// Prefix sizes of admitted trades never exceed the whole.
pub proof fn lemma_sum_sizes_prefix(s: Seq<Trade>, k: int)
    requires
        forall|i: int| 0 <= i < s.len() ==> (#[trigger] s[i]).wf(),
        0 <= k <= s.len(),
    ensures
        0 <= sum_sizes_tr(s.subrange(0, k)) <= sum_sizes_tr(s),
    decreases s.len() + k,
{
    if k > 0 {
        assert(s.subrange(0, k).drop_last() =~= s.subrange(0, k - 1));
        assert(s.subrange(0, k).last() == s[k - 1]);
        assert(s[k - 1].wf());
        lemma_sum_sizes_prefix(s, k - 1);
    }
    if k < s.len() {
        lemma_sum_sizes_suffix(s, k);
    }
}

/// Extending a prefix of admitted trades only adds size.
proof fn lemma_sum_sizes_suffix(s: Seq<Trade>, k: int)
    requires
        forall|i: int| 0 <= i < s.len() ==> (#[trigger] s[i]).wf(),
        0 <= k <= s.len(),
    ensures
        sum_sizes_tr(s.subrange(0, k)) <= sum_sizes_tr(s),
    decreases s.len() - k,
{
    if k < s.len() {
        assert(s.subrange(0, k + 1).drop_last() =~= s.subrange(0, k));
        assert(s.subrange(0, k + 1).last() == s[k]);
        assert(s[k].wf());
        lemma_sum_sizes_suffix(s, k + 1);
    } else {
        assert(s.subrange(0, k) =~= s);
    }
}

/// Index of the maximal equal-timestamp run that position `i` belongs to.
pub open spec fn run_idx(s: Seq<Trade>, i: int) -> int
    decreases i,
{
    if i <= 0 {
        0
    } else if s[i].ts_ms == s[i - 1].ts_ms {
        run_idx(s, i - 1)
    } else {
        run_idx(s, i - 1) + 1
    }
}

/// First price of the maximal equal-timestamp run ending at `e`.
pub open spec fn group_first_px(s: Seq<Trade>, e: int) -> int
    decreases e,
{
    if e <= 0 {
        s[0].price as int
    } else if s[e].ts_ms == s[e - 1].ts_ms {
        group_first_px(s, e - 1)
    } else {
        s[e].price as int
    }
}

/// The side carried forward through the records up to index `k`: the side of
/// the latest non-ambiguous record, or `init` when all are ambiguous.
pub open spec fn carried_side(r: Seq<ClassifiedTrade>, k: int, init: TradeSide) -> TradeSide
    decreases k + 1,
{
    if k < 0 {
        init
    } else if r[k].side is Ambiguous {
        carried_side(r, k - 1, init)
    } else {
        r[k].side
    }
}

/// The carried side depends only on the records up to `k`.
proof fn lemma_carried_prefix(r1: Seq<ClassifiedTrade>, r2: Seq<ClassifiedTrade>, k: int, init: TradeSide)
    requires
        forall|j: int| 0 <= j <= k ==> 0 <= j < r1.len() && 0 <= j < r2.len() && #[trigger] r1[j].side == r2[j].side,
    ensures
        carried_side(r1, k, init) == carried_side(r2, k, init),
    decreases k + 1,
{
    if k >= 0 {
        assert(r1[k].side == r2[k].side);
        if r1[k].side is Ambiguous {
            lemma_carried_prefix(r1, r2, k - 1, init);
        }
    }
}


/// The synthetic print of the maximal equal-timestamp run ending at `e`:
/// the shared timestamp, the truncated size-weighted average price (the
/// run's first price when the total size is zero), and the total size.
pub open spec fn run_print(s: Seq<Trade>, e: int) -> Trade {
    Trade {
        ts_ms: s[e].ts_ms,
        price: (if group_sum_at(s, e) > 0 {
            div_trunc(group_val_at(s, e), group_sum_at(s, e))
        } else {
            group_first_px(s, e)
        }) as i64,
        size: group_sum_at(s, e) as i64,
    }
}

/// Whether `e` is the last index of its equal-timestamp run.
pub open spec fn run_end(s: Seq<Trade>, e: int) -> bool {
    e == s.len() - 1 || s[e + 1].ts_ms != s[e].ts_ms
}

/// Record `k` of a batch result carries the synthetic print of run `k`.
pub open spec fn batch_record_ok(r: Seq<ClassifiedTrade>, k: int, s: Seq<Trade>) -> bool {
    exists|e: int|
        0 <= e < s.len() && #[trigger] run_idx(s, e) == k && run_end(s, e) && r[k].trade
            == run_print(s, e)
}

/// Record `k` of a batch result is classified like a single trade: against
/// the quote book, seeded with the previous record's price and the carried
/// side.
pub open spec fn batch_side_ok(
    r: Seq<ClassifiedTrade>,
    k: int,
    qs: Seq<Quote>,
    tick: bool,
    init_px: Option<i64>,
    init_side: TradeSide,
) -> bool {
    r[k].side == classify_side(
        find_q(qs, r[k].trade.ts_ms as int),
        tick,
        if k == 0 {
            init_px
        } else {
            Some(r[k - 1].trade.price)
        },
        carried_side(r, k - 1, init_side),
        r[k].trade,
    )
}

/// Appending one aggregated record preserves the batch's per-record
/// pinning: the new record's run witness, its side derivation from the
/// previous record, and the carried side.
proof fn lemma_batch_push(
    res0: Seq<ClassifiedTrade>,
    res1: Seq<ClassifiedTrade>,
    ct: ClassifiedTrade,
    ts0: Seq<Trade>,
    e0: int,
    qs: Seq<Quote>,
    tick: bool,
    init_px: Option<i64>,
    init_side: TradeSide,
)
    requires
        res1 == res0.push(ct),
        0 <= e0 < ts0.len(),
        run_idx(ts0, e0) == res0.len(),
        run_end(ts0, e0),
        ct.trade == run_print(ts0, e0),
        ct.side == classify_side(
            find_q(qs, ct.trade.ts_ms as int),
            tick,
            if res0.len() == 0 {
                init_px
            } else {
                Some(res0.last().trade.price)
            },
            carried_side(res0, res0.len() - 1, init_side),
            ct.trade,
        ),
        ct.quote_staleness_ms >= 0,
        forall|k: int| 0 <= k < res0.len() ==> (#[trigger] res0[k]).quote_staleness_ms >= 0,
        forall|k: int| 0 <= k < res0.len() ==> #[trigger] batch_record_ok(res0, k, ts0),
        forall|k: int|
            0 <= k < res0.len() ==> #[trigger] batch_side_ok(res0, k, qs, tick, init_px, init_side),
    ensures
        forall|k: int| 0 <= k < res1.len() ==> (#[trigger] res1[k]).quote_staleness_ms >= 0,
        forall|k: int| 0 <= k < res1.len() ==> #[trigger] batch_record_ok(res1, k, ts0),
        forall|k: int|
            0 <= k < res1.len() ==> #[trigger] batch_side_ok(res1, k, qs, tick, init_px, init_side),
        res1.len() > 0,
        res1.last() == ct,
        carried_side(res1, res1.len() - 1, init_side) == (if ct.side is Ambiguous {
            carried_side(res0, res0.len() - 1, init_side)
        } else {
            ct.side
        }),
{
    let k0 = res0.len() as int;
    assert(res1[k0] == ct);
    assert forall|j: int| 0 <= j < k0 implies #[trigger] res1[j] == res0[j] by {}
    assert forall|k: int| 0 <= k < res1.len() implies (#[trigger] res1[k]).quote_staleness_ms
        >= 0 by {
        if k < k0 {
            assert(res1[k] == res0[k]);
        }
    }
    assert forall|k: int| 0 <= k < res1.len() implies #[trigger] batch_record_ok(res1, k, ts0) by {
        if k < k0 {
            assert(batch_record_ok(res0, k, ts0));
            let e = choose|e: int|
                0 <= e < ts0.len() && #[trigger] run_idx(ts0, e) == k && run_end(ts0, e)
                    && res0[k].trade == run_print(ts0, e);
            assert(res1[k] == res0[k]);
            assert(run_idx(ts0, e) == k && run_end(ts0, e) && res1[k].trade == run_print(ts0, e));
        } else {
            assert(run_idx(ts0, e0) == k && run_end(ts0, e0) && res1[k].trade == run_print(
                ts0,
                e0,
            ));
        }
    }
    assert forall|k: int|
        0 <= k < res1.len() implies #[trigger] batch_side_ok(
        res1,
        k,
        qs,
        tick,
        init_px,
        init_side,
    ) by {
        lemma_carried_prefix(res1, res0, k - 1, init_side);
        if k < k0 {
            assert(batch_side_ok(res0, k, qs, tick, init_px, init_side));
            assert(res1[k] == res0[k]);
            if k > 0 {
                assert(res1[k - 1] == res0[k - 1]);
            }
        } else {
            if k0 > 0 {
                assert(res1[k0 - 1] == res0[k0 - 1]);
                assert(res0.last() == res0[k0 - 1]);
            }
        }
    }
    lemma_carried_prefix(res1, res0, k0 - 1, init_side);
}

/// There are never more runs than trades.
pub proof fn lemma_count_groups_le(s: Seq<Trade>)
    ensures
        0 <= count_groups(s) <= s.len(),
    decreases s.len(),
{
    if s.len() > 1 {
        lemma_count_groups_le(s.drop_last());
    }
}

/// Aligns trades with recent quotes and infers their side.
pub struct TradeClassifier {
    /// Staleness cutoff, in milliseconds.
    max_staleness_ms: i64,
    /// Whether the tick rule resolves ambiguous trades.
    use_tick_rule: bool,
    /// Recent quotes, in arrival order.
    quotes: Vec<Quote>,
    /// Most quotes retained.
    max_quotes: usize,
    /// Price of the last trade seen.
    last_trade_price: Option<i64>,
    /// Last non-ambiguous side.
    last_trade_side: TradeSide,
    /// Quality counters.
    stats: ClassificationStats,
}

impl TradeClassifier {
    /// The retained quotes, in arrival order.
    pub closed spec fn qs(self) -> Seq<Quote> {
        self.quotes@
    }

    /// The staleness cutoff.
    pub closed spec fn cutoff(self) -> int {
        self.max_staleness_ms as int
    }

    /// Whether the tick rule is enabled.
    pub closed spec fn tick_rule(self) -> bool {
        self.use_tick_rule
    }

    /// The last trade price.
    pub closed spec fn last_px(self) -> Option<i64> {
        self.last_trade_price
    }

    /// The last non-ambiguous side.
    pub closed spec fn last_side(self) -> TradeSide {
        self.last_trade_side
    }

    /// The counters.
    pub closed spec fn stats_spec(self) -> ClassificationStats {
        self.stats
    }

    /// The quote retention limit.
    pub closed spec fn max_q(self) -> int {
        self.max_quotes as int
    }

    /// The invariant: admitted quotes within the retention limit, a
    /// positive, bounded cutoff, and consistent counters.
    pub open spec fn inv(self) -> bool {
        &&& quotes_wf(self.qs())
        &&& 1 <= self.max_q() <= 1_000_000_000
        &&& self.qs().len() <= self.max_q()
        &&& 0 <= self.cutoff() <= STALENESS_LIMIT_MAX
        &&& self.stats_spec().wf(10 * self.cutoff())
        &&& match self.last_px() {
            Some(p) => valid_price(p),
            None => true,
        }
    }

    /// A classifier with no quotes, no last trade, and zero counters.
    pub fn new(max_staleness_ms: i64, use_tick_rule: bool) -> (r: TradeClassifier)
        requires
            0 <= max_staleness_ms <= STALENESS_LIMIT_MAX,
        ensures
            r.inv(),
            r.cutoff() == max_staleness_ms,
            r.tick_rule() == use_tick_rule,
            r.qs().len() == 0,
            r.last_px() is None,
            r.last_side() is Ambiguous,
            r.stats_spec() == zero_stats(),
    {
        TradeClassifier {
            max_staleness_ms,
            use_tick_rule,
            quotes: Vec::new(),
            max_quotes: 10000,
            last_trade_price: None,
            last_trade_side: TradeSide::Ambiguous,
            stats: ClassificationStats::new(),
        }
    }

    /// Appends a quote, evicting the oldest while the buffer is full.
    pub fn add_quote(&mut self, quote: Quote)
        requires
            old(self).inv(),
            quote.wf(),
        ensures
            final(self).inv(),
            final(self).cutoff() == old(self).cutoff(),
            final(self).tick_rule() == old(self).tick_rule(),
            final(self).last_px() == old(self).last_px(),
            final(self).last_side() == old(self).last_side(),
            final(self).stats_spec() == old(self).stats_spec(),
            final(self).qs().len() >= 1,
            final(self).qs().last() == quote,
    {
        while self.quotes.len() >= self.max_quotes
            invariant
                quotes_wf(self.quotes@),
                self.max_staleness_ms == old(self).max_staleness_ms,
                self.use_tick_rule == old(self).use_tick_rule,
                self.last_trade_price == old(self).last_trade_price,
                self.last_trade_side == old(self).last_trade_side,
                self.stats == old(self).stats,
                self.max_quotes == old(self).max_quotes,
                1 <= self.max_quotes <= 1_000_000_000,
                self.quotes@.len() >= 1 || self.quotes@.len() < self.max_quotes,
            decreases self.quotes@.len(),
        {
            let ghost vs0 = self.quotes@;
            let _ = self.quotes.remove(0);
            proof {
                assert forall|i: int| 0 <= i < self.quotes@.len() implies (
                #[trigger] self.quotes@[i]).wf() by {
                    assert(self.quotes@[i] == vs0[i + 1]);
                }
            }
        }
        let ghost vs1 = self.quotes@;
        self.quotes.push(quote);
        proof {
            assert forall|i: int| 0 <= i < self.quotes@.len() implies (
            #[trigger] self.quotes@[i]).wf() by {
                if i < vs1.len() {
                    assert(self.quotes@[i] == vs1[i]);
                }
            }
        }
    }

    /// The most recently arrived quote stamped at or before `ts_ms`.
    fn find_quote(&self, ts_ms: i64) -> (r: Option<Quote>)
        requires
            self.inv(),
        ensures
            r == find_q(self.qs(), ts_ms as int),
    {
        let ghost qs = self.quotes@;
        proof {
            assert(qs.subrange(0, qs.len() as int) =~= qs);
        }
        let mut i: usize = self.quotes.len();
        while i > 0
            invariant
                qs == self.qs(),
                self.inv(),
                0 <= i <= qs.len(),
                find_q(qs, ts_ms as int) == find_q(qs.subrange(0, i as int), ts_ms as int),
            decreases i,
        {
            proof {
                let pre = qs.subrange(0, i as int);
                assert(pre.drop_last() =~= qs.subrange(0, i - 1));
                assert(pre.last() == qs[i - 1]);
            }
            if self.quotes[i - 1].ts_ms <= ts_ms {
                return Some(self.quotes[i - 1]);
            }
            i = i - 1;
        }
        proof {
            assert(qs.subrange(0, 0) =~= Seq::<Quote>::empty());
        }
        None
    }

    /// Classifies one trade against the most recent quote at or before it.
    ///
    /// With a quote, a print at or above the ask is a buy and at or below
    /// the bid a sell; between them the tick rule resolves it when enabled.
    /// Without any quote the tick rule alone applies when enabled. The
    /// record carries the quote's prices and its staleness, which is never
    /// negative when a quote exists (`i64::MAX` marks the quoteless case).
    /// The trade becomes the new last trade; the resolved side is carried
    /// forward only when not ambiguous.
    pub fn classify(&mut self, trade: Trade) -> (r: ClassifiedTrade)
        requires
            old(self).inv(),
            trade.wf(),
            old(self).stats_spec().total_volume + trade.size <= CLS_VOL_MAX,
            old(self).stats_spec().total_trades < u64::MAX,
        ensures
            final(self).inv(),
            final(self).cutoff() == old(self).cutoff(),
            final(self).tick_rule() == old(self).tick_rule(),
            final(self).qs() == old(self).qs(),
            r.trade == trade,
            r.side == classify_side(
                find_q(old(self).qs(), trade.ts_ms as int),
                old(self).tick_rule(),
                old(self).last_px(),
                old(self).last_side(),
                trade,
            ),
            match find_q(old(self).qs(), trade.ts_ms as int) {
                Some(q) => {
                    &&& r.quote_bid_px == q.bid_px
                    &&& r.quote_ask_px == q.ask_px
                    &&& r.quote_staleness_ms == trade.ts_ms - q.ts_ms
                    &&& r.quote_staleness_ms >= 0
                },
                None => r.quote_bid_px == 0 && r.quote_ask_px == 0 && r.quote_staleness_ms
                    == i64::MAX,
            },
            final(self).last_px() == Some(trade.price),
            final(self).last_side() == if r.side is Ambiguous {
                old(self).last_side()
            } else {
                r.side
            },
            final(self).stats_spec().total_trades == old(self).stats_spec().total_trades + 1,
            final(self).stats_spec().total_volume == old(self).stats_spec().total_volume
                + trade.size,
            final(self).stats_spec().buy_trades == old(self).stats_spec().buy_trades + (
            if r.side is Buy {
                1int
            } else {
                0int
            }),
            final(self).stats_spec().sell_trades == old(self).stats_spec().sell_trades + (
            if r.side is Sell {
                1int
            } else {
                0int
            }),
            final(self).stats_spec().ambiguous_trades == old(self).stats_spec().ambiguous_trades
                + (if r.side is Ambiguous {
                1int
            } else {
                0int
            }),
            final(self).stats_spec().buy_volume == old(self).stats_spec().buy_volume + (
            if r.side is Buy {
                trade.size as int
            } else {
                0int
            }),
            final(self).stats_spec().sell_volume == old(self).stats_spec().sell_volume + (
            if r.side is Sell {
                trade.size as int
            } else {
                0int
            }),
            final(self).stats_spec().ambiguous_volume == old(self).stats_spec().ambiguous_volume
                + (if r.side is Ambiguous {
                trade.size as int
            } else {
                0int
            }),
            final(self).stats_spec().stale_quote_trades == old(
                self,
            ).stats_spec().stale_quote_trades + (
            match find_q(old(self).qs(), trade.ts_ms as int) {
                Some(q) => if trade.ts_ms - q.ts_ms > old(self).cutoff() {
                    1int
                } else {
                    0int
                },
                None => 0int,
            }),
    {
        proof {
            lemma_find_q(self.quotes@, trade.ts_ms as int);
        }
        let quote = self.find_quote(trade.ts_ms);

        let (side, quote_bid_px, quote_ask_px, staleness_ms): (TradeSide, i64, i64, i64) =
            match quote {
            Some(q) => {
                let staleness = trade.ts_ms - q.ts_ms;
                let is_stale = staleness > self.max_staleness_ms;

                let base: TradeSide = if trade.price >= q.ask_px {
                    TradeSide::Buy
                } else if trade.price <= q.bid_px {
                    TradeSide::Sell
                } else {
                    TradeSide::Ambiguous
                };

                let side: TradeSide = if matches!(base, TradeSide::Ambiguous)
                    && self.use_tick_rule {
                    match self.last_trade_price {
                        Some(last_price) => {
                            if trade.price > last_price {
                                TradeSide::Buy
                            } else if trade.price < last_price {
                                TradeSide::Sell
                            } else {
                                self.last_trade_side
                            }
                        },
                        None => TradeSide::Ambiguous,
                    }
                } else {
                    base
                };

                if is_stale {
                    self.stats.stale_quote_trades = self.stats.stale_quote_trades + 1;
                }

                (side, q.bid_px, q.ask_px, staleness)
            },
            None => {
                let side: TradeSide = if self.use_tick_rule {
                    match self.last_trade_price {
                        Some(last_price) => {
                            if trade.price > last_price {
                                TradeSide::Buy
                            } else if trade.price < last_price {
                                TradeSide::Sell
                            } else {
                                self.last_trade_side
                            }
                        },
                        None => TradeSide::Ambiguous,
                    }
                } else {
                    TradeSide::Ambiguous
                };
                (side, 0, 0, i64::MAX)
            },
        };

        // Update the counters.
        self.stats.total_trades = self.stats.total_trades + 1;
        self.stats.total_volume = self.stats.total_volume + (trade.size as i128);
        let cap: i64 = self.max_staleness_ms * 10;
        let capped: i64 = if staleness_ms < cap {
            staleness_ms
        } else {
            cap
        };
        proof {
            assert(0 <= capped <= 10 * self.max_staleness_ms);
            assert((self.stats.total_trades - 1) * (10 * self.cutoff()) + 10 * self.cutoff()
                == self.stats.total_trades * (10 * self.cutoff())) by (nonlinear_arith);
            assert(self.stats.total_trades * (10 * self.cutoff()) <= 18446744073709551615 * (10
                * STALENESS_LIMIT_MAX as int)) by (nonlinear_arith)
                requires
                    self.stats.total_trades <= 18446744073709551615u64,
                    0 <= 10 * self.cutoff() <= 10 * STALENESS_LIMIT_MAX as int,
            ;
        }
        self.stats.total_staleness_ms = self.stats.total_staleness_ms + (capped as i128);

        match side {
            TradeSide::Buy => {
                self.stats.buy_trades = self.stats.buy_trades + 1;
                self.stats.buy_volume = self.stats.buy_volume + (trade.size as i128);
            },
            TradeSide::Sell => {
                self.stats.sell_trades = self.stats.sell_trades + 1;
                self.stats.sell_volume = self.stats.sell_volume + (trade.size as i128);
            },
            TradeSide::Ambiguous => {
                self.stats.ambiguous_trades = self.stats.ambiguous_trades + 1;
                self.stats.ambiguous_volume = self.stats.ambiguous_volume + (trade.size as i128);
            },
        }

        self.last_trade_price = Some(trade.price);
        if !matches!(side, TradeSide::Ambiguous) {
            self.last_trade_side = side;
        }

        ClassifiedTrade { trade, side, quote_bid_px, quote_ask_px, quote_staleness_ms: staleness_ms }
    }


    /// Classifies a batch of trades, first aggregating each maximal run of
    /// trades sharing a timestamp into one synthetic print whose size is the
    /// run's total and whose price is its size-weighted average (the first
    /// price when the total size is zero). One record per run comes back, in
    /// order, and every record's staleness is non-negative.
    /// Classifies a batch of trades, first aggregating each maximal run of
    /// trades sharing a timestamp into one synthetic print whose size is the
    /// run's total and whose price is its size-weighted average, truncated
    /// (the first price when the total size is zero). One record per run
    /// comes back, in order; each record's print and side are pinned: the
    /// side follows the single-trade rule against the quote book, seeded
    /// with the previous record's price and the latest non-ambiguous side.
    #[verifier::rlimit(100)]
    pub fn classify_batch(&mut self, trades: Vec<Trade>) -> (r: Vec<ClassifiedTrade>)
        requires
            old(self).inv(),
            forall|i: int| 0 <= i < trades@.len() ==> (#[trigger] trades@[i]).wf(),
            forall|k: int| 0 <= k < trades@.len() ==> group_sum_at(trades@, k) <= SIZE_MAX,
            old(self).stats_spec().total_volume + sum_sizes_tr(trades@) <= CLS_VOL_MAX,
            old(self).stats_spec().total_trades + trades@.len() <= u64::MAX,
        ensures
            final(self).inv(),
            final(self).cutoff() == old(self).cutoff(),
            final(self).tick_rule() == old(self).tick_rule(),
            final(self).qs() == old(self).qs(),
            r@.len() == count_groups(trades@),
            forall|k: int| 0 <= k < r@.len() ==> (#[trigger] r@[k]).quote_staleness_ms >= 0,
            forall|k: int| 0 <= k < r@.len() ==> #[trigger] batch_record_ok(r@, k, trades@),
            forall|k: int|
                0 <= k < r@.len() ==> #[trigger] batch_side_ok(
                    r@,
                    k,
                    old(self).qs(),
                    old(self).tick_rule(),
                    old(self).last_px(),
                    old(self).last_side(),
                ),
            final(self).last_px() == (if r@.len() == 0 {
                old(self).last_px()
            } else {
                Some(r@.last().trade.price)
            }),
            final(self).last_side() == carried_side(
                r@,
                r@.len() - 1,
                old(self).last_side(),
            ),
    {
        let ghost ts0 = trades@;
        let ghost vol0 = self.stats.total_volume as int;
        let ghost cnt0 = self.stats.total_trades as int;
        let ghost init_px = old(self).last_px();
        let ghost init_side = old(self).last_side();
        let n = trades.len();
        let mut result: Vec<ClassifiedTrade> = Vec::new();
        if n == 0 {
            return result;
        }

        let mut cur_ts: i64 = 0;
        let mut cur_size: i64 = 0;
        let mut cur_val: i128 = 0;
        let mut cur_first: i64 = 1;
        let mut started: bool = false;
        let mut i: usize = 0;
        proof {
            assert(sum_sizes_tr(ts0.subrange(0, 0)) == 0);
        }
        while i < n
            invariant
                self.inv(),
                n == ts0.len(),
                trades@ == ts0,
                0 <= i <= n,
                forall|k: int| 0 <= k < ts0.len() ==> (#[trigger] ts0[k]).wf(),
                forall|k: int| 0 <= k < ts0.len() ==> group_sum_at(ts0, k) <= SIZE_MAX,
                vol0 + sum_sizes_tr(ts0) <= CLS_VOL_MAX,
                cnt0 + ts0.len() <= u64::MAX,
                self.cutoff() == old(self).cutoff(),
                self.tick_rule() == old(self).tick_rule(),
                self.qs() == old(self).qs(),
                init_px == old(self).last_px(),
                init_side == old(self).last_side(),
                started <==> i > 0,
                started ==> {
                    &&& cur_ts == ts0[i - 1].ts_ms
                    &&& cur_size == group_sum_at(ts0, i - 1)
                    &&& cur_val == group_val_at(ts0, i - 1)
                    &&& cur_first == group_first_px(ts0, i - 1)
                    &&& run_idx(ts0, i - 1) == result@.len()
                    &&& valid_price(cur_first)
                    &&& 0 <= cur_size <= SIZE_MAX
                    &&& cur_size <= cur_val <= cur_size * PRICE_MAX
                    &&& cur_ts >= 0
                },
                result@.len() + (if started { 1int } else { 0int }) == count_groups(
                    ts0.subrange(0, i as int),
                ),
                self.stats_spec().total_volume == vol0 + sum_sizes_tr(ts0.subrange(0, i as int))
                    - (if started { cur_size as int } else { 0int }),
                self.stats_spec().total_trades == cnt0 + result@.len(),
                forall|k: int| 0 <= k < result@.len() ==> (#[trigger] result@[k]).quote_staleness_ms
                    >= 0,
                forall|k: int|
                    0 <= k < result@.len() ==> #[trigger] batch_record_ok(result@, k, ts0),
                forall|k: int|
                    0 <= k < result@.len() ==> #[trigger] batch_side_ok(
                        result@,
                        k,
                        self.qs(),
                        self.tick_rule(),
                        init_px,
                        init_side,
                    ),
                self.last_px() == (if result@.len() == 0 {
                    init_px
                } else {
                    Some(result@.last().trade.price)
                }),
                self.last_side() == carried_side(result@, result@.len() - 1, init_side),
            decreases n - i,
        {
            proof {
                let pre1 = ts0.subrange(0, i + 1);
                assert(pre1.drop_last() =~= ts0.subrange(0, i as int));
                assert(pre1.last() == ts0[i as int]);
                assert(ts0[i as int].wf());
                assert(group_sum_at(ts0, i as int) <= SIZE_MAX);
                if i > 0 {
                    assert(pre1[i - 1] == ts0[i - 1]);
                }
                assert(0 <= ts0[i as int].price * ts0[i as int].size) by (nonlinear_arith)
                    requires ts0[i as int].price > 0, ts0[i as int].size >= 0
                ;
                assert(ts0[i as int].size <= ts0[i as int].price * ts0[i as int].size)
                    by (nonlinear_arith)
                    requires ts0[i as int].price >= 1, ts0[i as int].size >= 0
                ;
                assert(ts0[i as int].price * ts0[i as int].size <= PRICE_MAX as int * ts0[
                    i as int
                ].size) by (nonlinear_arith)
                    requires 0 < ts0[i as int].price <= PRICE_MAX, ts0[i as int].size >= 0
                ;
                if i > 0 && ts0[i as int].ts_ms == ts0[i - 1].ts_ms {
                    assert((cur_size as int + ts0[i as int].size) * PRICE_MAX as int == cur_size
                        as int * PRICE_MAX + ts0[i as int].size * PRICE_MAX) by (nonlinear_arith);
                    assert(ts0[i as int].price * ts0[i as int].size <= ts0[i as int].size
                        * PRICE_MAX) by (nonlinear_arith)
                        requires 0 < ts0[i as int].price <= PRICE_MAX, ts0[i as int].size >= 0
                    ;
                }
            }
            let t = trades[i];
            if started && t.ts_ms == cur_ts {
                cur_size = cur_size + t.size;
                cur_val = cur_val + (t.price as i128) * (t.size as i128);
            } else {
                if started {
                    proof {
                        lemma_count_groups_le(ts0.subrange(0, i as int));
                        lemma_sum_sizes_prefix(ts0, i as int);
                    }
                    let ghost res0 = result@;
                    let ct = self.flush_group(cur_ts, cur_size, cur_val, cur_first);
                    result.push(ct);
                    proof {
                        assert(ts0[i as int].ts_ms != ts0[i - 1].ts_ms);
                        lemma_batch_push(
                            res0,
                            result@,
                            ct,
                            ts0,
                            i - 1,
                            self.qs(),
                            self.tick_rule(),
                            init_px,
                            init_side,
                        );
                    }
                }
                cur_ts = t.ts_ms;
                cur_size = t.size;
                cur_val = (t.price as i128) * (t.size as i128);
                cur_first = t.price;
                started = true;
            }
            i = i + 1;
        }
        proof {
            assert(ts0.subrange(0, n as int) =~= ts0);
            lemma_count_groups_le(ts0);
        }
        let ghost res0 = result@;
        let ct = self.flush_group(cur_ts, cur_size, cur_val, cur_first);
        result.push(ct);
        proof {
            lemma_batch_push(
                res0,
                result@,
                ct,
                ts0,
                n - 1,
                self.qs(),
                self.tick_rule(),
                init_px,
                init_side,
            );
        }
        result
    }

    /// Classifies the synthetic print of one aggregated run: its total size
    /// at its size-weighted average price, or at the first price when the
    /// total size is zero.
    fn flush_group(&mut self, ts_ms: i64, size: i64, val: i128, first_price: i64) -> (r:
        ClassifiedTrade)
        requires
            old(self).inv(),
            ts_ms >= 0,
            0 <= size <= SIZE_MAX,
            valid_price(first_price),
            size <= val <= size * PRICE_MAX,
            old(self).stats_spec().total_volume + size <= CLS_VOL_MAX,
            old(self).stats_spec().total_trades < u64::MAX,
        ensures
            final(self).inv(),
            final(self).cutoff() == old(self).cutoff(),
            final(self).tick_rule() == old(self).tick_rule(),
            final(self).qs() == old(self).qs(),
            r.quote_staleness_ms >= 0,
            r.trade == (Trade {
                ts_ms,
                price: (if size > 0 {
                    div_trunc(val as int, size as int)
                } else {
                    first_price as int
                }) as i64,
                size,
            }),
            r.side == classify_side(
                find_q(old(self).qs(), ts_ms as int),
                old(self).tick_rule(),
                old(self).last_px(),
                old(self).last_side(),
                r.trade,
            ),
            final(self).last_px() == Some(r.trade.price),
            final(self).last_side() == if r.side is Ambiguous {
                old(self).last_side()
            } else {
                r.side
            },
            final(self).stats_spec().total_volume == old(self).stats_spec().total_volume + size,
            final(self).stats_spec().total_trades == old(self).stats_spec().total_trades + 1,
    {
        let vwap: i64 = if size > 0 {
            proof {
                crate::math::lemma_div_trunc_bounded(val as int, size as int, PRICE_MAX as int);
                assert(val as int / (size as int) >= (size as int) / (size as int))
                    by (nonlinear_arith)
                    requires size > 0, val >= size
                ;
                assert((size as int) / (size as int) == 1) by (nonlinear_arith)
                    requires size > 0
                ;
            }
            div_trunc_i128(val, size as i128) as i64
        } else {
            first_price
        };
        proof {
            lemma_find_q(self.quotes@, ts_ms as int);
        }
        let synthetic = Trade { ts_ms, price: vwap, size };
        self.classify(synthetic)
    }

    /// The counters so far.
    pub fn stats(&self) -> (r: ClassificationStats)
        ensures
            r == self.stats_spec(),
    {
        self.stats
    }

    /// Zeroes the counters.
    pub fn reset_stats(&mut self)
        requires
            old(self).inv(),
        ensures
            final(self).inv(),
            final(self).stats_spec() == zero_stats(),
            final(self).qs() == old(self).qs(),
            final(self).cutoff() == old(self).cutoff(),
            final(self).tick_rule() == old(self).tick_rule(),
            final(self).last_px() == old(self).last_px(),
            final(self).last_side() == old(self).last_side(),
    {
        self.stats.reset();
    }

    /// Drops quotes, the last trade and the counters.
    pub fn clear(&mut self)
        requires
            old(self).inv(),
        ensures
            final(self).inv(),
            final(self).cutoff() == old(self).cutoff(),
            final(self).tick_rule() == old(self).tick_rule(),
            final(self).qs().len() == 0,
            final(self).last_px() is None,
            final(self).last_side() is Ambiguous,
            final(self).stats_spec() == zero_stats(),
    {
        self.quotes.clear();
        self.last_trade_price = None;
        self.last_trade_side = TradeSide::Ambiguous;
        self.stats.reset();
    }
}

} // verus!
