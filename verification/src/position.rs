//! Position tracking: the open position, partial exits, realized profit and
//! loss, and the record of closed trades.

use vstd::prelude::*;
use crate::math::div_trunc;
use crate::math::div_trunc_i128;
use crate::types::Fill;
use crate::types::PositionSide;
use crate::types::TimestampMs;
use crate::types::pos_sign;
use crate::types::valid_price;
use crate::types::FEE_ABS_MAX;
use crate::types::FUNDING_ABS_MAX;
use crate::types::PNL_ABS_MAX;
use crate::types::PRICE_MAX;
use crate::types::SIZE_MAX;

verus! {

/// Largest admitted accumulated funding total over a whole backtest.
pub const TOTAL_FUNDING_ABS_MAX: i128 = 1_000_000_000_000_000_000_000_000_000_000;

/// Reason a position, or part of one, was exited.
#[derive(Clone, Copy, Debug, PartialEq, Eq, Structural)]
pub enum ExitReason {
    /// Stop loss hit.
    StopLoss,
    /// First take-profit, a partial exit.
    TakeProfit1,
    /// Second take-profit, a full exit.
    TakeProfit2,
    /// Maximum hold time reached.
    TimeStop,
    /// An opposing entry signal closed the position.
    SignalFlip,
    /// Explicit exit request.
    Manual,
}

/// An open position.
pub struct Position {
    /// Entry timestamp.
    pub entry_ts: TimestampMs,
    /// Side of the position.
    pub side: PositionSide,
    /// Entry price, in price units.
    pub entry_price: i64,
    /// Remaining size, in size units; shrinks on partial exits.
    pub size: i64,
    /// Size at entry.
    pub original_size: i64,
    /// Stop price; `i64::MAX` disables the stop on a short.
    pub stop_price: i64,
    /// First take-profit price.
    pub tp1_price: Option<i64>,
    /// Second take-profit price.
    pub tp2_price: Option<i64>,
    /// Whether the first take-profit has been hit.
    pub tp1_hit: bool,
    /// Caller-chosen label for analytics.
    pub strategy_tag: String,
    /// Fees paid on entry, in price·size units.
    pub fees_paid: i128,
    /// Funding accrued so far, in price·size units.
    pub funding_paid: i128,
    /// Sizes exited so far, oldest first.
    pub closed_sizes: Ghost<Seq<int>>,
}

impl Position {
    /// A position the tracker admits. The sizes closed so far and the
    /// remaining size always account exactly for the size at entry.
    pub open spec fn wf(self) -> bool {
        &&& self.entry_ts >= 0
        &&& valid_price(self.entry_price)
        &&& 0 <= self.size <= self.original_size
        &&& 0 < self.original_size <= SIZE_MAX
        &&& self.stop_price >= 0
        &&& -FEE_ABS_MAX <= self.fees_paid <= FEE_ABS_MAX
        &&& -FUNDING_ABS_MAX <= self.funding_paid <= FUNDING_ABS_MAX
        &&& sum_int(self.closed_sizes@) == self.original_size - self.size
        &&& forall|i: int| 0 <= i < self.closed_sizes@.len() ==> 0 < #[trigger] self.closed_sizes@[i]
    }

    /// A freshly opened position: the remaining size is the original size,
    /// nothing has been closed, no take-profit has been hit, and no funding
    /// has accrued.
    pub fn new(
        entry_ts: TimestampMs,
        side: PositionSide,
        entry_price: i64,
        size: i64,
        stop_price: i64,
        tp1_price: Option<i64>,
        tp2_price: Option<i64>,
        strategy_tag: String,
        fees_paid: i128,
    ) -> (r: Position)
        requires
            entry_ts >= 0,
            valid_price(entry_price),
            0 < size <= SIZE_MAX,
            stop_price >= 0,
            -FEE_ABS_MAX <= fees_paid <= FEE_ABS_MAX,
        ensures
            r.wf(),
            r == (Position {
                entry_ts,
                side,
                entry_price,
                size,
                original_size: size,
                stop_price,
                tp1_price,
                tp2_price,
                tp1_hit: false,
                strategy_tag,
                fees_paid,
                funding_paid: 0i128,
                closed_sizes: Ghost(Seq::<int>::empty()),
            }),
    {
        Position {
            entry_ts,
            side,
            entry_price,
            size,
            original_size: size,
            stop_price,
            tp1_price,
            tp2_price,
            tp1_hit: false,
            strategy_tag,
            fees_paid,
            funding_paid: 0,
            closed_sizes: Ghost(Seq::<int>::empty()),
        }
    }

    /// An exact copy; the only non-`Copy` field is the tag string.
    pub fn duplicate(&self) -> (r: Position)
        ensures
            r == *self,
    {
        Position {
            entry_ts: self.entry_ts,
            side: self.side,
            entry_price: self.entry_price,
            size: self.size,
            original_size: self.original_size,
            stop_price: self.stop_price,
            tp1_price: self.tp1_price,
            tp2_price: self.tp2_price,
            tp1_hit: self.tp1_hit,
            strategy_tag: self.strategy_tag.clone(),
            fees_paid: self.fees_paid,
            funding_paid: self.funding_paid,
            closed_sizes: Ghost(self.closed_sizes@),
        }
    }

    /// Profit or loss if the remaining size were closed now at
    /// `current_price`, net of all fees and funding accrued so far.
    pub fn unrealized_pnl(&self, current_price: i64) -> (r: i128)
        requires
            self.wf(),
            valid_price(current_price),
        ensures
            r == pos_sign(self.side) * (current_price - self.entry_price) * self.size
                - self.fees_paid - self.funding_paid,
    {
        let diff: i64 = match self.side {
            PositionSide::Long => current_price - self.entry_price,
            PositionSide::Short => self.entry_price - current_price,
        };
        proof {
            assert(-(PRICE_MAX as int) * SIZE_MAX <= (diff as int) * (self.size as int)
                <= PRICE_MAX as int * SIZE_MAX) by (nonlinear_arith)
                requires -PRICE_MAX <= diff <= PRICE_MAX, 0 <= self.size <= SIZE_MAX
            ;
            assert(pos_sign(self.side) * (current_price - self.entry_price) * self.size
                == (diff as int) * (self.size as int)) by (nonlinear_arith)
                requires
                    diff == pos_sign(self.side) * (current_price - self.entry_price),
            ;
        }
        (diff as i128) * (self.size as i128) - self.fees_paid - self.funding_paid
    }

    /// Whether the bar range `[low, high]` touches the stop: at or below for
    /// a long, at or above for a short.
    pub fn is_stopped(&self, low: i64, high: i64) -> (r: bool)
        ensures
            r == match self.side {
                PositionSide::Long => low <= self.stop_price,
                PositionSide::Short => high >= self.stop_price,
            },
    {
        match self.side {
            PositionSide::Long => low <= self.stop_price,
            PositionSide::Short => high >= self.stop_price,
        }
    }

    /// Whether the first take-profit triggers on the bar range; never once it
    /// has already been hit.
    pub fn is_tp1_triggered(&self, low: i64, high: i64) -> (r: bool)
        ensures
            r == (!self.tp1_hit && match (self.side, self.tp1_price) {
                (PositionSide::Long, Some(tp)) => high >= tp,
                (PositionSide::Short, Some(tp)) => low <= tp,
                _ => false,
            }),
    {
        if self.tp1_hit {
            return false;
        }
        match (self.side, self.tp1_price) {
            (PositionSide::Long, Some(tp)) => high >= tp,
            (PositionSide::Short, Some(tp)) => low <= tp,
            _ => false,
        }
    }

    /// Whether the second take-profit triggers on the bar range.
    pub fn is_tp2_triggered(&self, low: i64, high: i64) -> (r: bool)
        ensures
            r == match (self.side, self.tp2_price) {
                (PositionSide::Long, Some(tp)) => high >= tp,
                (PositionSide::Short, Some(tp)) => low <= tp,
                _ => false,
            },
    {
        match (self.side, self.tp2_price) {
            (PositionSide::Long, Some(tp)) => high >= tp,
            (PositionSide::Short, Some(tp)) => low <= tp,
            _ => false,
        }
    }
}

/// A realized trade record.
pub struct ClosedTrade {
    /// Entry timestamp.
    pub entry_ts: TimestampMs,
    /// Exit timestamp.
    pub exit_ts: TimestampMs,
    /// Side of the position it came from.
    pub side: PositionSide,
    /// Entry price, in price units.
    pub entry_price: i64,
    /// Exit price, in price units.
    pub exit_price: i64,
    /// Size closed, in size units.
    pub size: i64,
    /// Realized profit or loss, net of fees and funding.
    pub pnl: i128,
    /// Fees attributed to this exit: the pro-rated entry fee plus the exit
    /// fee.
    pub fees: i128,
    /// Funding attributed to this exit.
    pub funding: i128,
    /// Why the exit happened.
    pub exit_reason: ExitReason,
    /// Label of the strategy that opened the position.
    pub strategy_tag: String,
}

impl ClosedTrade {
    /// A record the tracker emits.
    pub open spec fn wf(self) -> bool {
        &&& self.entry_ts >= 0
        &&& self.exit_ts >= 0
        &&& valid_price(self.entry_price)
        &&& valid_price(self.exit_price)
        &&& 0 < self.size <= SIZE_MAX
        &&& -PNL_ABS_MAX <= self.pnl <= PNL_ABS_MAX
        &&& -2 * FEE_ABS_MAX <= self.fees <= 2 * FEE_ABS_MAX
        &&& -FUNDING_ABS_MAX <= self.funding <= FUNDING_ABS_MAX
    }
}

/// Sum of a sequence of mathematical integers.
pub open spec fn sum_int(s: Seq<int>) -> int
    decreases s.len(),
{
    if s.len() == 0 {
        0
    } else {
        sum_int(s.drop_last()) + s.last()
    }
}

/// Sum of realized profit and loss over a trade record.
pub open spec fn sum_pnl(s: Seq<ClosedTrade>) -> int
    decreases s.len(),
{
    if s.len() == 0 {
        0
    } else {
        sum_pnl(s.drop_last()) + s.last().pnl
    }
}

/// Sum of attributed fees over a trade record.
pub open spec fn sum_fees(s: Seq<ClosedTrade>) -> int
    decreases s.len(),
{
    if s.len() == 0 {
        0
    } else {
        sum_fees(s.drop_last()) + s.last().fees
    }
}

/// Number of winning records: those with strictly positive profit.
pub open spec fn count_wins(s: Seq<ClosedTrade>) -> int
    decreases s.len(),
{
    if s.len() == 0 {
        0
    } else {
        count_wins(s.drop_last()) + if s.last().pnl > 0 { 1int } else { 0int }
    }
}

/// Sums of well-formed records are bounded by the record count.
pub proof fn lemma_sums_bounded(s: Seq<ClosedTrade>)
    requires
        forall|i: int| 0 <= i < s.len() ==> #[trigger] s[i].wf(),
    ensures
        -(s.len() as int) * PNL_ABS_MAX <= sum_pnl(s) <= (s.len() as int) * PNL_ABS_MAX,
        -(s.len() as int) * 2 * FEE_ABS_MAX <= sum_fees(s) <= (s.len() as int) * 2 * FEE_ABS_MAX,
        0 <= count_wins(s) <= s.len(),
    decreases s.len(),
{
    if s.len() > 0 {
        assert forall|i: int| 0 <= i < s.drop_last().len() implies #[trigger] s.drop_last()[i].wf() by {
            assert(s.drop_last()[i] == s[i]);
        }
        lemma_sums_bounded(s.drop_last());
        let n = s.len() as int;
        assert((n - 1) * PNL_ABS_MAX + PNL_ABS_MAX == n * PNL_ABS_MAX) by (nonlinear_arith);
        assert((n - 1) * 2 * FEE_ABS_MAX + 2 * FEE_ABS_MAX == n * 2 * FEE_ABS_MAX)
            by (nonlinear_arith);
        assert(s[s.len() - 1].wf());
    }
}

/// Tracks the single open position and every closed trade of a backtest.
pub struct PositionTracker {
    /// Current open position, if any.
    pub position: Option<Position>,
    /// Closed trades, oldest first.
    pub trades: Vec<ClosedTrade>,
    /// Total realized profit and loss.
    pub total_pnl: i128,
    /// Total fees attributed to closed trades.
    pub total_fees: i128,
    /// Total funding applied, both to open and to closed positions.
    pub total_funding: i128,
    /// Number of closed trades with positive profit.
    pub wins: u32,
    /// Number of closed trades with non-positive profit.
    pub losses: u32,
}

impl PositionTracker {
    /// The tracker's invariant: the running totals agree with the trade
    /// record, every record is well formed, and any open position is well
    /// formed with size left to close.
    pub open spec fn inv(self) -> bool {
        &&& match self.position {
            Some(p) => p.wf() && p.size > 0,
            None => true,
        }
        &&& self.trades@.len() <= u32::MAX
        &&& forall|i: int| 0 <= i < self.trades@.len() ==> #[trigger] self.trades@[i].wf()
        &&& self.total_pnl == sum_pnl(self.trades@)
        &&& self.total_fees == sum_fees(self.trades@)
        &&& -TOTAL_FUNDING_ABS_MAX <= self.total_funding <= TOTAL_FUNDING_ABS_MAX
        &&& self.wins == count_wins(self.trades@)
        &&& self.wins + self.losses == self.trades@.len()
    }

    /// An empty tracker: no position, no trades, all totals zero.
    pub fn new() -> (r: PositionTracker)
        ensures
            r.inv(),
            r.position is None,
            r.trades@.len() == 0,
            r.total_pnl == 0 && r.total_fees == 0 && r.total_funding == 0,
            r.wins == 0 && r.losses == 0,
    {
        PositionTracker {
            position: None,
            trades: Vec::new(),
            total_pnl: 0,
            total_fees: 0,
            total_funding: 0,
            wins: 0,
            losses: 0,
        }
    }

    /// Whether a position is open.
    pub fn has_position(&self) -> (r: bool)
        ensures
            r == (self.position is Some),
    {
        self.position.is_some()
    }

    /// Whether the open position is long.
    pub fn is_long(&self) -> (r: bool)
        ensures
            r == match self.position {
                Some(p) => p.side is Long,
                None => false,
            },
    {
        match &self.position {
            Some(p) => matches!(p.side, PositionSide::Long),
            None => false,
        }
    }

    /// Whether the open position is short.
    pub fn is_short(&self) -> (r: bool)
        ensures
            r == match self.position {
                Some(p) => p.side is Short,
                None => false,
            },
    {
        match &self.position {
            Some(p) => matches!(p.side, PositionSide::Short),
            None => false,
        }
    }

    /// Opens a position from a fill: the fill's side, price and size, the
    /// given protective prices, and the fill's fee as the fees paid so far.
    /// Any previously open position is discarded.
    pub fn open_position(
        &mut self,
        fill: Fill,
        stop_price: i64,
        tp1: Option<i64>,
        tp2: Option<i64>,
        strategy_tag: String,
    )
        requires
            old(self).inv(),
            fill.wf(),
            stop_price >= 0,
        ensures
            final(self).inv(),
            final(self).position == Some(
                Position {
                    entry_ts: fill.ts_ms,
                    side: fill.side,
                    entry_price: fill.price,
                    size: fill.size,
                    original_size: fill.size,
                    stop_price,
                    tp1_price: tp1,
                    tp2_price: tp2,
                    tp1_hit: false,
                    strategy_tag,
                    fees_paid: fill.fee,
                    funding_paid: 0,
                    closed_sizes: Ghost(Seq::<int>::empty()),
                },
            ),
            final(self).trades == old(self).trades,
            final(self).total_pnl == old(self).total_pnl,
            final(self).total_fees == old(self).total_fees,
            final(self).total_funding == old(self).total_funding,
            final(self).wins == old(self).wins && final(self).losses == old(self).losses,
    {
        self.position = Some(
            Position {
                entry_ts: fill.ts_ms,
                side: fill.side,
                entry_price: fill.price,
                size: fill.size,
                original_size: fill.size,
                stop_price,
                tp1_price: tp1,
                tp2_price: tp2,
                tp1_hit: false,
                strategy_tag,
                fees_paid: fill.fee,
                funding_paid: 0,
                closed_sizes: Ghost(Seq::<int>::empty()),
            },
        );
    }

    /// Closes `size` units of the open position at `exit_price`.
    ///
    /// The realized profit is the signed price difference over the closed
    /// size, less the entry fee and funding pro-rated by closed share of the
    /// original size, less the exit fee. The record is appended, the totals
    /// and the win/loss counters are updated, and the position shrinks by
    /// `size`; when nothing remains it is cleared, at which point the sizes
    /// closed over the position's life sum exactly to its original size.
    /// Returns `None`, changing nothing, when no position is open.
    pub fn close_position(
        &mut self,
        ts_ms: TimestampMs,
        exit_price: i64,
        size: i64,
        exit_fee: i128,
        reason: ExitReason,
    ) -> (r: Option<ClosedTrade>)
        requires
            old(self).inv(),
            ts_ms >= 0,
            valid_price(exit_price),
            -FEE_ABS_MAX <= exit_fee <= FEE_ABS_MAX,
            old(self).trades@.len() < u32::MAX,
            -TOTAL_FUNDING_ABS_MAX + FUNDING_ABS_MAX <= old(self).total_funding
                <= TOTAL_FUNDING_ABS_MAX - FUNDING_ABS_MAX,
            match old(self).position {
                Some(p) => 0 < size <= p.size,
                None => true,
            },
        ensures
            final(self).inv(),
            r is Some <==> old(self).position is Some,
            match old(self).position {
                Some(p) => {
                    let pnl = pos_sign(p.side) * (exit_price - p.entry_price) * size
                        - div_trunc(p.fees_paid as int * size as int, p.original_size as int)
                        - div_trunc(p.funding_paid as int * size as int, p.original_size as int)
                        - exit_fee;
                    let fees = div_trunc(p.fees_paid as int * size as int, p.original_size as int)
                        + exit_fee;
                    let funding = div_trunc(
                        p.funding_paid as int * size as int,
                        p.original_size as int,
                    );
                    &&& r matches Some(t) && t.entry_ts == p.entry_ts && t.exit_ts == ts_ms
                        && t.side == p.side && t.entry_price == p.entry_price
                        && t.exit_price == exit_price && t.size == size && t.pnl == pnl
                        && t.fees == fees && t.funding == funding && t.exit_reason == reason
                        && t.strategy_tag == p.strategy_tag
                    &&& final(self).trades@ == old(self).trades@.push(
                        ClosedTrade {
                            entry_ts: p.entry_ts,
                            exit_ts: ts_ms,
                            side: p.side,
                            entry_price: p.entry_price,
                            exit_price,
                            size,
                            pnl: pnl as i128,
                            fees: fees as i128,
                            funding: funding as i128,
                            exit_reason: reason,
                            strategy_tag: p.strategy_tag,
                        },
                    )
                    &&& final(self).total_pnl == old(self).total_pnl + pnl
                    &&& final(self).total_fees == old(self).total_fees + fees
                    &&& final(self).total_funding == old(self).total_funding + funding
                    &&& if pnl > 0 {
                        final(self).wins == old(self).wins + 1 && final(self).losses == old(
                            self,
                        ).losses
                    } else {
                        final(self).losses == old(self).losses + 1 && final(self).wins == old(
                            self,
                        ).wins
                    }
                    &&& if size == p.size {
                        &&& final(self).position is None
                        &&& sum_int(p.closed_sizes@) + size == p.original_size
                    } else {
                        final(self).position matches Some(q) && q == Position {
                            size: (p.size - size) as i64,
                            closed_sizes: Ghost(p.closed_sizes@.push(size as int)),
                            ..p
                        }
                    }
                },
                None => *final(self) == *old(self),
            },
    {
        let p: Position = match &self.position {
            Some(pp) => pp.duplicate(),
            None => {
                return None;
            },
        };

        let diff: i64 = match p.side {
            PositionSide::Long => exit_price - p.entry_price,
            PositionSide::Short => p.entry_price - exit_price,
        };
        proof {
            assert(-(PRICE_MAX as int) * SIZE_MAX <= (diff as int) * (size as int)
                <= PRICE_MAX as int * SIZE_MAX) by (nonlinear_arith)
                requires -PRICE_MAX <= diff <= PRICE_MAX, 0 <= size <= SIZE_MAX
            ;
            assert(pos_sign(p.side) * (exit_price - p.entry_price) * size
                == (diff as int) * (size as int)) by (nonlinear_arith)
                requires diff == pos_sign(p.side) * (exit_price - p.entry_price)
            ;
            lemma_prorata_bounded(p.fees_paid as int, size as int, p.original_size as int, FEE_ABS_MAX as int);
            lemma_prorata_bounded(p.funding_paid as int, size as int, p.original_size as int, FUNDING_ABS_MAX as int);
            assert(-(FEE_ABS_MAX * SIZE_MAX as i128) <= p.fees_paid * (size as i128)
                <= FEE_ABS_MAX * SIZE_MAX as i128) by (nonlinear_arith)
                requires
                    -FEE_ABS_MAX <= p.fees_paid <= FEE_ABS_MAX,
                    0 <= size <= SIZE_MAX,
            ;
            assert(-(FUNDING_ABS_MAX * SIZE_MAX as i128) <= p.funding_paid * (size as i128)
                <= FUNDING_ABS_MAX * SIZE_MAX as i128) by (nonlinear_arith)
                requires
                    -FUNDING_ABS_MAX <= p.funding_paid <= FUNDING_ABS_MAX,
                    0 <= size <= SIZE_MAX,
            ;
        }
        let pnl_raw: i128 = (diff as i128) * (size as i128);
        let fee_portion: i128 = div_trunc_i128(p.fees_paid * (size as i128), p.original_size as i128);
        let funding_portion: i128 = div_trunc_i128(
            p.funding_paid * (size as i128),
            p.original_size as i128,
        );
        let pnl: i128 = pnl_raw - fee_portion - funding_portion - exit_fee;
        let fees: i128 = fee_portion + exit_fee;

        let trade = ClosedTrade {
            entry_ts: p.entry_ts,
            exit_ts: ts_ms,
            side: p.side,
            entry_price: p.entry_price,
            exit_price,
            size,
            pnl,
            fees,
            funding: funding_portion,
            exit_reason: reason,
            strategy_tag: p.strategy_tag.clone(),
        };

        proof {
            assert(sum_pnl(self.trades@.push(trade)) == sum_pnl(self.trades@) + trade.pnl) by {
                assert(self.trades@.push(trade).drop_last() =~= self.trades@);
            }
            assert(sum_fees(self.trades@.push(trade)) == sum_fees(self.trades@) + trade.fees) by {
                assert(self.trades@.push(trade).drop_last() =~= self.trades@);
            }
            assert(count_wins(self.trades@.push(trade)) == count_wins(self.trades@)
                + if trade.pnl > 0 { 1int } else { 0int }) by {
                assert(self.trades@.push(trade).drop_last() =~= self.trades@);
            }
            lemma_sums_bounded(self.trades@);
        }

        self.total_pnl = self.total_pnl + pnl;
        self.total_fees = self.total_fees + fees;
        self.total_funding = self.total_funding + funding_portion;
        if pnl > 0 {
            self.wins = self.wins + 1;
        } else {
            self.losses = self.losses + 1;
        }
        let ret = ClosedTrade {
            entry_ts: trade.entry_ts,
            exit_ts: trade.exit_ts,
            side: trade.side,
            entry_price: trade.entry_price,
            exit_price: trade.exit_price,
            size: trade.size,
            pnl: trade.pnl,
            fees: trade.fees,
            funding: trade.funding,
            exit_reason: trade.exit_reason,
            strategy_tag: trade.strategy_tag.clone(),
        };
        self.trades.push(trade);

        let remaining: i64 = p.size - size;
        proof {
            let pushed = p.closed_sizes@.push(size as int);
            assert(pushed.drop_last() =~= p.closed_sizes@);
            assert(sum_int(pushed) == sum_int(p.closed_sizes@) + size);
            assert forall|i: int| 0 <= i < pushed.len() implies 0 < #[trigger] pushed[i] by {
                if i < p.closed_sizes@.len() {
                    assert(pushed[i] == p.closed_sizes@[i]);
                }
            }
        }
        if remaining == 0 {
            self.position = None;
        } else {
            self.position = Some(
                Position {
                    size: remaining,
                    closed_sizes: Ghost(p.closed_sizes@.push(size as int)),
                    ..p
                },
            );
        }

        Some(ret)
    }

    /// Moves the stop to the entry price and marks the first take-profit as
    /// hit; idempotent, and a no-op without a position.
    pub fn move_stop_to_breakeven(&mut self)
        requires
            old(self).inv(),
        ensures
            final(self).inv(),
            match old(self).position {
                Some(p) => final(self).position == Some(
                    Position { stop_price: p.entry_price, tp1_hit: true, ..p },
                ),
                None => final(self).position is None,
            },
            final(self).trades == old(self).trades,
            final(self).total_pnl == old(self).total_pnl,
            final(self).total_fees == old(self).total_fees,
            final(self).total_funding == old(self).total_funding,
            final(self).wins == old(self).wins && final(self).losses == old(self).losses,
    {
        match &mut self.position {
            Some(p) => {
                p.stop_price = p.entry_price;
                p.tp1_hit = true;
            },
            None => {},
        }
    }

    /// Adds a funding amount, positive when paid, to the open position (if
    /// any) and to the running total. The caller decides the sign.
    pub fn add_funding(&mut self, funding: i128)
        requires
            old(self).inv(),
            match old(self).position {
                Some(p) => -FUNDING_ABS_MAX <= p.funding_paid + funding <= FUNDING_ABS_MAX,
                None => true,
            },
            -TOTAL_FUNDING_ABS_MAX <= old(self).total_funding + funding <= TOTAL_FUNDING_ABS_MAX,
        ensures
            final(self).inv(),
            match old(self).position {
                Some(p) => final(self).position == Some(
                    Position { funding_paid: (p.funding_paid + funding) as i128, ..p },
                ),
                None => final(self).position is None,
            },
            final(self).total_funding == old(self).total_funding + funding,
            final(self).trades == old(self).trades,
            final(self).total_pnl == old(self).total_pnl,
            final(self).total_fees == old(self).total_fees,
            final(self).wins == old(self).wins && final(self).losses == old(self).losses,
    {
        match &mut self.position {
            Some(p) => {
                p.funding_paid = p.funding_paid + funding;
            },
            None => {},
        }
        self.total_funding = self.total_funding + funding;
    }

    /// Current equity: the starting capital plus all realized profit, which
    /// by the tracker's invariant equals the starting capital plus the sum of
    /// profit over every closed trade.
    pub fn equity(&self, starting_capital: i128) -> (r: i128)
        requires
            self.inv(),
            -10000000 * PNL_ABS_MAX <= starting_capital <= 10000000 * PNL_ABS_MAX,
        ensures
            r == starting_capital + self.total_pnl,
            r == starting_capital + sum_pnl(self.trades@),
    {
        proof {
            lemma_sums_bounded(self.trades@);
            assert((self.trades@.len() as int) * PNL_ABS_MAX <= 4294967295 * PNL_ABS_MAX)
                by (nonlinear_arith)
                requires self.trades@.len() <= u32::MAX
            ;
        }
        starting_capital + self.total_pnl
    }

    /// Win rate in basis points of all closed trades, 0 when there are none.
    pub fn win_rate(&self) -> (r: u64)
        requires
            self.inv(),
        ensures
            self.wins + self.losses > 0 ==> r == self.wins * 10000 / (self.wins + self.losses),
            self.wins + self.losses == 0 ==> r == 0,
    {
        let total: u64 = self.wins as u64 + self.losses as u64;
        if total > 0 {
            (self.wins as u64) * 10000 / total
        } else {
            0
        }
    }
}

/// A pro-rated share never exceeds the whole: for `0 <= s <= o`, the
/// truncated quotient `f * s / o` stays within `[-|f|, |f|]`, and within the
/// given bound on `f`.
pub proof fn lemma_prorata_bounded(f: int, s: int, o: int, bound: int)
    requires
        0 < o,
        0 <= s <= o,
        -bound <= f <= bound,
        0 <= bound,
    ensures
        -bound <= div_trunc(f * s, o) <= bound,
{
    if f >= 0 {
        assert(f * s <= f * o) by (nonlinear_arith)
            requires f >= 0, s <= o
        ;
        assert(f * s >= 0) by (nonlinear_arith)
            requires f >= 0, s >= 0
        ;
        assert(f * s / o <= f * o / o) by (nonlinear_arith)
            requires o > 0, f * s <= f * o
        ;
        assert(f * o / o == f) by (nonlinear_arith)
            requires o > 0
        ;
        assert(f * s / o >= 0) by (nonlinear_arith)
            requires o > 0, f * s >= 0
        ;
    } else {
        let m = -f;
        assert(m * s <= m * o) by (nonlinear_arith)
            requires m >= 0, s <= o
        ;
        assert(m * s >= 0) by (nonlinear_arith)
            requires m >= 0, s >= 0
        ;
        assert(m * s / o <= m * o / o) by (nonlinear_arith)
            requires o > 0, m * s <= m * o
        ;
        assert(m * o / o == m) by (nonlinear_arith)
            requires o > 0
        ;
        assert(m * s / o >= 0) by (nonlinear_arith)
            requires o > 0, m * s >= 0
        ;
        assert(f * s == -(m * s)) by (nonlinear_arith)
            requires m == -f
        ;
    }
}

/// Law: the sizes exited from a position so far never exceed its size at
/// entry, with equality exactly when nothing remains open.
pub proof fn lemma_closed_sizes_within_original(p: Position)
    requires
        p.wf(),
    ensures
        sum_int(p.closed_sizes@) <= p.original_size,
        sum_int(p.closed_sizes@) == p.original_size <==> p.size == 0,
{
}

} // verus!
