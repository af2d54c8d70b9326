//! Rolling volatility: the population standard deviation of fixed-point
//! returns over a sliding window.

use vstd::prelude::*;
use crate::math::div_trunc;
use crate::math::isqrt_u128;
use crate::math::sqrt_floor;
use crate::types::PRICE_MAX;
use crate::types::valid_price;

verus! {

/// One whole unit of return: returns are carried in millionths.
pub const RET_SCALE: i64 = 1_000_000;

/// Largest admitted single return, in millionths.
pub const RET_ABS_MAX: i64 = 1_000_000_000_000;

/// Largest admitted window, in observations.
pub const WINDOW_MAX: usize = 100_000;

/// The scaled relative return from `prev` to `p`: `(p - prev) / prev` in
/// millionths, truncated toward zero.
pub open spec fn ret_scaled(prev: int, p: int) -> int {
    div_trunc((p - prev) * (RET_SCALE as int), prev)
}

/// Sum of a sequence of returns.
pub open spec fn seq_sum(s: Seq<i64>) -> int
    decreases s.len(),
{
    if s.len() == 0 {
        0
    } else {
        seq_sum(s.drop_last()) + s.last()
    }
}

/// Sum of squares of a sequence of returns.
pub open spec fn seq_sum_sq(s: Seq<i64>) -> int
    decreases s.len(),
{
    if s.len() == 0 {
        0
    } else {
        seq_sum_sq(s.drop_last()) + s.last() * s.last()
    }
}

/// Every return lies within the admitted magnitude.
pub open spec fn rets_wf(s: Seq<i64>) -> bool {
    forall|i: int| 0 <= i < s.len() ==> -RET_ABS_MAX <= #[trigger] s[i] <= RET_ABS_MAX
}

/// Sums of admitted returns are bounded by the count.
pub proof fn lemma_ret_sums_bounded(s: Seq<i64>)
    requires
        rets_wf(s),
    ensures
        -(s.len() as int) * RET_ABS_MAX <= seq_sum(s) <= (s.len() as int) * RET_ABS_MAX,
        0 <= seq_sum_sq(s) <= (s.len() as int) * RET_ABS_MAX * RET_ABS_MAX,
    decreases s.len(),
{
    if s.len() > 0 {
        assert forall|i: int| 0 <= i < s.drop_last().len() implies -RET_ABS_MAX
            <= #[trigger] s.drop_last()[i] <= RET_ABS_MAX by {
            assert(s.drop_last()[i] == s[i]);
        }
        lemma_ret_sums_bounded(s.drop_last());
        let x = s.last() as int;
        assert(0 <= x * x <= RET_ABS_MAX as int * RET_ABS_MAX) by (nonlinear_arith)
            requires -RET_ABS_MAX <= x <= RET_ABS_MAX
        ;
        let n = s.len() as int;
        assert((n - 1) * RET_ABS_MAX as int * RET_ABS_MAX + RET_ABS_MAX as int * RET_ABS_MAX == n
            * RET_ABS_MAX as int * RET_ABS_MAX) by (nonlinear_arith);
    }
}

/// Dropping the oldest return removes exactly it from both sums.
proof fn lemma_ret_sums_remove_first(s: Seq<i64>)
    requires
        s.len() > 0,
    ensures
        seq_sum(s.remove(0)) == seq_sum(s) - s[0],
        seq_sum_sq(s.remove(0)) == seq_sum_sq(s) - s[0] * s[0],
        rets_wf(s) ==> rets_wf(s.remove(0)),
    decreases s.len(),
{
    if s.len() == 1 {
        assert(s.remove(0) =~= Seq::<i64>::empty());
        assert(s.drop_last() =~= Seq::<i64>::empty());
        assert(seq_sum(Seq::<i64>::empty()) == 0);
        assert(seq_sum_sq(Seq::<i64>::empty()) == 0);
    } else {
        assert(s.remove(0).drop_last() =~= s.drop_last().remove(0));
        assert(s.remove(0).last() == s.last());
        lemma_ret_sums_remove_first(s.drop_last());
        assert(s.drop_last()[0] == s[0]);
    }
    if rets_wf(s) {
        assert forall|i: int| 0 <= i < s.remove(0).len() implies -RET_ABS_MAX
            <= #[trigger] s.remove(0)[i] <= RET_ABS_MAX by {
            assert(s.remove(0)[i] == s[i + 1]);
        }
    }
}

/// The volatility a window of returns yields: the floor square root of the
/// population variance `sum_sq / n - (sum / n)^2`, computed exactly as
/// `isqrt(n * sum_sq - sum^2) / n`; 0 when the variance is non-positive,
/// nothing with fewer than two returns.
pub open spec fn vol_of(s: Seq<i64>) -> Option<i64> {
    let n = s.len() as int;
    if n < 2 {
        None
    } else {
        let a = n * seq_sum_sq(s) - seq_sum(s) * seq_sum(s);
        if a <= 0 {
            Some(0i64)
        } else {
            Some((sqrt_floor(a as nat) as int / n) as i64)
        }
    }
}

/// Rolling volatility over a bounded window of scaled returns.
pub struct RollingVolatility {
    /// Window length, in returns.
    window: usize,
    /// Retained returns, oldest first, in millionths.
    returns: Vec<i64>,
    /// Previous price, for the next return.
    prev_price: Option<i64>,
    /// Running sum of the retained returns.
    sum: i128,
    /// Running sum of their squares.
    sum_sq: i128,
}

impl RollingVolatility {
    /// The retained returns, oldest first.
    pub closed spec fn rets(self) -> Seq<i64> {
        self.returns@
    }

    /// The previous price.
    pub closed spec fn prev(self) -> Option<i64> {
        self.prev_price
    }

    /// The configured window length.
    pub closed spec fn win(self) -> int {
        self.window as int
    }

    /// The invariant: the running sums agree with the retained returns, all
    /// of which are admitted, and no more than a window of them is retained.
    pub open spec fn inv(self) -> bool {
        &&& 2 <= self.win() <= WINDOW_MAX
        &&& rets_wf(self.rets())
        &&& self.rets().len() <= self.win()
        &&& self.sum_spec() == seq_sum(self.rets())
        &&& self.sumsq_spec() == seq_sum_sq(self.rets())
        &&& match self.prev() {
            Some(p) => valid_price(p),
            None => true,
        }
    }

    /// The running sum.
    pub closed spec fn sum_spec(self) -> int {
        self.sum as int
    }

    /// The running sum of squares.
    pub closed spec fn sumsq_spec(self) -> int {
        self.sum_sq as int
    }

    /// An empty calculator over a window of at least two returns.
    pub fn new(window: usize) -> (r: RollingVolatility)
        requires
            2 <= window <= WINDOW_MAX,
        ensures
            r.inv(),
            r.win() == window,
            r.rets().len() == 0,
            r.prev() is None,
    {
        proof {
            assert(seq_sum(Seq::<i64>::empty()) == 0);
            assert(seq_sum_sq(Seq::<i64>::empty()) == 0);
        }
        RollingVolatility { window, returns: Vec::new(), prev_price: None, sum: 0, sum_sq: 0 }
    }

    /// Adds a price observation. With a previous positive price, the scaled
    /// return from it is appended, evicting the oldest return when the
    /// window is full; the price becomes the new previous price either way.
    /// Returns the volatility of the window after the update.
    pub fn add_price(&mut self, price: i64) -> (r: Option<i64>)
        requires
            old(self).inv(),
            valid_price(price),
            match old(self).prev() {
                Some(p) => valid_price(p) ==> -RET_ABS_MAX <= ret_scaled(p as int, price as int)
                    <= RET_ABS_MAX,
                None => true,
            },
        ensures
            final(self).inv(),
            final(self).win() == old(self).win(),
            final(self).prev() == Some(price),
            ({
                let had_ret = match old(self).prev() {
                    Some(p) => valid_price(p),
                    None => false,
                };
                if had_ret {
                    let ret = ret_scaled(old(self).prev()->Some_0 as int, price as int);
                    let evicted = if old(self).rets().len() >= old(self).win() {
                        old(self).rets().remove(0)
                    } else {
                        old(self).rets()
                    };
                    final(self).rets() == evicted.push(ret as i64)
                } else {
                    final(self).rets() == old(self).rets()
                }
            }),
            r == vol_of(final(self).rets()),
    {
        let has_prev: bool = match self.prev_price {
            Some(p) => p > 0,
            None => false,
        };
        if has_prev {
            let prev: i64 = match self.prev_price {
                Some(p) => p,
                None => 1,
            };
            let diff_pos: bool = price >= prev;
            let mag: i128 = if diff_pos {
                (price - prev) as i128
            } else {
                (prev - price) as i128
            };
            proof {
                assert(0 <= mag * (RET_SCALE as int) <= PRICE_MAX as int * RET_SCALE)
                    by (nonlinear_arith)
                    requires 0 <= mag <= PRICE_MAX as int
                ;
            }
            let q: i128 = (mag * (RET_SCALE as i128)) / (prev as i128);
            proof {
                crate::math::lemma_div_trunc_bounded(
                    mag * (RET_SCALE as int),
                    prev as int,
                    PRICE_MAX as int * RET_SCALE,
                );
            }
            let ret: i64 = if diff_pos {
                q as i64
            } else {
                -(q as i64)
            };
            proof {
                if !diff_pos {
                    assert((price - prev) * (RET_SCALE as int) == -(mag * (RET_SCALE as int)))
                        by (nonlinear_arith)
                        requires mag == prev - price
                    ;
                }
                assert(ret == ret_scaled(prev as int, price as int));
            }
            self.add_return(ret);
        }
        self.prev_price = Some(price);
        self.volatility()
    }

    /// Appends a return, evicting the oldest when the window is full.
    fn add_return(&mut self, ret: i64)
        requires
            old(self).inv(),
            -RET_ABS_MAX <= ret <= RET_ABS_MAX,
        ensures
            final(self).inv(),
            final(self).win() == old(self).win(),
            final(self).prev() == old(self).prev(),
            final(self).rets() == if old(self).rets().len() >= old(self).win() {
                old(self).rets().remove(0).push(ret)
            } else {
                old(self).rets().push(ret)
            },
    {
        proof {
            lemma_ret_sums_bounded(self.returns@);
        }
        if self.returns.len() >= self.window {
            proof {
                lemma_ret_sums_remove_first(self.returns@);
                let old_first = self.returns@[0];
                assert(-RET_ABS_MAX <= old_first <= RET_ABS_MAX);
                assert(0 <= old_first * old_first <= RET_ABS_MAX as int * RET_ABS_MAX)
                    by (nonlinear_arith)
                    requires -RET_ABS_MAX <= old_first <= RET_ABS_MAX
                ;
            }
            let old_ret = self.returns.remove(0);
            self.sum = self.sum - (old_ret as i128);
            self.sum_sq = self.sum_sq - (old_ret as i128) * (old_ret as i128);
            proof {
                lemma_ret_sums_bounded(self.returns@);
            }
        }
        proof {
            let pushed = self.returns@.push(ret);
            assert(pushed.drop_last() =~= self.returns@);
            assert(pushed.last() == ret);
            assert forall|i: int| 0 <= i < pushed.len() implies -RET_ABS_MAX <= #[trigger] pushed[i]
                <= RET_ABS_MAX by {
                if i < self.returns@.len() {
                    assert(pushed[i] == self.returns@[i]);
                }
            }
            assert(0 <= (ret as int) * (ret as int) <= RET_ABS_MAX as int * RET_ABS_MAX)
                by (nonlinear_arith)
                requires -RET_ABS_MAX <= ret <= RET_ABS_MAX
            ;
        }
        self.returns.push(ret);
        self.sum = self.sum + (ret as i128);
        self.sum_sq = self.sum_sq + (ret as i128) * (ret as i128);
    }

    /// The standard deviation of the retained returns, in millionths:
    /// nothing with fewer than two returns, 0 when exact arithmetic finds a
    /// non-positive variance.
    pub fn volatility(&self) -> (r: Option<i64>)
        requires
            self.inv(),
        ensures
            r == vol_of(self.rets()),
            match r {
                Some(v) => 0 <= v <= 200_000_000_000_000_000,
                None => self.rets().len() < 2,
            },
    {
        let n = self.returns.len();
        if n < 2 {
            return None;
        }
        proof {
            lemma_ret_sums_bounded(self.returns@);
            assert(self.sum == seq_sum(self.returns@));
            assert(self.sum_sq == seq_sum_sq(self.returns@));
            assert(-100_000_000_000_000_000i128 <= self.sum <= 100_000_000_000_000_000i128);
            assert(0 <= self.sum_sq
                <= 100_000_000_000_000_000_000_000_000_000i128);
            assert((self.sum as int) * (self.sum as int)
                <= 10_000_000_000_000_000_000_000_000_000_000_000) by (nonlinear_arith)
                requires
                    -100_000_000_000_000_000 <= self.sum as int <= 100_000_000_000_000_000,
            ;
            assert((self.sum as int) * (self.sum as int) >= 0) by (nonlinear_arith);
            assert(0 <= (n as int) * (self.sum_sq as int)
                <= 10_000_000_000_000_000_000_000_000_000_000_000) by (nonlinear_arith)
                requires
                    0 <= self.sum_sq as int <= 100_000_000_000_000_000_000_000_000_000,
                    2 <= n <= 100_000,
            ;
        }
        let a: i128 = (n as i128) * self.sum_sq - self.sum * self.sum;
        if a <= 0 {
            Some(0)
        } else {
            let root: u128 = isqrt_u128(a as u128);
            proof {
                crate::math::lemma_sqrt_floor_bounds(a as nat);
                let rt = sqrt_floor(a as nat) as int;
                assert(rt <= 200_000_000_000_000_000) by (nonlinear_arith)
                    requires
                        rt >= 0,
                        rt * rt <= a,
                        a <= 20_000_000_000_000_000_000_000_000_000_000_000,
                ;
            }
            let v: u128 = root / (n as u128);
            proof {
                assert(root / (n as u128) <= root) by (nonlinear_arith)
                    requires n >= 1
                ;
            }
            Some(v as i64)
        }
    }

    /// Whether the window is full.
    pub fn is_ready(&self) -> (r: bool)
        ensures
            r == (self.rets().len() >= self.win()),
    {
        self.returns.len() >= self.window
    }

    /// Number of retained returns.
    pub fn count(&self) -> (r: usize)
        ensures
            r == self.rets().len(),
    {
        self.returns.len()
    }

    /// Drops all state.
    pub fn clear(&mut self)
        requires
            old(self).inv(),
        ensures
            final(self).inv(),
            final(self).win() == old(self).win(),
            final(self).rets().len() == 0,
            final(self).prev() is None,
    {
        self.returns.clear();
        self.prev_price = None;
        self.sum = 0;
        self.sum_sq = 0;
        proof {
            assert(seq_sum(Seq::<i64>::empty()) == 0);
            assert(seq_sum_sq(Seq::<i64>::empty()) == 0);
        }
    }
}

} // verus!
