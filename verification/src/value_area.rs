//! Value Area computation: point of control, value-area high and low from a
//! sorted volume histogram.

use vstd::prelude::*;
use crate::math::div_trunc;
use crate::math::div_trunc_i128;
use crate::types::ValueArea;
use crate::types::PRICE_MAX;

verus! {

/// Largest admitted total volume of a histogram handed to the computer, in
/// size units.
pub const HIST_VOL_MAX: i128 = 1_000_000_000_000_000_000_000_000_000_000_000;

/// One histogram bin: the lower edge of its price range and the volume that
/// traded inside it.
#[derive(Clone, Copy, Debug, PartialEq, Eq, Structural)]
pub struct BinVol {
    /// Lower price edge of the bin, in price units.
    pub price: i64,
    /// Volume in the bin, in size units.
    pub volume: i128,
}

/// Bins in strictly increasing price order.
pub open spec fn bins_sorted(s: Seq<BinVol>) -> bool {
    forall|i: int, j: int| 0 <= i < j < s.len() ==> #[trigger] s[i].price < #[trigger] s[j].price
}

/// Every bin holds a non-negative volume and a price on the admitted grid.
pub open spec fn bins_wf(s: Seq<BinVol>) -> bool {
    forall|i: int|
        0 <= i < s.len() ==> 0 <= #[trigger] s[i].volume && 0 <= s[i].price <= PRICE_MAX
}

/// Total volume over the whole histogram.
pub open spec fn total_vol(s: Seq<BinVol>) -> int
    decreases s.len(),
{
    if s.len() == 0 {
        0
    } else {
        total_vol(s.drop_last()) + s.last().volume
    }
}

/// Volume over the inclusive index window `[lo, hi]`.
pub open spec fn range_vol(s: Seq<BinVol>, lo: int, hi: int) -> int
    decreases hi - lo,
{
    if lo == hi {
        s[lo].volume as int
    } else if lo < hi {
        s[lo].volume + range_vol(s, lo + 1, hi)
    } else {
        0
    }
}

/// Index of the bin holding the most volume, first occurrence on ties.
pub open spec fn first_max_idx(s: Seq<BinVol>) -> int
    decreases s.len(),
{
    if s.len() <= 1 {
        0
    } else {
        let r = first_max_idx(s.drop_last());
        if s.last().volume > s[r].volume {
            s.len() - 1
        } else {
            r
        }
    }
}

/// The first-max index is a valid index whose volume no bin exceeds, and no
/// earlier bin matches.
pub proof fn lemma_first_max(s: Seq<BinVol>)
    requires
        s.len() > 0,
    ensures
        0 <= first_max_idx(s) < s.len(),
        forall|j: int| 0 <= j < s.len() ==> #[trigger] s[j].volume <= s[first_max_idx(s)].volume,
        forall|j: int|
            0 <= j < first_max_idx(s) ==> #[trigger] s[j].volume < s[first_max_idx(s)].volume,
    decreases s.len(),
{
    if s.len() > 1 {
        lemma_first_max(s.drop_last());
        assert forall|j: int| 0 <= j < s.drop_last().len() implies s.drop_last()[j] == s[j] by {}
    }
}

/// The value-area window: starting from `[lo, hi]` with accumulated volume
/// `cum`, repeatedly add the outside neighbor with the larger volume (the
/// lower one on ties, the only one at an edge) until `cum` reaches the
/// target, `10000 * cum >= va_bps * total`, or both edges are exhausted.
/// Returns the final `(lo, hi, cum)`.
pub open spec fn va_window(
    s: Seq<BinVol>,
    lo: int,
    hi: int,
    cum: int,
    va_bps: int,
    total: int,
) -> (int, int, int)
    decreases s.len() - (hi - lo),
{
    if !(0 <= lo <= hi < s.len()) {
        (lo, hi, cum)
    } else if 10000 * cum >= va_bps * total {
        (lo, hi, cum)
    } else if lo > 0 && hi < s.len() - 1 {
        if s[lo - 1].volume >= s[hi + 1].volume {
            va_window(s, lo - 1, hi, cum + s[lo - 1].volume, va_bps, total)
        } else {
            va_window(s, lo, hi + 1, cum + s[hi + 1].volume, va_bps, total)
        }
    } else if lo > 0 {
        va_window(s, lo - 1, hi, cum + s[lo - 1].volume, va_bps, total)
    } else if hi < s.len() - 1 {
        va_window(s, lo, hi + 1, cum + s[hi + 1].volume, va_bps, total)
    } else {
        (lo, hi, cum)
    }
}

/// Growing the window by one bin extends the window sum by that bin.
pub proof fn lemma_range_vol_extend_hi(s: Seq<BinVol>, lo: int, hi: int)
    requires
        0 <= lo <= hi,
        hi + 1 < s.len(),
    ensures
        range_vol(s, lo, hi + 1) == range_vol(s, lo, hi) + s[hi + 1].volume,
    decreases hi - lo,
{
    if lo < hi {
        lemma_range_vol_extend_hi(s, lo + 1, hi);
    } else {
        assert(range_vol(s, lo + 1, hi + 1) == s[hi + 1].volume);
    }
}

/// A window sum of non-negative bins never exceeds the total.
pub proof fn lemma_range_vol_le_total(s: Seq<BinVol>, lo: int, hi: int)
    requires
        bins_wf(s),
        0 <= lo <= hi < s.len(),
    ensures
        0 <= s[lo].volume <= range_vol(s, lo, hi),
        range_vol(s, lo, hi) <= total_vol(s),
    decreases s.len(),
{
    lemma_range_nonneg(s, lo, hi);
    lemma_total_is_range(s);
    lemma_range_sub(s, 0, s.len() - 1, lo, hi);
}

/// Every window sum of non-negative bins is non-negative and at least each
/// of its end bins.
proof fn lemma_range_nonneg(s: Seq<BinVol>, lo: int, hi: int)
    requires
        bins_wf(s),
        0 <= lo <= hi < s.len(),
    ensures
        s[lo].volume <= range_vol(s, lo, hi),
        range_vol(s, lo, hi) >= 0,
    decreases hi - lo,
{
    if lo < hi {
        lemma_range_nonneg(s, lo + 1, hi);
    }
}

/// The total is the window sum over all indices.
proof fn lemma_total_is_range(s: Seq<BinVol>)
    requires
        s.len() > 0,
    ensures
        total_vol(s) == range_vol(s, 0, s.len() - 1),
    decreases s.len(),
{
    if s.len() == 1 {
        assert(total_vol(s.drop_last()) == 0);
        assert(range_vol(s, 0, 0) == s[0].volume);
    } else {
        lemma_total_is_range(s.drop_last());
        lemma_range_eq_prefix(s, 0, s.len() - 2);
        lemma_range_vol_extend_hi(s, 0, s.len() - 2);
    }
}

/// A window sum that avoids the last bin equals the same window sum over the
/// shortened sequence.
proof fn lemma_range_eq_prefix(s: Seq<BinVol>, lo: int, hi: int)
    requires
        0 <= lo <= hi < s.len() - 1,
    ensures
        range_vol(s, lo, hi) == range_vol(s.drop_last(), lo, hi),
    decreases hi - lo,
{
    if lo < hi {
        lemma_range_eq_prefix(s, lo + 1, hi);
    }
}

/// A sub-window of non-negative bins sums to no more than the window.
proof fn lemma_range_sub(s: Seq<BinVol>, lo1: int, hi1: int, lo2: int, hi2: int)
    requires
        bins_wf(s),
        0 <= lo1 <= lo2 <= hi2 <= hi1 < s.len(),
    ensures
        range_vol(s, lo2, hi2) <= range_vol(s, lo1, hi1),
    decreases (lo2 - lo1) + (hi1 - hi2),
{
    if lo1 < lo2 {
        lemma_range_sub(s, lo1 + 1, hi1, lo2, hi2);
    } else if hi2 < hi1 {
        lemma_range_sub(s, lo1, hi1 - 1, lo2, hi2);
        lemma_range_vol_extend_hi(s, lo1, hi1 - 1);
    }
}

/// The window never shrinks, its volume is the window sum, and it stops
/// either covered or exhausted.
pub proof fn lemma_va_window(s: Seq<BinVol>, lo: int, hi: int, cum: int, va_bps: int, total: int)
    requires
        bins_wf(s),
        0 <= lo <= hi < s.len(),
        cum == range_vol(s, lo, hi),
    ensures
        ({
            let (l, h, c) = va_window(s, lo, hi, cum, va_bps, total);
            &&& 0 <= l <= lo
            &&& hi <= h < s.len()
            &&& c == range_vol(s, l, h)
            &&& (10000 * c >= va_bps * total || (l == 0 && h == s.len() - 1))
        }),
    decreases s.len() - (hi - lo),
{
    if 10000 * cum >= va_bps * total {
    } else if lo > 0 && hi < s.len() - 1 {
        if s[lo - 1].volume >= s[hi + 1].volume {
            lemma_va_window(s, lo - 1, hi, cum + s[lo - 1].volume, va_bps, total);
        } else {
            lemma_range_vol_extend_hi(s, lo, hi);
            lemma_va_window(s, lo, hi + 1, cum + s[hi + 1].volume, va_bps, total);
        }
    } else if lo > 0 {
        lemma_va_window(s, lo - 1, hi, cum + s[lo - 1].volume, va_bps, total);
    } else if hi < s.len() - 1 {
        lemma_range_vol_extend_hi(s, lo, hi);
        lemma_va_window(s, lo, hi + 1, cum + s[hi + 1].volume, va_bps, total);
    }
}

/// The value area of a sorted histogram at `bin_width` as a function of its
/// inputs: invalid with all-zero fields on fewer than `min_bins` bins or no
/// volume; otherwise built from the first-maximum bin and the expanded
/// window.
pub open spec fn va_of(s: Seq<BinVol>, bin_width: i64, va_fraction: i64, min_bins: u32) -> ValueArea {
    let total = total_vol(s);
    if s.len() < min_bins || total <= 0 {
        ValueArea {
            poc: 0i64,
            vah: 0i64,
            val: 0i64,
            coverage: 0i64,
            bin_count: 0u32,
            total_volume: 0i128,
            bin_width: 0i64,
            is_valid: false,
        }
    } else {
        let p = first_max_idx(s);
        let (lo, hi, cum) = va_window(
            s,
            p,
            p,
            s[p].volume as int,
            va_fraction as int,
            total,
        );
        ValueArea {
            poc: (s[p].price + bin_width / 2) as i64,
            vah: (s[hi].price + bin_width) as i64,
            val: s[lo].price,
            coverage: div_trunc(cum * 10000, total) as i64,
            bin_count: (hi - lo + 1) as u32,
            total_volume: total as i128,
            bin_width,
            is_valid: true,
        }
    }
}

/// Configuration of the value-area computer.
#[derive(Clone, Copy, Debug, PartialEq, Eq, Structural)]
pub struct ValueAreaConfig {
    /// Target coverage, in basis points of total volume.
    pub va_fraction: i64,
    /// Fewest bins on which a value area is reported.
    pub min_bins: u32,
}

impl ValueAreaConfig {
    /// An admissible configuration: a fraction between 0 and 100%.
    pub open spec fn wf(self) -> bool {
        0 < self.va_fraction <= 10000
    }
}

impl Default for ValueAreaConfig {
    /// 70% coverage over at least 20 bins.
    fn default() -> (r: ValueAreaConfig)
        ensures
            r.va_fraction == 7000,
            r.min_bins == 20,
            r.wf(),
    {
        ValueAreaConfig { va_fraction: 7000, min_bins: 20 }
    }
}

/// Computes the point of control and value area of a sorted histogram.
pub struct ValueAreaComputer {
    config: ValueAreaConfig,
}

impl ValueAreaComputer {
    /// The configuration the computer was built with.
    pub closed spec fn cfg(self) -> ValueAreaConfig {
        self.config
    }

    /// Builds a computer from an admissible configuration.
    pub fn new(config: ValueAreaConfig) -> (r: ValueAreaComputer)
        requires
            config.wf(),
        ensures
            r.cfg() == config,
    {
        ValueAreaComputer { config }
    }

    /// The value area of a histogram at `bin_width`.
    ///
    /// With fewer than `min_bins` bins or no volume the result is invalid
    /// with every numeric field zero. Otherwise the point of control is the
    /// midpoint of the first bin holding the most volume, the window grows
    /// outward from it toward the larger neighbor (lower on ties) until it
    /// covers the target fraction or exhausts the histogram, the value-area
    /// low is the lower edge of the lowest included bin and the high the
    /// upper edge of the highest. A valid result always has
    /// `val <= poc <= vah`, at least one included bin, and coverage of at
    /// least the target unless the whole histogram is included.
    pub fn compute(&self, histogram: &Vec<BinVol>, bin_width: i64) -> (r: ValueArea)
        requires
            self.cfg().wf(),
            bins_sorted(histogram@),
            bins_wf(histogram@),
            histogram@.len() <= u32::MAX,
            total_vol(histogram@) <= HIST_VOL_MAX,
            0 < bin_width <= PRICE_MAX,
        ensures
            r == va_of(histogram@, bin_width, self.cfg().va_fraction, self.cfg().min_bins),
            r.is_valid <==> (histogram@.len() >= self.cfg().min_bins && total_vol(histogram@) > 0),
            !r.is_valid ==> r == (ValueArea {
                poc: 0i64,
                vah: 0i64,
                val: 0i64,
                coverage: 0i64,
                bin_count: 0u32,
                total_volume: 0i128,
                bin_width: 0i64,
                is_valid: false,
            }),
            r.is_valid ==> ({
                let s = histogram@;
                let total = total_vol(s);
                let p = first_max_idx(s);
                let (lo, hi, cum) = va_window(
                    s,
                    p,
                    p,
                    s[p].volume as int,
                    self.cfg().va_fraction as int,
                    total,
                );
                &&& r.poc == s[p].price + bin_width / 2
                &&& r.val == s[lo].price
                &&& r.vah == s[hi].price + bin_width
                &&& r.coverage == div_trunc(cum * 10000, total)
                &&& r.bin_count == hi - lo + 1
                &&& r.total_volume == total
                &&& r.bin_width == bin_width
                &&& r.val <= r.poc <= r.vah
                &&& r.bin_count >= 1
                &&& (r.coverage >= self.cfg().va_fraction || (lo == 0 && hi == s.len() - 1))
            }),
    {
        let ghost s = histogram@;
        let n = histogram.len();
        if n < self.config.min_bins as usize {
            return ValueArea::invalid();
        }
        let total: i128 = sum_bins(histogram);
        if total <= 0 {
            return ValueArea::invalid();
        }
        let poc_idx: usize = poc_index(histogram);
        let (lo, hi, cum): (usize, usize, i128) = expand_window(
            histogram,
            poc_idx,
            self.config.va_fraction,
            total,
        );

        let val: i64 = histogram[lo].price;
        let vah: i64 = histogram[hi].price + bin_width;
        let poc: i64 = histogram[poc_idx].price + bin_width / 2;
        let coverage: i64 = div_trunc_i128(cum * 10000, total) as i64;
        proof {
            crate::math::lemma_div_trunc_bounded(cum * 10000, total as int, 10000);
            if lo < poc_idx {
                assert(s[lo as int].price < s[poc_idx as int].price);
            }
            if poc_idx < hi {
                assert(s[poc_idx as int].price < s[hi as int].price);
            }
            let va = self.config.va_fraction as int;
            assert(range_vol(s, poc_idx as int, poc_idx as int) == s[poc_idx as int].volume);
            lemma_va_window(
                s,
                poc_idx as int,
                poc_idx as int,
                s[poc_idx as int].volume as int,
                va,
                total as int,
            );
            if 10000 * (cum as int) >= va * total {
                assert((cum as int) * 10000 == 10000 * (cum as int)) by (nonlinear_arith);
                assert((cum as int) * 10000 / (total as int) >= va * (total as int) / (total as int))
                    by (nonlinear_arith)
                    requires total > 0, (cum as int) * 10000 >= va * (total as int)
                ;
                assert(va * (total as int) / (total as int) == va) by (nonlinear_arith)
                    requires total > 0
                ;
            }
        }

        ValueArea {
            poc,
            vah,
            val,
            coverage,
            bin_count: (hi - lo + 1) as u32,
            total_volume: total,
            bin_width,
            is_valid: true,
        }
    }
}

/// Total volume of a histogram.
pub(crate) fn sum_bins(histogram: &Vec<BinVol>) -> (r: i128)
    requires
        bins_wf(histogram@),
        total_vol(histogram@) <= HIST_VOL_MAX,
    ensures
        r == total_vol(histogram@),
        r >= 0,
{
    let ghost s = histogram@;
    let n = histogram.len();
    proof {
        lemma_total_prefix_nonneg(s, n as int);
        assert(s.subrange(0, n as int) =~= s);
        assert(total_vol(s.subrange(0, 0)) == 0);
    }
    let mut total: i128 = 0;
    let mut i: usize = 0;
    while i < n
        invariant
            n == s.len(),
            s == histogram@,
            bins_wf(s),
            0 <= i <= n,
            total == total_vol(s.subrange(0, i as int)),
            0 <= total <= total_vol(s) <= HIST_VOL_MAX,
        decreases n - i,
    {
        proof {
            let pre1 = s.subrange(0, i + 1);
            assert(pre1.drop_last() =~= s.subrange(0, i as int));
            assert(pre1.last() == s[i as int]);
            lemma_total_prefix_le(s, i + 1);
            lemma_total_prefix_nonneg(s, i + 1);
        }
        total = total + histogram[i].volume;
        i = i + 1;
    }
    proof {
        assert(s.subrange(0, n as int) =~= s);
    }
    total
}

/// Index of the first bin holding the most volume.
fn poc_index(histogram: &Vec<BinVol>) -> (r: usize)
    requires
        histogram@.len() > 0,
    ensures
        r == first_max_idx(histogram@),
        r < histogram@.len(),
{
    let ghost s = histogram@;
    let n = histogram.len();
    let mut poc_idx: usize = 0;
    let mut max_vol: i128 = histogram[0].volume;
    let mut j: usize = 1;
    while j < n
        invariant
            n == s.len(),
            s == histogram@,
            1 <= j <= n || (n == 0 && j == 1),
            0 <= poc_idx < j,
            poc_idx == first_max_idx(s.subrange(0, j as int)),
            poc_idx < n,
            max_vol == s[poc_idx as int].volume,
        decreases n - j,
    {
        proof {
            let pre1 = s.subrange(0, j + 1);
            assert(pre1.drop_last() =~= s.subrange(0, j as int));
            assert(pre1.last() == s[j as int]);
            assert(pre1[poc_idx as int] == s[poc_idx as int]);
        }
        if histogram[j].volume > max_vol {
            poc_idx = j;
            max_vol = histogram[j].volume;
        }
        j = j + 1;
    }
    proof {
        assert(s.subrange(0, n as int) =~= s);
    }
    poc_idx
}

/// Expands the value-area window outward from the point of control and
/// returns the window bounds with the accumulated volume.
fn expand_window(histogram: &Vec<BinVol>, poc_idx: usize, va_bps: i64, total: i128) -> (r: (
    usize,
    usize,
    i128,
))
    requires
        bins_wf(histogram@),
        poc_idx < histogram@.len(),
        0 < va_bps <= 10000,
        0 < total == total_vol(histogram@) <= HIST_VOL_MAX,
    ensures
        (r.0 as int, r.1 as int, r.2 as int) == va_window(
            histogram@,
            poc_idx as int,
            poc_idx as int,
            histogram@[poc_idx as int].volume as int,
            va_bps as int,
            total as int,
        ),
        r.0 <= poc_idx <= r.1 < histogram@.len(),
        0 <= r.2 <= total,
{
    let ghost s = histogram@;
    let n = histogram.len();
    proof {
        assert(0 <= (va_bps as int) * (total as int) <= 10000 * HIST_VOL_MAX)
            by (nonlinear_arith)
            requires 0 < va_bps <= 10000, 0 < total <= HIST_VOL_MAX
        ;
        lemma_range_vol_le_total(s, poc_idx as int, poc_idx as int);
    }
    let target_scaled: i128 = (va_bps as i128) * total;
    let mut lo: usize = poc_idx;
    let mut hi: usize = poc_idx;
    let mut cum: i128 = histogram[poc_idx].volume;
    while 10000 * cum < target_scaled && !(lo == 0 && hi == n - 1)
        invariant
            n == s.len(),
            s == histogram@,
            bins_wf(s),
            0 < total == total_vol(s) <= HIST_VOL_MAX,
            0 < va_bps <= 10000,
            0 <= lo <= poc_idx <= hi < n,
            target_scaled == (va_bps as int) * (total as int),
            cum == range_vol(s, lo as int, hi as int),
            0 <= cum <= total,
            va_window(s, lo as int, hi as int, cum as int, va_bps as int, total as int)
                == va_window(
                s,
                poc_idx as int,
                poc_idx as int,
                s[poc_idx as int].volume as int,
                va_bps as int,
                total as int,
            ),
        decreases n - (hi - lo),
    {
        let next_low: bool = if lo > 0 && hi < n - 1 {
            histogram[lo - 1].volume >= histogram[hi + 1].volume
        } else {
            lo > 0
        };
        if next_low {
            proof {
                lemma_range_vol_le_total(s, lo - 1, hi as int);
            }
            lo = lo - 1;
            cum = cum + histogram[lo].volume;
        } else {
            proof {
                lemma_range_vol_extend_hi(s, lo as int, hi as int);
                lemma_range_vol_le_total(s, lo as int, hi + 1);
            }
            hi = hi + 1;
            cum = cum + histogram[hi].volume;
        }
    }
    (lo, hi, cum)
}

/// A prefix sum of non-negative bins never exceeds the total.
proof fn lemma_total_prefix_le(s: Seq<BinVol>, k: int)
    requires
        bins_wf(s),
        0 <= k <= s.len(),
    ensures
        total_vol(s.subrange(0, k)) <= total_vol(s),
    decreases s.len() - k,
{
    if k < s.len() {
        lemma_total_prefix_le(s, k + 1);
        let pre1 = s.subrange(0, k + 1);
        assert(pre1.drop_last() =~= s.subrange(0, k));
        assert(pre1.last() == s[k]);
    } else {
        assert(s.subrange(0, k) =~= s);
    }
}

/// A prefix sum of non-negative bins is non-negative.
proof fn lemma_total_prefix_nonneg(s: Seq<BinVol>, k: int)
    requires
        bins_wf(s),
        0 <= k <= s.len(),
    ensures
        total_vol(s.subrange(0, k)) >= 0,
    decreases k,
{
    if k > 0 {
        lemma_total_prefix_nonneg(s, k - 1);
        let pre1 = s.subrange(0, k);
        assert(pre1.drop_last() =~= s.subrange(0, k - 1));
        assert(pre1.last() == s[k - 1]);
        assert(s[k - 1].volume >= 0);
    }
}

} // verus!
