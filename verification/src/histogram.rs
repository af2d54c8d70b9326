//! Rolling volume-at-price histogram: per-minute snapshots at a fixed base
//! bin, and an aggregate over the retained window that always carries exactly
//! the volume of the retained snapshots.

use vstd::prelude::*;
use crate::value_area::BinVol;
use crate::value_area::bins_sorted;
use crate::value_area::bins_wf;
use crate::value_area::total_vol;
use crate::value_area::HIST_VOL_MAX;
use crate::types::TimestampMs;
use crate::types::PRICE_MAX;
use crate::types::SIZE_MAX;
use crate::types::valid_price;

verus! {

/// Every bin holds strictly positive volume.
pub open spec fn bins_pos(s: Seq<BinVol>) -> bool {
    forall|i: int| 0 <= i < s.len() ==> #[trigger] s[i].volume > 0
}

/// The total of well-formed bins is non-negative.
pub proof fn lemma_total_nonneg(s: Seq<BinVol>)
    requires
        bins_wf(s),
    ensures
        total_vol(s) >= 0,
    decreases s.len(),
{
    if s.len() > 0 {
        assert forall|i: int| 0 <= i < s.drop_last().len() implies {
            0 <= #[trigger] s.drop_last()[i].volume && 0 <= s.drop_last()[i].price <= PRICE_MAX
        } by {
            assert(s.drop_last()[i] == s[i]);
            assert(0 <= s[i].volume);
        }
        lemma_total_nonneg(s.drop_last());
        assert(0 <= s[s.len() - 1].volume);
    }
}

/// No bin of a well-formed histogram exceeds its total.
pub proof fn lemma_elem_le_total(s: Seq<BinVol>, i: int)
    requires
        bins_wf(s),
        0 <= i < s.len(),
    ensures
        s[i].volume <= total_vol(s),
    decreases s.len(),
{
    assert forall|j: int| 0 <= j < s.drop_last().len() implies {
        0 <= #[trigger] s.drop_last()[j].volume && 0 <= s.drop_last()[j].price <= PRICE_MAX
    } by {
        assert(s.drop_last()[j] == s[j]);
        assert(0 <= s[j].volume);
    }
    if i == s.len() - 1 {
        lemma_total_nonneg(s.drop_last());
    } else {
        lemma_elem_le_total(s.drop_last(), i);
        assert(s.drop_last()[i] == s[i]);
        assert(0 <= s[s.len() - 1].volume);
    }
}


/// Volume held at one price across a histogram's bins.
pub open spec fn vol_at(s: Seq<BinVol>, price: int) -> int
    decreases s.len(),
{
    if s.len() == 0 {
        0
    } else {
        vol_at(s.drop_last(), price) + if s.last().price == price {
            s.last().volume as int
        } else {
            0int
        }
    }
}

/// Updating one bin's volume moves that price's held volume and no other.
proof fn lemma_vol_at_update(s: Seq<BinVol>, i: int, v: int, p: int)
    requires
        0 <= i < s.len(),
        i128::MIN <= s[i].volume + v <= i128::MAX,
    ensures
        vol_at(
            s.update(i, BinVol { price: s[i].price, volume: (s[i].volume + v) as i128 }),
            p,
        ) == vol_at(s, p) + if s[i].price == p {
            v
        } else {
            0int
        },
    decreases s.len(),
{
    let t = s.update(i, BinVol { price: s[i].price, volume: (s[i].volume + v) as i128 });
    assert(t.len() == s.len());
    assert(vol_at(t, p) == vol_at(t.drop_last(), p) + if t.last().price == p {
        t.last().volume as int
    } else {
        0int
    });
    assert(vol_at(s, p) == vol_at(s.drop_last(), p) + if s.last().price == p {
        s.last().volume as int
    } else {
        0int
    });
    if i == s.len() - 1 {
        assert(t.drop_last() =~= s.drop_last());
        assert(t.last() == (BinVol { price: s[i].price, volume: (s[i].volume + v) as i128 }));
    } else {
        assert(s.drop_last()[i] == s[i]);
        assert(t.drop_last() =~= s.drop_last().update(
            i,
            BinVol { price: s[i].price, volume: (s[i].volume + v) as i128 },
        ));
        assert(t.last() == s.last());
        lemma_vol_at_update(s.drop_last(), i, v, p);
    }
}

/// Inserting a bin adds its volume at its price and nothing elsewhere.
proof fn lemma_vol_at_insert(s: Seq<BinVol>, i: int, b: BinVol, p: int)
    requires
        0 <= i <= s.len(),
    ensures
        vol_at(s.insert(i, b), p) == vol_at(s, p) + if b.price == p {
            b.volume as int
        } else {
            0int
        },
    decreases s.len(),
{
    let t = s.insert(i, b);
    assert(t.len() == s.len() + 1);
    assert(vol_at(t, p) == vol_at(t.drop_last(), p) + if t.last().price == p {
        t.last().volume as int
    } else {
        0int
    });
    if i == s.len() {
        assert(t.drop_last() =~= s);
        assert(t.last() == b);
    } else {
        assert(vol_at(s, p) == vol_at(s.drop_last(), p) + if s.last().price == p {
            s.last().volume as int
        } else {
            0int
        });
        assert(t.drop_last() =~= s.drop_last().insert(i, b));
        assert(t.last() == s.last());
        lemma_vol_at_insert(s.drop_last(), i, b, p);
    }
}

/// A price held by no bin carries no volume.
pub proof fn lemma_vol_at_absent(s: Seq<BinVol>, p: int)
    requires
        forall|i: int| 0 <= i < s.len() ==> (#[trigger] s[i]).price != p,
    ensures
        vol_at(s, p) == 0,
    decreases s.len(),
{
    if s.len() > 0 {
        assert forall|i: int| 0 <= i < s.drop_last().len() implies (
        #[trigger] s.drop_last()[i]).price != p by {
            assert(s.drop_last()[i] == s[i]);
        }
        assert(s.last() == s[s.len() - 1]);
        lemma_vol_at_absent(s.drop_last(), p);
    }
}

/// In a sorted histogram each bin's price holds exactly that bin's volume.
pub proof fn lemma_vol_at_present(s: Seq<BinVol>, i: int)
    requires
        bins_sorted(s),
        0 <= i < s.len(),
    ensures
        vol_at(s, s[i].price as int) == s[i].volume,
    decreases s.len(),
{
    let p = s[i].price as int;
    if i == s.len() - 1 {
        assert forall|j: int| 0 <= j < s.drop_last().len() implies (
        #[trigger] s.drop_last()[j]).price != p by {
            assert(s.drop_last()[j] == s[j]);
            assert(s[j].price < s[i].price);
        }
        lemma_vol_at_absent(s.drop_last(), p);
        assert(s.last() == s[i]);
    } else {
        assert forall|x: int, y: int|
            0 <= x < y < s.drop_last().len() implies (#[trigger] s.drop_last()[x]).price < (
        #[trigger] s.drop_last()[y]).price by {
            assert(s.drop_last()[x] == s[x] && s.drop_last()[y] == s[y]);
        }
        assert(s.drop_last()[i] == s[i]);
        lemma_vol_at_present(s.drop_last(), i);
        assert(s.last() == s[s.len() - 1]);
        assert(s[i].price < s[s.len() - 1].price);
    }
}

/// Volume by price bin for one minute.
pub struct MinuteVolume {
    /// Minute boundary timestamp.
    pub ts_min: TimestampMs,
    /// Volume by bin, sorted by price.
    pub bins: Vec<BinVol>,
}

/// Volume held at one price across a sequence of minute snapshots.
pub open spec fn minutes_vol_at(ms: Seq<MinuteVolume>, p: int) -> int
    decreases ms.len(),
{
    if ms.len() == 0 {
        0
    } else {
        minutes_vol_at(ms.drop_last(), p) + vol_at(ms.last().bins@, p)
    }
}

/// How a flush reshapes the retained minutes: the accumulated bucket is
/// appended as a snapshot stamped `ts_min`, and the oldest snapshots are
/// dropped while more than `win` remain.
pub open spec fn minutes_after_flush(
    before: Seq<MinuteVolume>,
    win: int,
    after: Seq<MinuteVolume>,
    bucket: Seq<BinVol>,
    ts_min: int,
) -> bool {
    let n1 = before.len() + 1;
    let keep: int = if n1 > win {
        win
    } else {
        n1 as int
    };
    &&& after.len() == keep
    &&& (forall|i: int| 0 <= i < keep - 1 ==> #[trigger] after[i] == before[n1 - keep + i])
    &&& (keep > 0 ==> after.last().bins@ == bucket && after.last().ts_min == ts_min)
}

/// Sum of the snapshot totals over a sequence of minutes.
pub open spec fn sum_minute_totals(ms: Seq<MinuteVolume>) -> int
    decreases ms.len(),
{
    if ms.len() == 0 {
        0
    } else {
        sum_minute_totals(ms.drop_last()) + total_vol(ms.last().bins@)
    }
}

/// Every snapshot holds sorted bins with positive volumes.
pub open spec fn minutes_wf(ms: Seq<MinuteVolume>) -> bool {
    forall|i: int|
        0 <= i < ms.len() ==> {
            &&& bins_sorted(#[trigger] ms[i].bins@)
            &&& bins_wf(ms[i].bins@)
            &&& bins_pos(ms[i].bins@)
            &&& total_vol(ms[i].bins@) >= 0
        }
}

/// Updating one bin's volume changes the total by the difference.
proof fn lemma_total_update(s: Seq<BinVol>, i: int, v: int)
    requires
        0 <= i < s.len(),
        i128::MIN <= s[i].volume + v <= i128::MAX,
    ensures
        total_vol(
            s.update(i, BinVol { price: s[i].price, volume: (s[i].volume + v) as i128 }),
        ) == total_vol(s) + v,
    decreases s.len(),
{
    let t = s.update(i, BinVol { price: s[i].price, volume: (s[i].volume + v) as i128 });
    assert(t.len() == s.len());
    assert(total_vol(t) == total_vol(t.drop_last()) + t.last().volume);
    assert(total_vol(s) == total_vol(s.drop_last()) + s.last().volume);
    if i == s.len() - 1 {
        assert(t.drop_last() =~= s.drop_last());
        assert(t.last() == (BinVol { price: s[i].price, volume: (s[i].volume + v) as i128 }));
    } else {
        assert(s.drop_last()[i] == s[i]);
        assert(t.drop_last() =~= s.drop_last().update(
            i,
            BinVol { price: s[i].price, volume: (s[i].volume + v) as i128 },
        ));
        assert(t.last() == s.last());
        lemma_total_update(s.drop_last(), i, v);
    }
}

/// Inserting a bin adds its volume to the total.
proof fn lemma_total_insert(s: Seq<BinVol>, i: int, b: BinVol)
    requires
        0 <= i <= s.len(),
    ensures
        total_vol(s.insert(i, b)) == total_vol(s) + b.volume,
    decreases s.len(),
{
    let t = s.insert(i, b);
    assert(t.len() == s.len() + 1);
    if i == s.len() {
        assert(t.drop_last() =~= s);
        assert(t.last() == b);
    } else {
        assert(t.drop_last() =~= s.drop_last().insert(i, b));
        assert(t.last() == s.last());
        lemma_total_insert(s.drop_last(), i, b);
    }
}

/// Adds `vol` to the bin at `price`, creating it in order if absent.
pub(crate) fn insert_add(bins: &mut Vec<BinVol>, price: i64, vol: i128)
    requires
        bins_sorted(old(bins)@),
        bins_wf(old(bins)@),
        bins_pos(old(bins)@),
        0 <= price <= PRICE_MAX,
        0 < vol,
        total_vol(old(bins)@) + vol <= HIST_VOL_MAX,
    ensures
        bins_sorted(final(bins)@),
        bins_wf(final(bins)@),
        bins_pos(final(bins)@),
        total_vol(final(bins)@) == total_vol(old(bins)@) + vol,
        final(bins)@.len() <= old(bins)@.len() + 1,
        forall|p: int|
            #[trigger] vol_at(final(bins)@, p) == vol_at(old(bins)@, p) + if p == price {
                vol as int
            } else {
                0int
            },
{
    let ghost s0 = bins@;
    let n = bins.len();
    let mut idx: usize = 0;
    while idx < n && bins[idx].price < price
        invariant
            n == bins@.len(),
            bins@ == s0,
            0 <= idx <= n,
            forall|j: int| 0 <= j < idx ==> #[trigger] bins@[j].price < price,
            bins_sorted(bins@),
            bins_wf(bins@),
        decreases n - idx,
    {
        idx = idx + 1;
    }
    if idx < n && bins[idx].price == price {
        let old_bin = bins[idx];
        proof {
            lemma_elem_le_total(s0, idx as int);
            lemma_total_nonneg(s0);
        }
        let updated = BinVol { price, volume: old_bin.volume + vol };
        proof {
            lemma_total_update(s0, idx as int, vol as int);
            assert(s0.remove(idx as int).insert(idx as int, updated) =~= s0.update(
                idx as int,
                updated,
            ));
        }
        let _ = bins.remove(idx);
        bins.insert(idx, updated);
        proof {
            let t = s0.update(idx as int, updated);
            assert(bins@ =~= t);
            assert forall|p: int|
                #[trigger] vol_at(bins@, p) == vol_at(s0, p) + if p == price {
                    vol as int
                } else {
                    0int
                } by {
                lemma_vol_at_update(s0, idx as int, vol as int, p);
            }
            assert forall|i: int, j: int| 0 <= i < j < t.len() implies #[trigger] t[i].price
                < #[trigger] t[j].price by {
                assert(s0[i].price < s0[j].price);
            }
        }
    } else {
        let b = BinVol { price, volume: vol };
        bins.insert(idx, b);
        proof {
            lemma_total_insert(s0, idx as int, b);
            assert forall|p: int|
                #[trigger] vol_at(bins@, p) == vol_at(s0, p) + if p == price {
                    vol as int
                } else {
                    0int
                } by {
                lemma_vol_at_insert(s0, idx as int, b, p);
            }
            let t = s0.insert(idx as int, b);
            assert forall|i: int, j: int| 0 <= i < j < t.len() implies #[trigger] t[i].price
                < #[trigger] t[j].price by {
                if i < idx && j == idx {
                    assert(t[i] == s0[i]);
                } else if i == idx && j > idx {
                    assert(t[j] == s0[j - 1]);
                    if idx < s0.len() {
                        assert(s0[idx as int].price != price);
                        assert(s0[idx as int].price >= price);
                    }
                } else if i < idx && j > idx {
                    assert(t[i] == s0[i] && t[j] == s0[j - 1]);
                } else if i > idx && j > idx {
                    assert(t[i] == s0[i - 1] && t[j] == s0[j - 1]);
                } else {
                    assert(t[i] == s0[i] && t[j] == s0[j]);
                }
            }
        }
    }
}


/// Volume that re-bucketing `s` to width `w` places at the widened bin `p`:
/// the volume of every base bin whose price rounds down to `p`.
pub open spec fn widened_vol(s: Seq<BinVol>, w: int, p: int) -> int
    decreases s.len(),
{
    if s.len() == 0 {
        0
    } else {
        widened_vol(s.drop_last(), w, p) + if w * ((s.last().price as int) / w) == p {
            s.last().volume as int
        } else {
            0int
        }
    }
}

/// Facts about step `i` of a re-bucketing pass: how the prefix sums and the
/// widened volumes grow, and that the widened keys never decrease.
proof fn lemma_widen_step(s: Seq<BinVol>, w: int, i: int)
    requires
        bins_sorted(s),
        bins_wf(s),
        bins_pos(s),
        0 < w,
        0 <= i < s.len(),
    ensures
        total_vol(s.subrange(0, i + 1)) == total_vol(s.subrange(0, i)) + s[i].volume,
        0 <= total_vol(s.subrange(0, i)) <= total_vol(s),
        0 <= total_vol(s.subrange(0, i + 1)) <= total_vol(s),
        forall|p: int|
            #[trigger] widened_vol(s.subrange(0, i + 1), w, p) == widened_vol(
                s.subrange(0, i),
                w,
                p,
            ) + if w * ((s[i].price as int) / w) == p {
                s[i].volume as int
            } else {
                0int
            },
        0 <= w * ((s[i].price as int) / w) <= s[i].price,
        i > 0 ==> w * ((s[i - 1].price as int) / w) <= w * ((s[i].price as int) / w),
        s[i].volume > 0,
        s[i].volume <= total_vol(s),
{
    let pre1 = s.subrange(0, i + 1);
    assert(pre1.drop_last() =~= s.subrange(0, i));
    assert(pre1.last() == s[i]);
    lemma_prefix_totals(s, i + 1);
    lemma_prefix_totals(s, i);
    lemma_bin_pos(s, i);
    lemma_elem_le_total(s, i);
    assert forall|p: int|
        #[trigger] widened_vol(pre1, w, p) == widened_vol(s.subrange(0, i), w, p) + if w * ((s[
            i
        ].price as int) / w) == p {
            s[i].volume as int
        } else {
            0int
        } by {}
    assert(0 <= w * ((s[i].price as int) / w) <= s[i].price) by (nonlinear_arith)
        requires w > 0, s[i].price >= 0
    ;
    if i > 0 {
        let p0 = s[i - 1].price as int;
        let p1 = s[i].price as int;
        assert(p0 < p1);
        assert(w * (p0 / w) <= w * (p1 / w)) by (nonlinear_arith)
            requires w > 0, 0 <= p0 <= p1
        ;
    }
    assert(s[i].volume > 0);
}

/// Folding one more volume into the last widened bin keeps the bins sorted
/// and moves exactly that volume to that bin's price.
proof fn lemma_widen_merge(r0: Seq<BinVol>, vadd: int)
    requires
        bins_sorted(r0),
        bins_wf(r0),
        r0.len() > 0,
        0 < vadd,
        r0.last().volume + vadd <= HIST_VOL_MAX,
    ensures
        ({
            let t = r0.update(
                r0.len() - 1,
                BinVol {
                    price: r0.last().price,
                    volume: (r0.last().volume + vadd) as i128,
                },
            );
            &&& bins_sorted(t)
            &&& bins_wf(t)
            &&& total_vol(t) == total_vol(r0) + vadd
            &&& forall|p: int|
                #[trigger] vol_at(t, p) == vol_at(r0, p) + if p == r0.last().price {
                    vadd
                } else {
                    0int
                }
        }),
{
    let m = r0.len() - 1;
    assert(r0[m] == r0.last());
    lemma_total_update(r0, m, vadd);
    let t = r0.update(
        m,
        BinVol { price: r0.last().price, volume: (r0.last().volume + vadd) as i128 },
    );
    assert forall|p: int|
        #[trigger] vol_at(t, p) == vol_at(r0, p) + if p == r0.last().price {
            vadd
        } else {
            0int
        } by {
        lemma_vol_at_update(r0, m, vadd, p);
    }
    assert forall|x: int, y: int| 0 <= x < y < t.len() implies #[trigger] t[x].price
        < #[trigger] t[y].price by {
        assert(r0[x].price < r0[y].price);
    }
    assert forall|x: int| 0 <= x < t.len() implies 0 <= #[trigger] t[x].volume && 0 <= t[x].price
        <= PRICE_MAX by {
        if x != m {
            assert(t[x] == r0[x]);
        }
        assert(0 <= r0[x].volume);
    }
}

/// Appending a strictly higher-priced widened bin keeps the bins sorted and
/// places exactly its volume at its price.
proof fn lemma_widen_push(r0: Seq<BinVol>, b: BinVol)
    requires
        bins_sorted(r0),
        bins_wf(r0),
        r0.len() > 0 ==> r0.last().price < b.price,
        0 <= b.volume,
        0 <= b.price <= PRICE_MAX,
    ensures
        ({
            let t = r0.push(b);
            &&& bins_sorted(t)
            &&& bins_wf(t)
            &&& total_vol(t) == total_vol(r0) + b.volume
            &&& forall|p: int|
                #[trigger] vol_at(t, p) == vol_at(r0, p) + if p == b.price {
                    b.volume as int
                } else {
                    0int
                }
        }),
{
    let t = r0.push(b);
    assert(t.drop_last() =~= r0);
    assert(t.last() == b);
    assert(total_vol(t) == total_vol(t.drop_last()) + t.last().volume);
    assert forall|p: int|
        #[trigger] vol_at(t, p) == vol_at(r0, p) + if p == b.price {
            b.volume as int
        } else {
            0int
        } by {
        assert(vol_at(t, p) == vol_at(t.drop_last(), p) + if t.last().price == p {
            t.last().volume as int
        } else {
            0int
        });
    }
    assert forall|x: int, y: int| 0 <= x < y < t.len() implies #[trigger] t[x].price
        < #[trigger] t[y].price by {
        if y < r0.len() {
            assert(t[x] == r0[x] && t[y] == r0[y]);
        } else {
            assert(t[y] == b);
            if x < r0.len() - 1 {
                assert(t[x] == r0[x]);
                assert(r0[x].price < r0.last().price);
            } else {
                assert(t[x] == r0.last());
            }
        }
    }
    assert forall|x: int| 0 <= x < t.len() implies 0 <= #[trigger] t[x].volume && 0 <= t[x].price
        <= PRICE_MAX by {
        if x < r0.len() {
            assert(t[x] == r0[x]);
            assert(0 <= r0[x].volume);
        } else {
            assert(t[x] == b);
        }
    }
}

/// Rolling volume-at-price histogram over a window of minutes.
pub struct RollingHistogram {
    /// Base bin width, in price units.
    base_bin: i64,
    /// Window length, in minutes.
    window: usize,
    /// Retained per-minute snapshots, oldest first.
    minute_volumes: Vec<MinuteVolume>,
    /// Aggregate over the retained snapshots, at base resolution.
    aggregated: Vec<BinVol>,
    /// Minute being accumulated.
    current_minute: Option<TimestampMs>,
    /// Bins of the minute being accumulated.
    current_bins: Vec<BinVol>,
}

impl RollingHistogram {
    /// The aggregate histogram's bins.
    pub closed spec fn agg(self) -> Seq<BinVol> {
        self.aggregated@
    }

    /// The retained snapshots.
    pub closed spec fn minutes(self) -> Seq<MinuteVolume> {
        self.minute_volumes@
    }

    /// The bins of the minute being accumulated.
    pub closed spec fn current(self) -> Seq<BinVol> {
        self.current_bins@
    }

    /// The minute being accumulated.
    pub closed spec fn cur_minute(self) -> Option<TimestampMs> {
        self.current_minute
    }

    /// The configured base bin width.
    pub closed spec fn base(self) -> i64 {
        self.base_bin
    }

    /// The configured window length.
    pub closed spec fn win(self) -> int {
        self.window as int
    }

    /// All volume the histogram holds: the aggregate plus the minute being
    /// accumulated.
    pub open spec fn held_volume(self) -> int {
        total_vol(self.agg()) + total_vol(self.current())
    }

    /// The histogram's invariant. Its heart is the conservation law: at
    /// every price the aggregate holds exactly the volume of the retained
    /// minute snapshots, and in total exactly their summed totals.
    pub open spec fn inv(self) -> bool {
        &&& 0 < self.base() <= PRICE_MAX
        &&& bins_sorted(self.agg())
        &&& bins_wf(self.agg())
        &&& bins_pos(self.agg())
        &&& bins_sorted(self.current())
        &&& bins_wf(self.current())
        &&& bins_pos(self.current())
        &&& minutes_wf(self.minutes())
        &&& total_vol(self.agg()) == sum_minute_totals(self.minutes())
        &&& forall|p: int| #[trigger] vol_at(self.agg(), p) == minutes_vol_at(self.minutes(), p)
        &&& 0 <= total_vol(self.agg())
        &&& 0 <= total_vol(self.current())
        &&& total_vol(self.agg()) + total_vol(self.current()) <= HIST_VOL_MAX
        &&& self.minutes().len() <= self.win()
        &&& (self.cur_minute() is None ==> self.current().len() == 0)
    }

    /// An empty histogram with the given base bin and window.
    pub fn new(base_bin: i64, window: usize) -> (r: RollingHistogram)
        requires
            0 < base_bin <= PRICE_MAX,
        ensures
            r.inv(),
            r.base() == base_bin,
            r.win() == window,
            r.agg().len() == 0,
            r.minutes().len() == 0,
            r.current().len() == 0,
            r.cur_minute() is None,
    {
        proof {
            assert forall|p: int| #[trigger] vol_at(Seq::<BinVol>::empty(), p) == 0 by {}
            assert forall|p: int| #[trigger] minutes_vol_at(Seq::<MinuteVolume>::empty(), p)
                == 0 by {}
        }
        RollingHistogram {
            base_bin,
            window,
            minute_volumes: Vec::new(),
            aggregated: Vec::new(),
            current_minute: None,
            current_bins: Vec::new(),
        }
    }

    /// The bin holding a price: the price rounded down to a multiple of the
    /// base bin.
    pub fn bin_key(&self, price: i64) -> (r: i64)
        requires
            self.inv(),
            valid_price(price),
        ensures
            r == self.base() * ((price as int) / (self.base() as int)),
            0 <= r <= price,
    {
        let q: i64 = price / self.base_bin;
        proof {
            let b = self.base_bin as int;
            let p = price as int;
            assert(0 <= (q as int) * b <= p) by (nonlinear_arith)
                requires b > 0, p >= 0, q == p / b
            ;
            assert((q as int) * b == b * (q as int)) by (nonlinear_arith);
        }
        q * self.base_bin
    }

    /// Accumulates a trade into the bucket of `ts_min`. A trade in a new
    /// minute first finalizes the old one into the window. Zero-size trades
    /// leave the bins unchanged.
    pub fn add_trade(&mut self, ts_min: TimestampMs, price: i64, size: i64)
        requires
            old(self).inv(),
            ts_min >= 0,
            valid_price(price),
            0 <= size <= SIZE_MAX,
            old(self).held_volume() + size <= HIST_VOL_MAX,
        ensures
            final(self).inv(),
            final(self).base() == old(self).base() && final(self).win() == old(self).win(),
            final(self).cur_minute() == Some(ts_min),
            final(self).held_volume() <= old(self).held_volume() + size,
            total_vol(final(self).current()) <= total_vol(old(self).current()) + size,
            ({
                let rolled = match old(self).cur_minute() {
                    Some(c) => c != ts_min,
                    None => false,
                };
                if rolled {
                    &&& (old(self).current().len() > 0 ==> minutes_after_flush(
                        old(self).minutes(),
                        old(self).win(),
                        final(self).minutes(),
                        old(self).current(),
                        old(self).cur_minute()->Some_0 as int,
                    ))
                    &&& (old(self).current().len() == 0 ==> final(self).minutes() == old(
                        self,
                    ).minutes() && final(self).agg() == old(self).agg())
                } else {
                    final(self).minutes() == old(self).minutes() && final(self).agg() == old(
                        self,
                    ).agg()
                }
            }),
            ({
                let rolled = match old(self).cur_minute() {
                    Some(c) => c != ts_min,
                    None => false,
                };
                let base_cur: Seq<BinVol> = if rolled {
                    Seq::empty()
                } else {
                    old(self).current()
                };
                let key = (old(self).base() as int) * ((price as int) / (old(self).base() as int));
                forall|p: int|
                    #[trigger] vol_at(final(self).current(), p) == vol_at(base_cur, p) + if p
                        == key && size > 0 {
                        size as int
                    } else {
                        0int
                    }
            }),
    {
        let rollover: bool = match self.current_minute {
            Some(current) => current != ts_min,
            None => false,
        };
        if rollover {
            let prev: i64 = match self.current_minute {
                Some(current) => current,
                None => 0,
            };
            self.finalize_minute(prev);
        }
        self.current_minute = Some(ts_min);

        if size > 0 {
            let key = self.bin_key(price);
            insert_add(&mut self.current_bins, key, size as i128);
        }
    }

    /// Folds the accumulated bins into the aggregate, stores the snapshot,
    /// and drops the oldest snapshots while more than the window remain,
    /// rebuilding the aggregate from what is left. The conservation law of
    /// `inv` is maintained throughout.
    #[verifier::rlimit(100)]
    fn finalize_minute(&mut self, ts_min: TimestampMs)
        requires
            old(self).inv(),
        ensures
            final(self).inv(),
            final(self).base() == old(self).base() && final(self).win() == old(self).win(),
            final(self).current().len() == 0,
            final(self).cur_minute() == old(self).cur_minute(),
            final(self).held_volume() <= old(self).held_volume(),
            old(self).current().len() == 0 ==> final(self).minutes() == old(self).minutes()
                && final(self).agg() == old(self).agg(),
            old(self).current().len() > 0 ==> minutes_after_flush(
                old(self).minutes(),
                old(self).win(),
                final(self).minutes(),
                old(self).current(),
                ts_min as int,
            ),
    {
        if self.current_bins.is_empty() {
            proof {
                assert(self.current_bins@ =~= Seq::<BinVol>::empty());
            }
            return ;
        }

        // Fold the minute into the aggregate.
        let ghost cur0 = self.current_bins@;
        let ghost agg0 = self.aggregated@;
        let n = self.current_bins.len();
        let mut i: usize = 0;
        proof {
            lemma_prefix_totals(cur0, 0);
        }
        while i < n
            invariant
                n == cur0.len(),
                self.current_bins@ == cur0,
                bins_sorted(cur0),
                bins_wf(cur0),
                bins_pos(cur0),
                0 <= i <= n,
                bins_sorted(self.aggregated@),
                bins_wf(self.aggregated@),
                bins_pos(self.aggregated@),
                total_vol(self.aggregated@) == total_vol(agg0) + total_vol(
                    cur0.subrange(0, i as int),
                ),
                forall|p: int|
                    #[trigger] vol_at(self.aggregated@, p) == vol_at(agg0, p) + vol_at(
                        cur0.subrange(0, i as int),
                        p,
                    ),
                0 <= total_vol(agg0),
                0 <= total_vol(cur0.subrange(0, i as int)) <= total_vol(cur0),
                total_vol(agg0) + total_vol(cur0) <= HIST_VOL_MAX,
                self.base_bin == old(self).base_bin,
                self.window == old(self).window,
                self.minute_volumes@ == old(self).minute_volumes@,
                self.current_minute == old(self).current_minute,
            decreases n - i,
        {
            proof {
                let pre1 = cur0.subrange(0, i + 1);
                assert(pre1.drop_last() =~= cur0.subrange(0, i as int));
                assert(pre1.last() == cur0[i as int]);
                lemma_prefix_totals(cur0, i + 1);
                assert forall|p: int|
                    #[trigger] vol_at(pre1, p) == vol_at(cur0.subrange(0, i as int), p) + (
                    if cur0[i as int].price == p {
                        cur0[i as int].volume as int
                    } else {
                        0int
                    }) by {}
            }
            let b = self.current_bins[i];
            insert_add(&mut self.aggregated, b.price, b.volume);
            i = i + 1;
        }
        proof {
            assert(cur0.subrange(0, n as int) =~= cur0);
        }

        // Store the snapshot.
        let mut bins: Vec<BinVol> = Vec::new();
        core::mem::swap(&mut bins, &mut self.current_bins);
        let snapshot = MinuteVolume { ts_min, bins };
        proof {
            let ms1 = self.minute_volumes@.push(snapshot);
            assert(ms1.drop_last() =~= self.minute_volumes@);
            assert(ms1.last() == snapshot);
            assert forall|p: int|
                #[trigger] minutes_vol_at(ms1, p) == minutes_vol_at(self.minute_volumes@, p)
                    + vol_at(cur0, p) by {}
        }
        self.minute_volumes.push(snapshot);

        // Evict the oldest snapshots beyond the window and rebuild.
        let ghost pushed = self.minute_volumes@;
        proof {
            assert(pushed.skip(0) =~= pushed);
        }
        if self.minute_volumes.len() > self.window {
            while self.minute_volumes.len() > self.window
                invariant
                    minutes_wf(self.minute_volumes@),
                    0 <= sum_minute_totals(self.minute_volumes@) <= HIST_VOL_MAX,
                    sum_minute_totals(self.minute_volumes@) <= old(self).held_volume(),
                    self.base_bin == old(self).base_bin,
                    self.window == old(self).window,
                    self.current_minute == old(self).current_minute,
                    self.current_bins@.len() == 0,
                    self.minute_volumes@.len() <= pushed.len(),
                    self.minute_volumes@ == pushed.skip(
                        pushed.len() - self.minute_volumes@.len(),
                    ),
                    self.minute_volumes@.len() >= self.window || self.minute_volumes@ == pushed,
                decreases self.minute_volumes@.len(),
            {
                proof {
                    lemma_sum_minutes_remove_first(self.minute_volumes@);
                    lemma_sum_minutes_nonneg(self.minute_volumes@.remove(0));
                    let k = pushed.len() - self.minute_volumes@.len();
                    assert(pushed.skip(k).remove(0) =~= pushed.skip(k + 1));
                }
                let _ = self.minute_volumes.remove(0);
            }
            self.rebuild();
        }
        proof {
            let keep = self.minute_volumes@.len() as int;
            assert forall|i: int| 0 <= i < keep - 1 implies #[trigger] self.minute_volumes@[i]
                == old(self).minute_volumes@[pushed.len() - keep + i] by {
                assert(self.minute_volumes@[i] == pushed[pushed.len() - keep + i]);
            }
            if keep > 0 {
                assert(self.minute_volumes@.last() == pushed.last());
            }
        }
    }

    /// Finalizes the minute being accumulated, if any.
    pub fn flush_current_minute(&mut self)
        requires
            old(self).inv(),
        ensures
            final(self).inv(),
            final(self).base() == old(self).base() && final(self).win() == old(self).win(),
            final(self).cur_minute() is None,
            final(self).current().len() == 0,
            final(self).held_volume() <= old(self).held_volume(),
            old(self).current().len() == 0 ==> final(self).minutes() == old(self).minutes()
                && final(self).agg() == old(self).agg(),
            match old(self).cur_minute() {
                Some(t) => old(self).current().len() > 0 ==> minutes_after_flush(
                    old(self).minutes(),
                    old(self).win(),
                    final(self).minutes(),
                    old(self).current(),
                    t as int,
                ),
                None => final(self).minutes() == old(self).minutes() && final(self).agg() == old(
                    self,
                ).agg(),
            },
    {
        let ts: i64 = match self.current_minute {
            Some(t) => t,
            None => {
                return ;
            },
        };
        self.finalize_minute(ts);
        self.current_minute = None;
    }

    /// The aggregate histogram at base resolution, sorted by price.
    pub fn histogram(&self) -> (r: &Vec<BinVol>)
        ensures
            r@ == self.agg(),
    {
        &self.aggregated
    }

    /// The aggregate re-bucketed to a wider bin width: each base bin's
    /// volume moves to the widened bin holding its price, and the total is
    /// conserved.
    #[verifier::rlimit(100)]
    pub fn aggregate_to(&self, bin_width: i64) -> (r: Vec<BinVol>)
        requires
            self.inv(),
            0 < bin_width <= PRICE_MAX,
        ensures
            bins_sorted(r@),
            bins_wf(r@),
            total_vol(r@) == total_vol(self.agg()),
            r@.len() <= self.agg().len(),
            forall|p: int|
                #[trigger] vol_at(r@, p) == widened_vol(self.agg(), bin_width as int, p),
    {
        let ghost s = self.aggregated@;
        let ghost w = bin_width as int;
        let n = self.aggregated.len();
        let mut result: Vec<BinVol> = Vec::new();
        let mut i: usize = 0;
        proof {
            assert(total_vol(Seq::<BinVol>::empty()) == 0);
            assert(total_vol(s.subrange(0, 0)) == 0);
            assert forall|p: int| #[trigger] vol_at(Seq::<BinVol>::empty(), p) == 0 by {}
            assert forall|p: int| #[trigger] widened_vol(s.subrange(0, 0), w, p) == 0 by {
                assert(s.subrange(0, 0) =~= Seq::<BinVol>::empty());
            }
        }
        while i < n
            invariant
                n == s.len(),
                self.aggregated@ == s,
                bins_sorted(s),
                bins_wf(s),
                bins_pos(s),
                total_vol(s) <= HIST_VOL_MAX,
                0 < bin_width <= PRICE_MAX,
                w == bin_width as int,
                0 <= i <= n,
                bins_sorted(result@),
                bins_wf(result@),
                total_vol(result@) == total_vol(s.subrange(0, i as int)),
                forall|p: int|
                    #[trigger] vol_at(result@, p) == widened_vol(s.subrange(0, i as int), w, p),
                result@.len() <= i,
                i > 0 ==> result@.len() > 0 && result@.last().price == w * (
                (s[i - 1].price as int) / w),
            decreases n - i,
        {
            proof {
                lemma_widen_step(s, w, i as int);
            }
            let bin = self.aggregated[i];
            let q: i64 = bin.price / bin_width;
            proof {
                assert(0 <= (q as int) * w <= bin.price as int) by (nonlinear_arith)
                    requires w > 0, bin.price >= 0, q == (bin.price as int) / w
                ;
            }
            let key: i64 = q * bin_width;
            proof {
                assert(key == w * ((s[i as int].price as int) / w)) by (nonlinear_arith)
                    requires
                        key == q * w,
                        q == (s[i as int].price as int) / w,
                ;
            }
            let m = result.len();
            let mut merged: bool = false;
            if m > 0 {
                let last = result[m - 1];
                if last.price == key {
                    proof {
                        lemma_elem_le_total(result@, m - 1);
                        lemma_total_nonneg(result@);
                        lemma_widen_merge(result@, bin.volume as int);
                    }
                    let updated = BinVol { price: key, volume: last.volume + bin.volume };
                    proof {
                        let r0 = result@;
                        assert(r0.remove(m - 1).insert(m - 1, updated) =~= r0.update(
                            m - 1,
                            updated,
                        ));
                        assert(r0.update(m - 1, updated).last() == updated);
                    }
                    let _ = result.remove(m - 1);
                    result.insert(m - 1, updated);
                    merged = true;
                }
            }
            if !merged {
                proof {
                    if result@.len() > 0 {
                        assert(result@.last().price == w * ((s[i - 1].price as int) / w));
                        assert(result@.last().price != key);
                    }
                    lemma_widen_push(result@, BinVol { price: key, volume: bin.volume });
                }
                result.push(BinVol { price: key, volume: bin.volume });
            }
            i = i + 1;
        }
        proof {
            assert(s.subrange(0, n as int) =~= s);
        }
        result
    }

    /// Total volume held in the aggregate.
    pub fn total_volume(&self) -> (r: i128)
        requires
            self.inv(),
        ensures
            r == total_vol(self.agg()),
            r == sum_minute_totals(self.minutes()),
            r >= 0,
    {
        crate::value_area::sum_bins(&self.aggregated)
    }

    /// Number of bins holding volume in the aggregate.
    pub fn bin_count(&self) -> (r: usize)
        ensures
            r == self.agg().len(),
    {
        self.aggregated.len()
    }

    /// Number of retained minute snapshots.
    pub fn minute_count(&self) -> (r: usize)
        ensures
            r == self.minutes().len(),
    {
        self.minute_volumes.len()
    }

    /// Whether the window is full.
    pub fn is_ready(&self) -> (r: bool)
        ensures
            r == (self.minutes().len() >= self.win()),
    {
        self.minute_volumes.len() >= self.window
    }

    /// Drops everything.
    pub fn clear(&mut self)
        requires
            old(self).inv(),
        ensures
            final(self).inv(),
            final(self).base() == old(self).base() && final(self).win() == old(self).win(),
            final(self).agg().len() == 0,
            final(self).minutes().len() == 0,
            final(self).current().len() == 0,
            final(self).cur_minute() is None,
    {
        self.minute_volumes.clear();
        self.aggregated.clear();
        self.current_minute = None;
        self.current_bins.clear();
        proof {
            assert(total_vol(Seq::<BinVol>::empty()) == 0);
            assert(sum_minute_totals(Seq::<MinuteVolume>::empty()) == 0);
            assert forall|p: int| #[trigger] vol_at(Seq::<BinVol>::empty(), p) == 0 by {}
            assert forall|p: int| #[trigger] minutes_vol_at(Seq::<MinuteVolume>::empty(), p)
                == 0 by {}
        }
    }

    /// Rebuilds the aggregate from the retained snapshots; afterwards the
    /// conservation law holds by construction.
    #[verifier::rlimit(100)]
    pub fn rebuild(&mut self)
        requires
            0 < old(self).base() <= PRICE_MAX,
            minutes_wf(old(self).minutes()),
            sum_minute_totals(old(self).minutes()) <= HIST_VOL_MAX,
            old(self).current().len() == 0,
            old(self).minutes().len() <= old(self).win(),
        ensures
            final(self).inv(),
            final(self).base() == old(self).base() && final(self).win() == old(self).win(),
            final(self).minutes() == old(self).minutes(),
            final(self).cur_minute() == old(self).cur_minute(),
            final(self).current().len() == 0,
            total_vol(final(self).agg()) == sum_minute_totals(old(self).minutes()),
            forall|p: int|
                #[trigger] vol_at(final(self).agg(), p) == minutes_vol_at(old(self).minutes(), p),
    {
        self.aggregated.clear();
        proof {
            assert(total_vol(Seq::<BinVol>::empty()) == 0);
            lemma_minute_prefix_totals(self.minute_volumes@, 0);
            assert forall|p: int| #[trigger] vol_at(Seq::<BinVol>::empty(), p) == 0 by {}
            assert forall|p: int|
                #[trigger] minutes_vol_at(self.minute_volumes@.subrange(0, 0), p) == 0 by {
                assert(self.minute_volumes@.subrange(0, 0) =~= Seq::<MinuteVolume>::empty());
            }
        }
        let ghost ms = self.minute_volumes@;
        let n = self.minute_volumes.len();
        let mut i: usize = 0;
        while i < n
            invariant
                n == ms.len(),
                self.minute_volumes@ == ms,
                minutes_wf(ms),
                sum_minute_totals(ms) <= HIST_VOL_MAX,
                0 <= i <= n,
                bins_sorted(self.aggregated@),
                bins_wf(self.aggregated@),
                bins_pos(self.aggregated@),
                total_vol(self.aggregated@) == sum_minute_totals(ms.subrange(0, i as int)),
                forall|p: int|
                    #[trigger] vol_at(self.aggregated@, p) == minutes_vol_at(
                        ms.subrange(0, i as int),
                        p,
                    ),
                0 <= total_vol(self.aggregated@),
                self.base_bin == old(self).base_bin,
                self.window == old(self).window,
                self.current_minute == old(self).current_minute,
                self.current_bins@.len() == 0,
            decreases n - i,
        {
            proof {
                let pre1 = ms.subrange(0, i + 1);
                assert(pre1.drop_last() =~= ms.subrange(0, i as int));
                assert(pre1.last() == ms[i as int]);
                lemma_minute_prefix_totals(ms, i + 1);
                lemma_minute_prefix_totals(ms, i as int);
                lemma_prefix_totals(ms[i as int].bins@, 0);
                assert forall|p: int|
                    #[trigger] minutes_vol_at(pre1, p) == minutes_vol_at(
                        ms.subrange(0, i as int),
                        p,
                    ) + vol_at(ms[i as int].bins@, p) by {}
                assert forall|p: int|
                    #[trigger] vol_at(ms[i as int].bins@.subrange(0, 0), p) == 0 by {
                    assert(ms[i as int].bins@.subrange(0, 0) =~= Seq::<BinVol>::empty());
                }
            }
            let ghost bins_i = ms[i as int].bins@;
            let k = self.minute_volumes[i].bins.len();
            let mut j: usize = 0;
            while j < k
                invariant
                    n == ms.len(),
                    self.minute_volumes@ == ms,
                    minutes_wf(ms),
                    sum_minute_totals(ms) <= HIST_VOL_MAX,
                    0 <= i < n,
                    k == bins_i.len(),
                    bins_i == ms[i as int].bins@,
                    0 <= j <= k,
                    bins_sorted(self.aggregated@),
                    bins_wf(self.aggregated@),
                    bins_pos(self.aggregated@),
                    total_vol(self.aggregated@) == sum_minute_totals(ms.subrange(0, i as int))
                        + total_vol(bins_i.subrange(0, j as int)),
                    forall|p: int|
                        #[trigger] vol_at(self.aggregated@, p) == minutes_vol_at(
                            ms.subrange(0, i as int),
                            p,
                        ) + vol_at(bins_i.subrange(0, j as int), p),
                    0 <= sum_minute_totals(ms.subrange(0, i as int)),
                    0 <= total_vol(bins_i.subrange(0, j as int)),
                    sum_minute_totals(ms.subrange(0, i as int)) + total_vol(bins_i) <= HIST_VOL_MAX,
                    self.base_bin == old(self).base_bin,
                    self.window == old(self).window,
                    self.current_minute == old(self).current_minute,
                    self.current_bins@.len() == 0,
                decreases k - j,
            {
                proof {
                    let pre1 = bins_i.subrange(0, j + 1);
                    assert(pre1.drop_last() =~= bins_i.subrange(0, j as int));
                    assert(pre1.last() == bins_i[j as int]);
                    lemma_prefix_totals(bins_i, j + 1);
                    lemma_prefix_totals(bins_i, j as int);
                    lemma_bin_pos(bins_i, j as int);
                    assert forall|p: int|
                        #[trigger] vol_at(pre1, p) == vol_at(bins_i.subrange(0, j as int), p) + (
                        if bins_i[j as int].price == p {
                            bins_i[j as int].volume as int
                        } else {
                            0int
                        }) by {}
                }
                let b = self.minute_volumes[i].bins[j];
                insert_add(&mut self.aggregated, b.price, b.volume);
                j = j + 1;
            }
            proof {
                assert(bins_i.subrange(0, k as int) =~= bins_i);
            }
            i = i + 1;
        }
        proof {
            assert(ms.subrange(0, n as int) =~= ms);
        }
    }
}

/// Prefix totals of well-formed bins are non-negative and at most the whole.
proof fn lemma_prefix_totals(s: Seq<BinVol>, k: int)
    requires
        bins_wf(s),
        0 <= k <= s.len(),
    ensures
        0 <= total_vol(s.subrange(0, k)) <= total_vol(s),
    decreases s.len() + k,
{
    if k > 0 {
        let pre1 = s.subrange(0, k);
        assert(pre1.drop_last() =~= s.subrange(0, k - 1));
        assert(pre1.last() == s[k - 1]);
        lemma_prefix_totals(s, k - 1);
    }
    if k < s.len() {
        lemma_prefix_suffix(s, k);
    }
}

/// Extending a prefix by the remaining bins only adds volume.
proof fn lemma_prefix_suffix(s: Seq<BinVol>, k: int)
    requires
        bins_wf(s),
        0 <= k <= s.len(),
    ensures
        total_vol(s.subrange(0, k)) <= total_vol(s),
    decreases s.len() - k,
{
    if k < s.len() {
        let pre1 = s.subrange(0, k + 1);
        assert(pre1.drop_last() =~= s.subrange(0, k));
        assert(pre1.last() == s[k]);
        lemma_prefix_suffix(s, k + 1);
    } else {
        assert(s.subrange(0, k) =~= s);
    }
}

/// A bin of a well-formed histogram carries non-negative volume.
proof fn lemma_bin_pos(s: Seq<BinVol>, i: int)
    requires
        bins_wf(s),
        0 <= i < s.len(),
    ensures
        s[i].volume >= 0,
        0 <= s[i].price <= PRICE_MAX,
{
    assert(0 <= s[i].volume);
}

/// Prefix sums over minutes are non-negative and at most the whole.
proof fn lemma_minute_prefix_totals(ms: Seq<MinuteVolume>, k: int)
    requires
        minutes_wf(ms),
        0 <= k <= ms.len(),
    ensures
        0 <= sum_minute_totals(ms.subrange(0, k)) <= sum_minute_totals(ms),
    decreases ms.len() + k,
{
    if k > 0 {
        let pre1 = ms.subrange(0, k);
        assert(pre1.drop_last() =~= ms.subrange(0, k - 1));
        assert(pre1.last() == ms[k - 1]);
        lemma_minute_prefix_totals(ms, k - 1);
    }
    if k < ms.len() {
        lemma_minute_prefix_suffix(ms, k);
    }
}

/// Extending a prefix of minutes only adds volume.
proof fn lemma_minute_prefix_suffix(ms: Seq<MinuteVolume>, k: int)
    requires
        minutes_wf(ms),
        0 <= k <= ms.len(),
    ensures
        sum_minute_totals(ms.subrange(0, k)) <= sum_minute_totals(ms),
    decreases ms.len() - k,
{
    if k < ms.len() {
        let pre1 = ms.subrange(0, k + 1);
        assert(pre1.drop_last() =~= ms.subrange(0, k));
        assert(pre1.last() == ms[k]);
        lemma_minute_prefix_suffix(ms, k + 1);
    } else {
        assert(ms.subrange(0, k) =~= ms);
    }
}

/// Sums over well-formed minutes are non-negative.
proof fn lemma_sum_minutes_nonneg(ms: Seq<MinuteVolume>)
    requires
        minutes_wf(ms),
    ensures
        sum_minute_totals(ms) >= 0,
    decreases ms.len(),
{
    if ms.len() > 0 {
        assert forall|i: int| 0 <= i < ms.drop_last().len() implies {
            &&& bins_sorted(#[trigger] ms.drop_last()[i].bins@)
            &&& bins_wf(ms.drop_last()[i].bins@)
            &&& bins_pos(ms.drop_last()[i].bins@)
            &&& total_vol(ms.drop_last()[i].bins@) >= 0
        } by {
            assert(ms.drop_last()[i] == ms[i]);
        }
        lemma_sum_minutes_nonneg(ms.drop_last());
        assert(total_vol(ms.last().bins@) >= 0);
    }
}

/// Dropping the first minute removes exactly its total.
proof fn lemma_sum_minutes_remove_first(ms: Seq<MinuteVolume>)
    requires
        ms.len() > 0,
        minutes_wf(ms),
    ensures
        sum_minute_totals(ms.remove(0)) == sum_minute_totals(ms) - total_vol(ms[0].bins@),
        sum_minute_totals(ms.remove(0)) <= sum_minute_totals(ms),
        minutes_wf(ms.remove(0)),
        total_vol(ms[0].bins@) >= 0,
    decreases ms.len(),
{
    if ms.len() == 1 {
        assert(ms.remove(0) =~= Seq::<MinuteVolume>::empty());
        assert(ms.drop_last() =~= Seq::<MinuteVolume>::empty());
        assert(sum_minute_totals(Seq::<MinuteVolume>::empty()) == 0);
    } else {
        assert(ms.remove(0).drop_last() =~= ms.drop_last().remove(0));
        assert(ms.remove(0).last() == ms.last());
        lemma_sum_minutes_remove_first(ms.drop_last());
        assert(ms.drop_last()[0] == ms[0]);
    }
    assert forall|i: int| 0 <= i < ms.remove(0).len() implies {
        &&& bins_sorted(#[trigger] ms.remove(0)[i].bins@)
        &&& bins_wf(ms.remove(0)[i].bins@)
        &&& total_vol(ms.remove(0)[i].bins@) >= 0
    } by {
        assert(ms.remove(0)[i] == ms[i + 1]);
    }
}

/// Law: after any sequence of additions, flushes and evictions, the
/// aggregate's total volume equals the summed totals of the retained minute
/// snapshots, and at every single price the aggregate holds exactly the
/// volume those snapshots hold. Every method of the histogram preserves
/// `inv`, which carries both equalities.
pub proof fn lemma_volume_conservation(h: RollingHistogram)
    requires
        h.inv(),
    ensures
        total_vol(h.agg()) == sum_minute_totals(h.minutes()),
        forall|p: int| #[trigger] vol_at(h.agg(), p) == minutes_vol_at(h.minutes(), p),
{
}

} // verus!
