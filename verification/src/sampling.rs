//! Sampling analysis: gaps between consecutive samples, and their histograms.
use crate::keyed::{AssocMap, KeyView};
use crate::model::{Carrier, Constellation, Duration, Epoch, FloatBits, QcIndexing};
use crate::sorting::{greatest, least, lemma_least_greatest};
use vstd::prelude::*;

verus! {

/// A sampling gap.
#[derive(Debug, Copy, Clone)]
pub struct SamplingGap {
    /// Last sampling instant latched before the gap.
    pub start: Epoch,
    /// Dead time.
    pub duation: Duration,
}

/// Gap analysis, present when the sampling is perturbed.
pub struct SamplingGapAnalysis {
    /// Gaps that were identified.
    pub gaps: Vec<SamplingGap>,
    /// Shortest gap duration.
    pub shortest: Duration,
    /// Longest gap duration.
    pub longest: Duration,
}

/// Sampling analysis of a time domain data set.
pub struct QcGeneralSampling {
    /// Total number of instants processed.
    pub total_epochs: usize,
    /// First instant processed.
    pub first_epoch: Epoch,
    /// Last instant processed.
    pub last_epoch: Epoch,
    /// Time frame.
    pub duration: Duration,
    /// Announced sampling period, if any.
    pub expected_sampling_interval: Option<Duration>,
    /// Dominant sample rate that was identified, if any.
    pub dominant_sample_rate: Option<FloatBits>,
    /// Gap analysis, if any.
    pub gap_analysis: Option<SamplingGapAnalysis>,
}

/// Sampling report of one file, as the file reports show it. Its content is
/// not modelled: a report only carries it to its "Sampling" row.
#[derive(Debug, Clone, Copy)]
pub struct SamplingReport {}

/// Sampling report.
pub struct QcSamplingReport {
    /// General context analysis.
    pub general: QcGeneralSampling,
}

/// Histogram of gap durations of one data stream.
pub struct QcSamplingHistogramAnalysis {
    /// Largest gap duration that was identified.
    pub largest_gap: Duration,
    /// Shortest gap duration that was identified.
    pub shortest_gap: Duration,
    /// Population of each gap duration.
    pub gaps: AssocMap<Duration, u64>,
}

/// What a histogram holds: shortest gap, largest gap, and the population of
/// each gap duration (nanoseconds).
pub type HistogramModel = (i128, i128, Map<i128, u64>);

impl View for QcSamplingHistogramAnalysis {
    type V = HistogramModel;

    open spec fn view(&self) -> HistogramModel {
        (self.shortest_gap.total_ns, self.largest_gap.total_ns, self.gaps@)
    }
}

/// The empty histogram: no gap counted; both extremes hold the null
/// duration until the first gap is latched, which then sets them.
pub open spec fn empty_histogram() -> HistogramModel {
    (0, 0, Map::empty())
}

/// True when latching `gap` does not overflow its population counter.
pub open spec fn histogram_can_latch(h: HistogramModel, gap: i128) -> bool {
    h.2.contains_key(gap) ==> h.2[gap] < u64::MAX
}

/// The extremes (shortest, largest) after latching `gap`: the gap alone when
/// none was latched before (`None`), else `prev` widened to cover it.
pub open spec fn extremes_after(prev: Option<(i128, i128)>, gap: i128) -> (i128, i128) {
    match prev {
        None => (gap, gap),
        Some(e) => (
            if gap < e.0 {
                gap
            } else {
                e.0
            },
            if gap > e.1 {
                gap
            } else {
                e.1
            },
        ),
    }
}

/// The histogram after latching `gap`: the first gap sets both extremes,
/// later ones widen them to cover it; its population grows by one.
pub open spec fn histogram_after(h: HistogramModel, gap: i128) -> HistogramModel {
    (
        extremes_after(
            if h.2 == Map::<i128, u64>::empty() {
                None
            } else {
                Some((h.0, h.1))
            },
            gap,
        ).0,
        extremes_after(
            if h.2 == Map::<i128, u64>::empty() {
                None
            } else {
                Some((h.0, h.1))
            },
            gap,
        ).1,
        h.2.insert(
            gap,
            if h.2.contains_key(gap) {
                (h.2[gap] + 1) as u64
            } else {
                1u64
            },
        ),
    )
}

/// The histogram after latching each gap of `gaps` in turn.
pub open spec fn histogram_after_all(h: HistogramModel, gaps: Seq<i128>) -> HistogramModel
    decreases gaps.len(),
{
    if gaps.len() == 0 {
        h
    } else {
        histogram_after(histogram_after_all(h, gaps.drop_last()), gaps.last())
    }
}

impl QcSamplingHistogramAnalysis {
    /// An empty histogram; both extremes start at the null duration.
    pub fn new() -> (h: Self)
        ensures
            h@ == empty_histogram(),
    {
        let h = QcSamplingHistogramAnalysis {
            largest_gap: Duration::zero(),
            shortest_gap: Duration::zero(),
            gaps: AssocMap::new(),
        };
        proof {
            assert(h@ =~= empty_histogram());
        }
        h
    }

    /// True when latching `gap` does not overflow its population counter.
    pub open spec fn can_latch(self, gap: Duration) -> bool {
        histogram_can_latch(self@, gap@)
    }

    /// Latches one gap: the first one sets both extremes, later ones widen
    /// them; the gap duration is counted.
    pub fn latch(&mut self, gap: Duration)
        requires
            old(self).can_latch(gap),
        ensures
            final(self)@ == histogram_after(old(self)@, gap@),
    {
        if self.gaps.is_empty() {
            self.shortest_gap = gap;
            self.largest_gap = gap;
        } else {
            if gap.total_ns < self.shortest_gap.total_ns {
                self.shortest_gap = gap;
            }
            if gap.total_ns > self.largest_gap.total_ns {
                self.largest_gap = gap;
            }
        }
        match self.gaps.get(&gap) {
            Some(counts) => {
                let c = *counts + 1;
                self.gaps.insert(gap, c);
            },
            None => {
                self.gaps.insert(gap, 1);
            },
        }
    }
}

/// A value occurs in a sequence at most as many times as the sequence is
/// long.
proof fn lemma_count_bounded(s: Seq<i128>, g: i128)
    ensures
        s.to_multiset().count(g) <= s.len(),
    decreases s.len(),
{
    broadcast use vstd::seq_lib::group_to_multiset_ensures;

    if s.len() > 0 {
        lemma_count_bounded(s.drop_last(), g);
        assert(s =~= s.drop_last().push(s.last()));
        assert(s.to_multiset() == s.drop_last().to_multiset().insert(s.last()));
    } else {
        assert(s.to_multiset() =~= Seq::<i128>::empty().to_multiset());
    }
}

/// Latching gaps one after the other from an empty histogram counts each
/// gap duration as many times as it was latched; once a gap is latched, the
/// shortest and largest gaps are the least and the greatest latched gaps.
pub proof fn law_histogram_counts_every_gap(gaps: Seq<i128>)
    requires
        gaps.len() < u64::MAX,
    ensures
        ({
            let h = histogram_after_all(empty_histogram(), gaps);
            &&& forall|g: i128| #[trigger] h.2.contains_key(g) <==> gaps.contains(g)
            &&& forall|g: i128| #[trigger] h.2.contains_key(g) ==> h.2[g] == gaps.to_multiset().count(g)
            &&& gaps.len() == 0 ==> h == empty_histogram()
            &&& gaps.len() > 0 ==> gaps.contains(h.0) && gaps.contains(h.1)
            &&& forall|i: int| 0 <= i < gaps.len() ==> h.0 <= #[trigger] gaps[i] <= h.1
        }),
    decreases gaps.len(),
{
    broadcast use vstd::seq_lib::group_to_multiset_ensures;

    if gaps.len() > 0 {
        let rest = gaps.drop_last();
        let g0 = gaps.last();
        law_histogram_counts_every_gap(rest);
        let before = histogram_after_all(empty_histogram(), rest);
        let h = histogram_after_all(empty_histogram(), gaps);
        assert(gaps =~= rest.push(g0));
        assert(h == histogram_after(before, g0));
        assert forall|g: i128| #[trigger] h.2.contains_key(g) <==> gaps.contains(g) by {
            if gaps.contains(g) && g != g0 {
                let i = choose|i: int| 0 <= i < gaps.len() && gaps[i] == g;
                assert(rest[i] == g);
            }
            if rest.contains(g) {
                let i = choose|i: int| 0 <= i < rest.len() && rest[i] == g;
                assert(gaps[i] == g);
            }
            assert(gaps[gaps.len() - 1] == g0);
        }
        assert forall|g: i128| #[trigger] h.2.contains_key(g) implies h.2[g] == gaps.to_multiset().count(g) by {
            assert(gaps.to_multiset() == rest.to_multiset().insert(g0));
            if g == g0 && !before.2.contains_key(g) {
                assert(!rest.contains(g));
                assert(rest.to_multiset().count(g) == 0);
            }
            if before.2.contains_key(g) {
                lemma_count_bounded(rest, g);
            }
        }
        assert(gaps[gaps.len() - 1] == g0);
        if rest.len() > 0 {
            assert(rest.contains(rest[0]));
            assert(before.2.contains_key(rest[0]));
            assert(before.2 != Map::<i128, u64>::empty());
            let i0 = choose|i: int| 0 <= i < rest.len() && rest[i] == before.0;
            assert(gaps[i0] == before.0);
            let i1 = choose|i: int| 0 <= i < rest.len() && rest[i] == before.1;
            assert(gaps[i1] == before.1);
        } else {
            assert(before.2 == Map::<i128, u64>::empty());
        }
        assert forall|i: int| 0 <= i < gaps.len() implies h.0 <= #[trigger] gaps[i] <= h.1 by {
            if i < rest.len() {
                assert(rest[i] == gaps[i]);
            }
        }
    } else {
        let h = histogram_after_all(empty_histogram(), gaps);
        assert forall|g: i128| #[trigger] h.2.contains_key(g) <==> gaps.contains(g) by {
            if gaps.contains(g) {
                let i = choose|i: int| 0 <= i < gaps.len() && gaps[i] == g;
            }
        }
    }
}

/// After latching the first `k` gaps of `gaps` into an empty histogram, it
/// is the histogram of those gaps.
proof fn lemma_trace_histogram(hs: Seq<HistogramModel>, gaps: Seq<i128>, k: int)
    requires
        0 <= k <= gaps.len(),
        hs.len() == gaps.len() + 1,
        hs[0] == empty_histogram(),
        forall|i: int| #![trigger gaps[i]] 0 <= i < gaps.len() ==> hs[i + 1] == histogram_after(hs[i], gaps[i]),
    ensures
        hs[k] == histogram_after_all(empty_histogram(), gaps.take(k)),
    decreases k,
{
    if k > 0 {
        lemma_trace_histogram(hs, gaps, k - 1);
        assert(hs[k] == histogram_after(hs[k - 1], gaps[k - 1]));
        assert(gaps.take(k).drop_last() =~= gaps.take(k - 1));
        assert(gaps.take(k).last() == gaps[k - 1]);
    } else {
        assert(gaps.take(0) =~= Seq::<i128>::empty());
    }
}

/// Starting from an empty histogram, after latching the gaps `gaps` one
/// after the other, at least one, the shortest gap is the least of them and
/// the largest gap the greatest. Each histogram of `hs` is the one before it
/// after one latch, as [`QcSamplingHistogramAnalysis::latch`] ensures of the
/// histograms' views.
pub proof fn law_extremes_after_latches(hs: Seq<HistogramModel>, gaps: Seq<i128>)
    requires
        gaps.len() > 0,
        gaps.len() < u64::MAX,
        hs.len() == gaps.len() + 1,
        hs[0] == empty_histogram(),
        forall|i: int| #![trigger gaps[i]] 0 <= i < gaps.len() ==> hs[i + 1] == histogram_after(hs[i], gaps[i]),
    ensures
        hs.last().0 == least(gaps.map_values(|g: i128| g as int)),
        hs.last().1 == greatest(gaps.map_values(|g: i128| g as int)),
{
    let n = gaps.len() as int;
    lemma_trace_histogram(hs, gaps, n);
    assert(gaps.take(n) =~= gaps);
    law_histogram_counts_every_gap(gaps);
    let h = histogram_after_all(empty_histogram(), gaps);
    let t = gaps.map_values(|g: i128| g as int);
    let i0 = choose|i: int| 0 <= i < gaps.len() && gaps[i] == h.0;
    let i1 = choose|i: int| 0 <= i < gaps.len() && gaps[i] == h.1;
    assert(t[i0] == h.0);
    assert(t[i1] == h.1);
    assert forall|i: int| 0 <= i < t.len() implies h.0 <= #[trigger] t[i] && h.1 >= t[i] by {
        assert(t[i] == gaps[i]);
    }
    lemma_least_greatest(t, h.0 as int);
    lemma_least_greatest(t, h.1 as int);
    assert(hs[n] == hs.last());
}

/// Identifies one data stream of a gap histogram.
#[derive(Clone, Debug)]
pub struct QcSamplingHistogramKey {
    pub indexing: QcIndexing,
    pub constellation: Constellation,
    pub carrier: Carrier,
}

impl View for QcSamplingHistogramKey {
    type V = ((u8, Seq<char>), Constellation, Carrier);

    open spec fn view(&self) -> ((u8, Seq<char>), Constellation, Carrier) {
        (self.indexing@, self.constellation, self.carrier)
    }
}

impl KeyView for QcSamplingHistogramKey {
    fn same_key(&self, other: &Self) -> (b: bool) {
        self.indexing.same_key(&other.indexing) && self.constellation == other.constellation
            && self.carrier == other.carrier
    }

    fn copy_key(&self) -> (r: Self) {
        QcSamplingHistogramKey {
            indexing: self.indexing.copy_key(),
            constellation: self.constellation,
            carrier: self.carrier,
        }
    }
}

/// Gap histograms of observations, one per data source, constellation and
/// carrier.
pub struct QcObservationsSamplingGapHistogram {
    /// Histogram name (title).
    pub name: String,
    /// Overall largest gap duration.
    pub largest_gap: Duration,
    /// Overall shortest gap duration.
    pub shortest_gap: Duration,
    /// One histogram per data stream.
    pub results: AssocMap<QcSamplingHistogramKey, QcSamplingHistogramAnalysis>,
}

impl QcObservationsSamplingGapHistogram {
    /// An empty set of histograms named `name`; both overall extremes hold
    /// the null duration until the first gap is latched.
    pub fn new(name: &str) -> (h: Self)
        ensures
            h.name@ == name@,
            h.largest_gap.total_ns == 0,
            h.shortest_gap.total_ns == 0,
            h.results@ == Map::<
                ((u8, Seq<char>), Constellation, Carrier),
                QcSamplingHistogramAnalysis,
            >::empty(),
    {
        QcObservationsSamplingGapHistogram {
            name: String::from_str(name),
            results: AssocMap::new(),
            largest_gap: Duration::zero(),
            shortest_gap: Duration::zero(),
        }
    }

    /// True when latching `gap` on the stream `key` does not overflow a
    /// population counter.
    pub open spec fn can_latch(
        self,
        key: ((u8, Seq<char>), Constellation, Carrier),
        gap: Duration,
    ) -> bool {
        self.results@.contains_key(key) ==> self.results@[key].can_latch(gap)
    }

    /// Latches one gap of the stream (`indexing`, `constellation`, `carrier`):
    /// the stream's histogram latches it as [`QcSamplingHistogramAnalysis::latch`]
    /// does, a new stream starting from an empty histogram; other streams are
    /// left as they were. The first gap latched sets the overall extremes,
    /// later ones widen them to cover the gap.
    pub fn latch(
        &mut self,
        indexing: &QcIndexing,
        constellation: Constellation,
        carrier: Carrier,
        gap: Duration,
    )
        requires
            old(self).can_latch((indexing@, constellation, carrier), gap),
        ensures
            ({
                let key = (indexing@, constellation, carrier);
                &&& final(self).results@.dom() == old(self).results@.dom().insert(key)
                &&& forall|k|
                    k != key && #[trigger] old(self).results@.contains_key(k) ==> final(self).results@[k] == old(self).results@[k]
                &&& final(self).results@[key]@ == histogram_after(
                    if old(self).results@.contains_key(key) {
                        old(self).results@[key]@
                    } else {
                        empty_histogram()
                    },
                    gap@,
                )
            }),
            final(self).name == old(self).name,
            (final(self).shortest_gap@, final(self).largest_gap@) == extremes_after(
                if old(self).results@ == Map::<
                    ((u8, Seq<char>), Constellation, Carrier),
                    QcSamplingHistogramAnalysis,
                >::empty() {
                    None
                } else {
                    Some((old(self).shortest_gap@, old(self).largest_gap@))
                },
                gap@,
            ),
    {
        if self.results.is_empty() {
            self.shortest_gap = gap;
            self.largest_gap = gap;
        } else {
            if gap.total_ns < self.shortest_gap.total_ns {
                self.shortest_gap = gap;
            }
            if gap.total_ns > self.largest_gap.total_ns {
                self.largest_gap = gap;
            }
        }
        let key = QcSamplingHistogramKey { indexing: indexing.copy_key(), constellation, carrier };
        match self.results.remove(&key) {
            Some(mut results) => {
                results.latch(gap);
                self.results.insert(key, results);
            },
            None => {
                let mut results = QcSamplingHistogramAnalysis::new();
                results.latch(gap);
                self.results.insert(key, results);
            },
        }
    }
}

} // verus!
