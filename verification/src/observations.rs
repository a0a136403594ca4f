//! Storage of observed signal values: time series per satellite and carrier,
//! grouped per data source and constellation.
use crate::keyed::{AssocMap, KeyView};
use crate::model::{Carrier, Constellation, Epoch, FloatBits, QcIndexing, SV};
use crate::sorting::{greatest, least, lemma_least_greatest};
use vstd::prelude::*;

verus! {

/// A time series: instants and the values observed at them, never empty.
#[derive(Debug)]
pub struct TemporalData {
    size: usize,
    data: Vec<FloatBits>,
    epochs: Vec<Epoch>,
}

impl TemporalData {
    #[verifier::type_invariant]
    closed spec fn inv(self) -> bool {
        &&& self.size == self.epochs@.len()
        &&& self.size == self.data@.len()
        &&& self.size >= 1
    }

    /// Instants of the series, in the order they were pushed.
    pub closed spec fn spec_epochs(self) -> Seq<Epoch> {
        self.epochs@
    }

    /// Values of the series, in the order they were pushed.
    pub closed spec fn spec_data(self) -> Seq<FloatBits> {
        self.data@
    }

    /// A series of one point.
    pub fn new(t: Epoch, data: FloatBits) -> (s: Self)
        ensures
            s.spec_epochs() == seq![t],
            s.spec_data() == seq![data],
    {
        let mut x: Vec<Epoch> = Vec::with_capacity(8);
        let mut y: Vec<FloatBits> = Vec::with_capacity(8);
        x.push(t);
        y.push(data);
        proof {
            assert(x@ =~= seq![t]);
            assert(y@ =~= seq![data]);
        }
        TemporalData { size: 1, epochs: x, data: y }
    }

    /// Number of points.
    pub fn len(&self) -> (n: usize)
        ensures
            n == self.spec_epochs().len(),
            n == self.spec_data().len(),
            n >= 1,
    {
        proof {
            use_type_invariant(self);
        }
        self.size
    }

    /// Appends one point.
    pub fn push(&mut self, t: Epoch, data: FloatBits)
        requires
            old(self).spec_epochs().len() < usize::MAX,
        ensures
            final(self).spec_epochs() == old(self).spec_epochs().push(t),
            final(self).spec_data() == old(self).spec_data().push(data),
    {
        proof {
            use_type_invariant(&*self);
        }
        let mut tmp = TemporalData::new(t, data);
        std::mem::swap(&mut tmp, self);
        let TemporalData { size, data: mut values, mut epochs } = tmp;
        epochs.push(t);
        values.push(data);
        *self = TemporalData { size: size + 1, epochs, data: values };
    }

    /// First instant.
    pub fn first_epoch(&self) -> (e: Epoch)
        ensures
            e == self.spec_epochs()[0],
    {
        proof {
            use_type_invariant(self);
        }
        self.epochs[0]
    }

    /// Last instant.
    pub fn last_epoch(&self) -> (e: Epoch)
        ensures
            e == self.spec_epochs().last(),
    {
        proof {
            use_type_invariant(self);
        }
        self.epochs[self.size - 1]
    }

    /// First value: the lower end of the vertical range a plot of the series
    /// starts from.
    pub fn ymin(&self) -> (v: FloatBits)
        ensures
            v == self.spec_data()[0],
    {
        proof {
            use_type_invariant(self);
        }
        self.data[0]
    }

    /// Last value: the upper end of the vertical range a plot of the series
    /// starts from.
    pub fn ymax(&self) -> (v: FloatBits)
        ensures
            v == self.spec_data().last(),
    {
        proof {
            use_type_invariant(self);
        }
        self.data[self.size - 1]
    }

    /// The instants.
    pub fn epochs(&self) -> (s: &[Epoch])
        ensures
            s@ == self.spec_epochs(),
    {
        self.epochs.as_slice()
    }

    /// The values.
    pub fn data(&self) -> (s: &[FloatBits])
        ensures
            s@ == self.spec_data(),
    {
        self.data.as_slice()
    }
}

/// The instants of a series after pushing each point of `points` in turn.
pub open spec fn pushed_epochs(start: Seq<Epoch>, points: Seq<(Epoch, FloatBits)>) -> Seq<Epoch>
    decreases points.len(),
{
    if points.len() == 0 {
        start
    } else {
        pushed_epochs(start, points.drop_last()).push(points.last().0)
    }
}

/// The values of a series after pushing each point of `points` in turn.
pub open spec fn pushed_data(start: Seq<FloatBits>, points: Seq<(Epoch, FloatBits)>) -> Seq<
    FloatBits,
>
    decreases points.len(),
{
    if points.len() == 0 {
        start
    } else {
        pushed_data(start, points.drop_last()).push(points.last().1)
    }
}

/// A series made with one point then pushed any points holds the first
/// point followed by the pushed ones, in order: its first instant and value
/// are the first point's, its last ones those of the last point pushed.
pub proof fn law_series_after_pushes(t: Epoch, v: FloatBits, points: Seq<(Epoch, FloatBits)>)
    ensures
        pushed_epochs(seq![t], points) == seq![t] + points.map_values(|p: (Epoch, FloatBits)| p.0),
        pushed_data(seq![v], points) == seq![v] + points.map_values(|p: (Epoch, FloatBits)| p.1),
        pushed_epochs(seq![t], points).len() == points.len() + 1,
        pushed_epochs(seq![t], points)[0] == t,
        pushed_data(seq![v], points)[0] == v,
        points.len() > 0 ==> pushed_epochs(seq![t], points).last() == points.last().0
            && pushed_data(seq![v], points).last() == points.last().1,
    decreases points.len(),
{
    if points.len() > 0 {
        let rest = points.drop_last();
        law_series_after_pushes(t, v, rest);
        assert(seq![t] + points.map_values(|p: (Epoch, FloatBits)| p.0) =~= (seq![t]
            + rest.map_values(|p: (Epoch, FloatBits)| p.0)).push(points.last().0));
        assert(seq![v] + points.map_values(|p: (Epoch, FloatBits)| p.1) =~= (seq![v]
            + rest.map_values(|p: (Epoch, FloatBits)| p.1)).push(points.last().1));
    }
}

/// After the first `k` pushes of `points`, a series holds what
/// [`pushed_epochs`] and [`pushed_data`] give.
proof fn lemma_trace_series(
    series: Seq<TemporalData>,
    t: Epoch,
    v: FloatBits,
    points: Seq<(Epoch, FloatBits)>,
    k: int,
)
    requires
        0 <= k <= points.len(),
        series.len() == points.len() + 1,
        series[0].spec_epochs() == seq![t],
        series[0].spec_data() == seq![v],
        forall|i: int|
            #![trigger points[i]]
            0 <= i < points.len() ==> series[i + 1].spec_epochs() == series[i].spec_epochs().push(
                points[i].0,
            ) && series[i + 1].spec_data() == series[i].spec_data().push(points[i].1),
    ensures
        series[k].spec_epochs() == pushed_epochs(seq![t], points.take(k)),
        series[k].spec_data() == pushed_data(seq![v], points.take(k)),
    decreases k,
{
    if k > 0 {
        lemma_trace_series(series, t, v, points, k - 1);
        let p = points[k - 1];
        assert(points.take(k).drop_last() =~= points.take(k - 1));
        assert(points.take(k).last() == p);
    } else {
        assert(points.take(0) =~= Seq::<(Epoch, FloatBits)>::empty());
    }
}

/// A series made by [`TemporalData::new`] with one point, then given any
/// points by [`TemporalData::push`] one after the other, holds the first
/// point followed by the pushed ones, in order: one more point than were
/// pushed, its first instant the first point's, its last instant and value
/// those of the last point pushed. Each series of `series` is the one
/// before it after one push, as `push` ensures.
pub proof fn law_series_after_push_calls(
    series: Seq<TemporalData>,
    t: Epoch,
    v: FloatBits,
    points: Seq<(Epoch, FloatBits)>,
)
    requires
        series.len() == points.len() + 1,
        series[0].spec_epochs() == seq![t],
        series[0].spec_data() == seq![v],
        forall|i: int|
            #![trigger points[i]]
            0 <= i < points.len() ==> series[i + 1].spec_epochs() == series[i].spec_epochs().push(
                points[i].0,
            ) && series[i + 1].spec_data() == series[i].spec_data().push(points[i].1),
    ensures
        series.last().spec_epochs() == seq![t] + points.map_values(|p: (Epoch, FloatBits)| p.0),
        series.last().spec_data() == seq![v] + points.map_values(|p: (Epoch, FloatBits)| p.1),
        series.last().spec_epochs().len() == points.len() + 1,
        series.last().spec_data().len() == points.len() + 1,
        series.last().spec_epochs()[0] == t,
        series.last().spec_epochs().last() == (if points.len() > 0 {
            points.last().0
        } else {
            t
        }),
        series.last().spec_data().last() == (if points.len() > 0 {
            points.last().1
        } else {
            v
        }),
{
    let n = points.len() as int;
    lemma_trace_series(series, t, v, points, n);
    assert(points.take(n) =~= points);
    law_series_after_pushes(t, v, points);
    assert(series[n] == series.last());
}

impl KeyView for (SV, Carrier) {
    fn same_key(&self, other: &Self) -> (b: bool) {
        self.0 == other.0 && self.1 == other.1
    }

    fn copy_key(&self) -> (r: Self) {
        (self.0, self.1)
    }
}

impl KeyView for (QcIndexing, Constellation) {
    fn same_key(&self, other: &Self) -> (b: bool) {
        self.0.same_key(&other.0) && self.1 == other.1
    }

    fn copy_key(&self) -> (r: Self) {
        (self.0.copy_key(), self.1)
    }
}

/// What the series of one key are made of after a point is latched into
/// `before` (`None` when there was no series for that key yet).
pub open spec fn series_after(
    before: Option<TemporalData>,
    after: TemporalData,
    t: Epoch,
    v: FloatBits,
) -> bool {
    match before {
        Some(b) => after.spec_epochs() == b.spec_epochs().push(t) && after.spec_data()
            == b.spec_data().push(v),
        None => after.spec_epochs() == seq![t] && after.spec_data() == seq![v],
    }
}

/// Observations of one data source and one constellation.
pub struct DataStorage {
    /// Reported time of first observation.
    pub time_of_first_obs: Epoch,
    /// Reported time of last observation.
    pub time_of_last_obs: Epoch,
    /// One series per satellite and carrier.
    pub storage: AssocMap<(SV, Carrier), TemporalData>,
}

impl DataStorage {
    /// True when one more point can be latched for (`sv`, `carrier`).
    pub open spec fn can_latch(self, sv: SV, carrier: Carrier) -> bool {
        self.storage@.contains_key((sv, carrier)) ==> self.storage@[(
            sv,
            carrier,
        )].spec_epochs().len() < usize::MAX
    }

    /// Storage holding a single point.
    pub fn new(sv: SV, carrier: Carrier, epoch: Epoch, point: FloatBits) -> (s: Self)
        ensures
            s.time_of_first_obs == epoch,
            s.time_of_last_obs == epoch,
            s.storage@.dom() == set![(sv, carrier)],
            series_after(None, s.storage@[(sv, carrier)], epoch, point),
    {
        let mut storage = AssocMap::new();
        storage.insert((sv, carrier), TemporalData::new(epoch, point));
        proof {
            assert(storage@.dom() =~= set![(sv, carrier)]);
        }
        DataStorage { storage, time_of_first_obs: epoch, time_of_last_obs: epoch }
    }

    /// Latches one point: it becomes the time of last observation and is
    /// appended to the series of (`sv`, `carrier`), which is created when
    /// absent.
    pub fn latch_data_point(&mut self, sv: SV, carrier: Carrier, epoch: Epoch, point: FloatBits)
        requires
            old(self).can_latch(sv, carrier),
        ensures
            final(self).time_of_last_obs == epoch,
            final(self).time_of_first_obs == old(self).time_of_first_obs,
            final(self).storage@.dom() == old(self).storage@.dom().insert((sv, carrier)),
            forall|k|
                k != (sv, carrier) && #[trigger] old(self).storage@.contains_key(k) ==> final(self).storage@[k] == old(self).storage@[k],
            series_after(
                if old(self).storage@.contains_key((sv, carrier)) {
                    Some(old(self).storage@[(sv, carrier)])
                } else {
                    None
                },
                final(self).storage@[(sv, carrier)],
                epoch,
                point,
            ),
    {
        self.time_of_last_obs = epoch;
        let key = (sv, carrier);
        match self.storage.remove(&key) {
            Some(mut series) => {
                series.push(epoch, point);
                self.storage.insert(key, series);
            },
            None => {
                self.storage.insert(key, TemporalData::new(epoch, point));
            },
        }
    }
}

/// The overall time frame (first, last) after observing `epoch`: it widens
/// to cover it.
pub open spec fn frame_after(frame: (Epoch, Epoch), epoch: Epoch) -> (Epoch, Epoch) {
    (
        if epoch.tai_ns < frame.0.tai_ns {
            epoch
        } else {
            frame.0
        },
        if epoch.tai_ns > frame.1.tai_ns {
            epoch
        } else {
            frame.1
        },
    )
}

/// The overall time frame after latching `epoch`: the instant alone when
/// nothing was latched before (`None`), else `frame` widened to cover it.
pub open spec fn latched_frame(frame: Option<(Epoch, Epoch)>, epoch: Epoch) -> (Epoch, Epoch) {
    match frame {
        None => (epoch, epoch),
        Some(f) => frame_after(f, epoch),
    }
}

/// The overall time frame after latching each instant of `epochs` in turn,
/// starting with nothing latched; `None` while `epochs` is empty.
pub open spec fn observed_frame(epochs: Seq<Epoch>) -> Option<(Epoch, Epoch)>
    decreases epochs.len(),
{
    if epochs.len() == 0 {
        None
    } else {
        Some(latched_frame(observed_frame(epochs.drop_last()), epochs.last()))
    }
}

/// Whatever instants are latched, at least one, the overall time frame runs
/// from the earliest of them to the latest: both ends are latched instants,
/// and every latched instant lies between them.
pub proof fn law_time_frame_covers(epochs: Seq<Epoch>)
    requires
        epochs.len() > 0,
    ensures
        ({
            let f = observed_frame(epochs)->0;
            &&& observed_frame(epochs) is Some
            &&& forall|i: int|
                0 <= i < epochs.len() ==> f.0.tai_ns <= #[trigger] epochs[i].tai_ns <= f.1.tai_ns
            &&& epochs.contains(f.0)
            &&& epochs.contains(f.1)
        }),
    decreases epochs.len(),
{
    let rest = epochs.drop_last();
    let f = observed_frame(epochs)->0;
    assert(epochs[epochs.len() - 1] == epochs.last());
    if rest.len() > 0 {
        law_time_frame_covers(rest);
        let before = observed_frame(rest)->0;
        assert forall|i: int| 0 <= i < epochs.len() implies f.0.tai_ns <= #[trigger] epochs[i].tai_ns
            <= f.1.tai_ns by {
            if i < rest.len() {
                assert(rest[i] == epochs[i]);
            }
        }
        let i0 = choose|i: int| 0 <= i < rest.len() && rest[i] == before.0;
        assert(epochs[i0] == before.0);
        let i1 = choose|i: int| 0 <= i < rest.len() && rest[i] == before.1;
        assert(epochs[i1] == before.1);
    } else {
        assert(epochs.len() == 1);
    }
}

/// One latch of instant `epoch`, from report `before` to report `after`, as
/// far as the overall time frame goes: the frame is the instant alone when
/// `before` held no data, else `before`'s frame widened to cover it; and
/// `after` holds data.
pub open spec fn latch_step(before: QcObservationsReport, after: QcObservationsReport, epoch: Epoch) -> bool {
    &&& (after.time_of_first_obs, after.time_of_last_obs) == latched_frame(
        if before.data@ == Map::<((u8, Seq<char>), Constellation), DataStorage>::empty() {
            None
        } else {
            Some((before.time_of_first_obs, before.time_of_last_obs))
        },
        epoch,
    )
    &&& after.data@ != Map::<((u8, Seq<char>), Constellation), DataStorage>::empty()
}

/// The instants of `epochs`, in nanoseconds of TAI.
pub open spec fn tai_of(epochs: Seq<Epoch>) -> Seq<int> {
    epochs.map_values(|e: Epoch| e.tai_ns as int)
}

/// After latching the first `k` instants of `epochs` into an empty report,
/// its frame is the observed frame of those instants.
proof fn lemma_trace_frame(reports: Seq<QcObservationsReport>, epochs: Seq<Epoch>, k: int)
    requires
        1 <= k <= epochs.len(),
        reports.len() == epochs.len() + 1,
        reports[0].data@ == Map::<((u8, Seq<char>), Constellation), DataStorage>::empty(),
        forall|i: int| #![trigger epochs[i]] 0 <= i < epochs.len() ==> latch_step(reports[i], reports[i + 1], epochs[i]),
    ensures
        observed_frame(epochs.take(k)) == Some(
            (reports[k].time_of_first_obs, reports[k].time_of_last_obs),
        ),
    decreases k,
{
    assert(latch_step(reports[k - 1], reports[k], epochs[k - 1]));
    assert(epochs.take(k).drop_last() =~= epochs.take(k - 1));
    assert(epochs.take(k).last() == epochs[k - 1]);
    if k == 1 {
        assert(epochs.take(0) =~= Seq::<Epoch>::empty());
    } else {
        lemma_trace_frame(reports, epochs, k - 1);
        assert(latch_step(reports[k - 2], reports[k - 1], epochs[k - 2]));
    }
}

/// Starting from an empty report, after latching the instants `epochs` one
/// after the other, at least one, the time of first observation is the
/// earliest of them and the time of last observation the latest. Each
/// report of `reports` is the one before it after one latch, as
/// [`QcObservationsReport::latch_data_point`] ensures.
pub proof fn law_first_and_last_observation(reports: Seq<QcObservationsReport>, epochs: Seq<Epoch>)
    requires
        epochs.len() > 0,
        reports.len() == epochs.len() + 1,
        reports[0].data@ == Map::<((u8, Seq<char>), Constellation), DataStorage>::empty(),
        forall|i: int| #![trigger epochs[i]] 0 <= i < epochs.len() ==> latch_step(reports[i], reports[i + 1], epochs[i]),
    ensures
        reports.last().time_of_first_obs.tai_ns == least(tai_of(epochs)),
        reports.last().time_of_last_obs.tai_ns == greatest(tai_of(epochs)),
        epochs.contains(reports.last().time_of_first_obs),
        epochs.contains(reports.last().time_of_last_obs),
{
    let n = epochs.len() as int;
    lemma_trace_frame(reports, epochs, n);
    assert(epochs.take(n) =~= epochs);
    law_time_frame_covers(epochs);
    let f = observed_frame(epochs)->0;
    let t = tai_of(epochs);
    let i0 = choose|i: int| 0 <= i < epochs.len() && epochs[i] == f.0;
    let i1 = choose|i: int| 0 <= i < epochs.len() && epochs[i] == f.1;
    assert(t[i0] == f.0.tai_ns);
    assert(t[i1] == f.1.tai_ns);
    assert forall|i: int| 0 <= i < t.len() implies f.0.tai_ns <= #[trigger] t[i] && f.1.tai_ns >= t[i] by {
        assert(t[i] == epochs[i].tai_ns);
    }
    lemma_least_greatest(t, f.0.tai_ns as int);
    lemma_least_greatest(t, f.1.tai_ns as int);
    assert(reports[n] == reports.last());
}

/// Observations of one kind (pseudo range, phase, ...) across data sources.
pub struct QcObservationsReport {
    /// Report name.
    pub name: String,
    /// Overall time of first observation.
    pub time_of_first_obs: Epoch,
    /// Overall time of last observation.
    pub time_of_last_obs: Epoch,
    /// Stored data, per data source and constellation.
    pub data: AssocMap<(QcIndexing, Constellation), DataStorage>,
}

impl QcObservationsReport {
    /// An empty report. Both overall times hold the reference epoch until
    /// the first point is latched, which then sets them.
    pub fn new(name: &str) -> (r: Self)
        ensures
            r.name@ == name@,
            r.data@ == Map::<((u8, Seq<char>), Constellation), DataStorage>::empty(),
            r.time_of_first_obs.tai_ns == 0,
            r.time_of_last_obs.tai_ns == 0,
    {
        QcObservationsReport {
            name: String::from_str(name),
            data: AssocMap::new(),
            time_of_last_obs: Epoch::reference(),
            time_of_first_obs: Epoch::reference(),
        }
    }

    /// True when one more point can be latched for this source and satellite.
    pub open spec fn can_latch(self, indexing: QcIndexing, sv: SV, carrier: Carrier) -> bool {
        self.data@.contains_key((indexing@, sv.constellation)) ==> self.data@[(
            indexing@,
            sv.constellation,
        )].can_latch(sv, carrier)
    }

    /// Latches one observed value: the first one sets the overall time
    /// frame to `epoch`, later ones widen it to cover `epoch`; then it latches the point into the storage of (`indexing`,
    /// constellation of `sv`), which is created when absent.
    pub fn latch_data_point(
        &mut self,
        indexing: &QcIndexing,
        sv: SV,
        carrier: Carrier,
        epoch: Epoch,
        value: FloatBits,
    )
        requires
            old(self).can_latch(*indexing, sv, carrier),
        ensures
            final(self).name == old(self).name,
            latch_step(*old(self), *final(self), epoch),
            (final(self).time_of_first_obs, final(self).time_of_last_obs) == latched_frame(
                if old(self).data@ == Map::<((u8, Seq<char>), Constellation), DataStorage>::empty() {
                    None
                } else {
                    Some((old(self).time_of_first_obs, old(self).time_of_last_obs))
                },
                epoch,
            ),
            ({
                let key = (indexing@, sv.constellation);
                let after = final(self).data@[key];
                &&& final(self).data@.dom() == old(self).data@.dom().insert(key)
                &&& forall|k|
                    k != key && #[trigger] old(self).data@.contains_key(k) ==> final(self).data@[k]
                        == old(self).data@[k]
                &&& after.time_of_last_obs == epoch
                &&& after.storage@.dom() == (if old(self).data@.contains_key(key) {
                    old(self).data@[key].storage@.dom()
                } else {
                    Set::empty()
                }).insert((sv, carrier))
                &&& old(self).data@.contains_key(key) ==> {
                    let before = old(self).data@[key];
                    &&& after.time_of_first_obs == before.time_of_first_obs
                    &&& forall|k|
                        k != (sv, carrier) && #[trigger] before.storage@.contains_key(k)
                            ==> after.storage@[k] == before.storage@[k]
                    &&& series_after(
                        if before.storage@.contains_key((sv, carrier)) {
                            Some(before.storage@[(sv, carrier)])
                        } else {
                            None
                        },
                        after.storage@[(sv, carrier)],
                        epoch,
                        value,
                    )
                }
                &&& !old(self).data@.contains_key(key) ==> {
                    &&& after.time_of_first_obs == epoch
                    &&& series_after(None, after.storage@[(sv, carrier)], epoch, value)
                }
            }),
    {
        let key = (indexing.copy_key(), sv.constellation);
        let ghost gkey = (indexing@, sv.constellation);
        if self.data.is_empty() {
            self.time_of_first_obs = epoch;
            self.time_of_last_obs = epoch;
        } else {
            if epoch.tai_ns < self.time_of_first_obs.tai_ns {
                self.time_of_first_obs = epoch;
            }
            if epoch.tai_ns > self.time_of_last_obs.tai_ns {
                self.time_of_last_obs = epoch;
            }
        }
        match self.data.remove(&key) {
            Some(mut inner) => {
                inner.latch_data_point(sv, carrier, epoch, value);
                self.data.insert(key, inner);
            },
            None => {
                let storage = DataStorage::new(sv, carrier, epoch, value);
                proof {
                    assert(storage.storage@.dom() =~= Set::empty().insert((sv, carrier)));
                }
                self.data.insert(key, storage);
            },
        }
        proof {
            assert(self.data@.contains_key(gkey));
        }
    }
}

} // verus!
