//! RTK network summary: rover and base stations, and the baselines between
//! stations whose positions are known.
use crate::header::QcSerializedRINEXHeader;
use crate::keyed::{AssocMap, KeyView};
use crate::model::{FloatBits, QcReferencePosition};
use vstd::prelude::*;

verus! {

impl KeyView for (String, String) {
    fn same_key(&self, other: &Self) -> (b: bool) {
        self.0 == other.0 && self.1 == other.1
    }

    fn copy_key(&self) -> (r: Self) {
        (self.0.clone(), self.1.clone())
    }
}

/// Stations, by name: the reference position of each, when known.
pub type StationsModel = Map<Seq<char>, Option<QcReferencePosition>>;

/// Distances (km) between two stations, by pair of names.
pub type DistancesModel = Map<(Seq<char>, Seq<char>), FloatBits>;

/// Distances (km) from one station to others, by name of the other station.
pub type ReachModel = Map<Seq<char>, FloatBits>;

/// True when `dists` holds a distance for every station of `stations` whose
/// position is known.
pub open spec fn covers_positioned(dists: ReachModel, stations: StationsModel) -> bool {
    forall|s: Seq<char>|
        #[trigger] stations.contains_key(s) && stations[s] is Some ==> dists.contains_key(s)
}

/// Pairs (`s`, `name`) for every station `s` of `stations` whose position is
/// known, each at the distance `dists` gives for `s`.
pub open spec fn pairs_to(stations: StationsModel, name: Seq<char>, dists: ReachModel) -> DistancesModel {
    Map::new(
        |k: (Seq<char>, Seq<char>)| k.1 == name && stations.contains_key(k.0) && stations[k.0] is Some,
        |k: (Seq<char>, Seq<char>)| dists[k.0],
    )
}

/// Pairs (`name`, `s`) for every station `s` of `stations` whose position is
/// known, each at the distance `dists` gives for `s`.
pub open spec fn pairs_from(name: Seq<char>, stations: StationsModel, dists: ReachModel) -> DistancesModel {
    Map::new(
        |k: (Seq<char>, Seq<char>)| k.0 == name && stations.contains_key(k.1) && stations[k.1] is Some,
        |k: (Seq<char>, Seq<char>)| dists[k.1],
    )
}

/// The reference position a header announces, if any.
pub open spec fn header_position(item: QcSerializedRINEXHeader) -> Option<QcReferencePosition> {
    match item.data.rx_position {
        Some(p) => Some(
            QcReferencePosition { x_ecef_m: p.0, y_ecef_m: p.1, z_ecef_m: p.2, epoch: None, frame: None },
        ),
        None => None,
    }
}

/// True when `entry` is what a station entry holds of the header `item`:
/// nothing when the header announces no position, else the announced
/// position, coordinate for coordinate.
pub open spec fn holds_position_of(entry: Option<QcReferencePosition>, item: QcSerializedRINEXHeader) -> bool {
    match item.data.rx_position {
        None => entry is None,
        Some(p) => {
            &&& entry is Some
            &&& entry.unwrap().x_ecef_m == p.0
            &&& entry.unwrap().y_ecef_m == p.1
            &&& entry.unwrap().z_ecef_m == p.2
        },
    }
}

/// The position a header gives a station is the header's approximate
/// position, coordinate for coordinate, and none when it announces none.
pub proof fn law_station_position(item: QcSerializedRINEXHeader)
    ensures
        holds_position_of(header_position(item), item),
{
}

/// Summary of an RTK network.
pub struct QcRTKSummary {
    /// Rover stations.
    pub rovers: AssocMap<String, Option<QcReferencePosition>>,
    /// Base stations.
    pub bases: AssocMap<String, Option<QcReferencePosition>>,
    /// Baselines: projected distance (km) between each base and each rover.
    pub baseline_distances_km: AssocMap<(String, String), FloatBits>,
    /// Projected distance (km) between bases of the network.
    pub base_network_distances_km: AssocMap<(String, String), FloatBits>,
}

/// A single station map.
fn single_station(item: &QcSerializedRINEXHeader) -> (m: AssocMap<String, Option<QcReferencePosition>>)
    ensures
        m@ == Map::<Seq<char>, Option<QcReferencePosition>>::empty().insert(
            item.indexing.spec_label(),
            header_position(*item),
        ),
{
    let mut map = AssocMap::new();
    match item.data.rx_position {
        Some(position) => {
            let position = QcReferencePosition {
                x_ecef_m: position.0,
                y_ecef_m: position.1,
                z_ecef_m: position.2,
                epoch: None,
                frame: None,
            };
            map.insert(item.indexing.label(), Some(position));
        },
        None => {
            map.insert(item.indexing.label(), None);
        },
    }
    map
}

/// Inserts (`a`, `b`) into `distances` for every station of `stations`
/// with a known position, `a` being the station when `station_first`, `b`
/// otherwise; `name` is the other end, and `dists` gives the distance of
/// each station to it.
fn add_pairs(
    distances: &mut AssocMap<(String, String), FloatBits>,
    stations: &AssocMap<String, Option<QcReferencePosition>>,
    name: &String,
    dists: &AssocMap<String, FloatBits>,
    station_first: bool,
)
    requires
        covers_positioned(dists@, stations@),
    ensures
        final(distances)@ == old(distances)@.union_prefer_right(
            if station_first {
                pairs_to(stations@, name@, dists@)
            } else {
                pairs_from(name@, stations@, dists@)
            },
        ),
{
    let ghost target = if station_first {
        pairs_to(stations@, name@, dists@)
    } else {
        pairs_from(name@, stations@, dists@)
    };
    let ghost start = distances@;
    let n = stations.len();
    let mut i: usize = 0;
    while i < n
        invariant
            n == stations.pairs().len(),
            i <= n,
            covers_positioned(dists@, stations@),
            target == (if station_first {
                pairs_to(stations@, name@, dists@)
            } else {
                pairs_from(name@, stations@, dists@)
            }),
            forall|j: int|
                0 <= j < stations.pairs().len() ==> #[trigger] stations@.contains_key(
                    stations.pairs()[j].0@,
                ) && stations@[stations.pairs()[j].0@] == stations.pairs()[j].1,
            distances@ == start.union_prefer_right(
                target.restrict(
                    Set::new(
                        |k: (Seq<char>, Seq<char>)|
                            exists|j: int|
                                0 <= j < i && #[trigger] stations.pairs()[j].0@ == (
                                    if station_first {
                                        k.0
                                    } else {
                                        k.1
                                    }),
                    ),
                ),
            ),
        decreases n - i,
    {
        let ghost before = distances@;
        let entry = stations.entry(i);
        if entry.1.is_some() {
            proof {
                assert(stations@.contains_key(stations.pairs()[i as int].0@));
            }
            let d = *dists.get(&entry.0).unwrap();
            let key = if station_first {
                (entry.0.clone(), name.clone())
            } else {
                (name.clone(), entry.0.clone())
            };
            distances.insert(key, d);
        }
        proof {
            let seen_before = Set::new(
                |k: (Seq<char>, Seq<char>)|
                    exists|j: int|
                        0 <= j < i && #[trigger] stations.pairs()[j].0@ == (if station_first {
                            k.0
                        } else {
                            k.1
                        }),
            );
            let seen_after = Set::new(
                |k: (Seq<char>, Seq<char>)|
                    exists|j: int|
                        0 <= j < i + 1 && #[trigger] stations.pairs()[j].0@ == (if station_first {
                            k.0
                        } else {
                            k.1
                        }),
            );
            assert(distances@ =~= start.union_prefer_right(target.restrict(seen_after))) by {
                assert forall|k: (Seq<char>, Seq<char>)|
                    #[trigger] target.restrict(seen_after).contains_key(k) implies target.restrict(
                        seen_before,
                    ).contains_key(k) || stations.pairs()[i as int].0@ == (if station_first {
                        k.0
                    } else {
                        k.1
                    }) by {
                    let j = choose|j: int|
                        0 <= j < i + 1 && #[trigger] stations.pairs()[j].0@ == (if station_first {
                            k.0
                        } else {
                            k.1
                        });
                    if j < i {
                        assert(seen_before.contains(k));
                    }
                }
                assert forall|k: (Seq<char>, Seq<char>)|
                    #[trigger] target.restrict(seen_before).contains_key(k) implies target.restrict(
                        seen_after,
                    ).contains_key(k) by {
                    let j = choose|j: int|
                        0 <= j < i && #[trigger] stations.pairs()[j].0@ == (if station_first {
                            k.0
                        } else {
                            k.1
                        });
                    assert(seen_after.contains(k));
                }
                let cur = stations.pairs()[i as int].0@;
                assert(stations@.contains_key(cur));
                if entry.1.is_some() {
                    let kk = if station_first {
                        (cur, name@)
                    } else {
                        (name@, cur)
                    };
                    assert(seen_after.contains(kk));
                    assert(target.contains_key(kk));
                }
                assert forall|k: (Seq<char>, Seq<char>)|
                    target.contains_key(k) && stations.pairs()[i as int].0@ == (if station_first {
                        k.0
                    } else {
                        k.1
                    }) implies #[trigger] seen_after.contains(k) by {}
            }
        }
        i = i + 1;
    }
    proof {
        let seen = Set::new(
            |k: (Seq<char>, Seq<char>)|
                exists|j: int|
                    0 <= j < n && #[trigger] stations.pairs()[j].0@ == (if station_first {
                        k.0
                    } else {
                        k.1
                    }),
        );
        assert forall|k: (Seq<char>, Seq<char>)| #[trigger] target.contains_key(k) implies seen.contains(
            k,
        ) by {
            let s = if station_first {
                k.0
            } else {
                k.1
            };
            assert(stations@.contains_key(s));
            let j = choose|j: int| 0 <= j < stations.pairs().len() && stations.pairs()[j].0@ == s;
            assert(stations.pairs()[j].0@ == s);
        }
        assert(target.restrict(seen) =~= target);
    }
}

impl QcRTKSummary {
    /// An empty summary.
    pub fn new() -> (s: Self)
        ensures
            s.rovers@ == StationsModel::empty(),
            s.bases@ == StationsModel::empty(),
            s.baseline_distances_km@ == DistancesModel::empty(),
            s.base_network_distances_km@ == DistancesModel::empty(),
    {
        QcRTKSummary {
            rovers: AssocMap::new(),
            bases: AssocMap::new(),
            baseline_distances_km: AssocMap::new(),
            base_network_distances_km: AssocMap::new(),
        }
    }

    /// A summary made of the single rover that `item` describes.
    pub fn from_rover_header(item: &QcSerializedRINEXHeader) -> (s: Self)
        ensures
            holds_position_of(s.rovers@[item.indexing.spec_label()], *item),
            s.rovers@.contains_key(item.indexing.spec_label()),
            s.rovers@ == StationsModel::empty().insert(
                item.indexing.spec_label(),
                header_position(*item),
            ),
            s.bases@ == StationsModel::empty(),
            s.baseline_distances_km@ == DistancesModel::empty(),
            s.base_network_distances_km@ == DistancesModel::empty(),
    {
        QcRTKSummary {
            rovers: single_station(item),
            bases: AssocMap::new(),
            baseline_distances_km: AssocMap::new(),
            base_network_distances_km: AssocMap::new(),
        }
    }

    /// A summary made of the single base that `item` describes.
    pub fn from_base_header(item: &QcSerializedRINEXHeader) -> (s: Self)
        ensures
            holds_position_of(s.bases@[item.indexing.spec_label()], *item),
            s.bases@.contains_key(item.indexing.spec_label()),
            s.bases@ == StationsModel::empty().insert(
                item.indexing.spec_label(),
                header_position(*item),
            ),
            s.rovers@ == StationsModel::empty(),
            s.baseline_distances_km@ == DistancesModel::empty(),
            s.base_network_distances_km@ == DistancesModel::empty(),
    {
        QcRTKSummary {
            bases: single_station(item),
            rovers: AssocMap::new(),
            baseline_distances_km: AssocMap::new(),
            base_network_distances_km: AssocMap::new(),
        }
    }

    /// Latches a rover. When its position is known, a baseline is formed
    /// with every base whose position is known, at the projected distance
    /// that `base_distances_km` gives for that base.
    pub fn latch_rover_header(
        &mut self,
        item: &QcSerializedRINEXHeader,
        base_distances_km: &AssocMap<String, FloatBits>,
    )
        requires
            item.data.rx_position is Some ==> covers_positioned(
                base_distances_km@,
                old(self).bases@,
            ),
        ensures
            holds_position_of(final(self).rovers@[item.indexing.spec_label()], *item),
            final(self).rovers@.contains_key(item.indexing.spec_label()),
            final(self).rovers@ == old(self).rovers@.insert(
                item.indexing.spec_label(),
                header_position(*item),
            ),
            final(self).bases@ == old(self).bases@,
            final(self).baseline_distances_km@ == (if item.data.rx_position is Some {
                old(self).baseline_distances_km@.union_prefer_right(
                    pairs_to(old(self).bases@, item.indexing.spec_label(), base_distances_km@),
                )
            } else {
                old(self).baseline_distances_km@
            }),
            final(self).base_network_distances_km@ == old(self).base_network_distances_km@,
    {
        let name = item.indexing.label();
        match item.data.rx_position {
            Some(position) => {
                let position = QcReferencePosition {
                    x_ecef_m: position.0,
                    y_ecef_m: position.1,
                    z_ecef_m: position.2,
                    epoch: None,
                    frame: None,
                };
                self.rovers.insert(name.clone(), Some(position));
                add_pairs(&mut self.baseline_distances_km, &self.bases, &name, base_distances_km, true);
            },
            None => {
                self.rovers.insert(name, None);
            },
        }
    }

    /// Latches a base. When its position is known, a baseline is formed with
    /// every rover whose position is known, at the projected distance that
    /// `rover_distances_km` gives for that rover, and a network distance with
    /// every base whose position is known, itself included, at the distance
    /// that `base_distances_km` gives for that base.
    pub fn latch_base_header(
        &mut self,
        item: &QcSerializedRINEXHeader,
        rover_distances_km: &AssocMap<String, FloatBits>,
        base_distances_km: &AssocMap<String, FloatBits>,
    )
        requires
            item.data.rx_position is Some ==> covers_positioned(
                rover_distances_km@,
                old(self).rovers@,
            ) && covers_positioned(
                base_distances_km@,
                old(self).bases@.insert(item.indexing.spec_label(), header_position(*item)),
            ),
        ensures
            holds_position_of(final(self).bases@[item.indexing.spec_label()], *item),
            final(self).bases@.contains_key(item.indexing.spec_label()),
            final(self).bases@ == old(self).bases@.insert(
                item.indexing.spec_label(),
                header_position(*item),
            ),
            final(self).rovers@ == old(self).rovers@,
            final(self).baseline_distances_km@ == (if item.data.rx_position is Some {
                old(self).baseline_distances_km@.union_prefer_right(
                    pairs_from(item.indexing.spec_label(), old(self).rovers@, rover_distances_km@),
                )
            } else {
                old(self).baseline_distances_km@
            }),
            final(self).base_network_distances_km@ == (if item.data.rx_position is Some {
                old(self).base_network_distances_km@.union_prefer_right(
                    pairs_from(item.indexing.spec_label(), final(self).bases@, base_distances_km@),
                )
            } else {
                old(self).base_network_distances_km@
            }),
    {
        let name = item.indexing.label();
        match item.data.rx_position {
            Some(position) => {
                let position = QcReferencePosition {
                    x_ecef_m: position.0,
                    y_ecef_m: position.1,
                    z_ecef_m: position.2,
                    epoch: None,
                    frame: None,
                };
                self.bases.insert(name.clone(), Some(position));
                add_pairs(&mut self.baseline_distances_km, &self.rovers, &name, rover_distances_km, false);
                add_pairs(&mut self.base_network_distances_km, &self.bases, &name, base_distances_km, false);
            },
            None => {
                self.bases.insert(name, None);
            },
        }
    }
}

/// A base whose position is known is part of its own network distances,
/// at the distance given for it.
pub proof fn law_base_paired_with_itself(
    bases: StationsModel,
    name: Seq<char>,
    position: QcReferencePosition,
    dists: ReachModel,
)
    ensures
        pairs_from(name, bases.insert(name, Some(position)), dists).contains_key((name, name)),
        pairs_from(name, bases.insert(name, Some(position)), dists)[(name, name)] == dists[name],
{
}

/// A rover latched with a known position is paired with every base of known
/// position, at the distance given for that base, and with nothing else that
/// was not paired before.
pub proof fn law_rover_baselines(
    distances: DistancesModel,
    bases: StationsModel,
    rover: Seq<char>,
    base: Seq<char>,
    dists: ReachModel,
)
    ensures
        bases.contains_key(base) && bases[base] is Some ==> distances.union_prefer_right(
            pairs_to(bases, rover, dists),
        ).contains_key((base, rover)) && distances.union_prefer_right(
            pairs_to(bases, rover, dists),
        )[(base, rover)] == dists[base],
        forall|k: (Seq<char>, Seq<char>)|
            #[trigger] distances.union_prefer_right(pairs_to(bases, rover, dists)).contains_key(k)
                ==> distances.contains_key(k) || (k.1 == rover && bases.contains_key(k.0)
                && bases[k.0] is Some),
{
}

} // verus!
