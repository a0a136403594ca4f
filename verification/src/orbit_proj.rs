//! Orbit projections: precise satellite positions, per data publisher and
//! constellation, indexed by satellite and instant.
use crate::keyed::{AssocMap, KeyView};
use crate::model::{Constellation, Epoch, FloatBits, QcIndexing, SV};
use vstd::prelude::*;

verus! {

/// ECEF coordinates, in kilometers.
pub type PositionKm = (FloatBits, FloatBits, FloatBits);

/// One precise state: a satellite position at one instant.
#[derive(Debug, Clone, Copy)]
pub struct QcPreciseState {
    pub sv: SV,
    pub epoch: Epoch,
    pub position_km: PositionKm,
}

/// A precise state, together with the data source that published it.
#[derive(Debug, Clone)]
pub struct QcSerializedPreciseState {
    pub indexing: QcIndexing,
    pub data: QcPreciseState,
}

/// Satellite and instant of one projected position.
#[derive(Debug, Clone, Copy)]
pub struct QcOrbitProjectionKey {
    pub sv: SV,
    pub epoch: Epoch,
}

impl View for QcOrbitProjectionKey {
    type V = (SV, i128);

    open spec fn view(&self) -> (SV, i128) {
        (self.sv, self.epoch@)
    }
}

impl KeyView for QcOrbitProjectionKey {
    fn same_key(&self, other: &Self) -> (b: bool) {
        self.sv == other.sv && self.epoch.same_key(&other.epoch)
    }

    fn copy_key(&self) -> (r: Self) {
        *self
    }
}

/// Projected positions of one constellation.
pub struct QcConstellationOrbitProj {
    pub projection_km: AssocMap<QcOrbitProjectionKey, PositionKm>,
}

impl View for QcConstellationOrbitProj {
    type V = Map<(SV, i128), PositionKm>;

    open spec fn view(&self) -> Map<(SV, i128), PositionKm> {
        self.projection_km@
    }
}

/// Data source and constellation of a set of projections.
#[derive(Debug, Clone)]
pub struct QcOrbitProjectionsKey {
    pub indexing: QcIndexing,
    pub constellation: Constellation,
}

impl View for QcOrbitProjectionsKey {
    type V = ((u8, Seq<char>), Constellation);

    open spec fn view(&self) -> ((u8, Seq<char>), Constellation) {
        (self.indexing@, self.constellation)
    }
}

impl KeyView for QcOrbitProjectionsKey {
    fn same_key(&self, other: &Self) -> (b: bool) {
        self.indexing.same_key(&other.indexing) && self.constellation == other.constellation
    }

    fn copy_key(&self) -> (r: Self) {
        QcOrbitProjectionsKey { indexing: self.indexing.copy_key(), constellation: self.constellation }
    }
}

/// Model of a set of projections: positions per source and constellation,
/// then per satellite and instant.
pub type ProjectionsModel = Map<((u8, Seq<char>), Constellation), Map<(SV, i128), PositionKm>>;

/// Projections after latching `item` into `m`: the position of the item's
/// satellite at the item's instant, under its source and constellation,
/// replaces any earlier one.
pub open spec fn spec_latch(m: ProjectionsModel, item: QcSerializedPreciseState) -> ProjectionsModel {
    let key = (item.indexing@, item.data.sv.constellation);
    let inner = if m.contains_key(key) {
        m[key]
    } else {
        Map::empty()
    };
    m.insert(key, inner.insert((item.data.sv, item.data.epoch@), item.data.position_km))
}

impl QcConstellationOrbitProj {
    /// Projections holding the single state of `item`.
    pub fn from_precise_state(item: &QcSerializedPreciseState) -> (p: Self)
        ensures
            p@ == Map::<(SV, i128), PositionKm>::empty().insert(
                (item.data.sv, item.data.epoch@),
                item.data.position_km,
            ),
    {
        let key = QcOrbitProjectionKey { sv: item.data.sv, epoch: item.data.epoch };
        let mut projection_km = AssocMap::new();
        projection_km.insert(key, item.data.position_km);
        QcConstellationOrbitProj { projection_km }
    }

    /// Stores the state of `item`, replacing any position of the same
    /// satellite at the same instant.
    pub fn latch_precise_state(&mut self, item: &QcSerializedPreciseState)
        ensures
            final(self)@ == old(self)@.insert(
                (item.data.sv, item.data.epoch@),
                item.data.position_km,
            ),
    {
        let key = QcOrbitProjectionKey { sv: item.data.sv, epoch: item.data.epoch };
        self.projection_km.insert(key, item.data.position_km);
    }
}

/// Orbit projections of every data source and constellation.
pub struct QcOrbitProjections {
    pub projections: AssocMap<QcOrbitProjectionsKey, QcConstellationOrbitProj>,
}

impl View for QcOrbitProjections {
    type V = ProjectionsModel;

    open spec fn view(&self) -> ProjectionsModel {
        self.projections@.map_values(|p: QcConstellationOrbitProj| p@)
    }
}

impl QcOrbitProjections {
    /// Projections holding the single state of `item`.
    pub fn from_precise_state(item: &QcSerializedPreciseState) -> (p: Self)
        ensures
            p@ == spec_latch(Map::empty(), *item),
    {
        let key = QcOrbitProjectionsKey {
            constellation: item.data.sv.constellation,
            indexing: item.indexing.copy_key(),
        };
        let mut projections = AssocMap::new();
        projections.insert(key, QcConstellationOrbitProj::from_precise_state(item));
        let p = QcOrbitProjections { projections };
        proof {
            assert(p@ =~= spec_latch(Map::empty(), *item));
        }
        p
    }

    /// Latches the state of `item` into the projections of its source and
    /// constellation, which are created when absent.
    pub fn latch_precise_state(&mut self, item: &QcSerializedPreciseState)
        ensures
            final(self)@ == spec_latch(old(self)@, *item),
    {
        let ghost before = self@;
        let key = QcOrbitProjectionsKey {
            constellation: item.data.sv.constellation,
            indexing: item.indexing.copy_key(),
        };
        match self.projections.remove(&key) {
            Some(mut projection) => {
                projection.latch_precise_state(item);
                self.projections.insert(key, projection);
            },
            None => {
                self.projections.insert(key, QcConstellationOrbitProj::from_precise_state(item));
            },
        }
        proof {
            assert(self@ =~= spec_latch(before, *item));
        }
    }
}

/// A latched state is what a lookup of its source, constellation, satellite
/// and instant then finds; every other position stays as it was.
pub proof fn law_latch_then_lookup(
    m: ProjectionsModel,
    item: QcSerializedPreciseState,
    key: ((u8, Seq<char>), Constellation),
    at: (SV, i128),
)
    ensures
        spec_latch(m, item)[(item.indexing@, item.data.sv.constellation)][(
            item.data.sv,
            item.data.epoch@,
        )] == item.data.position_km,
        (key != (item.indexing@, item.data.sv.constellation) || at != (
            item.data.sv,
            item.data.epoch@,
        )) && m.contains_key(key) && m[key].contains_key(at) ==> spec_latch(m, item).contains_key(
            key,
        ) && spec_latch(m, item)[key].contains_key(at) && spec_latch(m, item)[key][at]
            == m[key][at],
{
}

/// Latching the same state twice has the effect of latching it once.
pub proof fn law_latch_idempotent(m: ProjectionsModel, item: QcSerializedPreciseState)
    ensures
        spec_latch(spec_latch(m, item), item) == spec_latch(m, item),
{
    let once = spec_latch(m, item);
    let key = (item.indexing@, item.data.sv.constellation);
    assert(once[key].insert((item.data.sv, item.data.epoch@), item.data.position_km) =~= once[key]);
    assert(spec_latch(once, item) =~= once);
}

} // verus!
