//! Navigation report: what the processing gathers of the signals and of the
//! broadcast ephemerides, per constellation and per satellite.
use crate::keyed::AssocMap;
use crate::model::{Carrier, Constellation, Epoch, FloatBits, QcIndexing, SV};
use vstd::prelude::*;

verus! {

/// One signal observation, as the processing hands it to the reports.
#[derive(Debug, Clone)]
pub struct QcSerializedSignal {
    /// Data source.
    pub indexing: QcIndexing,
    /// Satellite.
    pub sv: SV,
    /// Signal carrier.
    pub carrier: Carrier,
    /// Sampling instant.
    pub epoch: Epoch,
    /// Observed value.
    pub value: FloatBits,
}

/// One broadcast ephemeris message, as the processing hands it to the
/// reports.
#[derive(Debug, Clone, Copy)]
pub struct QcSerializedEphemeris {
    /// Satellite that broadcast it.
    pub sv: SV,
    /// Instant of publication.
    pub epoch: Epoch,
}

/// Elevation and signal strength report.
#[derive(Debug, Clone, Copy)]
pub struct QcElevationSNRReport {}

impl QcElevationSNRReport {
    /// An empty report.
    pub fn new() -> (r: Self)
        ensures
            r == (QcElevationSNRReport {}),
    {
        QcElevationSNRReport {}
    }

    /// Takes a signal into account; the report keeps nothing of it so far.
    pub fn add_signal_contribution(&mut self, signal: &QcSerializedSignal)
        ensures
            *final(self) == *old(self),
    {
    }

    /// Takes an ephemeris message into account; the report keeps nothing of
    /// it so far.
    pub fn add_ephemeris_message(&mut self, msg: &QcSerializedEphemeris)
        ensures
            *final(self) == *old(self),
    {
    }
}

/// One navigation message of a satellite.
#[derive(Debug, Clone, Copy)]
pub struct QcNaviSVNavMessage {
    /// Instant of publication.
    pub epoch: Epoch,
}

/// Navigation messages of the satellites of one constellation.
pub struct QcNaviConstellGraph {
    pub sv_nav_messages: AssocMap<SV, Vec<QcNaviSVNavMessage>>,
}

impl QcNaviConstellGraph {
    /// A graph with no message.
    pub fn new() -> (g: Self)
        ensures
            g.sv_nav_messages@ == Map::<SV, Vec<QcNaviSVNavMessage>>::empty(),
    {
        QcNaviConstellGraph { sv_nav_messages: AssocMap::new() }
    }

    /// Takes a signal into account; the graph keeps nothing of it so far.
    pub fn add_signal_contribution(&mut self, signal: &QcSerializedSignal)
        ensures
            *final(self) == *old(self),
            final(self).sv_nav_messages@ == old(self).sv_nav_messages@,
    {
    }

    /// Takes an ephemeris message into account; the graph keeps nothing of
    /// it so far.
    pub fn add_ephemeris_message(&mut self, msg: &QcSerializedEphemeris)
        ensures
            *final(self) == *old(self),
            final(self).sv_nav_messages@ == old(self).sv_nav_messages@,
    {
    }
}

/// Navigation graphs, per constellation.
pub struct QcNaviGraph {
    pub constellations: AssocMap<Constellation, QcNaviConstellGraph>,
}

impl QcNaviGraph {
    /// A graph of no constellation.
    pub fn new() -> (g: Self)
        ensures
            g.constellations@ == Map::<Constellation, QcNaviConstellGraph>::empty(),
    {
        QcNaviGraph { constellations: AssocMap::new() }
    }

    /// Takes a signal into account; the graph keeps nothing of it so far.
    pub fn add_signal_contribution(&mut self, signal: &QcSerializedSignal)
        ensures
            *final(self) == *old(self),
            final(self).constellations@ == old(self).constellations@,
    {
    }

    /// Takes an ephemeris message into account; the graph keeps nothing of
    /// it so far.
    pub fn add_ephemeris_message(&mut self, msg: &QcSerializedEphemeris)
        ensures
            *final(self) == *old(self),
            final(self).constellations@ == old(self).constellations@,
    {
    }
}

/// Navigation report.
pub struct QcNavReport {
    /// Elevation and signal strength report.
    pub elev_snr: QcElevationSNRReport,
    /// Navigation graphs.
    pub navi_graph: QcNaviGraph,
}

impl QcNavReport {
    /// An empty report.
    pub fn new() -> (r: Self)
        ensures
            r.navi_graph.constellations@ == Map::<Constellation, QcNaviConstellGraph>::empty(),
    {
        QcNavReport { elev_snr: QcElevationSNRReport::new(), navi_graph: QcNaviGraph::new() }
    }

    /// Hands a signal to each part of the report.
    pub fn add_signal_contribution(&mut self, signal: &QcSerializedSignal)
        ensures
            *final(self) == *old(self),
            final(self).navi_graph.constellations@ == old(self).navi_graph.constellations@,
            final(self).elev_snr == old(self).elev_snr,
    {
        self.elev_snr.add_signal_contribution(signal);
        self.navi_graph.add_signal_contribution(signal);
    }

    /// Hands an ephemeris message to each part of the report.
    pub fn add_ephemeris_message(&mut self, msg: &QcSerializedEphemeris)
        ensures
            *final(self) == *old(self),
            final(self).navi_graph.constellations@ == old(self).navi_graph.constellations@,
            final(self).elev_snr == old(self).elev_snr,
    {
        self.elev_snr.add_ephemeris_message(msg);
        self.navi_graph.add_ephemeris_message(msg);
    }
}

} // verus!
