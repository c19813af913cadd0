//! A dashboard that takes the readings of a graph again every so many ticks.
use crate::binary64::Binary64;
use crate::graph::{AgentGraph, GraphSnapshot};
use crate::model::GraphView;
use crate::readings::SpectralReadings;
use crate::ticks::TickCounter;
use vstd::prelude::*;

verus! {

/// A dashboard that holds an [`AgentGraph`] and provides periodic
/// recomputation of spectral metrics.
#[derive(Debug, Clone)]
pub struct SpectralDashboard {
    /// The agent collaboration graph.
    pub graph: AgentGraph,
    /// Last computed Fiedler value.
    pub last_fiedler: Option<Binary64>,
    /// Last computed Cheeger constant.
    pub last_cheeger: Option<Binary64>,
    /// Last computed mixing time.
    pub last_mixing_time: Option<Binary64>,
    /// Tick counter for periodic recomputation.
    pub ticks_since_update: TickCounter,
    /// Recompute interval in ticks (default 10).
    pub recompute_interval: u64,
}

/// The state of a dashboard.
pub struct DashboardView {
    pub graph: GraphView,
    pub readings: SpectralReadings,
    pub ticks: nat,
    pub interval: nat,
}

impl View for SpectralDashboard {
    type V = DashboardView;

    open spec fn view(&self) -> DashboardView {
        DashboardView {
            graph: self.graph@,
            readings: SpectralReadings {
                fiedler: self.last_fiedler,
                cheeger: self.last_cheeger,
                mixing_time: self.last_mixing_time,
            },
            ticks: self.ticks_since_update@,
            interval: self.recompute_interval as nat,
        }
    }
}

impl DashboardView {
    /// A dashboard of an empty graph, with no readings and the default interval.
    pub open spec fn fresh() -> DashboardView {
        DashboardView {
            graph: GraphView::empty(),
            readings: SpectralReadings { fiedler: None, cheeger: None, mixing_time: None },
            ticks: 0,
            interval: 10,
        }
    }

    /// The next tick takes the readings again.
    pub open spec fn due(self) -> bool {
        self.ticks + 1 >= self.interval
    }

    /// The ticks counted after the next tick.
    pub open spec fn next_ticks(self) -> nat {
        if self.due() {
            0
        } else {
            self.ticks + 1
        }
    }

    /// The three solvers can be asked about the graph, where it is large enough
    /// for them to be asked.
    pub open spec fn accepted<E, F, C, M>(self, fiedler: F, cheeger: C, mixing_time: M) -> bool where
        F: FnOnce(&GraphSnapshot) -> Result<Binary64, E>,
        C: FnOnce(&GraphSnapshot) -> Result<Binary64, E>,
        M: FnOnce(&GraphSnapshot) -> Option<Binary64>,
     {
        self.graph.nodes.len() >= 2 ==> {
            let graph = self.graph.finalized().cached->0;
            &&& crate::readings::accepts(fiedler, graph)
            &&& crate::readings::accepts(cheeger, graph)
            &&& crate::readings::accepts(mixing_time, graph)
        }
    }

    /// The dashboard that follows once the readings are taken again: nothing
    /// changes for graphs with fewer than 2 nodes; for others the graph is
    /// finalized and the readings are what the solvers gave on it.
    pub open spec fn recomputed<E, F, C, M>(
        self,
        after: DashboardView,
        fiedler: F,
        cheeger: C,
        mixing_time: M,
    ) -> bool where
        F: FnOnce(&GraphSnapshot) -> Result<Binary64, E>,
        C: FnOnce(&GraphSnapshot) -> Result<Binary64, E>,
        M: FnOnce(&GraphSnapshot) -> Option<Binary64>,
     {
        if self.graph.nodes.len() < 2 {
            after == self
        } else {
            &&& after == DashboardView {
                graph: self.graph.finalized(),
                readings: after.readings,
                ..self
            }
            &&& after.graph.cached is Some
            &&& after.readings.taken(after.graph.cached->0, fiedler, cheeger, mixing_time)
        }
    }
}

impl SpectralDashboard {
    /// Create a new spectral dashboard with the default recompute interval.
    pub fn new() -> (r: Self)
        ensures
            r@ == DashboardView::fresh(),
    {
        SpectralDashboard {
            graph: AgentGraph::new(),
            last_fiedler: None,
            last_cheeger: None,
            last_mixing_time: None,
            ticks_since_update: TickCounter::new(),
            recompute_interval: 10,
        }
    }

    /// Set the recompute interval (in ticks).
    pub fn set_recompute_interval(&mut self, interval: u64)
        ensures
            final(self)@ == (DashboardView { interval: interval as nat, ..old(self)@ }),
    {
        self.recompute_interval = interval;
    }

    /// Called on each app tick. Periodically recomputes spectral metrics.
    pub fn tick<E, F, C, M>(&mut self, fiedler: F, cheeger: C, mixing_time: M) where
        F: FnOnce(&GraphSnapshot) -> Result<Binary64, E>,
        C: FnOnce(&GraphSnapshot) -> Result<Binary64, E>,
        M: FnOnce(&GraphSnapshot) -> Option<Binary64>,

        requires
            old(self)@.due() ==> old(self)@.accepted(fiedler, cheeger, mixing_time),
        ensures
            old(self)@.graph.well_formed() ==> final(self)@.graph.well_formed(),
            final(self)@.ticks == old(self)@.next_ticks(),
            if old(self)@.due() {
                old(self)@.recomputed(
                    (DashboardView { ticks: old(self)@.ticks, ..final(self)@ }),
                    fiedler,
                    cheeger,
                    mixing_time,
                )
            } else {
                final(self)@ == (DashboardView { ticks: old(self)@.next_ticks(), ..old(self)@ })
            },
    {
        if self.ticks_since_update.advance(self.recompute_interval) {
            self.recompute(fiedler, cheeger, mixing_time);
        }
    }

    /// Force recomputation of spectral metrics.
    pub fn recompute<E, F, C, M>(&mut self, fiedler: F, cheeger: C, mixing_time: M) where
        F: FnOnce(&GraphSnapshot) -> Result<Binary64, E>,
        C: FnOnce(&GraphSnapshot) -> Result<Binary64, E>,
        M: FnOnce(&GraphSnapshot) -> Option<Binary64>,

        requires
            old(self)@.accepted(fiedler, cheeger, mixing_time),
        ensures
            old(self)@.recomputed(final(self)@, fiedler, cheeger, mixing_time),
            old(self)@.graph.well_formed() ==> final(self)@.graph.well_formed(),
    {
        if self.graph.num_nodes() >= 2 {
            let readings = self.graph.readings(fiedler, cheeger, mixing_time);
            self.last_fiedler = readings.fiedler;
            self.last_cheeger = readings.cheeger;
            self.last_mixing_time = readings.mixing_time;
        }
    }

    /// Get the status bar indicator string.
    pub fn status_bar_indicator<E, F, C, M, R>(
        &mut self,
        fiedler: F,
        cheeger: C,
        mixing_time: M,
        render: R,
    ) -> (r: String) where
        F: FnOnce(&GraphSnapshot) -> Result<Binary64, E>,
        C: FnOnce(&GraphSnapshot) -> Result<Binary64, E>,
        M: FnOnce(&GraphSnapshot) -> Option<Binary64>,
        R: Fn(Binary64, usize) -> String,

        requires
            old(self)@.accepted(fiedler, cheeger, mixing_time),
            old(self)@.graph.nodes.len() >= 2 ==> forall|number: Binary64, decimals: usize|
                decimals == 2 || decimals == 0 ==> #[trigger] call_requires(
                    render,
                    (number, decimals),
                ),
        ensures
            old(self)@.graph.well_formed() ==> final(self)@.graph.well_formed(),
            old(self)@.graph.nodes.len() < 2 ==> r@.len() == 0 && final(self)@ == old(self)@,
            old(self)@.graph.nodes.len() >= 2 ==> {
                &&& final(self)@ == (DashboardView {
                    graph: old(self)@.graph.finalized(),
                    ..old(self)@
                })
                &&& final(self)@.graph.cached is Some
                &&& crate::readings::indicates(
                    final(self)@.graph.cached->0,
                    fiedler,
                    cheeger,
                    mixing_time,
                    render,
                    r@,
                )
            },
    {
        self.graph.status_bar_indicator(fiedler, cheeger, mixing_time, render)
    }
}

impl Default for SpectralDashboard {
    fn default() -> (r: Self)
        ensures
            r@ == DashboardView::fresh(),
    {
        Self::new()
    }
}

} // verus!
