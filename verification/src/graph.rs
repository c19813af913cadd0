//! The collaboration graph and the snapshot of it that spectral solvers read.
use crate::binary64::{Binary64, ONE_BITS, ZERO_BITS};
use crate::model::{GraphView, NodeView, SnapshotView};
use crate::readings::SpectralReadings;
use vstd::prelude::*;

verus! {

/// A node (agent) in the collaboration graph.
#[derive(Debug, Clone)]
pub struct AgentNode {
    /// Agent identifier (e.g. "copilot").
    pub id: String,
    /// Display label.
    pub label: String,
    /// Whether the session is currently alive.
    pub alive: bool,
}

impl View for AgentNode {
    type V = NodeView;

    open spec fn view(&self) -> NodeView {
        NodeView { id: self.id@, label: self.label@, alive: self.alive }
    }
}

/// A weighted edge between two agent nodes.
#[derive(Debug, Clone, Copy)]
pub struct CollabEdge {
    /// Source node index.
    pub source: usize,
    /// Target node index.
    pub target: usize,
    /// Edge weight (shared context strength, 0.0 to 1.0).
    pub weight: Binary64,
}

/// What a spectral solver needs to know of a graph.
#[derive(Debug, Clone)]
pub struct GraphSnapshot {
    /// Number of nodes.
    pub order: usize,
    /// Whether links have a direction; those of a collaboration graph have none.
    pub directed: bool,
    /// The links, in the order in which a solver is to add them.
    pub links: Vec<CollabEdge>,
}

impl View for GraphSnapshot {
    type V = SnapshotView;

    open spec fn view(&self) -> SnapshotView {
        SnapshotView { order: self.order as nat, directed: self.directed, links: self.links@ }
    }
}

/// A collaboration graph of agents.
///
/// Nodes are registered by name and edges are added by agent id;
/// [`finalize`](AgentGraph::finalize) takes the snapshot of node indices that
/// the spectral queries hand to their solver.
#[derive(Debug, Clone)]
pub struct AgentGraph {
    /// Nodes (agents).
    pub nodes: Vec<AgentNode>,
    /// Weighted edges.
    pub edges: Vec<CollabEdge>,
    /// The snapshot for the solvers. Taken on finalize.
    pub backing: Option<GraphSnapshot>,
    /// Whether the snapshot needs to be taken again.
    pub dirty: bool,
}

impl View for AgentGraph {
    type V = GraphView;

    open spec fn view(&self) -> GraphView {
        GraphView {
            nodes: self.nodes@.map_values(|n: AgentNode| n@),
            edges: self.edges@,
            cached: match self.backing {
                Some(g) => Some(g@),
                None => None,
            },
            stale: self.dirty,
        }
    }
}

impl AgentGraph {
    /// Create a new empty agent collaboration graph.
    pub fn new() -> (r: Self)
        ensures
            r@ == GraphView::empty(),
            r@.well_formed(),
    {
        let r = AgentGraph { nodes: Vec::new(), edges: Vec::new(), backing: None, dirty: true };
        assert(r@.nodes =~= Seq::empty());
        r
    }

    /// Add a node to the graph.
    pub fn add_node(&mut self, id: &str, label: &str, alive: bool)
        ensures
            final(self)@ == old(self)@.with_node(NodeView { id: id@, label: label@, alive }),
            old(self)@.well_formed() ==> final(self)@.well_formed(),
    {
        proof {
            crate::laws::law_adding_a_node(self@, NodeView { id: id@, label: label@, alive });
        }
        self.nodes.push(AgentNode { id: id.to_owned(), label: label.to_owned(), alive });
        self.invalidate_cache();
        assert(self@.nodes =~= old(self)@.nodes.push(NodeView { id: id@, label: label@, alive }));
    }

    /// The index of the first node with this id.
    fn position(&self, id: &str) -> (r: Option<usize>)
        ensures
            match r {
                Some(i) => self@.is_first_node(id@, i as int) && self@.node_index(id@) == Some(
                    i as int,
                ),
                None => self@.node_index(id@) is None,
            },
    {
        let wanted = id.to_owned();
        let mut i: usize = 0;
        while i < self.nodes.len()
            invariant
                i <= self.nodes.len(),
                wanted@ == id@,
                forall|j: int| 0 <= j < i ==> (#[trigger] self@.nodes[j]).id != id@,
            decreases self.nodes.len() - i,
        {
            assert(self@.nodes[i as int] == self.nodes@[i as int]@);
            if self.nodes[i].id == wanted {
                proof {
                    crate::model::lemma_node_index(self@, id@, i as int);
                }
                return Some(i);
            }
            i = i + 1;
        }
        None
    }

    /// Add a weighted edge between two agents by their id strings.
    /// Returns an error if either id is unknown.
    ///
    /// Where an edge joins the two agents already, it takes the larger of the two
    /// weights. The weight stored is brought into the range from 0.0 to 1.0.
    pub fn add_edge(&mut self, source_id: &str, target_id: &str, weight: Binary64) -> (r: Result<
        (),
        String,
    >)
        ensures
            match (old(self)@.node_index(source_id@), old(self)@.node_index(target_id@)) {
                (None, _) => {
                    &&& r matches Err(message)
                    &&& message@ == "unknown source agent: "@ + source_id@
                    &&& final(self)@ == old(self)@
                },
                (Some(_), None) => {
                    &&& r matches Err(message)
                    &&& message@ == "unknown target agent: "@ + target_id@
                    &&& final(self)@ == old(self)@
                },
                (Some(source), Some(target)) => {
                    &&& r is Ok
                    &&& final(self)@ == old(self)@.with_edge(source, target, weight)
                },
            },
            old(self)@.well_formed() ==> final(self)@.well_formed(),
    {
        let source: usize = match self.position(source_id) {
            Some(i) => i,
            None => {
                return Err("unknown source agent: ".to_owned().concat(source_id));
            },
        };
        let target: usize = match self.position(target_id) {
            Some(i) => i,
            None => {
                return Err("unknown target agent: ".to_owned().concat(target_id));
            },
        };
        proof {
            crate::binary64::lemma_unit_bounds();
            assert(self@.nodes.len() == self.nodes.len());
            if self@.well_formed() {
                crate::laws::law_adding_an_edge_keeps_well_formed(
                    self@,
                    source as int,
                    target as int,
                    weight,
                );
            }
        }
        let zero = Binary64 { bits: ZERO_BITS };
        let one = Binary64 { bits: ONE_BITS };

        let mut k: usize = 0;
        while k < self.edges.len()
            invariant
                k <= self.edges.len(),
                self@ == old(self)@,
                forall|j: int|
                    0 <= j < k ==> !(#[trigger] self@.edges[j]).joins(
                        source as int,
                        target as int,
                    ),
                old(self)@.well_formed() ==> old(self)@.with_edge(
                    source as int,
                    target as int,
                    weight,
                ).well_formed(),
                old(self)@.node_index(source_id@) == Some(source as int),
                old(self)@.node_index(target_id@) == Some(target as int),
                zero == crate::binary64::zero(),
                one == crate::binary64::one(),
                !zero.is_nan(),
                !one.is_nan(),
                zero.value() <= one.value(),
            decreases self.edges.len() - k,
        {
            let e = self.edges[k];
            if (e.source == source && e.target == target) || (e.source == target && e.target
                == source) {
                proof {
                    crate::model::lemma_edge_index(self@, source as int, target as int, k as int);
                }
                let merged = weight.max(e.weight).clamp(zero, one);
                self.edges.set(
                    k,
                    CollabEdge { source: e.source, target: e.target, weight: merged },
                );
                self.dirty = true;
                assert(self@ =~= old(self)@.with_edge(source as int, target as int, weight));
                return Ok(());
            }
            k = k + 1;
        }

        assert(self@.edge_index(source as int, target as int) is None);
        self.edges.push(CollabEdge { source, target, weight: weight.clamp(zero, one) });
        self.dirty = true;
        assert(self@ =~= old(self)@.with_edge(source as int, target as int, weight));
        Ok(())
    }

    /// Reset cache so the snapshot is taken again on the next query.
    pub fn invalidate_cache(&mut self)
        ensures
            final(self)@ == old(self)@.invalidated(),
            old(self)@.well_formed() ==> final(self)@.well_formed(),
    {
        self.dirty = true;
    }

    /// Remove an agent node by id.
    ///
    /// The first node with the id goes, and with it every edge that touches it;
    /// the other edges follow their nodes to the new indices. Nothing changes
    /// where no node has the id.
    pub fn remove_node(&mut self, id: &str)
        ensures
            match old(self)@.node_index(id@) {
                Some(removed) => final(self)@ == old(self)@.without_node(removed),
                None => final(self)@ == old(self)@,
            },
            old(self)@.well_formed() ==> final(self)@.well_formed(),
    {
        if let Some(pos) = self.position(id) {
            proof {
                if self@.well_formed() {
                    crate::laws::law_removing_a_node_keeps_well_formed(self@, pos as int);
                }
            }
            self.nodes.remove(pos);
            let kept = retained_edges(&self.edges, pos);
            self.edges = kept;
            self.dirty = true;
            assert(self@ =~= old(self)@.without_node(pos as int));
        }
    }

    /// Number of nodes.
    pub fn num_nodes(&self) -> (r: usize)
        ensures
            r == self@.nodes.len(),
    {
        self.nodes.len()
    }

    /// Number of edges.
    pub fn num_edges(&self) -> (r: usize)
        ensures
            r == self@.edges.len(),
    {
        self.edges.len()
    }

    /// Take the snapshot of the current nodes and edges.
    ///
    /// Calling it multiple times is safe: it changes nothing when the snapshot
    /// held is up to date.
    pub fn finalize(&mut self)
        ensures
            final(self)@ == old(self)@.finalized(),
            old(self)@.well_formed() ==> final(self)@.well_formed(),
    {
        if !self.dirty && self.backing.is_some() {
            return;
        }
        let n = self.nodes.len();
        if n == 0 {
            self.backing = None;
            self.dirty = false;
            return;
        }
        let mut links: Vec<CollabEdge> = Vec::new();
        let mut k: usize = 0;
        while k < self.edges.len()
            invariant
                k <= self.edges.len(),
                links@ == self.edges@.take(k as int),
            decreases self.edges.len() - k,
        {
            links.push(self.edges[k]);
            k = k + 1;
        }
        assert(links@ == self.edges@);
        self.backing = Some(GraphSnapshot { order: n, directed: false, links });
        self.dirty = false;
    }

    /// Get the snapshot for the solvers, finalizing if needed.
    pub fn backing(&mut self) -> (r: Option<&GraphSnapshot>)
        ensures
            final(self)@ == old(self)@.finalized(),
            old(self)@.well_formed() ==> final(self)@.well_formed(),
            match r {
                Some(g) => old(self)@.finalized().cached == Some(g@),
                None => old(self)@.finalized().cached is None,
            },
    {
        self.finalize();
        self.backing.as_ref()
    }

    /// Get the adjacency matrix that `assemble` makes of the snapshot; `None` for
    /// a graph without nodes.
    pub fn adjacency_matrix<M, F: FnOnce(&GraphSnapshot) -> M>(&mut self, assemble: F) -> (r: Option<
        M,
    >)
        requires
            old(self)@.finalized().cached matches Some(graph) ==> crate::readings::accepts(assemble, graph),
        ensures
            final(self)@ == old(self)@.finalized(),
            old(self)@.well_formed() ==> final(self)@.well_formed(),
            match old(self)@.finalized().cached {
                Some(graph) => r matches Some(matrix) && crate::readings::answered(assemble, graph, matrix),
                None => r is None,
            },
    {
        match self.backing() {
            Some(graph) => Some(assemble(graph)),
            None => None,
        }
    }

    /// Get the Laplacian matrix that `assemble` makes of the snapshot; `None` for
    /// a graph without nodes.
    pub fn laplacian_matrix<M, F: FnOnce(&GraphSnapshot) -> M>(&mut self, assemble: F) -> (r: Option<
        M,
    >)
        requires
            old(self)@.finalized().cached matches Some(graph) ==> crate::readings::accepts(
                assemble,
                graph,
            ),
        ensures
            final(self)@ == old(self)@.finalized(),
            old(self)@.well_formed() ==> final(self)@.well_formed(),
            match old(self)@.finalized().cached {
                Some(graph) => r matches Some(matrix) && crate::readings::answered(
                    assemble,
                    graph,
                    matrix,
                ),
                None => r is None,
            },
    {
        match self.backing() {
            Some(graph) => Some(assemble(graph)),
            None => None,
        }
    }

    /// Compute the Fiedler value (algebraic connectivity): the second smallest
    /// eigenvalue of the Laplacian.
    ///
    /// `solve` computes it from the snapshot. Returns `None` for graphs with fewer
    /// than 2 nodes or on computation failure.
    pub fn fiedler_value<E, F: FnOnce(&GraphSnapshot) -> Result<Binary64, E>>(
        &mut self,
        solve: F,
    ) -> (r: Option<Binary64>)
        requires
            old(self)@.nodes.len() >= 2 ==> crate::readings::accepts(
                solve,
                old(self)@.finalized().cached->0,
            ),
        ensures
            old(self)@.well_formed() ==> final(self)@.well_formed(),
            old(self)@.nodes.len() < 2 ==> r is None && final(self)@ == old(self)@,
            old(self)@.nodes.len() >= 2 ==> {
                &&& final(self)@ == old(self)@.finalized()
                &&& final(self)@.cached is Some
                &&& crate::readings::measured(solve, final(self)@.cached->0, r)
            },
    {
        let n = self.nodes.len();
        if n < 2 {
            return None;
        }
        match self.backing() {
            Some(graph) => {
                let answer = solve(graph);
                assert(crate::readings::answered(solve, graph@, answer));
                answer.ok()
            },
            None => None,
        }
    }

    /// Compute the Cheeger constant.
    ///
    /// `solve` computes it from the snapshot. Returns `None` for graphs with fewer
    /// than 2 nodes or on computation failure.
    pub fn cheeger_constant<E, F: FnOnce(&GraphSnapshot) -> Result<Binary64, E>>(
        &mut self,
        solve: F,
    ) -> (r: Option<Binary64>)
        requires
            old(self)@.nodes.len() >= 2 ==> crate::readings::accepts(
                solve,
                old(self)@.finalized().cached->0,
            ),
        ensures
            old(self)@.well_formed() ==> final(self)@.well_formed(),
            old(self)@.nodes.len() < 2 ==> r is None && final(self)@ == old(self)@,
            old(self)@.nodes.len() >= 2 ==> {
                &&& final(self)@ == old(self)@.finalized()
                &&& final(self)@.cached is Some
                &&& crate::readings::measured(solve, final(self)@.cached->0, r)
            },
    {
        let n = self.nodes.len();
        if n < 2 {
            return None;
        }
        match self.backing() {
            Some(graph) => {
                let answer = solve(graph);
                assert(crate::readings::answered(solve, graph@, answer));
                answer.ok()
            },
            None => None,
        }
    }

    /// Estimate the mixing time: the number of steps for a random walk on the
    /// graph to approach the stationary distribution.
    ///
    /// `solve` computes it from the snapshot. Returns `None` for graphs with fewer
    /// than 2 nodes, and where `solve` does.
    pub fn mixing_time<F: FnOnce(&GraphSnapshot) -> Option<Binary64>>(&mut self, solve: F) -> (r:
        Option<Binary64>)
        requires
            old(self)@.nodes.len() >= 2 ==> crate::readings::accepts(
                solve,
                old(self)@.finalized().cached->0,
            ),
        ensures
            old(self)@.well_formed() ==> final(self)@.well_formed(),
            old(self)@.nodes.len() < 2 ==> r is None && final(self)@ == old(self)@,
            old(self)@.nodes.len() >= 2 ==> {
                &&& final(self)@ == old(self)@.finalized()
                &&& final(self)@.cached is Some
                &&& crate::readings::answered(solve, final(self)@.cached->0, r)
            },
    {
        let n = self.nodes.len();
        if n < 2 {
            return None;
        }
        match self.backing() {
            Some(graph) => solve(graph),
            None => None,
        }
    }

    /// Compute the expander quality: how close the graph is to Ramanujan.
    ///
    /// Higher is better. `solve` computes it from the snapshot. Returns `None` for
    /// a graph without nodes or on computation failure.
    pub fn expander_quality<E, F: FnOnce(&GraphSnapshot) -> Result<Binary64, E>>(
        &mut self,
        solve: F,
    ) -> (r: Option<Binary64>)
        requires
            old(self)@.finalized().cached matches Some(graph) ==> crate::readings::accepts(
                solve,
                graph,
            ),
        ensures
            final(self)@ == old(self)@.finalized(),
            old(self)@.well_formed() ==> final(self)@.well_formed(),
            match old(self)@.finalized().cached {
                Some(graph) => crate::readings::measured(solve, graph, r),
                None => r is None,
            },
    {
        match self.backing() {
            Some(graph) => {
                let answer = solve(graph);
                assert(crate::readings::answered(solve, graph@, answer));
                answer.ok()
            },
            None => None,
        }
    }

    /// Take the readings that the status bar and the dashboard show.
    pub fn readings<E, F, C, M>(&mut self, fiedler: F, cheeger: C, mixing_time: M) -> (r:
        SpectralReadings) where
        F: FnOnce(&GraphSnapshot) -> Result<Binary64, E>,
        C: FnOnce(&GraphSnapshot) -> Result<Binary64, E>,
        M: FnOnce(&GraphSnapshot) -> Option<Binary64>,

        requires
            old(self)@.nodes.len() >= 2 ==> {
                let graph = old(self)@.finalized().cached->0;
                &&& crate::readings::accepts(fiedler, graph)
                &&& crate::readings::accepts(cheeger, graph)
                &&& crate::readings::accepts(mixing_time, graph)
            },
        ensures
            old(self)@.well_formed() ==> final(self)@.well_formed(),
            old(self)@.nodes.len() < 2 ==> r.absent() && final(self)@ == old(self)@,
            old(self)@.nodes.len() >= 2 ==> {
                &&& final(self)@ == old(self)@.finalized()
                &&& final(self)@.cached is Some
                &&& r.taken(final(self)@.cached->0, fiedler, cheeger, mixing_time)
            },
    {
        let fiedler_reading = self.fiedler_value(fiedler);
        let cheeger_reading = self.cheeger_constant(cheeger);
        let mixing_reading = self.mixing_time(mixing_time);
        SpectralReadings {
            fiedler: fiedler_reading,
            cheeger: cheeger_reading,
            mixing_time: mixing_reading,
        }
    }

    /// Compute a compact status bar display string.
    ///
    /// Format: `λ₂=0.34 h=0.21 t=3` or empty string for small graphs. `render`
    /// writes a number with the number of decimals asked for.
    pub fn status_bar_indicator<E, F, C, M, R>(
        &mut self,
        fiedler: F,
        cheeger: C,
        mixing_time: M,
        render: R,
    ) -> (r: String) where
        F: FnOnce(&GraphSnapshot) -> Result<Binary64, E>,
        C: FnOnce(&GraphSnapshot) -> Result<Binary64, E>,
        M: FnOnce(&GraphSnapshot) -> Option<Binary64>,
        R: Fn(Binary64, usize) -> String,

        requires
            old(self)@.nodes.len() >= 2 ==> {
                let graph = old(self)@.finalized().cached->0;
                &&& crate::readings::accepts(fiedler, graph)
                &&& crate::readings::accepts(cheeger, graph)
                &&& crate::readings::accepts(mixing_time, graph)
                &&& forall|number: Binary64, decimals: usize|
                    decimals == 2 || decimals == 0 ==> #[trigger] call_requires(
                        render,
                        (number, decimals),
                    )
            },
        ensures
            old(self)@.well_formed() ==> final(self)@.well_formed(),
            old(self)@.nodes.len() < 2 ==> r@.len() == 0 && final(self)@ == old(self)@,
            old(self)@.nodes.len() >= 2 ==> {
                &&& final(self)@ == old(self)@.finalized()
                &&& final(self)@.cached is Some
                &&& crate::readings::indicates(
                    final(self)@.cached->0,
                    fiedler,
                    cheeger,
                    mixing_time,
                    render,
                    r@,
                )
            },
    {
        let n = self.nodes.len();
        if n < 2 {
            return String::new();
        }
        let readings = self.readings(fiedler, cheeger, mixing_time);
        readings.indicator(render)
    }
}

impl Default for AgentGraph {
    fn default() -> (r: Self)
        ensures
            r@ == GraphView::empty(),
            r@.well_formed(),
    {
        Self::new()
    }
}

/// The edges that do not touch node `removed`, renumbered for its removal.
fn retained_edges(edges: &Vec<CollabEdge>, removed: usize) -> (r: Vec<CollabEdge>)
    ensures
        r@ == edges@.filter(|e: CollabEdge| !e.touches(removed as int)).map_values(
            |e: CollabEdge| e.renumbered(removed as int),
        ),
{
    let ghost keep = |e: CollabEdge| !e.touches(removed as int);
    let ghost shift = |e: CollabEdge| e.renumbered(removed as int);
    let mut kept: Vec<CollabEdge> = Vec::new();
    let mut k: usize = 0;
    while k < edges.len()
        invariant
            k <= edges.len(),
            keep == |e: CollabEdge| !e.touches(removed as int),
            shift == |e: CollabEdge| e.renumbered(removed as int),
            kept@ == edges@.take(k as int).filter(keep).map_values(shift),
        decreases edges.len() - k,
    {
        let e = edges[k];
        proof {
            reveal(Seq::filter);
            assert(edges@.take(k + 1).drop_last() =~= edges@.take(k as int));
            assert(edges@.take(k + 1).last() == e);
        }
        if e.source != removed && e.target != removed {
            let source: usize = if e.source > removed { e.source - 1 } else { e.source };
            let target: usize = if e.target > removed { e.target - 1 } else { e.target };
            kept.push(CollabEdge { source, target, weight: e.weight });
            assert(edges@.take(k + 1).filter(keep) =~= edges@.take(k as int).filter(keep).push(e));
        } else {
            assert(edges@.take(k + 1).filter(keep) =~= edges@.take(k as int).filter(keep));
        }
        k = k + 1;
    }
    assert(edges@.take(k as int) =~= edges@);
    kept
}

} // verus!
