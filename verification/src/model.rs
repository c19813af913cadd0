//! The mathematical model of a collaboration graph and of what each operation
//! does to it.
use crate::binary64::Binary64;
use crate::graph::CollabEdge;
use vstd::prelude::*;

verus! {

/// What an agent node is.
pub struct NodeView {
    pub id: Seq<char>,
    pub label: Seq<char>,
    pub alive: bool,
}

/// What a spectral solver is given: the number of nodes, whether links have a
/// direction, and the links in the order in which they are added.
pub struct SnapshotView {
    pub order: nat,
    pub directed: bool,
    pub links: Seq<CollabEdge>,
}

/// The state of a collaboration graph.
#[verifier::ext_equal]
pub struct GraphView {
    pub nodes: Seq<NodeView>,
    pub edges: Seq<CollabEdge>,
    /// The snapshot that the last finalization took.
    pub cached: Option<SnapshotView>,
    /// The snapshot has to be taken again.
    pub stale: bool,
}

impl CollabEdge {
    /// The edge joins these two nodes, in either direction.
    pub open spec fn joins(self, a: int, b: int) -> bool {
        (self.source == a && self.target == b) || (self.source == b && self.target == a)
    }

    /// The node is an endpoint of the edge.
    pub open spec fn touches(self, node: int) -> bool {
        self.source == node || self.target == node
    }

    /// The edge with its endpoints renumbered for the removal of node `removed`.
    pub open spec fn renumbered(self, removed: int) -> CollabEdge {
        CollabEdge {
            source: renumber(self.source as int, removed) as usize,
            target: renumber(self.target as int, removed) as usize,
            weight: self.weight,
        }
    }
}

/// The index that node `index` has once node `removed` is gone.
pub open spec fn renumber(index: int, removed: int) -> int {
    if index > removed {
        index - 1
    } else {
        index
    }
}

/// The weight that an edge of weight `old` has after `offered` is added to it.
pub open spec fn merged_weight(old: Binary64, offered: Binary64) -> Binary64 {
    unit_weight(offered.larger(old))
}

/// The weight brought into the range from zero to one.
pub open spec fn unit_weight(weight: Binary64) -> Binary64 {
    weight.limited(crate::binary64::zero(), crate::binary64::one())
}

impl GraphView {
    /// A graph with nothing in it.
    pub open spec fn empty() -> GraphView {
        GraphView { nodes: Seq::empty(), edges: Seq::empty(), cached: None, stale: true }
    }

    /// Node `i` is the first with this id.
    pub open spec fn is_first_node(self, id: Seq<char>, i: int) -> bool {
        &&& 0 <= i < self.nodes.len()
        &&& self.nodes[i].id == id
        &&& forall|j: int| 0 <= j < i ==> (#[trigger] self.nodes[j]).id != id
    }

    /// The index of the first node with this id, if there is one.
    pub open spec fn node_index(self, id: Seq<char>) -> Option<int> {
        if exists|i: int| self.is_first_node(id, i) {
            Some(choose|i: int| self.is_first_node(id, i))
        } else {
            None
        }
    }

    /// Edge `k` is the first that joins these nodes.
    pub open spec fn is_first_edge(self, a: int, b: int, k: int) -> bool {
        &&& 0 <= k < self.edges.len()
        &&& self.edges[k].joins(a, b)
        &&& forall|j: int| 0 <= j < k ==> !(#[trigger] self.edges[j]).joins(a, b)
    }

    /// The index of the first edge that joins these nodes, if there is one.
    pub open spec fn edge_index(self, a: int, b: int) -> Option<int> {
        if exists|k: int| self.is_first_edge(a, b, k) {
            Some(choose|k: int| self.is_first_edge(a, b, k))
        } else {
            None
        }
    }

    /// The graph after a node is added.
    pub open spec fn with_node(self, node: NodeView) -> GraphView {
        GraphView { nodes: self.nodes.push(node), stale: true, ..self }
    }

    /// The graph after an edge between two of its nodes is added: the edge that
    /// joins them already takes the larger weight, or a new edge is appended.
    pub open spec fn with_edge(self, source: int, target: int, weight: Binary64) -> GraphView {
        let edges = match self.edge_index(source, target) {
            Some(k) => self.edges.update(
                k,
                CollabEdge {
                    weight: merged_weight(self.edges[k].weight, weight),
                    ..self.edges[k]
                },
            ),
            None => self.edges.push(
                CollabEdge {
                    source: source as usize,
                    target: target as usize,
                    weight: unit_weight(weight),
                },
            ),
        };
        GraphView { edges, stale: true, ..self }
    }

    /// The graph after one of its nodes is removed: the edges that touch it go,
    /// the endpoints of the others are renumbered.
    pub open spec fn without_node(self, removed: int) -> GraphView {
        GraphView {
            nodes: self.nodes.remove(removed),
            edges: self.edges.filter(|e: CollabEdge| !e.touches(removed)).map_values(
                |e: CollabEdge| e.renumbered(removed),
            ),
            stale: true,
            ..self
        }
    }

    /// The graph with its snapshot given up.
    pub open spec fn invalidated(self) -> GraphView {
        GraphView { stale: true, ..self }
    }

    /// The snapshot that stands for the present nodes and edges; none without nodes.
    pub open spec fn snapshot(self) -> Option<SnapshotView> {
        if self.nodes.len() == 0 {
            None
        } else {
            Some(
                SnapshotView { order: self.nodes.len(), directed: false, links: self.edges },
            )
        }
    }

    /// The graph after finalization: the snapshot is taken again unless one is
    /// held that is not stale.
    pub open spec fn finalized(self) -> GraphView {
        if !self.stale && self.cached is Some {
            self
        } else {
            GraphView { cached: self.snapshot(), stale: false, ..self }
        }
    }

    /// Every edge joins nodes of the graph.
    pub open spec fn endpoints_exist(self) -> bool {
        forall|k: int|
            0 <= k < self.edges.len() ==> (#[trigger] self.edges[k]).source < self.nodes.len()
                && self.edges[k].target < self.nodes.len()
    }

    /// No two edges join the same nodes.
    pub open spec fn edges_distinct(self) -> bool {
        forall|j: int, k: int|
            0 <= j < k < self.edges.len() ==> !(#[trigger] self.edges[j]).joins(
                (#[trigger] self.edges[k]).source as int,
                self.edges[k].target as int,
            )
    }

    /// Every weight that is a number is one from zero to one.
    pub open spec fn weights_in_range(self) -> bool {
        forall|k: int|
            0 <= k < self.edges.len() ==> (#[trigger] self.edges[k]).weight.is_nan()
                || self.edges[k].weight.in_unit_interval()
    }

    /// A snapshot that is not stale is that of the present nodes and edges.
    pub open spec fn snapshot_current(self) -> bool {
        !self.stale ==> self.cached == self.snapshot()
    }

    /// What every operation keeps.
    pub open spec fn well_formed(self) -> bool {
        &&& self.endpoints_exist()
        &&& self.edges_distinct()
        &&& self.weights_in_range()
        &&& self.snapshot_current()
    }
}

/// The first node with an id is the one that the index names.
pub proof fn lemma_node_index(graph: GraphView, id: Seq<char>, i: int)
    requires
        graph.is_first_node(id, i),
    ensures
        graph.node_index(id) == Some(i),
{
    let c = choose|j: int| graph.is_first_node(id, j);
    assert(graph.is_first_node(id, c));
    if c < i {
        assert(graph.nodes[c].id != id);
    } else if i < c {
        assert(graph.nodes[i].id != id);
    }
}

/// The first edge that joins two nodes is the one that the index names.
pub proof fn lemma_edge_index(graph: GraphView, a: int, b: int, k: int)
    requires
        graph.is_first_edge(a, b, k),
    ensures
        graph.edge_index(a, b) == Some(k),
{
    let c = choose|j: int| graph.is_first_edge(a, b, j);
    assert(graph.is_first_edge(a, b, c));
    if c < k {
        assert(!graph.edges[c].joins(a, b));
    } else if k < c {
        assert(!graph.edges[k].joins(a, b));
    }
}

} // verus!
