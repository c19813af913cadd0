//! Laws that hold of the library as a whole.
use crate::binary64::Binary64;
use crate::dashboard::DashboardView;
use crate::graph::{CollabEdge, GraphSnapshot};
use crate::model::{GraphView, NodeView, SnapshotView};
use crate::readings::SpectralReadings;
use vstd::prelude::*;

verus! {

/// A weight that is a number is stored as a number from zero to one, and one
/// that lies there already is stored as it is.
pub proof fn law_stored_weight_in_range(weight: Binary64)
    ensures
        !weight.is_nan() ==> crate::model::unit_weight(weight).in_unit_interval(),
        weight.is_nan() || weight.in_unit_interval() ==> crate::model::unit_weight(weight)
            == weight,
{
    crate::binary64::lemma_unit_bounds();
}

/// Of two numbers `larger` gives one that neither exceeds; what is not a number
/// gives way to a number.
pub proof fn law_larger(a: Binary64, b: Binary64)
    ensures
        a.larger(b) == a || a.larger(b) == b,
        !a.lt(b) || !b.lt(a),
        !a.larger(b).lt(a) && !a.larger(b).lt(b),
        a.is_nan() ==> a.larger(b) == b,
        b.is_nan() ==> a.larger(b) == a || a.is_nan(),
        !a.is_nan() && !b.is_nan() ==> a.larger(b).value() == b.larger(a).value(),
{
}

/// Adding to an edge whose weight lies in the range from zero to one keeps it
/// there: the edge takes the larger of its weight and the offered weight brought
/// into the range, and keeps its weight where no number is offered.
pub proof fn law_merging_keeps_the_larger(old: Binary64, offered: Binary64)
    requires
        old.in_unit_interval(),
    ensures
        ({
            let merged = crate::model::merged_weight(old, offered);
            &&& merged.in_unit_interval()
            &&& !merged.lt(old)
            &&& merged.value() == crate::model::unit_weight(offered).larger(old).value()
            &&& offered.is_nan() ==> merged == old
        }),
{
    crate::binary64::lemma_unit_bounds();
}

/// A new graph is well formed.
pub proof fn law_empty_is_well_formed()
    ensures
        GraphView::empty().well_formed(),
{
}

/// Adding a node keeps a graph well formed, gives the node the last index, and
/// moves no id that the graph knew.
pub proof fn law_adding_a_node(graph: GraphView, node: NodeView)
    ensures
        graph.well_formed() ==> graph.with_node(node).well_formed(),
        graph.with_node(node).nodes.len() == graph.nodes.len() + 1,
        graph.with_node(node).edges == graph.edges,
        forall|id: Seq<char>|
            graph.node_index(id) is Some ==> #[trigger] graph.with_node(node).node_index(id)
                == graph.node_index(id),
        graph.node_index(node.id) is None ==> graph.with_node(node).node_index(node.id) == Some(
            graph.nodes.len() as int,
        ),
{
    let grown = graph.with_node(node);
    assert forall|id: Seq<char>| graph.node_index(id) is Some implies #[trigger] grown.node_index(
        id,
    ) == graph.node_index(id) by {
        let i = graph.node_index(id)->0;
        assert(graph.is_first_node(id, i));
        assert(grown.is_first_node(id, i)) by {
            assert forall|j: int| 0 <= j < i implies (#[trigger] grown.nodes[j]).id != id by {
                assert(grown.nodes[j] == graph.nodes[j]);
            }
        }
        crate::model::lemma_node_index(grown, id, i);
    }
    if graph.node_index(node.id) is None {
        lemma_unknown_id(graph, node.id);
        assert forall|j: int| 0 <= j < graph.nodes.len() implies (#[trigger] grown.nodes[j]).id
            != node.id by {
            assert(grown.nodes[j] == graph.nodes[j]);
        }
        crate::model::lemma_node_index(grown, node.id, graph.nodes.len() as int);
    }
    if graph.well_formed() {
        assert(grown.endpoints_exist());
        assert(grown.edges_distinct());
    }
}

/// No node has an id that has no index.
pub proof fn lemma_unknown_id(graph: GraphView, id: Seq<char>)
    requires
        graph.node_index(id) is None,
    ensures
        forall|j: int| 0 <= j < graph.nodes.len() ==> (#[trigger] graph.nodes[j]).id != id,
{
    assert forall|j: int| 0 <= j < graph.nodes.len() implies (#[trigger] graph.nodes[j]).id
        != id by {
        if graph.nodes[j].id == id {
            lemma_first_before(graph, id, j);
        }
    }
}

/// Where a node has an id, a first node has it.
proof fn lemma_first_before(graph: GraphView, id: Seq<char>, i: int)
    requires
        0 <= i < graph.nodes.len(),
        graph.nodes[i].id == id,
    ensures
        exists|j: int| graph.is_first_node(id, j),
    decreases i,
{
    if exists|j: int| 0 <= j < i && (#[trigger] graph.nodes[j]).id == id {
        let j = choose|j: int| 0 <= j < i && (#[trigger] graph.nodes[j]).id == id;
        lemma_first_before(graph, id, j);
    } else {
        assert(graph.is_first_node(id, i));
    }
}

/// Where an edge joins two nodes, a first edge joins them.
proof fn lemma_first_edge_before(graph: GraphView, a: int, b: int, k: int)
    requires
        0 <= k < graph.edges.len(),
        graph.edges[k].joins(a, b),
    ensures
        exists|j: int| graph.is_first_edge(a, b, j),
    decreases k,
{
    if exists|j: int| 0 <= j < k && (#[trigger] graph.edges[j]).joins(a, b) {
        let j = choose|j: int| 0 <= j < k && (#[trigger] graph.edges[j]).joins(a, b);
        lemma_first_edge_before(graph, a, b, j);
    } else {
        assert(graph.is_first_edge(a, b, k));
    }
}

/// Adding an edge between two nodes of a graph keeps it well formed.
pub proof fn law_adding_an_edge_keeps_well_formed(
    graph: GraphView,
    source: int,
    target: int,
    weight: Binary64,
)
    requires
        graph.well_formed(),
        0 <= source < graph.nodes.len() <= usize::MAX,
        0 <= target < graph.nodes.len(),
    ensures
        graph.with_edge(source, target, weight).well_formed(),
{
    let after = graph.with_edge(source, target, weight);
    crate::binary64::lemma_unit_bounds();
    match graph.edge_index(source, target) {
        Some(k) => {
            assert(graph.is_first_edge(source, target, k));
            assert forall|j: int| 0 <= j < after.edges.len() implies {
                &&& (#[trigger] after.edges[j]).source == graph.edges[j].source
                &&& after.edges[j].target == graph.edges[j].target
            } by {}
        },
        None => {
            assert forall|j: int| 0 <= j < graph.edges.len() implies !(
            #[trigger] graph.edges[j]).joins(source, target) by {
                if graph.edges[j].joins(source, target) {
                    lemma_first_edge_before(graph, source, target, j);
                }
            }
        },
    }
}

/// Adding an edge connects the two nodes, in either direction; adding one
/// between them again, in either direction, adds no edge but merges the weight.
pub proof fn law_one_edge_for_two_nodes(
    graph: GraphView,
    source: int,
    target: int,
    weight: Binary64,
    again: Binary64,
)
    requires
        0 <= source <= usize::MAX,
        0 <= target <= usize::MAX,
    ensures
        ({
            let once = graph.with_edge(source, target, weight);
            let same_way = once.with_edge(source, target, again);
            let other_way = once.with_edge(target, source, again);
            &&& once.edge_index(source, target) is Some
            &&& once.edge_index(target, source) == once.edge_index(source, target)
            &&& once.nodes == graph.nodes
            &&& graph.edges.len() <= once.edges.len() <= graph.edges.len() + 1
            &&& same_way.edges == other_way.edges
            &&& same_way.edges.len() == once.edges.len()
            &&& same_way.edges[once.edge_index(source, target)->0].weight
                == crate::model::merged_weight(
                once.edges[once.edge_index(source, target)->0].weight,
                again,
            )
        }),
{
    let once = graph.with_edge(source, target, weight);
    let k = match graph.edge_index(source, target) {
        Some(k) => k,
        None => graph.edges.len() as int,
    };
    match graph.edge_index(source, target) {
        Some(i) => {
            assert(graph.is_first_edge(source, target, i));
            assert forall|j: int| 0 <= j < i implies !(#[trigger] once.edges[j]).joins(
                source,
                target,
            ) by {
                assert(once.edges[j] == graph.edges[j]);
            }
        },
        None => {
            assert forall|j: int| 0 <= j < graph.edges.len() implies !(
            #[trigger] once.edges[j]).joins(source, target) by {
                assert(once.edges[j] == graph.edges[j]);
                if graph.edges[j].joins(source, target) {
                    lemma_first_edge_before(graph, source, target, j);
                }
            }
        },
    }
    assert(once.is_first_edge(source, target, k));
    assert(once.is_first_edge(target, source, k)) by {
        assert forall|j: int| 0 <= j < k implies !(#[trigger] once.edges[j]).joins(
            target,
            source,
        ) by {
            assert(!once.edges[j].joins(source, target));
        }
    }
    crate::model::lemma_edge_index(once, source, target, k);
    crate::model::lemma_edge_index(once, target, source, k);
}

/// `from` says which edge each edge that the filter keeps is.
spec fn kept_from(
    edges: Seq<CollabEdge>,
    keep: spec_fn(CollabEdge) -> bool,
    from: spec_fn(int) -> int,
) -> bool {
    let kept = edges.filter(keep);
    &&& forall|k: int|
        #![trigger from(k)]
        0 <= k < kept.len() ==> 0 <= from(k) < edges.len() && kept[k] == edges[from(k)] && keep(
            kept[k],
        )
    &&& forall|j: int, k: int| 0 <= j < k < kept.len() ==> #[trigger] from(j) < #[trigger] from(k)
}

/// A filter keeps the order of the edges, and nothing that fails the test.
proof fn lemma_filtered_edges(edges: Seq<CollabEdge>, keep: spec_fn(CollabEdge) -> bool)
    ensures
        exists|from: spec_fn(int) -> int| kept_from(edges, keep, from),
    decreases edges.len(),
{
    reveal(Seq::filter);
    if edges.len() == 0 {
        assert(kept_from(edges, keep, |k: int| k));
    } else {
        let front = edges.drop_last();
        lemma_filtered_edges(front, keep);
        let from = choose|from: spec_fn(int) -> int| kept_from(front, keep, from);
        let n = front.filter(keep).len();
        let extended = |k: int| if k < n { from(k) } else { edges.len() - 1 };
        let kept = edges.filter(keep);
        if keep(edges.last()) {
            assert(kept == front.filter(keep).push(edges.last()));
        } else {
            assert(kept == front.filter(keep));
        }
        assert forall|k: int| #![trigger extended(k)] 0 <= k < kept.len() implies {
            &&& 0 <= extended(k) < edges.len()
            &&& kept[k] == edges[extended(k)]
            &&& keep(kept[k])
        } by {
            if k < n {
                assert(0 <= from(k) < front.len());
                assert(front[from(k)] == edges[from(k)]);
            }
        }
        assert forall|j: int, k: int| 0 <= j < k < kept.len() implies #[trigger] extended(j)
            < #[trigger] extended(k) by {
            assert(0 <= from(j) < front.len());
            if k < n {
                assert(from(j) < from(k));
            }
        }
        assert(kept_from(edges, keep, extended));
    }
}

/// Removing a node keeps a graph well formed.
pub proof fn law_removing_a_node_keeps_well_formed(graph: GraphView, removed: int)
    requires
        graph.well_formed(),
        0 <= removed < graph.nodes.len(),
    ensures
        graph.without_node(removed).well_formed(),
{
    let after = graph.without_node(removed);
    let keep = |e: CollabEdge| !e.touches(removed);
    let kept = graph.edges.filter(keep);
    lemma_filtered_edges(graph.edges, keep);
    let from = choose|from: spec_fn(int) -> int| kept_from(graph.edges, keep, from);
    assert forall|k: int| 0 <= k < after.edges.len() implies {
        &&& (#[trigger] after.edges[k]).source < after.nodes.len()
        &&& after.edges[k].target < after.nodes.len()
        &&& after.edges[k].weight == graph.edges[from(k)].weight
    } by {
        assert(0 <= from(k) < graph.edges.len());
        assert(after.edges[k] == kept[k].renumbered(removed));
    }
    assert forall|j: int, k: int| 0 <= j < k < after.edges.len() implies !(
    #[trigger] after.edges[j]).joins(
        (#[trigger] after.edges[k]).source as int,
        after.edges[k].target as int,
    ) by {
        assert(from(j) < from(k));
        assert(after.edges[j] == kept[j].renumbered(removed));
        assert(after.edges[k] == kept[k].renumbered(removed));
        assert(!graph.edges[from(j)].joins(
            graph.edges[from(k)].source as int,
            graph.edges[from(k)].target as int,
        ));
    }
}

/// After a node is removed, the other nodes follow in their order, each at the
/// index that renumbering gives it.
pub proof fn law_removal_renumbers_nodes(graph: GraphView, removed: int, i: int)
    requires
        0 <= removed < graph.nodes.len(),
        0 <= i < graph.nodes.len(),
        i != removed,
    ensures
        graph.without_node(removed).nodes.len() == graph.nodes.len() - 1,
        0 <= crate::model::renumber(i, removed) < graph.without_node(removed).nodes.len(),
        graph.without_node(removed).nodes[crate::model::renumber(i, removed)] == graph.nodes[i],
{
}

/// Removing a node invents no edge: each edge that is left joins the agents that
/// an edge of the same weight joined before, and neither is the agent removed.
pub proof fn law_removal_invents_no_edge(graph: GraphView, removed: int, k: int)
    requires
        graph.endpoints_exist(),
        0 <= removed < graph.nodes.len(),
        0 <= k < graph.without_node(removed).edges.len(),
    ensures
        graph.without_node(removed).edges.len() <= graph.edges.len(),
        exists|j: int|
            {
                &&& 0 <= j < graph.edges.len()
                &&& !(#[trigger] graph.edges[j]).touches(removed)
                &&& same_edge(
                    graph,
                    graph.edges[j],
                    graph.without_node(removed),
                    graph.without_node(removed).edges[k],
                )
            },
{
    let keep = |e: CollabEdge| !e.touches(removed);
    lemma_filtered_edges(graph.edges, keep);
    let from = choose|from: spec_fn(int) -> int| kept_from(graph.edges, keep, from);
    graph.edges.lemma_filter_len(keep);
    let j = from(k);
    assert(!graph.edges[j].touches(removed));
    law_removal_renumbers_nodes(graph, removed, graph.edges[j].source as int);
    law_removal_renumbers_nodes(graph, removed, graph.edges[j].target as int);
}

/// Removing a node loses no edge but those that touch it.
pub proof fn law_removal_keeps_the_other_edges(graph: GraphView, removed: int, j: int)
    requires
        graph.endpoints_exist(),
        0 <= removed < graph.nodes.len(),
        0 <= j < graph.edges.len(),
        !graph.edges[j].touches(removed),
    ensures
        exists|k: int|
            {
                &&& 0 <= k < graph.without_node(removed).edges.len()
                &&& same_edge(
                    graph,
                    graph.edges[j],
                    graph.without_node(removed),
                    #[trigger] graph.without_node(removed).edges[k],
                )
            },
{
    let keep = |e: CollabEdge| !e.touches(removed);
    let kept = graph.edges.filter(keep);
    graph.edges.lemma_filter_contains(keep, j);
    let k = choose|k: int| 0 <= k < kept.len() && kept[k] == graph.edges[j];
    law_removal_renumbers_nodes(graph, removed, graph.edges[j].source as int);
    law_removal_renumbers_nodes(graph, removed, graph.edges[j].target as int);
    assert(same_edge(
        graph,
        graph.edges[j],
        graph.without_node(removed),
        graph.without_node(removed).edges[k],
    ));
}

/// The edge of one graph joins the same agents, with the same weight, as the
/// edge of another.
pub open spec fn same_edge(
    graph: GraphView,
    edge: CollabEdge,
    other: GraphView,
    other_edge: CollabEdge,
) -> bool {
    &&& graph.nodes[edge.source as int] == other.nodes[other_edge.source as int]
    &&& graph.nodes[edge.target as int] == other.nodes[other_edge.target as int]
    &&& edge.weight == other_edge.weight
}

/// Removing a node that was just added, under an id that was not known, gives
/// back the nodes and edges that were there.
pub proof fn law_removal_undoes_addition(graph: GraphView, node: NodeView)
    requires
        graph.endpoints_exist(),
        graph.node_index(node.id) is None,
    ensures
        ({
            let added = graph.with_node(node);
            &&& added.node_index(node.id) == Some(graph.nodes.len() as int)
            &&& added.without_node(graph.nodes.len() as int).nodes == graph.nodes
            &&& added.without_node(graph.nodes.len() as int).edges == graph.edges
        }),
{
    let last = graph.nodes.len() as int;
    law_adding_a_node(graph, node);
    let keep = |e: CollabEdge| !e.touches(last);
    lemma_filter_keeps_all(graph.edges, keep);
    let after = graph.with_node(node).without_node(last);
    assert(after.nodes =~= graph.nodes);
    assert(after.edges =~= graph.edges) by {
        assert forall|k: int| 0 <= k < graph.edges.len() implies #[trigger] after.edges[k]
            == graph.edges[k] by {
            assert(graph.edges[k].renumbered(last) == graph.edges[k]);
        }
    }
}

/// A filter that everything passes keeps everything.
proof fn lemma_filter_keeps_all(edges: Seq<CollabEdge>, keep: spec_fn(CollabEdge) -> bool)
    requires
        forall|k: int| 0 <= k < edges.len() ==> keep(#[trigger] edges[k]),
    ensures
        edges.filter(keep) == edges,
    decreases edges.len(),
{
    reveal(Seq::filter);
    if edges.len() > 0 {
        assert forall|k: int| 0 <= k < edges.drop_last().len() implies keep(
            #[trigger] edges.drop_last()[k],
        ) by {
            assert(edges.drop_last()[k] == edges[k]);
        }
        lemma_filter_keeps_all(edges.drop_last(), keep);
        assert(keep(edges[edges.len() - 1]));
        assert(edges.drop_last().push(edges.last()) =~= edges);
    }
}

/// An id that only one node has is unknown once that node is removed.
pub proof fn law_removed_id_is_unknown(graph: GraphView, id: Seq<char>, removed: int)
    requires
        graph.node_index(id) == Some(removed),
        forall|i: int|
            0 <= i < graph.nodes.len() && i != removed ==> (#[trigger] graph.nodes[i]).id != id,
    ensures
        graph.without_node(removed).node_index(id) is None,
{
    assert(graph.is_first_node(id, removed));
    let after = graph.without_node(removed);
    assert forall|j: int| 0 <= j < after.nodes.len() implies (#[trigger] after.nodes[j]).id
        != id by {
        if j < removed {
            assert(after.nodes[j] == graph.nodes[j]);
        } else {
            assert(after.nodes[j] == graph.nodes[j + 1]);
        }
    }
}

/// Finalizing keeps a graph well formed, leaves its nodes and edges alone, and
/// does nothing the second time.
pub proof fn law_finalizing(graph: GraphView)
    ensures
        graph.well_formed() ==> graph.finalized().well_formed(),
        graph.finalized().nodes == graph.nodes,
        graph.finalized().edges == graph.edges,
        !graph.finalized().stale,
        graph.finalized().finalized() == graph.finalized(),
{
}

/// A query is asked about the nodes and edges that the graph has at that time,
/// however they came about.
pub proof fn law_queries_see_the_present_graph(graph: GraphView)
    requires
        graph.snapshot_current(),
    ensures
        graph.finalized().cached == graph.snapshot(),
        graph.nodes.len() > 0 ==> graph.finalized().cached is Some,
{
}

/// Every change of a graph gives its snapshot up, and so does invalidating it:
/// whatever was held before, the next query takes the snapshot again.
pub proof fn law_changes_give_the_snapshot_up(
    graph: GraphView,
    node: NodeView,
    source: int,
    target: int,
    weight: Binary64,
    removed: int,
)
    ensures
        graph.with_node(node).stale,
        graph.with_edge(source, target, weight).stale,
        graph.without_node(removed).stale,
        graph.invalidated().stale,
        graph.invalidated().finalized().cached == graph.snapshot(),
        graph.well_formed() ==> graph.invalidated().well_formed(),
        graph.stale ==> graph.finalized().cached == graph.snapshot(),
{
}

/// Graphs with as many nodes and the same edges, finalized or not, are asked about
/// by the same snapshot: ids, labels and whether a session is alive do not count.
pub proof fn law_snapshot_is_of_size_and_edges(a: GraphView, b: GraphView)
    requires
        a.snapshot_current(),
        b.snapshot_current(),
        a.nodes.len() == b.nodes.len(),
        a.edges == b.edges,
    ensures
        a.snapshot() == b.snapshot(),
        a.finalized().cached == b.finalized().cached,
        a.finalized().finalized().cached == b.finalized().cached,
{
}

/// A solver that gives one answer for each snapshot answers alike on graphs with
/// as many nodes and the same edges; in particular, it answers a query made again
/// as it answered it before, and one after a finalization as one without.
pub proof fn law_like_graphs_are_answered_alike<R, F: FnOnce(&GraphSnapshot) -> R>(
    a: GraphView,
    b: GraphView,
    solve: F,
    answer_a: R,
    answer_b: R,
)
    requires
        a.snapshot_current(),
        b.snapshot_current(),
        a.nodes.len() == b.nodes.len() > 0,
        a.edges == b.edges,
        crate::readings::single_valued(solve),
        crate::readings::answered(solve, a.finalized().cached->0, answer_a),
        crate::readings::answered(solve, b.finalized().cached->0, answer_b),
    ensures
        answer_a == answer_b,
{
}

/// The readings that such a solver gives on graphs with as many nodes and the
/// same edges are equal, a failure included.
pub proof fn law_like_graphs_measure_alike<T, E, F: FnOnce(&GraphSnapshot) -> Result<T, E>>(
    a: GraphView,
    b: GraphView,
    solve: F,
    reading_a: Option<T>,
    reading_b: Option<T>,
)
    requires
        a.snapshot_current(),
        b.snapshot_current(),
        a.nodes.len() == b.nodes.len() > 0,
        a.edges == b.edges,
        crate::readings::single_valued(solve),
        crate::readings::measured(solve, a.finalized().cached->0, reading_a),
        crate::readings::measured(solve, b.finalized().cached->0, reading_b),
    ensures
        reading_a == reading_b,
{
}

/// What two assemblers promise of the matrices they make of one snapshot holds of
/// the matrices that one graph gives, such as that a Laplacian is that of the
/// adjacency matrix.
pub proof fn law_matrices_are_of_one_snapshot<
    A,
    L,
    F: FnOnce(&GraphSnapshot) -> A,
    G: FnOnce(&GraphSnapshot) -> L,
>(
    graph: GraphView,
    assemble_a: F,
    assemble_l: G,
    a: A,
    l: L,
    related: spec_fn(A, L) -> bool,
)
    requires
        graph.nodes.len() > 0,
        forall|s: SnapshotView, x: A, y: L| #[trigger]
            crate::readings::answered(assemble_a, s, x)
                && #[trigger] crate::readings::answered(assemble_l, s, y) ==> related(x, y),
        crate::readings::answered(assemble_a, graph.finalized().cached->0, a),
        crate::readings::answered(assemble_l, graph.finalized().finalized().cached->0, l),
    ensures
        related(a, l),
{
}

/// Solvers that give one answer for each snapshot give the same readings again.
pub proof fn law_readings_repeat<E, F, C, M>(
    a: SpectralReadings,
    b: SpectralReadings,
    graph: SnapshotView,
    fiedler: F,
    cheeger: C,
    mixing_time: M,
) where
    F: FnOnce(&GraphSnapshot) -> Result<Binary64, E>,
    C: FnOnce(&GraphSnapshot) -> Result<Binary64, E>,
    M: FnOnce(&GraphSnapshot) -> Option<Binary64>,

    requires
        crate::readings::single_valued(fiedler),
        crate::readings::single_valued(cheeger),
        crate::readings::single_valued(mixing_time),
        a.taken(graph, fiedler, cheeger, mixing_time),
        b.taken(graph, fiedler, cheeger, mixing_time),
    ensures
        a == b,
{
}

/// What a dashboard of two nodes or more has recorded after a recomputation is
/// what the three queries return on its graph: one that gives nothing replaces
/// what was recorded before.
pub proof fn law_recomputation_records_the_queries<E, F, C, M>(
    before: DashboardView,
    after: DashboardView,
    fiedler: F,
    cheeger: C,
    mixing_time: M,
    queried: SpectralReadings,
) where
    F: FnOnce(&GraphSnapshot) -> Result<Binary64, E>,
    C: FnOnce(&GraphSnapshot) -> Result<Binary64, E>,
    M: FnOnce(&GraphSnapshot) -> Option<Binary64>,

    requires
        before.graph.nodes.len() >= 2,
        crate::readings::single_valued(fiedler),
        crate::readings::single_valued(cheeger),
        crate::readings::single_valued(mixing_time),
        before.recomputed(after, fiedler, cheeger, mixing_time),
        crate::readings::measured(fiedler, after.graph.finalized().cached->0, queried.fiedler),
        crate::readings::measured(cheeger, after.graph.finalized().cached->0, queried.cheeger),
        crate::readings::answered(
            mixing_time,
            after.graph.finalized().cached->0,
            queried.mixing_time,
        ),
    ensures
        after.readings == queried,
        before.graph.snapshot_current() ==> after.graph.cached == before.graph.snapshot(),
{
    law_readings_repeat(
        after.readings,
        queried,
        after.graph.cached->0,
        fiedler,
        cheeger,
        mixing_time,
    );
}

/// Recomputing again right after a recomputation changes nothing.
pub proof fn law_recomputing_again_changes_nothing<E, F, C, M>(
    before: DashboardView,
    once: DashboardView,
    twice: DashboardView,
    fiedler: F,
    cheeger: C,
    mixing_time: M,
) where
    F: FnOnce(&GraphSnapshot) -> Result<Binary64, E>,
    C: FnOnce(&GraphSnapshot) -> Result<Binary64, E>,
    M: FnOnce(&GraphSnapshot) -> Option<Binary64>,

    requires
        crate::readings::single_valued(fiedler),
        crate::readings::single_valued(cheeger),
        crate::readings::single_valued(mixing_time),
        before.recomputed(once, fiedler, cheeger, mixing_time),
        once.recomputed(twice, fiedler, cheeger, mixing_time),
    ensures
        twice == once,
{
    if before.graph.nodes.len() >= 2 {
        law_readings_repeat(
            once.readings,
            twice.readings,
            once.graph.cached->0,
            fiedler,
            cheeger,
            mixing_time,
        );
    }
}

/// The status bar text of one graph is one text, whether the graph is asked for
/// it or a dashboard that holds the graph, and whatever the dashboard recorded.
pub proof fn law_indicator_is_one_text<E, F, C, M, R>(
    graph: GraphView,
    dashboard: DashboardView,
    fiedler: F,
    cheeger: C,
    mixing_time: M,
    render: R,
    graph_text: Seq<char>,
    dashboard_text: Seq<char>,
) where
    F: FnOnce(&GraphSnapshot) -> Result<Binary64, E>,
    C: FnOnce(&GraphSnapshot) -> Result<Binary64, E>,
    M: FnOnce(&GraphSnapshot) -> Option<Binary64>,
    R: Fn(Binary64, usize) -> String,

    requires
        dashboard.graph == graph,
        crate::readings::single_valued(fiedler),
        crate::readings::single_valued(cheeger),
        crate::readings::single_valued(mixing_time),
        crate::readings::single_text(render),
        crate::readings::indicates(
            graph.finalized().cached->0,
            fiedler,
            cheeger,
            mixing_time,
            render,
            graph_text,
        ),
        crate::readings::indicates(
            dashboard.graph.finalized().cached->0,
            fiedler,
            cheeger,
            mixing_time,
            render,
            dashboard_text,
        ),
    ensures
        graph_text == dashboard_text,
{
    let snapshot = graph.finalized().cached->0;
    let a = choose|a: SpectralReadings| #[trigger]
        a.taken(snapshot, fiedler, cheeger, mixing_time) && a.shown_as(render, graph_text);
    let b = choose|b: SpectralReadings| #[trigger]
        b.taken(snapshot, fiedler, cheeger, mixing_time) && b.shown_as(render, dashboard_text);
    law_readings_repeat(a, b, snapshot, fiedler, cheeger, mixing_time);
}

/// The ticks that a dashboard has counted after `n` ticks from none, with the
/// interval unchanged.
pub open spec fn ticks_after(interval: nat, n: nat) -> nat
    decreases n,
{
    if n == 0 {
        0
    } else if ticks_after(interval, (n - 1) as nat) + 1 >= interval {
        0
    } else {
        ticks_after(interval, (n - 1) as nat) + 1
    }
}

/// While the interval is unchanged, the readings are taken again on every tick
/// whose number is a multiple of it, and on no other.
pub proof fn law_recomputation_is_periodic(dashboard: DashboardView, interval: nat, n: nat)
    requires
        interval > 0,
        dashboard.interval == interval,
        dashboard.ticks == ticks_after(interval, n),
    ensures
        dashboard.ticks == n % interval,
        dashboard.due() <==> (n + 1) % interval == 0,
        dashboard.next_ticks() == ticks_after(interval, n + 1),
{
    lemma_ticks_after(interval, n);
    lemma_next_remainder(n, interval);
}

/// With an interval of zero every tick takes the readings again.
pub proof fn law_zero_interval_recomputes_always(dashboard: DashboardView)
    requires
        dashboard.interval == 0,
    ensures
        dashboard.due(),
        dashboard.next_ticks() == 0,
{
}

/// A tick leaves fewer ticks counted than the interval, or none.
pub proof fn law_count_stays_under_interval(dashboard: DashboardView)
    ensures
        dashboard.next_ticks() < dashboard.interval || dashboard.next_ticks() == 0,
{
}

proof fn lemma_next_remainder(n: nat, d: nat)
    requires
        d > 0,
    ensures
        (n + 1) % d == (if n % d + 1 == d {
            0
        } else {
            n % d + 1
        }),
{
    let q = n as int / d as int;
    let r = n as int % d as int;
    vstd::arithmetic::div_mod::lemma_fundamental_div_mod(n as int, d as int);
    if r + 1 == d {
        assert(n + 1 == (q + 1) * d + 0) by (nonlinear_arith)
            requires
                n == d * q + r,
                r + 1 == d,
        ;
        vstd::arithmetic::div_mod::lemma_fundamental_div_mod_converse(
            (n + 1) as int,
            d as int,
            q + 1,
            0,
        );
    } else {
        assert(n + 1 == q * d + (r + 1)) by (nonlinear_arith)
            requires
                n == d * q + r,
        ;
        vstd::arithmetic::div_mod::lemma_fundamental_div_mod_converse(
            (n + 1) as int,
            d as int,
            q,
            r + 1,
        );
    }
}

proof fn lemma_ticks_after(interval: nat, n: nat)
    requires
        interval > 0,
    ensures
        ticks_after(interval, n) == n % interval,
    decreases n,
{
    if n > 0 {
        lemma_ticks_after(interval, (n - 1) as nat);
        lemma_next_remainder((n - 1) as nat, interval);
    } else {
        vstd::arithmetic::div_mod::lemma_small_mod(0, interval);
    }
}

} // verus!
