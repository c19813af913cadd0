//! What the operations do, said of nodes, edges, bits and solver calls one by one.
//!
//! The laws here do not lean on how the model builds a result: each says what
//! must be found in it, place by place.
use crate::binary64::Binary64;
use crate::dashboard::{DashboardView, SpectralDashboard};
use crate::graph::{AgentGraph, CollabEdge, GraphSnapshot};
use crate::model::{GraphView, NodeView, SnapshotView};
use crate::readings::SpectralReadings;
use vstd::prelude::*;

verus! {

// Views
/// The model of a graph holds every field of every node, every edge, and the
/// snapshot and flag that the graph holds.
pub proof fn law_graph_view_is_faithful(graph: AgentGraph)
    ensures
        graph@.nodes.len() == graph.nodes@.len(),
        forall|i: int|
            #![trigger graph@.nodes[i]]
            #![trigger graph.nodes@[i]]
            0 <= i < graph.nodes@.len() ==> graph@.nodes[i].id == graph.nodes@[i].id@
                && graph@.nodes[i].label == graph.nodes@[i].label@ && graph@.nodes[i].alive
                == graph.nodes@[i].alive,
        graph@.edges.len() == graph.edges@.len(),
        forall|k: int|
            #![trigger graph@.edges[k]]
            #![trigger graph.edges@[k]]
            0 <= k < graph.edges@.len() ==> graph@.edges[k].source == graph.edges@[k].source
                && graph@.edges[k].target == graph.edges@[k].target && graph@.edges[k].weight.bits
                == graph.edges@[k].weight.bits,
        graph@.stale == graph.dirty,
        graph@.cached is Some <==> graph.backing is Some,
        graph.backing is Some ==> {
            &&& graph@.cached->0.order == graph.backing->0.order
            &&& graph@.cached->0.directed == graph.backing->0.directed
            &&& graph@.cached->0.links == graph.backing->0.links@
        },
{
}

/// The model of a snapshot holds its size, its direction and each of its links.
pub proof fn law_snapshot_view_is_faithful(snapshot: GraphSnapshot)
    ensures
        snapshot@.order == snapshot.order,
        snapshot@.directed == snapshot.directed,
        snapshot@.links.len() == snapshot.links@.len(),
        forall|k: int|
            0 <= k < snapshot.links@.len() ==> #[trigger] snapshot@.links[k]
                == snapshot.links@[k],
{
}

/// The model of a dashboard holds its graph, what it recorded under each name,
/// its count and its interval.
pub proof fn law_dashboard_view_is_faithful(dashboard: SpectralDashboard)
    ensures
        dashboard@.graph == dashboard.graph@,
        dashboard@.readings.fiedler == dashboard.last_fiedler,
        dashboard@.readings.cheeger == dashboard.last_cheeger,
        dashboard@.readings.mixing_time == dashboard.last_mixing_time,
        dashboard@.ticks == dashboard.ticks_since_update@,
        dashboard@.interval == dashboard.recompute_interval,
{
}

// Numbers
/// Which encodings are those of no number, and the order of the others: larger
/// bits are a larger number where both are positive and a smaller one where both
/// are negative; a negative number is under a positive one, but for the zeros.
pub proof fn law_order_of_encodings(a: Binary64, b: Binary64)
    ensures
        a.is_nan() <==> 0x7ff0_0000_0000_0000 < a.bits < 0x8000_0000_0000_0000 || a.bits
            > 0xfff0_0000_0000_0000,
        a.is_nan() || b.is_nan() ==> !a.lt(b),
        !a.is_nan() && !b.is_nan() ==> {
            &&& a.bits < 0x8000_0000_0000_0000 && b.bits < 0x8000_0000_0000_0000 ==> (a.lt(b)
                <==> a.bits < b.bits)
            &&& a.bits >= 0x8000_0000_0000_0000 && b.bits >= 0x8000_0000_0000_0000 ==> (a.lt(b)
                <==> a.bits > b.bits)
            &&& a.bits < 0x8000_0000_0000_0000 && b.bits >= 0x8000_0000_0000_0000 ==> !a.lt(b)
            &&& a.bits >= 0x8000_0000_0000_0000 && b.bits < 0x8000_0000_0000_0000 ==> (a.lt(b)
                <==> a.bits != 0x8000_0000_0000_0000 || b.bits != 0)
            &&& a.value() <= b.value() <==> !b.lt(a)
        },
        crate::binary64::zero().bits == 0,
        crate::binary64::one().bits == 0x3ff0_0000_0000_0000,
{
    crate::binary64::lemma_value_order(a, b);
}

/// The larger of two numbers is the first unless the second exceeds it, whichever
/// of them is a number where only one is, and the second where neither is.
pub proof fn law_larger_of_two(a: Binary64, b: Binary64)
    ensures
        a.is_nan() ==> a.larger(b).bits == b.bits,
        !a.is_nan() && b.is_nan() ==> a.larger(b).bits == a.bits,
        a.lt(b) ==> a.larger(b).bits == b.bits,
        !a.is_nan() && !a.lt(b) ==> a.larger(b).bits == a.bits,
{
}

/// A number brought into a range is a bound of it that it lies beyond, or itself.
pub proof fn law_limited_to_a_range(x: Binary64, low: Binary64, high: Binary64)
    requires
        !low.is_nan(),
        !high.is_nan(),
        !high.lt(low),
    ensures
        x.lt(low) ==> x.limited(low, high).bits == low.bits,
        high.lt(x) ==> x.limited(low, high).bits == high.bits,
        !x.lt(low) && !high.lt(x) ==> x.limited(low, high).bits == x.bits,
        !x.is_nan() ==> !x.limited(low, high).lt(low) && !high.lt(x.limited(low, high)),
{
}

/// The weight that a new edge is stored with: as it is from 0.0 to 1.0, 1.0 if it
/// is above, 0.0 if it is below. What is not a number, and negative zero, are kept.
pub proof fn law_weight_of_a_new_edge(weight: Binary64)
    ensures
        ({
            let stored = crate::model::unit_weight(weight).bits;
            &&& weight.bits <= 0x3ff0_0000_0000_0000 ==> stored == weight.bits
            &&& 0x3ff0_0000_0000_0000 < weight.bits <= 0x7ff0_0000_0000_0000 ==> stored
                == 0x3ff0_0000_0000_0000
            &&& 0x7ff0_0000_0000_0000 < weight.bits <= 0x8000_0000_0000_0000 ==> stored
                == weight.bits
            &&& 0x8000_0000_0000_0000 < weight.bits <= 0xfff0_0000_0000_0000 ==> stored == 0
            &&& 0xfff0_0000_0000_0000 < weight.bits ==> stored == weight.bits
        }),
{
    let zero = crate::binary64::zero();
    let one = crate::binary64::one();
    law_order_of_encodings(weight, zero);
    law_order_of_encodings(one, weight);
}

/// The weight that an edge has once another is offered for it: the larger one
/// where both lie from 0.0 to 1.0, 1.0 where either is above; a weight below 0.0
/// and what is not a number give way to a weight in the range.
pub proof fn law_weight_of_a_merged_edge(old: Binary64, offered: Binary64)
    ensures
        ({
            let one = 0x3ff0_0000_0000_0000u64;
            let infinity = 0x7ff0_0000_0000_0000u64;
            let sign = 0x8000_0000_0000_0000u64;
            let lowest = 0xfff0_0000_0000_0000u64;
            let (o, b) = (old.bits, offered.bits);
            let o_above = one < o <= infinity;
            let b_above = one < b <= infinity;
            let o_below = sign < o <= lowest;
            let b_below = sign < b <= lowest;
            let o_nan = infinity < o < sign || lowest < o;
            let b_nan = infinity < b < sign || lowest < b;
            let stored = crate::model::merged_weight(old, offered).bits;
            &&& o <= one && b <= one ==> stored == (if b < o {
                o
            } else {
                b
            })
            &&& o_above || b_above ==> stored == one
            &&& o <= one && (b_nan || b_below) ==> stored == o
            &&& b <= one && (o_nan || o_below) ==> stored == b
            &&& o_below && (b_nan || b_below) ==> stored == 0
            &&& b_below && o_nan ==> stored == 0
            &&& b_nan && o_nan ==> stored == o
            &&& o == sign && b <= one ==> stored == b
            &&& b == sign && 0 < o <= one ==> stored == o
            &&& b == sign && (o == 0 || o == sign || o_nan || o_below) ==> stored == b
            &&& o == sign && (b_nan || b_below) ==> stored == o
        }),
{
    law_order_of_encodings(offered, old);
    law_order_of_encodings(old, offered);
    law_weight_of_a_new_edge(offered);
    law_weight_of_a_new_edge(old);
}

/// The range from zero to one is that of the encodings from 0.0 to 1.0, and
/// negative zero.
pub proof fn law_unit_interval(weight: Binary64)
    ensures
        weight.in_unit_interval() <==> weight.bits <= 0x3ff0_0000_0000_0000 || weight.bits
            == 0x8000_0000_0000_0000,
{
    crate::binary64::lemma_unit_bounds();
    law_order_of_encodings(weight, crate::binary64::zero());
    law_order_of_encodings(crate::binary64::one(), weight);
}

// Nodes
/// A new graph holds no node, no edge and no snapshot, and has to take one.
pub proof fn law_new_graph_holds_nothing()
    ensures
        GraphView::empty().nodes.len() == 0,
        GraphView::empty().edges.len() == 0,
        GraphView::empty().cached is None,
        GraphView::empty().stale,
{
}

/// An added node stands last, with the id, label and flag it was given; the nodes
/// before it, the edges and the snapshot held are as they were.
pub proof fn law_added_node_stands_last(graph: GraphView, node: NodeView)
    ensures
        ({
            let after = graph.with_node(node);
            let last = graph.nodes.len() as int;
            &&& after.nodes.len() == last + 1
            &&& after.nodes[last].id == node.id
            &&& after.nodes[last].label == node.label
            &&& after.nodes[last].alive == node.alive
            &&& forall|i: int| 0 <= i < last ==> #[trigger] after.nodes[i] == graph.nodes[i]
            &&& after.edges == graph.edges
            &&& after.cached == graph.cached
            &&& after.stale
        }),
{
}

/// The node that an id names has the id, and no node before it has; an id that
/// names no node is the id of none.
pub proof fn law_id_names_its_first_node(graph: GraphView, id: Seq<char>)
    ensures
        match graph.node_index(id) {
            Some(i) => {
                &&& 0 <= i < graph.nodes.len()
                &&& graph.nodes[i].id == id
                &&& forall|j: int| 0 <= j < i ==> (#[trigger] graph.nodes[j]).id != id
            },
            None => forall|j: int|
                0 <= j < graph.nodes.len() ==> (#[trigger] graph.nodes[j]).id != id,
        },
{
    match graph.node_index(id) {
        Some(i) => {
            assert(graph.is_first_node(id, i));
        },
        None => {
            crate::laws::lemma_unknown_id(graph, id);
        },
    }
}

// Edges
/// Adding an edge leaves the nodes alone, moves no edge and changes no endpoint,
/// and leaves the weight of every edge alone that does not join the two nodes.
pub proof fn law_added_edge_leaves_the_others(
    graph: GraphView,
    source: int,
    target: int,
    weight: Binary64,
    k: int,
)
    requires
        0 <= k < graph.edges.len(),
    ensures
        ({
            let after = graph.with_edge(source, target, weight);
            &&& after.nodes == graph.nodes
            &&& after.cached == graph.cached
            &&& after.stale
            &&& after.edges.len() >= graph.edges.len()
            &&& after.edges[k].source == graph.edges[k].source
            &&& after.edges[k].target == graph.edges[k].target
            &&& !(graph.edges[k].source == source && graph.edges[k].target == target) && !(
            graph.edges[k].source == target && graph.edges[k].target == source)
                ==> after.edges[k].weight.bits == graph.edges[k].weight.bits
        }),
{
    if let Some(i) = graph.edge_index(source, target) {
        assert(graph.is_first_edge(source, target, i));
    }
}

/// Where an edge joins the two nodes, the first that does takes the merged
/// weight, any later one keeps its own, and no edge is added.
pub proof fn law_added_edge_merges_into_the_first(
    graph: GraphView,
    source: int,
    target: int,
    weight: Binary64,
    k: int,
)
    requires
        0 <= k < graph.edges.len(),
        (graph.edges[k].source == source && graph.edges[k].target == target) || (
        graph.edges[k].source == target && graph.edges[k].target == source),
        forall|j: int|
            0 <= j < k ==> !((#[trigger] graph.edges[j]).source == source
                && graph.edges[j].target == target) && !(graph.edges[j].source == target
                && graph.edges[j].target == source),
    ensures
        ({
            let after = graph.with_edge(source, target, weight);
            &&& after.edges.len() == graph.edges.len()
            &&& after.edges[k].weight == crate::model::merged_weight(graph.edges[k].weight, weight)
            &&& forall|j: int|
                0 <= j < graph.edges.len() && j != k ==> #[trigger] after.edges[j]
                    == graph.edges[j]
        }),
{
    assert(graph.is_first_edge(source, target, k));
    crate::model::lemma_edge_index(graph, source, target, k);
}

/// Where no edge joins the two nodes, one from the source to the target is
/// appended, with the weight brought into the range.
pub proof fn law_added_edge_is_appended(
    graph: GraphView,
    source: int,
    target: int,
    weight: Binary64,
)
    requires
        0 <= source <= usize::MAX,
        0 <= target <= usize::MAX,
        forall|j: int|
            0 <= j < graph.edges.len() ==> !((#[trigger] graph.edges[j]).source == source
                && graph.edges[j].target == target) && !(graph.edges[j].source == target
                && graph.edges[j].target == source),
    ensures
        ({
            let after = graph.with_edge(source, target, weight);
            let last = graph.edges.len() as int;
            &&& after.edges.len() == last + 1
            &&& after.edges[last].source == source
            &&& after.edges[last].target == target
            &&& after.edges[last].weight == crate::model::unit_weight(weight)
            &&& forall|j: int| 0 <= j < last ==> #[trigger] after.edges[j] == graph.edges[j]
        }),
{
    if let Some(i) = graph.edge_index(source, target) {
        assert(graph.is_first_edge(source, target, i));
    }
}

// Removal
/// Removing a node moves the nodes after it down by one place and leaves those
/// before it, and the snapshot held, as they were.
pub proof fn law_removed_node_closes_the_gap(graph: GraphView, removed: int)
    requires
        0 <= removed < graph.nodes.len(),
    ensures
        ({
            let after = graph.without_node(removed);
            &&& after.nodes.len() == graph.nodes.len() - 1
            &&& forall|i: int| 0 <= i < removed ==> #[trigger] after.nodes[i] == graph.nodes[i]
            &&& forall|i: int|
                removed <= i < after.nodes.len() ==> #[trigger] after.nodes[i] == graph.nodes[i
                    + 1]
            &&& after.cached == graph.cached
            &&& after.stale
        }),
{
}

/// Every edge whose source and target both differ from the removed node is still
/// there, with the same weight, each endpoint one lower where it stood after the
/// node and the same where it stood before.
pub proof fn law_edge_away_from_the_removed_node_stays(
    graph: GraphView,
    removed: int,
    j: int,
) -> (k: int)
    requires
        0 <= removed < graph.nodes.len(),
        0 <= j < graph.edges.len(),
        graph.edges[j].source != removed,
        graph.edges[j].target != removed,
    ensures
        ({
            let e = graph.edges[j];
            let after = graph.without_node(removed);
            &&& 0 <= k < after.edges.len()
            &&& after.edges[k].source == (if e.source > removed {
                e.source - 1
            } else {
                e.source as int
            })
            &&& after.edges[k].target == (if e.target > removed {
                e.target - 1
            } else {
                e.target as int
            })
            &&& after.edges[k].weight.bits == e.weight.bits
        }),
{
    let keep = |e: CollabEdge| !e.touches(removed);
    let kept = graph.edges.filter(keep);
    graph.edges.lemma_filter_contains(keep, j);
    let k = choose|k: int| 0 <= k < kept.len() && kept[k] == graph.edges[j];
    assert(graph.without_node(removed).edges[k] == graph.edges[j].renumbered(removed));
    k
}

/// Removing a node from a graph with one more edge, `e`, leaves what removing it
/// without that edge leaves, followed by the renumbered edge unless the node is an
/// endpoint of it. With that the edges left are fixed, their order included.
pub proof fn law_removal_goes_edge_by_edge(graph: GraphView, e: CollabEdge, removed: int)
    requires
        0 <= removed < graph.nodes.len(),
    ensures
        ({
            let longer = GraphView { edges: graph.edges.push(e), ..graph };
            let left = graph.without_node(removed).edges;
            let left_longer = longer.without_node(removed).edges;
            let n = left.len() as int;
            &&& graph.edges.len() == 0 ==> n == 0
            &&& e.source == removed || e.target == removed ==> left_longer == left
            &&& e.source != removed && e.target != removed ==> {
                &&& left_longer.len() == n + 1
                &&& forall|k: int| 0 <= k < n ==> #[trigger] left_longer[k] == left[k]
                &&& left_longer[n].source == (if e.source > removed {
                    e.source - 1
                } else {
                    e.source as int
                })
                &&& left_longer[n].target == (if e.target > removed {
                    e.target - 1
                } else {
                    e.target as int
                })
                &&& left_longer[n].weight.bits == e.weight.bits
            }
        }),
{
    reveal(Seq::filter);
    let longer = GraphView { edges: graph.edges.push(e), ..graph };
    let keep = |x: CollabEdge| !x.touches(removed);
    assert(longer.edges.drop_last() =~= graph.edges);
    assert(longer.edges.last() == e);
    if e.source == removed || e.target == removed {
        assert(longer.edges.filter(keep) == graph.edges.filter(keep));
        assert(longer.without_node(removed).edges =~= graph.without_node(removed).edges);
    } else {
        assert(longer.edges.filter(keep) == graph.edges.filter(keep).push(e));
        assert(longer.without_node(removed).edges =~= graph.without_node(removed).edges.push(
            e.renumbered(removed),
        ));
    }
}

// Snapshots
/// Finalizing keeps nodes and edges. A snapshot that is held and not stale is
/// kept; else the one held afterwards has as many nodes as the graph, no
/// directions, and exactly the graph's edges as links, one for one; a graph
/// without nodes has none.
pub proof fn law_finalizing_takes_every_edge(graph: GraphView)
    ensures
        ({
            let after = graph.finalized();
            &&& after.nodes == graph.nodes
            &&& after.edges == graph.edges
            &&& !after.stale
            &&& !graph.stale && graph.cached is Some ==> after.cached == graph.cached
            &&& (graph.stale || graph.cached is None) && graph.nodes.len() == 0
                ==> after.cached is None
            &&& (graph.stale || graph.cached is None) && graph.nodes.len() > 0 ==> {
                &&& after.cached is Some
                &&& after.cached->0.order == graph.nodes.len()
                &&& !after.cached->0.directed
                &&& after.cached->0.links.len() == graph.edges.len()
                &&& forall|k: int|
                    #![trigger after.cached->0.links[k]]
                    #![trigger graph.edges[k]]
                    0 <= k < graph.edges.len() ==> {
                        &&& after.cached->0.links[k].source == graph.edges[k].source
                        &&& after.cached->0.links[k].target == graph.edges[k].target
                        &&& after.cached->0.links[k].weight.bits == graph.edges[k].weight.bits
                    }
            }
        }),
{
}

/// The snapshot of a graph has as many nodes as the graph, no directions, and the
/// graph's edges as links, one for one; and a query of a graph whose snapshot is
/// stale or current is asked about that snapshot.
pub proof fn law_snapshot_holds_every_edge(graph: GraphView)
    ensures
        graph.nodes.len() == 0 ==> graph.snapshot() is None,
        graph.nodes.len() > 0 ==> {
            &&& graph.snapshot() is Some
            &&& graph.snapshot()->0.order == graph.nodes.len()
            &&& !graph.snapshot()->0.directed
            &&& graph.snapshot()->0.links.len() == graph.edges.len()
            &&& forall|k: int|
                0 <= k < graph.edges.len() ==> {
                    &&& (#[trigger] graph.snapshot()->0.links[k]).source == graph.edges[k].source
                    &&& graph.snapshot()->0.links[k].target == graph.edges[k].target
                    &&& graph.snapshot()->0.links[k].weight.bits == graph.edges[k].weight.bits
                }
        },
        graph.snapshot_current() <==> graph.stale || graph.cached == graph.snapshot(),
{
}

/// Invalidating a graph changes nothing but that its snapshot is stale.
pub proof fn law_invalidating_keeps_the_graph(graph: GraphView)
    ensures
        graph.invalidated().nodes == graph.nodes,
        graph.invalidated().edges == graph.edges,
        graph.invalidated().cached == graph.cached,
        graph.invalidated().stale,
{
}

/// What is known of a well-formed graph: endpoints are indices of its nodes, no
/// two edges join the same two nodes, weights are encodings from 0.0 to 1.0
/// (negative zero and what is not a number aside), and a snapshot that is not
/// stale holds the present nodes and edges.
pub proof fn law_well_formed_graph(graph: GraphView)
    requires
        graph.well_formed(),
    ensures
        forall|k: int|
            0 <= k < graph.edges.len() ==> (#[trigger] graph.edges[k]).source < graph.nodes.len()
                && graph.edges[k].target < graph.nodes.len(),
        forall|j: int, k: int|
            0 <= j < k < graph.edges.len() ==> !((#[trigger] graph.edges[j]).source == (
            #[trigger] graph.edges[k]).source && graph.edges[j].target == graph.edges[k].target)
                && !(graph.edges[j].source == graph.edges[k].target && graph.edges[j].target
                == graph.edges[k].source),
        forall|k: int|
            0 <= k < graph.edges.len() ==> (#[trigger] graph.edges[k]).weight.bits
                <= 0x3ff0_0000_0000_0000 || graph.edges[k].weight.bits == 0x8000_0000_0000_0000
                || graph.edges[k].weight.is_nan(),
        !graph.stale && graph.nodes.len() == 0 ==> graph.cached is None,
        !graph.stale && graph.nodes.len() > 0 ==> {
            &&& graph.cached is Some
            &&& graph.cached->0.order == graph.nodes.len()
            &&& graph.cached->0.links == graph.edges
        },
{
    assert forall|j: int, k: int| 0 <= j < k < graph.edges.len() implies !((
    #[trigger] graph.edges[j]).source == (#[trigger] graph.edges[k]).source
        && graph.edges[j].target == graph.edges[k].target) && !(graph.edges[j].source
        == graph.edges[k].target && graph.edges[j].target == graph.edges[k].source) by {
        assert(!graph.edges[j].joins(graph.edges[k].source as int, graph.edges[k].target as int));
    }
    assert forall|k: int| 0 <= k < graph.edges.len() implies (#[trigger] graph.edges[k]).weight.bits
        <= 0x3ff0_0000_0000_0000 || graph.edges[k].weight.bits == 0x8000_0000_0000_0000
        || graph.edges[k].weight.is_nan() by {
        law_unit_interval(graph.edges[k].weight);
    }
}

// Solvers
/// A solver that can be called on every snapshot can be asked about every graph.
pub proof fn law_total_solver_is_accepted<R, F: FnOnce(&GraphSnapshot) -> R>(
    solve: F,
    graph: SnapshotView,
)
    requires
        forall|g: GraphSnapshot| #[trigger] call_requires(solve, (&g,)),
    ensures
        crate::readings::accepts(solve, graph),
{
}

/// An answer comes from a call of the solver on a snapshot with the size, the
/// direction and the links of the graph.
pub proof fn law_answer_is_of_the_graph<R, F: FnOnce(&GraphSnapshot) -> R>(
    solve: F,
    graph: SnapshotView,
    answer: R,
) -> (asked: GraphSnapshot)
    requires
        crate::readings::answered(solve, graph, answer),
    ensures
        asked.order == graph.order,
        asked.directed == graph.directed,
        asked.links@ == graph.links,
        call_ensures(solve, (&asked,), answer),
{
    choose|g: GraphSnapshot| g@ == graph && #[trigger] call_ensures(solve, (&g,), answer)
}

/// A reading is the number that the solver gave on the graph, and missing just
/// where the solver gave an error.
pub proof fn law_reading_is_of_the_graph<T, E, F: FnOnce(&GraphSnapshot) -> Result<T, E>>(
    solve: F,
    graph: SnapshotView,
    reading: Option<T>,
) -> (r: (GraphSnapshot, Result<T, E>))
    requires
        crate::readings::measured(solve, graph, reading),
    ensures
        r.0.order == graph.order,
        r.0.directed == graph.directed,
        r.0.links@ == graph.links,
        call_ensures(solve, (&r.0,), r.1),
        r.1 is Ok <==> reading is Some,
        r.1 is Ok ==> r.1->Ok_0 == reading->0,
{
    let answer = choose|answer: Result<T, E>| #[trigger]
        crate::readings::answered(solve, graph, answer) && reading == (match answer {
            Ok(number) => Some(number),
            Err(_) => None,
        });
    (law_answer_is_of_the_graph(solve, graph, answer), answer)
}

/// Each of three readings is what its own solver gave on the graph.
pub proof fn law_readings_are_of_their_solvers<E, F, C, M>(
    readings: SpectralReadings,
    graph: SnapshotView,
    fiedler: F,
    cheeger: C,
    mixing_time: M,
) -> (r: ((GraphSnapshot, Result<Binary64, E>), (GraphSnapshot, Result<Binary64, E>), GraphSnapshot))
where
    F: FnOnce(&GraphSnapshot) -> Result<Binary64, E>,
    C: FnOnce(&GraphSnapshot) -> Result<Binary64, E>,
    M: FnOnce(&GraphSnapshot) -> Option<Binary64>,

    requires
        readings.taken(graph, fiedler, cheeger, mixing_time),
    ensures
        r.0.0@ == graph && r.1.0@ == graph && r.2@ == graph,
        call_ensures(fiedler, (&r.0.0,), r.0.1),
        r.0.1 is Ok <==> readings.fiedler is Some,
        r.0.1 is Ok ==> r.0.1->Ok_0.bits == readings.fiedler->0.bits,
        call_ensures(cheeger, (&r.1.0,), r.1.1),
        r.1.1 is Ok <==> readings.cheeger is Some,
        r.1.1 is Ok ==> r.1.1->Ok_0.bits == readings.cheeger->0.bits,
        call_ensures(mixing_time, (&r.2,), readings.mixing_time),
{
    (
        law_reading_is_of_the_graph(fiedler, graph, readings.fiedler),
        law_reading_is_of_the_graph(cheeger, graph, readings.cheeger),
        law_answer_is_of_the_graph(mixing_time, graph, readings.mixing_time),
    )
}

/// Readings that are absent are all missing.
pub proof fn law_absent_readings(readings: SpectralReadings)
    ensures
        readings.absent() <==> readings.fiedler is None && readings.cheeger is None
            && readings.mixing_time is None,
{
}

// Status bar
/// The status bar text is `λ₂=` and the Fiedler value written with two decimals,
/// then ` h=` and the Cheeger constant written with two, then ` t=` and the mixing
/// time written without any, whatever the numbers are; a missing one is written
/// as zero.
pub proof fn law_indicator_shows_each_reading<R: Fn(Binary64, usize) -> String>(
    readings: SpectralReadings,
    render: R,
    text: Seq<char>,
) -> (r: (String, String, String))
    requires
        readings.shown_as(render, text),
    ensures
        readings.fiedler is Some ==> call_ensures(render, (readings.fiedler->0, 2usize), r.0),
        readings.fiedler is None ==> call_ensures(render, (Binary64 { bits: 0 }, 2usize), r.0),
        readings.cheeger is Some ==> call_ensures(render, (readings.cheeger->0, 2usize), r.1),
        readings.cheeger is None ==> call_ensures(render, (Binary64 { bits: 0 }, 2usize), r.1),
        readings.mixing_time is Some ==> call_ensures(
            render,
            (readings.mixing_time->0, 0usize),
            r.2,
        ),
        readings.mixing_time is None ==> call_ensures(render, (Binary64 { bits: 0 }, 0usize), r.2),
        text == "λ₂="@ + r.0@ + " h="@ + r.1@ + " t="@ + r.2@,
{
    let (f, c, t) = choose|f: Seq<char>, c: Seq<char>, t: Seq<char>|
        {
            &&& #[trigger] crate::readings::shown(render, readings.fiedler, 2, f)
            &&& #[trigger] crate::readings::shown(render, readings.cheeger, 2, c)
            &&& #[trigger] crate::readings::shown(render, readings.mixing_time, 0, t)
            &&& text == crate::readings::indicator_text(f, c, t)
        };
    (
        lemma_rendered(readings.fiedler, render, 2, f),
        lemma_rendered(readings.cheeger, render, 2, c),
        lemma_rendered(readings.mixing_time, render, 0, t),
    )
}

/// A text that shows a reading was rendered from it.
proof fn lemma_rendered<R: Fn(Binary64, usize) -> String>(
    reading: Option<Binary64>,
    render: R,
    decimals: usize,
    text: Seq<char>,
) -> (r: String)
    requires
        crate::readings::shown(render, reading, decimals, text),
    ensures
        r@ == text,
        reading is Some ==> call_ensures(render, (reading->0, decimals), r),
        reading is None ==> call_ensures(render, (Binary64 { bits: 0 }, decimals), r),
{
    choose|s: String|
        s@ == text && #[trigger] call_ensures(
            render,
            (crate::readings::number_shown(reading), decimals),
            s,
        )
}

/// The status bar text of a graph shows readings that the three solvers gave on it.
pub proof fn law_indicator_is_of_the_graph<E, F, C, M, R>(
    graph: SnapshotView,
    fiedler: F,
    cheeger: C,
    mixing_time: M,
    render: R,
    text: Seq<char>,
) -> (r: (SpectralReadings, (String, String, String))) where
    F: FnOnce(&GraphSnapshot) -> Result<Binary64, E>,
    C: FnOnce(&GraphSnapshot) -> Result<Binary64, E>,
    M: FnOnce(&GraphSnapshot) -> Option<Binary64>,
    R: Fn(Binary64, usize) -> String,

    requires
        crate::readings::indicates(graph, fiedler, cheeger, mixing_time, render, text),
    ensures
        crate::readings::measured(fiedler, graph, r.0.fiedler),
        crate::readings::measured(cheeger, graph, r.0.cheeger),
        crate::readings::answered(mixing_time, graph, r.0.mixing_time),
        r.0.shown_as(render, text),
        text == "λ₂="@ + r.1.0@ + " h="@ + r.1.1@ + " t="@ + r.1.2@,
{
    let readings = choose|readings: SpectralReadings| #[trigger]
        readings.taken(graph, fiedler, cheeger, mixing_time) && readings.shown_as(render, text);
    (readings, law_indicator_shows_each_reading(readings, render, text))
}

// Dashboard
/// A new dashboard has an empty graph, nothing recorded and nothing counted, and
/// its interval is ten ticks.
pub proof fn law_new_dashboard()
    ensures
        DashboardView::fresh().graph.nodes.len() == 0,
        DashboardView::fresh().graph.edges.len() == 0,
        DashboardView::fresh().readings.fiedler is None,
        DashboardView::fresh().readings.cheeger is None,
        DashboardView::fresh().readings.mixing_time is None,
        DashboardView::fresh().ticks == 0,
        DashboardView::fresh().interval == 10,
{
}

/// Solvers that can be called on every snapshot are accepted by every dashboard.
pub proof fn law_total_solvers_are_accepted<E, F, C, M>(
    dashboard: DashboardView,
    fiedler: F,
    cheeger: C,
    mixing_time: M,
) where
    F: FnOnce(&GraphSnapshot) -> Result<Binary64, E>,
    C: FnOnce(&GraphSnapshot) -> Result<Binary64, E>,
    M: FnOnce(&GraphSnapshot) -> Option<Binary64>,

    requires
        forall|g: GraphSnapshot| #[trigger] call_requires(fiedler, (&g,)),
        forall|g: GraphSnapshot| #[trigger] call_requires(cheeger, (&g,)),
        forall|g: GraphSnapshot| #[trigger] call_requires(mixing_time, (&g,)),
    ensures
        dashboard.accepted(fiedler, cheeger, mixing_time),
{
}

/// Recomputing leaves the count, the interval, the nodes and the edges alone. It
/// leaves all else alone too for fewer than two nodes; for more it records under
/// each name what the solver of that name gave on the graph as it now is.
pub proof fn law_recomputation_records_each_reading<E, F, C, M>(
    before: DashboardView,
    after: DashboardView,
    fiedler: F,
    cheeger: C,
    mixing_time: M,
)
where
    F: FnOnce(&GraphSnapshot) -> Result<Binary64, E>,
    C: FnOnce(&GraphSnapshot) -> Result<Binary64, E>,
    M: FnOnce(&GraphSnapshot) -> Option<Binary64>,

    requires
        before.recomputed(after, fiedler, cheeger, mixing_time),
    ensures
        after.ticks == before.ticks,
        after.interval == before.interval,
        after.graph.nodes == before.graph.nodes,
        after.graph.edges == before.graph.edges,
        before.graph.nodes.len() < 2 ==> {
            &&& after.readings == before.readings
            &&& after.graph == before.graph
        },
        before.graph.nodes.len() >= 2 ==> {
            &&& !after.graph.stale
            &&& after.graph.cached is Some
            &&& crate::readings::measured(
                fiedler,
                after.graph.cached->0,
                after.readings.fiedler,
            )
            &&& crate::readings::measured(
                cheeger,
                after.graph.cached->0,
                after.readings.cheeger,
            )
            &&& crate::readings::answered(
                mixing_time,
                after.graph.cached->0,
                after.readings.mixing_time,
            )
            &&& before.graph.stale ==> after.graph.cached->0.order == before.graph.nodes.len()
                && after.graph.cached->0.links == before.graph.edges
            &&& !before.graph.stale && before.graph.cached is Some ==> after.graph.cached
                == before.graph.cached
        },
{
}

/// A tick that takes the readings does so for every shorter interval and every
/// higher count as well, and starts the count over; one that does not counts on.
pub proof fn law_due_ticks_stay_due(dashboard: DashboardView, sooner: DashboardView)
    requires
        sooner.ticks >= dashboard.ticks,
        sooner.interval <= dashboard.interval,
    ensures
        dashboard.due() ==> sooner.due(),
        dashboard.ticks + 1 == dashboard.interval ==> dashboard.due(),
        dashboard.ticks + 2 == dashboard.interval ==> !dashboard.due(),
        dashboard.next_ticks() == 0 || dashboard.next_ticks() == dashboard.ticks + 1,
        dashboard.due() <==> dashboard.next_ticks() == 0,
{
}

} // verus!
