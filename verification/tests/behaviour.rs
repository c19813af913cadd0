//! Exact results of each operation, its edge cases and its errors.
use terminal_spectral_harness::{
    AgentGraph, Binary64, GraphSnapshot, SpectralDashboard, SpectralReadings,
    TickCounter,
};

fn number(x: f64) -> Binary64 {
    Binary64 { bits: x.to_bits() }
}

fn float(b: Binary64) -> f64 {
    f64::from_bits(b.bits)
}

fn render(x: Binary64, decimals: usize) -> String {
    format!("{:.*}", decimals, float(x))
}

fn solved(x: f64) -> impl Fn(&GraphSnapshot) -> Result<Binary64, String> {
    move |_g: &GraphSnapshot| Ok(number(x))
}

fn failed(_g: &GraphSnapshot) -> Result<Binary64, String> {
    Err(String::from("no convergence"))
}

fn steps(x: f64) -> impl Fn(&GraphSnapshot) -> Option<Binary64> {
    move |_g: &GraphSnapshot| Some(number(x))
}

fn unmixed(_g: &GraphSnapshot) -> Option<Binary64> {
    None
}

/// Nodes a, b, c, d.
fn four() -> AgentGraph {
    let mut g = AgentGraph::new();
    for id in ["a", "b", "c", "d"] {
        g.add_node(id, id, true);
    }
    g
}

fn triples(g: &AgentGraph) -> Vec<(usize, usize, f64)> {
    g.edges.iter().map(|e| (e.source, e.target, float(e.weight))).collect()
}

fn ids(g: &AgentGraph) -> Vec<String> {
    g.nodes.iter().map(|n| n.id.clone()).collect()
}

const SAMPLES: [f64; 19] = [
    f64::NEG_INFINITY,
    f64::MIN,
    -2.5,
    -1.0,
    -1e-300,
    -5e-324,
    -0.0,
    0.0,
    5e-324,
    2.2250738585072009e-308,
    f64::MIN_POSITIVE,
    0.3,
    0.5,
    0.9999999999999999,
    1.0,
    1.0000000000000002,
    7.0,
    f64::MAX,
    f64::INFINITY,
];

// Numbers

#[test]
fn order_of_encodings_is_the_order_of_numbers() {
    for a in SAMPLES {
        for b in SAMPLES {
            assert_eq!(number(a).less_than(number(b)), a < b, "{a} {b}");
        }
        assert!(!number(a).less_than(number(f64::NAN)));
        assert!(!number(f64::NAN).less_than(number(a)));
    }
}

#[test]
fn max_is_the_larger_number() {
    for a in SAMPLES {
        for b in SAMPLES {
            assert_eq!(float(number(a).max(number(b))), a.max(b), "{a} {b}");
        }
        assert_eq!(float(number(a).max(number(f64::NAN))), a);
        assert_eq!(float(number(f64::NAN).max(number(a))), a);
        assert_eq!(float(number(-f64::NAN).max(number(a))), a);
    }
    assert!(float(number(f64::NAN).max(number(f64::NAN))).is_nan());
}

#[test]
fn clamp_is_the_nearest_number_in_range() {
    for a in SAMPLES {
        let clamped = float(number(a).clamp(number(0.0), number(1.0)));
        assert_eq!(clamped.to_bits(), a.clamp(0.0, 1.0).to_bits(), "{a}");
        let again = float(number(clamped).clamp(number(0.0), number(1.0)));
        assert_eq!(again.to_bits(), clamped.to_bits());
    }
    assert!(float(number(f64::NAN).clamp(number(0.0), number(1.0))).is_nan());
    assert_eq!(float(number(4.0).clamp(number(-3.0), number(2.0))), 2.0);
}

// Nodes

#[test]
fn added_node_holds_what_was_given() {
    let mut g = AgentGraph::new();
    g.add_node("cli", "CLI Agent", false);
    assert_eq!(g.nodes[0].id, "cli");
    assert_eq!(g.nodes[0].label, "CLI Agent");
    assert!(!g.nodes[0].alive);
    assert!(g.dirty);
}

#[test]
fn default_graph_is_empty() {
    let g = AgentGraph::default();
    assert_eq!(g.num_nodes(), 0);
    assert_eq!(g.num_edges(), 0);
    assert!(g.backing.is_none());
    assert!(g.dirty);
}

// Edges

#[test]
fn unknown_agents_are_named_in_the_error() {
    let mut g = four();
    g.finalize();
    assert_eq!(
        g.add_edge("x", "y", number(0.5)),
        Err(String::from("unknown source agent: x"))
    );
    assert_eq!(
        g.add_edge("a", "y", number(0.5)),
        Err(String::from("unknown target agent: y"))
    );
    assert_eq!(g.num_edges(), 0);
    assert!(!g.dirty);
}

#[test]
fn new_edge_is_appended_with_its_weight() {
    let mut g = four();
    g.finalize();
    assert_eq!(g.add_edge("c", "a", number(0.25)), Ok(()));
    assert_eq!(g.add_edge("a", "b", number(0.75)), Ok(()));
    assert_eq!(triples(&g), vec![(2, 0, 0.25), (0, 1, 0.75)]);
    assert!(g.dirty);
}

#[test]
fn weights_are_brought_into_range() {
    let mut g = four();
    let _ = g.add_edge("a", "b", number(1.5));
    let _ = g.add_edge("b", "c", number(-0.5));
    let _ = g.add_edge("c", "d", number(f64::NAN));
    assert_eq!(float(g.edges[0].weight), 1.0);
    assert_eq!(float(g.edges[1].weight), 0.0);
    assert!(float(g.edges[2].weight).is_nan());
}

#[test]
fn updates_stay_in_range() {
    let mut g = four();
    let _ = g.add_edge("a", "b", number(0.5));
    let _ = g.add_edge("b", "a", number(3.0));
    assert_eq!(triples(&g), vec![(0, 1, 1.0)]);
}

#[test]
fn updates_keep_the_larger_weight() {
    let mut g = four();
    let _ = g.add_edge("a", "b", number(0.5));
    let _ = g.add_edge("a", "b", number(0.2));
    assert_eq!(triples(&g), vec![(0, 1, 0.5)]);
    let _ = g.add_edge("b", "a", number(0.6));
    assert_eq!(triples(&g), vec![(0, 1, 0.6)]);
    let _ = g.add_edge("a", "b", number(f64::NAN));
    assert_eq!(triples(&g), vec![(0, 1, 0.6)]);
    let _ = g.add_edge("c", "d", number(f64::NAN));
    let _ = g.add_edge("c", "d", number(0.1));
    assert_eq!(triples(&g), vec![(0, 1, 0.6), (2, 3, 0.1)]);
}

#[test]
fn an_agent_can_be_joined_to_itself() {
    let mut g = four();
    let _ = g.add_edge("b", "b", number(0.5));
    let _ = g.add_edge("b", "b", number(0.7));
    assert_eq!(triples(&g), vec![(1, 1, 0.7)]);
}

#[test]
fn the_first_agent_of_an_id_is_meant() {
    let mut g = four();
    g.add_node("a", "second", true);
    let _ = g.add_edge("a", "d", number(0.5));
    assert_eq!(triples(&g), vec![(0, 3, 0.5)]);
    g.remove_node("a");
    assert_eq!(ids(&g), vec!["b", "c", "d", "a"]);
    assert_eq!(g.num_edges(), 0);
}

// Removal

#[test]
fn removal_renumbers_the_other_edges() {
    let mut g = four();
    let _ = g.add_edge("a", "c", number(0.1));
    let _ = g.add_edge("b", "d", number(0.2));
    let _ = g.add_edge("d", "c", number(0.3));
    let _ = g.add_edge("d", "a", number(0.4));
    g.finalize();
    g.remove_node("b");
    assert_eq!(ids(&g), vec!["a", "c", "d"]);
    assert_eq!(triples(&g), vec![(0, 1, 0.1), (2, 1, 0.3), (2, 0, 0.4)]);
    assert!(g.dirty);
}

#[test]
fn removal_of_an_unknown_id_changes_nothing() {
    let mut g = four();
    let _ = g.add_edge("a", "c", number(0.1));
    g.finalize();
    g.remove_node("x");
    assert_eq!(g.num_nodes(), 4);
    assert_eq!(triples(&g), vec![(0, 2, 0.1)]);
    assert!(!g.dirty);
}

#[test]
fn removal_undoes_addition() {
    let mut g = four();
    let _ = g.add_edge("a", "c", number(0.1));
    g.add_node("e", "E", true);
    g.remove_node("e");
    assert_eq!(ids(&g), vec!["a", "b", "c", "d"]);
    assert_eq!(triples(&g), vec![(0, 2, 0.1)]);
    assert!(g.add_edge("e", "a", number(0.1)).is_err());
}

#[test]
fn additions_leave_earlier_indices_alone() {
    let mut g = four();
    let _ = g.add_edge("b", "c", number(0.1));
    g.add_node("e", "E", true);
    let _ = g.add_edge("e", "b", number(0.2));
    assert_eq!(triples(&g), vec![(1, 2, 0.1), (4, 1, 0.2)]);
}

// Snapshots

#[test]
fn snapshot_holds_what_the_solver_needs() {
    let mut g = four();
    let _ = g.add_edge("d", "b", number(0.4));
    let _ = g.add_edge("a", "c", number(0.6));
    let s = g.backing().unwrap();
    assert_eq!(s.order, 4);
    assert!(!s.directed);
    let links: Vec<(usize, usize, f64)> =
        s.links.iter().map(|e| (e.source, e.target, float(e.weight))).collect();
    assert_eq!(links, vec![(3, 1, 0.4), (0, 2, 0.6)]);
    assert!(!g.dirty);
}

#[test]
fn finalizing_twice_changes_nothing() {
    let mut g = four();
    let _ = g.add_edge("d", "b", number(0.4));
    g.finalize();
    let first = format!("{:?}", g);
    g.finalize();
    assert_eq!(format!("{:?}", g), first);
}

#[test]
fn empty_graph_has_no_snapshot() {
    let mut g = AgentGraph::new();
    g.finalize();
    assert!(g.backing.is_none());
    assert!(!g.dirty);
    assert!(g.laplacian_matrix(|s: &GraphSnapshot| s.order).is_none());
    g.add_node("a", "A", true);
    assert_eq!(g.laplacian_matrix(|s: &GraphSnapshot| s.order), Some(1));
}

#[test]
fn queries_see_the_present_graph() {
    let mut g = four();
    let count = |s: &GraphSnapshot| (s.order, s.links.len());
    assert_eq!(g.adjacency_matrix(count), Some((4, 0)));
    let _ = g.add_edge("a", "b", number(0.5));
    assert_eq!(g.adjacency_matrix(count), Some((4, 1)));
    g.remove_node("c");
    assert_eq!(g.adjacency_matrix(count), Some((3, 1)));
    g.remove_node("a");
    assert_eq!(g.adjacency_matrix(count), Some((2, 0)));
}

#[test]
fn snapshot_is_kept_until_given_up() {
    let mut g = four();
    g.finalize();
    g.edges.push(terminal_spectral_harness::CollabEdge {
        source: 0,
        target: 1,
        weight: number(0.5),
    });
    assert_eq!(g.backing().unwrap().links.len(), 0);
    g.invalidate_cache();
    assert_eq!(g.backing().unwrap().links.len(), 1);
}

// Queries

#[test]
fn queries_hand_on_what_the_solver_gives() {
    let mut g = four();
    assert_eq!(g.fiedler_value(solved(0.5)).map(float), Some(0.5));
    assert_eq!(g.cheeger_constant(solved(0.25)).map(float), Some(0.25));
    assert_eq!(g.mixing_time(steps(3.0)).map(float), Some(3.0));
    assert_eq!(g.expander_quality(solved(0.75)).map(float), Some(0.75));
}

#[test]
fn failed_queries_give_nothing() {
    let mut g = four();
    assert!(g.fiedler_value(failed).is_none());
    assert!(g.cheeger_constant(failed).is_none());
    assert!(g.mixing_time(unmixed).is_none());
    assert!(g.expander_quality(failed).is_none());
}

#[test]
fn small_graphs_are_not_asked_about() {
    let mut g = AgentGraph::new();
    g.add_node("only", "Only", true);
    assert!(g.fiedler_value(solved(0.5)).is_none());
    assert!(g.cheeger_constant(solved(0.5)).is_none());
    assert!(g.mixing_time(steps(3.0)).is_none());
    assert!(g.dirty);
    let r = g.readings(solved(0.5), solved(0.5), steps(3.0));
    assert!(r.fiedler.is_none() && r.cheeger.is_none() && r.mixing_time.is_none());
    assert_eq!(g.expander_quality(solved(0.5)).map(float), Some(0.5));
}

// Status bar

#[test]
fn indicator_shows_the_readings() {
    let mut g = four();
    assert_eq!(
        g.status_bar_indicator(solved(0.34), solved(0.21), steps(3.0), render),
        "λ₂=0.34 h=0.21 t=3"
    );
    let r = SpectralReadings {
        fiedler: Some(number(2.0)),
        cheeger: Some(number(0.125)),
        mixing_time: None,
    };
    assert_eq!(r.indicator(render), "λ₂=2.00 h=0.12 t=0");
}

#[test]
fn indicator_shows_missing_readings_as_zero() {
    let mut g = four();
    assert_eq!(
        g.status_bar_indicator(failed, failed, unmixed, render),
        "λ₂=0.00 h=0.00 t=0"
    );
}

#[test]
fn indicator_of_a_dashboard_is_that_of_its_graph() {
    let mut db = SpectralDashboard::new();
    assert_eq!(db.status_bar_indicator(solved(0.3), solved(0.2), steps(5.0), render), "");
    db.graph = four();
    assert_eq!(
        db.status_bar_indicator(solved(0.3), solved(0.2), steps(5.0), render),
        "λ₂=0.30 h=0.20 t=5"
    );
    assert!(db.last_fiedler.is_none());
}

// Dashboard

#[test]
fn recomputation_records_the_readings() {
    let mut db = SpectralDashboard::new();
    db.graph = four();
    db.recompute(solved(0.5), failed, steps(7.0));
    assert_eq!(db.last_fiedler.map(float), Some(0.5));
    assert!(db.last_cheeger.is_none());
    assert_eq!(db.last_mixing_time.map(float), Some(7.0));
}

#[test]
fn recomputation_of_a_small_graph_keeps_the_readings() {
    let mut db = SpectralDashboard::new();
    db.graph = four();
    db.recompute(solved(0.5), solved(0.25), steps(7.0));
    for id in ["a", "b", "c"] {
        db.graph.remove_node(id);
    }
    db.recompute(solved(0.1), solved(0.1), steps(1.0));
    assert_eq!(db.last_fiedler.map(float), Some(0.5));
    assert_eq!(db.last_cheeger.map(float), Some(0.25));
    assert_eq!(db.last_mixing_time.map(float), Some(7.0));
}

/// The numbers of the ticks, among the first `n`, that take the readings again.
fn recomputed_at(db: &mut SpectralDashboard, n: u64) -> Vec<u64> {
    let mut at = Vec::new();
    for tick in 1..=n {
        db.last_fiedler = None;
        db.tick(solved(0.5), solved(0.5), steps(1.0));
        if db.last_fiedler.is_some() {
            at.push(tick);
            assert_eq!(db.ticks_since_update.count(), 0);
        }
    }
    at
}

#[test]
fn recomputation_is_periodic() {
    let mut db = SpectralDashboard::new();
    db.graph = four();
    assert_eq!(recomputed_at(&mut db, 35), vec![10, 20, 30]);
    let mut db = SpectralDashboard::new();
    db.graph = four();
    db.set_recompute_interval(3);
    assert_eq!(recomputed_at(&mut db, 10), vec![3, 6, 9]);
    assert_eq!(db.ticks_since_update.count(), 1);
}

#[test]
fn intervals_of_zero_and_one_recompute_always() {
    for interval in [0, 1] {
        let mut db = SpectralDashboard::new();
        db.graph = four();
        db.set_recompute_interval(interval);
        assert_eq!(recomputed_at(&mut db, 3), vec![1, 2, 3]);
    }
}

#[test]
fn a_shorter_interval_takes_effect_on_the_next_tick() {
    let mut db = SpectralDashboard::new();
    db.graph = four();
    assert_eq!(recomputed_at(&mut db, 5), vec![]);
    db.set_recompute_interval(2);
    assert_eq!(recomputed_at(&mut db, 3), vec![1, 3]);
}

#[test]
fn the_counter_starts_over_when_due() {
    let mut ticks = TickCounter::new();
    assert!(!ticks.advance(3));
    assert!(!ticks.advance(3));
    assert_eq!(ticks.count(), 2);
    assert!(ticks.advance(3));
    assert_eq!(ticks.count(), 0);
    assert!(!ticks.advance(u64::MAX));
    assert_eq!(ticks.count(), 1);
}

// Asking again

/// A solver whose answer rests on the whole snapshot.
fn total(g: &GraphSnapshot) -> Result<Binary64, String> {
    let sum: f64 = g.links.iter().map(|e| float(e.weight)).sum();
    Ok(number(sum / g.order as f64))
}

fn edges_per_node(g: &GraphSnapshot) -> Option<Binary64> {
    if g.links.is_empty() {
        None
    } else {
        Some(number(g.links.len() as f64 / g.order as f64))
    }
}

#[test]
fn like_graphs_are_answered_alike() {
    let mut g = four();
    let _ = g.add_edge("a", "b", number(0.5));
    let mut h = AgentGraph::new();
    for id in ["w", "x", "y", "z"] {
        h.add_node(id, "other", false);
    }
    let _ = h.add_edge("w", "x", number(0.5));
    h.finalize();
    assert_eq!(g.fiedler_value(total).map(float), Some(0.125));
    assert_eq!(g.fiedler_value(total).map(float), Some(0.125));
    assert_eq!(h.fiedler_value(total).map(float), Some(0.125));
}

#[test]
fn changed_graph_is_answered_like_a_fresh_one() {
    let links = |s: &GraphSnapshot| -> Vec<(usize, usize, u64)> {
        s.links.iter().map(|e| (e.source, e.target, e.weight.bits)).collect()
    };
    let mut g = four();
    let _ = g.adjacency_matrix(links);
    let _ = g.add_edge("b", "d", number(0.5));
    g.remove_node("a");
    let mut fresh = AgentGraph::new();
    for id in ["b", "c", "d"] {
        fresh.add_node(id, id, true);
    }
    let _ = fresh.add_edge("b", "d", number(0.5));
    assert_eq!(g.adjacency_matrix(links), fresh.adjacency_matrix(links));
    assert_eq!(g.adjacency_matrix(links), Some(vec![(0, 2, 0.5f64.to_bits())]));
}

#[test]
fn both_matrices_are_of_one_snapshot() {
    let mut g = four();
    let _ = g.add_edge("a", "b", number(0.5));
    let a = g.adjacency_matrix(|s: &GraphSnapshot| s.order + s.links.len());
    let l = g.laplacian_matrix(|s: &GraphSnapshot| 10 * (s.order + s.links.len()));
    assert_eq!(l, a.map(|x| 10 * x));
}

#[test]
fn recomputation_records_what_the_queries_return() {
    let mut db = SpectralDashboard::new();
    db.graph = four();
    let _ = db.graph.add_edge("a", "b", number(0.5));
    db.recompute(total, failed, edges_per_node);
    assert_eq!(db.last_fiedler.map(float), db.graph.fiedler_value(total).map(float));
    assert_eq!(db.last_mixing_time.map(float), Some(0.25));
    let once = format!("{:?}", db);
    db.recompute(total, failed, edges_per_node);
    assert_eq!(format!("{:?}", db), once);
    db.graph.remove_node("a");
    db.recompute(total, failed, edges_per_node);
    assert_eq!(db.last_fiedler.map(float), Some(0.0));
    assert!(db.last_mixing_time.is_none());
}

#[test]
fn dashboard_text_is_the_text_of_its_graph() {
    let mut db = SpectralDashboard::new();
    db.graph = four();
    db.recompute(solved(9.0), solved(9.0), steps(9.0));
    let _ = db.graph.add_edge("a", "b", number(1.0));
    let mut g = db.graph.clone();
    let text = db.status_bar_indicator(total, total, edges_per_node, render);
    assert_eq!(text, g.status_bar_indicator(total, total, edges_per_node, render));
    assert_eq!(text, "λ₂=0.25 h=0.25 t=0");
    assert_eq!(db.last_fiedler.map(float), Some(9.0));
}
