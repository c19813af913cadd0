//! Building collaboration graphs and asking solvers about them. The solvers here
//! compute with `nalgebra` from the snapshot that they are handed.
use nalgebra::DMatrix;
use terminal_spectral_harness::{AgentGraph, Binary64, GraphSnapshot, SpectralDashboard};

fn number(x: f64) -> Binary64 {
    Binary64 { bits: x.to_bits() }
}

fn float(b: Binary64) -> f64 {
    f64::from_bits(b.bits)
}

fn adjacency(g: &GraphSnapshot) -> DMatrix<f64> {
    let mut a = DMatrix::zeros(g.order, g.order);
    for e in &g.links {
        a[(e.source, e.target)] = float(e.weight);
        if !g.directed {
            a[(e.target, e.source)] = float(e.weight);
        }
    }
    a
}

fn degrees(g: &GraphSnapshot) -> Vec<f64> {
    adjacency(g).row_iter().map(|r| r.sum()).collect()
}

fn laplacian(g: &GraphSnapshot) -> DMatrix<f64> {
    let mut l = -adjacency(g);
    for (i, d) in degrees(g).into_iter().enumerate() {
        l[(i, i)] += d;
    }
    l
}

fn second_eigenvalue(m: DMatrix<f64>) -> f64 {
    let mut values: Vec<f64> = m.symmetric_eigen().eigenvalues.iter().copied().collect();
    values.sort_by(|a, b| a.partial_cmp(b).unwrap());
    values[1]
}

fn fiedler(g: &GraphSnapshot) -> Result<Binary64, String> {
    Ok(number(second_eigenvalue(laplacian(g))))
}

fn cheeger(g: &GraphSnapshot) -> Result<Binary64, String> {
    let a = adjacency(g);
    let d = degrees(g);
    let mut best = f64::INFINITY;
    for set in 1u32..((1u32 << g.order) - 1) {
        let inside = |i: usize| set & (1 << i) != 0;
        let mut cut = 0.0;
        let mut volumes = [0.0, 0.0];
        for i in 0..g.order {
            volumes[inside(i) as usize] += d[i];
            for j in 0..g.order {
                if inside(i) && !inside(j) {
                    cut += a[(i, j)];
                }
            }
        }
        best = f64::min(best, cut / f64::min(volumes[0], volumes[1]));
    }
    Ok(number(best))
}

fn mixing_time(g: &GraphSnapshot) -> Option<Binary64> {
    let d = degrees(g);
    let l = laplacian(g);
    let normalized = DMatrix::from_fn(g.order, g.order, |i, j| l[(i, j)] / (d[i] * d[j]).sqrt());
    let gap = second_eigenvalue(normalized);
    if gap > 1e-9 {
        Some(number((4.0 * g.order as f64).ln() / gap))
    } else {
        None
    }
}

fn expander_quality(g: &GraphSnapshot) -> Result<Binary64, String> {
    if g.order < 2 {
        return Err(String::from("too few nodes"));
    }
    let largest = degrees(g).into_iter().fold(0.0, f64::max);
    Ok(number(second_eigenvalue(laplacian(g)) / largest))
}

fn render(x: Binary64, decimals: usize) -> String {
    format!("{:.*}", decimals, float(x))
}

fn indicator(g: &mut AgentGraph) -> String {
    g.status_bar_indicator(fiedler, cheeger, mixing_time, render)
}

// Graph construction

#[test]
fn empty_graph() {
    let mut g = AgentGraph::new();
    assert_eq!(g.num_nodes(), 0);
    assert_eq!(g.num_edges(), 0);
    assert!(g.fiedler_value(fiedler).is_none());
}

#[test]
fn add_nodes() {
    let mut g = AgentGraph::new();
    g.add_node("copilot", "Copilot", true);
    g.add_node("cursor", "Cursor", true);
    assert_eq!(g.num_nodes(), 2);
}

#[test]
fn add_edge_connects_nodes() {
    let mut g = AgentGraph::new();
    g.add_node("a", "Agent A", true);
    g.add_node("b", "Agent B", true);
    assert!(g.add_edge("a", "b", number(0.8)).is_ok());
    assert_eq!(g.num_edges(), 1);
}

#[test]
fn add_edge_unknown_node_fails() {
    let mut g = AgentGraph::new();
    assert!(g.add_edge("nonexistent", "b", number(0.5)).is_err());
}

#[test]
fn remove_node_removes_edges() {
    let mut g = AgentGraph::new();
    g.add_node("a", "A", true);
    g.add_node("b", "B", true);
    g.add_node("c", "C", true);
    let _ = g.add_edge("a", "b", number(1.0));
    let _ = g.add_edge("b", "c", number(1.0));
    g.remove_node("b");
    assert_eq!(g.num_nodes(), 2);
    assert_eq!(g.num_edges(), 0);
}

#[test]
fn duplicate_edge_updates_weight() {
    let mut g = AgentGraph::new();
    g.add_node("x", "X", true);
    g.add_node("y", "Y", true);
    let _ = g.add_edge("x", "y", number(0.5));
    let _ = g.add_edge("y", "x", number(0.9));
    assert_eq!(g.num_edges(), 1);
    assert!((float(g.edges[0].weight) - 0.9).abs() < 1e-10);
}

#[test]
fn adjacency_matrix_symmetric() {
    let mut g = AgentGraph::new();
    g.add_node("a", "A", true);
    g.add_node("b", "B", true);
    let _ = g.add_edge("a", "b", number(0.7));

    let adj = g.adjacency_matrix(adjacency).unwrap();
    assert!((adj[(0, 1)] - 0.7).abs() < 1e-10);
    assert!((adj[(1, 0)] - 0.7).abs() < 1e-10);
}

// Spectral queries

#[test]
fn fiedler_value_two_nodes_full_edge() {
    let mut g = AgentGraph::new();
    g.add_node("a", "A", true);
    g.add_node("b", "B", true);
    let _ = g.add_edge("a", "b", number(1.0));

    let fv = float(g.fiedler_value(fiedler).unwrap());
    assert!((fv - 2.0).abs() < 0.1, "Fiedler value should be ~2.0, got {fv}");
}

#[test]
fn fiedler_value_disconnected_graph() {
    let mut g = AgentGraph::new();
    g.add_node("a", "A", true);
    g.add_node("b", "B", true);
    g.add_node("c", "C", true);
    // Only connect a-b, leave c isolated.
    let _ = g.add_edge("a", "b", number(1.0));

    let fv = float(g.fiedler_value(fiedler).unwrap());
    assert!(
        fv < 1.0,
        "disconnected graph should have near-zero Fiedler value, got {fv}"
    );
}

#[test]
fn cheeger_constant_two_node() {
    let mut g = AgentGraph::new();
    g.add_node("a", "A", true);
    g.add_node("b", "B", true);
    let _ = g.add_edge("a", "b", number(1.0));

    let h = float(g.cheeger_constant(cheeger).unwrap());
    assert!(
        h > 0.0 && h <= 1.0,
        "Cheeger for two connected nodes should be in (0,1], got {h}"
    );
}

#[test]
fn mixing_time_finite() {
    let mut g = AgentGraph::new();
    g.add_node("a", "A", true);
    g.add_node("b", "B", true);
    g.add_node("c", "C", true);
    g.add_node("d", "D", true);
    let _ = g.add_edge("a", "b", number(0.5));
    let _ = g.add_edge("b", "c", number(0.5));
    let _ = g.add_edge("c", "d", number(0.5));
    let _ = g.add_edge("d", "a", number(0.5));
    let _ = g.add_edge("a", "c", number(0.3));
    let _ = g.add_edge("b", "d", number(0.3));

    let mt = g.mixing_time(mixing_time);
    assert!(mt.is_some(), "mixing time should be Some for connected graph");
    let mtv = float(mt.unwrap());
    assert!(mtv > 0.0 && mtv < 1_000.0, "mixing time should be reasonable, got {mtv}");
}

#[test]
fn fiedler_none_for_single_node() {
    let mut g = AgentGraph::new();
    g.add_node("only", "Only", true);
    assert!(g.fiedler_value(fiedler).is_none());
}

#[test]
fn cheeger_none_for_single_node() {
    let mut g = AgentGraph::new();
    g.add_node("only", "Only", true);
    assert!(g.cheeger_constant(cheeger).is_none());
}

#[test]
fn status_bar_indicator_empty_for_small_graph() {
    let mut g = AgentGraph::new();
    g.add_node("a", "A", true);
    assert!(indicator(&mut g).is_empty());
}

#[test]
fn status_bar_indicator_format() {
    let mut g = AgentGraph::new();
    g.add_node("a", "A", true);
    g.add_node("b", "B", true);
    let _ = g.add_edge("a", "b", number(1.0));

    let indicator = indicator(&mut g);
    assert!(!indicator.is_empty(), "indicator should not be empty for a 2-node graph");
    assert!(indicator.contains("λ₂="), "indicator should contain Fiedler label");
    assert!(indicator.contains("h="), "indicator should contain Cheeger label");
    assert!(indicator.contains("t="), "indicator should contain mixing-time label");
}

// Dashboard

#[test]
fn dashboard_empty_on_creation() {
    let db = SpectralDashboard::new();
    assert!(db.last_fiedler.is_none());
    assert!(db.last_cheeger.is_none());
    assert!(db.last_mixing_time.is_none());
    assert_eq!(db.graph.num_nodes(), 0);
    assert_eq!(db.recompute_interval, 10);
}

#[test]
fn dashboard_default() {
    let db = SpectralDashboard::default();
    assert!(db.last_fiedler.is_none());
}

#[test]
fn dashboard_recompute_two_nodes() {
    let mut db = SpectralDashboard::new();
    db.graph.add_node("cli", "CLI Agent", true);
    db.graph.add_node("code", "Code Agent", true);
    let _ = db.graph.add_edge("cli", "code", number(0.8));
    db.recompute(fiedler, cheeger, mixing_time);
    assert!(db.last_fiedler.is_some(), "Fiedler should be computed");
    assert!(db.last_cheeger.is_some(), "Cheeger should be computed");
    assert!(db.last_mixing_time.is_some(), "mixing time should be computed");
}

#[test]
fn dashboard_tick_calls_recompute() {
    let mut db = SpectralDashboard::new();
    db.recompute_interval = 2;
    db.graph.add_node("a", "A", true);
    db.graph.add_node("b", "B", true);
    let _ = db.graph.add_edge("a", "b", number(1.0));
    db.tick(fiedler, cheeger, mixing_time);
    assert!(db.last_fiedler.is_none(), "after 1 tick, should not yet recompute");
    db.tick(fiedler, cheeger, mixing_time);
    assert!(db.last_fiedler.is_some(), "after 2 ticks, should recompute");
}

#[test]
fn dashboard_set_recompute_interval() {
    let mut db = SpectralDashboard::new();
    db.set_recompute_interval(5);
    assert_eq!(db.recompute_interval, 5);
}

// Cache invalidation

#[test]
fn invalidation_clears_dirty_flag() {
    let mut g = AgentGraph::new();
    g.add_node("x", "X", true);
    g.add_node("y", "Y", true);
    let _ = g.add_edge("x", "y", number(1.0));
    let _ = g.fiedler_value(fiedler);
    g.invalidate_cache();
    assert!(g.dirty, "should be marked dirty after invalidation");
}

#[test]
fn adding_node_invalidates_cache() {
    let mut g = AgentGraph::new();
    g.add_node("a", "A", true);
    g.add_node("b", "B", true);
    let _ = g.add_edge("a", "b", number(1.0));
    let _ = g.fiedler_value(fiedler);
    assert!(!g.dirty);
    g.add_node("c", "C", true);
    assert!(g.dirty, "adding a node should mark graph dirty");
}

// Extra metrics

#[test]
fn expander_quality_available() {
    let mut g = AgentGraph::new();
    g.add_node("a", "A", true);
    g.add_node("b", "B", true);
    g.add_node("c", "C", true);
    g.add_node("d", "D", true);
    let _ = g.add_edge("a", "b", number(1.0));
    let _ = g.add_edge("b", "c", number(1.0));
    let _ = g.add_edge("c", "d", number(1.0));
    let _ = g.add_edge("d", "a", number(1.0));

    let q = g.expander_quality(expander_quality);
    assert!(q.is_some(), "expander quality should be Some for a connected regular graph");
    let qv = float(q.unwrap());
    assert!(qv >= 0.0, "expander quality should be non-negative, got {qv}");
}

#[test]
fn expander_quality_none_for_empty() {
    let mut g = AgentGraph::new();
    assert!(g.expander_quality(expander_quality).is_none());
}

#[test]
fn expander_quality_none_for_single() {
    let mut g = AgentGraph::new();
    g.add_node("only", "Only", true);
    assert!(g.expander_quality(expander_quality).is_none());
}

// Finalization and matrices

#[test]
fn finalize_rebuilds_on_change() {
    let mut g = AgentGraph::new();
    g.add_node("a", "A", true);
    g.add_node("b", "B", true);
    let _ = g.add_edge("a", "b", number(1.0));

    // Before finalize, backing is None.
    assert!(g.backing.is_none());

    // Accessing a spectral method triggers finalize.
    let _ = g.fiedler_value(fiedler);
    assert!(g.fiedler_value(fiedler).is_some());
}

#[test]
fn laplacian_matrix_produced() {
    let mut g = AgentGraph::new();
    g.add_node("a", "A", true);
    g.add_node("b", "B", true);
    let _ = g.add_edge("a", "b", number(1.0));

    let lap = g.laplacian_matrix(laplacian);
    assert!(lap.is_some(), "laplacian_matrix should return Some for a 2-node graph");
    let lap = lap.unwrap();
    assert_eq!(lap.nrows(), 2);
    assert_eq!(lap.ncols(), 2);
    assert!((lap[(0, 0)] - 1.0).abs() < 1e-10, "diagonal should be degree=1");
    assert!((lap[(0, 1)] - (-1.0)).abs() < 1e-10, "off-diagonal should be -weight");
}

#[test]
fn adjacency_matrix_none_for_empty() {
    let mut g = AgentGraph::new();
    assert!(g.adjacency_matrix(adjacency).is_none());
}

// Status bar

#[test]
fn status_bar_indicator_contains_all_metrics() {
    let mut g = AgentGraph::new();
    g.add_node("a", "A", true);
    g.add_node("b", "B", true);
    let _ = g.add_edge("a", "b", number(1.0));

    let s = indicator(&mut g);
    // Expected format: "λ₂=X.XX h=X.XX t=X"
    assert!(s.starts_with("λ₂="), "should start with λ₂=, got: {s:?}");
    let parts: Vec<&str> = s.split_whitespace().collect();
    assert!(parts.len() >= 3, "should have at least 3 space-separated parts, got: {parts:?}");
}

#[test]
fn status_bar_indicator_dashboard() {
    let mut db = SpectralDashboard::new();
    db.graph.add_node("alice", "Alice", true);
    db.graph.add_node("bob", "Bob", true);
    let _ = db.graph.add_edge("alice", "bob", number(0.9));
    db.recompute(fiedler, cheeger, mixing_time);

    let s = db.status_bar_indicator(fiedler, cheeger, mixing_time, render);
    assert!(!s.is_empty(), "dashboard status bar should be non-empty after recompute");
    assert!(s.contains("λ₂="));
    assert!(s.contains("h="));
    assert!(s.contains("t="));
}
