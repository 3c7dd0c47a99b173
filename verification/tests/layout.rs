//! The force engine: attraction thresholds and exact magnitudes, repulsion
//! between coincident nodes, integration, pinning, and the hit tests.

use graph_vis::edge::Edge;
use graph_vis::geom::Vec2;
use graph_vis::graph::Graph;
use graph_vis::gravity::{PullForceConfig, PushForceConfig};

fn pull_conf() -> PullForceConfig {
    PullForceConfig::new(100, 500)
}

fn push_conf() -> PushForceConfig {
    PushForceConfig::new(1000, 150)
}

#[test]
fn pull_zero_under_min_distance() {
    let e = Edge::new(0, 1, Vec2::new(0, 0), Vec2::new(50, 0));
    assert_eq!(e.calculate_pull_force(&pull_conf()), Vec2::new(0, 0));
}

#[test]
fn pull_exact_at_twice_min_distance() {
    // Distance of exactly twice the minimum: the magnitude is exactly the
    // configured force.
    let e = Edge::new(0, 1, Vec2::new(0, 0), Vec2::new(200, 0));
    assert_eq!(e.calculate_pull_force(&pull_conf()), Vec2::new(500, 0));

    let diag = Edge::new(0, 1, Vec2::new(0, 0), Vec2::new(0, 200));
    assert_eq!(diag.calculate_pull_force(&pull_conf()), Vec2::new(0, 500));
}

#[test]
fn pull_zero_when_disabled() {
    let mut e = Edge::new(0, 1, Vec2::new(0, 0), Vec2::new(200, 0));
    e.disable();
    assert_eq!(e.calculate_pull_force(&pull_conf()), Vec2::new(0, 0));
}

#[test]
fn pull_direction_flips_when_reversed() {
    let mut e = Edge::new(0, 1, Vec2::new(0, 0), Vec2::new(200, 0));
    e.reverse();
    assert_eq!(e.calculate_pull_force(&pull_conf()), Vec2::new(-500, 0));
}

#[test]
fn repulsion_at_identical_positions_is_finite_and_nonzero() {
    let mut g = Graph::new();
    let a = g.add_node(Vec2::new(7, 7));
    let b = g.add_node(Vec2::new(7, 7));
    g.push_force(&push_conf());

    for idx in [a, b] {
        let n = g.node_weight(idx).unwrap();
        let f = n.current_force;
        // Defined and bounded by the configured force...
        assert!(f.x.abs() <= 1000 && f.y.abs() <= 1000);
        // ...and not the zero vector: the substitute direction pushes apart.
        assert!(!(f.x == 0 && f.y == 0));
    }
}

#[test]
fn repulsion_pushes_apart_and_fades_out() {
    let mut g = Graph::new();
    let a = g.add_node(Vec2::new(0, 0));
    let b = g.add_node(Vec2::new(100, 0));
    g.push_force(&push_conf());
    // fall = (150 - 100) / 150 of the force, directed apart:
    // 1000 * 50 / 150 = 333, then components scaled by dx/d.
    assert_eq!(g.node_weight(a).unwrap().current_force, Vec2::new(-333, 0));
    assert_eq!(g.node_weight(b).unwrap().current_force, Vec2::new(333, 0));

    // Beyond the falloff radius nothing is contributed.
    let mut far = Graph::new();
    let c = far.add_node(Vec2::new(0, 0));
    far.add_node(Vec2::new(200, 0));
    far.push_force(&push_conf());
    assert_eq!(far.node_weight(c).unwrap().current_force, Vec2::new(0, 0));
}

#[test]
fn attraction_moves_both_ends_and_refreshes_edge_geometry() {
    let mut g = Graph::new();
    let a = g.add_node(Vec2::new(0, 0));
    let b = g.add_node(Vec2::new(300, 0));
    let e = g.connect_nodes(a, b).unwrap();

    g.pull_force(&pull_conf());
    // magnitude = (300 - 100) * 500 / 100 = 1000, equal and opposite.
    assert_eq!(g.node_weight(a).unwrap().current_force, Vec2::new(1000, 0));
    assert_eq!(g.node_weight(b).unwrap().current_force, Vec2::new(-1000, 0));

    // One second of integration moves each end by its force.
    g.consume_forces(1000);
    assert_eq!(g.node_weight(a).unwrap().position, Vec2::new(1000, 0));
    assert_eq!(g.node_weight(b).unwrap().position, Vec2::new(-700, 0));
    assert_eq!(g.node_weight(a).unwrap().current_force, Vec2::new(0, 0));

    // The cached edge geometry follows the moved endpoints.
    let ed = g.edge_weight(e).unwrap();
    assert_eq!(ed.from_pos, Vec2::new(1000, 0));
    assert_eq!(ed.to_pos, Vec2::new(-700, 0));
}

#[test]
fn pinned_node_discards_its_force() {
    let mut g = Graph::new();
    let a = g.add_node(Vec2::new(0, 0));
    let b = g.add_node(Vec2::new(300, 0));
    g.connect_nodes(a, b).unwrap();
    g.set_node_ignore_force(a, true);

    g.pull_force(&pull_conf());
    g.consume_forces(1000);

    // The pinned end stays put with an empty accumulator; the free end moves.
    assert_eq!(g.node_weight(a).unwrap().position, Vec2::new(0, 0));
    assert_eq!(g.node_weight(a).unwrap().current_force, Vec2::new(0, 0));
    assert_eq!(g.node_weight(b).unwrap().position, Vec2::new(-700, 0));
}

#[test]
fn half_frame_integrates_half_the_force() {
    let mut g = Graph::new();
    let a = g.add_node(Vec2::new(0, 0));
    let b = g.add_node(Vec2::new(300, 0));
    g.connect_nodes(a, b).unwrap();
    g.pull_force(&pull_conf());
    g.consume_forces(500);
    assert_eq!(g.node_weight(a).unwrap().position, Vec2::new(500, 0));
}

#[test]
fn full_layout_tick_runs_all_three_passes() {
    let mut g = Graph::new();
    let a = g.add_node(Vec2::new(0, 0));
    let b = g.add_node(Vec2::new(300, 0));
    g.connect_nodes(a, b).unwrap();
    // Far apart: repulsion contributes nothing, attraction 1000 each way.
    g.update_layout(1000, &push_conf(), &pull_conf());
    assert_eq!(g.node_weight(a).unwrap().position, Vec2::new(1000, 0));
    assert_eq!(g.node_weight(b).unwrap().position, Vec2::new(-700, 0));
}

#[test]
fn node_hit_test_picks_topmost() {
    let mut g = Graph::new();
    let _a = g.add_node(Vec2::new(0, 0));
    let b = g.add_node(Vec2::new(5, 0));
    // Both circles (radius 20) cover the origin; the later node is on top.
    assert_eq!(g.node_from_point(Vec2::new(0, 0)), Some(b));
    assert_eq!(g.node_from_point(Vec2::new(1000, 1000)), None);
}

#[test]
fn node_hit_test_respects_radius() {
    let mut g = Graph::new();
    let a = g.add_node(Vec2::new(0, 0));
    assert_eq!(g.node_from_point(Vec2::new(20, 0)), Some(a));
    assert_eq!(g.node_from_point(Vec2::new(21, 0)), None);
}

#[test]
fn edge_hit_test_on_stroke() {
    let mut g = Graph::new();
    let a = g.add_node(Vec2::new(0, 0));
    let b = g.add_node(Vec2::new(200, 200));
    let e = g.connect_nodes(a, b).unwrap();
    assert_eq!(g.edge_from_point(Vec2::new(100, 100)), Some(e));
    assert_eq!(g.edge_from_point(Vec2::new(100, 180)), None);
}

#[test]
fn move_node_refreshes_incident_edges() {
    let mut g = Graph::new();
    let a = g.add_node(Vec2::new(0, 0));
    let b = g.add_node(Vec2::new(100, 0));
    let e = g.connect_nodes(a, b).unwrap();
    g.move_node(a, Vec2::new(40, 50));
    assert_eq!(g.node_weight(a).unwrap().position, Vec2::new(40, 50));
    let ed = g.edge_weight(e).unwrap();
    assert_eq!(ed.from_pos, Vec2::new(40, 50));
    assert_eq!(ed.to_pos, Vec2::new(100, 0));
}

#[test]
fn repulsion_is_deterministic_for_distinct_positions() {
    let mut g1 = Graph::new();
    g1.add_node(Vec2::new(0, 0));
    g1.add_node(Vec2::new(100, 0));
    let mut g2 = Graph::new();
    g2.add_node(Vec2::new(0, 0));
    g2.add_node(Vec2::new(100, 0));
    g1.push_force(&push_conf());
    g2.push_force(&push_conf());
    for i in 0..2 {
        assert_eq!(
            g1.node_weight(i).unwrap().current_force,
            g2.node_weight(i).unwrap().current_force
        );
    }
}
