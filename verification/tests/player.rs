//! The timer and the step player: tick accounting, playback of a recorded
//! log one step per tick, the lazy stop after the last step, and the full
//! reset's idempotence.

use graph_vis::dfs::run_dfs;
use graph_vis::geom::Vec2;
use graph_vis::graph::Graph;
use graph_vis::node::NodeState;
use graph_vis::step::{ResetState, Step};
use graph_vis::timer::Timer;

#[test]
fn timer_fires_once_per_period() {
    // period one second, looping: one tick after one second in two halves,
    // two ticks after two and a half seconds, the third pending at half a
    // second remaining.
    let mut t = Timer::new(1000, true);
    t.start();
    assert!(!t.update(500));
    assert!(t.update(500));

    assert!(!t.update(500));
    assert!(t.update(500));
    assert!(!t.update(500));
    assert_eq!(t.time_remaining, 500);
    assert!(t.active);
}

#[test]
fn timer_discards_overshoot() {
    let mut t = Timer::new(1000, true);
    t.start();
    assert!(t.update(1700));
    assert_eq!(t.time_remaining, 1000);
}

#[test]
fn one_shot_timer_stops_after_its_tick() {
    let mut t = Timer::new(1000, false);
    t.start();
    assert!(t.update(1000));
    assert!(!t.active);
    assert!(!t.update(1000));
}

#[test]
fn stopped_timer_ignores_time() {
    let mut t = Timer::new(1000, true);
    assert!(!t.update(5000));
    t.start();
    t.stop();
    assert!(!t.update(5000));
}

fn two_node_graph() -> (Graph, usize, usize) {
    let mut g = Graph::new();
    let a = g.add_node(Vec2::new(0, 0));
    let b = g.add_node(Vec2::new(100, 0));
    g.connect_nodes(a, b).unwrap();
    (g, a, b)
}

#[test]
fn playback_applies_one_step_per_tick() {
    let (mut g, a, b) = two_node_graph();
    let mut player = run_dfs(&g, a);
    assert_eq!(player.steps().len(), 5);

    player.show_algorithm(&mut g);
    // Playback start: edges disabled, start node pinned.
    assert!(!g.edge_weight(0).unwrap().enabled);
    assert!(g.node_weight(a).unwrap().ignore_force);

    // Not a full period: nothing plays.
    player.update(299, &mut g);
    assert_eq!(g.node_weight(a).unwrap().state, NodeState::NotVisited);

    // First tick: the start node turns queued.
    player.update(1, &mut g);
    assert_eq!(g.node_weight(a).unwrap().state, NodeState::Queued);

    // Second tick: the tree edge is enabled.
    player.update(300, &mut g);
    assert!(g.edge_weight(0).unwrap().enabled);

    // Remaining ticks: queued b, visited b, visited a.
    player.update(300, &mut g);
    assert_eq!(g.node_weight(b).unwrap().state, NodeState::Queued);
    player.update(300, &mut g);
    assert_eq!(g.node_weight(b).unwrap().state, NodeState::Visited);
    player.update(300, &mut g);
    assert_eq!(g.node_weight(a).unwrap().state, NodeState::Visited);

    // The tick after the last step stops the timer and releases the start.
    assert!(g.node_weight(a).unwrap().ignore_force);
    player.update(300, &mut g);
    assert!(!g.node_weight(a).unwrap().ignore_force);
    assert!(!player.timer.active);

    // Further frames change nothing.
    player.update(900, &mut g);
    assert_eq!(g.node_weight(a).unwrap().state, NodeState::Visited);
}

#[test]
fn reset_all_applied_twice_is_idempotent() {
    let (mut g, a, _b) = two_node_graph();
    // Disturb the display state first.
    let mut player = run_dfs(&g, a);
    player.show_algorithm(&mut g);
    for _ in 0..6 {
        player.update(300, &mut g);
    }

    let reset = Step::Reset(ResetState {});
    reset.apply_step(&mut g);
    let nodes_once: Vec<_> = (0..2).map(|i| g.node_weight(i)).collect();
    let edges_once: Vec<_> = vec![g.edge_weight(0)];

    reset.apply_step(&mut g);
    let nodes_twice: Vec<_> = (0..2).map(|i| g.node_weight(i)).collect();
    let edges_twice: Vec<_> = vec![g.edge_weight(0)];

    assert_eq!(nodes_once, nodes_twice);
    assert_eq!(edges_once, edges_twice);

    // And the reset state itself: unvisited, unpinned, edges enabled.
    assert_eq!(g.node_weight(a).unwrap().state, NodeState::NotVisited);
    assert!(!g.node_weight(a).unwrap().ignore_force);
    assert!(g.edge_weight(0).unwrap().enabled);
    assert!(!g.edge_weight(0).unwrap().reversed);
}

#[test]
fn reverse_step_flips_every_edge() {
    let (mut g, _a, _b) = two_node_graph();
    let reverse = Step::Reverse(graph_vis::step::Reverse {});
    reverse.apply_step(&mut g);
    assert!(g.edge_weight(0).unwrap().reversed);
    reverse.apply_step(&mut g);
    assert!(!g.edge_weight(0).unwrap().reversed);
}

#[test]
fn paint_step_recolors_only_listed_nodes() {
    let (mut g, a, b) = two_node_graph();
    let color = graph_vis::color::palette(3);
    let paint = Step::Paint(graph_vis::step::PaintComponent { color, indices: vec![b] });
    paint.apply_step(&mut g);
    assert_eq!(g.node_weight(b).unwrap().color, color);
    assert_ne!(g.node_weight(a).unwrap().color, color);
}
