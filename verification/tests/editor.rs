//! The editing state machine: what clicks and drags do in each mode, and the
//! store's handle semantics (stable across additions, dangling after
//! removal, silent no-ops on dangling handles).

use graph_vis::geom::Vec2;
use graph_vis::graph::Graph;
use graph_vis::input_state::{InputState, StateData};
use graph_vis::node::NodeHighlight;
use graph_vis::ui_state::{UiData, UiMode};

#[test]
fn click_in_add_mode_adds_a_node() {
    let mut g = Graph::new();
    let mut state = InputState::Add;
    state.on_left_click(&mut g, Vec2::new(30, 40));
    assert_eq!(g.nodes.len(), 1);
    assert_eq!(g.node_weight(0).unwrap().position, Vec2::new(30, 40));
}

#[test]
fn click_in_remove_mode_removes_node_and_incident_edges() {
    let mut g = Graph::new();
    let a = g.add_node(Vec2::new(0, 0));
    let b = g.add_node(Vec2::new(100, 0));
    let e = g.connect_nodes(a, b).unwrap();

    let mut state = InputState::Remove;
    state.on_left_click(&mut g, Vec2::new(0, 0));

    // The handle dangles; the incident edge went with it; `b` survives.
    assert!(g.node_weight(a).is_none());
    assert!(g.edge_weight(e).is_none());
    assert!(g.node_weight(b).is_some());

    // Dangling handles are silent no-ops from then on.
    g.move_node(a, Vec2::new(5, 5));
    g.set_node_ignore_force(a, true);
    assert!(g.node_weight(a).is_none());
    assert!(g.connect_nodes(a, b).is_none());
}

#[test]
fn handles_stay_valid_across_additions() {
    let mut g = Graph::new();
    let a = g.add_node(Vec2::new(0, 0));
    g.add_node(Vec2::new(100, 0));
    let c = g.add_node(Vec2::new(200, 0));
    assert_eq!(g.node_weight(a).unwrap().position, Vec2::new(0, 0));
    assert_eq!(g.node_weight(c).unwrap().position, Vec2::new(200, 0));
}

#[test]
fn connect_mode_takes_two_clicks_and_unhighlights() {
    let mut g = Graph::new();
    let a = g.add_node(Vec2::new(0, 0));
    let b = g.add_node(Vec2::new(100, 0));

    let mut state = InputState::Connect(StateData { selected_node: None });
    state.on_left_click(&mut g, Vec2::new(0, 0));
    assert!(matches!(
        g.node_weight(a).unwrap().highlight,
        NodeHighlight::Highlighted
    ));

    state.on_left_click(&mut g, Vec2::new(100, 0));
    assert!(matches!(
        g.node_weight(a).unwrap().highlight,
        NodeHighlight::Normal
    ));
    assert_eq!(g.edges.len(), 1);
    let ed = g.edge_weight(0).unwrap();
    assert_eq!((ed.from, ed.to), (a, b));
}

#[test]
fn connecting_the_same_pair_twice_replaces_the_edge() {
    let mut g = Graph::new();
    let a = g.add_node(Vec2::new(0, 0));
    let b = g.add_node(Vec2::new(100, 0));
    let e1 = g.connect_nodes(a, b).unwrap();
    g.set_edge_enabled(e1, false);
    // Reconnecting hands back the same handle with a fresh enabled edge.
    let e2 = g.connect_nodes(a, b).unwrap();
    assert_eq!(e1, e2);
    assert_eq!(g.edges.len(), 1);
    assert!(g.edge_weight(e2).unwrap().enabled);
    // The opposite direction is a different edge.
    let e3 = g.connect_nodes(b, a).unwrap();
    assert_ne!(e1, e3);
    assert_eq!(g.edges.len(), 2);
}

#[test]
fn move_mode_grabs_drags_and_drops() {
    let mut g = Graph::new();
    let a = g.add_node(Vec2::new(0, 0));
    let b = g.add_node(Vec2::new(100, 0));
    let e = g.connect_nodes(a, b).unwrap();

    let mut state = InputState::Move(StateData { selected_node: None });
    // Grab: the node under the click is pinned.
    state.on_left_click(&mut g, Vec2::new(0, 0));
    assert!(g.node_weight(a).unwrap().ignore_force);

    // Drag: it follows the pointer, edge geometry included.
    state.on_mouse_drag(&mut g, Vec2::new(50, 60));
    assert_eq!(g.node_weight(a).unwrap().position, Vec2::new(50, 60));
    assert_eq!(g.edge_weight(e).unwrap().from_pos, Vec2::new(50, 60));

    // Drop: released again.
    state.on_left_click(&mut g, Vec2::new(50, 60));
    assert!(!g.node_weight(a).unwrap().ignore_force);

    // Dragging with nothing grabbed does nothing.
    state.on_mouse_drag(&mut g, Vec2::new(300, 300));
    assert_eq!(g.node_weight(a).unwrap().position, Vec2::new(50, 60));
}

#[test]
fn select_mode_moves_the_highlight() {
    let mut g = Graph::new();
    let a = g.add_node(Vec2::new(0, 0));
    let b = g.add_node(Vec2::new(100, 0));

    let mut state = InputState::Select(StateData { selected_node: None });
    state.on_left_click(&mut g, Vec2::new(0, 0));
    assert!(matches!(
        g.node_weight(a).unwrap().highlight,
        NodeHighlight::Highlighted
    ));

    state.on_left_click(&mut g, Vec2::new(100, 0));
    assert!(matches!(
        g.node_weight(a).unwrap().highlight,
        NodeHighlight::Normal
    ));
    assert!(matches!(
        g.node_weight(b).unwrap().highlight,
        NodeHighlight::Highlighted
    ));

    // Clicking empty space clears the selection.
    state.on_left_click(&mut g, Vec2::new(5000, 5000));
    if let InputState::Select(data) = &state {
        assert!(data.selected_node.is_none());
    } else {
        panic!("mode changed");
    }
    assert!(matches!(
        g.node_weight(b).unwrap().highlight,
        NodeHighlight::Normal
    ));
}

#[test]
fn ui_defaults() {
    let ui = UiData::new();
    assert!(ui.is_directed());
    assert!(matches!(ui.state(), UiMode::Edit));
    assert_eq!(ui.push_conf().force(), 1000);
    assert_eq!(ui.push_conf().distance(), 150);
    assert_eq!(ui.pull_conf().min_distance(), 100);
    assert_eq!(ui.pull_conf().force_at_twice_distance(), 500);
    assert_eq!((ui.node_count, ui.edge_count), (10, 15));
}
