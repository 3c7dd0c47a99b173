//! The recorded traversals: step logs of DFS and BFS on a two-node graph,
//! and the component search on two linked triangles.

use std::collections::HashSet;

use graph_vis::bfs::{run_bfs, Bfs};
use graph_vis::color::palette;
use graph_vis::dfs::{run_dfs, Dfs};
use graph_vis::geom::Vec2;
use graph_vis::graph::Graph;
use graph_vis::node::NodeState;
use graph_vis::scc::{run_scc, Scc};
use graph_vis::step::{EdgeStep, NodeStep, Step};

fn two_node_graph() -> (Graph, usize, usize, usize) {
    let mut graph = Graph::new();
    let a = graph.add_node(Vec2::new(0, 0));
    let b = graph.add_node(Vec2::new(100, 0));
    let edge_idx = graph.connect_nodes(a, b).unwrap();
    (graph, a, b, edge_idx)
}

fn dfs_small_test_main(run_undirected: bool) {
    let (graph, a, b, edge_idx) = two_node_graph();

    let mut dfs = Dfs::from_graph(&graph);
    if run_undirected {
        dfs.run_undirected(&graph, a);
    } else {
        dfs.run(&graph, a);
    }

    let res = dfs.result(a);

    let desired = vec![
        Step::Node(NodeStep::new(a, NodeState::Queued)),
        Step::Edge(EdgeStep::new(edge_idx, true)),
        Step::Node(NodeStep::new(b, NodeState::Queued)),
        Step::Node(NodeStep::new(b, NodeState::Visited)),
        Step::Node(NodeStep::new(a, NodeState::Visited)),
    ];

    assert_eq!(res.steps(), &desired);
}

#[test]
fn small_test_directed() {
    dfs_small_test_main(false);
}

#[test]
fn small_test_undirected() {
    dfs_small_test_main(true);
}

#[test]
fn small_test() {
    let (graph, a, b, edge_idx) = two_node_graph();

    let res = Bfs::from_graph(&graph).result(&graph, a);

    let desired = vec![
        Step::Node(NodeStep::new(a, NodeState::Queued)),
        Step::Edge(EdgeStep::new(edge_idx, true)),
        Step::Node(NodeStep::new(b, NodeState::Queued)),
        Step::Node(NodeStep::new(a, NodeState::Visited)),
        Step::Node(NodeStep::new(b, NodeState::Visited)),
    ];

    assert_eq!(res.steps(), &desired);
}

#[test]
fn two_triangles() {
    let mut graph = Graph::new();
    let a = graph.add_node(Vec2::new(0, 0));
    let b = graph.add_node(Vec2::new(10, 0));
    let c = graph.add_node(Vec2::new(20, 0));
    let d = graph.add_node(Vec2::new(30, 0));
    let e = graph.add_node(Vec2::new(40, 0));
    let f = graph.add_node(Vec2::new(50, 0));

    graph.connect_nodes(a, b).unwrap();
    graph.connect_nodes(b, c).unwrap();
    graph.connect_nodes(c, a).unwrap();
    graph.connect_nodes(c, d).unwrap();
    graph.connect_nodes(d, e).unwrap();
    graph.connect_nodes(e, f).unwrap();
    graph.connect_nodes(f, d).unwrap();

    let mut scc = Scc::new();
    scc.run(&graph);

    assert_eq!(scc.components().len(), 2);

    let first: HashSet<usize> = scc.components()[0].iter().copied().collect();
    let second: HashSet<usize> = scc.components()[1].iter().copied().collect();
    assert_eq!(first, HashSet::from([a, b, c]));
    assert_eq!(second, HashSet::from([d, e, f]));

    // One paint step per component, with distinct colors.
    let mut paint_colors = Vec::new();
    let mut painted_sets: Vec<HashSet<usize>> = Vec::new();
    for step in scc.steps.iter() {
        if let Step::Paint(p) = step {
            paint_colors.push(p.color);
            painted_sets.push(p.indices.iter().copied().collect());
        }
    }
    assert_eq!(paint_colors.len(), 2);
    assert_ne!(paint_colors[0], paint_colors[1]);
    assert_eq!(painted_sets[0], HashSet::from([a, b, c]));
    assert_eq!(painted_sets[1], HashSet::from([d, e, f]));
}

#[test]
fn dfs_covers_second_component_from_new_root() {
    // Two separate nodes: a run from each root in handle order, as the
    // component search's forward pass does.
    let mut graph = Graph::new();
    let a = graph.add_node(Vec2::new(0, 0));
    let b = graph.add_node(Vec2::new(100, 0));

    let mut dfs = Dfs::from_graph(&graph);
    dfs.run(&graph, a);
    dfs.run(&graph, b);

    assert_eq!(dfs.postorder(), &vec![a, b]);
    let desired = vec![
        Step::Node(NodeStep::new(a, NodeState::Queued)),
        Step::Node(NodeStep::new(a, NodeState::Visited)),
        Step::Node(NodeStep::new(b, NodeState::Queued)),
        Step::Node(NodeStep::new(b, NodeState::Visited)),
    ];
    assert_eq!(&dfs.steps, &desired);
}

#[test]
fn scc_log_shape() {
    // A single two-node component: the log is the forward pass, the reset
    // and reversal, the backward pass with its paint, then the restoring
    // reversal and the enable-all step.
    let mut graph = Graph::new();
    let a = graph.add_node(Vec2::new(0, 0));
    let b = graph.add_node(Vec2::new(10, 0));
    let e_ab = graph.connect_nodes(a, b).unwrap();
    let e_ba = graph.connect_nodes(b, a).unwrap();

    let mut scc = Scc::new();
    scc.run(&graph);

    assert_eq!(scc.components().len(), 1);
    let comp: HashSet<usize> = scc.components()[0].iter().copied().collect();
    assert_eq!(comp, HashSet::from([a, b]));

    let steps = &scc.steps;
    // forward pass: queued a, edge a->b, queued b, visited b, visited a
    assert_eq!(steps[0], Step::Node(NodeStep::new(a, NodeState::Queued)));
    assert_eq!(steps[1], Step::Edge(EdgeStep::new(e_ab, true)));
    assert_eq!(steps[2], Step::Node(NodeStep::new(b, NodeState::Queued)));
    assert_eq!(steps[3], Step::Node(NodeStep::new(b, NodeState::Visited)));
    assert_eq!(steps[4], Step::Node(NodeStep::new(a, NodeState::Visited)));
    assert!(matches!(steps[5], Step::Reset(_)));
    assert!(matches!(steps[6], Step::Reverse(_)));
    // backward pass from a (last finisher): queued a, edge b->a (incoming),
    // queued b, visited b, visited a, then the paint step
    assert_eq!(steps[7], Step::Node(NodeStep::new(a, NodeState::Queued)));
    assert_eq!(steps[8], Step::Edge(EdgeStep::new(e_ba, true)));
    assert_eq!(steps[9], Step::Node(NodeStep::new(b, NodeState::Queued)));
    assert_eq!(steps[10], Step::Node(NodeStep::new(b, NodeState::Visited)));
    assert_eq!(steps[11], Step::Node(NodeStep::new(a, NodeState::Visited)));
    assert!(matches!(steps[12], Step::Paint(_)));
    assert!(matches!(steps[13], Step::Reverse(_)));
    assert!(matches!(steps[14], Step::EnableEdges(_)));
    assert_eq!(steps.len(), 15);
}

#[test]
fn runs_on_empty_graph() {
    let g = Graph::new();

    let dfs_log = run_dfs(&g, 0);
    assert!(dfs_log.steps().is_empty());

    let bfs_log = run_bfs(&g, 0);
    assert!(bfs_log.steps().is_empty());

    let scc_log = run_scc(&g);
    // Only the transition and cleanup steps remain.
    assert_eq!(scc_log.steps().len(), 4);
    assert!(matches!(scc_log.steps()[0], Step::Reset(_)));
    assert!(matches!(scc_log.steps()[1], Step::Reverse(_)));
    assert!(matches!(scc_log.steps()[2], Step::Reverse(_)));
    assert!(matches!(scc_log.steps()[3], Step::EnableEdges(_)));
}

#[test]
fn run_from_out_of_range_handle_records_nothing() {
    let mut g = Graph::new();
    g.add_node(Vec2::new(0, 0));
    let beyond = g.nodes.len();
    assert!(run_dfs(&g, beyond).steps().is_empty());
    assert!(run_bfs(&g, beyond).steps().is_empty());
}

#[test]
fn steps_over_a_dangling_handle_apply_as_no_ops() {
    let mut g = Graph::new();
    let a = g.add_node(Vec2::new(0, 0));
    let b = g.add_node(Vec2::new(100, 0));
    let log = run_dfs(&g, a);
    g.remove_node(a);
    for step in log.steps().iter() {
        step.apply_step(&mut g);
    }
    assert!(g.node_weight(a).is_none());
    assert!(g.node_weight(b).is_some());
}

#[test]
fn palette_wraps_after_ten_components() {
    assert_eq!(palette(0), palette(10));
    assert_ne!(palette(0), palette(1));
    assert_eq!(palette(7), palette(17));
}
