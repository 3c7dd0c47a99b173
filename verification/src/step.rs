//! The vocabulary of discrete visualization mutations an algorithm run
//! records: node-state changes, edge enabling, whole-graph edge reversal,
//! component painting and the full reset. A step is an immutable,
//! self-contained command; applying it mutates a graph store and nothing
//! else.

use vstd::prelude::*;

use crate::color::Color;
use crate::edge::Edge;
use crate::graph::{reset_edge_spec, reset_node_spec, Graph};
use crate::node::{state_color, Node, NodeState};

verus! {

/// Everything a step can see of a graph store.
#[verifier::ext_equal]
pub struct GraphView {
    pub nodes: Seq<Option<Node>>,
    pub edges: Seq<Option<Edge>>,
}

impl View for Graph {
    type V = GraphView;

    open spec fn view(&self) -> GraphView {
        GraphView { nodes: self.nodes@, edges: self.edges@ }
    }
}

/// Set one node's visitation state (and its derived color).
#[derive(Clone, Copy, PartialEq, Debug)]
pub struct NodeStep {
    pub idx: usize,
    pub to_state: NodeState,
}

impl NodeStep {
    pub fn new(idx: usize, to_state: NodeState) -> (s: NodeStep)
        ensures
            s == (NodeStep { idx, to_state }),
    {
        NodeStep { idx, to_state }
    }
}

/// Enable or disable one edge.
#[derive(Clone, Copy, PartialEq, Debug)]
pub struct EdgeStep {
    pub idx: usize,
    pub enable: bool,
}

impl EdgeStep {
    pub fn new(idx: usize, enable: bool) -> (s: EdgeStep)
        ensures
            s == (EdgeStep { idx, enable }),
    {
        EdgeStep { idx, enable }
    }
}

/// Flip the effective orientation of every edge.
#[derive(Clone, Copy, PartialEq, Debug)]
pub struct Reverse {}

/// Paint a discovered component: recolor the listed nodes.
#[derive(PartialEq, Debug)]
pub struct PaintComponent {
    pub color: Color,
    pub indices: Vec<usize>,
}

/// Full reset: every node unvisited with its default color and unpinned,
/// every edge enabled and unreversed.
#[derive(Clone, Copy, PartialEq, Debug)]
pub struct ResetState {}

/// Enable every edge.
#[derive(Clone, Copy, PartialEq, Debug)]
pub struct EnableEdges {}

/// One atomic visualization mutation.
#[derive(PartialEq, Debug)]
pub enum Step {
    Node(NodeStep),
    Edge(EdgeStep),
    Reverse(Reverse),
    Paint(PaintComponent),
    Reset(ResetState),
    EnableEdges(EnableEdges),
}

/// A step with its payload lifted to the mathematical level, so that
/// contracts can state a whole recorded log — painted components included —
/// as one value.
pub enum StepView {
    Node(usize, NodeState),
    Edge(usize, bool),
    Reverse,
    Paint(Color, Seq<usize>),
    Reset,
    EnableEdges,
}

/// The mathematical reading of one step.
pub open spec fn step_view(s: Step) -> StepView {
    match s {
        Step::Node(ns) => StepView::Node(ns.idx, ns.to_state),
        Step::Edge(es) => StepView::Edge(es.idx, es.enable),
        Step::Reverse(_) => StepView::Reverse,
        Step::Paint(p) => StepView::Paint(p.color, p.indices@),
        Step::Reset(_) => StepView::Reset,
        Step::EnableEdges(_) => StepView::EnableEdges,
    }
}

/// The nodes after one node-state step: the named slot, if stored, takes the
/// state and its derived color.
pub open spec fn apply_node_step_view(
    nodes: Seq<Option<Node>>,
    idx: usize,
    to_state: NodeState,
) -> Seq<Option<Node>> {
    if 0 <= idx < nodes.len() && nodes[idx as int] is Some {
        nodes.update(
            idx as int,
            Some(Node { state: to_state, color: state_color(to_state), ..nodes[idx as int].unwrap() }),
        )
    } else {
        nodes
    }
}

/// The edges after one edge-state step.
pub open spec fn apply_edge_step_view(
    edges: Seq<Option<Edge>>,
    idx: usize,
    enable: bool,
) -> Seq<Option<Edge>> {
    if 0 <= idx < edges.len() && edges[idx as int] is Some {
        edges.update(idx as int, Some(Edge { enabled: enable, ..edges[idx as int].unwrap() }))
    } else {
        edges
    }
}

/// The nodes after painting the first `k` listed handles.
pub open spec fn paint_nodes_view(
    nodes: Seq<Option<Node>>,
    color: Color,
    indices: Seq<usize>,
    k: nat,
) -> Seq<Option<Node>>
    decreases k,
{
    if k == 0 {
        nodes
    } else {
        let prev = paint_nodes_view(nodes, color, indices, (k - 1) as nat);
        let idx = indices[k - 1];
        if 0 <= idx < prev.len() && prev[idx as int] is Some {
            prev.update(idx as int, Some(Node { color, ..prev[idx as int].unwrap() }))
        } else {
            prev
        }
    }
}

/// What applying one step does to a graph view. Dangling handles are silent
/// no-ops.
pub open spec fn apply_step_view(s: Step, v: GraphView) -> GraphView {
    match s {
        Step::Node(ns) => GraphView {
            nodes: apply_node_step_view(v.nodes, ns.idx, ns.to_state),
            ..v
        },
        Step::Edge(es) => GraphView { edges: apply_edge_step_view(v.edges, es.idx, es.enable), ..v },
        Step::Reverse(_) => GraphView {
            edges: Seq::new(
                v.edges.len(),
                |e: int|
                    match v.edges[e] {
                        Some(ed) => Some(Edge { reversed: !ed.reversed, ..ed }),
                        None => None,
                    },
            ),
            ..v
        },
        Step::Paint(p) => GraphView {
            nodes: paint_nodes_view(v.nodes, p.color, p.indices@, p.indices@.len()),
            ..v
        },
        Step::Reset(_) => GraphView {
            nodes: Seq::new(
                v.nodes.len(),
                |i: int|
                    match v.nodes[i] {
                        Some(n) => Some(reset_node_spec(n)),
                        None => None,
                    },
            ),
            edges: Seq::new(
                v.edges.len(),
                |e: int|
                    match v.edges[e] {
                        Some(ed) => Some(reset_edge_spec(ed)),
                        None => None,
                    },
            ),
        },
        Step::EnableEdges(_) => GraphView {
            edges: Seq::new(
                v.edges.len(),
                |e: int|
                    match v.edges[e] {
                        Some(ed) => Some(Edge { enabled: true, ..ed }),
                        None => None,
                    },
            ),
            ..v
        },
    }
}

/// A whole log applied front to back.
pub open spec fn apply_steps_view(steps: Seq<Step>, v: GraphView) -> GraphView
    decreases steps.len(),
{
    if steps.len() == 0 {
        v
    } else {
        apply_steps_view(steps.drop_first(), apply_step_view(steps[0], v))
    }
}

impl Step {
    /// Apply this step to the store.
    pub fn apply_step(&self, graph: &mut Graph)
        requires
            old(graph).wf(),
        ensures
            final(graph)@ == apply_step_view(*self, old(graph)@),
            final(graph).wf(),
    {
        match self {
            Step::Node(ns) => {
                graph.set_node_visit_state(ns.idx, ns.to_state);
            },
            Step::Edge(es) => {
                graph.set_edge_enabled(es.idx, es.enable);
            },
            Step::Reverse(_) => {
                graph.reverse_all_edges();
                proof {
                    assert(graph@.edges =~= apply_step_view(*self, old(graph)@).edges);
                }
            },
            Step::Paint(p) => {
                let mut k: usize = 0;
                let n = p.indices.len();
                while k < n
                    invariant
                        n == p.indices@.len(),
                        k <= n,
                        graph.wf(),
                        graph@.nodes == paint_nodes_view(
                            old(graph)@.nodes,
                            p.color,
                            p.indices@,
                            k as nat,
                        ),
                        graph@.edges == old(graph)@.edges,
                    decreases n - k,
                {
                    graph.set_node_color(p.indices[k], p.color);
                    k += 1;
                }
            },
            Step::Reset(_) => {
                graph.reset_state();
                proof {
                    assert(graph@.nodes =~= apply_step_view(*self, old(graph)@).nodes);
                    assert(graph@.edges =~= apply_step_view(*self, old(graph)@).edges);
                }
            },
            Step::EnableEdges(_) => {
                graph.enable_all_edges();
                proof {
                    assert(graph@.edges =~= apply_step_view(*self, old(graph)@).edges);
                }
            },
        }
        proof {
            assert(graph@ =~= apply_step_view(*self, old(graph)@));
        }
    }
}

/// Painting touches only colors: slot occupancy, positions, radii and every
/// other node field survive.
proof fn lemma_paint_preserves(nodes: Seq<Option<Node>>, color: Color, indices: Seq<usize>, k: nat)
    ensures
        paint_nodes_view(nodes, color, indices, k).len() == nodes.len(),
        forall|i: int|
            0 <= i < nodes.len() ==> ((#[trigger] paint_nodes_view(nodes, color, indices, k)[i])
                is Some <==> nodes[i] is Some),
        forall|i: int|
            0 <= i < nodes.len() && nodes[i] is Some ==> {
                let n1 = (#[trigger] paint_nodes_view(nodes, color, indices, k)[i]).unwrap();
                let n0 = nodes[i].unwrap();
                n1 == (Node { color: n1.color, ..n0 })
            },
    decreases k,
{
    if k > 0 {
        lemma_paint_preserves(nodes, color, indices, (k - 1) as nat);
    }
}

/// No step ever touches the stored topology or geometry: applying any step
/// keeps every slot's occupancy, every node's position and radius, and every
/// edge's endpoints and cached geometry. Only visitation state, colors,
/// pinning and the enabled/reversed display flags may change.
pub proof fn lemma_step_preserves_structure(s: Step, v: GraphView)
    ensures
        ({
            let v1 = apply_step_view(s, v);
            &&& v1.nodes.len() == v.nodes.len()
            &&& v1.edges.len() == v.edges.len()
            &&& forall|i: int|
                0 <= i < v.nodes.len() ==> ((#[trigger] v1.nodes[i]) is Some <==> v.nodes[i]
                    is Some)
            &&& forall|e: int|
                0 <= e < v.edges.len() ==> ((#[trigger] v1.edges[e]) is Some <==> v.edges[e]
                    is Some)
            &&& forall|i: int|
                0 <= i < v.nodes.len() && v.nodes[i] is Some ==> {
                    let n1 = (#[trigger] v1.nodes[i]).unwrap();
                    let n0 = v.nodes[i].unwrap();
                    n1.position == n0.position && n1.radius == n0.radius
                }
            &&& forall|e: int|
                0 <= e < v.edges.len() && v.edges[e] is Some ==> {
                    let e1 = (#[trigger] v1.edges[e]).unwrap();
                    let e0 = v.edges[e].unwrap();
                    &&& e1.from == e0.from
                    &&& e1.to == e0.to
                    &&& e1.from_pos == e0.from_pos
                    &&& e1.to_pos == e0.to_pos
                }
        }),
{
    match s {
        Step::Paint(p) => {
            lemma_paint_preserves(v.nodes, p.color, p.indices@, p.indices@.len());
        },
        _ => {},
    }
}

/// The full reset is idempotent: applying it twice in a row leaves exactly
/// the state the first application produced.
pub proof fn lemma_reset_idempotent(v: GraphView)
    ensures
        apply_step_view(Step::Reset(ResetState {  }), apply_step_view(Step::Reset(ResetState {  }), v))
            == apply_step_view(Step::Reset(ResetState {  }), v),
{
    let v1 = apply_step_view(Step::Reset(ResetState {  }), v);
    let v2 = apply_step_view(Step::Reset(ResetState {  }), v1);
    assert forall|i: int| 0 <= i < v1.nodes.len() implies v2.nodes[i] == v1.nodes[i] by {
        assert(v1.nodes[i] == (match v.nodes[i] {
            Some(n) => Some(reset_node_spec(n)),
            None => None,
        }));
    }
    assert forall|e: int| 0 <= e < v1.edges.len() implies v2.edges[e] == v1.edges[e] by {
        assert(v1.edges[e] == (match v.edges[e] {
            Some(ed) => Some(reset_edge_spec(ed)),
            None => None,
        }));
    }
    assert(v2.nodes =~= v1.nodes);
    assert(v2.edges =~= v1.edges);
    assert(v2 =~= v1);
}

} // verus!
