//! The graph store: arena-indexed nodes and edges under stable integer
//! handles. A handle stays valid across additions and dangles only once its
//! referent is removed; every operation treats a dangling handle as a silent
//! no-op.

use vstd::prelude::*;

use crate::color::Color;
use crate::edge::{fresh_edge_spec, point_in_shape_spec, Edge};
use crate::geom::{in_bounds_spec, Vec2, POS_LIMIT};
use crate::node::{contains_spec, fresh_node_spec, state_color, Node, NodeHighlight, NodeState};

verus! {

/// Which endpoint a traversal leaves a node through.
#[derive(Clone, Copy, PartialEq, Eq, Structural, Debug)]
pub enum Direction {
    /// Follow edges from their stored source to their stored target.
    Outgoing,
    /// Follow edges backward, from target to source.
    Incoming,
    /// Ignore orientation: outgoing neighbors first, then incoming.
    Both,
}

pub struct Graph {
    pub nodes: Vec<Option<Node>>,
    pub edges: Vec<Option<Edge>>,
}

impl Graph {
    pub open spec fn valid_node(self, i: int) -> bool {
        0 <= i < self.nodes@.len() && self.nodes@[i] is Some
    }

    pub open spec fn valid_edge(self, e: int) -> bool {
        0 <= e < self.edges@.len() && self.edges@[e] is Some
    }

    pub open spec fn node_position(self, i: int) -> Vec2 {
        self.nodes@[i].unwrap().position
    }

    /// The store's invariant: every stored node and edge keeps its bounds,
    /// and every stored edge points at stored nodes.
    pub open spec fn wf(self) -> bool {
        &&& forall|i: int|
            0 <= i < self.nodes@.len() && self.nodes@[i] is Some ==> (
            #[trigger] self.nodes@[i]).unwrap().wf()
        &&& forall|e: int|
            0 <= e < self.edges@.len() && self.edges@[e] is Some ==> {
                let ed = (#[trigger] self.edges@[e]).unwrap();
                &&& ed.wf()
                &&& ed.from < self.nodes@.len()
                &&& ed.to < self.nodes@.len()
                &&& self.nodes@[ed.from as int] is Some
                &&& self.nodes@[ed.to as int] is Some
            }
    }

    pub fn new() -> (g: Graph)
        ensures
            g.nodes@ == Seq::<Option<Node>>::empty(),
            g.edges@ == Seq::<Option<Edge>>::empty(),
            g.wf(),
    {
        Graph { nodes: Vec::new(), edges: Vec::new() }
    }

    pub fn node_weight(&self, idx: usize) -> (r: Option<Node>)
        ensures
            r == if self.valid_node(idx as int) {
                self.nodes@[idx as int]
            } else {
                Option::<Node>::None
            },
    {
        if idx < self.nodes.len() {
            self.nodes[idx]
        } else {
            None
        }
    }

    pub fn edge_weight(&self, idx: usize) -> (r: Option<Edge>)
        ensures
            r == if self.valid_edge(idx as int) {
                self.edges@[idx as int]
            } else {
                Option::<Edge>::None
            },
    {
        if idx < self.edges.len() {
            self.edges[idx]
        } else {
            None
        }
    }

    /// Add a node at `position` and hand back its fresh handle.
    pub fn add_node(&mut self, position: Vec2) -> (idx: usize)
        requires
            old(self).wf(),
            in_bounds_spec(position, POS_LIMIT as int),
            old(self).nodes@.len() < usize::MAX,
        ensures
            idx == old(self).nodes@.len(),
            final(self).nodes@ == old(self).nodes@.push(Some(fresh_node_spec(position))),
            final(self).edges@ == old(self).edges@,
            final(self).wf(),
    {
        let idx = self.nodes.len();
        let n = Node::new(position);
        self.nodes.push(Some(n));
        idx
    }

    /// Remove a node: its slot dangles and every incident edge goes with it.
    /// A dangling or out-of-range handle is a no-op.
    pub fn remove_node(&mut self, idx: usize)
        requires
            old(self).wf(),
        ensures
            final(self).nodes@ == remove_nodes_spec(*old(self), idx),
            final(self).edges@ == remove_edges_spec(*old(self), idx),
            final(self).wf(),
    {
        if idx >= self.nodes.len() {
            return ;
        }
        if self.nodes[idx].is_none() {
            return ;
        }
        self.nodes[idx] = None;
        let ghost nodes1 = self.nodes@;
        let mut e: usize = 0;
        let n_edges = self.edges.len();
        while e < n_edges
            invariant
                n_edges == self.edges@.len(),
                e <= n_edges,
                self.nodes@ == nodes1,
                nodes1 == old(self).nodes@.update(idx as int, None),
                old(self).wf(),
                idx < old(self).nodes@.len(),
                forall|k: int|
                    0 <= k < e ==> self.edges@[k] == (match #[trigger] old(self).edges@[k] {
                        Some(ed) => if ed.from == idx || ed.to == idx {
                            None
                        } else {
                            Some(ed)
                        },
                        None => None,
                    }),
                forall|k: int| e <= k < n_edges ==> self.edges@[k] == old(self).edges@[k],
            decreases n_edges - e,
        {
            let remove = match &self.edges[e] {
                Some(ed) => ed.from == idx || ed.to == idx,
                None => false,
            };
            if remove {
                self.edges[e] = None;
            }
            e += 1;
        }
        proof {
            assert(self.edges@ =~= remove_edges_spec(*old(self), idx));
            assert forall|k: int|
                0 <= k < self.edges@.len() && self.edges@[k] is Some implies {
                let ed = (#[trigger] self.edges@[k]).unwrap();
                &&& ed.wf()
                &&& ed.from < self.nodes@.len()
                &&& ed.to < self.nodes@.len()
                &&& self.nodes@[ed.from as int] is Some
                &&& self.nodes@[ed.to as int] is Some
            } by {
                let oe = old(self).edges@[k];
                assert(self.edges@[k] == (match oe {
                    Some(ed) => if ed.from == idx || ed.to == idx {
                        None
                    } else {
                        Some(ed)
                    },
                    None => None,
                }));
            }
        }
    }

    /// Connect two nodes: replace the first stored edge with these endpoints,
    /// or append a fresh one. Hands back the edge handle, or `None` when
    /// either node handle dangles.
    pub fn connect_nodes(&mut self, from: usize, to: usize) -> (r: Option<usize>)
        requires
            old(self).wf(),
            old(self).edges@.len() < usize::MAX,
        ensures
            final(self).nodes@ == old(self).nodes@,
            final(self).edges@ == connect_edges_spec(*old(self), from, to),
            r == connect_result_spec(*old(self), from, to),
            final(self).wf(),
    {
        if from >= self.nodes.len() || to >= self.nodes.len() {
            return None;
        }
        let (from_pos, to_pos) = match (&self.nodes[from], &self.nodes[to]) {
            (Some(nf), Some(nt)) => (nf.position, nt.position),
            _ => { return None },
        };
        let fresh = Edge::new(from, to, from_pos, to_pos);
        let n_edges = self.edges.len();
        let mut e: usize = 0;
        while e < n_edges
            invariant
                old(self).wf(),
                self.nodes@ == old(self).nodes@,
                self.edges@ == old(self).edges@,
                from < self.nodes@.len(),
                to < self.nodes@.len(),
                n_edges == self.edges@.len(),
                e <= n_edges,
                fresh.wf(),
                fresh == fresh_edge_spec(
                    from,
                    to,
                    old(self).node_position(from as int),
                    old(self).node_position(to as int),
                ),
                first_edge_between(self.edges@, from, to, e as nat) is None,
            decreases n_edges - e,
        {
            let hit = match &self.edges[e] {
                Some(ed) => ed.from == from && ed.to == to,
                None => false,
            };
            if hit {
                proof {
                    lemma_first_edge_between_extend(self.edges@, from, to, e as nat);
                    lemma_first_edge_between_stable(
                        self.edges@,
                        from,
                        to,
                        (e + 1) as nat,
                        self.edges@.len() as nat,
                    );
                }
                self.edges[e] = Some(fresh);
                return Some(e);
            }
            proof {
                lemma_first_edge_between_extend(self.edges@, from, to, e as nat);
            }
            e += 1;
        }
        let idx = self.edges.len();
        self.edges.push(Some(fresh));
        Some(idx)
    }
}

/// The lowest-numbered stored edge below `k` with the given endpoints.
pub open spec fn first_edge_between(
    edges: Seq<Option<Edge>>,
    from: usize,
    to: usize,
    k: nat,
) -> Option<usize>
    decreases k,
{
    if k == 0 {
        None
    } else {
        match first_edge_between(edges, from, to, (k - 1) as nat) {
            Some(e) => Some(e),
            None => match edges[k - 1] {
                Some(ed) => if ed.from == from && ed.to == to {
                    Some((k - 1) as usize)
                } else {
                    None
                },
                None => None,
            },
        }
    }
}

/// Extending a fruitless scan by one slot inspects exactly that slot.
proof fn lemma_first_edge_between_extend(edges: Seq<Option<Edge>>, from: usize, to: usize, e: nat)
    requires
        e < edges.len(),
        first_edge_between(edges, from, to, e) is None,
    ensures
        first_edge_between(edges, from, to, e + 1) == (match edges[e as int] {
            Some(ed) => if ed.from == from && ed.to == to {
                Some(e as usize)
            } else {
                Option::<usize>::None
            },
            None => Option::<usize>::None,
        }),
{
}

/// Once found at `k`, the scan's answer never changes for larger bounds.
proof fn lemma_first_edge_between_stable(
    edges: Seq<Option<Edge>>,
    from: usize,
    to: usize,
    k: nat,
    m: nat,
)
    requires
        k <= m <= edges.len(),
        first_edge_between(edges, from, to, k) is Some,
    ensures
        first_edge_between(edges, from, to, m) == first_edge_between(edges, from, to, k),
    decreases m,
{
    if k < m {
        lemma_first_edge_between_stable(edges, from, to, k, (m - 1) as nat);
    }
}


/// The node slots after removing `idx` (no-op when dangling).
pub open spec fn remove_nodes_spec(g: Graph, idx: usize) -> Seq<Option<Node>> {
    if g.valid_node(idx as int) {
        g.nodes@.update(idx as int, None)
    } else {
        g.nodes@
    }
}

/// The edge slots after removing node `idx`: incident edges go with it.
pub open spec fn remove_edges_spec(g: Graph, idx: usize) -> Seq<Option<Edge>> {
    if g.valid_node(idx as int) {
        Seq::new(
            g.edges@.len(),
            |e: int|
                match g.edges@[e] {
                    Some(ed) => if ed.from == idx || ed.to == idx {
                        None
                    } else {
                        Some(ed)
                    },
                    None => None,
                },
        )
    } else {
        g.edges@
    }
}

/// The edge slots after connecting `from` to `to`: the first stored edge
/// with these endpoints is replaced by a fresh one, or a fresh one is
/// appended; dangling endpoints change nothing.
pub open spec fn connect_edges_spec(g: Graph, from: usize, to: usize) -> Seq<Option<Edge>> {
    if g.valid_node(from as int) && g.valid_node(to as int) {
        let fresh = fresh_edge_spec(
            from,
            to,
            g.node_position(from as int),
            g.node_position(to as int),
        );
        match first_edge_between(g.edges@, from, to, g.edges@.len()) {
            Some(e) => g.edges@.update(e as int, Some(fresh)),
            None => g.edges@.push(Some(fresh)),
        }
    } else {
        g.edges@
    }
}

/// The handle `connect_nodes` hands back.
pub open spec fn connect_result_spec(g: Graph, from: usize, to: usize) -> Option<usize> {
    if g.valid_node(from as int) && g.valid_node(to as int) {
        match first_edge_between(g.edges@, from, to, g.edges@.len()) {
            Some(e) => Some(e),
            None => Some(g.edges@.len() as usize),
        }
    } else {
        None
    }
}

/// The node slots after moving node `idx` (no-op when dangling).
pub open spec fn moved_nodes_spec(g: Graph, idx: usize, position: Vec2) -> Seq<Option<Node>> {
    if g.valid_node(idx as int) {
        g.nodes@.update(idx as int, Some(Node { position, ..g.nodes@[idx as int].unwrap() }))
    } else {
        g.nodes@
    }
}

/// The edge slots after moving node `idx`: incident edges refresh their
/// cached geometry from the moved positions.
pub open spec fn moved_edges_spec(g: Graph, idx: usize, position: Vec2) -> Seq<Option<Edge>> {
    if g.valid_node(idx as int) {
        let nodes1 = moved_nodes_spec(g, idx, position);
        Seq::new(
            g.edges@.len(),
            |e: int|
                match g.edges@[e] {
                    Some(ed) => if ed.from == idx || ed.to == idx {
                        Some(
                            Edge {
                                from_pos: nodes1[ed.from as int].unwrap().position,
                                to_pos: nodes1[ed.to as int].unwrap().position,
                                ..ed
                            },
                        )
                    } else {
                        Some(ed)
                    },
                    None => None,
                },
        )
    } else {
        g.edges@
    }
}

/// The node slots after pinning (or releasing) node `idx`, its pending force
/// discarded; a dangling handle changes nothing.
pub open spec fn set_pinned_view(nodes: Seq<Option<Node>>, idx: usize, value: bool) -> Seq<
    Option<Node>,
> {
    if 0 <= idx < nodes.len() && nodes[idx as int] is Some {
        nodes.update(
            idx as int,
            Some(
                Node {
                    ignore_force: value,
                    current_force: Vec2 { x: 0, y: 0 },
                    ..nodes[idx as int].unwrap()
                },
            ),
        )
    } else {
        nodes
    }
}

/// The node slots after re-highlighting node `idx`; a dangling handle
/// changes nothing.
pub open spec fn set_highlight_view(
    nodes: Seq<Option<Node>>,
    idx: usize,
    highlight: NodeHighlight,
) -> Seq<Option<Node>> {
    if 0 <= idx < nodes.len() && nodes[idx as int] is Some {
        nodes.update(idx as int, Some(Node { highlight, ..nodes[idx as int].unwrap() }))
    } else {
        nodes
    }
}

/// A node after a full reset: unvisited, default color, unpinned, no pending
/// force.
pub open spec fn reset_node_spec(n: Node) -> Node {
    Node {
        state: NodeState::NotVisited,
        color: crate::color::white(),
        ignore_force: false,
        current_force: Vec2 { x: 0, y: 0 },
        ..n
    }
}

/// An edge after a full reset: enabled and unreversed.
pub open spec fn reset_edge_spec(e: Edge) -> Edge {
    Edge { enabled: true, reversed: false, ..e }
}

/// The topmost stored node under `point`: the highest-numbered hit below `k`.
pub open spec fn node_hit_above(nodes: Seq<Option<Node>>, point: Vec2, k: nat) -> Option<usize>
    decreases k,
{
    if k == 0 {
        None
    } else if nodes[k - 1] is Some && contains_spec(nodes[k - 1].unwrap(), point) {
        Some((k - 1) as usize)
    } else {
        node_hit_above(nodes, point, (k - 1) as nat)
    }
}

/// The topmost stored edge under `point`: the highest-numbered hit below `k`.
pub open spec fn edge_hit_above(edges: Seq<Option<Edge>>, point: Vec2, k: nat) -> Option<usize>
    decreases k,
{
    if k == 0 {
        None
    } else if edges[k - 1] is Some && point_in_shape_spec(edges[k - 1].unwrap(), point) {
        Some((k - 1) as usize)
    } else {
        edge_hit_above(edges, point, (k - 1) as nat)
    }
}

/// The neighbors a traversal in `dir` reaches from `n` through the first `k`
/// edge slots, as `(edge handle, neighbor handle)` pairs in slot order.
/// `dir` here is `Outgoing` or `Incoming`.
pub open spec fn neighbors_upto(
    edges: Seq<Option<Edge>>,
    n: usize,
    dir: Direction,
    k: nat,
) -> Seq<(usize, usize)>
    decreases k,
{
    if k == 0 {
        Seq::empty()
    } else {
        let prev = neighbors_upto(edges, n, dir, (k - 1) as nat);
        match edges[k - 1] {
            Some(ed) => {
                let src = if dir is Incoming {
                    ed.to
                } else {
                    ed.from
                };
                let dst = if dir is Incoming {
                    ed.from
                } else {
                    ed.to
                };
                if src == n {
                    prev.push(((k - 1) as usize, dst))
                } else {
                    prev
                }
            },
            None => prev,
        }
    }
}

/// All neighbors a traversal in `dir` reaches from `n`, in the store's
/// native enumeration order: edge slots ascending, and for `Both` the
/// outgoing pass before the incoming one.
pub open spec fn neighbors_spec(g: Graph, n: usize, dir: Direction) -> Seq<(usize, usize)> {
    match dir {
        Direction::Outgoing => neighbors_upto(g.edges@, n, Direction::Outgoing, g.edges@.len()),
        Direction::Incoming => neighbors_upto(g.edges@, n, Direction::Incoming, g.edges@.len()),
        Direction::Both => neighbors_upto(g.edges@, n, Direction::Outgoing, g.edges@.len())
            + neighbors_upto(g.edges@, n, Direction::Incoming, g.edges@.len()),
    }
}

impl Graph {
    /// Move a node to the visitation state `state` and recolor it
    /// accordingly; a dangling handle is a no-op.
    pub fn set_node_visit_state(&mut self, idx: usize, state: NodeState)
        requires
            old(self).wf(),
        ensures
            final(self).edges@ == old(self).edges@,
            final(self).nodes@ == if old(self).valid_node(idx as int) {
                old(self).nodes@.update(
                    idx as int,
                    Some(
                        Node {
                            state,
                            color: state_color(state),
                            ..old(self).nodes@[idx as int].unwrap()
                        },
                    ),
                )
            } else {
                old(self).nodes@
            },
            final(self).wf(),
    {
        if idx < self.nodes.len() {
            match self.nodes[idx] {
                Some(mut n) => {
                    n.set_state(state);
                    n.set_color(crate::node::color_for_state(state));
                    self.nodes[idx] = Some(n);
                },
                None => (),
            }
        }
    }

    /// Recolor a node; a dangling handle is a no-op.
    pub fn set_node_color(&mut self, idx: usize, color: Color)
        requires
            old(self).wf(),
        ensures
            final(self).edges@ == old(self).edges@,
            final(self).nodes@ == if old(self).valid_node(idx as int) {
                old(self).nodes@.update(
                    idx as int,
                    Some(Node { color, ..old(self).nodes@[idx as int].unwrap() }),
                )
            } else {
                old(self).nodes@
            },
            final(self).wf(),
    {
        if idx < self.nodes.len() {
            match self.nodes[idx] {
                Some(mut n) => {
                    n.set_color(color);
                    self.nodes[idx] = Some(n);
                },
                None => (),
            }
        }
    }

    /// Pin or release a node, discarding its pending force; a dangling
    /// handle is a no-op.
    pub fn set_node_ignore_force(&mut self, idx: usize, value: bool)
        requires
            old(self).wf(),
        ensures
            final(self).edges@ == old(self).edges@,
            final(self).nodes@ == set_pinned_view(old(self).nodes@, idx, value),
            final(self).wf(),
    {
        if idx < self.nodes.len() {
            match self.nodes[idx] {
                Some(mut n) => {
                    n.set_ignore_force(value);
                    self.nodes[idx] = Some(n);
                },
                None => (),
            }
        }
    }

    /// Re-highlight a node; a dangling handle is a no-op.
    pub fn set_node_highlight(&mut self, idx: usize, highlight: NodeHighlight)
        requires
            old(self).wf(),
        ensures
            final(self).edges@ == old(self).edges@,
            final(self).nodes@ == set_highlight_view(old(self).nodes@, idx, highlight),
            final(self).wf(),
    {
        if idx < self.nodes.len() {
            match self.nodes[idx] {
                Some(mut n) => {
                    n.set_highlight(highlight);
                    self.nodes[idx] = Some(n);
                },
                None => (),
            }
        }
    }

    /// Enable or disable an edge; a dangling handle is a no-op.
    pub fn set_edge_enabled(&mut self, idx: usize, enabled: bool)
        requires
            old(self).wf(),
        ensures
            final(self).nodes@ == old(self).nodes@,
            final(self).edges@ == if old(self).valid_edge(idx as int) {
                old(self).edges@.update(
                    idx as int,
                    Some(Edge { enabled, ..old(self).edges@[idx as int].unwrap() }),
                )
            } else {
                old(self).edges@
            },
            final(self).wf(),
    {
        if idx < self.edges.len() {
            match self.edges[idx] {
                Some(mut e) => {
                    if enabled {
                        e.enable();
                    } else {
                        e.disable();
                    }
                    self.edges[idx] = Some(e);
                },
                None => (),
            }
        }
    }

    /// Flip the effective orientation of every stored edge.
    pub fn reverse_all_edges(&mut self)
        requires
            old(self).wf(),
        ensures
            final(self).nodes@ == old(self).nodes@,
            final(self).edges@.len() == old(self).edges@.len(),
            forall|e: int|
                0 <= e < old(self).edges@.len() ==> final(self).edges@[e] == (
                match #[trigger] old(self).edges@[e] {
                    Some(ed) => Some(Edge { reversed: !ed.reversed, ..ed }),
                    None => None,
                }),
            final(self).wf(),
    {
        let n_edges = self.edges.len();
        let mut e: usize = 0;
        while e < n_edges
            invariant
                old(self).wf(),
                self.nodes@ == old(self).nodes@,
                n_edges == self.edges@.len(),
                old(self).edges@.len() == n_edges,
                e <= n_edges,
                forall|k: int|
                    0 <= k < e ==> self.edges@[k] == (match #[trigger] old(self).edges@[k] {
                        Some(ed) => Some(Edge { reversed: !ed.reversed, ..ed }),
                        None => None,
                    }),
                forall|k: int| e <= k < n_edges ==> self.edges@[k] == old(self).edges@[k],
            decreases n_edges - e,
        {
            match self.edges[e] {
                Some(mut ed) => {
                    ed.reverse();
                    self.edges[e] = Some(ed);
                },
                None => (),
            }
            e += 1;
        }
        proof {
            lemma_edges_mapped_wf(*old(self), *self);
        }
    }

    /// Enable every stored edge.
    pub fn enable_all_edges(&mut self)
        requires
            old(self).wf(),
        ensures
            final(self).nodes@ == old(self).nodes@,
            final(self).edges@.len() == old(self).edges@.len(),
            forall|e: int|
                0 <= e < old(self).edges@.len() ==> final(self).edges@[e] == (
                match #[trigger] old(self).edges@[e] {
                    Some(ed) => Some(Edge { enabled: true, ..ed }),
                    None => None,
                }),
            final(self).wf(),
    {
        let n_edges = self.edges.len();
        let mut e: usize = 0;
        while e < n_edges
            invariant
                old(self).wf(),
                self.nodes@ == old(self).nodes@,
                n_edges == self.edges@.len(),
                old(self).edges@.len() == n_edges,
                e <= n_edges,
                forall|k: int|
                    0 <= k < e ==> self.edges@[k] == (match #[trigger] old(self).edges@[k] {
                        Some(ed) => Some(Edge { enabled: true, ..ed }),
                        None => None,
                    }),
                forall|k: int| e <= k < n_edges ==> self.edges@[k] == old(self).edges@[k],
            decreases n_edges - e,
        {
            match self.edges[e] {
                Some(mut ed) => {
                    ed.enable();
                    self.edges[e] = Some(ed);
                },
                None => (),
            }
            e += 1;
        }
        proof {
            lemma_edges_mapped_wf(*old(self), *self);
        }
    }

    /// Disable every stored edge, as playback start does.
    pub fn disable_all_edges(&mut self)
        requires
            old(self).wf(),
        ensures
            final(self).nodes@ == old(self).nodes@,
            final(self).edges@.len() == old(self).edges@.len(),
            forall|e: int|
                0 <= e < old(self).edges@.len() ==> final(self).edges@[e] == (
                match #[trigger] old(self).edges@[e] {
                    Some(ed) => Some(Edge { enabled: false, ..ed }),
                    None => None,
                }),
            final(self).wf(),
    {
        let n_edges = self.edges.len();
        let mut e: usize = 0;
        while e < n_edges
            invariant
                old(self).wf(),
                self.nodes@ == old(self).nodes@,
                n_edges == self.edges@.len(),
                old(self).edges@.len() == n_edges,
                e <= n_edges,
                forall|k: int|
                    0 <= k < e ==> self.edges@[k] == (match #[trigger] old(self).edges@[k] {
                        Some(ed) => Some(Edge { enabled: false, ..ed }),
                        None => None,
                    }),
                forall|k: int| e <= k < n_edges ==> self.edges@[k] == old(self).edges@[k],
            decreases n_edges - e,
        {
            match self.edges[e] {
                Some(mut ed) => {
                    ed.disable();
                    self.edges[e] = Some(ed);
                },
                None => (),
            }
            e += 1;
        }
        proof {
            lemma_edges_mapped_wf(*old(self), *self);
        }
    }

    /// Full reset: every node unvisited, default color, unpinned; every edge
    /// enabled and unreversed.
    pub fn reset_state(&mut self)
        requires
            old(self).wf(),
        ensures
            final(self).nodes@.len() == old(self).nodes@.len(),
            final(self).edges@.len() == old(self).edges@.len(),
            forall|i: int|
                0 <= i < old(self).nodes@.len() ==> final(self).nodes@[i] == (
                match #[trigger] old(self).nodes@[i] {
                    Some(n) => Some(reset_node_spec(n)),
                    None => None,
                }),
            forall|e: int|
                0 <= e < old(self).edges@.len() ==> final(self).edges@[e] == (
                match #[trigger] old(self).edges@[e] {
                    Some(ed) => Some(reset_edge_spec(ed)),
                    None => None,
                }),
            final(self).wf(),
    {
        let n_nodes = self.nodes.len();
        let mut i: usize = 0;
        while i < n_nodes
            invariant
                old(self).wf(),
                self.edges@ == old(self).edges@,
                n_nodes == self.nodes@.len(),
                old(self).nodes@.len() == n_nodes,
                i <= n_nodes,
                forall|k: int|
                    0 <= k < i ==> self.nodes@[k] == (match #[trigger] old(self).nodes@[k] {
                        Some(n) => Some(reset_node_spec(n)),
                        None => None,
                    }),
                forall|k: int| i <= k < n_nodes ==> self.nodes@[k] == old(self).nodes@[k],
            decreases n_nodes - i,
        {
            match self.nodes[i] {
                Some(mut n) => {
                    n.set_ignore_force(false);
                    n.set_state(NodeState::NotVisited);
                    n.set_color(Color::white());
                    self.nodes[i] = Some(n);
                },
                None => (),
            }
            i += 1;
        }
        let ghost nodes1 = self.nodes@;
        let n_edges = self.edges.len();
        let mut e: usize = 0;
        while e < n_edges
            invariant
                old(self).wf(),
                self.nodes@ == nodes1,
                nodes1.len() == old(self).nodes@.len(),
                forall|k: int|
                    0 <= k < nodes1.len() ==> nodes1[k] == (match #[trigger] old(
                        self,
                    ).nodes@[k] {
                        Some(n) => Some(reset_node_spec(n)),
                        None => None,
                    }),
                n_edges == self.edges@.len(),
                old(self).edges@.len() == n_edges,
                e <= n_edges,
                forall|k: int|
                    0 <= k < e ==> self.edges@[k] == (match #[trigger] old(self).edges@[k] {
                        Some(ed) => Some(reset_edge_spec(ed)),
                        None => None,
                    }),
                forall|k: int| e <= k < n_edges ==> self.edges@[k] == old(self).edges@[k],
            decreases n_edges - e,
        {
            match self.edges[e] {
                Some(mut ed) => {
                    ed.reset_state();
                    self.edges[e] = Some(ed);
                },
                None => (),
            }
            e += 1;
        }
        proof {
            assert forall|k: int|
                0 <= k < self.nodes@.len() && self.nodes@[k] is Some implies (
            #[trigger] self.nodes@[k]).unwrap().wf() by {
                assert(self.nodes@[k] == (match old(self).nodes@[k] {
                    Some(n) => Some(reset_node_spec(n)),
                    None => None,
                }));
            }
            assert forall|k: int|
                0 <= k < self.edges@.len() && self.edges@[k] is Some implies {
                let ed = (#[trigger] self.edges@[k]).unwrap();
                &&& ed.wf()
                &&& ed.from < self.nodes@.len()
                &&& ed.to < self.nodes@.len()
                &&& self.nodes@[ed.from as int] is Some
                &&& self.nodes@[ed.to as int] is Some
            } by {
                let oe = old(self).edges@[k];
                assert(self.edges@[k] == (match oe {
                    Some(ed) => Some(reset_edge_spec(ed)),
                    None => None,
                }));
                let ed = self.edges@[k].unwrap();
                assert(old(self).nodes@[ed.from as int] is Some);
                assert(nodes1[ed.from as int] == (match old(self).nodes@[ed.from as int] {
                    Some(n) => Some(reset_node_spec(n)),
                    None => None,
                }));
                assert(nodes1[ed.to as int] == (match old(self).nodes@[ed.to as int] {
                    Some(n) => Some(reset_node_spec(n)),
                    None => None,
                }));
            }
        }
    }

    /// The topmost node under `point`, by circular radius.
    pub fn node_from_point(&self, point: Vec2) -> (r: Option<usize>)
        requires
            self.wf(),
            in_bounds_spec(point, POS_LIMIT as int),
        ensures
            r == node_hit_above(self.nodes@, point, self.nodes@.len()),
    {
        let mut k = self.nodes.len();
        while k > 0
            invariant
                self.wf(),
                in_bounds_spec(point, POS_LIMIT as int),
                k <= self.nodes@.len(),
                node_hit_above(self.nodes@, point, self.nodes@.len()) == node_hit_above(
                    self.nodes@,
                    point,
                    k as nat,
                ),
            decreases k,
        {
            let hit = match &self.nodes[k - 1] {
                Some(n) => n.contains(point),
                None => false,
            };
            if hit {
                return Some(k - 1);
            }
            k -= 1;
        }
        None
    }

    /// The topmost edge under `point`, by its stroke shape.
    pub fn edge_from_point(&self, point: Vec2) -> (r: Option<usize>)
        requires
            self.wf(),
            in_bounds_spec(point, POS_LIMIT as int),
        ensures
            r == edge_hit_above(self.edges@, point, self.edges@.len()),
    {
        let mut k = self.edges.len();
        while k > 0
            invariant
                self.wf(),
                in_bounds_spec(point, POS_LIMIT as int),
                k <= self.edges@.len(),
                edge_hit_above(self.edges@, point, self.edges@.len()) == edge_hit_above(
                    self.edges@,
                    point,
                    k as nat,
                ),
            decreases k,
        {
            let hit = match &self.edges[k - 1] {
                Some(ed) => ed.is_point_in_shape(point),
                None => false,
            };
            if hit {
                return Some(k - 1);
            }
            k -= 1;
        }
        None
    }

    /// Move a node and refresh the cached geometry of its incident edges; a
    /// dangling handle is a no-op.
    pub fn move_node(&mut self, idx: usize, position: Vec2)
        requires
            old(self).wf(),
            in_bounds_spec(position, POS_LIMIT as int),
        ensures
            final(self).nodes@ == moved_nodes_spec(*old(self), idx, position),
            final(self).edges@ == moved_edges_spec(*old(self), idx, position),
            final(self).wf(),
    {
        if idx >= self.nodes.len() {
            return ;
        }
        let mut n = match self.nodes[idx] {
            Some(n) => n,
            None => { return },
        };
        n.set_position(position);
        self.nodes[idx] = Some(n);
        let ghost nodes1 = self.nodes@;
        let n_edges = self.edges.len();
        let mut e: usize = 0;
        while e < n_edges
            invariant
                old(self).wf(),
                self.nodes@ == nodes1,
                idx < old(self).nodes@.len(),
                old(self).nodes@[idx as int] is Some,
                nodes1 == old(self).nodes@.update(
                    idx as int,
                    Some(Node { position, ..old(self).nodes@[idx as int].unwrap() }),
                ),
                in_bounds_spec(position, POS_LIMIT as int),
                n_edges == self.edges@.len(),
                old(self).edges@.len() == n_edges,
                e <= n_edges,
                forall|k: int|
                    0 <= k < e ==> self.edges@[k] == (match #[trigger] old(self).edges@[k] {
                        Some(ed) => if ed.from == idx || ed.to == idx {
                            Some(
                                Edge {
                                    from_pos: nodes1[ed.from as int].unwrap().position,
                                    to_pos: nodes1[ed.to as int].unwrap().position,
                                    ..ed
                                },
                            )
                        } else {
                            Some(ed)
                        },
                        None => None,
                    }),
                forall|k: int| e <= k < n_edges ==> self.edges@[k] == old(self).edges@[k],
            decreases n_edges - e,
        {
            let touch = match &self.edges[e] {
                Some(ed) => ed.from == idx || ed.to == idx,
                None => false,
            };
            if touch {
                let mut ed = match self.edges[e] {
                    Some(ed) => ed,
                    None => { return },
                };
                let fp = match &self.nodes[ed.from] {
                    Some(nf) => nf.position,
                    None => { return },
                };
                let tp = match &self.nodes[ed.to] {
                    Some(nt) => nt.position,
                    None => { return },
                };
                ed.update_position(fp, tp);
                self.edges[e] = Some(ed);
            }
            e += 1;
        }
        proof {
            assert(self.edges@ =~= moved_edges_spec(*old(self), idx, position));
            assert forall|k: int|
                0 <= k < self.edges@.len() && self.edges@[k] is Some implies {
                let ed = (#[trigger] self.edges@[k]).unwrap();
                &&& ed.wf()
                &&& ed.from < self.nodes@.len()
                &&& ed.to < self.nodes@.len()
                &&& self.nodes@[ed.from as int] is Some
                &&& self.nodes@[ed.to as int] is Some
            } by {
                let oe = old(self).edges@[k];
                assert(oe is Some);
            }
        }
    }

    /// Enumerate the `(edge, neighbor)` pairs reachable from `n` in `dir`,
    /// in the store's native order.
    pub fn neighbors_directed(&self, n: usize, dir: Direction) -> (r: Vec<(usize, usize)>)
        ensures
            r@ == neighbors_spec(*self, n, dir),
    {
        match dir {
            Direction::Outgoing => self.neighbors_one_way(n, Direction::Outgoing),
            Direction::Incoming => self.neighbors_one_way(n, Direction::Incoming),
            Direction::Both => {
                let mut out = self.neighbors_one_way(n, Direction::Outgoing);
                let mut inc = self.neighbors_one_way(n, Direction::Incoming);
                out.append(&mut inc);
                out
            },
        }
    }

    fn neighbors_one_way(&self, n: usize, dir: Direction) -> (r: Vec<(usize, usize)>)
        requires
            dir is Outgoing || dir is Incoming,
        ensures
            r@ == neighbors_upto(self.edges@, n, dir, self.edges@.len()),
    {
        let mut r: Vec<(usize, usize)> = Vec::new();
        let n_edges = self.edges.len();
        let mut e: usize = 0;
        while e < n_edges
            invariant
                n_edges == self.edges@.len(),
                e <= n_edges,
                dir is Outgoing || dir is Incoming,
                r@ == neighbors_upto(self.edges@, n, dir, e as nat),
            decreases n_edges - e,
        {
            match &self.edges[e] {
                Some(ed) => {
                    let src = if matches!(dir, Direction::Incoming) {
                        ed.to
                    } else {
                        ed.from
                    };
                    let dst = if matches!(dir, Direction::Incoming) {
                        ed.from
                    } else {
                        ed.to
                    };
                    if src == n {
                        r.push((e, dst));
                    }
                },
                None => (),
            }
            e += 1;
        }
        r
    }
}

/// An edit that only rewrites edge display flags keeps the store
/// well-formed.
proof fn lemma_edges_mapped_wf(g0: Graph, g1: Graph)
    requires
        g0.wf(),
        g1.nodes@ == g0.nodes@,
        g1.edges@.len() == g0.edges@.len(),
        forall|e: int|
            0 <= e < g0.edges@.len() ==> (g1.edges@[e] is Some <==> (#[trigger] g0.edges@[e])
                is Some),
        forall|e: int|
            0 <= e < g0.edges@.len() && g0.edges@[e] is Some ==> {
                let e0 = (#[trigger] g0.edges@[e]).unwrap();
                let e1 = g1.edges@[e].unwrap();
                e1.from == e0.from && e1.to == e0.to && e1.from_pos == e0.from_pos && e1.to_pos
                    == e0.to_pos
            },
    ensures
        g1.wf(),
{
    assert forall|e: int|
        0 <= e < g1.edges@.len() && g1.edges@[e] is Some implies {
        let ed = (#[trigger] g1.edges@[e]).unwrap();
        &&& ed.wf()
        &&& ed.from < g1.nodes@.len()
        &&& ed.to < g1.nodes@.len()
        &&& g1.nodes@[ed.from as int] is Some
        &&& g1.nodes@[ed.to as int] is Some
    } by {
        assert(g0.edges@[e] is Some);
    }
}

} // verus!
