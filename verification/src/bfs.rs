//! Breadth-first search that records its run as a step log. Enqueuing a node
//! (the start included) emits `Queued` and marks it at once, so it is never
//! enqueued twice; dequeuing a node walks its neighbors — emitting the
//! connecting edge and the child's `Queued` for each unseen one — and then
//! emits the node's own `Visited`. Nodes therefore finish in dequeue order,
//! where the depth-first search finishes them in recursive postorder.
//!
//! The specification is a small-step interpreter over the visitation map, a
//! frontier queue and a neighbor cursor; the executable search runs the same
//! machine and is proved to compute exactly the interpreter's result.

use vstd::prelude::*;

use crate::dfs::{lemma_nv_count_update, nv_count};
use crate::graph::{neighbors_spec, Direction, Graph};
use crate::node::NodeState;
use crate::step::{EdgeStep, NodeStep, Step};
use crate::step_algorithm::StepAlgorithmResult;

verus! {

/// The interpreter's outer state: take the frontier's front node, or stop.
pub open spec fn bfs_run(
    g: Graph,
    dir: Direction,
    st: Seq<NodeState>,
    q: Seq<usize>,
    out: Seq<Step>,
) -> (Seq<Step>, Seq<NodeState>)
    decreases nv_count(st), q.len() + 1, 0int, 0int,
    via bfs_run_decreases
{
    if q.len() == 0 {
        (out, st)
    } else {
        bfs_neis(g, dir, st, q[0], 0, q.drop_first(), out)
    }
}

/// The interpreter's inner state: walk the dequeued node's neighbors from
/// cursor `i` on, enqueuing the unseen ones; once exhausted, the node turns
/// `Visited` and the outer machine continues.
pub open spec fn bfs_neis(
    g: Graph,
    dir: Direction,
    st: Seq<NodeState>,
    n: usize,
    i: int,
    q: Seq<usize>,
    out: Seq<Step>,
) -> (Seq<Step>, Seq<NodeState>)
    decreases
        nv_count(st),
        q.len() + 1,
        1int,
        (if i < neighbors_spec(g, n, dir).len() {
            neighbors_spec(g, n, dir).len() - i
        } else {
            0int
        }),
    via bfs_neis_decreases
{
    let neis = neighbors_spec(g, n, dir);
    if !(0 <= i < neis.len()) {
        let st2 = if n < st.len() {
            st.update(n as int, NodeState::Visited)
        } else {
            st
        };
        bfs_run(g, dir, st2, q, out.push(Step::Node(NodeStep { idx: n, to_state: NodeState::Visited })))
    } else {
        let m = neis[i].1;
        if m < st.len() && st[m as int] is NotVisited {
            bfs_neis(
                g,
                dir,
                st.update(m as int, NodeState::Queued),
                n,
                i + 1,
                q.push(m),
                out.push(Step::Edge(EdgeStep { idx: neis[i].0, enable: true })).push(
                    Step::Node(NodeStep { idx: m, to_state: NodeState::Queued }),
                ),
            )
        } else {
            bfs_neis(g, dir, st, n, i + 1, q, out)
        }
    }
}

#[via_fn]
proof fn bfs_run_decreases(g: Graph, dir: Direction, st: Seq<NodeState>, q: Seq<usize>, out: Seq<Step>) {
}

#[via_fn]
proof fn bfs_neis_decreases(
    g: Graph,
    dir: Direction,
    st: Seq<NodeState>,
    n: usize,
    i: int,
    q: Seq<usize>,
    out: Seq<Step>,
) {
    let neis = neighbors_spec(g, n, dir);
    if !(0 <= i < neis.len()) {
        if n < st.len() {
            lemma_nv_count_update(st, n as int, NodeState::Visited);
        }
    } else {
        let m = neis[i].1;
        if m < st.len() && st[m as int] is NotVisited {
            lemma_nv_count_update(st, m as int, NodeState::Queued);
        }
    }
}

/// Entering the search at `start`: enqueue it, marked and recorded. An
/// out-of-range handle runs nothing.
pub open spec fn bfs_from(
    g: Graph,
    dir: Direction,
    st: Seq<NodeState>,
    out: Seq<Step>,
    start: usize,
) -> (Seq<Step>, Seq<NodeState>) {
    if start < st.len() {
        bfs_run(
            g,
            dir,
            st.update(start as int, NodeState::Queued),
            seq![start],
            out.push(Step::Node(NodeStep { idx: start, to_state: NodeState::Queued })),
        )
    } else {
        (out, st)
    }
}

/// The executable machine.
fn bfs_exec(g: &Graph, dir: Direction, states: &mut Vec<NodeState>, steps: &mut Vec<Step>, start: usize)
    ensures
        (final(steps)@, final(states)@) == bfs_from(*g, dir, old(states)@, old(steps)@, start),
{
    let ghost target = bfs_from(*g, dir, old(states)@, old(steps)@, start);
    if start >= states.len() {
        return ;
    }
    states[start] = NodeState::Queued;
    steps.push(Step::Node(NodeStep { idx: start, to_state: NodeState::Queued }));
    let mut q: Vec<usize> = Vec::new();
    q.push(start);
    let mut head: usize = 0;
    proof {
        assert(q@.skip(0) =~= seq![start]);
    }
    proof {
        assert(q@ =~= seq![start]);
    }
    while head < q.len()
        invariant
            head <= q@.len(),
            states@.len() == old(states)@.len(),
            bfs_run(*g, dir, states@, q@.skip(head as int), steps@) == target,
            forall|p: int|
                0 <= p < q@.len() ==> #[trigger] q@[p] < states@.len() && !(states@[q@[p] as int]
                    is NotVisited),
            forall|p: int|
                head <= p < q@.len() ==> states@[(#[trigger] q@[p]) as int] is Queued,
            forall|p1: int, p2: int|
                0 <= p1 < p2 < q@.len() ==> #[trigger] q@[p1] != #[trigger] q@[p2],
        decreases nv_count(states@) + q@.len() - head,
    {
        let ghost head_old = head as int;
        let n = q[head];
        head = head + 1;
        proof {
            assert(q@.skip(head_old)[0] == q@[head_old]);
            assert(q@.skip(head_old).drop_first() =~= q@.skip(head as int));
        }
        let ghost sum0 = nv_count(states@) + q@.len() - head;
        let neis = g.neighbors_directed(n, dir);
        let mut i: usize = 0;
        while i < neis.len()
            invariant
                head <= q@.len(),
                states@.len() == old(states)@.len(),
                neis@ == neighbors_spec(*g, n, dir),
                i <= neis@.len(),
                n < states@.len(),
                states@[n as int] is Queued,
                bfs_neis(*g, dir, states@, n, i as int, q@.skip(head as int), steps@) == target,
                nv_count(states@) + q@.len() - head == sum0,
                forall|p: int|
                    0 <= p < q@.len() ==> #[trigger] q@[p] < states@.len() && !(
                    states@[q@[p] as int] is NotVisited),
                forall|p: int|
                    head <= p < q@.len() ==> states@[(#[trigger] q@[p]) as int] is Queued,
                forall|p1: int, p2: int|
                    0 <= p1 < p2 < q@.len() ==> #[trigger] q@[p1] != #[trigger] q@[p2],
                forall|p: int| head <= p < q@.len() ==> #[trigger] q@[p] != n,
            decreases neis@.len() - i,
        {
            let pair = neis[i];
            let e = pair.0;
            let m = pair.1;
            let ghost st_pre = states@;
            let ghost q_pre = q@;
            let descend = m < states.len() && matches!(states[m], NodeState::NotVisited);
            if descend {
                states[m] = NodeState::Queued;
                steps.push(Step::Edge(EdgeStep { idx: e, enable: true }));
                steps.push(Step::Node(NodeStep { idx: m, to_state: NodeState::Queued }));
                q.push(m);
                proof {
                    assert(q@.skip(head as int) =~= q_pre.skip(head as int).push(m));
                    lemma_nv_count_update(st_pre, m as int, NodeState::Queued);
                }
            }
            i = i + 1;
        }
        let ghost st_pre = states@;
        states[n] = NodeState::Visited;
        steps.push(Step::Node(NodeStep { idx: n, to_state: NodeState::Visited }));
        proof {
            lemma_nv_count_update(st_pre, n as int, NodeState::Visited);
        }
    }
    proof {
        assert(q@.skip(head as int) =~= Seq::<usize>::empty());
        assert(bfs_run(*g, dir, states@, q@.skip(head as int), steps@) == (steps@, states@));
    }
}

/// A breadth-first run in progress: the recorded steps and the shared
/// visitation map.
pub struct Bfs {
    pub steps: Vec<Step>,
    pub states: Vec<NodeState>,
}

impl Bfs {
    /// A fresh run over the store: nothing recorded, every stored node not
    /// yet visited.
    pub fn from_graph(g: &Graph) -> (r: Bfs)
        ensures
            r.steps@ == Seq::<Step>::empty(),
            r.states@ == crate::dfs::init_states(*g),
    {
        let dfs = crate::dfs::Dfs::from_graph(g);
        Bfs { steps: Vec::new(), states: dfs.states }
    }

    /// Run the search from `start` and wrap the record for playback anchored
    /// there.
    pub fn result(self, g: &Graph, start_idx: usize) -> (r: StepAlgorithmResult)
        ensures
            r.steps@ == bfs_from(*g, Direction::Outgoing, self.states@, self.steps@, start_idx).0,
            r.next == 0,
            r.start_idx == start_idx,
    {
        let mut this = self;
        bfs_exec(g, Direction::Outgoing, &mut this.states, &mut this.steps, start_idx);
        StepAlgorithmResult::from_steps(this.steps, start_idx)
    }

    /// As `result`, ignoring edge orientation.
    pub fn result_undirected(self, g: &Graph, start_idx: usize) -> (r: StepAlgorithmResult)
        ensures
            r.steps@ == bfs_from(*g, Direction::Both, self.states@, self.steps@, start_idx).0,
            r.next == 0,
            r.start_idx == start_idx,
    {
        let mut this = self;
        bfs_exec(g, Direction::Both, &mut this.states, &mut this.steps, start_idx);
        StepAlgorithmResult::from_steps(this.steps, start_idx)
    }
}

/// A full breadth-first run from `start`, outgoing edges only, ready to
/// play.
pub fn run_bfs(graph: &Graph, start: usize) -> (r: StepAlgorithmResult)
    ensures
        r.steps@ == bfs_from(
            *graph,
            Direction::Outgoing,
            crate::dfs::init_states(*graph),
            Seq::empty(),
            start,
        ).0,
        r.next == 0,
        r.start_idx == start,
{
    Bfs::from_graph(graph).result(graph, start)
}

/// A full undirected breadth-first run from `start`, ready to play.
pub fn run_bfs_undirected(graph: &Graph, start: usize) -> (r: StepAlgorithmResult)
    ensures
        r.steps@ == bfs_from(
            *graph,
            Direction::Both,
            crate::dfs::init_states(*graph),
            Seq::empty(),
            start,
        ).0,
        r.next == 0,
        r.start_idx == start,
{
    Bfs::from_graph(graph).result_undirected(graph, start)
}

} // verus!
