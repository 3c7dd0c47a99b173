//! Depth-first search that records its run as a step log. Entering a node
//! emits `Queued`; each tree edge emits an edge-enable step before the
//! child's `Queued`; leaving a node emits `Visited`. The traversal
//! direction is a parameter: outgoing for a plain run, incoming for the
//! second pass of the component search, both for an undirected run.
//!
//! The specification is a small-step interpreter over an explicit stack of
//! `(node, cursor)` frames; the executable search runs the same machine and
//! is proved to compute exactly the interpreter's result.

use vstd::prelude::*;

use crate::graph::{neighbors_spec, Direction, Graph};
use crate::node::NodeState;
use crate::step::{EdgeStep, NodeStep, Step};
use crate::step_algorithm::StepAlgorithmResult;

verus! {

/// How many nodes a state map still shows as not visited.
pub open spec fn nv_count(st: Seq<NodeState>) -> nat
    decreases st.len(),
{
    if st.len() == 0 {
        0
    } else {
        nv_count(st.drop_last()) + if st.last() is NotVisited {
            1nat
        } else {
            0nat
        }
    }
}

/// Rewriting one slot to a non-`NotVisited` state lowers the count exactly
/// when the slot was `NotVisited`.
pub proof fn lemma_nv_count_update(st: Seq<NodeState>, i: int, s: NodeState)
    requires
        0 <= i < st.len(),
        !(s is NotVisited),
    ensures
        nv_count(st.update(i, s)) == nv_count(st) - (if st[i] is NotVisited {
            1int
        } else {
            0int
        }),
    decreases st.len(),
{
    let st1 = st.update(i, s);
    if i == st.len() - 1 {
        assert(st1.drop_last() =~= st.drop_last());
    } else {
        assert(st1.drop_last() =~= st.drop_last().update(i, s));
        lemma_nv_count_update(st.drop_last(), i, s);
    }
}

/// A stack frame of the interpreter: the node and how many of its neighbors
/// have been handled.
pub type Frame = (usize, int);

/// The work one frame still owes: its unhandled neighbors, plus one for the
/// pop itself.
pub open spec fn frame_work(g: Graph, dir: Direction, f: Frame) -> int {
    let l = neighbors_spec(g, f.0, dir).len() as int;
    (if f.1 < l {
        l - f.1
    } else {
        0
    }) + 1
}

/// The work a whole stack still owes.
pub open spec fn stack_work(g: Graph, dir: Direction, stack: Seq<Frame>) -> int
    decreases stack.len(),
{
    if stack.len() == 0 {
        0
    } else {
        stack_work(g, dir, stack.drop_last()) + frame_work(g, dir, stack.last())
    }
}

pub proof fn lemma_stack_work_nonneg(g: Graph, dir: Direction, stack: Seq<Frame>)
    ensures
        stack_work(g, dir, stack) >= 0,
        stack.len() > 0 ==> stack_work(g, dir, stack) >= frame_work(g, dir, stack.last()),
        stack.len() > 0 ==> stack_work(g, dir, stack.drop_last()) >= 0,
    decreases stack.len(),
{
    if stack.len() > 0 {
        lemma_stack_work_nonneg(g, dir, stack.drop_last());
    }
}

/// The interpreter: one call runs the machine to completion. In each step
/// the top frame either pops (all neighbors handled; the node turns
/// `Visited`), descends into a not-yet-visited neighbor (recording the tree
/// edge and the child's `Queued`), or skips a neighbor already seen.
pub open spec fn dfs_run(
    g: Graph,
    dir: Direction,
    st: Seq<NodeState>,
    stack: Seq<Frame>,
    out: Seq<Step>,
) -> (Seq<Step>, Seq<NodeState>)
    decreases nv_count(st), stack_work(g, dir, stack),
    via dfs_run_decreases
{
    if stack.len() == 0 {
        (out, st)
    } else {
        let n = stack.last().0;
        let i = stack.last().1;
        let neis = neighbors_spec(g, n, dir);
        if !(0 <= i < neis.len()) {
            let st2 = if n < st.len() {
                st.update(n as int, NodeState::Visited)
            } else {
                st
            };
            dfs_run(
                g,
                dir,
                st2,
                stack.drop_last(),
                out.push(Step::Node(NodeStep { idx: n, to_state: NodeState::Visited })),
            )
        } else {
            let e = neis[i].0;
            let m = neis[i].1;
            let stack2 = stack.update(stack.len() - 1, (n, i + 1));
            if m < st.len() && st[m as int] is NotVisited {
                dfs_run(
                    g,
                    dir,
                    st.update(m as int, NodeState::Queued),
                    stack2.push((m, 0)),
                    out.push(Step::Edge(EdgeStep { idx: e, enable: true })).push(
                        Step::Node(NodeStep { idx: m, to_state: NodeState::Queued }),
                    ),
                )
            } else {
                dfs_run(g, dir, st, stack2, out)
            }
        }
    }
}

#[via_fn]
proof fn dfs_run_decreases(
    g: Graph,
    dir: Direction,
    st: Seq<NodeState>,
    stack: Seq<Frame>,
    out: Seq<Step>,
) {
    if stack.len() > 0 {
        let n = stack.last().0;
        let i = stack.last().1;
        let neis = neighbors_spec(g, n, dir);
        lemma_stack_work_nonneg(g, dir, stack);
        if !(0 <= i < neis.len()) {
            if n < st.len() {
                lemma_nv_count_update(st, n as int, NodeState::Visited);
            }
            assert(frame_work(g, dir, stack.last()) >= 1);
        } else {
            let m = neis[i].1;
            let stack2 = stack.update(stack.len() - 1, (n, i + 1));
            assert(stack2.drop_last() =~= stack.drop_last());
            assert(stack2.last() == (n, i + 1));
            if m < st.len() && st[m as int] is NotVisited {
                lemma_nv_count_update(st, m as int, NodeState::Queued);
                lemma_stack_work_nonneg(g, dir, stack2.push((m, 0)));
            } else {
                assert(frame_work(g, dir, stack2.last()) == frame_work(g, dir, stack.last()) - 1);
            }
        }
    }
}

/// Entering the search at `start`: mark and record it queued, and put its
/// frame on the stack. An out-of-range handle runs nothing.
pub open spec fn dfs_from(
    g: Graph,
    dir: Direction,
    st: Seq<NodeState>,
    out: Seq<Step>,
    start: usize,
) -> (Seq<Step>, Seq<NodeState>) {
    if start < st.len() {
        dfs_run(
            g,
            dir,
            st.update(start as int, NodeState::Queued),
            seq![(start, 0int)],
            out.push(Step::Node(NodeStep { idx: start, to_state: NodeState::Queued })),
        )
    } else {
        (out, st)
    }
}

/// The nodes a step log marks `Visited`, in log order: the traversal's
/// postorder (finish order).
pub open spec fn postorder_of(steps: Seq<Step>) -> Seq<usize>
    decreases steps.len(),
{
    if steps.len() == 0 {
        Seq::empty()
    } else {
        let p = postorder_of(steps.drop_last());
        match steps.last() {
            Step::Node(ns) => if ns.to_state is Visited {
                p.push(ns.idx)
            } else {
                p
            },
            _ => p,
        }
    }
}

/// The nodes a step log marks `Queued`, in log order: the traversal's
/// preorder (discovery order).
pub open spec fn preorder_of(steps: Seq<Step>) -> Seq<usize>
    decreases steps.len(),
{
    if steps.len() == 0 {
        Seq::empty()
    } else {
        let p = preorder_of(steps.drop_last());
        match steps.last() {
            Step::Node(ns) => if ns.to_state is Queued {
                p.push(ns.idx)
            } else {
                p
            },
            _ => p,
        }
    }
}

/// The fresh visitation map for a store: stored nodes are not visited;
/// dangling slots are marked visited so no traversal ever enters them.
pub open spec fn init_states(g: Graph) -> Seq<NodeState> {
    Seq::new(
        g.nodes@.len(),
        |i: int|
            if g.nodes@[i] is Some {
                NodeState::NotVisited
            } else {
                NodeState::Visited
            },
    )
}

/// The ghost view of the executable stack: cursors widened to integers.
pub open spec fn stack_view(s: Seq<(usize, usize)>) -> Seq<Frame> {
    Seq::new(s.len(), |i: int| (s[i].0, s[i].1 as int))
}

/// Appending a step extends the extracted orders at their ends.
proof fn lemma_orders_push(steps: Seq<Step>, s: Step, k: int)
    requires
        0 <= k <= steps.len(),
    ensures
        postorder_of(steps.push(s).skip(k)) == (match s {
            Step::Node(ns) => if ns.to_state is Visited {
                postorder_of(steps.skip(k)).push(ns.idx)
            } else {
                postorder_of(steps.skip(k))
            },
            _ => postorder_of(steps.skip(k)),
        }),
        preorder_of(steps.push(s).skip(k)) == (match s {
            Step::Node(ns) => if ns.to_state is Queued {
                preorder_of(steps.skip(k)).push(ns.idx)
            } else {
                preorder_of(steps.skip(k))
            },
            _ => preorder_of(steps.skip(k)),
        }),
{
    assert(steps.push(s).skip(k) =~= steps.skip(k).push(s));
    assert(steps.skip(k).push(s).drop_last() =~= steps.skip(k));
    assert(steps.skip(k).push(s).last() == s);
}

/// The executable machine: runs the interpreter on the shared state map,
/// appending the recorded steps and the postorder to the caller's vectors.
pub fn dfs_exec(
    g: &Graph,
    dir: Direction,
    states: &mut Vec<NodeState>,
    steps: &mut Vec<Step>,
    preorder: &mut Vec<usize>,
    postorder: &mut Vec<usize>,
    start: usize,
)
    ensures
        (final(steps)@, final(states)@) == dfs_from(*g, dir, old(states)@, old(steps)@, start),
        final(postorder)@ == old(postorder)@ + postorder_of(
            final(steps)@.skip(old(steps)@.len() as int),
        ),
        final(preorder)@ == old(preorder)@ + preorder_of(
            final(steps)@.skip(old(steps)@.len() as int),
        ),
        final(steps)@.len() >= old(steps)@.len(),
        final(states)@.len() == old(states)@.len(),
{
    let ghost target = dfs_from(*g, dir, old(states)@, old(steps)@, start);
    let ghost len0 = steps@.len() as int;
    proof {
        assert(steps@.skip(0) =~= steps@);
        assert(steps@.skip(len0) =~= Seq::<Step>::empty());
    }
    if start >= states.len() {
        proof {
            assert(final(postorder)@ =~= old(postorder)@ + postorder_of(steps@.skip(len0)));
            assert(final(preorder)@ =~= old(preorder)@ + preorder_of(steps@.skip(len0)));
        }
        return ;
    }
    states[start] = NodeState::Queued;
    steps.push(Step::Node(NodeStep { idx: start, to_state: NodeState::Queued }));
    preorder.push(start);
    let mut stack: Vec<(usize, usize)> = Vec::new();
    stack.push((start, 0));
    proof {
        assert(stack_view(stack@) =~= seq![(start, 0int)]);
        lemma_orders_push(
            old(steps)@,
            Step::Node(NodeStep { idx: start, to_state: NodeState::Queued }),
            len0,
        );
        assert(postorder@ == old(postorder)@ + postorder_of(steps@.skip(len0)));
        assert(preorder@ =~= old(preorder)@ + preorder_of(steps@.skip(len0)));
    }
    while stack.len() > 0
        invariant
            dfs_run(*g, dir, states@, stack_view(stack@), steps@) == target,
            postorder@ == old(postorder)@ + postorder_of(steps@.skip(len0)),
            preorder@ == old(preorder)@ + preorder_of(steps@.skip(len0)),
            0 <= len0 <= steps@.len(),
            states@.len() == old(states)@.len(),
        decreases nv_count(states@), stack_work(*g, dir, stack_view(stack@)),
    {
        let frame = stack[stack.len() - 1];
        let n = frame.0;
        let i = frame.1;
        let ghost st_pre = states@;
        let ghost stack_pre = stack_view(stack@);
        let ghost out_pre = steps@;
        let neis = g.neighbors_directed(n, dir);
        if i >= neis.len() {
            // pop: the node is finished
            if n < states.len() {
                states[n] = NodeState::Visited;
            }
            stack.pop();
            steps.push(Step::Node(NodeStep { idx: n, to_state: NodeState::Visited }));
            postorder.push(n);
            proof {
                assert(stack_view(stack@) =~= stack_pre.drop_last());
                lemma_orders_push(
                    out_pre,
                    Step::Node(NodeStep { idx: n, to_state: NodeState::Visited }),
                    len0,
                );
                assert(postorder@ =~= old(postorder)@ + postorder_of(steps@.skip(len0)));
                if n < st_pre.len() {
                    lemma_nv_count_update(st_pre, n as int, NodeState::Visited);
                }
                lemma_stack_work_nonneg(*g, dir, stack_pre);
            }
        } else {
            let pair = neis[i];
            let e = pair.0;
            let m = pair.1;
            let last = stack.len() - 1;
            stack[last] = (n, i + 1);
            proof {
                assert(stack_view(stack@) =~= stack_pre.update(
                    stack_pre.len() - 1,
                    (n, i + 1int),
                ));
                assert(stack_view(stack@).drop_last() =~= stack_pre.drop_last());
                lemma_stack_work_nonneg(*g, dir, stack_pre);
            }
            let descend = m < states.len() && matches!(states[m], NodeState::NotVisited);
            if descend {
                states[m] = NodeState::Queued;
                stack.push((m, 0));
                steps.push(Step::Edge(EdgeStep { idx: e, enable: true }));
                steps.push(Step::Node(NodeStep { idx: m, to_state: NodeState::Queued }));
                preorder.push(m);
                proof {
                    assert(stack_view(stack@) =~= stack_pre.update(
                        stack_pre.len() - 1,
                        (n, i + 1int),
                    ).push((m, 0int)));
                    lemma_orders_push(out_pre, Step::Edge(EdgeStep { idx: e, enable: true }), len0);
                    lemma_orders_push(
                        out_pre.push(Step::Edge(EdgeStep { idx: e, enable: true })),
                        Step::Node(NodeStep { idx: m, to_state: NodeState::Queued }),
                        len0,
                    );
                    assert(preorder@ =~= old(preorder)@ + preorder_of(steps@.skip(len0)));
                    lemma_nv_count_update(st_pre, m as int, NodeState::Queued);
                    lemma_stack_work_nonneg(
                        *g,
                        dir,
                        stack_pre.update(stack_pre.len() - 1, (n, i + 1int)).push((m, 0int)),
                    );
                }
            }
        }
    }
    proof {
        assert(stack_view(stack@) =~= Seq::<Frame>::empty());
        assert(dfs_run(*g, dir, states@, stack_view(stack@), steps@) == (steps@, states@));
    }
}

/// The interpreter only appends: its output is the given prefix followed by
/// what it would emit from an empty log, and the final states do not depend
/// on the prefix.
pub proof fn lemma_dfs_run_prefix(
    g: Graph,
    dir: Direction,
    st: Seq<NodeState>,
    stack: Seq<Frame>,
    out: Seq<Step>,
)
    ensures
        dfs_run(g, dir, st, stack, out).0 == out + dfs_run(g, dir, st, stack, Seq::empty()).0,
        dfs_run(g, dir, st, stack, out).1 == dfs_run(g, dir, st, stack, Seq::empty()).1,
    decreases nv_count(st), stack_work(g, dir, stack),
{
    if stack.len() == 0 {
        assert(out + Seq::<Step>::empty() =~= out);
    } else {
        let n = stack.last().0;
        let i = stack.last().1;
        let neis = neighbors_spec(g, n, dir);
        lemma_stack_work_nonneg(g, dir, stack);
        if !(0 <= i < neis.len()) {
            let st2 = if n < st.len() {
                st.update(n as int, NodeState::Visited)
            } else {
                st
            };
            let v = Step::Node(NodeStep { idx: n, to_state: NodeState::Visited });
            if n < st.len() {
                lemma_nv_count_update(st, n as int, NodeState::Visited);
            }
            lemma_dfs_run_prefix(g, dir, st2, stack.drop_last(), out.push(v));
            lemma_dfs_run_prefix(g, dir, st2, stack.drop_last(), Seq::<Step>::empty().push(v));
            let tail = dfs_run(g, dir, st2, stack.drop_last(), Seq::empty()).0;
            assert(out.push(v) + tail =~= out + (Seq::<Step>::empty().push(v) + tail));
        } else {
            let e = neis[i].0;
            let m = neis[i].1;
            let stack2 = stack.update(stack.len() - 1, (n, i + 1));
            assert(stack2.drop_last() =~= stack.drop_last());
            assert(stack2.last() == (n, i + 1));
            if m < st.len() && st[m as int] is NotVisited {
                let st2 = st.update(m as int, NodeState::Queued);
                let stack3 = stack2.push((m, 0));
                let se = Step::Edge(EdgeStep { idx: e, enable: true });
                let sq = Step::Node(NodeStep { idx: m, to_state: NodeState::Queued });
                lemma_nv_count_update(st, m as int, NodeState::Queued);
                lemma_dfs_run_prefix(g, dir, st2, stack3, out.push(se).push(sq));
                lemma_dfs_run_prefix(g, dir, st2, stack3, Seq::<Step>::empty().push(se).push(sq));
                let tail = dfs_run(g, dir, st2, stack3, Seq::empty()).0;
                assert(out.push(se).push(sq) + tail =~= out + (Seq::<Step>::empty().push(se).push(
                    sq,
                ) + tail));
            } else {
                lemma_dfs_run_prefix(g, dir, st, stack2, out);
            }
        }
    }
}

/// Entering at `start` likewise only appends.
pub proof fn lemma_dfs_from_prefix(
    g: Graph,
    dir: Direction,
    st: Seq<NodeState>,
    out: Seq<Step>,
    start: usize,
)
    ensures
        dfs_from(g, dir, st, out, start).0 == out + dfs_from(g, dir, st, Seq::empty(), start).0,
        dfs_from(g, dir, st, out, start).1 == dfs_from(g, dir, st, Seq::empty(), start).1,
{
    if start < st.len() {
        let st1 = st.update(start as int, NodeState::Queued);
        let sq = Step::Node(NodeStep { idx: start, to_state: NodeState::Queued });
        lemma_dfs_run_prefix(g, dir, st1, seq![(start, 0int)], out.push(sq));
        lemma_dfs_run_prefix(g, dir, st1, seq![(start, 0int)], Seq::<Step>::empty().push(sq));
        let tail = dfs_run(g, dir, st1, seq![(start, 0int)], Seq::empty()).0;
        assert(out.push(sq) + tail =~= out + (Seq::<Step>::empty().push(sq) + tail));
    } else {
        assert(out + Seq::<Step>::empty() =~= out);
    }
}

/// The postorder of a concatenated log is the two postorders concatenated.
pub proof fn lemma_postorder_concat(a: Seq<Step>, b: Seq<Step>)
    ensures
        postorder_of(a + b) == postorder_of(a) + postorder_of(b),
    decreases b.len(),
{
    if b.len() == 0 {
        assert(a + b =~= a);
        assert(postorder_of(a) + postorder_of(b) =~= postorder_of(a));
    } else {
        lemma_postorder_concat(a, b.drop_last());
        assert((a + b).drop_last() =~= a + b.drop_last());
        assert((a + b).last() == b.last());
        match b.last() {
            Step::Node(ns) => {
                if ns.to_state is Visited {
                    assert(postorder_of(a) + postorder_of(b) =~= (postorder_of(a) + postorder_of(
                        b.drop_last(),
                    )).push(ns.idx));
                } else {
                    assert(postorder_of(b) == postorder_of(b.drop_last()));
                }
            },
            _ => {
                assert(postorder_of(b) == postorder_of(b.drop_last()));
            },
        }
    }
}

/// A depth-first run in progress: the recorded steps, the shared visitation
/// map, and the discovery and finish orders.
pub struct Dfs {
    pub steps: Vec<Step>,
    pub states: Vec<NodeState>,
    pub preorder: Vec<usize>,
    pub postorder: Vec<usize>,
}

impl Dfs {
    /// A fresh run over the store: nothing recorded, every stored node not
    /// yet visited.
    pub fn from_graph(g: &Graph) -> (r: Dfs)
        ensures
            r.steps@ == Seq::<Step>::empty(),
            r.states@ == init_states(*g),
            r.preorder@ == Seq::<usize>::empty(),
            r.postorder@ == Seq::<usize>::empty(),
    {
        let mut states: Vec<NodeState> = Vec::new();
        let n = g.nodes.len();
        let mut i: usize = 0;
        while i < n
            invariant
                n == g.nodes@.len(),
                i <= n,
                states@.len() == i,
                forall|k: int| 0 <= k < i ==> states@[k] == init_states(*g)[k],
            decreases n - i,
        {
            let s = match &g.nodes[i] {
                Some(_) => NodeState::NotVisited,
                None => NodeState::Visited,
            };
            states.push(s);
            i += 1;
        }
        proof {
            assert(states@ =~= init_states(*g));
        }
        Dfs { steps: Vec::new(), states, preorder: Vec::new(), postorder: Vec::new() }
    }

    /// Run the search outward from `start`, appending to this run's record.
    pub fn run(&mut self, g: &Graph, start: usize)
        ensures
            (final(self).steps@, final(self).states@) == dfs_from(
                *g,
                Direction::Outgoing,
                old(self).states@,
                old(self).steps@,
                start,
            ),
            final(self).postorder@ == old(self).postorder@ + postorder_of(
                final(self).steps@.skip(old(self).steps@.len() as int),
            ),
            final(self).preorder@ == old(self).preorder@ + preorder_of(
                final(self).steps@.skip(old(self).steps@.len() as int),
            ),
            final(self).steps@.len() >= old(self).steps@.len(),
            final(self).states@.len() == old(self).states@.len(),
    {
        proof {
            assert(old(self).steps@.skip(0) =~= old(self).steps@);
        }
        dfs_exec(
            g,
            Direction::Outgoing,
            &mut self.states,
            &mut self.steps,
            &mut self.preorder,
            &mut self.postorder,
            start,
        );
    }

    /// Run the search along incoming edges: the transposed-graph pass of the
    /// component search.
    pub fn dfs_reversed(&mut self, g: &Graph, start: usize)
        ensures
            (final(self).steps@, final(self).states@) == dfs_from(
                *g,
                Direction::Incoming,
                old(self).states@,
                old(self).steps@,
                start,
            ),
            final(self).postorder@ == old(self).postorder@ + postorder_of(
                final(self).steps@.skip(old(self).steps@.len() as int),
            ),
            final(self).preorder@ == old(self).preorder@ + preorder_of(
                final(self).steps@.skip(old(self).steps@.len() as int),
            ),
            final(self).steps@.len() >= old(self).steps@.len(),
            final(self).states@.len() == old(self).states@.len(),
    {
        proof {
            assert(old(self).steps@.skip(0) =~= old(self).steps@);
        }
        dfs_exec(
            g,
            Direction::Incoming,
            &mut self.states,
            &mut self.steps,
            &mut self.preorder,
            &mut self.postorder,
            start,
        );
    }

    /// Run the search ignoring edge orientation.
    pub fn run_undirected(&mut self, g: &Graph, start: usize)
        ensures
            (final(self).steps@, final(self).states@) == dfs_from(
                *g,
                Direction::Both,
                old(self).states@,
                old(self).steps@,
                start,
            ),
            final(self).postorder@ == old(self).postorder@ + postorder_of(
                final(self).steps@.skip(old(self).steps@.len() as int),
            ),
            final(self).preorder@ == old(self).preorder@ + preorder_of(
                final(self).steps@.skip(old(self).steps@.len() as int),
            ),
            final(self).steps@.len() >= old(self).steps@.len(),
            final(self).states@.len() == old(self).states@.len(),
    {
        proof {
            assert(old(self).steps@.skip(0) =~= old(self).steps@);
        }
        dfs_exec(
            g,
            Direction::Both,
            &mut self.states,
            &mut self.steps,
            &mut self.preorder,
            &mut self.postorder,
            start,
        );
    }

    pub fn states(&self) -> (r: &Vec<NodeState>)
        ensures
            r == self.states,
    {
        &self.states
    }

    pub fn postorder(&self) -> (r: &Vec<usize>)
        ensures
            r == self.postorder,
    {
        &self.postorder
    }

    pub fn into_steps(self) -> (r: Vec<Step>)
        ensures
            r == self.steps,
    {
        self.steps
    }

    /// Wrap the recorded run for playback anchored at `start_idx`.
    pub fn result(self, start_idx: usize) -> (r: StepAlgorithmResult)
        ensures
            r.steps == self.steps,
            r.next == 0,
            r.start_idx == start_idx,
    {
        StepAlgorithmResult::from_steps(self.steps, start_idx)
    }
}

/// A full depth-first run from `start`, outgoing edges only, ready to play.
pub fn run_dfs(graph: &Graph, start: usize) -> (r: StepAlgorithmResult)
    ensures
        r.steps@ == dfs_from(*graph, Direction::Outgoing, init_states(*graph), Seq::empty(), start).0,
        r.next == 0,
        r.start_idx == start,
{
    let mut dfs = Dfs::from_graph(graph);
    dfs.run(graph, start);
    dfs.result(start)
}

/// A full undirected depth-first run from `start`, ready to play.
pub fn run_dfs_undirected(graph: &Graph, start: usize) -> (r: StepAlgorithmResult)
    ensures
        r.steps@ == dfs_from(*graph, Direction::Both, init_states(*graph), Seq::empty(), start).0,
        r.next == 0,
        r.start_idx == start,
{
    let mut dfs = Dfs::from_graph(graph);
    dfs.run_undirected(graph, start);
    dfs.result(start)
}

} // verus!
