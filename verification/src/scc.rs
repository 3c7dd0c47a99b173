//! Kosaraju's strongly connected components, recorded as a step log. A
//! forward depth-first pass over every root in handle order collects a
//! global finish order; after a reset and a whole-graph edge reversal, that
//! order is scanned back to front, and each depth-first run along incoming
//! edges collects exactly one component, painted with the next color of the
//! cyclic palette. A final reversal and an edge-enable step restore the
//! display.

use vstd::prelude::*;

use crate::color::{palette, palette_spec};
use crate::dfs::{
    dfs_from, init_states, lemma_dfs_from_prefix, lemma_postorder_concat, postorder_of, Dfs,
};
use crate::graph::{Direction, Graph};
use crate::node::NodeState;
use crate::step::{
    step_view, EnableEdges, PaintComponent, ResetState, Reverse, Step, StepView,
};
use crate::step_algorithm::StepAlgorithmResult;

verus! {

/// A whole log in its mathematical reading.
pub open spec fn step_views(s: Seq<Step>) -> Seq<StepView> {
    s.map_values(|x: Step| step_view(x))
}

/// The recorded components in their mathematical reading.
pub open spec fn comp_views(c: Seq<Vec<usize>>) -> Seq<Seq<usize>> {
    c.map_values(|x: Vec<usize>| x@)
}

/// The forward pass: run the recording depth-first search from every handle
/// in `[i, ..)` still unvisited, in handle order.
pub open spec fn scc_phase1(
    g: Graph,
    st: Seq<NodeState>,
    out: Seq<Step>,
    i: nat,
) -> (Seq<Step>, Seq<NodeState>)
    decreases g.nodes@.len() - i,
{
    if i >= g.nodes@.len() {
        (out, st)
    } else if i < st.len() && st[i as int] is NotVisited {
        let r = dfs_from(g, Direction::Outgoing, st, out, i as usize);
        scc_phase1(g, r.1, r.0, i + 1)
    } else {
        scc_phase1(g, st, out, i + 1)
    }
}

/// The backward pass: scan the forward pass's finish order back to front;
/// each still-unvisited entry roots a depth-first run along incoming edges,
/// whose own finish order is exactly one component, painted with palette
/// color `k`.
pub open spec fn scc_phase3(
    g: Graph,
    st: Seq<NodeState>,
    order: Seq<usize>,
    k: nat,
    outv: Seq<StepView>,
    comps: Seq<Seq<usize>>,
) -> (Seq<StepView>, Seq<NodeState>, Seq<Seq<usize>>)
    decreases order.len(),
{
    if order.len() == 0 {
        (outv, st, comps)
    } else {
        let idx = order.last();
        if idx < st.len() && st[idx as int] is NotVisited {
            let r = dfs_from(g, Direction::Incoming, st, Seq::empty(), idx);
            let comp = postorder_of(r.0);
            scc_phase3(
                g,
                r.1,
                order.drop_last(),
                k + 1,
                outv + step_views(r.0) + seq![
                    StepView::Paint(palette_spec(k as int), comp),
                ],
                comps.push(comp),
            )
        } else {
            scc_phase3(g, st, order.drop_last(), k, outv, comps)
        }
    }
}

/// The whole recorded run: the forward pass, a reset and a reversal, the
/// backward pass with its painted components, then a reversal and an
/// edge-enable step to restore the display. Returns the log (in its
/// mathematical reading) and the components in discovery order.
pub open spec fn scc_spec(g: Graph) -> (Seq<StepView>, Seq<Seq<usize>>) {
    let p1 = scc_phase1(g, init_states(g), Seq::empty(), 0);
    let order = postorder_of(p1.0);
    let outv1 = step_views(p1.0) + seq![StepView::Reset, StepView::Reverse];
    let p3 = scc_phase3(g, init_states(g), order, 0, outv1, Seq::empty());
    (p3.0 + seq![StepView::Reverse, StepView::EnableEdges], p3.2)
}

/// A component search in progress: the recorded steps and the components
/// found, in discovery order.
pub struct Scc {
    pub steps: Vec<Step>,
    pub components: Vec<Vec<usize>>,
}

impl Scc {
    pub fn new() -> (r: Scc)
        ensures
            r.steps@ == Seq::<Step>::empty(),
            r.components@ == Seq::<Vec<usize>>::empty(),
    {
        Scc { steps: Vec::new(), components: Vec::new() }
    }

    pub fn components(&self) -> (r: &Vec<Vec<usize>>)
        ensures
            r == self.components,
    {
        &self.components
    }

    /// Run the whole search over the store, recording the log and the
    /// components.
    pub fn run(&mut self, g: &Graph)
        requires
            old(self).steps@.len() == 0,
            old(self).components@.len() == 0,
        ensures
            step_views(final(self).steps@) == scc_spec(*g).0,
            comp_views(final(self).components@) == scc_spec(*g).1,
    {
        let ghost target1 = scc_phase1(*g, init_states(*g), Seq::<Step>::empty(), 0);
        let mut dfs = Dfs::from_graph(g);
        let n = g.nodes.len();
        let mut i: usize = 0;
        proof {
            assert(postorder_of(Seq::<Step>::empty()) =~= Seq::<usize>::empty());
        }
        while i < n
            invariant
                n == g.nodes@.len(),
                i <= n,
                dfs.states@.len() == init_states(*g).len(),
                scc_phase1(*g, dfs.states@, dfs.steps@, i as nat) == target1,
                dfs.postorder@ == postorder_of(dfs.steps@),
            decreases n - i,
        {
            let root = match &dfs.states[i] {
                NodeState::NotVisited => true,
                _ => false,
            };
            if root {
                let ghost steps_pre = dfs.steps@;
                let ghost st_pre = dfs.states@;
                dfs.run(g, i);
                proof {
                    lemma_dfs_from_prefix(*g, Direction::Outgoing, st_pre, steps_pre, i);
                    let suffix = dfs_from(*g, Direction::Outgoing, st_pre, Seq::empty(), i).0;
                    assert(dfs.steps@ =~= steps_pre + suffix);
                    assert(dfs.steps@.skip(steps_pre.len() as int) =~= suffix);
                    lemma_postorder_concat(steps_pre, suffix);
                }
            }
            i += 1;
        }
        proof {
            assert(scc_phase1(*g, dfs.states@, dfs.steps@, n as nat) == (dfs.steps@, dfs.states@));
        }
        let order = dfs.postorder;
        let mut steps = dfs.steps;
        let ghost p1_steps = steps@;
        steps.push(Step::Reset(ResetState {  }));
        steps.push(Step::Reverse(Reverse {  }));
        let ghost outv1 = step_views(p1_steps) + seq![StepView::Reset, StepView::Reverse];
        proof {
            assert(step_views(steps@) =~= outv1);
        }
        let ghost target3 = scc_phase3(
            *g,
            init_states(*g),
            order@,
            0,
            outv1,
            Seq::<Seq<usize>>::empty(),
        );
        let dfs2 = Dfs::from_graph(g);
        let mut states2 = dfs2.states;
        let mut components: Vec<Vec<usize>> = Vec::new();
        let mut ncomp: usize = 0;
        let olen = order.len();
        let mut t = olen;
        proof {
            assert(order@.take(order@.len() as int) =~= order@);
        }
        proof {
            assert(comp_views(components@) =~= Seq::<Seq<usize>>::empty());
        }
        while t > 0
            invariant
                olen == order@.len(),
                t <= olen,
                states2@.len() == init_states(*g).len(),
                ncomp == components@.len(),
                ncomp <= olen - t,
                scc_phase3(
                    *g,
                    states2@,
                    order@.take(t as int),
                    ncomp as nat,
                    step_views(steps@),
                    comp_views(components@),
                ) == target3,
            decreases t,
        {
            let idx = order[t - 1];
            let ghost order_pre = order@.take(t as int);
            proof {
                assert(order_pre.last() == order@[t - 1]);
                assert(order_pre.drop_last() =~= order@.take(t - 1));
            }
            let visit = idx < states2.len() && matches!(states2[idx], NodeState::NotVisited);
            if visit {
                let ghost steps_pre = steps@;
                let ghost st_pre = states2@;
                let ghost comps_pre = comp_views(components@);
                let mut comp: Vec<usize> = Vec::new();
                let mut pre_scratch: Vec<usize> = Vec::new();
                crate::dfs::dfs_exec(
                    g,
                    Direction::Incoming,
                    &mut states2,
                    &mut steps,
                    &mut pre_scratch,
                    &mut comp,
                    idx,
                );
                proof {
                    lemma_dfs_from_prefix(*g, Direction::Incoming, st_pre, steps_pre, idx);
                }
                let ghost rr = dfs_from(*g, Direction::Incoming, st_pre, Seq::<Step>::empty(), idx);
                proof {
                    assert(steps@ =~= steps_pre + rr.0);
                    assert(steps@.skip(steps_pre.len() as int) =~= rr.0);
                    assert(comp@ == postorder_of(rr.0));
                }
                let paint_color = palette(ncomp);
                let comp_copy = copy_handles(&comp);
                steps.push(Step::Paint(PaintComponent { color: paint_color, indices: comp_copy }));
                components.push(comp);
                ncomp = ncomp + 1;
                proof {
                    assert(step_views(steps@) =~= step_views(steps_pre) + step_views(rr.0) + seq![
                        StepView::Paint(palette_spec(ncomp - 1), postorder_of(rr.0)),
                    ]);
                    assert(comp_views(components@) =~= comps_pre.push(postorder_of(rr.0)));
                }
            }
            t = t - 1;
        }
        proof {
            assert(order@.take(0int) =~= Seq::<usize>::empty());
        }
        steps.push(Step::Reverse(Reverse {  }));
        steps.push(Step::EnableEdges(EnableEdges {  }));
        proof {
            assert(step_views(steps@) =~= scc_spec(*g).0);
        }
        self.steps = steps;
        self.components = components;
    }

    /// Wrap the recorded run for playback; the animation anchors the lowest
    /// handle (a dangling one is simply not pinned).
    pub fn result(self) -> (r: StepAlgorithmResult)
        ensures
            r.steps == self.steps,
            r.next == 0,
            r.start_idx == 0,
    {
        StepAlgorithmResult::from_steps(self.steps, 0)
    }
}

/// A plain copy of a handle list.
fn copy_handles(v: &Vec<usize>) -> (r: Vec<usize>)
    ensures
        r@ == v@,
{
    let mut r: Vec<usize> = Vec::new();
    let n = v.len();
    let mut i: usize = 0;
    while i < n
        invariant
            n == v@.len(),
            i <= n,
            r@ == v@.take(i as int),
        decreases n - i,
    {
        r.push(v[i]);
        proof {
            assert(v@.take(i + 1int) =~= v@.take(i as int).push(v@[i as int]));
        }
        i += 1;
    }
    proof {
        assert(v@.take(n as int) =~= v@);
    }
    r
}

/// The whole component search over the store, ready to play.
pub fn run_scc(graph: &Graph) -> (r: StepAlgorithmResult)
    ensures
        step_views(r.steps@) == scc_spec(*graph).0,
        r.next == 0,
{
    let mut scc = Scc::new();
    scc.run(graph);
    scc.result()
}

} // verus!
