//! The force-directed layout engine: one tick accumulates repulsion between
//! every ordered pair of distinct nodes and attraction along every enabled
//! edge, then integrates the accumulated force into each unpinned node's
//! position and refreshes the cached edge geometry.

use vstd::prelude::*;

use crate::edge::{eff_from_id, eff_to_id, pull_force_spec, Edge};
use crate::geom::{
    add_clamped, add_clamped_spec, in_bounds_spec, sub_clamped, sub_clamped_spec, Vec2, DT_LIMIT,
    FORCE_LIMIT, POS_LIMIT,
};
use crate::graph::Graph;
use crate::gravity::{PullForceConfig, PushForceConfig};
use crate::node::{integrate_spec, push_contrib_spec, valid_dir, Node};
use crate::random::random_direction;

verus! {

/// One repulsion accumulation step for node `i` against slot `j`: a stored
/// distinct node adds its clamped contribution, anything else adds nothing.
pub open spec fn push_step_spec(
    nodes0: Seq<Option<Node>>,
    i: int,
    conf: PushForceConfig,
    j: int,
    prev: Vec2,
    dir: Vec2,
) -> Vec2 {
    if 0 <= j < nodes0.len() && j != i && nodes0[j] is Some {
        add_clamped_spec(
            prev,
            push_contrib_spec(nodes0[i].unwrap().position, nodes0[j].unwrap().position, conf, dir),
            FORCE_LIMIT as int,
        )
    } else {
        prev
    }
}

/// A sequence of usable substitute directions.
pub open spec fn valid_dirs(dirs: Seq<Vec2>) -> bool {
    forall|t: int| 0 <= t < dirs.len() ==> valid_dir(#[trigger] dirs[t])
}

/// Node `i`'s accumulator after the repulsion pass has folded the first `j`
/// slots, under the substitute directions `dirs` (slot `t` consults
/// `dirs[t]`, and only where the pair coincides).
pub open spec fn push_fold(
    nodes0: Seq<Option<Node>>,
    i: int,
    conf: PushForceConfig,
    dirs: Seq<Vec2>,
    j: nat,
) -> Vec2
    decreases j,
{
    if j == 0 {
        nodes0[i].unwrap().current_force
    } else {
        push_step_spec(
            nodes0,
            i,
            conf,
            j - 1,
            push_fold(nodes0, i, conf, dirs, (j - 1) as nat),
            dirs[j - 1],
        )
    }
}

/// `f` is a force node `i` can hold after the repulsion pass has folded the
/// first `j` slots over its accumulator, for some choice of substitute
/// directions. Only coincident pairs actually consult the direction, so the
/// choice is free exactly where the pass draws one at random.
pub open spec fn push_reach(
    nodes0: Seq<Option<Node>>,
    i: int,
    conf: PushForceConfig,
    j: nat,
    f: Vec2,
) -> bool {
    exists|dirs: Seq<Vec2>|
        valid_dirs(dirs) && f == #[trigger] push_fold(nodes0, i, conf, dirs, j)
}

/// The fold reads only the first `j` directions.
proof fn lemma_push_fold_extend(
    nodes0: Seq<Option<Node>>,
    i: int,
    conf: PushForceConfig,
    dirs: Seq<Vec2>,
    dir: Vec2,
    j: nat,
)
    requires
        j <= dirs.len(),
    ensures
        push_fold(nodes0, i, conf, dirs.push(dir), j) == push_fold(nodes0, i, conf, dirs, j),
    decreases j,
{
    if j > 0 {
        lemma_push_fold_extend(nodes0, i, conf, dirs, dir, (j - 1) as nat);
        assert(dirs.push(dir)[j - 1] == dirs[j - 1]);
    }
}

/// What the repulsion pass does: everything but the force accumulators is
/// untouched, and each stored node's accumulator is reachable by folding its
/// contributions in slot order.
pub open spec fn push_force_rel(g0: Graph, g1: Graph, conf: PushForceConfig) -> bool {
    &&& g1.edges@ == g0.edges@
    &&& g1.nodes@.len() == g0.nodes@.len()
    &&& forall|k: int|
        0 <= k < g0.nodes@.len() ==> ((#[trigger] g1.nodes@[k]) is Some <==> g0.nodes@[k] is Some)
    &&& forall|k: int|
        0 <= k < g0.nodes@.len() && g0.nodes@[k] is Some ==> (#[trigger] g1.nodes@[k]).unwrap()
            == (Node { current_force: g1.nodes@[k].unwrap().current_force, ..g0.nodes@[k].unwrap() })
    &&& forall|k: int|
        0 <= k < g0.nodes@.len() && g0.nodes@[k] is Some ==> push_reach(
            g0.nodes@,
            k,
            conf,
            g0.nodes@.len(),
            (#[trigger] g1.nodes@[k]).unwrap().current_force,
        )
}

/// Node `i`'s accumulator after the attraction pass has folded the first `k`
/// edge slots of the incoming sweep: each enabled edge whose effective
/// target is `i` pulls it toward the source.
pub open spec fn pull_in_acc(
    edges: Seq<Option<Edge>>,
    i: int,
    conf: PullForceConfig,
    k: nat,
    f0: Vec2,
) -> Vec2
    decreases k,
{
    if k == 0 {
        f0
    } else {
        let f = pull_in_acc(edges, i, conf, (k - 1) as nat, f0);
        match edges[k - 1] {
            Some(ed) => if eff_to_id(ed) == i {
                sub_clamped_spec(f, pull_force_spec(ed, conf), FORCE_LIMIT as int)
            } else {
                f
            },
            None => f,
        }
    }
}

/// Node `i`'s accumulator after the outgoing sweep: each enabled edge whose
/// effective source is `i` pulls it toward the target.
pub open spec fn pull_out_acc(
    edges: Seq<Option<Edge>>,
    i: int,
    conf: PullForceConfig,
    k: nat,
    f0: Vec2,
) -> Vec2
    decreases k,
{
    if k == 0 {
        f0
    } else {
        let f = pull_out_acc(edges, i, conf, (k - 1) as nat, f0);
        match edges[k - 1] {
            Some(ed) => if eff_from_id(ed) == i {
                add_clamped_spec(f, pull_force_spec(ed, conf), FORCE_LIMIT as int)
            } else {
                f
            },
            None => f,
        }
    }
}

/// What the attraction pass does: each stored node's accumulator takes the
/// incoming sweep and then the outgoing one; everything else is untouched.
pub open spec fn pull_force_rel(g0: Graph, g1: Graph, conf: PullForceConfig) -> bool {
    &&& g1.edges@ == g0.edges@
    &&& g1.nodes@.len() == g0.nodes@.len()
    &&& forall|k: int|
        0 <= k < g0.nodes@.len() ==> ((#[trigger] g1.nodes@[k]) is Some <==> g0.nodes@[k] is Some)
    &&& forall|k: int|
        0 <= k < g0.nodes@.len() && g0.nodes@[k] is Some ==> (#[trigger] g1.nodes@[k]).unwrap()
            == (Node {
            current_force: pull_out_acc(
                g0.edges@,
                k,
                conf,
                g0.edges@.len(),
                pull_in_acc(
                    g0.edges@,
                    k,
                    conf,
                    g0.edges@.len(),
                    g0.nodes@[k].unwrap().current_force,
                ),
            ),
            ..g0.nodes@[k].unwrap()
        })
}

/// What the integration pass does: every stored node takes one integration
/// step, and every stored edge's cached geometry is refreshed from the final
/// positions.
pub open spec fn integrate_rel(g0: Graph, g1: Graph, dt: int) -> bool {
    &&& g1.nodes@.len() == g0.nodes@.len()
    &&& g1.edges@.len() == g0.edges@.len()
    &&& forall|k: int|
        0 <= k < g0.nodes@.len() ==> g1.nodes@[k] == (match #[trigger] g0.nodes@[k] {
            Some(n) => Some(integrate_spec(n, dt)),
            None => None,
        })
    &&& forall|e: int|
        0 <= e < g0.edges@.len() ==> g1.edges@[e] == (match #[trigger] g0.edges@[e] {
            Some(ed) => Some(
                Edge {
                    from_pos: g1.nodes@[ed.from as int].unwrap().position,
                    to_pos: g1.nodes@[ed.to as int].unwrap().position,
                    ..ed
                },
            ),
            None => None,
        })
}

impl Graph {
    /// The repulsion pass: for every ordered pair of distinct stored nodes,
    /// accumulate the push the first receives from the second, drawing a
    /// random substitute direction wherever the two coincide.
    pub fn push_force(&mut self, push_conf: &PushForceConfig)
        requires
            old(self).wf(),
            push_conf.valid(),
        ensures
            push_force_rel(*old(self), *final(self), *push_conf),
            final(self).wf(),
    {
        let n = self.nodes.len();
        let mut i: usize = 0;
        while i < n
            invariant
                old(self).wf(),
                push_conf.valid(),
                n == self.nodes@.len(),
                old(self).nodes@.len() == n,
                i <= n,
                self.edges@ == old(self).edges@,
                forall|k: int|
                    0 <= k < n ==> ((#[trigger] self.nodes@[k]) is Some <==> old(self).nodes@[k]
                        is Some),
                forall|k: int|
                    0 <= k < n && old(self).nodes@[k] is Some ==> (
                    #[trigger] self.nodes@[k]).unwrap() == (Node {
                        current_force: self.nodes@[k].unwrap().current_force,
                        ..old(self).nodes@[k].unwrap()
                    }),
                forall|k: int|
                    0 <= k < n && old(self).nodes@[k] is Some ==> (
                    #[trigger] self.nodes@[k]).unwrap().wf(),
                forall|k: int|
                    0 <= k < i && old(self).nodes@[k] is Some ==> push_reach(
                        old(self).nodes@,
                        k,
                        *push_conf,
                        n as nat,
                        (#[trigger] self.nodes@[k]).unwrap().current_force,
                    ),
                forall|k: int|
                    i <= k < n && old(self).nodes@[k] is Some ==> (
                    #[trigger] self.nodes@[k]).unwrap().current_force == old(
                        self,
                    ).nodes@[k].unwrap().current_force,
            decreases n - i,
        {
            let mut nd = match self.nodes[i] {
                Some(nd) => nd,
                None => {
                    i += 1;
                    continue ;
                },
            };
            let ghost mut dirs: Seq<Vec2> = Seq::empty();
            let mut j: usize = 0;
            while j < n
                invariant
                    old(self).wf(),
                    push_conf.valid(),
                    n == self.nodes@.len(),
                    old(self).nodes@.len() == n,
                    i < n,
                    j <= n,
                    old(self).nodes@[i as int] is Some,
                    forall|k: int|
                        0 <= k < n ==> ((#[trigger] self.nodes@[k]) is Some <==> old(
                            self,
                        ).nodes@[k] is Some),
                    forall|k: int|
                        0 <= k < n && old(self).nodes@[k] is Some ==> (
                        #[trigger] self.nodes@[k]).unwrap() == (Node {
                            current_force: self.nodes@[k].unwrap().current_force,
                            ..old(self).nodes@[k].unwrap()
                        }),
                    nd == (Node { current_force: nd.current_force, ..old(
                        self,
                    ).nodes@[i as int].unwrap() }),
                    nd.wf(),
                    dirs.len() == j,
                    valid_dirs(dirs),
                    nd.current_force == push_fold(
                        old(self).nodes@,
                        i as int,
                        *push_conf,
                        dirs,
                        j as nat,
                    ),
                decreases n - j,
            {
                let skip = if j == i {
                    true
                } else {
                    match &self.nodes[j] {
                        Some(_) => false,
                        None => true,
                    }
                };
                if skip {
                    proof {
                        let dir = Vec2 { x: 1000, y: 0 };
                        lemma_push_fold_extend(
                            old(self).nodes@,
                            i as int,
                            *push_conf,
                            dirs,
                            dir,
                            j as nat,
                        );
                        dirs = dirs.push(dir);
                        assert(valid_dir(dir));
                        assert forall|t: int| 0 <= t < dirs.len() implies valid_dir(
                            #[trigger] dirs[t],
                        ) by {}
                        assert(dirs[j as int] == dir);
                        assert(nd.current_force == push_fold(
                            old(self).nodes@,
                            i as int,
                            *push_conf,
                            dirs,
                            (j + 1) as nat,
                        ));
                    }
                    j += 1;
                    continue ;
                }
                let other_pos = match self.nodes[j] {
                    Some(o) => o.position,
                    None => {
                        j += 1;
                        continue ;
                    },
                };
                let dir = if nd.position.x == other_pos.x && nd.position.y == other_pos.y {
                    random_direction()
                } else {
                    Vec2 { x: 1000, y: 0 }
                };
                let ghost prev = nd.current_force;
                nd.push_away_from_point(other_pos, push_conf, dir);
                proof {
                    assert(other_pos == old(self).nodes@[j as int].unwrap().position);
                    assert(valid_dir(dir));
                    lemma_push_fold_extend(
                        old(self).nodes@,
                        i as int,
                        *push_conf,
                        dirs,
                        dir,
                        j as nat,
                    );
                    dirs = dirs.push(dir);
                    assert forall|t: int| 0 <= t < dirs.len() implies valid_dir(
                        #[trigger] dirs[t],
                    ) by {}
                    assert(dirs[j as int] == dir);
                    assert(nd.current_force == push_step_spec(
                        old(self).nodes@,
                        i as int,
                        *push_conf,
                        j as int,
                        prev,
                        dir,
                    ));
                    assert(nd.current_force == push_fold(
                        old(self).nodes@,
                        i as int,
                        *push_conf,
                        dirs,
                        (j + 1) as nat,
                    ));
                }
                j += 1;
            }
            proof {
                assert(push_reach(
                    old(self).nodes@,
                    i as int,
                    *push_conf,
                    n as nat,
                    nd.current_force,
                ));
            }
            self.nodes[i] = Some(nd);
            i += 1;
        }
    }

    /// The attraction pass: every stored node takes the pull of its enabled
    /// incident edges, incoming sweep first, both in edge-slot order.
    pub fn pull_force(&mut self, pull_conf: &PullForceConfig)
        requires
            old(self).wf(),
            pull_conf.valid(),
        ensures
            pull_force_rel(*old(self), *final(self), *pull_conf),
            final(self).wf(),
    {
        let n = self.nodes.len();
        let m = self.edges.len();
        let mut i: usize = 0;
        while i < n
            invariant
                old(self).wf(),
                pull_conf.valid(),
                n == self.nodes@.len(),
                old(self).nodes@.len() == n,
                m == self.edges@.len(),
                i <= n,
                self.edges@ == old(self).edges@,
                forall|k: int|
                    0 <= k < n ==> ((#[trigger] self.nodes@[k]) is Some <==> old(self).nodes@[k]
                        is Some),
                forall|k: int|
                    0 <= k < i && old(self).nodes@[k] is Some ==> (
                    #[trigger] self.nodes@[k]).unwrap() == (Node {
                        current_force: pull_out_acc(
                            old(self).edges@,
                            k,
                            *pull_conf,
                            m as nat,
                            pull_in_acc(
                                old(self).edges@,
                                k,
                                *pull_conf,
                                m as nat,
                                old(self).nodes@[k].unwrap().current_force,
                            ),
                        ),
                        ..old(self).nodes@[k].unwrap()
                    }),
                forall|k: int|
                    i <= k < n && old(self).nodes@[k] is Some ==> (#[trigger] self.nodes@[k])
                        == old(self).nodes@[k],
                forall|k: int|
                    0 <= k < n && old(self).nodes@[k] is Some ==> (
                    #[trigger] self.nodes@[k]).unwrap().wf(),
            decreases n - i,
        {
            let mut nd = match self.nodes[i] {
                Some(nd) => nd,
                None => {
                    i += 1;
                    continue ;
                },
            };
            let ghost f0 = nd.current_force;
            let mut e: usize = 0;
            while e < m
                invariant
                    old(self).wf(),
                    pull_conf.valid(),
                    m == self.edges@.len(),
                    self.edges@ == old(self).edges@,
                    e <= m,
                    i < old(self).nodes@.len(),
                    old(self).nodes@[i as int] is Some,
                    nd == (Node { current_force: nd.current_force, ..old(
                        self,
                    ).nodes@[i as int].unwrap() }),
                    nd.wf(),
                    nd.current_force == pull_in_acc(
                        old(self).edges@,
                        i as int,
                        *pull_conf,
                        e as nat,
                        f0,
                    ),
                    f0 == old(self).nodes@[i as int].unwrap().current_force,
                decreases m - e,
            {
                let pull = match &self.edges[e] {
                    Some(ed) => if (if ed.reversed {
                        ed.from
                    } else {
                        ed.to
                    }) == i {
                        proof {
                            crate::edge::lemma_pull_force_bounded(*ed, *pull_conf);
                        }
                        Some(ed.calculate_pull_force(pull_conf))
                    } else {
                        None
                    },
                    None => None,
                };
                match pull {
                    Some(f) => {
                        nd.current_force = sub_clamped(nd.current_force, f, FORCE_LIMIT);
                    },
                    None => (),
                }
                e += 1;
            }
            let ghost f1 = nd.current_force;
            let mut e: usize = 0;
            while e < m
                invariant
                    old(self).wf(),
                    pull_conf.valid(),
                    m == self.edges@.len(),
                    self.edges@ == old(self).edges@,
                    e <= m,
                    i < old(self).nodes@.len(),
                    old(self).nodes@[i as int] is Some,
                    nd == (Node { current_force: nd.current_force, ..old(
                        self,
                    ).nodes@[i as int].unwrap() }),
                    nd.wf(),
                    nd.current_force == pull_out_acc(
                        old(self).edges@,
                        i as int,
                        *pull_conf,
                        e as nat,
                        f1,
                    ),
                    f1 == pull_in_acc(old(self).edges@, i as int, *pull_conf, m as nat, f0),
                    f0 == old(self).nodes@[i as int].unwrap().current_force,
                decreases m - e,
            {
                let pull = match &self.edges[e] {
                    Some(ed) => if (if ed.reversed {
                        ed.to
                    } else {
                        ed.from
                    }) == i {
                        proof {
                            crate::edge::lemma_pull_force_bounded(*ed, *pull_conf);
                        }
                        Some(ed.calculate_pull_force(pull_conf))
                    } else {
                        None
                    },
                    None => None,
                };
                match pull {
                    Some(f) => {
                        nd.current_force = add_clamped(nd.current_force, f, FORCE_LIMIT);
                    },
                    None => (),
                }
                e += 1;
            }
            self.nodes[i] = Some(nd);
            i += 1;
        }
    }

    /// The integration pass: every unpinned node moves by its accumulated
    /// force, every accumulator is discarded, and every stored edge's cached
    /// geometry is refreshed.
    pub fn consume_forces(&mut self, dt: u64)
        requires
            old(self).wf(),
            dt <= DT_LIMIT,
        ensures
            integrate_rel(*old(self), *final(self), dt as int),
            final(self).wf(),
    {
        let n = self.nodes.len();
        let mut i: usize = 0;
        while i < n
            invariant
                old(self).wf(),
                dt <= DT_LIMIT,
                n == self.nodes@.len(),
                old(self).nodes@.len() == n,
                i <= n,
                self.edges@ == old(self).edges@,
                forall|k: int|
                    0 <= k < i ==> self.nodes@[k] == (match #[trigger] old(self).nodes@[k] {
                        Some(nd) => Some(integrate_spec(nd, dt as int)),
                        None => None,
                    }),
                forall|k: int| i <= k < n ==> self.nodes@[k] == old(self).nodes@[k],
                forall|k: int|
                    0 <= k < n && self.nodes@[k] is Some ==> (
                    #[trigger] self.nodes@[k]).unwrap().wf(),
            decreases n - i,
        {
            match self.nodes[i] {
                Some(mut nd) => {
                    nd.consume_force(dt);
                    self.nodes[i] = Some(nd);
                },
                None => (),
            }
            i += 1;
        }
        proof {
            assert forall|k: int|
                0 <= k < n implies ((#[trigger] self.nodes@[k]) is Some <==> old(self).nodes@[k]
                    is Some) by {}
        }
        let ghost nodes1 = self.nodes@;
        let m = self.edges.len();
        let mut e: usize = 0;
        while e < m
            invariant
                old(self).wf(),
                self.nodes@ == nodes1,
                nodes1.len() == old(self).nodes@.len(),
                forall|k: int|
                    0 <= k < nodes1.len() ==> nodes1[k] == (match #[trigger] old(
                        self,
                    ).nodes@[k] {
                        Some(nd) => Some(integrate_spec(nd, dt as int)),
                        None => None,
                    }),
                forall|k: int|
                    0 <= k < nodes1.len() && nodes1[k] is Some ==> (
                    #[trigger] nodes1[k]).unwrap().wf(),
                m == self.edges@.len(),
                old(self).edges@.len() == m,
                e <= m,
                forall|k: int|
                    0 <= k < e ==> self.edges@[k] == (match #[trigger] old(self).edges@[k] {
                        Some(ed) => Some(
                            Edge {
                                from_pos: nodes1[ed.from as int].unwrap().position,
                                to_pos: nodes1[ed.to as int].unwrap().position,
                                ..ed
                            },
                        ),
                        None => None,
                    }),
                forall|k: int| e <= k < m ==> self.edges@[k] == old(self).edges@[k],
            decreases m - e,
        {
            let touch = match &self.edges[e] {
                Some(_) => true,
                None => false,
            };
            if touch {
                let mut ed = match self.edges[e] {
                    Some(ed) => ed,
                    None => { return },
                };
                proof {
                    assert(old(self).edges@[e as int] is Some);
                    assert(nodes1[ed.from as int] == (match old(self).nodes@[ed.from as int] {
                        Some(nd) => Some(integrate_spec(nd, dt as int)),
                        None => None,
                    }));
                    assert(nodes1[ed.to as int] == (match old(self).nodes@[ed.to as int] {
                        Some(nd) => Some(integrate_spec(nd, dt as int)),
                        None => None,
                    }));
                }
                let fp = match &self.nodes[ed.from] {
                    Some(nf) => nf.position,
                    None => { return },
                };
                let tp = match &self.nodes[ed.to] {
                    Some(nt) => nt.position,
                    None => { return },
                };
                ed.update_position(fp, tp);
                self.edges[e] = Some(ed);
            }
            e += 1;
        }
        proof {
            assert forall|k: int|
                0 <= k < self.edges@.len() && self.edges@[k] is Some implies {
                let ed = (#[trigger] self.edges@[k]).unwrap();
                &&& ed.wf()
                &&& ed.from < self.nodes@.len()
                &&& ed.to < self.nodes@.len()
                &&& self.nodes@[ed.from as int] is Some
                &&& self.nodes@[ed.to as int] is Some
            } by {
                assert(old(self).edges@[k] is Some);
                let oed = old(self).edges@[k].unwrap();
                assert(nodes1[oed.from as int] == (match old(self).nodes@[oed.from as int] {
                    Some(nd) => Some(integrate_spec(nd, dt as int)),
                    None => None,
                }));
                assert(nodes1[oed.to as int] == (match old(self).nodes@[oed.to as int] {
                    Some(nd) => Some(integrate_spec(nd, dt as int)),
                    None => None,
                }));
            }
        }
    }

    /// One full layout tick: repulsion, attraction, then integration.
    pub fn update_layout(&mut self, dt: u64, push_conf: &PushForceConfig, pull_conf: &PullForceConfig)
        requires
            old(self).wf(),
            dt <= DT_LIMIT,
            push_conf.valid(),
            pull_conf.valid(),
        ensures
            exists|g1: Graph, g2: Graph|
                push_force_rel(*old(self), g1, *push_conf) && pull_force_rel(g1, g2, *pull_conf)
                    && integrate_rel(g2, *final(self), dt as int),
            final(self).wf(),
    {
        self.push_force(push_conf);
        let ghost g1 = *self;
        self.pull_force(pull_conf);
        let ghost g2 = *self;
        self.consume_forces(dt);
        proof {
            assert(push_force_rel(*old(self), g1, *push_conf) && pull_force_rel(g1, g2, *pull_conf)
                && integrate_rel(g2, *self, dt as int));
        }
    }
}

/// The free function the frame driver calls: one layout tick over the store.
pub fn layout_update(
    graph: &mut Graph,
    dt: u64,
    push_conf: &PushForceConfig,
    pull_conf: &PullForceConfig,
)
    requires
        old(graph).wf(),
        dt <= DT_LIMIT,
        push_conf.valid(),
        pull_conf.valid(),
    ensures
        exists|g1: Graph, g2: Graph|
            push_force_rel(*old(graph), g1, *push_conf) && pull_force_rel(g1, g2, *pull_conf)
                && integrate_rel(g2, *final(graph), dt as int),
        final(graph).wf(),
{
    graph.update_layout(dt, push_conf, pull_conf);
}

} // verus!
