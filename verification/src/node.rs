//! Nodes of the graph store: a canvas position, a saturating force
//! accumulator, the visitation state shown during algorithm playback, and
//! display attributes.

use vstd::prelude::*;

use crate::color::{self, Color};
use crate::geom::{
    self, abs_spec, add_clamped, add_clamped_spec, dist2_spec, dist_spec, distance,
    in_bounds_spec, mul_div, mul_div_spec, Vec2, FORCE_LIMIT, POS_LIMIT,
};
use crate::gravity::PushForceConfig;

verus! {

/// Default node radius, in canvas units.
pub const BASE_RADIUS: i64 = 20;

/// Norm by which substitute directions are scaled: a substitute direction is
/// an approximate unit vector times this value.
pub const DIR_NORM: i64 = 1000;

/// Where a node stands in the currently replayed traversal.
#[derive(Clone, Copy, PartialEq, Eq, Structural, Debug)]
pub enum NodeState {
    Visited,
    Queued,
    NotVisited,
}

/// Whether the UI currently highlights a node.
#[derive(Clone, Copy, PartialEq, Eq, Structural, Debug)]
pub enum NodeHighlight {
    Highlighted,
    Normal,
}

/// The display color a visitation state maps to.
pub open spec fn state_color(s: NodeState) -> Color {
    match s {
        NodeState::Visited => color::green(),
        NodeState::Queued => color::queued_gray(),
        NodeState::NotVisited => color::white(),
    }
}

#[derive(Clone, Copy, PartialEq, Eq, Structural, Debug)]
pub struct Node {
    pub position: Vec2,
    pub radius: i64,
    pub color: Color,
    pub highlight: NodeHighlight,
    pub state: NodeState,
    pub current_force: Vec2,
    pub ignore_force: bool,
}

/// A point is inside a node when its squared distance to the center is at
/// most the squared radius.
pub open spec fn contains_spec(n: Node, point: Vec2) -> bool {
    dist2_spec(point, n.position) <= n.radius * n.radius
}

/// One repulsion contribution: zero beyond the falloff radius, otherwise the
/// configured force scaled linearly down with distance, directed away from
/// `point`; at zero distance the substitute direction `dir` is used instead.
pub open spec fn push_contrib_spec(
    self_pos: Vec2,
    point: Vec2,
    conf: PushForceConfig,
    dir: Vec2,
) -> Vec2 {
    let d = dist_spec(self_pos, point);
    if d >= conf.distance {
        Vec2 { x: 0, y: 0 }
    } else {
        let mag = mul_div_spec(conf.force as int, conf.distance - d, conf.distance as int);
        if d == 0 {
            Vec2 {
                x: mul_div_spec(dir.x as int, mag, DIR_NORM as int) as i64,
                y: mul_div_spec(dir.y as int, mag, DIR_NORM as int) as i64,
            }
        } else {
            Vec2 {
                x: mul_div_spec(self_pos.x - point.x, mag, d) as i64,
                y: mul_div_spec(self_pos.y - point.y, mag, d) as i64,
            }
        }
    }
}

/// Repulsion between two coincident nodes is defined and finite: it is the
/// substitute direction scaled by the full configured force, every component
/// bounded by that force.
pub proof fn lemma_push_coincident_defined(pos: Vec2, conf: PushForceConfig, dir: Vec2)
    requires
        in_bounds_spec(pos, POS_LIMIT as int),
        conf.valid(),
        valid_dir(dir),
    ensures
        push_contrib_spec(pos, pos, conf, dir) == (Vec2 {
            x: mul_div_spec(dir.x as int, conf.force as int, DIR_NORM as int) as i64,
            y: mul_div_spec(dir.y as int, conf.force as int, DIR_NORM as int) as i64,
        }),
        in_bounds_spec(push_contrib_spec(pos, pos, conf, dir), if conf.force >= 0 {
            conf.force as int
        } else {
            -(conf.force as int)
        }),
{
    geom::lemma_dist2_bounds(pos, pos);
    geom::lemma_sqrt_floor_is_sqrt(0);
    assert(dist_spec(pos, pos) == 0);
    let f = conf.force as int;
    let d = conf.distance as int;
    vstd::arithmetic::div_mod::lemma_div_multiples_vanish(f, d);
    vstd::arithmetic::div_mod::lemma_div_multiples_vanish(-f, d);
    assert(f * d == d * f) by (nonlinear_arith);
    assert((-f) * d == -(f * d)) by (nonlinear_arith);
    assert(mul_div_spec(f, d - 0, d) == f);
    geom::lemma_mul_div_bound(dir.x as int, f, DIR_NORM as int);
    geom::lemma_mul_div_bound(dir.y as int, f, DIR_NORM as int);
}

/// Any repulsion contribution is finite: each component is bounded by the
/// configured force's magnitude.
pub proof fn lemma_push_contrib_bounded(
    self_pos: Vec2,
    point: Vec2,
    conf: PushForceConfig,
    dir: Vec2,
)
    requires
        in_bounds_spec(self_pos, POS_LIMIT as int),
        in_bounds_spec(point, POS_LIMIT as int),
        conf.valid(),
        valid_dir(dir),
    ensures
        in_bounds_spec(push_contrib_spec(self_pos, point, conf, dir), if conf.force >= 0 {
            conf.force as int
        } else {
            -(conf.force as int)
        }),
{
    let d = dist_spec(self_pos, point);
    geom::lemma_dist2_bounds(self_pos, point);
    geom::lemma_sqrt_floor_is_sqrt(dist2_spec(self_pos, point));
    if d < conf.distance {
        let mag = mul_div_spec(conf.force as int, conf.distance - d, conf.distance as int);
        geom::lemma_mul_div_flip(conf.force as int, conf.distance - d, conf.distance as int);
        geom::lemma_mul_div_bound(conf.distance - d, conf.force as int, conf.distance as int);
        if d == 0 {
            geom::lemma_mul_div_bound(dir.x as int, mag, DIR_NORM as int);
            geom::lemma_mul_div_bound(dir.y as int, mag, DIR_NORM as int);
        } else {
            geom::lemma_component_le_dist(self_pos, point);
            geom::lemma_mul_div_bound(self_pos.x - point.x, mag, d);
            geom::lemma_mul_div_bound(self_pos.y - point.y, mag, d);
        }
    }
}

/// A substitute direction as handed to the repulsion step: bounded by the
/// direction norm and not the zero vector.
pub open spec fn valid_dir(dir: Vec2) -> bool {
    &&& -DIR_NORM <= dir.x <= DIR_NORM
    &&& -DIR_NORM <= dir.y <= DIR_NORM
    &&& !(dir.x == 0 && dir.y == 0)
}

/// The position delta one integration step adds: force times the frame delta
/// in milliseconds, divided by one thousand.
pub open spec fn force_delta_spec(f: Vec2, dt: int) -> Vec2 {
    Vec2 {
        x: mul_div_spec(f.x as int, dt, 1000) as i64,
        y: mul_div_spec(f.y as int, dt, 1000) as i64,
    }
}

/// A node after one integration step: pinned nodes only discard their force;
/// free nodes move by the force delta, clamped into the canvas bounds.
pub open spec fn integrate_spec(n: Node, dt: int) -> Node {
    if n.ignore_force {
        Node { current_force: Vec2 { x: 0, y: 0 }, ..n }
    } else {
        Node {
            position: add_clamped_spec(
                n.position,
                force_delta_spec(n.current_force, dt),
                POS_LIMIT as int,
            ),
            current_force: Vec2 { x: 0, y: 0 },
            ..n
        }
    }
}

/// The display color a visitation state maps to.
pub fn color_for_state(state: NodeState) -> (c: Color)
    ensures
        c == state_color(state),
{
    match state {
        NodeState::Visited => Color::green(),
        NodeState::Queued => Color::queued_gray(),
        NodeState::NotVisited => Color::white(),
    }
}

/// The value a freshly added node carries.
pub open spec fn fresh_node_spec(position: Vec2) -> Node {
    Node {
        position,
        radius: BASE_RADIUS,
        color: color::white(),
        highlight: NodeHighlight::Normal,
        state: NodeState::NotVisited,
        current_force: Vec2 { x: 0, y: 0 },
        ignore_force: false,
    }
}

impl Node {
    /// Structural bounds every stored node keeps.
    pub open spec fn wf(self) -> bool {
        &&& in_bounds_spec(self.position, POS_LIMIT as int)
        &&& in_bounds_spec(self.current_force, FORCE_LIMIT as int)
        &&& 1 <= self.radius <= 0x10_0000
    }

    pub fn new(position: Vec2) -> (n: Node)
        requires
            in_bounds_spec(position, POS_LIMIT as int),
        ensures
            n == fresh_node_spec(position),
            n.wf(),
    {
        Node {
            position,
            radius: BASE_RADIUS,
            color: Color::white(),
            highlight: NodeHighlight::Normal,
            state: NodeState::NotVisited,
            current_force: Vec2::zero(),
            ignore_force: false,
        }
    }

    /// Is the point inside this node's circle?
    pub fn contains(&self, point: Vec2) -> (r: bool)
        requires
            self.wf(),
            in_bounds_spec(point, POS_LIMIT as int),
        ensures
            r == contains_spec(*self, point),
    {
        proof {
            geom::lemma_dist2_bounds(point, self.position);
            assert(1 <= self.radius * self.radius <= 0x100_0000_0000) by (nonlinear_arith)
                requires
                    1 <= self.radius <= 0x10_0000,
            ;
        }
        let dx = point.x - self.position.x;
        let dy = point.y - self.position.y;
        proof {
            assert(0 <= (dx as int) * (dx as int) <= 0x1000_0000_0000_0000) by (nonlinear_arith)
                requires
                    -0x4000_0000 <= (dx as int) && (dx as int) <= 0x4000_0000,
            ;
            assert(0 <= (dy as int) * (dy as int) <= 0x1000_0000_0000_0000) by (nonlinear_arith)
                requires
                    -0x4000_0000 <= (dy as int) && (dy as int) <= 0x4000_0000,
            ;
        }
        dx * dx + dy * dy <= self.radius * self.radius
    }

    pub fn color(&self) -> (c: Color)
        ensures
            c == self.color,
    {
        self.color
    }

    pub fn set_color(&mut self, color: Color)
        ensures
            *final(self) == (Node { color, ..*old(self) }),
    {
        self.color = color;
    }

    pub fn set_highlight(&mut self, highlight: NodeHighlight)
        ensures
            *final(self) == (Node { highlight, ..*old(self) }),
    {
        self.highlight = highlight;
    }

    pub fn set_state(&mut self, state: NodeState)
        ensures
            *final(self) == (Node { state, ..*old(self) }),
    {
        self.state = state;
    }

    pub fn get_state(&self) -> (s: NodeState)
        ensures
            s == self.state,
    {
        self.state
    }

    pub fn position(&self) -> (p: Vec2)
        ensures
            p == self.position,
    {
        self.position
    }

    pub fn set_position(&mut self, position: Vec2)
        requires
            in_bounds_spec(position, POS_LIMIT as int),
        ensures
            *final(self) == (Node { position, ..*old(self) }),
    {
        self.position = position;
    }

    /// Accumulate a force contribution, saturating at the force limit.
    pub fn add_force(&mut self, force: Vec2)
        requires
            old(self).wf(),
            in_bounds_spec(force, 0x1000_0000_0000_0000),
        ensures
            *final(self) == (Node {
                current_force: add_clamped_spec(
                    old(self).current_force,
                    force,
                    FORCE_LIMIT as int,
                ),
                ..*old(self)
            }),
            final(self).wf(),
    {
        self.current_force = add_clamped(self.current_force, force, FORCE_LIMIT);
    }

    /// Accumulate the repulsion this node receives from a single point;
    /// `dir` substitutes for the undefined direction when the positions
    /// coincide.
    pub fn push_away_from_point(&mut self, point: Vec2, push_conf: &PushForceConfig, dir: Vec2)
        requires
            old(self).wf(),
            in_bounds_spec(point, POS_LIMIT as int),
            push_conf.valid(),
            valid_dir(dir),
        ensures
            *final(self) == (Node {
                current_force: add_clamped_spec(
                    old(self).current_force,
                    push_contrib_spec(old(self).position, point, *push_conf, dir),
                    FORCE_LIMIT as int,
                ),
                ..*old(self)
            }),
            final(self).wf(),
    {
        let d = distance(self.position, point);
        if d >= push_conf.distance {
            self.add_force(Vec2::zero());
        } else {
            proof {
                geom::lemma_mul_div_bound(
                    (push_conf.distance - d) as int,
                    push_conf.force as int,
                    push_conf.distance as int,
                );
                geom::lemma_mul_div_flip(
                    push_conf.force as int,
                    (push_conf.distance - d) as int,
                    push_conf.distance as int,
                );
            }
            let mag = mul_div(push_conf.force, push_conf.distance - d, push_conf.distance);
            if d == 0 {
                proof {
                    geom::lemma_mul_div_bound(dir.x as int, mag as int, DIR_NORM as int);
                    geom::lemma_mul_div_bound(dir.y as int, mag as int, DIR_NORM as int);
                }
                let f = Vec2 {
                    x: mul_div(dir.x, mag, DIR_NORM),
                    y: mul_div(dir.y, mag, DIR_NORM),
                };
                self.add_force(f);
            } else {
                proof {
                    geom::lemma_component_le_dist(old(self).position, point);
                    geom::lemma_mul_div_bound(
                        old(self).position.x - point.x,
                        mag as int,
                        d as int,
                    );
                    geom::lemma_mul_div_bound(
                        old(self).position.y - point.y,
                        mag as int,
                        d as int,
                    );
                }
                let f = Vec2 {
                    x: mul_div(self.position.x - point.x, mag, d),
                    y: mul_div(self.position.y - point.y, mag, d),
                };
                self.add_force(f);
            }
        }
    }

    /// One integration step: move by the accumulated force (unless pinned)
    /// and discard the accumulator.
    pub fn consume_force(&mut self, dt: u64)
        requires
            old(self).wf(),
            dt <= geom::DT_LIMIT,
        ensures
            *final(self) == integrate_spec(*old(self), dt as int),
            final(self).wf(),
    {
        if self.ignore_force {
            self.current_force = Vec2::zero();
        } else {
            proof {
                geom::lemma_mul_div_product_bound(
                    self.current_force.x as int,
                    dt as int,
                    1000,
                );
                geom::lemma_mul_div_product_bound(
                    self.current_force.y as int,
                    dt as int,
                    1000,
                );
                assert(abs_spec(self.current_force.x as int) * abs_spec(dt as int)
                    <= 0x100_0000_0000 * 0x10_0000) by (nonlinear_arith)
                    requires
                        abs_spec(self.current_force.x as int) <= 0x100_0000_0000,
                        0 <= abs_spec(dt as int) <= 0x10_0000,
                ;
                assert(abs_spec(self.current_force.y as int) * abs_spec(dt as int)
                    <= 0x100_0000_0000 * 0x10_0000) by (nonlinear_arith)
                    requires
                        abs_spec(self.current_force.y as int) <= 0x100_0000_0000,
                        0 <= abs_spec(dt as int) <= 0x10_0000,
                ;
            }
            let delta = Vec2 {
                x: mul_div(self.current_force.x, dt as i64, 1000),
                y: mul_div(self.current_force.y, dt as i64, 1000),
            };
            self.position = add_clamped(self.position, delta, POS_LIMIT);
            self.current_force = Vec2::zero();
        }
    }

    /// Pin or release the node; either way the pending force is discarded.
    pub fn set_ignore_force(&mut self, value: bool)
        ensures
            *final(self) == (Node {
                ignore_force: value,
                current_force: Vec2 { x: 0, y: 0 },
                ..*old(self)
            }),
    {
        self.ignore_force = value;
        self.current_force = Vec2::zero();
    }
}

} // verus!
