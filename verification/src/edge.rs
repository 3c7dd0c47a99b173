//! Edges of the graph store: an ordered pair of node handles, cached endpoint
//! geometry, and the enabled/reversed display flags consumed by playback.

use vstd::prelude::*;

use crate::color::{self, Color};
use crate::geom::{
    self, abs_spec, dist_spec, distance, in_bounds_spec, mul_div, mul_div_spec, Vec2, POS_LIMIT,
};
use crate::gravity::PullForceConfig;

verus! {

/// Half the doubled maximum cross product accepted by the edge hit test:
/// three times the stroke width, so clicks within one and a half strokes of
/// the segment hit it.
pub const HIT_STROKE_SPAN: i64 = 15;

#[derive(Clone, Copy, PartialEq, Eq, Structural, Debug)]
pub struct Edge {
    /// Handle of the stored source node.
    pub from: usize,
    /// Handle of the stored target node.
    pub to: usize,
    /// Cached position of the source node, refreshed when a node moves.
    pub from_pos: Vec2,
    /// Cached position of the target node.
    pub to_pos: Vec2,
    pub color: Color,
    /// Disabled edges pull nothing and render translucent.
    pub enabled: bool,
    /// A reversed edge swaps which endpoint acts as the source for rendering
    /// and force computation; the stored topology is untouched.
    pub reversed: bool,
}

/// The handle of the endpoint currently acting as the source.
pub open spec fn eff_from_id(e: Edge) -> usize {
    if e.reversed {
        e.to
    } else {
        e.from
    }
}

/// The handle of the endpoint currently acting as the target.
pub open spec fn eff_to_id(e: Edge) -> usize {
    if e.reversed {
        e.from
    } else {
        e.to
    }
}

/// The cached position of the endpoint currently acting as the source.
pub open spec fn eff_from_pos(e: Edge) -> Vec2 {
    if e.reversed {
        e.to_pos
    } else {
        e.from_pos
    }
}

/// The cached position of the endpoint currently acting as the target.
pub open spec fn eff_to_pos(e: Edge) -> Vec2 {
    if e.reversed {
        e.from_pos
    } else {
        e.to_pos
    }
}

/// The attraction an enabled edge exerts, directed from its effective source
/// toward its effective target: zero under the minimum distance, and growing
/// linearly so that it equals the configured force at twice that distance.
pub open spec fn pull_force_spec(e: Edge, conf: PullForceConfig) -> Vec2 {
    if !e.enabled {
        Vec2 { x: 0, y: 0 }
    } else {
        let f = eff_from_pos(e);
        let t = eff_to_pos(e);
        let d = dist_spec(f, t);
        if d < conf.min_distance {
            Vec2 { x: 0, y: 0 }
        } else {
            let mag = mul_div_spec(
                conf.force_at_twice_distance as int,
                d - conf.min_distance,
                conf.min_distance as int,
            );
            Vec2 {
                x: mul_div_spec(t.x - f.x, mag, d) as i64,
                y: mul_div_spec(t.y - f.y, mag, d) as i64,
            }
        }
    }
}

/// The scalar magnitude of the attraction an edge at distance `d` exerts.
pub open spec fn pull_magnitude_spec(d: int, conf: PullForceConfig) -> int {
    if d < conf.min_distance {
        0
    } else {
        mul_div_spec(conf.force_at_twice_distance as int, d - conf.min_distance, conf.min_distance as int)
    }
}

/// An enabled edge shorter than the minimum distance pulls exactly nothing.
pub proof fn lemma_pull_zero_below_min(e: Edge, conf: PullForceConfig)
    requires
        conf.valid(),
        dist_spec(eff_from_pos(e), eff_to_pos(e)) < conf.min_distance,
    ensures
        pull_force_spec(e, conf) == (Vec2 { x: 0, y: 0 }),
{
}

/// At exactly twice the minimum distance the pull magnitude equals the
/// configured force exactly.
pub proof fn lemma_pull_exact_at_twice_min(d: int, conf: PullForceConfig)
    requires
        conf.valid(),
        d == 2 * conf.min_distance,
    ensures
        pull_magnitude_spec(d, conf) == conf.force_at_twice_distance,
{
    let f = conf.force_at_twice_distance as int;
    let m = conf.min_distance as int;
    assert(d - m == m);
    vstd::arithmetic::div_mod::lemma_div_multiples_vanish(f, m);
    vstd::arithmetic::div_mod::lemma_div_multiples_vanish(-f, m);
    assert(f * m == m * f) by (nonlinear_arith);
    assert((-f) * m == -(f * m)) by (nonlinear_arith);
}

/// Every component of the pull force stays under this bound.
pub proof fn lemma_pull_force_bounded(e: Edge, conf: PullForceConfig)
    requires
        e.wf(),
        conf.valid(),
    ensures
        in_bounds_spec(pull_force_spec(e, conf), 0x1000_0000_0000_0000),
{
    if e.enabled {
        let f = eff_from_pos(e);
        let t = eff_to_pos(e);
        let d = dist_spec(f, t);
        geom::lemma_dist2_bounds(f, t);
        geom::lemma_sqrt_floor_is_sqrt(geom::dist2_spec(f, t));
        if d >= conf.min_distance {
            assert(d < 0x8000_0000) by {
                assert(0x8000_0000 * 0x8000_0000 > geom::dist2_spec(f, t)) by (nonlinear_arith)
                    requires
                        geom::dist2_spec(f, t) < 0x4000_0000_0000_0000,
                ;
                if d >= 0x8000_0000 {
                    assert(d * d >= 0x8000_0000 * 0x8000_0000) by (nonlinear_arith)
                        requires
                            d >= 0x8000_0000,
                    ;
                }
            }
            let mag = mul_div_spec(
                conf.force_at_twice_distance as int,
                d - conf.min_distance,
                conf.min_distance as int,
            );
            geom::lemma_mul_div_product_bound(
                conf.force_at_twice_distance as int,
                d - conf.min_distance,
                conf.min_distance as int,
            );
            assert(abs_spec(conf.force_at_twice_distance as int) * abs_spec(d - conf.min_distance)
                <= 0x2000_0000 * 0x8000_0000) by (nonlinear_arith)
                requires
                    abs_spec(conf.force_at_twice_distance as int) <= 0x2000_0000,
                    0 <= abs_spec(d - conf.min_distance) <= 0x8000_0000,
            ;
            geom::lemma_component_le_dist(f, t);
            geom::lemma_mul_div_bound(t.x - f.x, mag, d);
            geom::lemma_mul_div_bound(t.y - f.y, mag, d);
        }
    }
}

/// The value a freshly connected edge carries.
pub open spec fn fresh_edge_spec(from: usize, to: usize, from_pos: Vec2, to_pos: Vec2) -> Edge {
    Edge { from, to, from_pos, to_pos, color: color::black(), enabled: true, reversed: false }
}

impl Edge {
    /// Structural bounds every stored edge keeps. Endpoint handle validity is
    /// the store's invariant, not the edge's own.
    pub open spec fn wf(self) -> bool {
        &&& in_bounds_spec(self.from_pos, POS_LIMIT as int)
        &&& in_bounds_spec(self.to_pos, POS_LIMIT as int)
    }

    pub fn new(from: usize, to: usize, from_pos: Vec2, to_pos: Vec2) -> (e: Edge)
        requires
            in_bounds_spec(from_pos, POS_LIMIT as int),
            in_bounds_spec(to_pos, POS_LIMIT as int),
        ensures
            e == fresh_edge_spec(from, to, from_pos, to_pos),
            e.wf(),
    {
        Edge {
            from,
            to,
            from_pos,
            to_pos,
            color: Color::black(),
            enabled: true,
            reversed: false,
        }
    }

    /// Refresh the cached endpoint geometry.
    pub fn update_position(&mut self, from_pos: Vec2, to_pos: Vec2)
        requires
            in_bounds_spec(from_pos, POS_LIMIT as int),
            in_bounds_spec(to_pos, POS_LIMIT as int),
        ensures
            *final(self) == (Edge { from_pos, to_pos, ..*old(self) }),
            final(self).wf(),
    {
        self.from_pos = from_pos;
        self.to_pos = to_pos;
    }

    /// Flip which endpoint acts as the source.
    pub fn reverse(&mut self)
        ensures
            *final(self) == (Edge { reversed: !old(self).reversed, ..*old(self) }),
    {
        self.reversed = !self.reversed;
    }

    pub fn disable(&mut self)
        ensures
            *final(self) == (Edge { enabled: false, ..*old(self) }),
    {
        self.enabled = false;
    }

    pub fn enable(&mut self)
        ensures
            *final(self) == (Edge { enabled: true, ..*old(self) }),
    {
        self.enabled = true;
    }

    /// Back to the default display state: enabled and unreversed.
    pub fn reset_state(&mut self)
        ensures
            *final(self) == (Edge { enabled: true, reversed: false, ..*old(self) }),
    {
        self.enabled = true;
        self.reversed = false;
    }

    /// The attraction this edge currently exerts along its effective
    /// direction.
    pub fn calculate_pull_force(&self, config: &PullForceConfig) -> (r: Vec2)
        requires
            self.wf(),
            config.valid(),
        ensures
            r == pull_force_spec(*self, *config),
    {
        if !self.enabled {
            return Vec2::zero();
        }
        let f = if self.reversed {
            self.to_pos
        } else {
            self.from_pos
        };
        let t = if self.reversed {
            self.from_pos
        } else {
            self.to_pos
        };
        let d = distance(f, t);
        if d < config.min_distance {
            Vec2::zero()
        } else {
            proof {
                geom::lemma_mul_div_product_bound(
                    config.force_at_twice_distance as int,
                    d - config.min_distance,
                    config.min_distance as int,
                );
                assert(abs_spec(config.force_at_twice_distance as int) * abs_spec(
                    d - config.min_distance,
                ) <= 0x2000_0000 * 0x8000_0000) by (nonlinear_arith)
                    requires
                        abs_spec(config.force_at_twice_distance as int) <= 0x2000_0000,
                        0 <= abs_spec(d - config.min_distance) <= 0x8000_0000,
                ;
            }
            let mag = mul_div(
                config.force_at_twice_distance,
                d - config.min_distance,
                config.min_distance,
            );
            proof {
                geom::lemma_component_le_dist(f, t);
                geom::lemma_mul_div_bound(t.x - f.x, mag as int, d as int);
                geom::lemma_mul_div_bound(t.y - f.y, mag as int, d as int);
            }
            Vec2 { x: mul_div(t.x - f.x, mag, d), y: mul_div(t.y - f.y, mag, d) }
        }
    }

    /// Is the point on the edge's stroke? True when it lies inside the
    /// endpoints' bounding box and the triangle it spans with the endpoints
    /// is no larger than the stroke allows.
    pub fn is_point_in_shape(&self, point: Vec2) -> (r: bool)
        requires
            self.wf(),
            in_bounds_spec(point, POS_LIMIT as int),
        ensures
            r == point_in_shape_spec(*self, point),
    {
        let fp = self.from_pos;
        let tp = self.to_pos;
        if !((point.x >= fp.x && point.y >= fp.y && point.x <= tp.x && point.y <= tp.y) || (point.x
            >= tp.x && point.y >= tp.y && point.x <= fp.x && point.y <= fp.y)) {
            return false;
        }
        proof {
            lemma_cross2_bounds(fp, tp, point);
        }
        let vx = tp.x - fp.x;
        let vy = tp.y - fp.y;
        let cross = vx * (point.y - fp.y) - vy * (point.x - fp.x);
        let cross_abs = if cross >= 0 {
            cross
        } else {
            -cross
        };
        let span = vx - vy;
        let span_abs = if span >= 0 {
            span
        } else {
            -span
        };
        proof {
            assert(abs_spec(span as int) * HIT_STROKE_SPAN <= 0x8000_0000 * 16) by (nonlinear_arith)
                requires
                    0 <= abs_spec(span as int) <= 0x8000_0000,
            ;
        }
        cross_abs <= span_abs * HIT_STROKE_SPAN
    }
}

/// Doubled signed area of the triangle the two cached endpoints span with a
/// point.
pub open spec fn cross2_spec(f: Vec2, t: Vec2, p: Vec2) -> int {
    (t.x - f.x) * (p.y - f.y) - (t.y - f.y) * (p.x - f.x)
}

/// The hit test: the point lies in the endpoints' bounding box and the
/// doubled triangle area it spans stays within the stroke's span.
pub open spec fn point_in_shape_spec(e: Edge, p: Vec2) -> bool {
    let f = e.from_pos;
    let t = e.to_pos;
    &&& ((p.x >= f.x && p.y >= f.y && p.x <= t.x && p.y <= t.y) || (p.x >= t.x && p.y >= t.y && p.x
        <= f.x && p.y <= f.y))
    &&& abs_spec(cross2_spec(f, t, p)) <= abs_spec((t.x - f.x) - (t.y - f.y)) * HIT_STROKE_SPAN
}

proof fn lemma_cross2_bounds(f: Vec2, t: Vec2, p: Vec2)
    requires
        in_bounds_spec(f, POS_LIMIT as int),
        in_bounds_spec(t, POS_LIMIT as int),
        in_bounds_spec(p, POS_LIMIT as int),
    ensures
        abs_spec(cross2_spec(f, t, p)) <= 0x2000_0000_0000_0000,
        abs_spec((t.x - f.x) * (p.y - f.y)) <= 0x1000_0000_0000_0000,
        abs_spec((t.y - f.y) * (p.x - f.x)) <= 0x1000_0000_0000_0000,
{
    assert(abs_spec((t.x - f.x) * (p.y - f.y)) <= 0x1000_0000_0000_0000) by (nonlinear_arith)
        requires
            -0x4000_0000 <= t.x - f.x <= 0x4000_0000,
            -0x4000_0000 <= p.y - f.y <= 0x4000_0000,
    ;
    assert(abs_spec((t.y - f.y) * (p.x - f.x)) <= 0x1000_0000_0000_0000) by (nonlinear_arith)
        requires
            -0x4000_0000 <= t.y - f.y <= 0x4000_0000,
            -0x4000_0000 <= p.x - f.x <= 0x4000_0000,
    ;
}

} // verus!
