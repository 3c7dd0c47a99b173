//! Read-only force configuration records for the layout engine.

use vstd::prelude::*;

use crate::geom::CONF_LIMIT;

verus! {

/// Repulsion: magnitude at zero distance and the falloff radius.
#[derive(Clone, Copy, PartialEq, Eq, Structural, Debug)]
pub struct PushForceConfig {
    pub force: i64,
    pub distance: i64,
}

/// Attraction: the distance under which an edge pulls nothing, and the
/// magnitude the pull reaches at twice that distance.
#[derive(Clone, Copy, PartialEq, Eq, Structural, Debug)]
pub struct PullForceConfig {
    pub min_distance: i64,
    pub force_at_twice_distance: i64,
}

impl PushForceConfig {
    pub open spec fn valid(self) -> bool {
        &&& -CONF_LIMIT <= self.force <= CONF_LIMIT
        &&& 1 <= self.distance <= CONF_LIMIT
    }

    pub fn new(force: i64, distance: i64) -> (c: PushForceConfig)
        requires
            -CONF_LIMIT <= force <= CONF_LIMIT,
            1 <= distance <= CONF_LIMIT,
        ensures
            c == (PushForceConfig { force, distance }),
            c.valid(),
    {
        PushForceConfig { force, distance }
    }

    pub fn force(&self) -> (r: i64)
        ensures
            r == self.force,
    {
        self.force
    }

    pub fn distance(&self) -> (r: i64)
        ensures
            r == self.distance,
    {
        self.distance
    }
}

impl PullForceConfig {
    pub open spec fn valid(self) -> bool {
        &&& 1 <= self.min_distance <= CONF_LIMIT
        &&& -CONF_LIMIT <= self.force_at_twice_distance <= CONF_LIMIT
    }

    pub fn new(min_distance: i64, force_at_twice_distance: i64) -> (c: PullForceConfig)
        requires
            1 <= min_distance <= CONF_LIMIT,
            -CONF_LIMIT <= force_at_twice_distance <= CONF_LIMIT,
        ensures
            c == (PullForceConfig { min_distance, force_at_twice_distance }),
            c.valid(),
    {
        PullForceConfig { min_distance, force_at_twice_distance }
    }

    pub fn min_distance(&self) -> (r: i64)
        ensures
            r == self.min_distance,
    {
        self.min_distance
    }

    pub fn force_at_twice_distance(&self) -> (r: i64)
        ensures
            r == self.force_at_twice_distance,
    {
        self.force_at_twice_distance
    }
}

} // verus!
