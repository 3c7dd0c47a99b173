//! The UI-owned settings the shell edits and the core reads: the editing
//! mode, graph directedness, the force configuration, and the random
//! generation sizes.

use vstd::prelude::*;

use crate::gravity::{PullForceConfig, PushForceConfig};

verus! {

/// Default repulsion magnitude.
pub const PUSH_FORCE_FORCE: i64 = 1000;

/// Default repulsion falloff radius.
pub const PUSH_FORCE_DISTANCE: i64 = 150;

/// Default attraction threshold distance.
pub const PULL_FORCE_MIN_DISTANCE: i64 = 100;

/// Default attraction magnitude at twice the threshold.
pub const PULL_FORCE_FORCE_AT_TWICE_DISTANCE: i64 = 500;

/// Whether the shell is editing the graph or showing algorithms.
#[derive(Clone, Copy, PartialEq, Eq, Structural, Debug)]
pub enum UiMode {
    Edit,
    Algorithm,
}

/// Whether a click is typing into a node label or editing the canvas.
#[derive(Clone, Copy, PartialEq, Eq, Structural, Debug)]
pub enum AppMode {
    Write,
    Normal,
}

pub struct UiData {
    pub mode: UiMode,
    pub is_directed: bool,
    pub push_conf: PushForceConfig,
    pub pull_conf: PullForceConfig,
    pub node_count: u32,
    pub edge_count: u32,
}

impl UiData {
    pub open spec fn valid(self) -> bool {
        self.push_conf.valid() && self.pull_conf.valid()
    }

    pub fn new() -> (r: UiData)
        ensures
            r == (UiData {
                mode: UiMode::Edit,
                is_directed: true,
                push_conf: PushForceConfig {
                    force: PUSH_FORCE_FORCE,
                    distance: PUSH_FORCE_DISTANCE,
                },
                pull_conf: PullForceConfig {
                    min_distance: PULL_FORCE_MIN_DISTANCE,
                    force_at_twice_distance: PULL_FORCE_FORCE_AT_TWICE_DISTANCE,
                },
                node_count: 10u32,
                edge_count: 15u32,
            }),
            r.valid(),
    {
        UiData {
            mode: UiMode::Edit,
            is_directed: true,
            push_conf: PushForceConfig::new(PUSH_FORCE_FORCE, PUSH_FORCE_DISTANCE),
            pull_conf: PullForceConfig::new(
                PULL_FORCE_MIN_DISTANCE,
                PULL_FORCE_FORCE_AT_TWICE_DISTANCE,
            ),
            node_count: 10,
            edge_count: 15,
        }
    }

    pub fn is_directed(&self) -> (r: bool)
        ensures
            r == self.is_directed,
    {
        self.is_directed
    }

    pub fn directed(&self) -> (r: bool)
        ensures
            r == self.is_directed,
    {
        self.is_directed
    }

    pub fn state(&self) -> (r: &UiMode)
        ensures
            r == self.mode,
    {
        &self.mode
    }

    pub fn push_conf(&self) -> (r: &PushForceConfig)
        ensures
            r == self.push_conf,
    {
        &self.push_conf
    }

    pub fn pull_conf(&self) -> (r: &PullForceConfig)
        ensures
            r == self.pull_conf,
    {
        &self.pull_conf
    }
}

impl Default for UiData {
    fn default() -> (r: UiData)
        ensures
            r.valid(),
    {
        UiData::new()
    }
}

} // verus!
