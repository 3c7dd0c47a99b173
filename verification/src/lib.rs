//! An interactive graph editor core: an arena-backed directed graph store,
//! a force-directed layout engine over integer coordinates, and graph
//! algorithms (DFS, BFS, Kosaraju's strongly connected components) that
//! record their execution as a replayable log of discrete visualization
//! steps, consumed one at a time by a timer-driven player.
//!
//! Handles are plain integers into arena storage: they stay valid across
//! additions and dangle only once their referent is removed. Structural
//! edits during playback are not rejected; a step over a dangling handle
//! applies as a silent no-op, as every store operation does.

pub mod bfs;
pub mod color;
pub mod dfs;
pub mod edge;
pub mod geom;
pub mod graph;
pub mod gravity;
pub mod input_state;
pub mod layout;
pub mod node;
pub mod random;
pub mod scc;
pub mod step;
pub mod step_algorithm;
pub mod timer;
pub mod ui_state;

pub use bfs::Bfs;
pub use dfs::Dfs;
pub use graph::Graph;
pub use scc::Scc;
pub use step_algorithm::StepAlgorithmResult;
pub use timer::Timer;
