//! The step player: an algorithm run's fully materialized log, a looping
//! timer, and the handle the run started from. Playback disables every edge
//! and pins the start node; each timer tick then applies one step, and the
//! tick after the last step stops the timer and releases the start node.

use vstd::prelude::*;

use crate::graph::{set_pinned_view, Graph};
use crate::step::{apply_step_view, Step};
use crate::timer::{timer_update_spec, Timer};

verus! {

/// Milliseconds between two played steps.
pub const STEP_PERIOD: u64 = 300;

/// An algorithm run's replayable result: its ordered step log, consumed
/// strictly front to back.
pub struct StepAlgorithmResult {
    pub steps: Vec<Step>,
    /// The log position the next tick will play.
    pub next: usize,
    pub timer: Timer,
    pub start_idx: usize,
}

impl StepAlgorithmResult {
    /// Wrap a finished run's log, ready to play from its first step on a
    /// stopped looping timer.
    pub fn from_steps(steps: Vec<Step>, start_idx: usize) -> (r: StepAlgorithmResult)
        ensures
            r.steps == steps,
            r.next == 0,
            r.start_idx == start_idx,
            r.timer == (Timer {
                time_remaining: 0,
                active: false,
                loops: true,
                time: STEP_PERIOD,
            }),
    {
        StepAlgorithmResult { steps, next: 0, timer: Timer::new(STEP_PERIOD, true), start_idx }
    }

    pub fn steps(&self) -> (r: &Vec<Step>)
        ensures
            r == self.steps,
    {
        &self.steps
    }

    /// Begin playback: disable every edge so the layout does not fight the
    /// animation, pin the start node, and arm the timer.
    pub fn show_algorithm(&mut self, graph: &mut Graph)
        requires
            old(graph).wf(),
        ensures
            final(self).steps == old(self).steps,
            final(self).next == old(self).next,
            final(self).start_idx == old(self).start_idx,
            final(self).timer == (Timer { active: true, time_remaining: old(self).timer.time, ..old(self).timer }),
            final(graph)@.nodes == set_pinned_view(old(graph)@.nodes, old(self).start_idx, true),
            final(graph)@.edges.len() == old(graph)@.edges.len(),
            forall|e: int|
                0 <= e < old(graph)@.edges.len() ==> final(graph)@.edges[e] == (
                match #[trigger] old(graph)@.edges[e] {
                    Some(ed) => Some(crate::edge::Edge { enabled: false, ..ed }),
                    None => None,
                }),
            final(graph).wf(),
    {
        graph.disable_all_edges();
        graph.set_node_ignore_force(self.start_idx, true);
        self.timer.start();
    }

    /// One frame of playback: feed the timer; on a tick, play the log's next
    /// step, or — once the log is exhausted — stop the timer and release the
    /// start node.
    pub fn update(&mut self, dt: u64, graph: &mut Graph)
        requires
            old(graph).wf(),
        ensures
            final(self).steps == old(self).steps,
            final(self).start_idx == old(self).start_idx,
            final(graph).wf(),
            ({
                let fired = timer_update_spec(old(self).timer, dt).1;
                let t1 = timer_update_spec(old(self).timer, dt).0;
                if !fired {
                    &&& final(self).timer == t1
                    &&& final(self).next == old(self).next
                    &&& final(graph)@ == old(graph)@
                } else if old(self).next < old(self).steps@.len() {
                    &&& final(self).timer == t1
                    &&& final(self).next == old(self).next + 1
                    &&& final(graph)@ == apply_step_view(
                        old(self).steps@[old(self).next as int],
                        old(graph)@,
                    )
                } else {
                    &&& final(self).timer == (Timer { active: false, time_remaining: 0, ..t1 })
                    &&& final(self).next == old(self).next
                    &&& final(graph)@.edges == old(graph)@.edges
                    &&& final(graph)@.nodes == set_pinned_view(
                        old(graph)@.nodes,
                        old(self).start_idx,
                        false,
                    )
                }
            }),
    {
        if self.timer.update(dt) {
            if self.next < self.steps.len() {
                self.steps[self.next].apply_step(graph);
                self.next = self.next + 1;
            } else {
                self.timer.stop();
                graph.set_node_ignore_force(self.start_idx, false);
            }
        }
    }
}

} // verus!
