//! The editor's input state machine: what one left click or one mouse drag
//! does to the graph store, depending on the active editing mode. The shell
//! only dispatches raw events here.

use vstd::prelude::*;

use crate::geom::{in_bounds_spec, Vec2, POS_LIMIT};
use crate::graph::{
    connect_edges_spec, connect_result_spec, moved_edges_spec, moved_nodes_spec, node_hit_above,
    remove_edges_spec, remove_nodes_spec, set_highlight_view, set_pinned_view, Graph,
};
use crate::node::{fresh_node_spec, NodeHighlight};

verus! {

/// The selection a mode carries between clicks.
pub struct StateData {
    pub selected_node: Option<usize>,
}

impl Default for StateData {
    fn default() -> (r: StateData)
        ensures
            r.selected_node is None,
    {
        StateData { selected_node: None }
    }
}

/// The active editing mode.
pub enum InputState {
    /// A click adds a node.
    Add,
    /// A click removes the node under it.
    Remove,
    /// A click grabs (pins) or drops the node under it; dragging moves it.
    Move(StateData),
    /// Two clicks connect the first node to the second.
    Connect(StateData),
    /// A click selects the node under it, for an algorithm to start from.
    Select(StateData),
}

impl InputState {
    /// What one left click at `position` does, by mode; see each arm of the
    /// contract.
    pub fn on_left_click(&mut self, graph: &mut Graph, position: Vec2)
        requires
            old(graph).wf(),
            in_bounds_spec(position, POS_LIMIT as int),
            old(graph).nodes@.len() < usize::MAX,
            old(graph).edges@.len() < usize::MAX,
        ensures
            final(graph).wf(),
            ({
                let g0 = *old(graph);
                let g1 = *final(graph);
                let hit = node_hit_above(g0.nodes@, position, g0.nodes@.len());
                match *old(self) {
                    InputState::Add => {
                        &&& g1.nodes@ == g0.nodes@.push(Some(fresh_node_spec(position)))
                        &&& g1.edges@ == g0.edges@
                        &&& *final(self) is Add
                    },
                    InputState::Remove => {
                        &&& (match hit {
                            Some(idx) => g1.nodes@ == remove_nodes_spec(g0, idx) && g1.edges@
                                == remove_edges_spec(g0, idx),
                            None => g1 == g0,
                        })
                        &&& *final(self) is Remove
                    },
                    InputState::Move(data) => match data.selected_node {
                        Some(idx) => {
                            &&& g1.nodes@ == set_pinned_view(g0.nodes@, idx, false)
                            &&& g1.edges@ == g0.edges@
                            &&& *final(self) == InputState::Move(
                                StateData { selected_node: None },
                            )
                        },
                        None => {
                            &&& (match hit {
                                Some(idx) => g1.nodes@ == set_pinned_view(g0.nodes@, idx, true),
                                None => g1.nodes@ == g0.nodes@,
                            })
                            &&& g1.edges@ == g0.edges@
                            &&& *final(self) == InputState::Move(StateData { selected_node: hit })
                        },
                    },
                    InputState::Connect(data) => match data.selected_node {
                        Some(from) => {
                            &&& (match hit {
                                Some(to) => g1.edges@ == connect_edges_spec(g0, from, to),
                                None => g1.edges@ == g0.edges@,
                            })
                            &&& g1.nodes@ == set_highlight_view(
                                g0.nodes@,
                                from,
                                NodeHighlight::Normal,
                            )
                            &&& *final(self) == InputState::Connect(
                                StateData { selected_node: None },
                            )
                        },
                        None => {
                            &&& (match hit {
                                Some(idx) => g1.nodes@ == set_highlight_view(
                                    g0.nodes@,
                                    idx,
                                    NodeHighlight::Highlighted,
                                ),
                                None => g1.nodes@ == g0.nodes@,
                            })
                            &&& g1.edges@ == g0.edges@
                            &&& *final(self) == InputState::Connect(
                                StateData { selected_node: hit },
                            )
                        },
                    },
                    InputState::Select(data) => {
                        let mid = (match data.selected_node {
                            Some(old_idx) => set_highlight_view(
                                g0.nodes@,
                                old_idx,
                                NodeHighlight::Normal,
                            ),
                            None => g0.nodes@,
                        });
                        let hit2 = node_hit_above(mid, position, mid.len());
                        &&& (match hit2 {
                            Some(idx) => g1.nodes@ == set_highlight_view(
                                mid,
                                idx,
                                NodeHighlight::Highlighted,
                            ),
                            None => g1.nodes@ == mid,
                        })
                        &&& g1.edges@ == g0.edges@
                        &&& *final(self) == InputState::Select(StateData { selected_node: hit2 })
                    },
                }
            }),
    {
        match self {
            InputState::Add => {
                graph.add_node(position);
            },
            InputState::Remove => {
                match graph.node_from_point(position) {
                    Some(idx) => graph.remove_node(idx),
                    None => (),
                }
            },
            InputState::Move(data) => {
                match data.selected_node {
                    Some(node_idx) => {
                        data.selected_node = None;
                        graph.set_node_ignore_force(node_idx, false);
                    },
                    None => {
                        let hit = graph.node_from_point(position);
                        data.selected_node = hit;
                        match hit {
                            Some(node_idx) => graph.set_node_ignore_force(node_idx, true),
                            None => (),
                        }
                    },
                }
            },
            InputState::Connect(data) => {
                match data.selected_node {
                    Some(from) => {
                        match graph.node_from_point(position) {
                            Some(to) => {
                                graph.connect_nodes(from, to);
                            },
                            None => (),
                        }
                        graph.set_node_highlight(from, NodeHighlight::Normal);
                        data.selected_node = None;
                    },
                    None => {
                        let hit = graph.node_from_point(position);
                        data.selected_node = hit;
                        match hit {
                            Some(idx) => graph.set_node_highlight(
                                idx,
                                NodeHighlight::Highlighted,
                            ),
                            None => (),
                        }
                    },
                }
            },
            InputState::Select(data) => {
                match data.selected_node {
                    Some(idx) => graph.set_node_highlight(idx, NodeHighlight::Normal),
                    None => (),
                }
                let hit = graph.node_from_point(position);
                data.selected_node = hit;
                match hit {
                    Some(idx) => graph.set_node_highlight(idx, NodeHighlight::Highlighted),
                    None => (),
                }
            },
        }
    }

    /// Dragging with a grabbed node moves it (and its incident edges'
    /// geometry); anything else does nothing.
    pub fn on_mouse_drag(&mut self, graph: &mut Graph, position: Vec2)
        requires
            old(graph).wf(),
            in_bounds_spec(position, POS_LIMIT as int),
        ensures
            final(graph).wf(),
            *final(self) == *old(self),
            ({
                let g0 = *old(graph);
                let g1 = *final(graph);
                match *old(self) {
                    InputState::Move(data) => match data.selected_node {
                        Some(idx) => g1.nodes@ == moved_nodes_spec(g0, idx, position) && g1.edges@
                            == moved_edges_spec(g0, idx, position),
                        None => g1 == g0,
                    },
                    _ => g1 == g0,
                }
            }),
    {
        match self {
            InputState::Move(data) => {
                match data.selected_node {
                    Some(node_idx) => graph.move_node(node_idx, position),
                    None => (),
                }
            },
            _ => (),
        }
    }
}

} // verus!
