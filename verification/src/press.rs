//! What a press of the pointer on the canvas starts: a pan, a connection, a resize, a
//! move of the selected nodes or a box selection, and how it changes the selection.
use vstd::prelude::*;
use crate::model::{EdgeId, NodeId, Port};
use crate::modes::{ResizeHandle, Tool};

verus! {

/// What lies under the pointer where it was pressed, each found by its own hit test.
#[derive(Debug, Clone, Copy)]
pub struct PressHits {
    /// A resize handle of the selected node.
    pub handle: Option<(NodeId, ResizeHandle)>,
    pub port: Option<Port>,
    pub node: Option<NodeId>,
    /// The bend point of a selected edge.
    pub bend: Option<EdgeId>,
    pub edge: Option<EdgeId>,
}

/// The state of the canvas around the press.
#[derive(Debug, Clone, Copy)]
pub struct PressContext {
    /// Whether the space bar or the middle button is held.
    pub panning: bool,
    pub tool: Tool,
    /// Whether the command (or control) key is held.
    pub command: bool,
    pub alt: bool,
    /// Whether the canvas is locked against moving nodes.
    pub locked: bool,
    /// Whether the pressed node is selected already.
    pub node_selected: bool,
    /// The number of selected nodes.
    pub selected_nodes: usize,
}

/// The drag a press starts.
#[derive(Debug, Clone, Copy, PartialEq, Eq, Structural)]
pub enum DragStart {
    /// No drag starts; the current one, if any, is kept.
    Unchanged,
    Pan,
    /// A new edge is drawn from the port.
    Connect(Port),
    Resize(NodeId, ResizeHandle),
    /// The selected nodes move; with `duplicate`, copies of them move and the originals stay.
    MoveNodes { duplicate: bool },
    Bend(EdgeId),
    /// No drag: a click that selected an edge.
    Idle,
    BoxSelect,
}

/// How a press changes the selection.
#[derive(Debug, Clone, Copy, PartialEq, Eq, Structural)]
pub enum SelectionStep {
    Keep,
    /// Add the node if it is not selected, remove it if it is.
    ToggleNode(NodeId),
    /// Select the node alone.
    OnlyNode(NodeId),
    ToggleEdge(EdgeId),
    OnlyEdge(EdgeId),
    ClearAll,
}

/// The number of selected nodes after a press on a node.
pub open spec fn nodes_after(ctx: PressContext) -> int {
    if ctx.command {
        if ctx.node_selected { ctx.selected_nodes - 1 } else { ctx.selected_nodes + 1 }
    } else if !ctx.node_selected {
        1
    } else {
        ctx.selected_nodes as int
    }
}

/// What a press starts, with `hits` what lies under it: a held space bar or middle button
/// pans; the connect tool draws an edge from a port; the select tool resizes from a handle,
/// draws an edge from a port, moves the nodes from a node (selecting it first, copying them
/// with Alt, not at all on a locked canvas), bends an edge from its bend point, selects an
/// edge, or starts a box selection on empty canvas (clearing the selection unless the
/// command key is held), first match winning.
pub open spec fn press_spec(hits: PressHits, ctx: PressContext) -> (DragStart, SelectionStep) {
    if ctx.panning {
        (DragStart::Pan, SelectionStep::Keep)
    } else if ctx.tool == Tool::Connect {
        match hits.port {
            Some(p) => (DragStart::Connect(p), SelectionStep::Keep),
            None => (DragStart::Unchanged, SelectionStep::Keep),
        }
    } else if hits.handle is Some {
        match hits.handle {
            Some((id, h)) => (DragStart::Resize(id, h), SelectionStep::Keep),
            None => (DragStart::Unchanged, SelectionStep::Keep),
        }
    } else if hits.port is Some {
        (DragStart::Connect(hits.port->0), SelectionStep::Keep)
    } else if hits.node is Some {
        let id = hits.node->0;
        let step = if ctx.command {
            SelectionStep::ToggleNode(id)
        } else if !ctx.node_selected {
            SelectionStep::OnlyNode(id)
        } else {
            SelectionStep::Keep
        };
        let drag = if ctx.locked {
            DragStart::Unchanged
        } else {
            DragStart::MoveNodes { duplicate: ctx.alt && nodes_after(ctx) > 0 }
        };
        (drag, step)
    } else if hits.bend is Some {
        (DragStart::Bend(hits.bend->0), SelectionStep::Keep)
    } else if hits.edge is Some {
        let id = hits.edge->0;
        (DragStart::Idle, if ctx.command { SelectionStep::ToggleEdge(id) } else { SelectionStep::OnlyEdge(id) })
    } else {
        (DragStart::BoxSelect, if ctx.command { SelectionStep::Keep } else { SelectionStep::ClearAll })
    }
}

/// What a press starts and how it changes the selection.
pub fn press(hits: PressHits, ctx: PressContext) -> (r: (DragStart, SelectionStep))
    requires
        ctx.node_selected ==> ctx.selected_nodes > 0,
        ctx.selected_nodes < usize::MAX,
    ensures
        r == press_spec(hits, ctx),
{
    if ctx.panning {
        return (DragStart::Pan, SelectionStep::Keep);
    }
    if ctx.tool == Tool::Connect {
        return match hits.port {
            Some(p) => (DragStart::Connect(p), SelectionStep::Keep),
            None => (DragStart::Unchanged, SelectionStep::Keep),
        };
    }
    if let Some((id, h)) = hits.handle {
        return (DragStart::Resize(id, h), SelectionStep::Keep);
    }
    if let Some(p) = hits.port {
        return (DragStart::Connect(p), SelectionStep::Keep);
    }
    if let Some(id) = hits.node {
        let (step, after) = if ctx.command {
            if ctx.node_selected {
                (SelectionStep::ToggleNode(id), ctx.selected_nodes - 1)
            } else {
                (SelectionStep::ToggleNode(id), ctx.selected_nodes + 1)
            }
        } else if !ctx.node_selected {
            (SelectionStep::OnlyNode(id), 1)
        } else {
            (SelectionStep::Keep, ctx.selected_nodes)
        };
        let drag = if ctx.locked {
            DragStart::Unchanged
        } else {
            DragStart::MoveNodes { duplicate: ctx.alt && after > 0 }
        };
        return (drag, step);
    }
    if let Some(e) = hits.bend {
        return (DragStart::Bend(e), SelectionStep::Keep);
    }
    if let Some(e) = hits.edge {
        return (DragStart::Idle, if ctx.command { SelectionStep::ToggleEdge(e) } else { SelectionStep::OnlyEdge(e) });
    }
    (DragStart::BoxSelect, if ctx.command { SelectionStep::Keep } else { SelectionStep::ClearAll })
}

} // verus!
