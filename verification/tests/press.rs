use flowchart::model::{Port, PortSide};
use flowchart::modes::{ResizeHandle, Tool};
use flowchart::press::{press, DragStart, PressContext, PressHits, SelectionStep};

fn nothing() -> PressHits {
    PressHits { handle: None, port: None, node: None, bend: None, edge: None }
}

fn ctx() -> PressContext {
    PressContext { panning: false, tool: Tool::Select, command: false, alt: false, locked: false, node_selected: false, selected_nodes: 0 }
}

#[test]
fn panning_and_connect_tool() {
    let port = Port { node_id: 5, side: PortSide::Right };
    let mut c = ctx();
    c.panning = true;
    assert_eq!(press(nothing(), c), (DragStart::Pan, SelectionStep::Keep));
    let mut c = ctx();
    c.tool = Tool::Connect;
    let mut h = nothing();
    h.node = Some(5);
    assert_eq!(press(h, c), (DragStart::Unchanged, SelectionStep::Keep));
    h.port = Some(port);
    assert_eq!(press(h, c), (DragStart::Connect(port), SelectionStep::Keep));
}

#[test]
fn select_tool_priorities() {
    let mut h = nothing();
    h.node = Some(5);
    h.edge = Some(9);
    h.handle = Some((5, ResizeHandle::Left));
    assert_eq!(press(h, ctx()), (DragStart::Resize(5, ResizeHandle::Left), SelectionStep::Keep));
    h.handle = None;
    assert_eq!(press(h, ctx()), (DragStart::MoveNodes { duplicate: false }, SelectionStep::OnlyNode(5)));
    h.node = None;
    assert_eq!(press(h, ctx()), (DragStart::Idle, SelectionStep::OnlyEdge(9)));
    let mut c = ctx();
    c.command = true;
    assert_eq!(press(h, c), (DragStart::Idle, SelectionStep::ToggleEdge(9)));
    assert_eq!(press(nothing(), ctx()), (DragStart::BoxSelect, SelectionStep::ClearAll));
    assert_eq!(press(nothing(), c), (DragStart::BoxSelect, SelectionStep::Keep));
}

#[test]
fn node_press_with_modifiers() {
    let mut h = nothing();
    h.node = Some(5);
    let mut c = ctx();
    c.node_selected = true;
    c.selected_nodes = 1;
    c.command = true;
    c.alt = true;
    // Toggling off the only selected node leaves nothing to copy.
    assert_eq!(press(h, c), (DragStart::MoveNodes { duplicate: false }, SelectionStep::ToggleNode(5)));
    c.command = false;
    assert_eq!(press(h, c), (DragStart::MoveNodes { duplicate: true }, SelectionStep::Keep));
    c.locked = true;
    assert_eq!(press(h, c), (DragStart::Unchanged, SelectionStep::Keep));
}
