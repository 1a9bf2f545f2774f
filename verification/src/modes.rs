//! Editor modes, tools and the resize handles of a selected node.
use vstd::prelude::*;

verus! {

/// Which tool is active on the canvas.
#[derive(Debug, Clone, Copy, PartialEq, Eq, Structural)]
pub enum Tool {
    Select,
    Connect,
}

/// Which kind of diagram is being drawn; it decides the shapes the toolbar offers.
#[derive(Debug, Clone, Copy, PartialEq, Eq, Structural)]
pub enum DiagramMode {
    Flowchart,
    ER,
    FigJam,
}

/// One of the eight handles around a selected node.
#[derive(Debug, Clone, Copy, PartialEq, Eq, Structural)]
pub enum ResizeHandle {
    TopLeft,
    Top,
    TopRight,
    Left,
    Right,
    BottomLeft,
    Bottom,
    BottomRight,
}

/// The pointer shown over a resize handle.
#[derive(Debug, Clone, Copy, PartialEq, Eq, Structural)]
pub enum ResizeCursor {
    /// Diagonal, top-left to bottom-right.
    NwSe,
    /// Diagonal, top-right to bottom-left.
    NeSw,
    Horizontal,
    Vertical,
}

/// Where a handle sits along one axis of the node's rectangle.
#[derive(Debug, Clone, Copy, PartialEq, Eq, Structural)]
pub enum Anchor {
    /// The left or top edge.
    Start,
    /// The middle.
    Middle,
    /// The right or bottom edge.
    End,
}

/// What a resize drag does along one axis.
#[derive(Debug, Clone, Copy, PartialEq, Eq, Structural)]
pub enum EdgeMotion {
    /// Position and size stay as they were.
    Keep,
    /// The left or top edge follows the pointer; the opposite edge stays put.
    MoveStart,
    /// The right or bottom edge follows the pointer; the position stays put.
    MoveEnd,
}

/// Where a handle sits, horizontally and vertically.
pub open spec fn anchor_spec(h: ResizeHandle) -> (Anchor, Anchor) {
    match h {
        ResizeHandle::TopLeft => (Anchor::Start, Anchor::Start),
        ResizeHandle::Top => (Anchor::Middle, Anchor::Start),
        ResizeHandle::TopRight => (Anchor::End, Anchor::Start),
        ResizeHandle::Left => (Anchor::Start, Anchor::Middle),
        ResizeHandle::Right => (Anchor::End, Anchor::Middle),
        ResizeHandle::BottomLeft => (Anchor::Start, Anchor::End),
        ResizeHandle::Bottom => (Anchor::Middle, Anchor::End),
        ResizeHandle::BottomRight => (Anchor::End, Anchor::End),
    }
}

/// The motion along an axis of a handle anchored at `a` on that axis.
pub open spec fn motion_of(a: Anchor) -> EdgeMotion {
    match a {
        Anchor::Start => EdgeMotion::MoveStart,
        Anchor::Middle => EdgeMotion::Keep,
        Anchor::End => EdgeMotion::MoveEnd,
    }
}

/// The handles in the order they are laid out and hit-tested: the top row left to right,
/// the two sides, then the bottom row left to right.
pub open spec fn handle_order_spec() -> Seq<ResizeHandle> {
    seq![
        ResizeHandle::TopLeft,
        ResizeHandle::Top,
        ResizeHandle::TopRight,
        ResizeHandle::Left,
        ResizeHandle::Right,
        ResizeHandle::BottomLeft,
        ResizeHandle::Bottom,
        ResizeHandle::BottomRight,
    ]
}

/// The eight resize handles in layout order.
pub fn resize_handle_order() -> (hs: [ResizeHandle; 8])
    ensures
        hs@ == handle_order_spec(),
{
    let hs = [
        ResizeHandle::TopLeft,
        ResizeHandle::Top,
        ResizeHandle::TopRight,
        ResizeHandle::Left,
        ResizeHandle::Right,
        ResizeHandle::BottomLeft,
        ResizeHandle::Bottom,
        ResizeHandle::BottomRight,
    ];
    assert(hs@ =~= handle_order_spec());
    hs
}

/// Where a handle sits on the node's rectangle: corners at the corners, the others at the
/// middle of their edge.
pub fn handle_anchor(h: ResizeHandle) -> (a: (Anchor, Anchor))
    ensures
        a == anchor_spec(h),
{
    match h {
        ResizeHandle::TopLeft => (Anchor::Start, Anchor::Start),
        ResizeHandle::Top => (Anchor::Middle, Anchor::Start),
        ResizeHandle::TopRight => (Anchor::End, Anchor::Start),
        ResizeHandle::Left => (Anchor::Start, Anchor::Middle),
        ResizeHandle::Right => (Anchor::End, Anchor::Middle),
        ResizeHandle::BottomLeft => (Anchor::Start, Anchor::End),
        ResizeHandle::Bottom => (Anchor::Middle, Anchor::End),
        ResizeHandle::BottomRight => (Anchor::End, Anchor::End),
    }
}

/// The pointer for a handle: diagonal for corners (matching their diagonal), horizontal for
/// the side handles, vertical for the top and bottom handles.
pub fn resize_cursor(handle: ResizeHandle) -> (c: ResizeCursor)
    ensures
        c == match handle {
            ResizeHandle::TopLeft | ResizeHandle::BottomRight => ResizeCursor::NwSe,
            ResizeHandle::TopRight | ResizeHandle::BottomLeft => ResizeCursor::NeSw,
            ResizeHandle::Left | ResizeHandle::Right => ResizeCursor::Horizontal,
            ResizeHandle::Top | ResizeHandle::Bottom => ResizeCursor::Vertical,
        },
{
    match handle {
        ResizeHandle::TopLeft | ResizeHandle::BottomRight => ResizeCursor::NwSe,
        ResizeHandle::TopRight | ResizeHandle::BottomLeft => ResizeCursor::NeSw,
        ResizeHandle::Left | ResizeHandle::Right => ResizeCursor::Horizontal,
        ResizeHandle::Top | ResizeHandle::Bottom => ResizeCursor::Vertical,
    }
}

/// What dragging a handle does, horizontally and vertically: a handle on the right or bottom
/// edge moves that edge, one on the left or top edge moves that edge while the opposite edge
/// stays, and a handle in the middle of an axis leaves that axis alone.
pub fn resize_plan(handle: ResizeHandle) -> (plan: (EdgeMotion, EdgeMotion))
    ensures
        plan == (motion_of(anchor_spec(handle).0), motion_of(anchor_spec(handle).1)),
{
    let horizontal = match handle {
        ResizeHandle::Right | ResizeHandle::TopRight | ResizeHandle::BottomRight => EdgeMotion::MoveEnd,
        ResizeHandle::Left | ResizeHandle::TopLeft | ResizeHandle::BottomLeft => EdgeMotion::MoveStart,
        _ => EdgeMotion::Keep,
    };
    let vertical = match handle {
        ResizeHandle::Bottom | ResizeHandle::BottomLeft | ResizeHandle::BottomRight => EdgeMotion::MoveEnd,
        ResizeHandle::Top | ResizeHandle::TopLeft | ResizeHandle::TopRight => EdgeMotion::MoveStart,
        _ => EdgeMotion::Keep,
    };
    (horizontal, vertical)
}

/// The handle across the node from `h`.
pub open spec fn opposite(h: ResizeHandle) -> ResizeHandle {
    match h {
        ResizeHandle::TopLeft => ResizeHandle::BottomRight,
        ResizeHandle::Top => ResizeHandle::Bottom,
        ResizeHandle::TopRight => ResizeHandle::BottomLeft,
        ResizeHandle::Left => ResizeHandle::Right,
        ResizeHandle::Right => ResizeHandle::Left,
        ResizeHandle::BottomLeft => ResizeHandle::TopRight,
        ResizeHandle::Bottom => ResizeHandle::Top,
        ResizeHandle::BottomRight => ResizeHandle::TopLeft,
    }
}

/// The anchor across the axis from `a`.
pub open spec fn flip(a: Anchor) -> Anchor {
    match a {
        Anchor::Start => Anchor::End,
        Anchor::Middle => Anchor::Middle,
        Anchor::End => Anchor::Start,
    }
}

/// Handles across the node from each other sit at mirrored anchors and share a pointer.
pub proof fn law_opposite_handles_share_cursor(h: ResizeHandle)
    ensures
        anchor_spec(opposite(h)) == (flip(anchor_spec(h).0), flip(anchor_spec(h).1)),
        cursor_spec(opposite(h)) == cursor_spec(h),
        opposite(opposite(h)) == h,
{
}

/// The pointer for a handle, as `resize_cursor` gives it.
pub open spec fn cursor_spec(h: ResizeHandle) -> ResizeCursor {
    match h {
        ResizeHandle::TopLeft | ResizeHandle::BottomRight => ResizeCursor::NwSe,
        ResizeHandle::TopRight | ResizeHandle::BottomLeft => ResizeCursor::NeSw,
        ResizeHandle::Left | ResizeHandle::Right => ResizeCursor::Horizontal,
        ResizeHandle::Top | ResizeHandle::Bottom => ResizeCursor::Vertical,
    }
}

/// Every handle appears exactly once in the layout order, and no two handles sit at the
/// same anchor.
pub proof fn law_handles_cover_every_anchor()
    ensures
        forall|h: ResizeHandle| #[trigger] handle_order_spec().contains(h),
        forall|i: int, j: int|
            0 <= i < j < 8 ==> #[trigger] handle_order_spec()[i] != #[trigger] handle_order_spec()[j],
        forall|g: ResizeHandle, h: ResizeHandle| #[trigger] anchor_spec(g) == #[trigger] anchor_spec(h) ==> g == h,
{
    assert forall|h: ResizeHandle| #[trigger] handle_order_spec().contains(h) by {
        match h {
            ResizeHandle::TopLeft => assert(handle_order_spec()[0] == h),
            ResizeHandle::Top => assert(handle_order_spec()[1] == h),
            ResizeHandle::TopRight => assert(handle_order_spec()[2] == h),
            ResizeHandle::Left => assert(handle_order_spec()[3] == h),
            ResizeHandle::Right => assert(handle_order_spec()[4] == h),
            ResizeHandle::BottomLeft => assert(handle_order_spec()[5] == h),
            ResizeHandle::Bottom => assert(handle_order_spec()[6] == h),
            ResizeHandle::BottomRight => assert(handle_order_spec()[7] == h),
        }
    }
}

/// The tool a plain key press selects: `V` the select tool, `E` the connect tool.
pub fn tool_for_key(key: char) -> (t: Option<Tool>)
    ensures
        t == if key == 'V' || key == 'v' {
            Some(Tool::Select)
        } else if key == 'E' || key == 'e' {
            Some(Tool::Connect)
        } else {
            None::<Tool>
        },
{
    if key == 'V' || key == 'v' {
        Some(Tool::Select)
    } else if key == 'E' || key == 'e' {
        Some(Tool::Connect)
    } else {
        None
    }
}

/// What the pointer is doing on the canvas.
#[derive(Debug, Clone, Copy, PartialEq, Eq, Structural)]
pub enum DragKind {
    Idle,
    Panning,
    DraggingNode,
    /// Dragging a new node out of the toolbar.
    DraggingNewNode,
    CreatingEdge,
    BoxSelect,
    Resizing(ResizeHandle),
    /// Dragging the bend point of an edge.
    DraggingEdgeBend,
}

/// What lies under the pointer, each test made in canvas coordinates.
#[derive(Debug, Clone, Copy)]
pub struct HoverHits {
    /// The resize handle of a selected node, if any.
    pub handle: Option<ResizeHandle>,
    pub port: bool,
    pub node: bool,
    pub edge: bool,
    /// The label of a section, which a double click renames.
    pub section_label: bool,
    /// The section progress panel, whose rows select their section.
    pub summary_panel: bool,
}

/// The pointer shown over the canvas.
#[derive(Debug, Clone, Copy, PartialEq, Eq, Structural)]
pub enum CanvasCursor {
    Default,
    Grab,
    Grabbing,
    Copy,
    Crosshair,
    Resize(ResizeCursor),
    /// Diagonal, for an edge's bend point.
    BendHandle,
    PointingHand,
    Text,
}

/// The pointer for the canvas state: a drag decides it; otherwise a held space bar, the
/// connect tool, then what lies under the pointer, first match winning.
pub open spec fn cursor_for(drag: DragKind, space_held: bool, tool: Tool, hover: Option<HoverHits>) -> CanvasCursor {
    match drag {
        DragKind::Panning | DragKind::DraggingNode => CanvasCursor::Grabbing,
        DragKind::DraggingNewNode => CanvasCursor::Copy,
        DragKind::CreatingEdge | DragKind::BoxSelect => CanvasCursor::Crosshair,
        DragKind::Resizing(h) => CanvasCursor::Resize(cursor_spec(h)),
        DragKind::DraggingEdgeBend => CanvasCursor::BendHandle,
        DragKind::Idle => if space_held {
            CanvasCursor::Grab
        } else if tool == Tool::Connect {
            CanvasCursor::Crosshair
        } else {
            match hover {
                None => CanvasCursor::Default,
                Some(hits) => match hits.handle {
                    Some(h) => CanvasCursor::Resize(cursor_spec(h)),
                    None => if hits.port {
                        CanvasCursor::Crosshair
                    } else if hits.node {
                        CanvasCursor::Grab
                    } else if hits.edge {
                        CanvasCursor::PointingHand
                    } else if hits.section_label {
                        CanvasCursor::Text
                    } else if hits.summary_panel {
                        CanvasCursor::PointingHand
                    } else {
                        CanvasCursor::Default
                    },
                },
            }
        },
    }
}

/// The pointer for the canvas state.
pub fn pick_cursor(drag: DragKind, space_held: bool, tool: Tool, hover: Option<HoverHits>) -> (c: CanvasCursor)
    ensures
        c == cursor_for(drag, space_held, tool, hover),
{
    match drag {
        DragKind::Panning | DragKind::DraggingNode => CanvasCursor::Grabbing,
        DragKind::DraggingNewNode => CanvasCursor::Copy,
        DragKind::CreatingEdge | DragKind::BoxSelect => CanvasCursor::Crosshair,
        DragKind::Resizing(h) => CanvasCursor::Resize(resize_cursor(h)),
        DragKind::DraggingEdgeBend => CanvasCursor::BendHandle,
        DragKind::Idle => {
            if space_held {
                CanvasCursor::Grab
            } else if tool == Tool::Connect {
                CanvasCursor::Crosshair
            } else {
                match hover {
                    None => CanvasCursor::Default,
                    Some(hits) => match hits.handle {
                        Some(h) => CanvasCursor::Resize(resize_cursor(h)),
                        None => {
                            if hits.port {
                                CanvasCursor::Crosshair
                            } else if hits.node {
                                CanvasCursor::Grab
                            } else if hits.edge {
                                CanvasCursor::PointingHand
                            } else if hits.section_label {
                                CanvasCursor::Text
                            } else if hits.summary_panel {
                                CanvasCursor::PointingHand
                            } else {
                                CanvasCursor::Default
                            }
                        },
                    },
                }
            }
        },
    }
}

} // verus!
