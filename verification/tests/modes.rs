use flowchart::modes::{
    handle_anchor, resize_cursor, resize_handle_order, resize_plan, tool_for_key, Anchor,
    EdgeMotion, ResizeCursor, ResizeHandle, Tool,
};

fn check_cursors() {
    assert_eq!(resize_cursor(ResizeHandle::TopLeft), ResizeCursor::NwSe);
    assert_eq!(resize_cursor(ResizeHandle::BottomRight), ResizeCursor::NwSe);
    assert_eq!(resize_cursor(ResizeHandle::TopRight), ResizeCursor::NeSw);
    assert_eq!(resize_cursor(ResizeHandle::BottomLeft), ResizeCursor::NeSw);
    assert_eq!(resize_cursor(ResizeHandle::Left), ResizeCursor::Horizontal);
    assert_eq!(resize_cursor(ResizeHandle::Right), ResizeCursor::Horizontal);
    assert_eq!(resize_cursor(ResizeHandle::Top), ResizeCursor::Vertical);
    assert_eq!(resize_cursor(ResizeHandle::Bottom), ResizeCursor::Vertical);
}

#[test]
fn app_resize_cursors_are_correct() {
    check_cursors();
}

#[test]
fn interaction_resize_cursors_are_correct() {
    check_cursors();
}

#[test]
fn handle_order_is_rows_then_sides() {
    let hs = resize_handle_order();
    assert_eq!(
        hs,
        [
            ResizeHandle::TopLeft,
            ResizeHandle::Top,
            ResizeHandle::TopRight,
            ResizeHandle::Left,
            ResizeHandle::Right,
            ResizeHandle::BottomLeft,
            ResizeHandle::Bottom,
            ResizeHandle::BottomRight,
        ]
    );
    assert_eq!(handle_anchor(ResizeHandle::Top), (Anchor::Middle, Anchor::Start));
    assert_eq!(handle_anchor(ResizeHandle::BottomLeft), (Anchor::Start, Anchor::End));
}

#[test]
fn resize_plans() {
    assert_eq!(resize_plan(ResizeHandle::BottomRight), (EdgeMotion::MoveEnd, EdgeMotion::MoveEnd));
    assert_eq!(resize_plan(ResizeHandle::TopLeft), (EdgeMotion::MoveStart, EdgeMotion::MoveStart));
    assert_eq!(resize_plan(ResizeHandle::Right), (EdgeMotion::MoveEnd, EdgeMotion::Keep));
    assert_eq!(resize_plan(ResizeHandle::Bottom), (EdgeMotion::Keep, EdgeMotion::MoveEnd));
    assert_eq!(resize_plan(ResizeHandle::TopRight), (EdgeMotion::MoveEnd, EdgeMotion::MoveStart));
    assert_eq!(resize_plan(ResizeHandle::BottomLeft), (EdgeMotion::MoveStart, EdgeMotion::MoveEnd));
    assert_eq!(resize_plan(ResizeHandle::Left), (EdgeMotion::MoveStart, EdgeMotion::Keep));
    assert_eq!(resize_plan(ResizeHandle::Top), (EdgeMotion::Keep, EdgeMotion::MoveStart));
}

#[test]
fn tool_shortcuts() {
    assert_eq!(tool_for_key('v'), Some(Tool::Select));
    assert_eq!(tool_for_key('E'), Some(Tool::Connect));
    assert_eq!(tool_for_key('x'), None);
}

use flowchart::modes::{pick_cursor, CanvasCursor, DragKind, HoverHits};

fn hits() -> HoverHits {
    HoverHits { handle: None, port: false, node: false, edge: false, section_label: false, summary_panel: false }
}

#[test]
fn cursor_follows_drag_then_hover() {
    assert_eq!(pick_cursor(DragKind::Panning, false, Tool::Select, None), CanvasCursor::Grabbing);
    assert_eq!(pick_cursor(DragKind::Resizing(ResizeHandle::Top), false, Tool::Select, None), CanvasCursor::Resize(ResizeCursor::Vertical));
    assert_eq!(pick_cursor(DragKind::Idle, true, Tool::Select, None), CanvasCursor::Grab);
    assert_eq!(pick_cursor(DragKind::Idle, false, Tool::Connect, None), CanvasCursor::Crosshair);
    assert_eq!(pick_cursor(DragKind::Idle, false, Tool::Select, None), CanvasCursor::Default);
    let mut h = hits();
    h.node = true;
    h.edge = true;
    assert_eq!(pick_cursor(DragKind::Idle, false, Tool::Select, Some(h)), CanvasCursor::Grab);
    h.handle = Some(ResizeHandle::TopRight);
    assert_eq!(pick_cursor(DragKind::Idle, false, Tool::Select, Some(h)), CanvasCursor::Resize(ResizeCursor::NeSw));
    let mut h = hits();
    h.section_label = true;
    assert_eq!(pick_cursor(DragKind::Idle, false, Tool::Select, Some(h)), CanvasCursor::Text);
    let mut h = hits();
    h.summary_panel = true;
    assert_eq!(pick_cursor(DragKind::Idle, false, Tool::Select, Some(h)), CanvasCursor::PointingHand);
}
