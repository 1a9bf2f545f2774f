use flowchart::double_click::{double_click, DoubleClick};
use flowchart::model::{FlowchartDocument, Node, NodeKind, NodeShape};

fn invert(c: [u8; 4]) -> [u8; 4] {
    [255 - c[0], 255 - c[1], 255 - c[2], 255]
}

fn doc() -> FlowchartDocument {
    let mut d = FlowchartDocument::new();
    d.nodes.push(Node::new(1, NodeKind::Shape { shape: NodeShape::Diamond }, String::from("Decide")));
    d.nodes.push(Node::new(2, NodeKind::StickyNote, String::from("Note")));
    d
}

#[test]
fn double_click_on_a_node_or_edge_edits_its_label() {
    let mut d = doc();
    let r = double_click(&mut d, Some(2), Some(50), true, None, None, 9, invert);
    assert_eq!(r, DoubleClick::EditNode(2, String::from("Note")));
    assert_eq!(double_click(&mut d, Some(7), None, true, None, None, 9, invert), DoubleClick::FocusLabel(7));
    assert_eq!(double_click(&mut d, None, Some(50), true, None, None, 9, invert), DoubleClick::EditEdge(50));
    assert_eq!(d.nodes.len(), 2);
}

#[test]
fn double_click_on_empty_canvas_creates_a_node() {
    let mut d = doc();
    assert_eq!(double_click(&mut d, None, None, false, None, None, 9, invert), DoubleClick::Nothing);
    let r = double_click(&mut d, None, None, true, Some(String::from("Risks")), None, 9, invert);
    assert_eq!(r, DoubleClick::RenameSection(String::from("Risks")));
    assert_eq!(d.nodes.len(), 2);
    let r = double_click(&mut d, None, None, true, None, None, 9, invert);
    assert_eq!(r, DoubleClick::Created(9));
    let n = &d.nodes[2];
    assert_eq!(n.id, 9);
    assert_eq!(n.kind, NodeKind::Shape { shape: NodeShape::Rectangle });
    assert_eq!(n.fill_color, [255, 255, 255, 255]);
    assert_eq!(n.section_name, "");
    let r = double_click(&mut d, None, None, true, None, Some(String::from("Key Risks")), 10, invert);
    assert_eq!(r, DoubleClick::Created(10));
    let n = &d.nodes[3];
    assert_eq!(n.section_name, "Key Risks");
    assert_eq!(n.fill_color, [243, 139, 168, 255]);
    assert_eq!(n.text_color, [12, 116, 87, 255]);
    assert_eq!(n.kind, NodeKind::Shape { shape: NodeShape::Diamond });
}
