use flowchart::model::{Node, NodeKind, NodeShape};
use flowchart::section::{apply_section_style, section_style};

/// A stand-in for the theme's contrast rule: it inverts the colour, so that a test sees
/// which fill the text colour was computed from.
fn invert(c: [u8; 4]) -> [u8; 4] {
    [255 - c[0], 255 - c[1], 255 - c[2], 255]
}

fn shape_node() -> Node {
    let mut n = Node::new(5, NodeKind::Shape { shape: NodeShape::Rectangle }, String::from("Idea"));
    n.fill_color = [1, 2, 3, 4];
    n
}

#[test]
fn section_styles_by_keyword() {
    let s = section_style("hypotheses").unwrap();
    assert_eq!(s.fill, [137, 180, 250, 255]);
    assert_eq!(s.shape, Some(NodeShape::RoundedRect));
    let s = section_style("key risks").unwrap();
    assert_eq!(s.fill, [243, 139, 168, 255]);
    assert_eq!(s.shape, Some(NodeShape::Diamond));
    let s = section_style("weaknesses").unwrap();
    assert_eq!(s.fill, [249, 226, 175, 255]);
    assert_eq!(s.shape, None);
    assert!(section_style("misc").is_none());
    // The first matching rule wins: "data" (evidence) before "risk".
    let s = section_style("risk data").unwrap();
    assert_eq!(s.shape, Some(NodeShape::Rectangle));
}

#[test]
fn apply_section_style_lowercases_and_sets_shape() {
    let mut n = shape_node();
    apply_section_style(&mut n, "Customer QUOTES", invert);
    assert_eq!(n.fill_color, [245, 194, 231, 255]);
    assert_eq!(n.text_color, [10, 61, 24, 255]);
    assert_eq!(n.kind, NodeKind::Shape { shape: NodeShape::Callout });
    assert_eq!(n.label, "Idea");
}

#[test]
fn apply_section_style_keeps_kind_of_non_shapes() {
    let mut n = shape_node();
    n.kind = NodeKind::StickyNote;
    apply_section_style(&mut n, "Evidence", invert);
    assert_eq!(n.fill_color, [166, 227, 161, 255]);
    assert_eq!(n.text_color, [89, 28, 94, 255]);
    assert_eq!(n.kind, NodeKind::StickyNote);
}

#[test]
fn apply_section_style_unknown_section_changes_nothing() {
    let mut n = shape_node();
    apply_section_style(&mut n, "Backlog", invert);
    assert_eq!(n.fill_color, [1, 2, 3, 4]);
    assert_eq!(n.text_color, [0, 0, 0, 255]);
    assert_eq!(n.kind, NodeKind::Shape { shape: NodeShape::Rectangle });
}

#[test]
fn section_style_twice_and_in_capitals_looks_the_same() {
    let mut once = shape_node();
    apply_section_style(&mut once, "pain points", invert);
    let mut twice = shape_node();
    apply_section_style(&mut twice, "pain points", invert);
    apply_section_style(&mut twice, "pain points", invert);
    let mut upper = shape_node();
    apply_section_style(&mut upper, "PAIN POINTS", invert);
    for n in [&twice, &upper] {
        assert_eq!(n.fill_color, once.fill_color);
        assert_eq!(n.text_color, once.text_color);
        assert_eq!(n.kind, once.kind);
    }
}
