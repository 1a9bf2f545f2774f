use flowchart::model::{Edge, EdgeStyle, FlowchartDocument, Node, NodeKind, NodeShape, NodeTag, Port, PortSide};
use flowchart::tooltip::{tooltip, TooltipParts};

fn edge(id: u128, from: u128, to: u128) -> Edge {
    Edge {
        id,
        source: Port { node_id: from, side: PortSide::Right },
        target: Port { node_id: to, side: PortSide::Left },
        label: String::new(),
        style: EdgeStyle::plain([1, 1, 1, 255]),
    }
}

fn parts() -> TooltipParts {
    TooltipParts {
        progress: None,
        dates: vec![],
        layer: None,
        layer_hints: String::new(),
        tag_name: String::from("Warning"),
    }
}

fn doc() -> FlowchartDocument {
    let mut d = FlowchartDocument::new();
    let mut a = Node::new(1, NodeKind::Shape { shape: NodeShape::Diamond }, String::from("Decide"));
    a.description = String::from("Pick a vendor");
    a.section_name = String::from("Plan");
    a.tag = Some(NodeTag::Warning);
    a.comment = String::from("check pricing");
    a.locked = true;
    d.nodes.push(a);
    d.nodes.push(Node::new(2, NodeKind::StickyNote, String::from("Note")));
    d.edges.push(edge(100, 1, 2));
    d.edges.push(edge(101, 2, 1));
    d.edges.push(edge(102, 2, 1));
    d
}

#[test]
fn plain_tooltip_shows_the_description_only() {
    let d = doc();
    let (label, rows) = tooltip(&d, 1, false, &parts()).unwrap();
    assert_eq!(label, "Decide");
    assert_eq!(rows, vec![String::from("Pick a vendor")]);
    assert!(tooltip(&d, 2, false, &parts()).is_none());
    assert!(tooltip(&d, 9, true, &parts()).is_none());
}

#[test]
fn rich_tooltip_lists_every_row_in_order() {
    let d = doc();
    let mut p = parts();
    p.progress = Some(String::from("50% █████░░░░░"));
    p.dates = vec![String::from("⏰ Due TODAY")];
    let (_, rows) = tooltip(&d, 1, true, &p).unwrap();
    assert_eq!(
        rows,
        vec![
            "Pick a vendor",
            "50% █████░░░░░",
            "↑2 in  ↓1 out",
            "§ Plan",
            "Tag: Warning",
            "⏰ Due TODAY",
            "💬 check pricing",
            "spec: [id] label {diamond} {warning}",
            "💬 check pricing",
            "🔒 Locked",
        ]
    );
}

#[test]
fn long_comments_are_cut() {
    let mut d = doc();
    d.nodes[1].comment = "x".repeat(100);
    let (_, rows) = tooltip(&d, 2, true, &parts()).unwrap();
    assert_eq!(rows[0], "↑1 in  ↓2 out");
    assert_eq!(rows[1], format!("💬 {}", "x".repeat(80)));
    assert_eq!(rows[2], format!("💬 {}…", "x".repeat(60)));
    assert_eq!(rows.len(), 3);
}
