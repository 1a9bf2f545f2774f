use flowchart::menus::{common_owners, owner_menu, section_menu, section_presets};
use flowchart::model::{FlowchartDocument, Node, NodeKind, NodeShape};

fn node(id: u128, section: &str, sublabel: &str) -> Node {
    let mut n = Node::new(id, NodeKind::Shape { shape: NodeShape::Rectangle }, String::new());
    n.section_name = section.to_string();
    n.sublabel = sublabel.to_string();
    n
}

#[test]
fn section_menu_lists_used_then_unused_presets() {
    let mut d = FlowchartDocument::new();
    d.nodes.push(node(1, "Risks", ""));
    d.nodes.push(node(2, "Custom", ""));
    d.nodes.push(node(3, "", ""));
    d.nodes.push(node(4, "Risks", ""));
    let m = section_menu(&d);
    assert_eq!(m.in_document, vec!["Custom", "Risks"]);
    assert_eq!(m.common.len(), section_presets().len() - 1);
    assert!(!m.common.iter().any(|s| s == "Risks"));
    assert_eq!(m.common[0], "Hypotheses");
    assert_eq!(m.common[6], "Options");
    assert_eq!(m.common[7], "Roses");
    assert_eq!(m.common.last().unwrap(), "P4 — Low");
}

#[test]
fn owner_menu_lists_named_owners_then_common_ones() {
    let mut d = FlowchartDocument::new();
    d.nodes.push(node(1, "", "👤  Bob "));
    d.nodes.push(node(2, "", "👤 Zed"));
    d.nodes.push(node(3, "", "📅 2026-01-01\n👤 Carol"));
    d.nodes.push(node(4, "", "👤 Bob"));
    let m = owner_menu(&d);
    assert_eq!(m.in_document, vec!["Bob", "Zed"]);
    assert_eq!(m.common, vec!["Alice", "Charlie", "Dana", "Erin", "Frank", "Team", "On-call"]);
    assert_eq!(common_owners().len(), 8);
}
