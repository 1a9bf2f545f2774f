use flowchart::model::{FlowchartDocument, Node, NodeKind, NodeShape};
use flowchart::workload::{node_owner, workload};

fn node(id: u128, section: &str, sublabel: &str) -> Node {
    let mut n = Node::new(id, NodeKind::Shape { shape: NodeShape::Rectangle }, String::new());
    n.section_name = section.to_string();
    n.sublabel = sublabel.to_string();
    n
}

#[test]
fn owner_comes_from_first_owner_line() {
    assert_eq!(node_owner(&node(1, "", "📅 2026-02-01\n👤  Alice \n👤 Bob")), "Alice");
    assert_eq!(node_owner(&node(2, "", "nobody")), "Unassigned");
    assert_eq!(node_owner(&node(3, "", "👤 Eve\r\nmore")), "Eve");
}

#[test]
fn workload_counts_per_owner_and_section() {
    let mut d = FlowchartDocument::new();
    d.nodes.push(node(1, "Todo", "👤 Bob"));
    d.nodes.push(node(2, "Doing", "👤 Alice"));
    d.nodes.push(node(3, "Todo", "👤 Alice"));
    d.nodes.push(node(4, "", "👤 Bob"));
    d.nodes.push(node(5, "Todo", ""));
    d.nodes.push(node(6, "Todo", "👤 Bob"));
    let w = workload(&d);
    assert_eq!(w.sections, vec!["Todo", "Doing"]);
    let owners: Vec<&str> = w.rows.iter().map(|r| r.owner.as_str()).collect();
    assert_eq!(owners, vec!["Alice", "Bob", "Unassigned"]);
    assert_eq!(w.rows[0].counts, vec![1, 1]);
    assert_eq!(w.rows[0].total, 2);
    assert_eq!(w.rows[1].counts, vec![2, 0]);
    assert_eq!(w.rows[1].total, 2);
    assert_eq!(w.rows[2].counts, vec![1, 0]);
    assert_eq!(w.rows[2].total, 1);
    for r in &w.rows {
        assert_eq!(r.total, r.counts.iter().sum::<usize>());
    }
}

#[test]
fn workload_of_empty_document_is_empty() {
    let w = workload(&FlowchartDocument::new());
    assert!(w.rows.is_empty() && w.sections.is_empty());
}
