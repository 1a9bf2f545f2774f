use flowchart::model::{FlowchartDocument, Node, NodeKind, NodeShape, NodeTag};
use flowchart::sections::{section_order, section_progress};

fn node(id: u128, section: &str, tag: Option<NodeTag>, half_done: bool) -> Node {
    let mut n = Node::new(id, NodeKind::Shape { shape: NodeShape::Rectangle }, String::new());
    n.section_name = String::from(section);
    n.tag = tag;
    n.half_done = half_done;
    n
}

fn doc() -> FlowchartDocument {
    let mut d = FlowchartDocument::new();
    d.nodes.push(node(1, "Risks", Some(NodeTag::Critical), false));
    d.nodes.push(node(2, "", Some(NodeTag::Done), false));
    d.nodes.push(node(3, "Evidence", Some(NodeTag::Done), false));
    d.nodes.push(node(4, "Risks", Some(NodeTag::Warning), true));
    d.nodes.push(node(5, "Claims", Some(NodeTag::Info), false));
    d.nodes.push(node(6, "Risks", Some(NodeTag::Warning), false));
    d.nodes.push(node(7, "Evidence", None, false));
    d
}

#[test]
fn section_order_is_first_occurrence() {
    let names = section_order(&doc());
    assert_eq!(names, vec!["Risks".to_string(), "Evidence".to_string(), "Claims".to_string()]);
}

#[test]
fn section_order_of_unsectioned_doc_is_empty() {
    let mut d = FlowchartDocument::new();
    d.nodes.push(node(1, "", None, false));
    assert!(section_order(&d).is_empty());
}

#[test]
fn section_progress_counts_per_section_sorted_by_name() {
    let rows = section_progress(&doc());
    let names: Vec<&str> = rows.iter().map(|r| r.name.as_str()).collect();
    assert_eq!(names, vec!["Claims", "Evidence", "Risks"]);
    let claims = &rows[0];
    assert_eq!((claims.done, claims.wip, claims.review, claims.blocked, claims.total), (0, 1, 0, 0, 1));
    let evidence = &rows[1];
    assert_eq!((evidence.done, evidence.wip, evidence.review, evidence.blocked, evidence.total), (1, 0, 0, 0, 2));
    let risks = &rows[2];
    assert_eq!((risks.done, risks.wip, risks.review, risks.blocked, risks.total), (0, 0, 1, 1, 3));
}

#[test]
fn section_progress_skips_unsectioned_nodes() {
    let mut d = FlowchartDocument::new();
    d.nodes.push(node(1, "", Some(NodeTag::Done), false));
    assert!(section_progress(&d).is_empty());
}
