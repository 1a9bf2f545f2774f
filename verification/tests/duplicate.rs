use flowchart::duplicate::duplicate_nodes;
use flowchart::model::{FlowchartDocument, Node, NodeKind, NodeShape, NodeTag};

#[test]
fn duplicates_get_the_fresh_ids_and_keep_everything_else() {
    let mut d = FlowchartDocument::new();
    let mut a = Node::new(1, NodeKind::Shape { shape: NodeShape::Hexagon }, String::from("Build"));
    a.tag = Some(NodeTag::Warning);
    a.section_name = String::from("Plan");
    d.nodes.push(a);
    d.nodes.push(Node::new(2, NodeKind::StickyNote, String::from("Note")));
    let ids = duplicate_nodes(&mut d, &vec![2, 99, 1], &vec![20, 990, 10]);
    assert_eq!(ids, vec![20, 10]);
    assert_eq!(d.nodes.len(), 4);
    assert_eq!(d.nodes[2].id, 20);
    assert_eq!(d.nodes[2].label, "Note");
    assert_eq!(d.nodes[2].kind, NodeKind::StickyNote);
    assert_eq!(d.nodes[3].id, 10);
    assert_eq!(d.nodes[3].label, "Build");
    assert_eq!(d.nodes[3].tag, Some(NodeTag::Warning));
    assert_eq!(d.nodes[3].section_name, "Plan");
    assert_eq!(d.nodes[0].id, 1);
}

#[test]
fn duplicating_nothing_adds_nothing() {
    let mut d = FlowchartDocument::new();
    d.nodes.push(Node::new(1, NodeKind::StickyNote, String::new()));
    assert!(duplicate_nodes(&mut d, &vec![], &vec![]).is_empty());
    assert_eq!(d.nodes.len(), 1);
}
