use flowchart::folding::{collapse_all, collapsed_message, expand_all, expanded_message};
use flowchart::model::{FlowchartDocument, Node, NodeKind, NodeShape};

fn doc() -> FlowchartDocument {
    let mut d = FlowchartDocument::new();
    for id in 1..=4u128 {
        d.nodes.push(Node::new(id, NodeKind::Shape { shape: NodeShape::Rectangle }, format!("n{}", id)));
    }
    d.nodes[1].is_frame = true;
    d.nodes[2].collapsed = true;
    d
}

#[test]
fn collapse_all_skips_frames_and_collapsed_nodes() {
    let mut d = doc();
    let n = collapse_all(&mut d);
    assert_eq!(n, 2);
    assert_eq!(collapsed_message(n), "Collapsed 2 nodes");
    let flags: Vec<bool> = d.nodes.iter().map(|n| n.collapsed).collect();
    assert_eq!(flags, vec![true, false, true, true]);
    assert_eq!(collapse_all(&mut d), 0);
}

#[test]
fn expand_all_counts_the_collapsed_nodes() {
    let mut d = doc();
    let n = expand_all(&mut d);
    assert_eq!(n, 1);
    assert_eq!(expanded_message(n), "Expanded 1 nodes");
    assert!(d.nodes.iter().all(|n| !n.collapsed));
    collapse_all(&mut d);
    assert_eq!(expand_all(&mut d), 3);
}
