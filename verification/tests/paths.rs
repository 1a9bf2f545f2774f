use flowchart::model::{Edge, FlowchartDocument, Node, NodeKind, NodeShape, Port, PortSide, EdgeStyle};

fn node(id: u128) -> Node {
    Node::new(id, NodeKind::Shape { shape: NodeShape::Rectangle }, String::new())
}

fn edge(id: u128, from: u128, to: u128) -> Edge {
    Edge {
        id,
        source: Port { node_id: from, side: PortSide::Bottom },
        target: Port { node_id: to, side: PortSide::Top },
        label: String::new(),
        style: EdgeStyle::plain([205, 214, 244, 255]),
    }
}

fn diamond() -> FlowchartDocument {
    // 1 -> 2 -> 4, 1 -> 3 -> 4, 4 -> 5, and 6 on its own.
    let mut doc = FlowchartDocument::new();
    for id in 1..=6u128 {
        doc.nodes.push(node(id));
    }
    doc.edges.push(edge(100, 1, 2));
    doc.edges.push(edge(101, 1, 3));
    doc.edges.push(edge(102, 2, 4));
    doc.edges.push(edge(103, 3, 4));
    doc.edges.push(edge(104, 4, 5));
    doc
}

#[test]
fn path_length_to_self_is_zero() {
    let doc = diamond();
    assert_eq!(doc.bfs_path_length(3, 3), Some(0));
    assert!(doc.bfs_path_edges(3, 3).is_empty());
}

#[test]
fn path_length_follows_edges_both_ways() {
    let doc = diamond();
    assert_eq!(doc.bfs_path_length(1, 5), Some(3));
    assert_eq!(doc.bfs_path_length(5, 1), Some(3));
    assert_eq!(doc.bfs_path_length(2, 3), Some(2));
}

#[test]
fn path_length_unreachable_is_none() {
    let doc = diamond();
    assert_eq!(doc.bfs_path_length(1, 6), None);
    assert!(doc.bfs_path_edges(1, 6).is_empty());
}

#[test]
fn path_edges_lead_back_from_target() {
    let doc = diamond();
    // 5 is reached from 1 through 2 (the first edge out of 1), then 4.
    assert_eq!(doc.bfs_path_edges(1, 5), vec![104, 102, 100]);
    assert_eq!(doc.bfs_path_edges(5, 1), vec![100, 102, 104]);
}

#[test]
fn path_edges_count_matches_length() {
    let doc = diamond();
    for a in 1..=6u128 {
        for b in 1..=6u128 {
            let len = doc.bfs_path_length(a, b);
            let edges = doc.bfs_path_edges(a, b);
            assert_eq!(edges.len(), len.unwrap_or(0));
            assert_eq!(len, doc.bfs_path_length(b, a));
        }
    }
}
