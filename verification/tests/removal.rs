use flowchart::model::{Edge, EdgeStyle, FlowchartDocument, Node, NodeKind, NodeShape, Port, PortSide};
use flowchart::removal::delete_selected;

fn node(id: u128) -> Node {
    Node::new(id, NodeKind::Shape { shape: NodeShape::Rectangle }, format!("n{}", id))
}

fn edge(id: u128, from: u128, to: u128) -> Edge {
    Edge {
        id,
        source: Port { node_id: from, side: PortSide::Right },
        target: Port { node_id: to, side: PortSide::Left },
        label: String::new(),
        style: EdgeStyle::plain([1, 1, 1, 255]),
    }
}

fn doc() -> FlowchartDocument {
    let mut d = FlowchartDocument::new();
    for id in 1..=4u128 {
        d.nodes.push(node(id));
    }
    d.edges.push(edge(100, 1, 2));
    d.edges.push(edge(101, 3, 4));
    d.edges.push(edge(102, 4, 1));
    d.edges.push(edge(103, 3, 3));
    d
}

#[test]
fn deleting_nodes_takes_their_edges_along() {
    let mut d = doc();
    d.nodes[3].locked = true;
    let m = delete_selected(&mut d, &vec![1, 4], &vec![103]);
    assert_eq!(m.unwrap(), "Deleted 1 node, 1 edge \u{2014} Cmd+Z to undo");
    let ids: Vec<u128> = d.nodes.iter().map(|n| n.id).collect();
    assert_eq!(ids, vec![2, 3, 4]);
    let eids: Vec<u128> = d.edges.iter().map(|e| e.id).collect();
    assert_eq!(eids, vec![101]);
}

#[test]
fn deleting_nothing_says_nothing() {
    let mut d = doc();
    d.nodes[0].locked = true;
    assert_eq!(delete_selected(&mut d, &vec![1], &vec![]), None);
    assert_eq!(d.nodes.len(), 4);
    assert_eq!(d.edges.len(), 4);
    let m = delete_selected(&mut d, &vec![2, 3], &vec![]);
    assert_eq!(m.unwrap(), "Deleted 2 nodes \u{2014} Cmd+Z to undo");
    let eids: Vec<u128> = d.edges.iter().map(|e| e.id).collect();
    assert_eq!(eids, vec![102]);
}
