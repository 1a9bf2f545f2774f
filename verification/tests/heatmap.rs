use flowchart::heatmap::{heat_scale, node_degrees};
use flowchart::model::{Edge, EdgeStyle, FlowchartDocument, Node, NodeKind, Port, PortSide};

fn edge(id: u128, from: u128, to: u128) -> Edge {
    Edge {
        id,
        source: Port { node_id: from, side: PortSide::Bottom },
        target: Port { node_id: to, side: PortSide::Top },
        label: String::new(),
        style: EdgeStyle::plain([0, 0, 0, 255]),
    }
}

#[test]
fn degrees_count_edge_ends() {
    let mut d = FlowchartDocument::new();
    for id in 1..=3u128 {
        d.nodes.push(Node::new(id, NodeKind::Text, String::new()));
    }
    d.edges.push(edge(10, 1, 2));
    d.edges.push(edge(11, 1, 3));
    d.edges.push(edge(12, 3, 3));
    assert_eq!(node_degrees(&d), vec![2, 1, 3]);
    assert_eq!(heat_scale(&d), 3);
    assert_eq!(node_degrees(&d).iter().sum::<usize>(), 2 * d.edges.len());
}

#[test]
fn heat_scale_is_at_least_one_and_counts_dangling_ends() {
    let mut d = FlowchartDocument::new();
    d.nodes.push(Node::new(1, NodeKind::Text, String::new()));
    assert_eq!(heat_scale(&d), 1);
    d.edges.push(edge(10, 7, 8));
    d.edges.push(edge(11, 7, 9));
    assert_eq!(node_degrees(&d), vec![0]);
    assert_eq!(heat_scale(&d), 2);
}
