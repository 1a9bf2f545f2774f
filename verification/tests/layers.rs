use flowchart::layers::compute_z_layers;
use flowchart::model::{Edge, FlowchartDocument, Node, NodeKind, NodeShape, Port, PortSide, EdgeStyle};

fn node(id: u128) -> Node {
    Node::new(id, NodeKind::Shape { shape: NodeShape::Rectangle }, String::from("New Node"))
}

fn edge(id: u128, from: u128, to: u128) -> Edge {
    Edge {
        id,
        source: Port { node_id: from, side: PortSide::Right },
        target: Port { node_id: to, side: PortSide::Left },
        label: String::new(),
        style: EdgeStyle::plain([205, 214, 244, 255]),
    }
}

#[test]
fn z_layers_empty_doc() {
    let doc = FlowchartDocument::new();
    let layers = compute_z_layers(&doc);
    assert!(layers.is_empty());
}

#[test]
fn z_layers_single_node() {
    let mut doc = FlowchartDocument::new();
    let nid = 0x1111_u128 << 96;
    doc.nodes.push(node(nid));
    let layers = compute_z_layers(&doc);
    assert_eq!(layers[&nid], 0);
}

#[test]
fn z_layers_linear_chain() {
    let mut doc = FlowchartDocument::new();
    let (a_id, b_id, c_id) = (1u128, 2u128, 3u128);
    doc.nodes.push(node(a_id));
    doc.nodes.push(node(b_id));
    doc.nodes.push(node(c_id));
    doc.edges.push(edge(10, a_id, b_id));
    doc.edges.push(edge(11, b_id, c_id));
    let layers = compute_z_layers(&doc);
    assert_eq!(layers[&a_id], 0);
    assert_eq!(layers[&b_id], 1);
    assert_eq!(layers[&c_id], 2);
}

#[test]
fn z_layers_disconnected_nodes() {
    let mut doc = FlowchartDocument::new();
    let (a_id, b_id) = (1u128, 2u128);
    doc.nodes.push(node(a_id));
    doc.nodes.push(node(b_id));
    let layers = compute_z_layers(&doc);
    assert_eq!(layers[&a_id], 0);
    assert_eq!(layers[&b_id], 0);
}

#[test]
fn z_layers_cycle_starts_from_first_node() {
    // Every node has an incoming edge, so the first node is the root.
    let mut doc = FlowchartDocument::new();
    doc.nodes.push(node(1));
    doc.nodes.push(node(2));
    doc.nodes.push(node(3));
    doc.edges.push(edge(10, 1, 2));
    doc.edges.push(edge(11, 2, 3));
    doc.edges.push(edge(12, 3, 1));
    let layers = compute_z_layers(&doc);
    assert_eq!(layers[&1], 0);
    assert_eq!(layers[&2], 1);
    assert_eq!(layers[&3], 2);
    assert_eq!(layers.len(), 3);
}

#[test]
fn z_layers_take_the_shortest_route() {
    // 1 -> 2 -> 3 -> 4 and 1 -> 4: node 4 is one step from the root.
    let mut doc = FlowchartDocument::new();
    for id in 1..=4u128 {
        doc.nodes.push(node(id));
    }
    doc.edges.push(edge(10, 1, 2));
    doc.edges.push(edge(11, 2, 3));
    doc.edges.push(edge(12, 3, 4));
    doc.edges.push(edge(13, 1, 4));
    let layers = compute_z_layers(&doc);
    assert_eq!(layers[&4], 1);
    assert_eq!(layers[&3], 2);
}

#[test]
fn z_layers_unreached_node_is_on_layer_zero() {
    // 1 -> 2 is a chain; 3 <-> 4 is a cycle no root reaches.
    let mut doc = FlowchartDocument::new();
    for id in 1..=4u128 {
        doc.nodes.push(node(id));
    }
    doc.edges.push(edge(10, 1, 2));
    doc.edges.push(edge(11, 3, 4));
    doc.edges.push(edge(12, 4, 3));
    let layers = compute_z_layers(&doc);
    assert_eq!(layers[&1], 0);
    assert_eq!(layers[&2], 1);
    assert_eq!(layers[&3], 0);
    assert_eq!(layers[&4], 0);
}

#[test]
fn z_layers_include_edge_targets_outside_the_document() {
    let mut doc = FlowchartDocument::new();
    doc.nodes.push(node(1));
    doc.edges.push(edge(10, 1, 99));
    let layers = compute_z_layers(&doc);
    assert_eq!(layers[&99], 1);
    assert_eq!(layers.len(), 2);
}
