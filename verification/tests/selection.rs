use flowchart::model::{Edge, FlowchartDocument, Node, NodeKind, NodeShape, NodeTag, Port, PortSide, EdgeStyle};
use flowchart::selection::{diagram_stats, nodes_in_section, select_edges, select_nodes, DiagramStats, NodeFilter};
use std::collections::HashSet;

fn node(id: u128, shape: NodeShape) -> Node {
    Node::new(id, NodeKind::Shape { shape }, String::new())
}

fn edge(id: u128, from: u128, to: u128) -> Edge {
    Edge {
        id,
        source: Port { node_id: from, side: PortSide::Right },
        target: Port { node_id: to, side: PortSide::Left },
        label: String::new(),
        style: EdgeStyle::plain([205, 214, 244, 255]),
    }
}

fn doc() -> FlowchartDocument {
    let mut d = FlowchartDocument::new();
    let mut a = node(1, NodeShape::Diamond);
    a.section_name = String::from("Risks");
    a.tag = Some(NodeTag::Critical);
    let mut b = node(2, NodeShape::Rectangle);
    b.section_name = String::from("Risks");
    let mut c = node(3, NodeShape::Diamond);
    c.section_name = String::from("Evidence");
    let mut f = node(4, NodeShape::Rectangle);
    f.is_frame = true;
    let e = node(5, NodeShape::Circle);
    d.nodes.extend([a, b, c, f, e]);
    d.edges.push(edge(10, 1, 2));
    d.edges.push(edge(11, 2, 3));
    d
}

fn set(v: &[u128]) -> HashSet<u128> {
    v.iter().copied().collect()
}

#[test]
fn selecting_nodes() {
    let d = doc();
    assert_eq!(select_nodes(&d, &NodeFilter::All), set(&[1, 2, 3, 4, 5]));
    assert_eq!(select_nodes(&d, &NodeFilter::Orphans), set(&[5]));
    assert_eq!(select_nodes(&d, &NodeFilter::Shape(NodeShape::Diamond)), set(&[1, 3]));
    assert_eq!(select_nodes(&d, &NodeFilter::Tag(Some(NodeTag::Critical))), set(&[1]));
    assert_eq!(select_nodes(&d, &NodeFilter::Tag(None)), set(&[2, 3, 4, 5]));
    assert_eq!(select_nodes(&d, &NodeFilter::NotIn(set(&[1, 5]))), set(&[2, 3, 4]));
    assert_eq!(nodes_in_section(&d, "Risks"), set(&[1, 2]));
    assert_eq!(nodes_in_section(&d, ""), set(&[4, 5]));
}

#[test]
fn selecting_edges() {
    let d = doc();
    assert_eq!(select_edges(&d, &set(&[]), false), set(&[10, 11]));
    assert_eq!(select_edges(&d, &set(&[1, 2]), true), set(&[10]));
    assert_eq!(select_edges(&d, &set(&[1, 3]), true), set(&[]));
}

#[test]
fn stats() {
    assert_eq!(
        diagram_stats(&doc()),
        DiagramStats { nodes: 5, edges: 2, frames: 1, sections: 2, unconnected: 1 }
    );
    assert_eq!(
        diagram_stats(&FlowchartDocument::new()),
        DiagramStats { nodes: 0, edges: 0, frames: 0, sections: 0, unconnected: 0 }
    );
}

#[test]
fn inverting_twice_keeps_selected_nodes_of_the_document() {
    let d = doc();
    let chosen = set(&[2, 5, 77]);
    let once = select_nodes(&d, &NodeFilter::NotIn(chosen));
    assert_eq!(once, set(&[1, 3, 4]));
    let twice = select_nodes(&d, &NodeFilter::NotIn(once));
    assert_eq!(twice, set(&[2, 5]));
}
