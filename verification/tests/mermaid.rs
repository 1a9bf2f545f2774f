use flowchart::mermaid::to_mermaid;
use flowchart::model::{Edge, FlowchartDocument, Node, NodeKind, NodeShape, Port, PortSide, EdgeStyle};

fn node(id: u128, label: &str) -> Node {
    Node::new(id, NodeKind::Shape { shape: NodeShape::Rectangle }, label.to_string())
}

fn edge(from: u128, to: u128, label: &str) -> Edge {
    Edge {
        id: 7,
        source: Port { node_id: from, side: PortSide::Right },
        target: Port { node_id: to, side: PortSide::Left },
        label: label.to_string(),
        style: EdgeStyle::plain([205, 214, 244, 255]),
    }
}

const A: u128 = 0x67e5_5044_10b1_426f_9247_bb68_0e5f_e0c8;
const B: u128 = 0x0000_00ab_ffff_ffff_ffff_ffff_ffff_ffff;

#[test]
fn mermaid_empty_document_is_header_only() {
    assert_eq!(to_mermaid(&FlowchartDocument::new()), "flowchart LR\n");
}

#[test]
fn mermaid_nodes_and_edges() {
    let mut doc = FlowchartDocument::new();
    doc.nodes.push(node(A, "Start"));
    doc.nodes.push(node(B, ""));
    doc.edges.push(edge(A, B, "yes"));
    doc.edges.push(edge(B, A, ""));
    assert_eq!(
        to_mermaid(&doc),
        "flowchart LR\n    n_67e55044[\"Start\"]\n    n_000000ab\n    n_67e55044 -->|\"yes\"| n_000000ab\n    n_000000ab --> n_67e55044\n"
    );
}

#[test]
fn mermaid_labels_are_sanitized() {
    let mut doc = FlowchartDocument::new();
    doc.nodes.push(node(A, "  say \"hi\"\nthere \t"));
    doc.nodes.push(node(B, " \n "));
    assert_eq!(
        to_mermaid(&doc),
        "flowchart LR\n    n_67e55044[\"say 'hi' there\"]\n    n_000000ab\n"
    );
}

#[test]
fn mermaid_trims_unicode_whitespace() {
    let mut doc = FlowchartDocument::new();
    doc.nodes.push(node(A, "\u{3000}Idea\u{a0}"));
    assert_eq!(to_mermaid(&doc), "flowchart LR\n    n_67e55044[\"Idea\"]\n");
}

use flowchart::mermaid::{mermaid_id, sanitize};

#[test]
fn mermaid_ids_are_prefix_and_eight_hex_digits() {
    assert_eq!(mermaid_id(A), "n_67e55044");
    assert_eq!(mermaid_id(0), "n_00000000");
    assert_eq!(mermaid_id(u128::MAX), "n_ffffffff");
}

#[test]
fn sanitize_replaces_quotes_and_breaks() {
    assert_eq!(sanitize(" a \"b\"\nc "), "a 'b' c");
    assert_eq!(sanitize(""), "");
}

#[test]
fn mermaid_ids_collide_exactly_on_the_top_eight_digits() {
    let a: u128 = 0x67e55044_10b1_426f_9247_bb680e5fe0c8;
    let b: u128 = 0x67e55044_ffff_0000_1111_222233334444;
    let c: u128 = 0x67e55045_10b1_426f_9247_bb680e5fe0c8;
    assert_eq!(mermaid_id(a), mermaid_id(b));
    assert_ne!(mermaid_id(a), mermaid_id(c));
    assert!(!mermaid_id(a).contains('-'));
}
