use flowchart::model::{FlowchartDocument, Node, NodeKind};
use flowchart::readout::readout_line_text;

fn doc() -> FlowchartDocument {
    let mut d = FlowchartDocument::new();
    for id in 1..=7u128 {
        d.nodes.push(Node::new(id, NodeKind::Text, String::new()));
    }
    d
}

#[test]
fn readout_without_selection() {
    assert_eq!(readout_line_text(&doc(), 0, 0, None, ""), "7N  0E");
}

#[test]
fn readout_with_a_lone_node() {
    assert_eq!(readout_line_text(&doc(), 1, 0, Some(3), "  140×60"), "1N sel  140×60  (3/7)  ·  7N 0E");
    assert_eq!(readout_line_text(&doc(), 1, 0, Some(99), ""), "1N sel  (1/7)  ·  7N 0E");
}

#[test]
fn readout_with_nodes_and_edges() {
    assert_eq!(readout_line_text(&doc(), 2, 1, None, ""), "2N+1E sel  ·  7N 0E");
    assert_eq!(readout_line_text(&doc(), 0, 4, None, ""), "4E sel  ·  7N 0E");
}
