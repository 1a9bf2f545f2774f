use flowchart::dispatch::{palette_step, PaletteOutcome, PaletteRequest, PaletteState};
use flowchart::edits::NodeChange;
use flowchart::model::{Edge, EdgeStyle, FlowchartDocument, Node, NodeKind, NodeShape, NodeTag, Port, PortSide};
use flowchart::palette::PaletteAction;
use std::collections::HashSet;

fn invert(c: [u8; 4]) -> [u8; 4] {
    [255 - c[0], 255 - c[1], 255 - c[2], 255]
}

fn edge(id: u128, from: u128, to: u128) -> Edge {
    Edge {
        id,
        source: Port { node_id: from, side: PortSide::Right },
        target: Port { node_id: to, side: PortSide::Left },
        label: String::new(),
        style: EdgeStyle::plain([1, 1, 1, 255]),
    }
}

fn state(selected: &[u128]) -> PaletteState {
    let mut d = FlowchartDocument::new();
    d.nodes.push(Node::new(1, NodeKind::Shape { shape: NodeShape::Diamond }, String::from("Start")));
    d.nodes.push(Node::new(2, NodeKind::Shape { shape: NodeShape::Diamond }, String::from("Check")));
    d.nodes.push(Node::new(3, NodeKind::StickyNote, String::from("Note")));
    d.nodes.push(Node::new(4, NodeKind::Shape { shape: NodeShape::Rectangle }, String::from("Lone")));
    d.nodes[0].tag = Some(NodeTag::Warning);
    d.nodes[2].tag = Some(NodeTag::Warning);
    d.nodes[1].section_name = String::from("Plan");
    d.nodes[3].section_name = String::from("Plan");
    d.edges.push(edge(100, 1, 2));
    d.edges.push(edge(101, 2, 3));
    PaletteState { doc: d, nodes: selected.iter().copied().collect(), edges: HashSet::new(), style: None }
}

fn step(st: &mut PaletteState, order: &[u128], action: PaletteAction) -> PaletteOutcome {
    let order: Vec<u128> = order.to_vec();
    let fresh: Vec<u128> = order.iter().map(|i| i + 1000).collect();
    let edge_order: Vec<u128> = st.edges.iter().copied().collect();
    palette_step(st, action, &order, &edge_order, &fresh, false, invert)
}

fn set(ids: &[u128]) -> HashSet<u128> {
    ids.iter().copied().collect()
}

#[test]
fn view_actions_are_left_to_the_editor() {
    let mut st = state(&[1]);
    let out = step(&mut st, &[1], PaletteAction::ZoomIn);
    assert_eq!(out, PaletteOutcome { snapshot: false, status: None, request: PaletteRequest::Editor(PaletteAction::ZoomIn) });
    let out = step(&mut st, &[1], PaletteAction::ToggleFocusMode);
    assert_eq!(out.status.unwrap(), "Focus mode on \u{2014} unrelated nodes dimmed");
    let out = step(&mut st, &[1], PaletteAction::ResetView);
    assert_eq!(out.status.unwrap(), "View reset to 100% \u{2014} Cmd+1 to fit all");
    assert_eq!(st.nodes, set(&[1]));
}

#[test]
fn selection_actions() {
    let mut st = state(&[1]);
    step(&mut st, &[1], PaletteAction::SelectAll);
    assert_eq!(st.nodes, set(&[1, 2, 3, 4]));
    let mut st = state(&[1, 3]);
    let out = step(&mut st, &[1, 3], PaletteAction::InvertSelection);
    assert_eq!(st.nodes, set(&[2, 4]));
    assert_eq!(out.status.unwrap(), "Selection inverted \u{2014} 2 nodes selected");
    let mut st = state(&[1]);
    let out = step(&mut st, &[1], PaletteAction::SelectSimilarShape);
    assert_eq!(st.nodes, set(&[1, 2]));
    assert_eq!(out.request, PaletteRequest::SimilarShape(NodeShape::Diamond, 2));
    let mut st = state(&[3]);
    let out = step(&mut st, &[3], PaletteAction::SelectSimilarTag);
    assert_eq!(st.nodes, set(&[1, 3]));
    assert_eq!(out.request, PaletteRequest::SimilarTag(Some(NodeTag::Warning), 2));
    let mut st = state(&[2]);
    let out = step(&mut st, &[2], PaletteAction::SelectSimilarSection);
    assert_eq!(st.nodes, set(&[2, 4]));
    assert_eq!(out.status.unwrap(), "Selected 2 nodes in \"Plan\"");
    let mut st = state(&[]);
    let out = step(&mut st, &[], PaletteAction::SelectOrphans);
    assert_eq!(st.nodes, set(&[4]));
    assert_eq!(out.status.unwrap(), "Selected 1 unconnected node");
    let mut st = state(&[1, 2]);
    let out = step(&mut st, &[1, 2], PaletteAction::SelectEdgesOfSelection);
    assert_eq!(st.edges, set(&[100]));
    assert_eq!(out.status.unwrap(), "Selected 1 edge between nodes");
    let out = step(&mut st, &[1, 2], PaletteAction::SelectAllEdges);
    assert_eq!(st.edges, set(&[100, 101]));
    assert_eq!(out.status.unwrap(), "Selected all 2 edges");
    step(&mut st, &[1, 2], PaletteAction::Deselect);
    assert!(st.nodes.is_empty() && st.edges.is_empty());
    let out = step(&mut st, &[], PaletteAction::SelectEdgesOfSelection);
    assert_eq!(out.status.unwrap(), "Select nodes first, then use this to select their edges");
}

#[test]
fn editing_actions() {
    let mut st = state(&[2]);
    let out = step(&mut st, &[2], PaletteAction::DeleteSelected);
    assert!(out.snapshot);
    assert_eq!(out.status.unwrap(), "Deleted 1 node \u{2014} Cmd+Z to undo");
    assert_eq!(st.doc.nodes.len(), 3);
    assert!(st.doc.edges.is_empty());
    assert!(st.nodes.is_empty());

    let mut st = state(&[1]);
    let out = step(&mut st, &[1], PaletteAction::Duplicate);
    assert_eq!(out.request, PaletteRequest::PlaceCopies(vec![1001]));
    assert_eq!(out.status.unwrap(), "Duplicated 1 node");
    assert_eq!(st.nodes, set(&[1001]));
    assert_eq!(st.doc.nodes[4].label, "Start");

    let mut st = state(&[1]);
    st.doc.nodes[0].fill_color = [9, 9, 9, 255];
    let out = step(&mut st, &[1], PaletteAction::CopyStyle);
    assert_eq!(out.status.unwrap(), "Style copied");
    assert!(matches!(st.style, Some(NodeChange::FillAndText([9, 9, 9, 255], [0, 0, 0, 255]))));
    st.nodes = set(&[3]);
    let out = step(&mut st, &[3], PaletteAction::PasteStyle);
    assert!(out.snapshot);
    assert_eq!(st.doc.nodes[2].fill_color, [9, 9, 9, 255]);

    let mut st = state(&[4, 2]);
    let out = step(&mut st, &[4, 2], PaletteAction::RandomizeColors);
    assert_eq!(out.status.unwrap(), "Applied 2 distinct colors");
    assert_eq!(st.doc.nodes[3].fill_color, [137, 180, 250, 255]);
    assert_eq!(st.doc.nodes[1].fill_color, [166, 227, 161, 255]);
    assert_eq!(st.doc.nodes[1].text_color, [89, 28, 94, 255]);
    let mut st = state(&[]);
    let out = step(&mut st, &[], PaletteAction::RandomizeColors);
    assert!(!out.snapshot);
    assert_eq!(out.status.unwrap(), "Select nodes first, then randomize");

    let mut st = state(&[]);
    let out = step(&mut st, &[], PaletteAction::CollapseAll);
    assert_eq!(out.status.unwrap(), "Collapsed 4 nodes");
    let out = step(&mut st, &[], PaletteAction::ExpandAll);
    assert_eq!(out.status.unwrap(), "Expanded 4 nodes");
}

#[test]
fn reporting_actions() {
    let mut st = state(&[]);
    let out = step(&mut st, &[], PaletteAction::QuickStats);
    assert_eq!(out.status.unwrap(), "4 nodes, 2 edges, 1 sections, 1 unconnected");
    let out = step(&mut st, &[], PaletteAction::CopyLabelsToClipboard);
    assert_eq!(out.request, PaletteRequest::CopyText(String::from("Start\nCheck\nNote\nLone")));
    assert_eq!(out.status.unwrap(), "Copied 4 labels to clipboard");
    let mut st = state(&[3, 1]);
    let out = step(&mut st, &[3, 1], PaletteAction::CopyLabelsToClipboard);
    assert_eq!(out.request, PaletteRequest::CopyText(String::from("Note\nStart")));
    let mut st = state(&[]);
    let out = step(&mut st, &[], PaletteAction::ExportMermaid);
    assert_eq!(out.status.unwrap(), "Mermaid copied to clipboard");
    assert!(matches!(out.request, PaletteRequest::CopyText(ref t) if t.starts_with("flowchart LR")));
}
