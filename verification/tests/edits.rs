use flowchart::edge_edits::{edit_edge, sync_all_edge_colors, sync_edge_color, EdgeChange};
use flowchart::edits::{
    bring_to_front, due_sublabel, edit_nodes, find_node_index, owner_sublabel, priority_change, send_to_back,
    toggle_highlight, toggle_section, NodeChange, Priority,
};
use flowchart::model::{Edge, EdgeStyle, FlowchartDocument, Node, NodeKind, NodeShape, NodeTag, Port, PortSide};

/// A stand-in for the theme's contrast rule that inverts the colour.
fn invert(c: [u8; 4]) -> [u8; 4] {
    [255 - c[0], 255 - c[1], 255 - c[2], 255]
}

fn node(id: u128) -> Node {
    Node::new(id, NodeKind::Shape { shape: NodeShape::Rectangle }, format!("n{}", id))
}

fn edge(id: u128, from: u128, to: u128) -> Edge {
    Edge {
        id,
        source: Port { node_id: from, side: PortSide::Right },
        target: Port { node_id: to, side: PortSide::Left },
        label: String::new(),
        style: EdgeStyle::plain([1, 1, 1, 255]),
    }
}

fn doc() -> FlowchartDocument {
    let mut d = FlowchartDocument::new();
    for id in 1..=4u128 {
        d.nodes.push(node(id));
    }
    d.nodes[0].fill_color = [10, 20, 30, 255];
    d.edges.push(edge(100, 1, 2));
    d.edges.push(edge(101, 3, 9));
    d
}

fn ids(d: &FlowchartDocument) -> Vec<u128> {
    d.nodes.iter().map(|n| n.id).collect()
}

#[test]
fn set_tag_touches_only_listed_nodes() {
    let mut d = doc();
    edit_nodes(&mut d, &vec![2, 4, 77], &NodeChange::Tag(Some(NodeTag::Critical)));
    let tags: Vec<Option<NodeTag>> = d.nodes.iter().map(|n| n.tag).collect();
    assert_eq!(tags, vec![None, Some(NodeTag::Critical), None, Some(NodeTag::Critical)]);
    assert_eq!(d.edges.len(), 2);
}

#[test]
fn edit_reaches_only_first_node_with_an_id() {
    let mut d = doc();
    d.nodes.push(node(2));
    edit_nodes(&mut d, &vec![2], &NodeChange::Fill([9, 9, 9, 9]));
    assert_eq!(d.nodes[1].fill_color, [9, 9, 9, 9]);
    assert_eq!(d.nodes[4].fill_color, [255, 255, 255, 255]);
}

#[test]
fn priority_sets_tag_and_fill() {
    let mut d = doc();
    let c = priority_change(Priority::P2, invert);
    edit_nodes(&mut d, &vec![1, 3], &c);
    assert_eq!(d.nodes[0].tag, Some(NodeTag::Warning));
    assert_eq!(d.nodes[0].fill_color, [250, 179, 135, 255]);
    assert_eq!(d.nodes[0].text_color, [5, 76, 120, 255]);
    assert_eq!(d.nodes[1].text_color, [0, 0, 0, 255]);
    assert_eq!(d.nodes[2].fill_color, [250, 179, 135, 255]);
    let c = priority_change(Priority::P4, invert);
    edit_nodes(&mut d, &vec![1], &c);
    assert_eq!(d.nodes[0].tag, None);
    assert_eq!(d.nodes[0].fill_color, [166, 227, 161, 255]);
}

#[test]
fn assign_and_clear_owner() {
    let mut d = doc();
    edit_nodes(&mut d, &vec![1, 2], &NodeChange::Sublabel(owner_sublabel("Dana")));
    assert_eq!(d.nodes[0].sublabel, "👤 Dana");
    edit_nodes(&mut d, &vec![3], &NodeChange::Sublabel(due_sublabel("2026-03-20")));
    assert_eq!(d.nodes[2].sublabel, "📅 2026-03-20");
    edit_nodes(&mut d, &vec![1, 3], &NodeChange::ClearSublabelMarked("👤".to_string()));
    assert_eq!(d.nodes[0].sublabel, "");
    assert_eq!(d.nodes[1].sublabel, "👤 Dana");
    assert_eq!(d.nodes[2].sublabel, "📅 2026-03-20");
}

#[test]
fn design_type_changes_shape_only_of_shape_nodes() {
    let mut d = doc();
    d.nodes.push(Node::new(8, NodeKind::StickyNote, String::new()));
    edit_nodes(&mut d, &vec![1, 8], &NodeChange::ShapeAndFill(NodeShape::Hexagon, [203, 166, 247, 255], [0, 0, 0, 255]));
    assert_eq!(d.nodes[0].kind, NodeKind::Shape { shape: NodeShape::Hexagon });
    assert_eq!(d.nodes[4].kind, NodeKind::StickyNote);
    assert_eq!(d.nodes[4].fill_color, [203, 166, 247, 255]);
    assert_eq!(d.nodes[4].text_color, [0, 0, 0, 255]);
}

#[test]
fn toggle_highlight_all_or_none() {
    let mut d = doc();
    d.nodes[0].highlight = true;
    assert!(toggle_highlight(&mut d, &vec![1, 2]));
    assert!(d.nodes[0].highlight && d.nodes[1].highlight);
    assert!(!toggle_highlight(&mut d, &vec![1, 2]));
    assert!(!d.nodes[0].highlight && !d.nodes[1].highlight);
    // A missing identifier means not all are highlighted.
    d.nodes[0].highlight = true;
    assert!(toggle_highlight(&mut d, &vec![1, 99]));
    assert!(d.nodes[0].highlight);
}

#[test]
fn toggle_section_picks_and_unpicks() {
    let mut d = doc();
    toggle_section(&mut d, 2, "Risks");
    assert_eq!(d.nodes[1].section_name, "Risks");
    toggle_section(&mut d, 2, "Evidence");
    assert_eq!(d.nodes[1].section_name, "Evidence");
    toggle_section(&mut d, 2, "Evidence");
    assert_eq!(d.nodes[1].section_name, "");
    toggle_section(&mut d, 42, "Risks");
    assert!(d.nodes.iter().all(|n| n.section_name.is_empty()));
}

#[test]
fn reorder_nodes() {
    let mut d = doc();
    bring_to_front(&mut d, 2);
    assert_eq!(ids(&d), vec![1, 3, 4, 2]);
    send_to_back(&mut d, 4);
    assert_eq!(ids(&d), vec![4, 1, 3, 2]);
    send_to_back(&mut d, 50);
    assert_eq!(ids(&d), vec![4, 1, 3, 2]);
    assert_eq!(find_node_index(&d.nodes, 3), Some(2));
    assert_eq!(find_node_index(&d.nodes, 50), None);
}

#[test]
fn reverse_edge_twice_restores_it() {
    let mut d = doc();
    edit_edge(&mut d, 100, EdgeChange::Reverse);
    assert_eq!(d.edges[0].source.node_id, 2);
    assert_eq!(d.edges[0].target.node_id, 1);
    assert_eq!(d.edges[0].source.side, PortSide::Left);
    edit_edge(&mut d, 100, EdgeChange::Reverse);
    assert_eq!(d.edges[0].source.node_id, 1);
    assert_eq!(d.edges[0].target.node_id, 2);
}

#[test]
fn edge_style_toggles() {
    let mut d = doc();
    edit_edge(&mut d, 101, EdgeChange::ToggleDashed);
    edit_edge(&mut d, 101, EdgeChange::ToggleGlow);
    edit_edge(&mut d, 101, EdgeChange::Color([5, 6, 7, 8]));
    let s = d.edges[1].style;
    assert!(s.dashed && s.glow && !s.animated && !s.orthogonal);
    assert_eq!(s.color, [5, 6, 7, 8]);
    edit_edge(&mut d, 101, EdgeChange::ToggleDashed);
    assert!(!d.edges[1].style.dashed);
}

#[test]
fn sync_colors_from_source_nodes() {
    let mut d = doc();
    sync_edge_color(&mut d, 100);
    assert_eq!(d.edges[0].style.color, [10, 20, 30, 255]);
    let mut d = doc();
    sync_all_edge_colors(&mut d);
    assert_eq!(d.edges[0].style.color, [10, 20, 30, 255]);
    assert_eq!(d.edges[1].style.color, [255, 255, 255, 255]);
}

use flowchart::edits::{deletable, randomize_colors, rename_section};
use flowchart::selection::connected_ids;

#[test]
fn rename_section_moves_every_node_of_it() {
    let mut d = doc();
    d.nodes[0].section_name = "Todo".to_string();
    d.nodes[2].section_name = "Todo".to_string();
    d.nodes[3].section_name = "Done".to_string();
    let m = rename_section(&mut d, "Todo", "  Backlog ");
    assert_eq!(m.unwrap(), "Section renamed to \"Backlog\"");
    let secs: Vec<&str> = d.nodes.iter().map(|n| n.section_name.as_str()).collect();
    assert_eq!(secs, vec!["Backlog", "", "Backlog", "Done"]);
    assert_eq!(rename_section(&mut d, "Backlog", "Backlog"), None);
    assert_eq!(rename_section(&mut d, "Backlog", "   "), None);
    rename_section(&mut d, "Backlog", "Todo");
    let secs: Vec<&str> = d.nodes.iter().map(|n| n.section_name.as_str()).collect();
    assert_eq!(secs, vec!["Todo", "", "Todo", "Done"]);
}

#[test]
fn locked_nodes_are_not_deletable() {
    let mut d = doc();
    edit_nodes(&mut d, &vec![2], &NodeChange::ToggleLocked);
    assert!(d.nodes[1].locked);
    assert_eq!(deletable(&d, &vec![1, 2, 3, 99]), vec![1, 3, 99]);
    edit_nodes(&mut d, &vec![2, 3], &NodeChange::TogglePinned);
    assert!(d.nodes[1].pinned && d.nodes[2].pinned);
}

#[test]
fn randomize_hands_out_palette_in_turn() {
    let mut d = doc();
    randomize_colors(&mut d, &vec![3, 1, 77], invert);
    assert_eq!(d.nodes[2].fill_color, [137, 180, 250, 255]);
    assert_eq!(d.nodes[2].text_color, [118, 75, 5, 255]);
    assert_eq!(d.nodes[0].fill_color, [166, 227, 161, 255]);
    assert_eq!(d.nodes[0].text_color, [89, 28, 94, 255]);
    assert_eq!(d.nodes[1].fill_color, [255, 255, 255, 255]);
    assert_eq!(d.nodes[1].text_color, [0, 0, 0, 255]);
}

#[test]
fn connected_ids_in_edge_order() {
    let mut d = doc();
    d.edges.push(edge(102, 4, 1));
    d.edges.push(edge(103, 1, 1));
    assert_eq!(connected_ids(&d, 1), vec![2, 4, 1]);
    assert!(connected_ids(&d, 42).is_empty());
}

#[test]
fn owner_and_comment_changes() {
    let mut d = doc();
    d.nodes[0].sublabel = "👤 Old\n📅 2026-01-01".to_string();
    edit_nodes(&mut d, &vec![1, 2], &NodeChange::Owner(" Eve ".to_string()));
    assert_eq!(d.nodes[0].sublabel, "👤 Eve\n📅 2026-01-01");
    assert_eq!(d.nodes[1].sublabel, "👤 Eve");
    edit_nodes(&mut d, &vec![2], &NodeChange::Comment("check this".to_string()));
    assert_eq!(d.nodes[1].comment, "check this");
}

use flowchart::edge_edits::connect_ports;

#[test]
fn connecting_needs_two_nodes() {
    let mut d = doc();
    let a = Port { node_id: 1, side: PortSide::Bottom };
    let b = Port { node_id: 4, side: PortSide::Top };
    assert!(connect_ports(&mut d, 200, a, b, EdgeStyle::plain([9, 9, 9, 255])));
    assert_eq!(d.edges.len(), 3);
    assert_eq!(d.edges[2].id, 200);
    assert_eq!(d.edges[2].target.node_id, 4);
    assert!(!connect_ports(&mut d, 201, a, Port { node_id: 1, side: PortSide::Left }, EdgeStyle::plain([0, 0, 0, 255])));
    assert_eq!(d.edges.len(), 3);
}

#[test]
fn label_change_sets_shown_text() {
    let mut d = doc();
    edit_nodes(&mut d, &vec![3], &NodeChange::Label("Renamed".to_string()));
    assert_eq!(d.nodes[2].label, "Renamed");
    assert_eq!(d.nodes[1].label, "n2");
}

#[test]
fn toggling_pins_twice_restores() {
    let mut d = doc();
    d.nodes[0].pinned = true;
    edit_nodes(&mut d, &vec![1, 2], &NodeChange::TogglePinned);
    assert!(!d.nodes[0].pinned && d.nodes[1].pinned);
    edit_nodes(&mut d, &vec![1, 2], &NodeChange::TogglePinned);
    assert!(d.nodes[0].pinned && !d.nodes[1].pinned);
}

#[test]
fn picking_one_colour_sets_fill_and_text() {
    let mut d = doc();
    edit_nodes(&mut d, &vec![2], &NodeChange::FillAndText([30, 30, 46, 255], invert([30, 30, 46, 255])));
    assert_eq!(d.nodes[1].fill_color, [30, 30, 46, 255]);
    assert_eq!(d.nodes[1].text_color, [225, 225, 209, 255]);
    edit_nodes(&mut d, &vec![2], &NodeChange::Fill([1, 2, 3, 255]));
    assert_eq!(d.nodes[1].text_color, [225, 225, 209, 255]);
}

use flowchart::edits::copy_style;

#[test]
fn copy_and_paste_style_carries_both_colours() {
    let mut d = doc();
    d.nodes[0].text_color = [200, 200, 200, 255];
    let style = copy_style(&d, 1).unwrap();
    edit_nodes(&mut d, &vec![3, 4], &style);
    assert_eq!(d.nodes[2].fill_color, [10, 20, 30, 255]);
    assert_eq!(d.nodes[3].text_color, [200, 200, 200, 255]);
    assert!(copy_style(&d, 42).is_none());
}
