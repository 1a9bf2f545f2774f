use flowchart::messages::{count_phrase, decimal_string, stats_message};
use flowchart::selection::DiagramStats;

#[test]
fn decimal_string_writes_numbers() {
    assert_eq!(decimal_string(0), "0");
    assert_eq!(decimal_string(7), "7");
    assert_eq!(decimal_string(10), "10");
    assert_eq!(decimal_string(4096), "4096");
    assert_eq!(decimal_string(usize::MAX), format!("{}", usize::MAX));
}

#[test]
fn stats_message_leaves_out_zero_counts() {
    let st = DiagramStats { nodes: 5, edges: 2, frames: 0, sections: 0, unconnected: 0 };
    assert_eq!(stats_message(&st), "5 nodes, 2 edges");
}

#[test]
fn stats_message_lists_every_nonzero_count() {
    let st = DiagramStats { nodes: 12, edges: 9, frames: 1, sections: 3, unconnected: 4 };
    assert_eq!(stats_message(&st), "12 nodes, 9 edges, 1 frames, 3 sections, 4 unconnected");
}

#[test]
fn stats_message_on_empty_diagram() {
    let st = DiagramStats { nodes: 0, edges: 0, frames: 0, sections: 2, unconnected: 0 };
    assert_eq!(stats_message(&st), "0 nodes, 0 edges, 2 sections");
}

#[test]
fn count_phrase_plural_unless_one() {
    assert_eq!(count_phrase(1, "node"), "1 node");
    assert_eq!(count_phrase(0, "node"), "0 nodes");
    assert_eq!(count_phrase(3, "edge"), "3 edges");
}

use flowchart::messages::{colors_message, comment_message, deleted_message, section_selected_message, selection_message, SelectionKind};

#[test]
fn deleted_messages() {
    assert_eq!(deleted_message(0, 0), None);
    assert_eq!(deleted_message(1, 0).unwrap(), "Deleted 1 node — Cmd+Z to undo");
    assert_eq!(deleted_message(2, 1).unwrap(), "Deleted 2 nodes, 1 edge — Cmd+Z to undo");
    assert_eq!(deleted_message(0, 3).unwrap(), "Deleted 3 edges — Cmd+Z to undo");
}

#[test]
fn selection_messages() {
    assert_eq!(selection_message(SelectionKind::Duplicated, 1, false), "Duplicated 1 node");
    assert_eq!(selection_message(SelectionKind::Inverted, 4, false), "Selection inverted — 4 nodes selected");
    assert_eq!(selection_message(SelectionKind::AllEdges, 2, false), "Selected all 2 edges");
    assert_eq!(selection_message(SelectionKind::EdgesBetween, 0, true), "Select nodes first, then use this to select their edges");
    assert_eq!(selection_message(SelectionKind::EdgesBetween, 0, false), "No edges between selected nodes");
    assert_eq!(selection_message(SelectionKind::EdgesBetween, 1, false), "Selected 1 edge between nodes");
    assert_eq!(selection_message(SelectionKind::Orphans, 0, false), "All nodes are connected — no orphans found");
    assert_eq!(selection_message(SelectionKind::Orphans, 2, false), "Selected 2 unconnected nodes");
    assert_eq!(section_selected_message(3, "Risks"), "Selected 3 nodes in \"Risks\"");
    assert_eq!(section_selected_message(1, ""), "Selected 1 node in \"no section\"");
}

#[test]
fn color_and_comment_messages() {
    assert_eq!(colors_message(0), "Select nodes first, then randomize");
    assert_eq!(colors_message(3), "Applied 3 distinct colors");
    assert_eq!(colors_message(25), "Applied 10 distinct colors");
    assert_eq!(comment_message(1), "💬 Comment saved");
    assert_eq!(comment_message(4), "💬 Comment saved (4 nodes)");
}

use flowchart::messages::{summary_pick_message, title_summary_text};
use flowchart::model::{FlowchartDocument, Node, NodeKind, NodeTag};

#[test]
fn title_summary_counts_done_among_tagged() {
    let mut d = FlowchartDocument::new();
    assert!(title_summary_text(&d).is_none());
    for (i, t) in [Some(NodeTag::Done), None, Some(NodeTag::Info), Some(NodeTag::Done)].into_iter().enumerate() {
        let mut n = Node::new(i as u128, NodeKind::Text, String::new());
        n.tag = t;
        d.nodes.push(n);
    }
    assert_eq!(title_summary_text(&d), Some(("2/3 done".to_string(), false)));
    d.nodes[2].tag = Some(NodeTag::Done);
    assert_eq!(title_summary_text(&d), Some(("3/3 done".to_string(), true)));
}

#[test]
fn summary_pick_messages() {
    assert_eq!(summary_pick_message(1, "Risks"), "Selected 1 nodes in \"Risks\"");
}
