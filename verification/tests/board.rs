use flowchart::board::{column_headers, column_label_text, overdue, pill_label_text, section_pills};
use flowchart::model::{FlowchartDocument, Node, NodeKind, NodeShape, NodeTag};

fn node(id: u128, section: &str, tag: Option<NodeTag>, sublabel: &str) -> Node {
    let mut n = Node::new(id, NodeKind::Shape { shape: NodeShape::Rectangle }, String::new());
    n.section_name = section.to_string();
    n.tag = tag;
    n.sublabel = sublabel.to_string();
    n
}

const TODAY: &str = "2026-03-16";

#[test]
fn overdue_reads_any_dated_line() {
    assert!(overdue("📅 2026-03-15", TODAY));
    assert!(!overdue("📅 2026-03-16", TODAY));
    assert!(!overdue("📅 2026-03-17", TODAY));
    assert!(overdue("👤 Bob\n📅  2025-12-31 ", TODAY));
    assert!(!overdue("📅 2026", TODAY));
    assert!(!overdue("due 2020-01-01", TODAY));
    assert!(!overdue("", TODAY));
}

#[test]
fn column_labels() {
    assert_eq!(column_label_text("Todo", 3, 0, 0, false), "Todo  3");
    assert_eq!(column_label_text("Todo", 3, 2, 1, true), "✕ Todo  ✓2/3  ⚠1");
}

#[test]
fn column_headers_per_section_with_nodes() {
    let mut d = FlowchartDocument::new();
    d.nodes.push(node(1, "Todo", None, "📅 2026-01-02"));
    d.nodes.push(node(2, "Done", Some(NodeTag::Done), ""));
    let mut f = node(3, "Frames", None, "");
    f.is_frame = true;
    d.nodes.push(f);
    let mut fin = node(4, "Todo", None, "");
    fin.finished = true;
    d.nodes.push(fin);
    let hs = column_headers(&d, TODAY, "section:Done");
    let names: Vec<&str> = hs.iter().map(|h| h.section.as_str()).collect();
    assert_eq!(names, vec!["Todo", "Done"]);
    assert_eq!((hs[0].count, hs[0].done, hs[0].overdue, hs[0].active), (2, 1, 1, false));
    assert_eq!(hs[0].label, "Todo  ✓1/2  ⚠1");
    assert_eq!(hs[1].label, "✕ Done  ✓1/1");
}

#[test]
fn pill_labels_truncate_long_names() {
    assert_eq!(pill_label_text("Risks", 4, false), "Risks 4");
    assert_eq!(pill_label_text("A very long section name", 12, true), "🔥 A very long se… 12");
    assert_eq!(pill_label_text("Exactly14chars", 1, false), "Exactly14chars 1");
}

#[test]
fn section_pills_sorted_with_counts() {
    let mut d = FlowchartDocument::new();
    d.nodes.push(node(1, "Zeta", Some(NodeTag::Critical), "📅 2026-01-02"));
    d.nodes.push(node(2, "Alpha", Some(NodeTag::Info), ""));
    d.nodes.push(node(3, "Zeta", Some(NodeTag::Done), ""));
    d.nodes.push(node(4, "", Some(NodeTag::Critical), ""));
    let ps = section_pills(&d, TODAY);
    assert_eq!(ps.len(), 2);
    assert_eq!(ps[0].section, "Alpha");
    assert_eq!(ps[0].dominant, Some(NodeTag::Info));
    assert_eq!(ps[0].label, "Alpha 1");
    assert_eq!(ps[1].section, "Zeta");
    assert_eq!((ps[1].total, ps[1].critical, ps[1].done, ps[1].overdue, ps[1].critical_overdue), (2, 1, 1, 1, 1));
    assert_eq!(ps[1].dominant, Some(NodeTag::Critical));
    assert_eq!(ps[1].label, "🔥 Zeta 2");
}

use flowchart::menus::document_sections;
use flowchart::sections::section_progress;

#[test]
fn sorted_section_lists_agree() {
    let mut d = FlowchartDocument::new();
    for (i, s) in ["b", "a", "", "c", "a", "B"].iter().enumerate() {
        d.nodes.push(node(i as u128, s, Some(NodeTag::Info), ""));
    }
    let pills: Vec<String> = section_pills(&d, TODAY).into_iter().map(|p| p.section).collect();
    let rows: Vec<String> = section_progress(&d).into_iter().map(|r| r.name).collect();
    let menu = document_sections(&d);
    assert_eq!(pills, vec!["B", "a", "b", "c"]);
    assert_eq!(pills, rows);
    assert_eq!(pills, menu);
}
