use flowchart::assign::{assigned_message_text, known_owners, reassign_sublabel, split_lines, suggestions};
use flowchart::model::{FlowchartDocument, Node, NodeKind};
use flowchart::workload::node_owner;

fn lines(s: &str) -> Vec<String> {
    split_lines(s).into_iter().map(|l| l.into_iter().collect()).collect()
}

#[test]
fn split_lines_follows_str_lines() {
    for s in ["", "a", "a\n", "a\nb", "a\r\nb\r\n", "a\rb", "\n\n", "x\r", "\r\n"] {
        let expected: Vec<String> = s.lines().map(|l| l.to_string()).collect();
        assert_eq!(lines(s), expected, "splitting {:?}", s);
    }
}

#[test]
fn reassign_replaces_owner_line_and_drops_blank_lines() {
    assert_eq!(reassign_sublabel("👤 Bob\n📅 2026-01-01", "  Alice "), "👤 Alice\n📅 2026-01-01");
    assert_eq!(reassign_sublabel("📅 2026-01-01\n\n👤 Bob\r\nnote", "Carol"), "👤 Carol\n📅 2026-01-01\nnote");
    assert_eq!(reassign_sublabel("👤 Bob\nnote", "   "), "note");
    assert_eq!(reassign_sublabel("", "Dana"), "👤 Dana");
    assert_eq!(reassign_sublabel("", ""), "");
}

#[test]
fn assigned_node_reports_its_new_owner() {
    let mut n = Node::new(1, NodeKind::Text, String::new());
    n.sublabel = "📅 2026-05-01\n👤 Old".to_string();
    n.sublabel = reassign_sublabel(&n.sublabel, " New Owner ");
    assert_eq!(node_owner(&n), "New Owner");
}

#[test]
fn known_owners_from_every_line() {
    let mut d = FlowchartDocument::new();
    for (i, s) in ["👤 Zed", "📅 2026-01-01\n👤 amy", "👤  ", "👤 Zed\n👤 Bob"].iter().enumerate() {
        let mut n = Node::new(i as u128, NodeKind::Text, String::new());
        n.sublabel = s.to_string();
        d.nodes.push(n);
    }
    assert_eq!(known_owners(&d), vec!["Bob", "Zed", "amy"]);
}

#[test]
fn suggestions_match_prefix_ignoring_case() {
    let names: Vec<String> = ["Alice", "alan", "Bob", "Albert", "Al", "Alma"].iter().map(|s| s.to_string()).collect();
    assert_eq!(suggestions(&names, "AL"), vec!["Alice", "alan", "Albert", "Al"]);
    assert_eq!(suggestions(&names, "bo"), vec!["Bob"]);
    assert_eq!(suggestions(&names, ""), vec!["Alice", "alan", "Bob", "Albert"]);
    assert!(suggestions(&names, "z").is_empty());
}

#[test]
fn assigned_messages() {
    assert_eq!(assigned_message_text("Bob", 1), "Assigned: Bob");
    assert_eq!(assigned_message_text("Bob", 3), "Assigned: Bob (3 nodes)");
}
