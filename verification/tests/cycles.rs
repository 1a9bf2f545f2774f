use flowchart::cycles::{click_owner_chip, cycle_section, cycle_status, next_section_name, owner_chip, section_pill_text};
use flowchart::model::{FlowchartDocument, Node, NodeKind, NodeTag};

fn doc() -> FlowchartDocument {
    let mut d = FlowchartDocument::new();
    for id in 1..=3u128 {
        let mut n = Node::new(id, NodeKind::Text, String::new());
        n.section_name = "Ship".to_string();
        d.nodes.push(n);
    }
    d
}

#[test]
fn status_cycles_through_every_status() {
    let mut d = doc();
    let mut seen = Vec::new();
    for _ in 0..6 {
        assert_eq!(cycle_status(&mut d, 2).unwrap(), "Status updated");
        let n = &d.nodes[1];
        seen.push((n.tag, n.half_done, n.finished));
    }
    assert_eq!(
        seen,
        vec![
            (Some(NodeTag::Warning), false, false),
            (Some(NodeTag::Info), true, false),
            (Some(NodeTag::Warning), true, false),
            (Some(NodeTag::Done), true, true),
            (Some(NodeTag::Critical), false, false),
            (None, false, false),
        ]
    );
    assert_eq!(cycle_status(&mut d, 99), None);
}

#[test]
fn status_cycle_celebrates_a_finished_section() {
    let mut d = doc();
    d.nodes[0].tag = Some(NodeTag::Done);
    d.nodes[2].tag = Some(NodeTag::Done);
    d.nodes[1].tag = Some(NodeTag::Warning);
    d.nodes[1].half_done = true;
    assert_eq!(cycle_status(&mut d, 2).unwrap(), "🎉 All done in \"Ship\"!");
}

#[test]
fn section_cycle_steps_through_stages() {
    let mut d = doc();
    d.nodes[0].section_name = String::new();
    let mut msgs = Vec::new();
    for _ in 0..7 {
        msgs.push(cycle_section(&mut d, 1).unwrap());
    }
    assert_eq!(
        msgs,
        vec!["→ Intake", "→ Triage", "→ In Progress", "→ Resolved", "→ Escalated", "→ Closed", "Section cleared"]
    );
    assert_eq!(d.nodes[0].section_name, "");
    assert_eq!(next_section_name("Ship"), "");
    assert_eq!(cycle_section(&mut d, 42), None);
}

#[test]
fn owner_chip_and_its_click() {
    assert_eq!(owner_chip("📅 2026-01-01\n👤 Bob Smith"), Some("👤 Bob Smith".to_string()));
    assert_eq!(owner_chip("nothing"), None);
    let (q, m) = click_owner_chip("👤 Bob Smith ");
    assert_eq!(q, "assigned:Bob Smith");
    assert_eq!(m, "Filtering: 👤 Bob Smith ");
}

#[test]
fn section_pill_texts() {
    assert_eq!(section_pill_text(""), "§");
    assert_eq!(section_pill_text("Risks"), "§ Risks");
    assert_eq!(section_pill_text("Opportunities!"), "§ Opportunitie");
}
