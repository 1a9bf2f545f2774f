use flowchart::model::{Edge, FlowchartDocument, Node, NodeKind, NodeShape, NodeTag, Port, PortSide, EdgeStyle};
use flowchart::query::search_matches;

fn node(id: u128, label: &str) -> Node {
    Node::new(id, NodeKind::Shape { shape: NodeShape::Rectangle }, label.to_string())
}

fn doc() -> FlowchartDocument {
    let mut d = FlowchartDocument::new();
    let mut a = node(1, "Write Spec");
    a.tag = Some(NodeTag::Done);
    a.section_name = String::from("Hypotheses");
    a.sublabel = String::from("\u{1f4c5} 2024-01-10\n\u{1f464} Alice");
    a.url = String::from("https://Example.org/spec");
    let mut b = node(2, "Review");
    b.tag = Some(NodeTag::Warning);
    b.half_done = true;
    b.sublabel = String::from("\u{1f464} Bob\n\u{1f4c5} 2030-05-01");
    b.comment = String::from("check this");
    let mut c = node(3, "Fix bug");
    c.tag = Some(NodeTag::Critical);
    c.glow = true;
    c.description = String::from("Crash on START");
    let mut e = node(4, "Idea");
    e.kind = NodeKind::StickyNote;
    e.description = String::from("crash");
    e.icon = String::from("Rocket");
    d.nodes.push(a);
    d.nodes.push(b);
    d.nodes.push(c);
    d.nodes.push(e);
    d.edges.push(Edge {
        id: 9,
        source: Port { node_id: 1, side: PortSide::Right },
        target: Port { node_id: 2, side: PortSide::Left },
        label: String::new(),
        style: EdgeStyle::plain([205, 214, 244, 255]),
    });
    d
}

fn ids(query: &str) -> Vec<u128> {
    let mut v: Vec<u128> = search_matches(&doc(), query, "2024-06-01").into_iter().collect();
    v.sort();
    v
}

#[test]
fn empty_query_selects_nothing() {
    assert!(ids("").is_empty());
}

#[test]
fn status_and_priority_queries() {
    assert_eq!(ids("status:done"), vec![1]);
    assert_eq!(ids("  STATUS: Review "), vec![2]);
    assert_eq!(ids("status:todo"), Vec::<u128>::new());
    assert_eq!(ids("status:\u{26d4}"), vec![3]);
    assert_eq!(ids("status:untagged"), vec![4]);
    assert_eq!(ids("status:tagged"), vec![1, 2, 3]);
    assert_eq!(ids("p:1"), vec![3]);
    assert_eq!(ids("priority: high"), vec![2]);
    assert_eq!(ids("p:low"), vec![4]);
    assert_eq!(ids("escalated"), vec![3]);
}

#[test]
fn section_icon_and_url_queries() {
    assert_eq!(ids("section:hypo"), vec![1]);
    assert_eq!(ids("\u{a7} hyp"), vec![1]);
    assert_eq!(ids("icon:rock"), vec![4]);
    assert_eq!(ids("url:example"), vec![1]);
    assert_eq!(ids("has-url"), vec![1]);
    assert_eq!(ids("no-link"), vec![2, 3, 4]);
    assert_eq!(ids("commented"), vec![2]);
    assert_eq!(ids("glow"), vec![3]);
}

#[test]
fn date_queries() {
    assert_eq!(ids("overdue"), vec![1]);
    assert_eq!(ids("upcoming"), vec![2]);
    assert_eq!(ids("has-due"), vec![1]);
    assert_eq!(ids("due:2024-01"), vec![1]);
    assert_eq!(ids("due:2030"), Vec::<u128>::new());
    assert_eq!(ids("sla-breach"), vec![1]);
}

#[test]
fn owner_and_link_queries() {
    assert_eq!(ids("assigned:alice"), vec![1]);
    assert_eq!(ids("owner:BOB"), vec![2]);
    assert_eq!(ids("assigned"), vec![2]);
    assert_eq!(ids("unassigned"), vec![1, 3, 4]);
    assert_eq!(ids("linked"), vec![1, 2]);
    assert_eq!(ids("orphan"), vec![3, 4]);
}

#[test]
fn plain_query_searches_text_fields() {
    assert_eq!(ids("review"), vec![2]);
    // Only a shape node's description is searched.
    assert_eq!(ids("crash"), vec![3]);
    assert_eq!(ids("alice"), vec![1]);
    assert_eq!(ids("   "), vec![1, 2, 3, 4]);
}
