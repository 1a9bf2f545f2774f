use flowchart::filters::{click_column_header, click_tag_pill, click_workload_row, tag_pills};
use flowchart::model::{FlowchartDocument, Node, NodeKind, NodeTag};

#[test]
fn tag_pills_in_fixed_order() {
    let mut d = FlowchartDocument::new();
    for (i, t) in [Some(NodeTag::Info), None, Some(NodeTag::Critical), Some(NodeTag::Info)].into_iter().enumerate() {
        let mut n = Node::new(i as u128, NodeKind::Text, String::new());
        n.tag = t;
        d.nodes.push(n);
    }
    assert_eq!(tag_pills(&d), vec![NodeTag::Critical, NodeTag::Info]);
    assert!(tag_pills(&FlowchartDocument::new()).is_empty());
}

#[test]
fn tag_pill_click_toggles() {
    assert_eq!(click_tag_pill(None, NodeTag::Done), Some(NodeTag::Done));
    assert_eq!(click_tag_pill(Some(NodeTag::Done), NodeTag::Done), None);
    assert_eq!(click_tag_pill(Some(NodeTag::Info), NodeTag::Done), Some(NodeTag::Done));
}

#[test]
fn column_header_click_toggles_section_filter() {
    let u = click_column_header("", false, "Todo");
    assert_eq!((u.query.as_str(), u.persist, u.message.as_str()), ("section:Todo", true, "Showing: Todo"));
    let u = click_column_header("section:Todo", true, "Todo");
    assert_eq!((u.query.as_str(), u.persist, u.message.as_str()), ("", false, "Filter cleared"));
    let u = click_column_header("section:Todo", false, "Todo");
    assert_eq!((u.query.as_str(), u.persist), ("section:Todo", true));
}

#[test]
fn workload_row_click_toggles_owner_filter() {
    let u = click_workload_row("status:done", "Bob");
    assert_eq!((u.query.as_str(), u.persist, u.message.as_str()), ("assignee:Bob", true, "Showing: Bob"));
    let u = click_workload_row("assignee:Bob", "Bob");
    assert_eq!((u.query.as_str(), u.persist, u.message.as_str()), ("", false, "Filter cleared"));
}

use flowchart::filters::chip_label_text;

#[test]
fn chip_labels_shorten_long_queries() {
    assert_eq!(chip_label_text("status:done"), "🔍 Filter: status:done  ✕");
    assert_eq!(chip_label_text("abcdefghijklmnopqrstuvwxyz"), "🔍 Filter: abcdefghijklmnopqrstuvwx…  ✕");
}
