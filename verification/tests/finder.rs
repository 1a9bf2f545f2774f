use flowchart::finder::{badge_text, filter_query, offer_create, search_key, search_results, SearchKey, SearchPick};
use flowchart::model::{FlowchartDocument, Node, NodeKind};
use std::collections::HashSet;

fn doc(n: u128) -> FlowchartDocument {
    let mut d = FlowchartDocument::new();
    for id in 1..=n {
        d.nodes.push(Node::new(id, NodeKind::Text, String::new()));
    }
    d
}

#[test]
fn results_are_first_eight_matches_in_node_order() {
    let d = doc(12);
    let all: HashSet<u128> = (1..=12).collect();
    assert_eq!(search_results(&d, &all, "x"), (1..=8).collect::<Vec<u128>>());
    let some: HashSet<u128> = [11, 3, 7].into_iter().collect();
    assert_eq!(search_results(&d, &some, "x"), vec![3, 7, 11]);
    assert!(search_results(&d, &all, "").is_empty());
}

#[test]
fn filter_queries() {
    assert!(filter_query("Status:done"));
    assert!(filter_query("§ risks"));
    assert!(filter_query("OVERDUE"));
    assert!(filter_query("isolated"));
    assert!(!filter_query("overdue soon"));
    assert!(!filter_query("login page"));
    assert!(!filter_query(""));
    assert!(offer_create("New idea", 0));
    assert!(!offer_create("New idea", 2));
    assert!(!offer_create("due:2026", 0));
    assert!(!offer_create("", 0));
}

#[test]
fn badges() {
    assert_eq!(badge_text("", 5), "");
    assert_eq!(badge_text("a", 0), "0");
    assert_eq!(badge_text("a", 5), "5");
    assert_eq!(badge_text("a", 8), "8");
    assert_eq!(badge_text("a", 20), "8 of 20");
}

#[test]
fn arrow_keys_move_within_results() {
    let results = vec![10u128, 20, 30];
    assert_eq!(search_key(0, &results, 3, SearchKey::Down).cursor, 1);
    assert_eq!(search_key(2, &results, 3, SearchKey::Down).cursor, 2);
    assert_eq!(search_key(9, &results, 3, SearchKey::Up).cursor, 1);
    assert_eq!(search_key(0, &results, 3, SearchKey::Up).cursor, 0);
    let s = search_key(1, &results, 3, SearchKey::Escape);
    assert!(!s.open && s.clear_query && s.persist == Some(false));
}

#[test]
fn enter_picks_highlighted_or_all() {
    let results = vec![10u128, 20, 30];
    let s = search_key(1, &results, 3, SearchKey::Enter { shift: false });
    assert_eq!(s.pick, SearchPick::Node(20));
    assert!(!s.open && s.clear_query && s.message.is_none());
    let s = search_key(1, &results, 3, SearchKey::Enter { shift: true });
    assert_eq!(s.pick, SearchPick::AllMatches);
    assert!(!s.clear_query && s.persist == Some(true));
    assert_eq!(s.message.unwrap(), "Selected 3 nodes — filter pinned (⌘F to clear)");
    let s = search_key(0, &vec![10], 1, SearchKey::Enter { shift: false });
    assert_eq!(s.pick, SearchPick::AllMatches);
    assert!(s.message.is_none() && s.clear_query);
    let s = search_key(0, &Vec::new(), 0, SearchKey::Enter { shift: false });
    assert_eq!(s.pick, SearchPick::Nothing);
}
