use flowchart::sorted::insert_sorted;

#[test]
fn insert_sorted_keeps_order_and_skips_repeats() {
    let mut v: Vec<String> = Vec::new();
    for s in ["Risks", "Evidence", "Risks", "Actions", "Zeta", "Evidence"] {
        insert_sorted(&mut v, s.to_string());
    }
    assert_eq!(v, vec!["Actions", "Evidence", "Risks", "Zeta"]);
}

#[test]
fn insert_sorted_orders_by_characters() {
    let mut v: Vec<String> = Vec::new();
    for s in ["b", "B", "ab", "a", "é"] {
        insert_sorted(&mut v, s.to_string());
    }
    let mut expected = vec!["b", "B", "ab", "a", "é"];
    expected.sort();
    assert_eq!(v, expected);
}
