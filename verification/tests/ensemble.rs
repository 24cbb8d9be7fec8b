use fount::ensemble::{interaction_bar, interaction_scroll, rank_interactions};

fn pair(a: &str, b: &str, c: usize) -> (String, String, usize) {
    (a.to_string(), b.to_string(), c)
}

#[test]
fn interactions_most_shared_first_ties_in_order() {
    let v = vec![pair("A", "B", 2), pair("A", "C", 5), pair("B", "C", 2), pair("C", "D", 7), pair("A", "D", 5)];
    let r = rank_interactions(v);
    assert_eq!(
        r,
        vec![pair("C", "D", 7), pair("A", "C", 5), pair("A", "D", 5), pair("A", "B", 2), pair("B", "C", 2)]
    );
    assert!(rank_interactions(Vec::new()).is_empty());
}

#[test]
fn interaction_table_scroll_and_bars() {
    // 20 rows, 8 shown: the scroll stops at 12
    assert_eq!(interaction_scroll(20, 8, 3), 3);
    assert_eq!(interaction_scroll(20, 8, 30), 12);
    assert_eq!(interaction_scroll(5, 8, 3), 0);
    assert_eq!(interaction_bar(7, 7), 12);
    assert_eq!(interaction_bar(3, 7), 5);
    assert_eq!(interaction_bar(0, 0), 0);
    assert_eq!(interaction_bar(1, 0), 12);
}
