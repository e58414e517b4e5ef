use feedrv3::config::FeedConfig;
use feedrv3::due::select_due;

fn feed(id: &str) -> FeedConfig {
    FeedConfig::new(id.to_string(), format!("https://h/{id}"), 60)
}

#[test]
fn due_feeds_come_earliest_first_ties_by_id() {
    let feeds = vec![feed("c"), feed("b"), feed("a"), feed("d"), feed("e")];
    let next = vec![Some(100), Some(50), Some(100), Some(500), None];
    let picked = select_due(&feeds, &next, 200, 10);
    let ids: Vec<&str> = picked.iter().map(|&j| feeds[j].id.as_str()).collect();
    assert_eq!(ids, vec!["e", "b", "a", "c"]);
}

#[test]
fn due_batch_is_capped() {
    let feeds = vec![feed("x"), feed("y"), feed("z")];
    let next = vec![Some(3), Some(1), Some(2)];
    assert_eq!(select_due(&feeds, &next, 10, 2), vec![1, 2]);
    assert!(select_due(&feeds, &next, 10, 0).is_empty());
    assert!(select_due(&feeds, &next, 0, 5).is_empty());
    assert_eq!(select_due(&feeds, &next, 2, 5), vec![1, 2]);
}

#[test]
fn due_ids_order_by_code_point() {
    let feeds = vec![feed("ab"), feed("a"), feed("B"), feed("é")];
    let next = vec![Some(0); 4];
    let picked = select_due(&feeds, &next, 0, 10);
    let ids: Vec<&str> = picked.iter().map(|&j| feeds[j].id.as_str()).collect();
    assert_eq!(ids, vec!["B", "a", "ab", "é"]);
}
