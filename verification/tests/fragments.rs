use transformation_engine::fragments::{group_fragments, ClaimedRow, RawFragment};

fn row(correlation_id: &str, topic: &str, id: &str) -> ClaimedRow {
    ClaimedRow {
        correlation_id: correlation_id.to_string(),
        topic: topic.to_string(),
        fragment: RawFragment {
            id: id.to_string(),
            payload: vec![1],
            nonce: vec![2],
            wrapped_key: vec![3],
        },
    }
}

#[test]
fn nothing_makes_up_nothing() {
    assert!(group_fragments(Vec::new()).is_empty());
}

#[test]
fn rows_of_one_id_make_up_one_aggregate() {
    let mut aggregates = group_fragments(vec![
        row("a", "first", "1"),
        row("b", "other", "2"),
        row("a", "second", "3"),
        row("c", "other", "4"),
        row("a", "third", "5"),
    ]);
    aggregates.sort_by(|x, y| x.correlation_id.cmp(&y.correlation_id));
    assert_eq!(aggregates.len(), 3);
    assert_eq!(aggregates[0].correlation_id, "a");
    assert_eq!(aggregates[0].topic, "first");
    let ids: Vec<&str> = aggregates[0].fragments.iter().map(|f| f.id.as_str()).collect();
    assert_eq!(ids, vec!["1", "3", "5"]);
    assert_eq!(aggregates[1].fragments.len(), 1);
    assert_eq!(aggregates[1].fragments[0].payload, vec![1]);
    assert_eq!(aggregates[1].fragments[0].nonce, vec![2]);
    assert_eq!(aggregates[1].fragments[0].wrapped_key, vec![3]);
    assert_eq!(aggregates[2].fragments[0].id, "4");
}

#[test]
fn no_record_is_lost_and_no_aggregate_is_empty() {
    let rows: Vec<ClaimedRow> =
        (0..30).map(|n| row(&format!("{}", n % 7), "t", &format!("{n}"))).collect();
    let aggregates = group_fragments(rows);
    assert_eq!(aggregates.len(), 7);
    assert!(aggregates.iter().all(|a| !a.fragments.is_empty()));
    assert_eq!(aggregates.iter().map(|a| a.fragments.len()).sum::<usize>(), 30);
}
