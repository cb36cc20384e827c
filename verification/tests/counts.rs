use github_notifications::counts::AggregateCounts;

#[test]
fn fresh_aggregate_has_total_zero_and_no_bucket() {
    let counts = AggregateCounts::new();
    assert_eq!(counts.total(), 0);
    assert_eq!(counts.get("mention"), 0);
    assert!(!counts.contains("mention"));
    assert!(!counts.contains("total"));
}

#[test]
fn two_mentions_and_one_author() {
    let mut counts = AggregateCounts::new();
    counts.record("mention");
    counts.record("mention");
    counts.record("author");
    assert_eq!(counts.total(), 3);
    assert_eq!(counts.get("mention"), 2);
    assert_eq!(counts.get("author"), 1);
    assert_eq!(counts.get("assign"), 0);
    assert!(counts.contains("mention"));
    assert!(counts.contains("author"));
    assert!(!counts.contains("assign"));
}

#[test]
fn total_is_the_number_of_items_and_buckets_count_exact_reasons() {
    let reasons = ["a", "b", "a", "A", "a ", "b", "a", ""];
    let mut counts = AggregateCounts::new();
    for r in reasons.iter() {
        counts.record(r);
    }
    assert_eq!(counts.total(), 8);
    assert_eq!(counts.get("a"), 3);
    assert_eq!(counts.get("b"), 2);
    assert_eq!(counts.get("A"), 1);
    assert_eq!(counts.get("a "), 1);
    assert_eq!(counts.get(""), 1);
    assert_eq!(counts.get("c"), 0);
    assert_eq!(
        counts.get("a") + counts.get("b") + counts.get("A") + counts.get("a ") + counts.get(""),
        counts.total()
    );
}

#[test]
fn unknown_reasons_are_counted_like_any_other() {
    let mut counts = AggregateCounts::new();
    counts.record("something_new");
    assert_eq!(counts.total(), 1);
    assert_eq!(counts.get("something_new"), 1);
}

#[test]
fn a_reason_called_total_does_not_touch_the_total() {
    let mut counts = AggregateCounts::new();
    counts.record("total");
    counts.record("mention");
    assert_eq!(counts.total(), 2);
    assert_eq!(counts.get("total"), 1);
}
