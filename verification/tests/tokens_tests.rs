use metrics_service::tokens::TokenMetrics;

fn s(x: &str) -> String {
    x.to_string()
}

#[test]
fn two_usage_reports_accumulate() {
    let mut t = TokenMetrics::new(0);
    t.record(10, Some(4), Some(6), Some(&s("gpt")), 100);
    t.record(5, None, None, Some(&s("gpt")), 101);
    assert_eq!(t.total_processed, 15);
    assert_eq!(t.input_tokens, 4);
    assert_eq!(t.output_tokens, 6);
    assert_eq!(t.by_model.get(&s("gpt")), 15);
    assert_eq!(t.by_model.num_entries(), 1);
    assert_eq!(t.timestamp, 101);
}

#[test]
fn absent_model_attributes_no_per_model_total() {
    let mut t = TokenMetrics::new(0);
    t.record(7, Some(3), Some(4), None, 50);
    assert_eq!(t.total_processed, 7);
    assert_eq!(t.by_model.num_entries(), 0);
}

#[test]
fn distinct_models_get_distinct_totals() {
    let mut t = TokenMetrics::new(0);
    t.record(10, None, None, Some(&s("alpha")), 1);
    t.record(20, None, None, Some(&s("beta")), 2);
    t.record(1, None, None, Some(&s("alpha")), 3);
    assert_eq!(t.by_model.get(&s("alpha")), 11);
    assert_eq!(t.by_model.get(&s("beta")), 20);
    assert_eq!(t.total_processed, 31);
}

#[test]
fn input_and_output_are_not_validated_against_total() {
    // caller-trusted: input + output may exceed total
    let mut t = TokenMetrics::new(0);
    t.record(1, Some(9), Some(9), None, 5);
    assert_eq!(t.total_processed, 1);
    assert_eq!(t.input_tokens, 9);
    assert_eq!(t.output_tokens, 9);
}

#[test]
fn ledger_snapshot_is_a_deep_copy() {
    let mut t = TokenMetrics::new(0);
    t.record(10, Some(1), Some(2), Some(&s("m")), 9);
    let snap = t.snapshot();
    t.record(5, None, None, Some(&s("m")), 10);
    assert_eq!(snap.total_processed, 10);
    assert_eq!(snap.by_model.get(&s("m")), 10);
    assert_eq!(t.total_processed, 15);
    assert_eq!(t.by_model.get(&s("m")), 15);
}

#[test]
fn clock_stamped_record_accumulates() {
    let mut t = TokenMetrics::new(0);
    t.record_now(3, None, Some(2), None);
    assert_eq!(t.total_processed, 3);
    assert_eq!(t.output_tokens, 2);
}
