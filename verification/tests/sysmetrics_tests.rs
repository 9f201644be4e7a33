use metrics_service::sysmetrics::{build_system_metrics, usage_percent_hundredths};

#[test]
fn zero_total_memory_reports_zero_usage() {
    assert_eq!(usage_percent_hundredths(0, 0), 0);
    let m = build_system_metrics(0, 4, "cpu".to_string(), 0, 0, 0, 10, 5, 6);
    assert_eq!(m.usage_percent_hundredths, 0);
}

#[test]
fn usage_is_an_exact_ratio_in_hundredths() {
    // 1 of 4 bytes used: 25.00%
    assert_eq!(usage_percent_hundredths(1, 4), 2500);
    assert_eq!(usage_percent_hundredths(0, 4), 0);
    assert_eq!(usage_percent_hundredths(4, 4), 10000);
    // 1 of 3: 33.33%, truncated
    assert_eq!(usage_percent_hundredths(1, 3), 3333);
}

#[test]
fn usage_never_exceeds_one_hundred_percent() {
    assert!(usage_percent_hundredths(u64::MAX, u64::MAX) <= 10000);
    assert!(usage_percent_hundredths(u64::MAX - 1, u64::MAX) <= 10000);
}

#[test]
fn snapshot_fields_pass_through() {
    let m = build_system_metrics(
        1234,
        8,
        "TestBrand 3000".to_string(),
        1000,
        250,
        750,
        3600,
        1_700_000_000,
        1_700_000_040,
    );
    assert_eq!(m.cpu_usage_hundredths, 1234);
    assert_eq!(m.cpu_core_count, 8);
    assert_eq!(m.cpu_model, "TestBrand 3000");
    assert_eq!(m.memory_total_bytes, 1000);
    assert_eq!(m.memory_used_bytes, 250);
    assert_eq!(m.memory_free_bytes, 750);
    assert_eq!(m.usage_percent_hundredths, 2500);
    assert_eq!(m.host_uptime_seconds, 3600);
    assert_eq!(m.process_uptime_seconds, 40);
    assert_eq!(m.unix_timestamp, 1_700_000_040);
}

#[test]
fn process_uptime_clamps_to_zero_when_clock_runs_back() {
    let m = build_system_metrics(0, 1, "c".to_string(), 10, 5, 5, 0, 100, 40);
    assert_eq!(m.process_uptime_seconds, 0);
}
