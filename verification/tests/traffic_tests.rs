use metrics_service::forward::{handle_arrival, ForwardDecision};
use metrics_service::latency::LatencyTable;
use metrics_service::traffic::TrafficMetrics;

fn s(x: &str) -> String {
    x.to_string()
}

#[test]
fn single_endpoint_total_matches_endpoint_counter() {
    let mut m = TrafficMetrics::new();
    for i in 0..5u64 {
        m.record_ingress(&s("/api/users"), 10, None, 100 + i, 7);
    }
    assert_eq!(m.total_requests, 5);
    assert_eq!(m.requests_by_endpoint.get(&s("/api/users")), 5);
    assert_eq!(m.requests_by_endpoint.get(&s("/other")), 0);
}

#[test]
fn first_request_mean_is_exact() {
    let mut m = TrafficMetrics::new();
    m.record_ingress(&s("/a"), 0, None, 1, 0);
    m.record_egress(&s("/a"), 200, 0, 42);
    assert_eq!(m.avg_response_time_ms, 42);
}

#[test]
fn mean_of_two_requests() {
    let mut m = TrafficMetrics::new();
    m.record_ingress(&s("/a"), 0, None, 1, 0);
    m.record_egress(&s("/a"), 200, 0, 10);
    m.record_ingress(&s("/a"), 0, None, 2, 0);
    m.record_egress(&s("/a"), 200, 0, 20);
    // (10 * 1 + 20) / 2
    assert_eq!(m.avg_response_time_ms, 15);
}

#[test]
fn latency_window_keeps_last_hundred_in_order() {
    let mut t = LatencyTable::new();
    let p = s("/busy");
    for i in 0..150u64 {
        t.record(&p, i);
    }
    assert_eq!(t.times_len(&p), 100);
    assert_eq!(t.time_at(&p, 0), 50);
    assert_eq!(t.time_at(&p, 99), 149);
    for i in 0..100usize {
        assert_eq!(t.time_at(&p, i), 50 + i as u64);
    }
}

#[test]
fn latency_window_under_capacity_keeps_everything() {
    let mut t = LatencyTable::new();
    let p = s("/calm");
    for i in 0..30u64 {
        t.record(&p, i * 2);
    }
    assert_eq!(t.times_len(&p), 30);
    for i in 0..30usize {
        assert_eq!(t.time_at(&p, i), 2 * i as u64);
    }
}

#[test]
fn latency_window_through_egress() {
    let mut m = TrafficMetrics::new();
    let p = s("/api");
    for i in 0..120u64 {
        m.record_ingress(&p, 0, None, i, 0);
        m.record_egress(&p, 200, 0, i);
    }
    assert_eq!(m.response_times.times_len(&p), 100);
    assert_eq!(m.response_times.time_at(&p, 0), 20);
    assert_eq!(m.response_times.time_at(&p, 99), 119);
}

#[test]
fn hourly_histogram_sums_to_total() {
    let mut m = TrafficMetrics::new();
    m.record_ingress(&s("/a"), 0, None, 1, 3);
    m.record_ingress(&s("/b"), 0, None, 2, 3);
    m.record_ingress(&s("/c"), 0, None, 3, 17);
    assert_eq!(m.hourly_requests[3], 2);
    assert_eq!(m.hourly_requests[17], 1);
    let total: u64 = m.hourly_requests.iter().sum();
    assert_eq!(total, m.total_requests);
    assert_eq!(m.total_requests, 3);
}

#[test]
fn no_increment_lost_over_distinct_paths() {
    let mut m = TrafficMetrics::new();
    let paths = ["/a", "/b", "/c", "/d", "/e", "/f", "/g"];
    for p in paths.iter() {
        m.record_ingress(&s(p), 1, None, 9, 0);
    }
    assert_eq!(m.total_requests, paths.len() as u64);
    for p in paths.iter() {
        assert_eq!(m.requests_by_endpoint.get(&s(p)), 1);
    }
}

#[test]
fn trace_is_rejected_and_counts_nothing() {
    let mut m = TrafficMetrics::new();
    let d = handle_arrival(
        &mut m,
        &s("TRACE"),
        &s("http://localhost:3001"),
        &s("/api"),
        None,
        12,
        Some(&s("curl/8.0")),
        77,
        5,
    );
    match d {
        ForwardDecision::Reject { status } => assert_eq!(status, 405),
        ForwardDecision::Forward { .. } => panic!("TRACE must not be forwarded"),
    }
    assert_eq!(m.total_requests, 0);
    assert_eq!(m.requests_by_endpoint.get(&s("/api")), 0);
    assert_eq!(m.total_bytes_in, 0);
    assert_eq!(m.requests_by_user_agent.get(&s("curl/8.0")), 0);
    assert_eq!(m.hourly_requests[5], 0);
    assert_eq!(m.last_updated, 0);
}

#[test]
fn supported_method_is_forwarded_and_counted() {
    let mut m = TrafficMetrics::new();
    let d = handle_arrival(
        &mut m,
        &s("POST"),
        &s("http://localhost:3001"),
        &s("/api/items"),
        Some(&s("page=2")),
        34,
        Some(&s("test-agent")),
        1000,
        11,
    );
    match d {
        ForwardDecision::Forward { url } => {
            assert_eq!(url, "http://localhost:3001/api/items?page=2");
        }
        ForwardDecision::Reject { .. } => panic!("POST must be forwarded"),
    }
    assert_eq!(m.total_requests, 1);
    assert_eq!(m.requests_by_endpoint.get(&s("/api/items")), 1);
    assert_eq!(m.total_bytes_in, 34);
    assert_eq!(m.requests_by_user_agent.get(&s("test-agent")), 1);
    assert_eq!(m.hourly_requests[11], 1);
    assert_eq!(m.last_updated, 1000);
}

#[test]
fn status_codes_and_bytes_out_accumulate() {
    let mut m = TrafficMetrics::new();
    m.record_ingress(&s("/a"), 5, None, 1, 0);
    m.record_egress(&s("/a"), 200, 100, 3);
    m.record_ingress(&s("/a"), 5, None, 2, 0);
    m.record_egress(&s("/a"), 200, 50, 3);
    m.record_ingress(&s("/a"), 5, None, 3, 0);
    m.record_egress(&s("/a"), 404, 7, 3);
    assert_eq!(m.responses_by_status.get(200), 2);
    assert_eq!(m.responses_by_status.get(404), 1);
    assert_eq!(m.responses_by_status.get(500), 0);
    assert_eq!(m.total_bytes_in, 15);
    assert_eq!(m.total_bytes_out, 157);
}

#[test]
fn failed_request_counts_ingress_only() {
    let mut m = TrafficMetrics::new();
    m.record_ingress(&s("/down"), 8, None, 1, 0);
    // the backend never answered: no egress write happens
    assert_eq!(m.total_requests, 1);
    assert_eq!(m.responses_by_status.num_entries(), 0);
    assert_eq!(m.total_bytes_out, 0);
    assert_eq!(m.avg_response_time_ms, 0);
}

#[test]
fn last_updated_never_decreases() {
    let mut m = TrafficMetrics::new();
    m.record_ingress(&s("/a"), 0, None, 100, 0);
    assert_eq!(m.last_updated, 100);
    m.record_ingress(&s("/a"), 0, None, 50, 0);
    assert_eq!(m.last_updated, 100);
    m.record_ingress(&s("/a"), 0, None, 170, 0);
    assert_eq!(m.last_updated, 170);
}

#[test]
fn missing_user_agent_counts_nothing() {
    let mut m = TrafficMetrics::new();
    m.record_ingress(&s("/a"), 0, None, 1, 0);
    m.record_ingress(&s("/a"), 0, Some(&s("ua-1")), 2, 0);
    assert_eq!(m.requests_by_user_agent.num_entries(), 1);
    assert_eq!(m.requests_by_user_agent.get(&s("ua-1")), 1);
}

#[test]
fn snapshot_is_a_faithful_deep_copy() {
    let mut m = TrafficMetrics::new();
    m.record_ingress(&s("/a"), 10, Some(&s("ua")), 5, 4);
    m.record_egress(&s("/a"), 200, 20, 30);
    let snap = m.snapshot();
    assert_eq!(snap.total_requests, 1);
    assert_eq!(snap.requests_by_endpoint.get(&s("/a")), 1);
    assert_eq!(snap.responses_by_status.get(200), 1);
    assert_eq!(snap.total_bytes_in, 10);
    assert_eq!(snap.total_bytes_out, 20);
    assert_eq!(snap.avg_response_time_ms, 30);
    assert_eq!(snap.response_times.times_len(&s("/a")), 1);
    assert_eq!(snap.response_times.time_at(&s("/a"), 0), 30);
    // mutating the original leaves the snapshot untouched
    m.record_ingress(&s("/a"), 1, None, 6, 4);
    assert_eq!(snap.total_requests, 1);
    assert_eq!(m.total_requests, 2);
}

#[test]
fn clock_stamped_ingress_counts_one_arrival() {
    let mut m = TrafficMetrics::new();
    m.record_ingress_now(&s("/now"), 3, None);
    assert_eq!(m.total_requests, 1);
    assert_eq!(m.requests_by_endpoint.get(&s("/now")), 1);
    let total: u64 = m.hourly_requests.iter().sum();
    assert_eq!(total, 1);
    assert!(m.last_updated > 0);
}
