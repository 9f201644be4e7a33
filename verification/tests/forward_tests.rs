use metrics_service::forward::{
    build_target_url, forward_request_header, method_supported, relay_response_header,
};

fn s(x: &str) -> String {
    x.to_string()
}

#[test]
fn allow_list_accepts_the_seven_methods() {
    for m in ["GET", "POST", "PUT", "DELETE", "PATCH", "HEAD", "OPTIONS"] {
        assert!(method_supported(&s(m)), "{m} must be supported");
    }
}

#[test]
fn allow_list_rejects_everything_else() {
    for m in ["TRACE", "CONNECT", "get", "Get", "PROPFIND", ""] {
        assert!(!method_supported(&s(m)), "{m} must be rejected");
    }
}

#[test]
fn target_url_concatenates_origin_path_and_query() {
    let url = build_target_url(
        &s("http://localhost:3001"),
        &s("/api/users"),
        Some(&s("a=1&b=2")),
    );
    assert_eq!(url, "http://localhost:3001/api/users?a=1&b=2");
}

#[test]
fn target_url_without_query_has_no_question_mark() {
    let url = build_target_url(&s("http://localhost:3001"), &s("/health"), None);
    assert_eq!(url, "http://localhost:3001/health");
}

#[test]
fn host_header_is_not_forwarded() {
    assert!(!forward_request_header(&s("host")));
    assert!(forward_request_header(&s("accept")));
    assert!(forward_request_header(&s("user-agent")));
    assert!(forward_request_header(&s("content-length")));
}

#[test]
fn content_length_is_not_relayed_back() {
    assert!(!relay_response_header(&s("content-length")));
    assert!(relay_response_header(&s("content-type")));
    assert!(relay_response_header(&s("host")));
}
