//! The forwarder's decisions: which methods are relayed, what target
//! URL a request is relayed to, which headers travel in each direction,
//! and the ingress accounting that a relayed arrival triggers.

use vstd::prelude::*;
use vstd::string::StringExecFns;
use crate::traffic::{TrafficMetrics, ingress_updates, opt_str_view};
use crate::clock::{unix_time_secs, local_hour};

verus! {

/// The methods the proxy relays; everything else is rejected with 405.
pub open spec fn is_supported_method(m: Seq<char>) -> bool {
    ||| m == "GET"@
    ||| m == "POST"@
    ||| m == "PUT"@
    ||| m == "DELETE"@
    ||| m == "PATCH"@
    ||| m == "HEAD"@
    ||| m == "OPTIONS"@
}

/// Whether the proxy relays requests of method `m`.
pub fn method_supported(m: &String) -> (r: bool)
    ensures
        r == is_supported_method(m@),
{
    *m == "GET".to_owned() || *m == "POST".to_owned() || *m == "PUT".to_owned() || *m
        == "DELETE".to_owned() || *m == "PATCH".to_owned() || *m == "HEAD".to_owned() || *m
        == "OPTIONS".to_owned()
}

/// Law: TRACE is outside the allow-list, so a TRACE request is rejected
/// with 405 and, by `handle_arrival`'s contract, leaves every traffic
/// counter unchanged.
pub proof fn lemma_trace_unsupported()
    ensures
        !is_supported_method("TRACE"@),
{
    reveal_strlit("TRACE");
    reveal_strlit("GET");
    reveal_strlit("POST");
    reveal_strlit("PUT");
    reveal_strlit("DELETE");
    reveal_strlit("PATCH");
    reveal_strlit("HEAD");
    reveal_strlit("OPTIONS");
    assert("TRACE"@.len() == 5);
    assert("TRACE"@[0] == 'T');
    assert("PATCH"@[0] == 'P');
}

/// The target URL: the fixed backend origin, the original path, and the
/// original query string when one is present.
pub open spec fn target_url_view(
    backend: Seq<char>,
    path: Seq<char>,
    query: Option<Seq<char>>,
) -> Seq<char> {
    match query {
        None => backend + path,
        Some(q) => backend + path + "?"@ + q,
    }
}

/// Builds the URL a request is relayed to.
pub fn build_target_url(backend: &String, path: &String, query: Option<&String>) -> (r: String)
    ensures
        r@ == target_url_view(backend@, path@, opt_str_view(query)),
{
    let mut r = backend.clone();
    r.append(path.as_str());
    match query {
        Some(q) => {
            r.append("?");
            r.append(q.as_str());
        },
        None => {},
    }
    r
}

/// Every request header is forwarded to the backend except `Host`
/// (header names compared lower-cased, as the transport presents them).
pub fn forward_request_header(name: &String) -> (r: bool)
    ensures
        r == (name@ != "host"@),
{
    !(*name == "host".to_owned())
}

/// Every response header is relayed to the client except
/// `Content-Length`, which is recomputed for the relayed body.
pub fn relay_response_header(name: &String) -> (r: bool)
    ensures
        r == (name@ != "content-length"@),
{
    !(*name == "content-length".to_owned())
}

/// What the forwarder does with an arrival: reject it, or relay it to a
/// target URL.
pub enum ForwardDecision {
    Reject { status: u16 },
    Forward { url: String },
}

/// The arrival half of the forwarding pipeline. A request with a method
/// outside the allow-list is rejected with 405 before any accounting:
/// no backend call and no counter moves. Any other request is counted
/// once on ingress and relayed to the target URL.
pub fn handle_arrival(
    metrics: &mut TrafficMetrics,
    method: &String,
    backend: &String,
    path: &String,
    query: Option<&String>,
    body_size: usize,
    user_agent: Option<&String>,
    now: u64,
    hour: u8,
) -> (d: ForwardDecision)
    requires
        old(metrics).wf(),
        hour < 24,
        old(metrics).total_requests < u64::MAX,
        old(metrics).total_bytes_in + body_size <= u64::MAX,
    ensures
        final(metrics).wf(),
        !is_supported_method(method@) ==> d == (ForwardDecision::Reject { status: 405u16 })
            && *final(metrics) == *old(metrics),
        is_supported_method(method@) ==> (d matches ForwardDecision::Forward { url } && url@
            == target_url_view(backend@, path@, opt_str_view(query))) && ingress_updates(
            *old(metrics),
            *final(metrics),
            path@,
            body_size as int,
            opt_str_view(user_agent),
            now,
            hour as int,
        ),
{
    if !method_supported(method) {
        return ForwardDecision::Reject { status: 405 };
    }
    metrics.record_ingress(path, body_size, user_agent, now, hour);
    let url = build_target_url(backend, path, query);
    ForwardDecision::Forward { url }
}

/// `handle_arrival` stamped with the machine's own clock.
pub fn handle_arrival_now(
    metrics: &mut TrafficMetrics,
    method: &String,
    backend: &String,
    path: &String,
    query: Option<&String>,
    body_size: usize,
    user_agent: Option<&String>,
) -> (d: ForwardDecision)
    requires
        old(metrics).wf(),
        old(metrics).total_requests < u64::MAX,
        old(metrics).total_bytes_in + body_size <= u64::MAX,
    ensures
        final(metrics).wf(),
        !is_supported_method(method@) ==> d == (ForwardDecision::Reject { status: 405u16 })
            && *final(metrics) == *old(metrics),
        is_supported_method(method@) ==> (d matches ForwardDecision::Forward { url } && url@
            == target_url_view(backend@, path@, opt_str_view(query))) && exists|now: u64, hour: int|
            0 <= hour < 24 && ingress_updates(
                *old(metrics),
                *final(metrics),
                path@,
                body_size as int,
                opt_str_view(user_agent),
                now,
                hour,
            ),
{
    let now = unix_time_secs();
    let hour = local_hour();
    handle_arrival(metrics, method, backend, path, query, body_size, user_agent, now, hour)
}

} // verus!
