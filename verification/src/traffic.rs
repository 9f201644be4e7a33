//! The traffic aggregator: the shared counters and histograms that the
//! forwarder updates on every proxied request. Ingress accounting runs
//! when a request arrives, egress accounting after a completed backend
//! round trip; a request that fails in between is counted on arrival
//! only, by design.

use vstd::prelude::*;
use vstd::arithmetic::div_mod::{
    lemma_div_is_ordered,
    lemma_div_multiples_vanish,
    lemma_div_pos_is_pos,
};
use crate::countmap::CountMap;
use crate::statusmap::StatusCounts;
use crate::latency::{LatencyTable, trim_push};
use crate::sums::{
    sum_u64s,
    lemma_sum_push,
    lemma_sum_update,
    lemma_sum_element_bound,
    lemma_sum_take_step,
    lemma_sum_take_le,
};
use crate::clock::{unix_time_secs, local_hour};

verus! {

/// The view of an optional user-agent header value.
pub open spec fn opt_str_view(s: Option<&String>) -> Option<Seq<char>> {
    match s {
        Some(u) => Some(u@),
        None => None,
    }
}

/// The online running mean after one more sample: the previous mean
/// weighted by the previous count, plus the sample, over the current
/// count. The denominator is the ingress count, not the completed
/// response count — a deliberate simplification kept from the design.
pub open spec fn running_mean(avg: int, n: int, elapsed: int) -> int
    recommends
        1 <= n,
{
    (avg * (n - 1) + elapsed) / n
}

/// A mean of values bounded by `m` stays bounded by `m`.
pub proof fn lemma_mean_in_range(avg: int, elapsed: int, n: int, m: int)
    requires
        0 <= avg <= m,
        0 <= elapsed <= m,
        1 <= n,
    ensures
        0 <= running_mean(avg, n, elapsed) <= m,
{
    assert(avg * (n - 1) + elapsed <= m * n && m * n == n * m && avg * (n - 1) + elapsed
        >= 0) by (nonlinear_arith)
        requires
            0 <= avg <= m,
            0 <= elapsed <= m,
            1 <= n,
    ;
    lemma_div_is_ordered(avg * (n - 1) + elapsed, m * n, n);
    lemma_div_multiples_vanish(m, n);
    lemma_div_pos_is_pos(avg * (n - 1) + elapsed, n);
}

/// Law: after the very first request, the running mean equals that
/// request's measured latency exactly, whatever the mean held before.
pub proof fn lemma_first_request_mean(avg: int, elapsed: int)
    requires
        0 <= avg,
        0 <= elapsed,
    ensures
        running_mean(avg, 1, elapsed) == elapsed,
{
    assert(avg * 0 == 0);
    assert(elapsed / 1 == elapsed);
}

/// Law: a counter that starts at zero and grows by exactly one per
/// event reads `k` after `k` events, under any serialization. The
/// entries of `totals` are the counter's successive values; that each
/// ingress adds exactly one is the aggregator's contract, and per-field
/// atomicity is the caller's lock discipline.
pub proof fn lemma_no_lost_increments(totals: Seq<u64>)
    requires
        totals.len() >= 1,
        totals[0] == 0,
        forall|i: int| 0 <= i < totals.len() - 1 ==> totals[i + 1] == #[trigger] totals[i] + 1,
    ensures
        totals.last() == totals.len() - 1,
    decreases totals.len(),
{
    if totals.len() > 1 {
        let prefix = totals.drop_last();
        lemma_no_lost_increments(prefix);
        assert(totals[totals.len() - 2] == prefix.last());
    }
}

/// All traffic statistics of the proxy, aggregated over one process run.
pub struct TrafficMetrics {
    pub total_requests: u64,
    pub requests_by_endpoint: CountMap,
    pub responses_by_status: StatusCounts,
    pub total_bytes_in: u64,
    pub total_bytes_out: u64,
    pub avg_response_time_ms: u64,
    pub response_times: LatencyTable,
    pub requests_by_user_agent: CountMap,
    pub hourly_requests: Vec<u64>,
    pub last_updated: u64,
}

/// How one ingress write relates the aggregator's next state to its
/// previous one: exactly the arrival-side counters move.
pub open spec fn ingress_updates(
    pre: TrafficMetrics,
    post: TrafficMetrics,
    path: Seq<char>,
    body_size: int,
    ua: Option<Seq<char>>,
    now: u64,
    hour: int,
) -> bool {
    &&& post.total_requests == pre.total_requests + 1
    &&& post.requests_by_endpoint.count(path) == pre.requests_by_endpoint.count(path) + 1
    &&& forall|k: Seq<char>|
        k != path ==> post.requests_by_endpoint.count(k) == pre.requests_by_endpoint.count(k)
    &&& forall|k: Seq<char>|
        post.requests_by_endpoint.has_key(k) <==> (pre.requests_by_endpoint.has_key(k) || k
            == path)
    &&& post.total_bytes_in == pre.total_bytes_in + body_size
    &&& match ua {
        Some(u) => {
            &&& post.requests_by_user_agent.count(u) == pre.requests_by_user_agent.count(u) + 1
            &&& forall|k: Seq<char>|
                k != u ==> post.requests_by_user_agent.count(k) == pre.requests_by_user_agent.count(
                    k,
                )
            &&& forall|k: Seq<char>|
                post.requests_by_user_agent.has_key(k) <==> (pre.requests_by_user_agent.has_key(k)
                    || k == u)
        },
        None => post.requests_by_user_agent == pre.requests_by_user_agent,
    }
    &&& post.hourly_requests@ == pre.hourly_requests@.update(
        hour,
        (pre.hourly_requests@[hour] + 1) as u64,
    )
    &&& post.last_updated == if now > pre.last_updated {
        now
    } else {
        pre.last_updated
    }
    &&& post.responses_by_status == pre.responses_by_status
    &&& post.total_bytes_out == pre.total_bytes_out
    &&& post.avg_response_time_ms == pre.avg_response_time_ms
    &&& post.response_times == pre.response_times
}

/// How one egress write relates the aggregator's next state to its
/// previous one: exactly the completion-side counters move.
pub open spec fn egress_updates(
    pre: TrafficMetrics,
    post: TrafficMetrics,
    path: Seq<char>,
    status: u16,
    body_size: int,
    elapsed_ms: u64,
) -> bool {
    &&& post.responses_by_status.count(status) == pre.responses_by_status.count(status) + 1
    &&& forall|k: u16|
        k != status ==> post.responses_by_status.count(k) == pre.responses_by_status.count(k)
    &&& post.total_bytes_out == pre.total_bytes_out + body_size
    &&& post.avg_response_time_ms as int == running_mean(
        pre.avg_response_time_ms as int,
        pre.total_requests as int,
        elapsed_ms as int,
    )
    &&& post.response_times.times(path) == trim_push(pre.response_times.times(path), elapsed_ms)
    &&& forall|k: Seq<char>|
        k != path ==> post.response_times.times(k) == pre.response_times.times(k)
    &&& post.total_requests == pre.total_requests
    &&& post.requests_by_endpoint == pre.requests_by_endpoint
    &&& post.total_bytes_in == pre.total_bytes_in
    &&& post.requests_by_user_agent == pre.requests_by_user_agent
    &&& post.hourly_requests == pre.hourly_requests
    &&& post.last_updated == pre.last_updated
}

impl TrafficMetrics {
    /// The aggregator's invariant: well-formed tables, a 24-slot hourly
    /// histogram, the global counter partitioned by endpoint and by
    /// hour, and never more completed responses than arrivals.
    pub open spec fn wf(self) -> bool {
        &&& self.requests_by_endpoint.wf()
        &&& self.responses_by_status.wf()
        &&& self.response_times.wf()
        &&& self.requests_by_user_agent.wf()
        &&& self.hourly_requests@.len() == 24
        &&& self.requests_by_endpoint.total() == self.total_requests as int
        &&& sum_u64s(self.hourly_requests@) == self.total_requests as int
        &&& self.requests_by_user_agent.total() <= self.total_requests as int
        &&& self.responses_by_status.total() <= self.total_requests as int
    }

    /// The empty aggregator a process starts with.
    pub fn new() -> (m: TrafficMetrics)
        ensures
            m.wf(),
            m.total_requests == 0,
            m.total_bytes_in == 0,
            m.total_bytes_out == 0,
            m.avg_response_time_ms == 0,
            m.last_updated == 0,
            forall|k: Seq<char>|
                !m.requests_by_endpoint.has_key(k) && m.requests_by_endpoint.count(k) == 0,
            forall|k: u16| !m.responses_by_status.has_key(k) && m.responses_by_status.count(k) == 0,
            forall|k: Seq<char>|
                !m.requests_by_user_agent.has_key(k) && m.requests_by_user_agent.count(k) == 0,
            forall|k: Seq<char>|
                !m.response_times.has_key(k) && m.response_times.times(k) == Seq::<u64>::empty(),
            forall|h: int| 0 <= h < 24 ==> m.hourly_requests@[h] == 0,
    {
        let mut hourly: Vec<u64> = Vec::new();
        let mut i: usize = 0;
        while i < 24
            invariant
                i <= 24,
                hourly@.len() == i,
                sum_u64s(hourly@) == 0,
                forall|h: int| 0 <= h < i ==> hourly@[h] == 0,
            decreases 24 - i,
        {
            proof {
                lemma_sum_push(hourly@, 0u64);
            }
            hourly.push(0);
            i += 1;
        }
        TrafficMetrics {
            total_requests: 0,
            requests_by_endpoint: CountMap::new(),
            responses_by_status: StatusCounts::new(),
            total_bytes_in: 0,
            total_bytes_out: 0,
            avg_response_time_ms: 0,
            response_times: LatencyTable::new(),
            requests_by_user_agent: CountMap::new(),
            hourly_requests: hourly,
            last_updated: 0,
        }
    }

    /// Ingress accounting: run once when a request arrives, before the
    /// backend dispatch. `hour` is the local wall-clock hour of arrival
    /// and `now` the arrival's unix timestamp.
    pub fn record_ingress(
        &mut self,
        path: &String,
        body_size: usize,
        user_agent: Option<&String>,
        now: u64,
        hour: u8,
    )
        requires
            old(self).wf(),
            hour < 24,
            old(self).total_requests < u64::MAX,
            old(self).total_bytes_in + body_size <= u64::MAX,
        ensures
            final(self).wf(),
            ingress_updates(
                *old(self),
                *final(self),
                path@,
                body_size as int,
                opt_str_view(user_agent),
                now,
                hour as int,
            ),
    {
        proof {
            old(self).requests_by_endpoint.lemma_count_le_total(path@);
        }
        self.total_requests = self.total_requests + 1;
        self.requests_by_endpoint.add(path, 1);
        self.total_bytes_in = self.total_bytes_in + (body_size as u64);
        match user_agent {
            Some(ua) => {
                proof {
                    old(self).requests_by_user_agent.lemma_count_le_total(ua@);
                }
                self.requests_by_user_agent.add(ua, 1);
            },
            None => {},
        }
        proof {
            lemma_sum_element_bound(old(self).hourly_requests@, hour as int);
        }
        let h = self.hourly_requests[hour as usize];
        self.hourly_requests.set(hour as usize, h + 1);
        proof {
            lemma_sum_update(old(self).hourly_requests@, hour as int, (h + 1) as u64);
        }
        if now > self.last_updated {
            self.last_updated = now;
        }
    }

    /// Ingress accounting stamped with the machine's own clock: the
    /// arrival time comes from the system clock and the histogram slot
    /// from the local wall-clock hour.
    pub fn record_ingress_now(&mut self, path: &String, body_size: usize, user_agent: Option<
        &String,
    >)
        requires
            old(self).wf(),
            old(self).total_requests < u64::MAX,
            old(self).total_bytes_in + body_size <= u64::MAX,
        ensures
            final(self).wf(),
            exists|now: u64, hour: int|
                0 <= hour < 24 && ingress_updates(
                    *old(self),
                    *final(self),
                    path@,
                    body_size as int,
                    opt_str_view(user_agent),
                    now,
                    hour,
                ),
    {
        let now = unix_time_secs();
        let hour = local_hour();
        self.record_ingress(path, body_size, user_agent, now, hour);
    }

    /// Egress accounting: run once after a completed backend round
    /// trip. Each completion follows its own arrival, so strictly fewer
    /// completions than arrivals have been recorded when this runs.
    pub fn record_egress(&mut self, path: &String, status: u16, body_size: usize, elapsed_ms: u64)
        requires
            old(self).wf(),
            old(self).responses_by_status.total() < old(self).total_requests as int,
            old(self).total_bytes_out + body_size <= u64::MAX,
        ensures
            final(self).wf(),
            egress_updates(*old(self), *final(self), path@, status, body_size as int, elapsed_ms),
    {
        proof {
            old(self).responses_by_status.lemma_count_le_total(status);
        }
        self.responses_by_status.add(status, 1);
        self.total_bytes_out = self.total_bytes_out + (body_size as u64);
        let n = self.total_requests;
        assert(n >= 1);
        proof {
            lemma_mean_in_range(
                self.avg_response_time_ms as int,
                elapsed_ms as int,
                n as int,
                u64::MAX as int,
            );
            let a = self.avg_response_time_ms as int;
            let e = elapsed_ms as int;
            let ni = n as int;
            let m = u64::MAX as int;
            assert(0 <= a * (ni - 1) && a * (ni - 1) + e <= m * m + m) by (nonlinear_arith)
                requires
                    0 <= a <= m,
                    0 <= e <= m,
                    1 <= ni <= m,
            ;
            assert(m * m + m < u128::MAX as int);
        }
        let num: u128 = (self.avg_response_time_ms as u128) * ((n - 1) as u128) + (
        elapsed_ms as u128);
        let q: u128 = num / (n as u128);
        self.avg_response_time_ms = q as u64;
        self.response_times.record(path, elapsed_ms);
    }

    /// How many completed responses have been recorded so far. Strictly
    /// fewer than `total_requests` arrivals means one more egress write
    /// is admissible.
    pub fn completed_responses(&self) -> (r: u64)
        requires
            self.wf(),
        ensures
            r as int == self.responses_by_status.total(),
    {
        let ghost cs = self.responses_by_status.counts();
        let n = self.responses_by_status.num_entries();
        let mut acc: u64 = 0;
        let mut i: usize = 0;
        while i < n
            invariant
                self.wf(),
                n == self.responses_by_status.spec_len(),
                cs == self.responses_by_status.counts(),
                i <= n,
                acc as int == sum_u64s(cs.take(i as int)),
            decreases n - i,
        {
            proof {
                lemma_sum_take_step(cs, i as int);
                lemma_sum_take_le(cs, i as int + 1);
                assert(cs[i as int] == self.responses_by_status.entries@[i as int].1);
            }
            acc = acc + self.responses_by_status.count_at(i);
            i += 1;
        }
        proof {
            assert(cs.take(n as int) =~= cs);
        }
        acc
    }

    /// A deep copy, safe to serialize without holding any lock: every
    /// observable of the copy equals the aggregator's.
    pub fn snapshot(&self) -> (r: TrafficMetrics)
        requires
            self.wf(),
        ensures
            r.wf(),
            r.total_requests == self.total_requests,
            r.total_bytes_in == self.total_bytes_in,
            r.total_bytes_out == self.total_bytes_out,
            r.avg_response_time_ms == self.avg_response_time_ms,
            r.last_updated == self.last_updated,
            r.hourly_requests@ == self.hourly_requests@,
            forall|k: Seq<char>|
                #[trigger] r.requests_by_endpoint.count(k) == self.requests_by_endpoint.count(k),
            forall|k: Seq<char>|
                r.requests_by_endpoint.has_key(k) <==> self.requests_by_endpoint.has_key(k),
            forall|k: u16| #[trigger] r.responses_by_status.count(k) == self.responses_by_status.count(k),
            forall|k: Seq<char>|
                #[trigger] r.requests_by_user_agent.count(k) == self.requests_by_user_agent.count(
                    k,
                ),
            forall|k: Seq<char>| #[trigger] r.response_times.times(k) == self.response_times.times(k),
    {
        let n = self.hourly_requests.len();
        let mut hourly: Vec<u64> = Vec::new();
        let mut i: usize = 0;
        while i < n
            invariant
                n == self.hourly_requests@.len(),
                i <= n,
                hourly@.len() == i,
                forall|j: int| 0 <= j < i ==> hourly@[j] == self.hourly_requests@[j],
            decreases n - i,
        {
            hourly.push(self.hourly_requests[i]);
            i += 1;
        }
        proof {
            assert(hourly@ =~= self.hourly_requests@);
        }
        TrafficMetrics {
            total_requests: self.total_requests,
            requests_by_endpoint: self.requests_by_endpoint.duplicate(),
            responses_by_status: self.responses_by_status.duplicate(),
            total_bytes_in: self.total_bytes_in,
            total_bytes_out: self.total_bytes_out,
            avg_response_time_ms: self.avg_response_time_ms,
            response_times: self.response_times.duplicate(),
            requests_by_user_agent: self.requests_by_user_agent.duplicate(),
            hourly_requests: hourly,
            last_updated: self.last_updated,
        }
    }

    /// Law: when every endpoint ever requested is the single path `p`,
    /// the global request counter equals that path's own counter.
    pub proof fn lemma_single_path_requests(self, p: Seq<char>)
        requires
            self.wf(),
            forall|k: Seq<char>| self.requests_by_endpoint.has_key(k) ==> k == p,
        ensures
            self.total_requests == self.requests_by_endpoint.count(p),
    {
        self.requests_by_endpoint.lemma_single_key_total(p);
    }

    /// Law: the hourly histogram partitions one process run's requests;
    /// its 24 counters always sum to the global request counter.
    pub proof fn lemma_hourly_partition(self)
        requires
            self.wf(),
        ensures
            sum_u64s(self.hourly_requests@) == self.total_requests as int,
    {
    }
}

} // verus!
