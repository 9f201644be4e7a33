//! The token-usage ledger: counters fed by a dedicated ingestion
//! endpoint. Inputs are caller-trusted; missing optional fields count
//! as zero, and an absent model name attributes no per-model total.

use vstd::prelude::*;
use crate::countmap::CountMap;
use crate::clock::unix_time_secs;

verus! {

/// The value an optional counter field contributes: its value, or zero
/// when it is absent.
pub open spec fn opt_or_zero(v: Option<u64>) -> int {
    match v {
        Some(x) => x as int,
        None => 0,
    }
}

pub struct TokenMetrics {
    pub total_processed: u64,
    pub input_tokens: u64,
    pub output_tokens: u64,
    pub by_model: CountMap,
    pub timestamp: u64,
}

impl TokenMetrics {
    pub open spec fn wf(self) -> bool {
        self.by_model.wf()
    }

    /// The empty ledger a process starts with, stamped `now`.
    pub fn new(now: u64) -> (m: TokenMetrics)
        ensures
            m.wf(),
            m.total_processed == 0,
            m.input_tokens == 0,
            m.output_tokens == 0,
            m.timestamp == now,
            forall|k: Seq<char>| !m.by_model.has_key(k) && m.by_model.count(k) == 0,
    {
        TokenMetrics {
            total_processed: 0,
            input_tokens: 0,
            output_tokens: 0,
            by_model: CountMap::new(),
            timestamp: now,
        }
    }

    /// One ingested usage report: `total` always accumulates, the
    /// optional fields accumulate when present, and a named model's own
    /// total grows by `total`. No relation between `input + output` and
    /// `total` is checked; the caller is trusted.
    pub fn record(
        &mut self,
        total: u64,
        input: Option<u64>,
        output: Option<u64>,
        model: Option<&String>,
        now: u64,
    )
        requires
            old(self).wf(),
            old(self).total_processed + total <= u64::MAX,
            old(self).input_tokens + opt_or_zero(input) <= u64::MAX,
            old(self).output_tokens + opt_or_zero(output) <= u64::MAX,
            match model {
                Some(m) => old(self).by_model.count(m@) + total <= u64::MAX,
                None => true,
            },
        ensures
            final(self).wf(),
            final(self).total_processed == old(self).total_processed + total,
            final(self).input_tokens == old(self).input_tokens + opt_or_zero(input),
            final(self).output_tokens == old(self).output_tokens + opt_or_zero(output),
            final(self).timestamp == now,
            match model {
                Some(m) => {
                    &&& final(self).by_model.count(m@) == old(self).by_model.count(m@) + total
                    &&& forall|k: Seq<char>|
                        k != m@ ==> final(self).by_model.count(k) == old(self).by_model.count(k)
                    &&& forall|k: Seq<char>|
                        final(self).by_model.has_key(k) <==> (old(self).by_model.has_key(k) || k
                            == m@)
                },
                None => final(self).by_model == old(self).by_model,
            },
    {
        self.total_processed = self.total_processed + total;
        match input {
            Some(v) => {
                self.input_tokens = self.input_tokens + v;
            },
            None => {},
        }
        match output {
            Some(v) => {
                self.output_tokens = self.output_tokens + v;
            },
            None => {},
        }
        self.timestamp = now;
        match model {
            Some(m) => {
                self.by_model.add(m, total);
            },
            None => {},
        }
    }

    /// A deep copy, safe to serialize without holding any lock: every
    /// observable of the copy equals the ledger's.
    pub fn snapshot(&self) -> (r: TokenMetrics)
        requires
            self.wf(),
        ensures
            r.wf(),
            r.total_processed == self.total_processed,
            r.input_tokens == self.input_tokens,
            r.output_tokens == self.output_tokens,
            r.timestamp == self.timestamp,
            forall|k: Seq<char>| #[trigger] r.by_model.count(k) == self.by_model.count(k),
            forall|k: Seq<char>| r.by_model.has_key(k) <==> self.by_model.has_key(k),
    {
        TokenMetrics {
            total_processed: self.total_processed,
            input_tokens: self.input_tokens,
            output_tokens: self.output_tokens,
            by_model: self.by_model.duplicate(),
            timestamp: self.timestamp,
        }
    }

    /// `record` stamped with the machine's own clock.
    pub fn record_now(
        &mut self,
        total: u64,
        input: Option<u64>,
        output: Option<u64>,
        model: Option<&String>,
    )
        requires
            old(self).wf(),
            old(self).total_processed + total <= u64::MAX,
            old(self).input_tokens + opt_or_zero(input) <= u64::MAX,
            old(self).output_tokens + opt_or_zero(output) <= u64::MAX,
            match model {
                Some(m) => old(self).by_model.count(m@) + total <= u64::MAX,
                None => true,
            },
        ensures
            final(self).wf(),
            final(self).total_processed == old(self).total_processed + total,
            final(self).input_tokens == old(self).input_tokens + opt_or_zero(input),
            final(self).output_tokens == old(self).output_tokens + opt_or_zero(output),
            match model {
                Some(m) => {
                    &&& final(self).by_model.count(m@) == old(self).by_model.count(m@) + total
                    &&& forall|k: Seq<char>|
                        k != m@ ==> final(self).by_model.count(k) == old(self).by_model.count(k)
                    &&& forall|k: Seq<char>|
                        final(self).by_model.has_key(k) <==> (old(self).by_model.has_key(k) || k
                            == m@)
                },
                None => final(self).by_model == old(self).by_model,
            },
    {
        let now = unix_time_secs();
        self.record(total, input, output, model, now);
    }
}

} // verus!
