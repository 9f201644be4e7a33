//! Host metrics arithmetic. The numbers themselves come from an
//! external collaborator that samples the machine; this module holds
//! the verified computations over them. Percentages are carried as
//! hundredths of a percent, so they are exact integers and can never be
//! NaN or infinite.

use vstd::prelude::*;
use vstd::arithmetic::div_mod::{
    lemma_div_is_ordered,
    lemma_div_multiples_vanish,
    lemma_div_pos_is_pos,
};
use vstd::arithmetic::mul::lemma_mul_inequality;

verus! {

/// Memory usage as hundredths of a percent: `used / total * 100`,
/// defined as zero when `total` is zero.
pub open spec fn spec_usage_percent(used: int, total: int) -> int {
    if total == 0 {
        0
    } else {
        (used * 10000) / total
    }
}

/// One on-demand host snapshot. All percentages are in hundredths of a
/// percent.
pub struct SystemMetrics {
    pub cpu_usage_hundredths: u64,
    pub cpu_core_count: usize,
    pub cpu_model: String,
    pub memory_total_bytes: u64,
    pub memory_used_bytes: u64,
    pub memory_free_bytes: u64,
    pub usage_percent_hundredths: u64,
    pub host_uptime_seconds: u64,
    pub process_uptime_seconds: u64,
    pub unix_timestamp: u64,
}

/// Law: the reported usage is an exact integer ratio — zero when the
/// reported total is zero, never undefined — and never above 100%.
pub proof fn lemma_usage_percent_defined(used: int, total: int)
    requires
        0 <= used <= total,
    ensures
        total == 0 ==> spec_usage_percent(used, total) == 0,
        0 <= spec_usage_percent(used, total) <= 10000,
{
    if total != 0 {
        lemma_mul_inequality(used, total, 10000);
        lemma_div_is_ordered(used * 10000, total * 10000, total);
        lemma_div_multiples_vanish(10000, total);
        lemma_div_pos_is_pos(used * 10000, total);
        assert(used * 10000 >= 0) by (nonlinear_arith)
            requires
                used >= 0,
        ;
    }
}

/// Memory usage in hundredths of a percent, zero when `total` is zero.
pub fn usage_percent_hundredths(used: u64, total: u64) -> (r: u64)
    requires
        used <= total,
    ensures
        r as int == spec_usage_percent(used as int, total as int),
        r <= 10000,
{
    proof {
        lemma_usage_percent_defined(used as int, total as int);
    }
    if total == 0 {
        0
    } else {
        ((used as u128 * 10000) / (total as u128)) as u64
    }
}

/// Assembles one host snapshot from sampled numbers: the usage ratio is
/// computed here, the process uptime is the clamped difference of the
/// two timestamps, and every sampled field is carried through
/// unchanged.
pub fn build_system_metrics(
    cpu_usage_hundredths: u64,
    cpu_core_count: usize,
    cpu_model: String,
    memory_total_bytes: u64,
    memory_used_bytes: u64,
    memory_free_bytes: u64,
    host_uptime_seconds: u64,
    process_start_unix: u64,
    now_unix: u64,
) -> (m: SystemMetrics)
    requires
        memory_used_bytes <= memory_total_bytes,
    ensures
        m.cpu_usage_hundredths == cpu_usage_hundredths,
        m.cpu_core_count == cpu_core_count,
        m.cpu_model@ == cpu_model@,
        m.memory_total_bytes == memory_total_bytes,
        m.memory_used_bytes == memory_used_bytes,
        m.memory_free_bytes == memory_free_bytes,
        m.usage_percent_hundredths as int == spec_usage_percent(
            memory_used_bytes as int,
            memory_total_bytes as int,
        ),
        m.host_uptime_seconds == host_uptime_seconds,
        m.process_uptime_seconds == if now_unix >= process_start_unix {
            now_unix - process_start_unix
        } else {
            0
        },
        m.unix_timestamp == now_unix,
{
    let usage = usage_percent_hundredths(memory_used_bytes, memory_total_bytes);
    let process_uptime = if now_unix >= process_start_unix {
        now_unix - process_start_unix
    } else {
        0
    };
    SystemMetrics {
        cpu_usage_hundredths,
        cpu_core_count,
        cpu_model,
        memory_total_bytes,
        memory_used_bytes,
        memory_free_bytes,
        usage_percent_hundredths: usage,
        host_uptime_seconds,
        process_uptime_seconds: process_uptime,
        unix_timestamp: now_unix,
    }
}

} // verus!
