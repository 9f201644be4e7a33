//! A verified metrics core for a reverse proxy: traffic aggregation,
//! token-usage ledgers and host-metrics arithmetic, stated over
//! mathematical models and proved with Verus. The HTTP plumbing around
//! it lives outside the library and hands it plain values.

use vstd::prelude::*;

pub mod clock;
pub mod countmap;
pub mod forward;
pub mod latency;
pub mod statusmap;
pub mod sums;
pub mod sysmetrics;
pub mod tokens;
pub mod traffic;

verus! {

} // verus!
