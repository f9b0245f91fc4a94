//! The collector for systems whose process tables cannot be read: it has no
//! data, which is not a failure.

use vstd::prelude::*;
use crate::threads::collector::ThreadMetrics;

verus! {

/// No thread metrics are available.
pub fn collect_thread_metrics() -> (r: Vec<ThreadMetrics>)
    ensures
        r@.len() == 0,
{
    Vec::new()
}

/// No resident set size is available.
pub fn get_rss_bytes() -> (r: Option<u64>)
    ensures
        r.is_none(),
{
    None
}

} // verus!
