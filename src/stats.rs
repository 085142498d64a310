//! The snapshot that one poll of the monitor reports, and the rate rule.

use vstd::prelude::*;

verus! {

/// One poll's report: the bytes moved since the previous poll in each
/// direction, and the cumulative totals read at this poll.
#[derive(Clone, Copy, Debug, PartialEq, Eq, Structural)]
pub struct NetworkStats {
    pub upload_speed: u64,
    pub download_speed: u64,
    pub total_upload: u64,
    pub total_download: u64,
}

/// The bytes counted between a `previous` and a `current` reading of one
/// cumulative counter; zero where the counter went down (a reset).
pub open spec fn rate(current: u64, previous: u64) -> u64 {
    if current >= previous {
        (current - previous) as u64
    } else {
        0
    }
}

/// The report for a poll that reads `current` after a baseline of `previous`;
/// a reading is `(received, transmitted)`.
pub open spec fn stats_between(previous: (u64, u64), current: (u64, u64)) -> NetworkStats {
    NetworkStats {
        upload_speed: rate(current.1, previous.1),
        download_speed: rate(current.0, previous.0),
        total_upload: current.1,
        total_download: current.0,
    }
}

} // verus!
