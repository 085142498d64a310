//! The stateful monitor: it keeps the last cumulative reading as a baseline
//! and reports each new reading against it.

use vstd::prelude::*;
use crate::stats::{NetworkStats, rate, stats_between};

verus! {

/// Holds the cumulative counters seen at the latest poll (or at construction).
pub struct NetworkMonitor {
    last_received: u64,
    last_transmitted: u64,
}

impl View for NetworkMonitor {
    /// The baseline, as a reading `(received, transmitted)`.
    type V = (u64, u64);

    closed spec fn view(&self) -> (u64, u64) {
        (self.last_received, self.last_transmitted)
    }
}

impl NetworkMonitor {
    /// A monitor whose baseline is `reading`, the counters read at start-up,
    /// so that the first poll measures against real counters rather than zero.
    pub fn new(reading: (u64, u64)) -> (r: NetworkMonitor)
        ensures
            r@ == reading,
    {
        let (total_received, total_transmitted) = reading;
        NetworkMonitor { last_received: total_received, last_transmitted: total_transmitted }
    }

    /// Reports `reading` against the baseline and makes it the new baseline.
    pub fn get_stats(&mut self, reading: (u64, u64)) -> (r: NetworkStats)
        ensures
            r == stats_between(old(self)@, reading),
            final(self)@ == reading,
    {
        let (total_received, total_transmitted) = reading;
        let download_speed = total_received.saturating_sub(self.last_received);
        let upload_speed = total_transmitted.saturating_sub(self.last_transmitted);
        self.last_received = total_received;
        self.last_transmitted = total_transmitted;
        NetworkStats {
            upload_speed,
            download_speed,
            total_upload: total_transmitted,
            total_download: total_received,
        }
    }
}

/// Polls that read each of `readings` in turn, from a monitor whose baseline is
/// `baseline`: each step is what `get_stats` states of one call. The result is
/// the baseline left at the end and the reports, in order.
pub open spec fn poll_run(baseline: (u64, u64), readings: Seq<(u64, u64)>) -> (
    (u64, u64),
    Seq<NetworkStats>,
)
    decreases readings.len(),
{
    if readings.len() == 0 {
        (baseline, Seq::empty())
    } else {
        let (b, reports) = poll_run(baseline, readings.drop_last());
        (readings.last(), reports.push(stats_between(b, readings.last())))
    }
}

/// The reading before the `i`-th of `readings`: `first` for the first one.
pub open spec fn reading_before(first: (u64, u64), readings: Seq<(u64, u64)>, i: int) -> (
    u64,
    u64,
) {
    if i == 0 {
        first
    } else {
        readings[i - 1]
    }
}

/// After construction with the reading `c0`, polls that read `c1, ..., cn`
/// report, at the `i`-th poll, the bytes received and transmitted between
/// `c(i-1)` and `ci` (zero where a counter went down), and `ci` as the totals.
pub proof fn lemma_polls_report_consecutive_differences(
    c0: (u64, u64),
    readings: Seq<(u64, u64)>,
)
    ensures
        poll_run(c0, readings).1.len() == readings.len(),
        poll_run(c0, readings).0 == (if readings.len() == 0 {
            c0
        } else {
            readings.last()
        }),
        forall|i: int|
            #![trigger poll_run(c0, readings).1[i]]
            0 <= i < readings.len() ==> {
                let prev = reading_before(c0, readings, i);
                let report = poll_run(c0, readings).1[i];
                &&& report.download_speed == rate(readings[i].0, prev.0)
                &&& report.upload_speed == rate(readings[i].1, prev.1)
                &&& report.download_speed as int == if readings[i].0 >= prev.0 {
                    readings[i].0 - prev.0
                } else {
                    0
                }
                &&& report.upload_speed as int == if readings[i].1 >= prev.1 {
                    readings[i].1 - prev.1
                } else {
                    0
                }
                &&& report.total_download == readings[i].0
                &&& report.total_upload == readings[i].1
            },
    decreases readings.len(),
{
    if readings.len() > 0 {
        let rest = readings.drop_last();
        lemma_polls_report_consecutive_differences(c0, rest);
        assert forall|i: int| 0 <= i < rest.len() implies reading_before(c0, rest, i)
            == reading_before(c0, readings, i) && rest[i] == readings[i] by {}
    }
}

/// A poll that reads the very counters the monitor was built with reports no
/// traffic in either direction.
pub proof fn lemma_poll_without_change_reports_nothing(reading: (u64, u64))
    ensures
        stats_between(reading, reading).upload_speed == 0,
        stats_between(reading, reading).download_speed == 0,
        stats_between(reading, reading).total_download == reading.0,
        stats_between(reading, reading).total_upload == reading.1,
{
}

} // verus!
