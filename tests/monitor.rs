use net_monitor::monitor::NetworkMonitor;
use net_monitor::stats::NetworkStats;

#[test]
fn rates_follow_growing_counters() {
    let mut m = NetworkMonitor::new((1000, 500));
    let s = m.get_stats((1500, 600));
    assert_eq!(s.download_speed, 500);
    assert_eq!(s.upload_speed, 100);
    assert_eq!(s.total_download, 1500);
    assert_eq!(s.total_upload, 600);
}

#[test]
fn counter_reset_reports_zero_rates() {
    let mut m = NetworkMonitor::new((1500, 600));
    let s = m.get_stats((200, 50));
    assert_eq!(s.download_speed, 0);
    assert_eq!(s.upload_speed, 0);
    assert_eq!(s.total_download, 200);
    assert_eq!(s.total_upload, 50);
}

#[test]
fn first_poll_without_change_is_idle() {
    let mut m = NetworkMonitor::new((42, 7));
    let s = m.get_stats((42, 7));
    assert_eq!(
        s,
        NetworkStats { upload_speed: 0, download_speed: 0, total_upload: 7, total_download: 42 }
    );
}

#[test]
fn successive_polls_report_consecutive_differences() {
    let readings: Vec<(u64, u64)> = vec![(10, 5), (30, 5), (25, 9), (u64::MAX, 0), (u64::MAX, 100)];
    let mut m = NetworkMonitor::new((0, 0));
    let mut prev = (0u64, 0u64);
    for r in readings {
        let s = m.get_stats(r);
        assert_eq!(s.download_speed, r.0.saturating_sub(prev.0));
        assert_eq!(s.upload_speed, r.1.saturating_sub(prev.1));
        assert_eq!(s.total_download, r.0);
        assert_eq!(s.total_upload, r.1);
        prev = r;
    }
}

#[test]
fn polls_with_exact_values() {
    let mut m = NetworkMonitor::new((100, 100));
    assert_eq!(m.get_stats((150, 130)).download_speed, 50);
    let s = m.get_stats((170, 120));
    assert_eq!(s.download_speed, 20);
    assert_eq!(s.upload_speed, 0);
    let s = m.get_stats((170, 125));
    assert_eq!(s.download_speed, 0);
    assert_eq!(s.upload_speed, 5);
}

#[test]
fn rate_spans_the_whole_range() {
    let mut m = NetworkMonitor::new((0, u64::MAX));
    let s = m.get_stats((u64::MAX, 0));
    assert_eq!(s.download_speed, u64::MAX);
    assert_eq!(s.upload_speed, 0);
}
