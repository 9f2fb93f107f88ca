use macrdp::perf::{LatencyStats, PerfStats};

#[test]
fn latency_stats_of_empty_set_are_zero() {
    let s = LatencyStats::compute(&Vec::new());
    assert_eq!(s, LatencyStats { count: 0, sum: 0, p50: 0, p95: 0, p99: 0, min: 0, max: 0 });
}

#[test]
fn latency_stats_pick_order_statistics() {
    let data: Vec<u64> = (1..=100).rev().collect();
    let s = LatencyStats::compute(&data);
    assert_eq!(s.count, 100);
    assert_eq!(s.sum, 5050);
    assert_eq!(s.min, 1);
    assert_eq!(s.max, 100);
    assert_eq!(s.p50, 51);
    assert_eq!(s.p95, 96);
    assert_eq!(s.p99, 100);
}

#[test]
fn latency_stats_clamp_high_percentiles_to_the_last_sample() {
    let s = LatencyStats::compute(&vec![7, 3]);
    assert_eq!((s.min, s.p50, s.p95, s.p99, s.max), (3, 7, 7, 7, 7));
    let one = LatencyStats::compute(&vec![42]);
    assert_eq!((one.min, one.p50, one.p95, one.p99, one.max), (42, 42, 42, 42, 42));
}

#[test]
fn disabled_stats_record_nothing() {
    let mut p = PerfStats::new(false);
    p.record_frame(5_000, 1_000, true);
    p.record_rtt(2_000);
    assert!(!p.is_enabled());
    assert_eq!(p.total_frames(), 0);
    assert_eq!(p.keyframe_count(), 0);
    assert!(p.rtts_us().is_empty());
    assert!(!p.has_report());
}

#[test]
fn enabled_stats_count_frames_and_keyframes() {
    let mut p = PerfStats::new(true);
    p.record_frame(5_000, 1_000, true);
    p.record_frame(7_000, 3_000, false);
    p.record_frame(6_000, 2_000, false);
    p.record_rtt(12_000);
    assert_eq!(p.total_frames(), 3);
    assert_eq!(p.keyframe_count(), 1);
    assert!(p.has_report());
    let enc = p.encode_stats();
    assert_eq!((enc.min, enc.p50, enc.max, enc.sum), (5_000, 6_000, 7_000, 18_000));
    let sizes = p.size_stats();
    assert_eq!((sizes.count, sizes.sum, sizes.p95), (3, 6_000, 3_000));
    let rtt = p.rtt_stats();
    assert_eq!((rtt.count, rtt.p50), (1, 12_000));
}
