//! The statistics engine and the feature extractor.

use ddosflow::features::calculate_active_idle_stats;
use ddosflow::features::FlowFeatures;
use ddosflow::features::calculate_features;
use ddosflow::features::calculate_inter_arrival_times;
use ddosflow::features::merge_timestamps;
use ddosflow::flow::FlowTracker;
use ddosflow::ratio::Ratio;
use ddosflow::stats::calculate_stats;
use ddosflow::stats::StatsSummary;

fn ratio_to_f64(r: &Ratio) -> f64 {
    r.num as f64 / r.den as f64
}

fn naive_summary(values: &[u64]) -> StatsSummary {
    let mut sum: u128 = 0;
    let mut sum_sq: u128 = 0;
    let mut min_v: u64 = 0;
    let mut max_v: u64 = 0;
    for (i, &v) in values.iter().enumerate() {
        sum += v as u128;
        sum_sq += (v as u128) * (v as u128);
        if i == 0 {
            min_v = v;
            max_v = v;
        } else {
            if v < min_v {
                min_v = v;
            }
            if v > max_v {
                max_v = v;
            }
        }
    }
    StatsSummary { count: values.len() as u64, sum, sum_sq, min_v, max_v }
}

fn naive_mean_std(values: &[u64]) -> (f64, f64) {
    if values.is_empty() {
        return (0.0, 0.0);
    }
    let n = values.len() as f64;
    let mean = values.iter().map(|&v| v as f64).sum::<f64>() / n;
    if values.len() < 2 {
        return (mean, 0.0);
    }
    let var = values.iter().map(|&v| (v as f64 - mean) * (v as f64 - mean)).sum::<f64>()
        / (n - 1.0);
    (mean, var.sqrt())
}

fn summary_mean_std(s: &StatsSummary) -> (f64, f64) {
    let mean = ratio_to_f64(&s.mean_ratio());
    let std = ratio_to_f64(&s.variance_ratio()).sqrt();
    (mean, std)
}

#[test]
fn test_stats_engine_equivalence() {
    // Pseudo-random sequences of several lengths: the grouped engine
    // must match the naive scalar formulas, exactly on the integer
    // summary and within 1e-9 relative tolerance on mean and std.
    let mut state: u64 = 0x2545_F491_4F6C_DD1D;
    for &len in &[0usize, 1, 2, 3, 4, 5, 100] {
        let mut values: Vec<u64> = Vec::new();
        for _ in 0..len {
            state = state.wrapping_mul(6364136223846793005).wrapping_add(1442695040888963407);
            values.push(state >> 40);
        }
        let grouped = calculate_stats(&values);
        let naive = naive_summary(&values);
        assert_eq!(grouped, naive);

        let (gm, gs) = summary_mean_std(&grouped);
        let (nm, ns) = naive_mean_std(&values);
        let tol = 1e-9;
        assert!((gm - nm).abs() <= tol * nm.abs().max(1.0), "mean mismatch at len {}", len);
        assert!((gs - ns).abs() <= tol * ns.abs().max(1.0), "std mismatch at len {}", len);
    }
}

#[test]
fn test_statistics_correctness() {
    // Packet sizes [40, 60, 80] arriving forward, in order.
    let mut flow = FlowTracker::new_flow(1_000_000, 10, 1000, 20, 80, 6);
    assert!(flow.record(true, 1_000_000, 40, Some(0x18), 20, 20, Some(1024)));
    assert!(flow.record(true, 1_001_000, 60, Some(0x18), 20, 40, Some(1024)));
    assert!(flow.record(true, 1_002_000, 80, Some(0x18), 20, 60, Some(1024)));
    let features = calculate_features(&flow, 1_003_000);

    assert_eq!(features.fwd_pkt_len.max_v, 80);
    assert_eq!(features.fwd_pkt_len.min_v, 40);
    assert_eq!(features.fwd_pkt_len.count, 3);
    assert_eq!(features.fwd_pkt_len.sum, 180);
    assert_eq!(features.fwd_pkt_len.sum_sq, 1600 + 3600 + 6400);

    let mean = features.fwd_pkt_len.mean_ratio();
    assert_eq!(mean.num, 180);
    assert_eq!(mean.den, 3);
    assert_eq!(ratio_to_f64(&mean), 60.0);

    // Sample variance with the n-1 divisor: (3*11600 - 180^2) / 6 = 400.
    let var = features.fwd_pkt_len.variance_ratio();
    assert_eq!(var.num, 2400);
    assert_eq!(var.den, 6);
    assert_eq!(ratio_to_f64(&var).sqrt(), 20.0);
}

#[test]
fn test_count_sum_consistency() {
    let sizes: [u16; 5] = [100, 251, 52, 1400, 9];
    let mut flow = FlowTracker::new_flow(0, 1, 10, 2, 20, 17);
    let mut expected_sum: u64 = 0;
    for (i, &s) in sizes.iter().enumerate() {
        assert!(flow.record(true, (i as u64) * 1000, s, None, 8, s, None));
        expected_sum += s as u64;
    }
    let features = calculate_features(&flow, 10_000);
    assert_eq!(features.tot_fwd_pkts, sizes.len() as u64);
    assert_eq!(features.totlen_fwd_pkts, expected_sum);
    assert_eq!(features.tot_bwd_pkts, 0);
    assert_eq!(features.totlen_bwd_pkts, 0);
}

#[test]
fn test_zero_safety() {
    // One forward packet, no backward packets: backward mean and the
    // down/up ratio are exactly zero, never NaN.
    let mut flow = FlowTracker::new_flow(0, 1, 10, 2, 20, 6);
    assert!(flow.record(true, 0, 500, Some(0x02), 20, 480, Some(64)));
    let features = calculate_features(&flow, 1_000_000);

    let bwd_mean = features.bwd_pkt_len.mean_ratio();
    let bwd_mean_f = ratio_to_f64(&bwd_mean);
    assert_eq!(bwd_mean_f, 0.0);
    assert!(!bwd_mean_f.is_nan());

    let down_up = ratio_to_f64(&features.down_up_ratio);
    assert_eq!(down_up, 0.0);
    assert!(!down_up.is_nan());
}

#[test]
fn test_flow_features_default() {
    let features = FlowFeatures::default();
    assert_eq!(features.protocol, 0);
    assert_eq!(features.src_port, 0);
    assert_eq!(features.dst_port, 0);
    assert_eq!(features.tot_fwd_pkts, 0);
    assert_eq!(features.tot_bwd_pkts, 0);
}

#[test]
fn test_tcp_flag_counts() {
    // SYN=0x02, SYN|ACK=0x12, ACK=0x10, PSH|ACK=0x18, FIN|ACK=0x11.
    let mut flow = FlowTracker::new_flow(0, 1, 1000, 2, 80, 6);
    assert!(flow.record(true, 0, 60, Some(0x02), 40, 0, Some(64240)));
    assert!(flow.record(false, 1000, 60, Some(0x12), 40, 0, Some(65160)));
    assert!(flow.record(true, 2000, 52, Some(0x10), 32, 0, None));
    assert!(flow.record(true, 3000, 152, Some(0x18), 32, 100, None));
    assert!(flow.record(false, 4000, 52, Some(0x11), 32, 0, None));
    let features = calculate_features(&flow, 5000);

    assert_eq!(features.syn_flag_cnt, 2);
    assert_eq!(features.ack_flag_cnt, 4);
    assert_eq!(features.psh_flag_cnt, 1);
    assert_eq!(features.fin_flag_cnt, 1);
    assert_eq!(features.fwd_psh_flags, 1);
    assert_eq!(features.bwd_psh_flags, 0);
    assert_eq!(features.total_flags, 2 + 4 + 1 + 1);
    assert_eq!(features.flag_diversity, 4);
    assert_eq!(features.init_fwd_win_byts, 64240);
    assert_eq!(features.init_bwd_win_byts, 65160);
    assert!(features.is_tcp);
    assert!(!features.is_udp);
}

#[test]
fn test_iat_and_merge() {
    let mut flow = FlowTracker::new_flow(0, 1, 1, 2, 2, 17);
    // Forward at 0, 10ms, 30ms; backward at 5ms.
    assert!(flow.record(true, 0, 100, None, 8, 92, None));
    assert!(flow.record(false, 5_000, 100, None, 8, 92, None));
    assert!(flow.record(true, 10_000, 100, None, 8, 92, None));
    assert!(flow.record(true, 30_000, 100, None, 8, 92, None));

    let fwd_iats = calculate_inter_arrival_times(&flow.fwd_packets);
    assert_eq!(fwd_iats, vec![10_000, 20_000]);

    let fwd_ts: Vec<u64> = flow.fwd_packets.iter().map(|p| p.timestamp).collect();
    let bwd_ts: Vec<u64> = flow.bwd_packets.iter().map(|p| p.timestamp).collect();
    let merged = merge_timestamps(&fwd_ts, &bwd_ts);
    assert_eq!(merged, vec![0, 5_000, 10_000, 30_000]);

    let features = calculate_features(&flow, 40_000);
    // Flow IATs over the merged order: 5ms, 5ms, 20ms.
    assert_eq!(features.flow_iat.count, 3);
    assert_eq!(features.flow_iat.sum, 30_000);
    assert_eq!(features.flow_iat.max_v, 20_000);
    assert_eq!(features.flow_iat.min_v, 5_000);
    assert_eq!(features.fwd_iat.sum, 30_000);
    assert_eq!(features.bwd_iat.count, 0);
}

#[test]
fn test_active_idle_segmentation() {
    // Packets at 0s, 0.5s, 7s, 7.2s: the 6.5s gap closes an active
    // segment of 0.5s and counts as an idle period; the tail segment
    // runs from 7s to 7.2s.
    let ts: Vec<u64> = vec![0, 500_000, 7_000_000, 7_200_000];
    let (active, idle) = calculate_active_idle_stats(&ts);
    assert_eq!(active, vec![500_000, 200_000]);
    assert_eq!(idle, vec![6_500_000]);

    // A 3s gap ends the active segment but is too short to be idle.
    let ts2: Vec<u64> = vec![0, 1_000_000, 4_000_000];
    let (active2, idle2) = calculate_active_idle_stats(&ts2);
    assert_eq!(active2, vec![1_000_000, 0]);
    assert!(idle2.is_empty());

    // Fewer than two packets: no segments at all.
    let ts3: Vec<u64> = vec![123];
    let (active3, idle3) = calculate_active_idle_stats(&ts3);
    assert!(active3.is_empty());
    assert!(idle3.is_empty());
}

#[test]
fn test_rates_and_ratios() {
    let mut flow = FlowTracker::new_flow(0, 1, 1000, 2, 80, 6);
    assert!(flow.record(true, 0, 1000, Some(0x10), 20, 980, Some(100)));
    assert!(flow.record(false, 1_000_000, 500, Some(0x10), 20, 480, Some(200)));
    // Snapshot at 2 s: 1500 bytes over 2 s = 750 bytes/s, 1 pkt/s.
    let features = calculate_features(&flow, 2_000_000);
    assert_eq!(ratio_to_f64(&features.flow_byts_s), 750.0);
    assert_eq!(ratio_to_f64(&features.flow_pkts_s), 1.0);
    assert_eq!(ratio_to_f64(&features.down_up_ratio), 0.5);
    assert_eq!(ratio_to_f64(&features.fwd_seg_size_avg), 1000.0);
    assert_eq!(ratio_to_f64(&features.bwd_seg_size_avg), 500.0);
    assert_eq!(ratio_to_f64(&features.fwd_bwd_ratio), 1.0);
    assert_eq!(features.fwd_act_data_pkts, 1);
    assert_eq!(features.fwd_seg_size_min, 980);
    assert_eq!(features.flow_duration_micros, 2_000_000);
}

#[test]
fn test_simd_mean() {
    // The grouped engine's mean agrees with the plain formula.
    let values: Vec<u64> = vec![1, 2, 3, 4, 5, 6, 7, 8];
    let summary = calculate_stats(&values);
    let grouped_mean = ratio_to_f64(&summary.mean_ratio());
    let regular_mean = values.iter().map(|&v| v as f64).sum::<f64>() / values.len() as f64;

    assert!((grouped_mean - regular_mean).abs() < 0.0001);
}

#[test]
fn test_flow_features_creation() {
    let mut features = FlowFeatures::default();
    features.src_ip = u32::from_be_bytes([192, 168, 1, 1]);
    features.dst_ip = u32::from_be_bytes([192, 168, 1, 2]);
    features.protocol = 6;

    assert_eq!(features.src_ip, u32::from_be_bytes([192, 168, 1, 1]));
    assert_eq!(features.dst_ip, u32::from_be_bytes([192, 168, 1, 2]));
    assert_eq!(features.protocol, 6);
}

#[test]
fn test_variance_exact_on_example() {
    // Two equal samples: variance is exactly zero, as a 0/2 rational.
    let values: Vec<u64> = vec![7, 7];
    let summary = calculate_stats(&values);
    let var = summary.variance_ratio();
    assert_eq!(var.num, 0);
    assert_eq!(ratio_to_f64(&var), 0.0);

    // A single sample has no sample variance.
    let one = calculate_stats(&vec![42]);
    assert_eq!(one.variance_ratio(), ddosflow::ratio::Ratio { num: 0, den: 1 });
}

#[test]
fn test_record_keeps_queue_sorted() {
    // A clock reading earlier than the flow's start clamps to the
    // queue's last timestamp, so the queue stays time-sorted.
    let mut flow = FlowTracker::new_flow(1_000_000, 1, 1, 2, 2, 17);
    assert!(flow.record(true, 1_500_000, 10, None, 8, 2, None));
    assert_eq!(flow.fwd_packets[0].timestamp, 500_000);
    // The clock steps back before the flow even started.
    assert!(flow.record(true, 900_000, 10, None, 8, 2, None));
    assert_eq!(flow.fwd_packets[1].timestamp, 500_000);
    assert!(flow.record(true, 1_700_000, 10, None, 8, 2, None));
    assert_eq!(flow.fwd_packets[2].timestamp, 700_000);
    assert_eq!(flow.last_fwd_time, Some(1_700_000));
}
