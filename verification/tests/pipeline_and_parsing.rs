//! The packet pipeline, header parsing and the port allow-list.

use ddosflow::cadence::is_attack_label;
use ddosflow::cadence::CadenceConfig;
use ddosflow::flow::FlowTable;
use ddosflow::flow::Prediction;
use ddosflow::mempool::init_global_packet_pool;
use ddosflow::mempool::PerformanceMonitor;
use ddosflow::parse::parse_ipv4_packet;
use ddosflow::parse::verify_packet;
use ddosflow::parse::ZeroCopyPacketParser;
use ddosflow::pipeline::Pipeline;
use ddosflow::pipeline::PipelineConfig;
use ddosflow::portfilter::parse_port_token;
use ddosflow::portfilter::parse_u16;
use ddosflow::portfilter::PortFilter;
use ddosflow::portfilter::PortSpec;
use ddosflow::text::u64_to_string;

fn test_config() -> PipelineConfig {
    PipelineConfig {
        cadence: CadenceConfig::new_default(),
        confidence_gate_ppm: 750_000,
        ddos_window_secs: 60,
        ddos_threshold: 100,
        port_filter: PortFilter::new(),
    }
}

#[test]
fn test_zero_copy_ethernet_parsing() {
    let frame = vec![
        0x00, 0x01, 0x02, 0x03, 0x04, 0x05, // dst mac
        0x06, 0x07, 0x08, 0x09, 0x0A, 0x0B, // src mac
        0x08, 0x00, // ether type (IPv4)
        0xAA, 0xBB, 0xCC, 0xDD, // payload
    ];

    let eth_info = ZeroCopyPacketParser::parse_ethernet(&frame).unwrap();
    assert_eq!(eth_info.ether_type, 0x0800);
    assert_eq!(eth_info.payload, vec![0xAA, 0xBB, 0xCC, 0xDD]);
}

#[test]
fn test_ipv4_and_tcp_parsing() {
    // A minimal IPv4 header (20 bytes) followed by a TCP header.
    let mut packet: Vec<u8> = vec![
        0x45, 0x00, 0x00, 0x2C, // version/IHL, TOS, total length 44
        0x00, 0x01, 0x00, 0x00, // id, flags/fragment
        0x40, 0x06, 0x00, 0x00, // TTL 64, protocol TCP, checksum
        192, 168, 1, 1, // source
        192, 168, 1, 2, // destination
    ];
    let tcp: Vec<u8> = vec![
        0x04, 0x00, // source port 1024
        0x00, 0x50, // destination port 80
        0x00, 0x00, 0x00, 0x01, // sequence
        0x00, 0x00, 0x00, 0x00, // acknowledgement
        0x50, 0x02, // data offset 5 words, flags SYN
        0xFF, 0xFF, // window
        0x00, 0x00, 0x00, 0x00, // checksum, urgent
        0xDE, 0xAD, 0xBE, 0xEF, // payload
    ];
    packet.extend_from_slice(&tcp);

    let ip = ZeroCopyPacketParser::parse_ipv4(&packet).unwrap();
    assert_eq!(ip.header_len, 20);
    assert_eq!(ip.total_len, 44);
    assert_eq!(ip.protocol, 6);
    assert_eq!(ip.src_ip, u32::from_be_bytes([192, 168, 1, 1]));
    assert_eq!(ip.dst_ip, u32::from_be_bytes([192, 168, 1, 2]));

    let seg = ZeroCopyPacketParser::parse_tcp(&ip.payload).unwrap();
    assert_eq!(seg.src_port, 1024);
    assert_eq!(seg.dst_port, 80);
    assert_eq!(seg.seq_num, 1);
    assert_eq!(seg.header_len, 20);
    assert_eq!(seg.flags, 0x02);
    assert_eq!(seg.window_size, 0xFFFF);
    assert_eq!(seg.payload, vec![0xDE, 0xAD, 0xBE, 0xEF]);

    let (src, dst, proto, payload) = parse_ipv4_packet(&packet).unwrap();
    assert_eq!(src, u32::from_be_bytes([192, 168, 1, 1]));
    assert_eq!(dst, u32::from_be_bytes([192, 168, 1, 2]));
    assert_eq!(proto, 6);
    assert_eq!(payload.len(), 24);

    assert!(verify_packet(&packet));
    // Truncated buffers are rejected, not sliced out of bounds.
    assert!(ZeroCopyPacketParser::parse_ethernet(&packet[..10]).is_none());
    assert!(ZeroCopyPacketParser::parse_ipv4(&packet[..10]).is_none());
    assert!(ZeroCopyPacketParser::parse_tcp(&tcp[..10]).is_none());
    // A zero source address fails the sanity test.
    let mut bad = packet.clone();
    bad[12] = 0;
    bad[13] = 0;
    bad[14] = 0;
    bad[15] = 0;
    assert!(!verify_packet(&bad));
}

#[test]
fn test_direction_symmetry() {
    // Packets A:1000 -> B:80 and B:80 -> A:1000 resolve to one flow;
    // the first sender stays forward.
    let a = u32::from_be_bytes([10, 0, 0, 1]);
    let b = u32::from_be_bytes([10, 0, 0, 2]);
    let mut table = FlowTable::new();

    let (idx1, rev1) = table.get_or_create(a, 1000, b, 80, 6, 1_000);
    assert_eq!(idx1, 0);
    assert!(!rev1);
    assert_eq!(table.len(), 1);

    let (idx2, rev2) = table.get_or_create(b, 80, a, 1000, 6, 2_000);
    assert_eq!(idx2, 0);
    assert!(rev2);
    assert_eq!(table.len(), 1);

    // The same again in its first orientation: still the one flow.
    let (idx3, rev3) = table.get_or_create(a, 1000, b, 80, 6, 3_000);
    assert_eq!(idx3, 0);
    assert!(!rev3);
    assert_eq!(table.len(), 1);

    // A different port pair is a different flow.
    let (idx4, _) = table.get_or_create(a, 1001, b, 80, 6, 4_000);
    assert_eq!(idx4, 1);
    assert_eq!(table.len(), 2);
}

#[test]
fn test_cadence_and_caching() {
    // TCP cadence 10: the classifier is consulted on packet 1 (first
    // ever) and on packets 10 and 20; packets 2-9 reuse packet 1's label.
    let mut pipeline = Pipeline::new(test_config());
    let a = 0x0A000001;
    let b = 0x0A000002;
    let mut classified_on: Vec<u64> = Vec::new();

    for pkt in 1u64..=20 {
        let outcome = pipeline
            .process_tcp_packet(a, 40000, b, 80, pkt * 1_000, 60, 0x10, 20, 0, 1024)
            .expect("no port filter: every packet enters");
        if outcome.needs_classification {
            classified_on.push(pkt);
            let prediction =
                Prediction { label: "SYN".to_string(), confidence_ppm: 900_000 };
            let (label, _alert) = pipeline.apply_classification_at(
                outcome.flow_idx,
                Ok(prediction),
                "10.0.0.1",
                pkt * 1_000,
            );
            assert_eq!(label, "SYN");
        } else {
            assert_eq!(outcome.reused_label.as_deref(), Some("SYN"));
        }
    }
    assert_eq!(classified_on, vec![1, 10, 20]);
}

#[test]
fn test_confidence_gate() {
    // A raw (SYN, 0.5) outcome under a 0.75 gate is recorded as the
    // benign marker, while the raw label still feeds the rate detector.
    let mut config = test_config();
    config.ddos_threshold = 1;
    let mut pipeline = Pipeline::new(config);
    let a = 0x0A000005;
    let b = 0x0A000006;
    let outcome = pipeline
        .process_tcp_packet(a, 1234, b, 80, 1_000, 60, 0x02, 20, 0, 512)
        .expect("enters");
    assert!(outcome.needs_classification);

    let raw = Prediction { label: "SYN".to_string(), confidence_ppm: 500_000 };
    let (label, alert) =
        pipeline.apply_classification_at(outcome.flow_idx, Ok(raw), "10.0.0.5", 1_000);

    assert_eq!(label, "BENIGN");
    // The flow caches the raw pair, not the gated label.
    let cached = pipeline.table.entries[outcome.flow_idx]
        .flow
        .last_prediction
        .clone()
        .expect("prediction cached");
    assert_eq!(cached.label, "SYN");
    assert_eq!(cached.confidence_ppm, 500_000);
    // The detector saw the raw label: with threshold 1 it alerts at once.
    let alert = alert.expect("raw label fed the detector");
    assert_eq!(alert.attack_type, "SYN");
    assert_eq!(alert.count, 1);
}

#[test]
fn test_classifier_error_marker() {
    let mut pipeline = Pipeline::new(test_config());
    let outcome = pipeline
        .process_udp_packet(0x0A000001, 5353, 0x0A000002, 53, 1_000, 120, 112)
        .expect("enters");
    assert!(outcome.needs_classification);
    let (label, alert) = pipeline.apply_classification_at(
        outcome.flow_idx,
        Err("model unavailable".to_string()),
        "10.0.0.1",
        1_000,
    );
    assert_eq!(label, "Error");
    assert!(alert.is_none());
    // The flow still has no cached prediction.
    assert!(pipeline.table.entries[outcome.flow_idx].flow.last_prediction.is_none());
}

#[test]
fn test_port_filter_gates_pipeline() {
    let mut config = test_config();
    config.port_filter = PortFilter::from_args(&vec![
        "prog".to_string(),
        "--ports".to_string(),
        "80,443,8000-8080".to_string(),
    ]);
    assert!(config.port_filter.enabled);
    let mut pipeline = Pipeline::new(config);
    // 9000 -> 22 matches nothing: dropped before the flow table.
    assert!(pipeline
        .process_tcp_packet(1, 9000, 2, 22, 1_000, 60, 0x02, 20, 0, 512)
        .is_none());
    assert_eq!(pipeline.table.len(), 0);
    // 9000 -> 8080 falls in the range: processed.
    assert!(pipeline
        .process_tcp_packet(1, 9000, 2, 8080, 2_000, 60, 0x02, 20, 0, 512)
        .is_some());
    assert_eq!(pipeline.table.len(), 1);
}

#[test]
fn test_parse_port_specs() {
    assert_eq!(parse_u16("80"), Some(80));
    assert_eq!(parse_u16("65535"), Some(65535));
    assert_eq!(parse_u16("65536"), None);
    assert_eq!(parse_u16(""), None);
    assert_eq!(parse_u16("8o"), None);
    assert_eq!(parse_u16("123456789"), None);

    assert_eq!(parse_port_token("443"), Some(PortSpec::Single(443)));
    assert_eq!(parse_port_token("8000-8080"), Some(PortSpec::Range(8000, 8080)));
    assert_eq!(parse_port_token("1-2-3"), None);
    assert_eq!(parse_port_token("-80"), None);
    assert_eq!(parse_port_token("80-"), None);

    let filter = PortFilter::from_args(&vec![
        "prog".to_string(),
        "--ports".to_string(),
        "80,443,8000-8080,junk".to_string(),
    ]);
    assert!(filter.enabled);
    assert_eq!(filter.ports, vec![80, 443]);
    assert_eq!(filter.port_ranges, vec![(8000, 8080)]);
    assert!(filter.allows(80));
    assert!(filter.allows(8040));
    assert!(!filter.allows(22));

    let unfiltered = PortFilter::from_args(&vec!["prog".to_string()]);
    assert!(!unfiltered.enabled);
    assert!(unfiltered.allows(22));
}

#[test]
fn test_performance_monitor() {
    let mut monitor = PerformanceMonitor::new();
    monitor.record_packet(100);
    monitor.record_packet(300);
    monitor.memory_pool_hits = 3;
    monitor.memory_pool_misses = 1;
    let stats = monitor.get_performance_stats();
    assert_eq!(stats.packets_processed, 2);
    assert_eq!(stats.avg_time_micros, 200);
    assert_eq!(stats.pool_hit_rate.num, 3);
    assert_eq!(stats.pool_hit_rate.den, 4);
    // 2 packets in 400 microseconds: 5000 packets per second.
    assert_eq!(stats.packets_per_sec, 5000);

    assert!(init_global_packet_pool(10000).is_ok());
}

#[test]
fn test_decimal_rendering() {
    assert_eq!(u64_to_string(0), "0");
    assert_eq!(u64_to_string(7), "7");
    assert_eq!(u64_to_string(12345), "12345");
    assert_eq!(u64_to_string(u64::MAX), "18446744073709551615");
}

#[test]
fn test_attack_label_set() {
    assert!(is_attack_label("SYN"));
    assert!(is_attack_label("UDPLag"));
    assert!(is_attack_label("SLOWLORIS"));
    assert!(!is_attack_label("BENIGN"));
    assert!(!is_attack_label("Error"));
    assert!(!is_attack_label("syn"));
}
