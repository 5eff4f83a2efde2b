//! The rate detector's sliding window and the error type.

use ddosflow::ddos::DDoSDetector;
use ddosflow::error::DDoSError;

#[test]
fn test_ddos_detector_creation() {
    let _detector = DDoSDetector::new(60, 100);
    assert!(true);
}

#[test]
fn test_ddos_detector_threshold_check() {
    let mut detector = DDoSDetector::new(60, 2);

    let result1 = detector.check_ip("192.168.1.100", "TEST");
    assert!(result1.is_none());

    let result2 = detector.check_ip("192.168.1.100", "TEST");
    assert!(result2.is_some());

    let result3 = detector.check_ip("192.168.1.100", "TEST");
    assert!(result3.is_some());

    if let Some(alert) = result3 {
        let message = alert.message();
        assert!(message.contains("192.168.1.100"));
        assert!(message.contains("TEST"));
    }
}

#[test]
fn test_ddos_window_scenario() {
    // Threshold 2, window 60 s, with explicit times in microseconds.
    let mut detector = DDoSDetector::new(60, 2);
    let t0: u64 = 1_000_000_000_000_000;

    let r1 = detector.check_at("10.0.0.5", "SYN", t0);
    assert!(r1.is_none());

    let r2 = detector.check_at("10.0.0.5", "SYN", t0 + 1_000_000);
    let alert = r2.expect("second event within the window must alert");
    assert!(alert.ip.contains("10.0.0.5"));
    assert_eq!(alert.count, 2);
    assert_eq!(alert.threshold, 2);
    assert_eq!(alert.window_secs, 60);
    assert_eq!(alert.attack_type, "SYN");

    // 70 s later both old events have left the window: no new breach.
    let r3 = detector.check_at("10.0.0.5", "SYN", t0 + 70_000_000);
    assert!(r3.is_none());
}

#[test]
fn test_ddos_window_per_address() {
    let mut detector = DDoSDetector::new(60, 2);
    let t0: u64 = 5_000_000_000;
    assert!(detector.check_at("10.0.0.1", "UDP", t0).is_none());
    // A different address has its own window.
    assert!(detector.check_at("10.0.0.2", "UDP", t0 + 1).is_none());
    assert!(detector.check_at("10.0.0.1", "UDP", t0 + 2).is_some());
}

#[test]
fn test_alert_message_rendering() {
    let mut detector = DDoSDetector::new(60, 1);
    let alert = detector.check_at("1.2.3.4", "NTP", 42).expect("threshold 1 alerts at once");
    let message = alert.message();
    assert_eq!(
        message,
        "ALERT: Potential DDoS Attack detected! Source IP: 1.2.3.4 Attack Type: NTP \
         Requests in last 60 seconds: 1 Current Threshold: 1"
    );
}

#[test]
fn test_error_types() {
    let io_error = DDoSError::IoError("Test IO error".to_string());
    let model_error = DDoSError::ModelError("Test model error".to_string());
    let config_error = DDoSError::ConfigError("Test config error".to_string());

    assert!(io_error.message().contains("IO error"));
    assert!(model_error.message().contains("Model error"));
    assert!(config_error.message().contains("Configuration error"));
}

#[test]
fn test_error_from_str() {
    let error: DDoSError = "Test error message".into();
    match error {
        DDoSError::ConfigError(msg) => assert_eq!(msg, "Test error message"),
        _ => panic!("Expected ConfigError"),
    }
}

#[test]
fn test_error_variant_messages() {
    assert_eq!(
        DDoSError::NetworkError("down".to_string()).message(),
        "Network error: down"
    );
    assert_eq!(DDoSError::LockError("held".to_string()).message(), "Lock error: held");
    assert_eq!(
        DDoSError::ParseError("bad digit".to_string()).message(),
        "Parse error: bad digit"
    );
    let from_string: DDoSError = String::from("boom").into();
    match from_string {
        DDoSError::ConfigError(msg) => assert_eq!(msg, "boom"),
        _ => panic!("Expected ConfigError"),
    }
}
