use quicrtc::quality::{
    AdaptationReason, BandwidthEstimator, CongestionDetector, CongestionLevel, MoqDeliveryMetrics, QualityAdaptation,
    QualityAdapter, QualitySettings,
};

fn metrics(delivered: u64, lost: u64, avg_ms: u64) -> MoqDeliveryMetrics {
    MoqDeliveryMetrics {
        timestamp: 0,
        objects_delivered: delivered,
        objects_lost: lost,
        avg_delivery_time: avg_ms * 1_000_000,
        max_delivery_time: avg_ms * 2_000_000,
        retransmission_requests: 0,
        buffer_level: 0,
    }
}

#[test]
fn default_quality_settings() {
    let s = QualitySettings::default();
    assert_eq!(s.video_bitrate, 1_000_000);
    assert_eq!(s.audio_bitrate, 64_000);
    assert_eq!((s.video_width, s.video_height, s.video_framerate), (640, 480, 30));
    assert_eq!((s.audio_sample_rate, s.audio_channels), (48000, 2));
}

#[test]
fn congestion_levels_follow_loss_and_delay() {
    let mut d = CongestionDetector::new();
    assert_eq!(d.congestion_level(), CongestionLevel::Clear);
    d.update(&metrics(100, 0, 50));
    assert_eq!(d.congestion_level(), CongestionLevel::Clear);

    let mut d = CongestionDetector::new();
    d.update(&metrics(95, 5, 50)); // 5% lost
    assert_eq!(d.congestion_level(), CongestionLevel::Light);

    let mut d = CongestionDetector::new();
    d.update(&metrics(90, 10, 50)); // 10% lost
    assert_eq!(d.congestion_level(), CongestionLevel::Moderate);

    let mut d = CongestionDetector::new();
    d.update(&metrics(80, 20, 50)); // 20% lost
    assert_eq!(d.congestion_level(), CongestionLevel::Heavy);

    let mut d = CongestionDetector::new();
    d.update(&metrics(100, 0, 250));
    assert_eq!(d.congestion_level(), CongestionLevel::Light);
    let mut d = CongestionDetector::new();
    d.update(&metrics(100, 0, 350));
    assert_eq!(d.congestion_level(), CongestionLevel::Moderate);
    let mut d = CongestionDetector::new();
    d.update(&metrics(100, 0, 600));
    assert_eq!(d.congestion_level(), CongestionLevel::Heavy);
}

#[test]
fn congestion_thresholds_are_strict() {
    let mut d = CongestionDetector::new();
    d.update(&metrics(97, 3, 200)); // exactly 3% and exactly 200 ms
    assert_eq!(d.congestion_level(), CongestionLevel::Clear);
    let mut d = CongestionDetector::new();
    d.update(&metrics(85, 15, 500)); // exactly 15% and 500 ms
    assert_eq!(d.congestion_level(), CongestionLevel::Moderate);
}

#[test]
fn congestion_window_keeps_ten_metrics() {
    let mut d = CongestionDetector::new();
    d.update(&metrics(0, 100, 0));
    assert_eq!(d.congestion_level(), CongestionLevel::Heavy);
    for _ in 0..9 {
        d.update(&metrics(100, 0, 0));
    }
    // The lossy metrics are still one of ten: 100 lost of 1000.
    assert_eq!(d.congestion_level(), CongestionLevel::Moderate);
    d.update(&metrics(100, 0, 0));
    assert_eq!(d.congestion_level(), CongestionLevel::Clear);
}

#[test]
fn empty_detector_keeps_its_level() {
    let mut d = CongestionDetector::new();
    d.detect_congestion();
    assert_eq!(d.congestion_level(), CongestionLevel::Clear);
}

#[test]
fn bandwidth_estimate_from_delivered_objects() {
    let mut e = BandwidthEstimator::new();
    assert_eq!(e.estimated_bandwidth(), 1_000_000);
    // Too soon after the last update (at 0): nothing changes.
    e.update_from_moq_metrics_at(&metrics(100, 0, 0), 50_000_000);
    assert_eq!(e.estimated_bandwidth(), 1_000_000);
    // 250 objects of 1000 bytes over one second: 2 Mbit/s.
    e.update_from_moq_metrics_at(&metrics(250, 0, 0), 1_000_000_000);
    assert_eq!(e.estimated_bandwidth(), 2_000_000);
    // A second second with 500 objects: 750 kB over 2 s = 3 Mbit/s.
    e.update_from_moq_metrics_at(&metrics(500, 0, 0), 2_000_000_000);
    assert_eq!(e.estimated_bandwidth(), 3_000_000);
}

#[test]
fn bandwidth_estimate_saturates() {
    let mut e = BandwidthEstimator::new();
    e.update_from_moq_metrics_at(&metrics(u64::MAX, 0, 0), 100_000_000);
    assert_eq!(e.estimated_bandwidth(), u32::MAX);
}

#[test]
fn bandwidth_estimate_rounds_down() {
    let mut e = BandwidthEstimator::new();
    // 1000 bytes over 3 s: 8000 / 3 bits per second.
    e.update_from_moq_metrics_at(&metrics(1, 0, 0), 3_000_000_000);
    assert_eq!(e.estimated_bandwidth(), 2666);
}

fn adaptation(ts: u64) -> QualityAdaptation {
    let s = QualitySettings::default();
    QualityAdaptation { timestamp: ts, previous_settings: s, new_settings: s, reason: AdaptationReason::Manual }
}

#[test]
fn adapter_waits_two_seconds_between_adaptations() {
    let mut a = QualityAdapter::new();
    assert!(a.may_adapt_at(2_000_000_000));
    assert!(!a.may_adapt_at(1_999_999_999));
    a.add_adaptation_at(adaptation(5), 5_000_000_000);
    assert_eq!(a.since_last_adaptation(6_000_000_000), 1_000_000_000);
    assert_eq!(a.since_last_adaptation(1), 0);
    assert!(!a.may_adapt_at(6_000_000_000));
    assert!(a.may_adapt_at(7_000_000_000));
}

#[test]
fn adapter_keeps_twenty_adaptations() {
    let mut a = QualityAdapter::new();
    for i in 0..25u64 {
        a.add_adaptation_at(adaptation(i), i);
    }
    let h = a.adaptation_history();
    assert_eq!(h.len(), 20);
    assert_eq!(h[0].timestamp, 5);
    assert_eq!(h[19].timestamp, 24);
}

#[test]
fn resolution_and_framerate_steps() {
    let s = QualitySettings::default();
    let lower = s.with_lower_resolution();
    assert_eq!((lower.video_width, lower.video_height), (480, 360));
    assert_eq!(lower.video_bitrate, s.video_bitrate);
    let lowest = lower.with_lower_resolution().with_lower_resolution();
    assert_eq!((lowest.video_width, lowest.video_height), (320, 240));
    let higher = s.with_higher_resolution();
    assert_eq!((higher.video_width, higher.video_height), (853, 640));
    let top = QualitySettings { video_width: 1600, video_height: 900, ..s }.with_higher_resolution();
    assert_eq!((top.video_width, top.video_height), (1920, 1080));
    assert_eq!(s.with_lower_framerate().video_framerate, 20);
    assert_eq!(s.with_lower_framerate().with_lower_framerate().with_lower_framerate().video_framerate, 15);
}
