use quicrtc::moq::{
    infer_track_type, AssembledFrame, AssemblerConfig, MediaProcessor, MoqObject, MoqObjectAssembler,
    MoqObjectStatus, TrackNamespace, TrackType,
};

fn ns(track: &str) -> TrackNamespace {
    TrackNamespace { namespace: "example.com".to_string(), track_name: track.to_string() }
}

fn obj(track: &str, group_id: u64, object_id: u64, payload: Vec<u8>, status: MoqObjectStatus) -> MoqObject {
    let size = payload.len();
    MoqObject {
        track_namespace: ns(track),
        track_name: track.to_string(),
        group_id,
        object_id,
        publisher_priority: 1,
        payload,
        object_status: status,
        created_at: 0,
        size,
    }
}

#[test]
fn track_types_follow_the_track_name() {
    assert_eq!(infer_track_type("main-video"), TrackType::Video);
    assert_eq!(infer_track_type("front_camera"), TrackType::Video);
    assert_eq!(infer_track_type("screen-share"), TrackType::Video);
    assert_eq!(infer_track_type("audio"), TrackType::Audio);
    assert_eq!(infer_track_type("microphone"), TrackType::Audio);
    assert_eq!(infer_track_type("mic2"), TrackType::Audio);
    assert_eq!(infer_track_type("chat"), TrackType::Data);
    assert_eq!(infer_track_type(""), TrackType::Data);
}

#[test]
fn video_group_completes_at_end_of_group() {
    let mut assembler = MoqObjectAssembler::new();
    let r = assembler.add_object_at(obj("video", 7, 0, vec![1, 2], MoqObjectStatus::Normal), 0).unwrap();
    assert!(r.is_none());
    let r = assembler.add_object_at(obj("video", 7, 1, vec![3], MoqObjectStatus::EndOfGroup), 10).unwrap();
    match r {
        Some(AssembledFrame::Video(f)) => {
            assert_eq!(f.width, 640);
            assert_eq!(f.height, 480);
            assert_eq!(f.data, vec![1, 2, 3]);
            assert_eq!(f.timestamp, 7);
            assert!(!f.is_keyframe);
        }
        other => panic!("expected a video frame, got {:?}", other),
    }
    let stats = assembler.get_track_stats(&ns("video")).unwrap();
    assert_eq!(stats.objects_received, 2);
    assert_eq!(stats.groups_completed, 1);
    assert_eq!(stats.frames_assembled, 1);
    assert_eq!(stats.missing_objects, 0);
    assert_eq!(stats.retransmission_requests, 0);
}

#[test]
fn objects_out_of_order_assemble_in_id_order() {
    let mut assembler = MoqObjectAssembler::new();
    assert!(assembler.add_object_at(obj("video", 1, 1, vec![20], MoqObjectStatus::Normal), 0).unwrap().is_none());
    assert!(assembler.add_object_at(obj("video", 1, 0, vec![10], MoqObjectStatus::Normal), 0).unwrap().is_none());
    let r = assembler.add_object_at(obj("video", 1, 2, vec![30], MoqObjectStatus::EndOfGroup), 0).unwrap();
    match r {
        Some(AssembledFrame::Video(f)) => assert_eq!(f.data, vec![10, 20, 30]),
        other => panic!("expected a video frame, got {:?}", other),
    }
}

#[test]
fn repeated_object_id_replaces_the_earlier_object() {
    let mut assembler = MoqObjectAssembler::new();
    assembler.add_object_at(obj("video", 1, 0, vec![1], MoqObjectStatus::Normal), 0).unwrap();
    assembler.add_object_at(obj("video", 1, 0, vec![9], MoqObjectStatus::Normal), 0).unwrap();
    let r = assembler.add_object_at(obj("video", 1, 1, vec![2], MoqObjectStatus::EndOfGroup), 0).unwrap();
    match r {
        Some(AssembledFrame::Video(f)) => assert_eq!(f.data, vec![9, 2]),
        other => panic!("expected a video frame, got {:?}", other),
    }
    assert_eq!(assembler.get_track_stats(&ns("video")).unwrap().objects_received, 3);
}

#[test]
fn gaps_are_requested_once() {
    let mut assembler = MoqObjectAssembler::new();
    assembler.add_object_at(obj("video", 3, 0, vec![1], MoqObjectStatus::Normal), 0).unwrap();
    assembler.add_object_at(obj("video", 3, 3, vec![4], MoqObjectStatus::Normal), 0).unwrap();
    assert_eq!(assembler.get_track_stats(&ns("video")).unwrap().retransmission_requests, 2);
    assembler.add_object_at(obj("video", 3, 5, vec![6], MoqObjectStatus::Normal), 0).unwrap();
    assert_eq!(assembler.get_track_stats(&ns("video")).unwrap().retransmission_requests, 2);
}

#[test]
fn gaps_are_not_requested_without_retransmission() {
    let config = AssemblerConfig { enable_retransmission: false, ..AssemblerConfig::default() };
    let mut assembler = MoqObjectAssembler::with_config(config);
    assembler.add_object_at(obj("video", 3, 0, vec![1], MoqObjectStatus::Normal), 0).unwrap();
    assembler.add_object_at(obj("video", 3, 3, vec![4], MoqObjectStatus::Normal), 0).unwrap();
    assert_eq!(assembler.get_track_stats(&ns("video")).unwrap().retransmission_requests, 0);
    assembler.request_object_retransmission(&ns("video"), 1).unwrap();
    assert_eq!(assembler.get_track_stats(&ns("video")).unwrap().retransmission_requests, 0);
}

#[test]
fn explicit_retransmission_requests_are_counted() {
    let mut assembler = MoqObjectAssembler::new();
    assembler.add_object_at(obj("video", 3, 0, vec![1], MoqObjectStatus::Normal), 0).unwrap();
    assembler.request_object_retransmission(&ns("video"), 1).unwrap();
    assembler.request_object_retransmission(&ns("unknown"), 1).unwrap();
    assert_eq!(assembler.get_track_stats(&ns("video")).unwrap().retransmission_requests, 1);
    assert!(assembler.get_track_stats(&ns("unknown")).is_none());
}

#[test]
fn missing_objects_are_counted_for_every_track() {
    let mut assembler = MoqObjectAssembler::new();
    assembler.add_object_at(obj("video", 1, 0, vec![1], MoqObjectStatus::Normal), 0).unwrap();
    assembler.add_object_at(obj("audio", 1, 0, vec![1], MoqObjectStatus::Normal), 0).unwrap();
    assembler.handle_missing_objects(1, vec![4, 5, 6]);
    assert_eq!(assembler.get_track_stats(&ns("video")).unwrap().missing_objects, 3);
    assert_eq!(assembler.get_track_stats(&ns("audio")).unwrap().missing_objects, 3);
}

#[test]
fn audio_group_expands_payload_to_stereo_samples() {
    let mut assembler = MoqObjectAssembler::new();
    let r = assembler.add_object_at(obj("microphone", 2, 0, vec![5, 6], MoqObjectStatus::EndOfGroup), 0).unwrap();
    match r {
        Some(AssembledFrame::Audio(a)) => {
            assert_eq!(a.sample_rate, 48000);
            assert_eq!(a.channels, 2);
            assert_eq!(a.sample_bytes.len(), 1920);
            assert_eq!(a.sample_bytes[0], 5);
            assert_eq!(a.sample_bytes[1], 6);
            assert_eq!(a.sample_bytes[1919], 6);
        }
        other => panic!("expected audio samples, got {:?}", other),
    }
}

#[test]
fn empty_group_payload_is_refused() {
    let mut assembler = MoqObjectAssembler::new();
    let r = assembler.add_object_at(obj("video", 1, 0, vec![], MoqObjectStatus::EndOfGroup), 0);
    assert!(r.is_err());
    let stats = assembler.get_track_stats(&ns("video")).unwrap();
    assert_eq!(stats.frames_assembled, 0);
}

#[test]
fn end_of_track_forgets_the_track() {
    let mut assembler = MoqObjectAssembler::new();
    assembler.add_object_at(obj("video", 1, 0, vec![1], MoqObjectStatus::Normal), 0).unwrap();
    let r = assembler.add_object_at(obj("video", 1, 1, vec![], MoqObjectStatus::EndOfTrack), 0).unwrap();
    assert!(r.is_none());
    assert!(assembler.get_track_stats(&ns("video")).is_none());
    assert!(!assembler.has_frames(&ns("video")));
    assert!(assembler.get_next_frame(&ns("video")).is_none());
    // The dropped group is gone: a new end-of-group object starts a fresh group.
    let r = assembler.add_object_at(obj("video", 1, 1, vec![2], MoqObjectStatus::EndOfGroup), 0).unwrap();
    match r {
        Some(AssembledFrame::Video(f)) => assert_eq!(f.data, vec![2]),
        other => panic!("expected a video frame, got {:?}", other),
    }
}

#[test]
fn expired_groups_are_assembled_and_dropped() {
    let mut assembler = MoqObjectAssembler::new();
    assembler.add_object_at(obj("video", 1, 0, vec![1, 2], MoqObjectStatus::Normal), 0).unwrap();
    assembler.add_object_at(obj("video", 2, 0, vec![3], MoqObjectStatus::Normal), 150_000_000).unwrap();

    // 100 ms is the default wait: at 120 ms only the first group has waited too long.
    let frames = assembler.cleanup_expired_groups_at(120_000_000).unwrap();
    assert_eq!(frames.len(), 1);
    match &frames[0] {
        AssembledFrame::Video(f) => {
            assert_eq!(f.data, vec![1, 2]);
            assert_eq!(f.timestamp, 1);
        }
        other => panic!("expected a video frame, got {:?}", other),
    }
    // Exactly at the limit nothing expires.
    assert!(assembler.cleanup_expired_groups_at(250_000_000).unwrap().is_empty());
    let frames = assembler.cleanup_expired_groups_at(250_000_001).unwrap();
    assert_eq!(frames.len(), 1);
    assert!(assembler.cleanup_expired_groups_at(u64::MAX).unwrap().is_empty());
}

#[test]
fn media_processor_placeholders() {
    let mut p = MediaProcessor::new();
    let f = p.process_incoming_object(obj("video", 1, 1, vec![1], MoqObjectStatus::Normal)).unwrap();
    match f {
        AssembledFrame::Video(v) => {
            assert_eq!((v.width, v.height, v.timestamp), (640, 480, 0));
            assert!(v.data.is_empty());
        }
        other => panic!("expected a video frame, got {:?}", other),
    }
    let o = p.prepare_outgoing_object(f_dummy()).unwrap();
    assert_eq!(o.track_namespace.namespace, "example.com");
    assert_eq!(o.track_name, "video");
    assert_eq!((o.group_id, o.object_id, o.publisher_priority, o.size), (0, 0, 1, 0));
    assert_eq!(o.object_status, MoqObjectStatus::Normal);
}

fn f_dummy() -> AssembledFrame {
    MediaProcessor::new().process_incoming_object(obj("x", 0, 0, vec![], MoqObjectStatus::Normal)).unwrap()
}
