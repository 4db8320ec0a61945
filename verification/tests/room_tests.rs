use quicrtc::codecs::VideoQuality;
use quicrtc::error::QuicRtcError;
use quicrtc::room::{
    audio_device_check, camera_capture_settings, media_startup_outcome, media_step_failure, microphone_preflight,
    published_track_id, published_track_label, published_track_names, publish_preflight, room_state_text, MediaStep,
};
use quicrtc::session::{RoomState, TrackKind};
use quicrtc::video::VideoPixelFormat;

fn invalid_state(r: Result<(), QuicRtcError>) -> (String, String) {
    match r {
        Err(QuicRtcError::InvalidState { expected, actual }) => (expected, actual),
        _ => panic!("expected an invalid-state error"),
    }
}

fn media_reason(r: Result<(), QuicRtcError>) -> String {
    match r {
        Err(QuicRtcError::MediaProcessing { reason }) => reason,
        _ => panic!("expected a media-processing error"),
    }
}

#[test]
fn room_state_texts_follow_debug_names() {
    for state in [
        RoomState::Disconnected,
        RoomState::Connecting,
        RoomState::Connected,
        RoomState::Reconnecting,
        RoomState::Disconnecting,
    ] {
        assert_eq!(room_state_text(state), format!("{:?}", state));
    }
}

#[test]
fn publish_needs_a_connected_room() {
    let (expected, actual) = invalid_state(publish_preflight(RoomState::Connecting, TrackKind::Video, true, true, true));
    assert_eq!(expected, "Connected");
    assert_eq!(actual, "Connecting");
    let (_, actual) = invalid_state(publish_preflight(RoomState::Disconnected, TrackKind::Audio, false, false, false));
    assert_eq!(actual, "Disconnected");
}

#[test]
fn publish_needs_the_media_enabled() {
    match publish_preflight(RoomState::Connected, TrackKind::Video, false, true, true) {
        Err(QuicRtcError::InvalidData { reason }) => assert_eq!(reason, "video_enabled must be true to publish camera"),
        _ => panic!("expected invalid data"),
    }
    match publish_preflight(RoomState::Connected, TrackKind::Audio, false, false, false) {
        Err(QuicRtcError::InvalidData { reason }) => {
            assert_eq!(reason, "audio_enabled must be true to publish microphone")
        }
        _ => panic!("expected invalid data"),
    }
}

#[test]
fn publish_needs_a_transport_then_a_device() {
    let (expected, actual) = invalid_state(publish_preflight(RoomState::Connected, TrackKind::Video, true, false, false));
    assert_eq!(expected, "MoQ transport connected");
    assert_eq!(actual, "MoQ transport not available");
    let (expected, actual) = invalid_state(publish_preflight(RoomState::Connected, TrackKind::Video, true, true, false));
    assert_eq!(expected, "Video capture initialized");
    assert_eq!(actual, "Video capture not available");
    let (expected, actual) = invalid_state(publish_preflight(RoomState::Connected, TrackKind::Audio, true, true, false));
    assert_eq!(expected, "Audio renderer initialized");
    assert_eq!(actual, "Audio renderer not available");
    assert!(publish_preflight(RoomState::Connected, TrackKind::Audio, true, true, true).is_ok());
}

#[test]
fn microphone_listing_is_checked_first() {
    let reason = media_reason(microphone_preflight(&Some(Ok(0)), RoomState::Disconnected, false, false, false));
    assert_eq!(reason, "No audio input devices available - check permissions");
    let (expected, _) =
        invalid_state(microphone_preflight(&Some(Err("busy".to_string())), RoomState::Connecting, true, true, true));
    assert_eq!(expected, "Connected");
    assert!(microphone_preflight(&Some(Ok(2)), RoomState::Connected, true, true, true).is_ok());
    assert!(microphone_preflight(&None, RoomState::Connected, true, true, true).is_ok());
}

#[test]
fn audio_listing_failure_is_let_through() {
    assert!(audio_device_check(&Some(Err("no backend".to_string()))).is_ok());
    assert!(audio_device_check(&None).is_ok());
    assert!(audio_device_check(&Some(Ok(1))).is_ok());
    assert!(audio_device_check(&Some(Ok(0))).is_err());
}

#[test]
fn startup_refuses_missing_cameras() {
    let reason = media_reason(media_startup_outcome(true, Some(Ok(0)), true, Some(Ok(1))));
    assert_eq!(reason, "No camera devices available - check permissions");
    let reason = media_reason(media_startup_outcome(true, Some(Err("denied".to_string())), true, Some(Ok(0))));
    assert_eq!(reason, "Camera access denied during initialization: denied");
}

#[test]
fn startup_checks_audio_after_video() {
    let reason = media_reason(media_startup_outcome(true, Some(Ok(1)), true, Some(Ok(0))));
    assert_eq!(reason, "No audio input devices available - check permissions");
    assert!(media_startup_outcome(true, Some(Ok(1)), true, Some(Err("x".to_string()))).is_ok());
    assert!(media_startup_outcome(false, Some(Ok(0)), false, Some(Ok(0))).is_ok());
    assert!(media_startup_outcome(false, None, true, Some(Ok(3))).is_ok());
}

#[test]
fn published_tracks_are_named_after_room_and_participant() {
    let (namespace, track) = published_track_names(&"r1".to_string(), &"alice".to_string(), TrackKind::Video);
    assert_eq!(namespace, "room.r1");
    assert_eq!(track, "alice/camera");
    let (namespace, track) = published_track_names(&"r1".to_string(), &"bob".to_string(), TrackKind::Audio);
    assert_eq!(namespace, "room.r1");
    assert_eq!(track, "bob/microphone");
    assert_eq!(published_track_label(TrackKind::Audio), "microphone");
    assert_eq!(published_track_id(TrackKind::Video, &"1234".to_string()), "camera-1234");
}

#[test]
fn camera_settings_follow_the_quality_preset() {
    let s = camera_capture_settings(VideoQuality::Low);
    assert_eq!((s.resolution.width, s.resolution.height), (320, 240));
    let s = camera_capture_settings(VideoQuality::FullHD);
    assert_eq!((s.resolution.width, s.resolution.height), (1920, 1080));
    assert_eq!(s.pixel_format, VideoPixelFormat::YUV420P);
    assert!(s.hardware_acceleration && s.enable_processing);
    assert_eq!(s.buffer_size, 3);
}

#[test]
fn device_failures_are_labelled_by_step() {
    let detail = "no device".to_string();
    let texts = [
        (MediaStep::CaptureInit, "Failed to initialize video capture: no device"),
        (MediaStep::CaptureStart, "Video capture failed: no device"),
        (MediaStep::VolumeSet, "Failed to set audio volume: no device"),
    ];
    for (step, text) in texts {
        match media_step_failure(step, &detail) {
            QuicRtcError::MediaProcessing { reason } => assert_eq!(reason, text),
            _ => panic!("expected a media-processing error"),
        }
    }
}
