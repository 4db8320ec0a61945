use quicrtc::error::QuicRtcError;
use quicrtc::session::{
    quality_rating_of, track_quality_rating, validate_room_settings, EventFilter, EventKind, ParticipantError,
    Participants, QualityRating, TrackKind, TrackQuality, TrackSource,
};

#[test]
fn test_event_type_classification() {
    let participant_event = EventKind::ParticipantJoined;
    assert!(participant_event.is_participant_event());
    assert!(!participant_event.is_track_event());
    assert!(!participant_event.is_connection_event());

    let track_event = EventKind::TrackReceived;
    assert!(!track_event.is_participant_event());
    assert!(track_event.is_track_event());
    assert!(!track_event.is_connection_event());

    let connection_event = EventKind::RoomReconnected;
    assert!(!connection_event.is_participant_event());
    assert!(!connection_event.is_track_event());
    assert!(connection_event.is_connection_event());

    let error_event = EventKind::RoomError;
    assert!(error_event.is_error_event());
    assert!(!error_event.is_connection_event());
}

#[test]
fn test_event_filter() {
    let participant_event = EventKind::ParticipantJoined;
    let track_event = EventKind::TrackReceived;
    let connection_event = EventKind::RoomReconnected;

    let all_filter = EventFilter::all();
    assert!(all_filter.should_include(participant_event));
    assert!(all_filter.should_include(track_event));
    assert!(all_filter.should_include(connection_event));

    let participant_filter = EventFilter::participant_only();
    assert!(participant_filter.should_include(participant_event));
    assert!(!participant_filter.should_include(track_event));
    assert!(!participant_filter.should_include(connection_event));

    let specific_filter = EventFilter::specific(vec!["participant_joined".to_string()]);
    assert!(specific_filter.should_include(participant_event));
    assert!(!specific_filter.should_include(track_event));
    assert!(!specific_filter.should_include(connection_event));
}

#[test]
fn test_network_quality_metrics() {
    // overall scores of the excellent, poor and custom metrics
    assert_eq!(quality_rating_of(95), QualityRating::Excellent);
    assert_eq!(quality_rating_of(25), QualityRating::Poor);
    assert_eq!(quality_rating_of(65), QualityRating::Good);
}

#[test]
fn rating_boundaries() {
    assert_eq!(quality_rating_of(100), QualityRating::Excellent);
    assert_eq!(quality_rating_of(101), QualityRating::Unknown);
    assert_eq!(quality_rating_of(80), QualityRating::Excellent);
    assert_eq!(quality_rating_of(79), QualityRating::Good);
    assert_eq!(quality_rating_of(40), QualityRating::Fair);
    assert_eq!(quality_rating_of(39), QualityRating::Poor);
    assert_eq!(quality_rating_of(19), QualityRating::VeryPoor);
    assert_eq!(quality_rating_of(0), QualityRating::VeryPoor);
    assert_eq!(track_quality_rating(Some(55), false), TrackQuality::Fair);
    assert_eq!(track_quality_rating(None, true), TrackQuality::Good);
    assert_eq!(track_quality_rating(None, false), TrackQuality::Poor);
}

#[test]
fn event_type_names() {
    assert_eq!(EventKind::ParticipantJoined.event_type(), "participant_joined");
    assert_eq!(EventKind::RoomReconnecting.event_type(), "room_reconnecting");
    assert_eq!(EventKind::TrackMuteChanged.event_type(), "track_mute_changed");
    let f = EventFilter::connection_only();
    assert!(f.should_include(EventKind::NetworkQualityChanged));
    assert!(!f.should_include(EventKind::RoomError));
    let f = EventFilter::track_only();
    assert!(f.should_include(EventKind::LocalTrackPublished));
    assert!(EventFilter::default().should_include(EventKind::RoomError));
    assert_eq!(TrackKind::Video.as_str(), "video");
    assert_eq!(TrackSource::SystemAudio.as_str(), "system_audio");
}

#[test]
fn participants_capacity_and_duplicates() {
    let mut ps: Participants<u32> = Participants::with_max_participants(2);
    assert!(ps.add_remote_participant("a".to_string(), 1).is_ok());
    match ps.add_remote_participant("a".to_string(), 2) {
        Err(e @ ParticipantError::ParticipantAlreadyExists { .. }) => {
            assert_eq!(e.message(), "Participant with ID 'a' already exists")
        }
        _ => panic!("expected duplicate"),
    }
    assert!(ps.add_remote_participant("b".to_string(), 2).is_ok());
    assert!(ps.is_at_capacity());
    match ps.add_remote_participant("c".to_string(), 3) {
        Err(e @ ParticipantError::MaximumParticipantsExceeded { max: 2 }) => {
            assert_eq!(e.message(), "Maximum number of participants (2) exceeded")
        }
        _ => panic!("expected capacity error"),
    }
    assert_eq!(ps.count(), 2);
    assert_eq!(ps.get_remote_participant("b"), Some(&2));
    assert_eq!(ps.remove_remote_participant("a"), Some(1));
    assert!(!ps.contains_participant("a"));
    assert_eq!(ps.participant_ids(), vec![&"b".to_string()]);
    ps.set_max_participants(None);
    assert!(!ps.is_at_capacity());
    ps.clear();
    assert_eq!(ps.count(), 0);
}

fn check(
    participant: Option<&str>,
    room: &str,
    volume: Option<bool>,
    framerate: Option<bool>,
    max: Option<usize>,
    bw: Option<u64>,
) -> Result<(), QuicRtcError> {
    validate_room_settings(&participant.map(|p| p.to_string()), &room.to_string(), volume, framerate, max, bw)
}

#[test]
fn test_room_builder_validation_missing_participant() {
    match check(None, "test-room", None, None, None, None) {
        Err(QuicRtcError::MissingConfiguration { field }) => assert_eq!(field, "participant_id"),
        _ => panic!("Expected MissingConfiguration error"),
    }
}

#[test]
fn test_room_builder_validation_empty_participant_id() {
    match check(Some(""), "test-room", None, None, None, None) {
        Err(QuicRtcError::MissingConfiguration { field }) => assert_eq!(field, "participant_id cannot be empty"),
        _ => panic!("Expected MissingConfiguration error"),
    }
}

#[test]
fn test_room_builder_validation_participant_id_too_long() {
    let long_id = "a".repeat(65);
    match check(Some(&long_id), "test-room", None, None, None, None) {
        Err(QuicRtcError::InvalidData { reason }) => assert_eq!(reason, "participant_id cannot exceed 64 characters"),
        _ => panic!("Expected InvalidData error"),
    }
}

#[test]
fn test_room_builder_validation_room_id_too_long() {
    let long_room = "r".repeat(129);
    match check(Some("alice"), &long_room, None, None, None, None) {
        Err(QuicRtcError::InvalidData { reason }) => assert_eq!(reason, "room_id cannot exceed 128 characters"),
        _ => panic!("Expected InvalidData error"),
    }
}

#[test]
fn test_room_builder_validation_invalid_audio_volume() {
    match check(Some("alice"), "test-room", Some(false), None, None, None) {
        Err(QuicRtcError::InvalidData { reason }) => assert_eq!(reason, "audio volume must be between 0.0 and 1.0"),
        _ => panic!("Expected InvalidData error"),
    }
}

#[test]
fn test_room_builder_validation_invalid_framerate() {
    match check(Some("alice"), "test-room", None, Some(false), None, None) {
        Err(QuicRtcError::InvalidData { reason }) => assert_eq!(reason, "video framerate must be between 0.1 and 120.0"),
        _ => panic!("Expected InvalidData error"),
    }
}

#[test]
fn test_room_builder_validation_invalid_bandwidth() {
    match check(Some("alice"), "test-room", None, None, None, Some(32)) {
        Err(QuicRtcError::InvalidData { reason }) => assert_eq!(reason, "bandwidth limit cannot be less than 64 kbps"),
        _ => panic!("Expected InvalidData error"),
    }
}

#[test]
fn test_room_builder_max_participants_validation() {
    assert!(check(Some("alice"), "test-room", None, None, Some(100), None).is_ok());
    match check(Some("alice"), "test-room", None, None, Some(0), None) {
        Err(QuicRtcError::InvalidData { reason }) => assert_eq!(reason, "max_participants must be at least 1"),
        _ => panic!("Expected InvalidData error"),
    }
    match check(Some("alice"), "test-room", None, None, Some(1001), None) {
        Err(QuicRtcError::InvalidData { reason }) => assert_eq!(reason, "max_participants cannot exceed 1000"),
        _ => panic!("Expected InvalidData error"),
    }
}

#[test]
fn validation_counts_bytes_not_characters() {
    // 32 two-byte characters are 64 bytes: accepted; 33 are 66 bytes: refused
    assert!(check(Some(&"é".repeat(32)), "room", None, None, None, None).is_ok());
    assert!(check(Some(&"é".repeat(33)), "room", None, None, None, None).is_err());
    assert!(check(Some("alice"), "", None, None, None, None).is_err());
    assert!(check(Some("alice"), "room", Some(true), Some(true), Some(1000), Some(64)).is_ok());
}
