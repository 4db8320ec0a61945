use quicrtc::participant::{LocalParticipant, RemoteParticipant};
use quicrtc::session::{ConnectionQuality, ParticipantConnectionState, Participants, RoomConfig};

#[test]
fn local_participant_starts_connected_and_quiet() {
    let p: LocalParticipant<u32> = LocalParticipant::new("me".to_string(), RoomConfig::default());
    assert_eq!(p.id(), "me");
    assert_eq!(p.name(), None);
    assert_eq!(p.connection_state(), ParticipantConnectionState::Connected);
    assert!(!p.is_speaking() && !p.is_muted() && !p.is_video_disabled());
    assert!(p.local_tracks().is_empty());
    assert_eq!(p.metadata().len(), 0);
    let named: LocalParticipant<u32> =
        LocalParticipant::new_with_name("me".to_string(), "Me".to_string(), RoomConfig::default());
    assert_eq!(named.name(), Some("Me"));
}

#[test]
fn local_tracks_are_kept_by_id() {
    let mut p: LocalParticipant<&str> = LocalParticipant::new("me".to_string(), RoomConfig::default());
    p.add_local_track("cam".to_string(), "camera v1");
    p.add_local_track("mic".to_string(), "microphone");
    p.add_local_track("cam".to_string(), "camera v2");
    assert_eq!(p.local_tracks(), vec![&"camera v2", &"microphone"]);
    assert_eq!(p.get_local_track("cam"), Some(&"camera v2"));
    assert_eq!(p.remove_local_track("cam"), Some("camera v2"));
    assert_eq!(p.remove_local_track("cam"), None);
    assert_eq!(p.get_local_track("cam"), None);
    assert_eq!(p.local_tracks(), vec![&"microphone"]);
}

#[test]
fn local_participant_state_changes() {
    let mut p: LocalParticipant<u8> = LocalParticipant::new("me".to_string(), RoomConfig::default());
    p.set_name(Some("Alice".to_string()));
    p.set_speaking(true);
    p.set_muted(true);
    p.set_video_disabled(true);
    p.set_connection_state(ParticipantConnectionState::Reconnecting);
    p.set_metadata("role".to_string(), "host".to_string());
    assert_eq!(p.name(), Some("Alice"));
    assert!(p.is_speaking() && p.is_muted() && p.is_video_disabled());
    assert_eq!(p.connection_state(), ParticipantConnectionState::Reconnecting);
    assert_eq!(p.metadata().get(&"role".to_string()), Some(&"host".to_string()));
    assert_eq!(p.remove_metadata("role"), Some("host".to_string()));
    assert_eq!(p.remove_metadata("role"), None);
    assert!(p.created_at() <= std::time::Instant::now());
    let _ = p.duration_in_room();
}

#[test]
fn remote_participant_lifecycle() {
    let mut p: RemoteParticipant<u8> = RemoteParticipant::new("bob".to_string());
    assert_eq!(p.connection_state(), ParticipantConnectionState::Connecting);
    assert_eq!(p.connection_quality(), ConnectionQuality::Unknown);
    assert!(!p.is_connected());
    assert!(p.last_seen().is_none());
    assert!(!p.is_active());
    p.update_last_seen();
    assert!(p.last_seen().is_some());
    assert!(p.is_active());
    p.set_connection_state(ParticipantConnectionState::Connected);
    assert!(p.is_connected());
    p.set_connection_quality(ConnectionQuality::Good);
    assert_eq!(p.connection_quality(), ConnectionQuality::Good);
    p.add_remote_track("t1".to_string(), 1);
    p.add_remote_track("t2".to_string(), 2);
    assert_eq!(p.remote_tracks(), vec![&1, &2]);
    assert_eq!(p.remove_remote_track("t1"), Some(1));
    assert_eq!(p.get_remote_track("t2"), Some(&2));
    let named: RemoteParticipant<u8> = RemoteParticipant::new_with_name("bob".to_string(), "Bob".to_string());
    assert_eq!(named.name(), Some("Bob"));
}

#[test]
fn participants_can_be_changed_in_place() {
    let mut ps: Participants<RemoteParticipant<u8>> = Participants::new();
    ps.add_remote_participant("bob".to_string(), RemoteParticipant::new("bob".to_string())).unwrap();
    ps.get_remote_participant_mut("bob").unwrap().set_speaking(true);
    assert!(ps.get_remote_participant("bob").unwrap().is_speaking());
    assert!(ps.get_remote_participant_mut("carol").is_none());
}

#[test]
fn activity_window_is_thirty_seconds_since_last_seen() {
    let mut p: RemoteParticipant<u8> = RemoteParticipant::new("bob".to_string());
    assert!(!p.active_after(0));
    p.update_last_seen();
    assert!(p.active_after(29_999_999_999));
    assert!(!p.active_after(30_000_000_000));
    assert_eq!(p.joined_at(), p.joined_at());
}
