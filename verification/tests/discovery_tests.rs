use quicrtc::discovery::{DiscoveryConfig, DiscoveryEvent, PeerDiscovery, PeerInfo, PeerStatus};
use quicrtc::error::QuicRtcError;

const NOW: i64 = 1_700_000_000_000;

fn create_test_peer(id: &str, room_id: &str, capabilities: Vec<String>) -> PeerInfo {
    PeerInfo {
        id: id.to_string(),
        name: Some(format!("Test Peer {}", id)),
        room_id: room_id.to_string(),
        quic_endpoint: Some("127.0.0.1:0".to_string()),
        capabilities,
        last_seen: NOW,
        status: PeerStatus::Online,
    }
}

fn ids(peers: &[PeerInfo]) -> Vec<&str> {
    peers.iter().map(|p| p.id.as_str()).collect()
}

#[test]
fn test_peer_capability_matching() {
    let mut discovery = PeerDiscovery::new();
    discovery
        .add_peer(create_test_peer("video-peer", "media-room", vec!["h264".to_string(), "vp8".to_string()]))
        .unwrap();
    discovery
        .add_peer(create_test_peer("audio-peer", "media-room", vec!["opus".to_string(), "g722".to_string()]))
        .unwrap();
    discovery
        .add_peer(create_test_peer("full-peer", "media-room", vec!["h264".to_string(), "opus".to_string()]))
        .unwrap();

    let video_peers = discovery.find_peers_with_capabilities("media-room", &["h264".to_string()]).unwrap();
    assert_eq!(video_peers.len(), 2);
    assert!(ids(&video_peers).contains(&"video-peer"));
    assert!(ids(&video_peers).contains(&"full-peer"));

    let audio_peers = discovery.find_peers_with_capabilities("media-room", &["opus".to_string()]).unwrap();
    assert_eq!(audio_peers.len(), 2);
    assert!(ids(&audio_peers).contains(&"audio-peer"));
    assert!(ids(&audio_peers).contains(&"full-peer"));

    let multimedia_peers = discovery
        .find_peers_with_capabilities("media-room", &["h264".to_string(), "opus".to_string()])
        .unwrap();
    assert_eq!(multimedia_peers.len(), 1);
    assert_eq!(multimedia_peers[0].id, "full-peer");

    let special_peers = discovery.find_peers_with_capabilities("media-room", &["av1".to_string()]).unwrap();
    assert_eq!(special_peers.len(), 0);
}

#[test]
fn test_peer_status_filtering() {
    let mut discovery = PeerDiscovery::new();
    discovery.add_peer(create_test_peer("online-peer", "status-room", vec!["h264".to_string()])).unwrap();
    discovery.add_peer(create_test_peer("away-peer", "status-room", vec!["opus".to_string()])).unwrap();
    discovery.add_peer(create_test_peer("offline-peer", "status-room", vec!["vp8".to_string()])).unwrap();

    discovery.update_peer_status("status-room", "away-peer", PeerStatus::Away).unwrap();
    discovery.update_peer_status("status-room", "offline-peer", PeerStatus::Offline).unwrap();

    let online_peers = discovery.get_peers_by_status("status-room", PeerStatus::Online).unwrap();
    assert_eq!(online_peers.len(), 1);
    assert_eq!(online_peers[0].id, "online-peer");

    let away_peers = discovery.get_peers_by_status("status-room", PeerStatus::Away).unwrap();
    assert_eq!(away_peers.len(), 1);
    assert_eq!(away_peers[0].id, "away-peer");

    let offline_peers = discovery.get_peers_by_status("status-room", PeerStatus::Offline).unwrap();
    assert_eq!(offline_peers.len(), 1);
    assert_eq!(offline_peers[0].id, "offline-peer");
}

#[test]
fn test_room_synchronization_with_conflicts() {
    let mut discovery = PeerDiscovery::new();
    let events = discovery.add_peer(create_test_peer("peer-1", "sync-room", vec!["h264".to_string()])).unwrap();
    assert!(matches!(&events[0], DiscoveryEvent::PeerDiscovered { peer, .. } if peer.id == "peer-1"));
    discovery.add_peer(create_test_peer("peer-2", "sync-room", vec!["opus".to_string()])).unwrap();

    let updated_peer1 = PeerInfo {
        id: "peer-1".to_string(),
        name: Some("Updated Peer 1".to_string()),
        room_id: "sync-room".to_string(),
        quic_endpoint: Some("192.168.1.100:8080".to_string()),
        capabilities: vec!["h264".to_string(), "vp9".to_string()],
        last_seen: NOW,
        status: PeerStatus::Online,
    };
    let new_peer3 = create_test_peer("peer-3", "sync-room", vec!["av1".to_string()]);

    let events = discovery.synchronize_room("sync-room", vec![updated_peer1, new_peer3]).unwrap();
    assert_eq!(events.len(), 1);
    match &events[0] {
        DiscoveryEvent::RoomSynchronized { room_id, peer_count } => {
            assert_eq!(room_id, "sync-room");
            assert_eq!(*peer_count, 2);
        }
        other => panic!("Expected RoomSynchronized event, got: {:?}", other),
    }

    let final_peers = discovery.discover_peers("sync-room").unwrap();
    assert_eq!(final_peers.len(), 2);
    let peer_ids = ids(&final_peers);
    assert!(peer_ids.contains(&"peer-1"));
    assert!(peer_ids.contains(&"peer-3"));
    assert!(!peer_ids.contains(&"peer-2"));

    let updated_peer = final_peers.iter().find(|p| p.id == "peer-1").unwrap();
    assert_eq!(updated_peer.name, Some("Updated Peer 1".to_string()));
    assert_eq!(updated_peer.capabilities.len(), 2);
}

#[test]
fn test_room_statistics() {
    let mut discovery = PeerDiscovery::new();
    discovery.add_peer(create_test_peer("stats-peer-1", "stats-room", vec!["h264".to_string()])).unwrap();
    discovery.add_peer(create_test_peer("stats-peer-2", "stats-room", vec!["opus".to_string()])).unwrap();
    discovery.add_peer(create_test_peer("stats-peer-3", "stats-room", vec!["vp8".to_string()])).unwrap();

    discovery.update_peer_status("stats-room", "stats-peer-2", PeerStatus::Away).unwrap();
    discovery.update_peer_status("stats-room", "stats-peer-3", PeerStatus::Offline).unwrap();

    let stats = discovery.get_room_stats("stats-room").unwrap();
    assert_eq!(stats.room_id, "stats-room");
    assert_eq!(stats.total_peers, 3);
    assert_eq!(stats.online_peers, 1);
    assert_eq!(stats.away_peers, 1);
    assert_eq!(stats.offline_peers, 1);
}

#[test]
fn test_discovery_with_room_capacity_limits() {
    let config = DiscoveryConfig { cleanup_interval: 60, offline_timeout: 300, max_peers_per_room: 2 };
    let mut discovery = PeerDiscovery::new_with_config(config);

    assert!(discovery.add_peer(create_test_peer("capacity-peer-1", "capacity-room", vec!["h264".to_string()])).is_ok());
    assert!(discovery.add_peer(create_test_peer("capacity-peer-2", "capacity-room", vec!["opus".to_string()])).is_ok());

    let result = discovery.add_peer(create_test_peer("capacity-peer-3", "capacity-room", vec!["vp8".to_string()]));
    assert!(result.is_err());
    if let Err(e) = result {
        assert!(e.message().contains("Room full"));
    }

    assert!(discovery.add_peer(create_test_peer("capacity-peer-4", "other-room", vec!["av1".to_string()])).is_ok());
}

#[test]
fn full_room_still_takes_a_known_peer_again() {
    let config = DiscoveryConfig { cleanup_interval: 60, offline_timeout: 300, max_peers_per_room: 1 };
    let mut discovery = PeerDiscovery::new_with_config(config);
    discovery.add_peer(create_test_peer("p", "r", vec![])).unwrap();
    let events = discovery.add_peer(create_test_peer("p", "r", vec!["opus".to_string()])).unwrap();
    assert!(events.is_empty());
    assert_eq!(discovery.discover_peers("r").unwrap()[0].capabilities, vec!["opus".to_string()]);
    match discovery.add_peer(create_test_peer("q", "r", vec![])) {
        Err(QuicRtcError::RoomFull { room_id, max_participants }) => {
            assert_eq!(room_id, "r");
            assert_eq!(max_participants, 1);
        }
        other => panic!("expected RoomFull, got {:?}", other),
    }
}

#[test]
fn test_event_driven_discovery_workflow() {
    let mut discovery = PeerDiscovery::new();
    let events = discovery.add_peer(create_test_peer("workflow-peer", "workflow-room", vec!["h264".to_string()])).unwrap();
    match &events[0] {
        DiscoveryEvent::PeerDiscovered { room_id, peer } => {
            assert_eq!(room_id, "workflow-room");
            assert_eq!(peer.id, "workflow-peer");
            assert_eq!(peer.status, PeerStatus::Online);
        }
        other => panic!("Expected PeerDiscovered, got: {:?}", other),
    }

    let events = discovery.update_peer_status("workflow-room", "workflow-peer", PeerStatus::Away).unwrap();
    match &events[0] {
        DiscoveryEvent::PeerStatusChanged { room_id, peer_id, old_status, new_status } => {
            assert_eq!(room_id, "workflow-room");
            assert_eq!(peer_id, "workflow-peer");
            assert_eq!(*old_status, PeerStatus::Online);
            assert_eq!(*new_status, PeerStatus::Away);
        }
        other => panic!("Expected PeerStatusChanged, got: {:?}", other),
    }

    let events = discovery.remove_peer("workflow-room", "workflow-peer").unwrap();
    match &events[0] {
        DiscoveryEvent::PeerLeft { room_id, peer_id } => {
            assert_eq!(room_id, "workflow-room");
            assert_eq!(peer_id, "workflow-peer");
        }
        other => panic!("Expected PeerLeft, got: {:?}", other),
    }

    let peers = discovery.discover_peers("workflow-room").unwrap();
    assert_eq!(peers.len(), 0);
}

#[test]
fn test_multiple_rooms_isolation() {
    let mut discovery = PeerDiscovery::new();
    discovery.add_peer(create_test_peer("r1-peer1", "room-1", vec!["h264".to_string()])).unwrap();
    discovery.add_peer(create_test_peer("r1-peer2", "room-1", vec!["opus".to_string()])).unwrap();
    discovery.add_peer(create_test_peer("r2-peer1", "room-2", vec!["vp8".to_string()])).unwrap();
    discovery.add_peer(create_test_peer("r2-peer2", "room-2", vec!["g722".to_string()])).unwrap();

    let room1_peers = discovery.discover_peers("room-1").unwrap();
    assert_eq!(room1_peers.len(), 2);
    for peer in &room1_peers {
        assert!(peer.id.starts_with("r1-"));
        assert_eq!(peer.room_id, "room-1");
    }
    let room2_peers = discovery.discover_peers("room-2").unwrap();
    assert_eq!(room2_peers.len(), 2);
    for peer in &room2_peers {
        assert!(peer.id.starts_with("r2-"));
        assert_eq!(peer.room_id, "room-2");
    }
    assert_eq!(discovery.discover_peers("room-3").unwrap().len(), 0);

    let h264_peers_room1 = discovery.find_peers_with_capabilities("room-1", &["h264".to_string()]).unwrap();
    assert_eq!(h264_peers_room1.len(), 1);
    assert_eq!(h264_peers_room1[0].id, "r1-peer1");
    let h264_peers_room2 = discovery.find_peers_with_capabilities("room-2", &["h264".to_string()]).unwrap();
    assert_eq!(h264_peers_room2.len(), 0);

    let active_rooms = discovery.get_active_rooms();
    assert_eq!(active_rooms.len(), 2);
    assert!(active_rooms.contains(&"room-1".to_string()));
    assert!(active_rooms.contains(&"room-2".to_string()));
}

#[test]
fn test_peer_cleanup_edge_cases() {
    let mut discovery = PeerDiscovery::new();
    assert!(discovery.remove_peer("nonexistent-room", "nonexistent-peer").is_ok());
    assert!(discovery.update_peer_status("nonexistent-room", "nonexistent-peer", PeerStatus::Away).is_err());
    assert!(discovery.get_room_stats("nonexistent-room").is_err());

    discovery.add_peer(create_test_peer("cleanup-peer", "cleanup-room", vec!["h264".to_string()])).unwrap();
    assert!(discovery.get_active_rooms().contains(&"cleanup-room".to_string()));
    discovery.remove_peer("cleanup-room", "cleanup-peer").unwrap();
    assert!(!discovery.get_active_rooms().contains(&"cleanup-room".to_string()));
}

#[test]
fn cleanup_marks_stale_peers_offline_then_removes_them() {
    let mut discovery = PeerDiscovery::new();
    let mut fresh = create_test_peer("fresh", "room", vec![]);
    fresh.last_seen = NOW - 10_000;
    let mut stale = create_test_peer("stale", "room", vec![]);
    stale.last_seen = NOW - 400_000;
    let mut gone = create_test_peer("gone", "room", vec![]);
    gone.last_seen = NOW - 700_000;
    discovery.add_peer(fresh).unwrap();
    discovery.add_peer(stale).unwrap();
    discovery.add_peer(gone).unwrap();

    let events = discovery.cleanup_offline_peers_at(NOW, 300);
    assert_eq!(events.len(), 3);
    assert!(matches!(&events[0], DiscoveryEvent::PeerStatusChanged { peer_id, new_status: PeerStatus::Offline, .. } if peer_id == "stale"));
    assert!(matches!(&events[1], DiscoveryEvent::PeerStatusChanged { peer_id, .. } if peer_id == "gone"));
    assert!(matches!(&events[2], DiscoveryEvent::PeerLeft { peer_id, .. } if peer_id == "gone"));

    let left = discovery.discover_peers("room").unwrap();
    assert_eq!(ids(&left), vec!["fresh", "stale"]);
    assert_eq!(left[1].status, PeerStatus::Offline);

    // A second pass at the same time changes nothing more: the stale peer is already offline.
    let again = discovery.cleanup_offline_peers_at(NOW, 300);
    assert!(again.is_empty());
}

#[test]
fn cleanup_drops_rooms_left_empty() {
    let mut discovery = PeerDiscovery::new();
    let mut gone = create_test_peer("gone", "lonely", vec![]);
    gone.last_seen = NOW - 1_000_000;
    discovery.add_peer(gone).unwrap();
    discovery.cleanup_offline_peers_at(NOW, 300);
    assert!(discovery.get_active_rooms().is_empty());
    assert!(discovery.get_room_stats("lonely").is_err());
}

#[test]
fn cleanup_reports_the_previous_status_of_a_stale_peer() {
    let mut discovery = PeerDiscovery::new();
    let mut away = create_test_peer("away", "room", vec![]);
    away.last_seen = NOW - 400_000;
    away.status = PeerStatus::Away;
    discovery.add_peer(away).unwrap();
    let events = discovery.cleanup_offline_peers_at(NOW, 300);
    assert_eq!(events.len(), 1);
    match &events[0] {
        DiscoveryEvent::PeerStatusChanged { peer_id, old_status, new_status, .. } => {
            assert_eq!(peer_id, "away");
            assert_eq!(*old_status, PeerStatus::Away);
            assert_eq!(*new_status, PeerStatus::Offline);
        }
        other => panic!("expected PeerStatusChanged, got {:?}", other),
    }
}
