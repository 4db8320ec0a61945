use quicrtc::error::QuicRtcError;
use quicrtc::signaling::{
    Delivery, MoqSessionAnswer, MoqSessionOffer, Participant, Room, SignalingMessage, SignalingResponse,
    SignalingServer,
};

fn test_addr() -> String {
    "127.0.0.1:0".to_string()
}

fn participant(id: &str, name: Option<&str>, conn: &str) -> Participant {
    Participant {
        id: id.to_string(),
        name: name.map(|n| n.to_string()),
        connection_id: conn.to_string(),
        capabilities: vec![],
        quic_endpoint: None,
    }
}

#[test]
fn test_room_creation() {
    let room = Room::new("test-room".to_string(), Some("Test Room".to_string()));
    assert_eq!(room.id, "test-room");
    assert_eq!(room.name, Some("Test Room".to_string()));
    assert_eq!(room.participants.len(), 0);
    assert_eq!(room.max_participants, 100);
}

#[test]
fn test_participant_creation() {
    let participant = Participant {
        id: "test-participant".to_string(),
        name: Some("Test User".to_string()),
        connection_id: "conn-123".to_string(),
        capabilities: vec!["h264".to_string(), "opus".to_string()],
        quic_endpoint: Some(test_addr()),
    };

    assert_eq!(participant.id, "test-participant");
    assert_eq!(participant.name, Some("Test User".to_string()));
    assert_eq!(participant.capabilities, vec!["h264", "opus"]);
    assert!(participant.quic_endpoint.is_some());
}

#[test]
fn test_room_participant_management() {
    let mut room = Room::new("test-room".to_string(), None);

    let participant1 = participant("participant1", Some("User 1"), "conn-1");
    let participant2 = participant("participant2", Some("User 2"), "conn-2");

    assert!(room.add_participant(participant1.duplicate()).is_ok());
    assert_eq!(room.participants.len(), 1);

    assert!(room.add_participant(participant2.duplicate()).is_ok());
    assert_eq!(room.participants.len(), 2);

    let duplicate = participant("participant1", Some("Duplicate User"), "conn-3");
    assert!(room.add_participant(duplicate).is_err());

    assert!(room.get_participant("participant1").is_some());
    assert!(room.get_participant("nonexistent").is_none());

    let others = room.other_participants("participant1");
    assert_eq!(others.len(), 1);
    assert_eq!(others[0].id, "participant2");

    let removed = room.remove_participant("participant1");
    assert!(removed.is_some());
    assert_eq!(removed.unwrap().id, "participant1");
    assert_eq!(room.participants.len(), 1);
}

#[test]
fn test_room_max_participants() {
    let mut room = Room::new("test-room".to_string(), None);
    room.max_participants = 2;

    let participant1 = participant("participant1", None, "conn-1");
    let participant2 = participant("participant2", None, "conn-2");
    let participant3 = participant("participant3", None, "conn-3");

    assert!(room.add_participant(participant1).is_ok());
    assert!(room.add_participant(participant2).is_ok());
    assert!(room.add_participant(participant3).is_err());
}

#[test]
fn test_signaling_server_creation() {
    let server = SignalingServer::new(test_addr());
    assert_eq!(server.get_rooms().len(), 0);
    assert_eq!(server.total_participants(), 0);
}

#[test]
fn room_full_error_names_room_and_limit() {
    let mut room = Room::new("small".to_string(), None);
    room.max_participants = 1;
    assert!(room.add_participant(participant("a", None, "c1")).is_ok());
    match room.add_participant(participant("b", None, "c2")) {
        Err(QuicRtcError::RoomFull { room_id, max_participants }) => {
            assert_eq!(room_id, "small");
            assert_eq!(max_participants, 1);
        }
        other => panic!("unexpected {:?}", other),
    }
    match room.add_participant(participant("a", None, "c3")) {
        Err(QuicRtcError::RoomFull { .. }) => {}
        other => panic!("a full room refuses before checking duplicates, got {:?}", other),
    }
}

fn join(server: &mut SignalingServer, conn: &str, room: &str, id: &str) -> Vec<Delivery> {
    server
        .handle_signaling_message(
            conn.to_string(),
            SignalingMessage::JoinRoom {
                room_id: room.to_string(),
                participant_id: id.to_string(),
                participant_name: Some(format!("{} name", id)),
                capabilities: vec!["h264".to_string()],
                quic_endpoint: None,
            },
        )
        .unwrap()
}

fn create(server: &mut SignalingServer, conn: &str, room: &str, max: Option<usize>) -> Result<Vec<Delivery>, QuicRtcError> {
    server.handle_signaling_message(
        conn.to_string(),
        SignalingMessage::CreateRoom { room_id: room.to_string(), room_name: Some("Room".to_string()), max_participants: max },
    )
}

#[test]
fn join_notifies_existing_participants() {
    let mut server = SignalingServer::new(test_addr());
    let ds = create(&mut server, "c0", "r", None).unwrap();
    assert_eq!(ds.len(), 1);
    assert_eq!(ds[0].connection_id, "c0");
    assert!(matches!(&ds[0].response, SignalingResponse::RoomCreated { room_id } if room_id == "r"));

    let ds = join(&mut server, "c1", "r", "p1");
    assert_eq!(ds.len(), 1);
    assert!(matches!(&ds[0].response, SignalingResponse::JoinedRoom { participant_id, .. } if participant_id == "p1"));

    let ds = join(&mut server, "c2", "r", "p2");
    assert_eq!(ds.len(), 2);
    assert_eq!(ds[0].connection_id, "c2");
    assert_eq!(ds[1].connection_id, "c1");
    match &ds[1].response {
        SignalingResponse::ParticipantJoined { room_id, participant } => {
            assert_eq!(room_id, "r");
            assert_eq!(participant.id, "p2");
            assert_eq!(participant.connection_id, "c2");
        }
        other => panic!("unexpected {:?}", other),
    }
    assert_eq!(server.total_participants(), 2);
}

#[test]
fn join_unknown_room_is_refused() {
    let mut server = SignalingServer::new(test_addr());
    let r = server.handle_signaling_message(
        "c1".to_string(),
        SignalingMessage::JoinRoom {
            room_id: "nonexistent-room".to_string(),
            participant_id: "test-participant".to_string(),
            participant_name: None,
            capabilities: vec![],
            quic_endpoint: None,
        },
    );
    match r {
        Err(e) => {
            assert_eq!(e.error_code(), "ROOM_NOT_FOUND");
            assert!(e.message().contains("Room not found"));
        }
        Ok(_) => panic!("expected an error"),
    }
}

#[test]
fn refused_message_is_answered_with_error() {
    let mut server = SignalingServer::new(test_addr());
    create(&mut server, "c0", "duplicate-room", None).unwrap();
    let ds = server.answer_message(
        "c9".to_string(),
        SignalingMessage::CreateRoom {
            room_id: "duplicate-room".to_string(),
            room_name: Some("Duplicate Room".to_string()),
            max_participants: None,
        },
    );
    assert_eq!(ds.len(), 1);
    assert_eq!(ds[0].connection_id, "c9");
    match &ds[0].response {
        SignalingResponse::Error { error, error_code } => {
            assert_eq!(error_code, "ROOM_ALREADY_EXISTS");
            assert_eq!(error, "Room already exists: duplicate-room");
        }
        other => panic!("unexpected {:?}", other),
    }
}

#[test]
fn full_room_refuses_join() {
    let mut server = SignalingServer::new(test_addr());
    create(&mut server, "c0", "r", Some(1)).unwrap();
    join(&mut server, "c1", "r", "p1");
    let r = server.handle_signaling_message(
        "c2".to_string(),
        SignalingMessage::JoinRoom {
            room_id: "r".to_string(),
            participant_id: "p2".to_string(),
            participant_name: None,
            capabilities: vec![],
            quic_endpoint: None,
        },
    );
    match r {
        Err(QuicRtcError::RoomFull { max_participants, .. }) => assert_eq!(max_participants, 1),
        other => panic!("unexpected {:?}", other),
    }
    assert_eq!(server.total_participants(), 1);
}

#[test]
fn leave_then_rejoin_and_notices() {
    let mut server = SignalingServer::new(test_addr());
    create(&mut server, "c0", "r", None).unwrap();
    join(&mut server, "c1", "r", "p1");
    join(&mut server, "c2", "r", "p2");
    let ds = server
        .handle_signaling_message(
            "c1".to_string(),
            SignalingMessage::LeaveRoom { room_id: "r".to_string(), participant_id: "p1".to_string() },
        )
        .unwrap();
    assert_eq!(ds.len(), 2);
    assert!(matches!(&ds[0].response, SignalingResponse::LeftRoom { .. }));
    assert_eq!(ds[1].connection_id, "c2");
    assert!(matches!(&ds[1].response, SignalingResponse::ParticipantLeft { participant_id, .. } if participant_id == "p1"));
    assert_eq!(server.total_participants(), 1);

    // leaving again changes nothing and sends nothing
    let ds = server
        .handle_signaling_message(
            "c1".to_string(),
            SignalingMessage::LeaveRoom { room_id: "r".to_string(), participant_id: "p1".to_string() },
        )
        .unwrap();
    assert!(ds.is_empty());
    assert_eq!(server.total_participants(), 1);
}

#[test]
fn offer_and_answer_are_forwarded() {
    let mut server = SignalingServer::new(test_addr());
    create(&mut server, "c0", "moq-test-room", None).unwrap();
    join(&mut server, "c1", "moq-test-room", "moq-participant-1");
    join(&mut server, "c2", "moq-test-room", "moq-participant-2");
    let offer = MoqSessionOffer {
        participant_id: "moq-participant-1".to_string(),
        quic_endpoint: "127.0.0.1:8080".to_string(),
        moq_version: "draft-ietf-moq-transport-05".to_string(),
        publish_namespaces: vec!["video/camera".to_string()],
        subscribe_namespaces: vec!["audio/mic".to_string()],
        capabilities: vec![],
        session_id: "session-12345".to_string(),
    };
    let ds = server
        .handle_signaling_message(
            "c1".to_string(),
            SignalingMessage::MoqSessionOffer {
                room_id: "moq-test-room".to_string(),
                target_participant: "moq-participant-2".to_string(),
                offer,
            },
        )
        .unwrap();
    assert_eq!(ds.len(), 1);
    assert_eq!(ds[0].connection_id, "c2");
    match &ds[0].response {
        SignalingResponse::MoqSessionOffer { source_participant, offer, .. } => {
            assert_eq!(source_participant, "moq-participant-1");
            assert_eq!(offer.session_id, "session-12345");
        }
        other => panic!("unexpected {:?}", other),
    }
    let answer = MoqSessionAnswer {
        participant_id: "moq-participant-2".to_string(),
        quic_endpoint: "127.0.0.1:8081".to_string(),
        moq_version: "draft-ietf-moq-transport-05".to_string(),
        accepted_publish_namespaces: vec![],
        accepted_subscribe_namespaces: vec![],
        session_id: "session-12345".to_string(),
        accepted: true,
    };
    let ds = server
        .handle_signaling_message(
            "c2".to_string(),
            SignalingMessage::MoqSessionAnswer {
                room_id: "moq-test-room".to_string(),
                target_participant: "moq-participant-1".to_string(),
                answer,
            },
        )
        .unwrap();
    assert_eq!(ds[0].connection_id, "c1");
    let missing = server.handle_signaling_message(
        "c2".to_string(),
        SignalingMessage::MoqSessionOffer {
            room_id: "moq-test-room".to_string(),
            target_participant: "nobody".to_string(),
            offer: MoqSessionOffer {
                participant_id: "x".to_string(),
                quic_endpoint: String::new(),
                moq_version: String::new(),
                publish_namespaces: vec![],
                subscribe_namespaces: vec![],
                capabilities: vec![],
                session_id: String::new(),
            },
        },
    );
    assert!(matches!(missing, Err(QuicRtcError::ParticipantNotFound { .. })));
}

#[test]
fn list_and_info() {
    let mut server = SignalingServer::new(test_addr());
    for i in 1..=3 {
        create(&mut server, "c0", &format!("info-test-room-{}", i), None).unwrap();
    }
    join(&mut server, "c1", "info-test-room-1", "p1");
    let ds = server.handle_signaling_message("c5".to_string(), SignalingMessage::ListRooms).unwrap();
    match &ds[0].response {
        SignalingResponse::RoomList { rooms } => {
            assert_eq!(rooms.len(), 3);
            assert_eq!(rooms[0].0, "info-test-room-1");
            assert_eq!(rooms[0].2, 1);
            assert_eq!(rooms[2].0, "info-test-room-3");
        }
        other => panic!("unexpected {:?}", other),
    }
    let ds = server
        .handle_signaling_message("c5".to_string(), SignalingMessage::GetRoomInfo { room_id: "info-test-room-1".to_string() })
        .unwrap();
    match &ds[0].response {
        SignalingResponse::RoomInfo { room_id, participants, max_participants, .. } => {
            assert_eq!(room_id, "info-test-room-1");
            assert_eq!(participants.len(), 1);
            assert_eq!(*max_participants, 100);
        }
        other => panic!("unexpected {:?}", other),
    }
    let missing = server.handle_signaling_message("c5".to_string(), SignalingMessage::GetRoomInfo { room_id: "zzz".to_string() });
    assert!(matches!(missing, Err(QuicRtcError::RoomNotFound { .. })));
}

#[test]
fn cleanup_connection_leaves_all_rooms() {
    let mut server = SignalingServer::new(test_addr());
    create(&mut server, "c0", "a", None).unwrap();
    create(&mut server, "c0", "b", None).unwrap();
    join(&mut server, "c1", "a", "p1");
    join(&mut server, "c2", "a", "p2");
    join(&mut server, "c1", "b", "p1");
    assert_eq!(server.total_participants(), 3);
    let ds = server.cleanup_connection("c1".to_string());
    assert_eq!(server.total_participants(), 1);
    // room a: left + notice to p2; room b: left only
    assert_eq!(ds.len(), 3);
    assert!(server.cleanup_connection("nobody".to_string()).is_empty());
    assert!(server.stop().is_ok());
    assert_eq!(server.get_rooms().len(), 0);
}
