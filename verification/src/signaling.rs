//! Signaling rooms and the signaling server's message handling.
//!
//! The server's state and its answer to every message are computed here;
//! the WebSocket transport that carries messages lives in the application layer.
use vstd::prelude::*;
use crate::assoc::StringMap;
use crate::connections::{owner_of, table_clear, table_contents, table_get, table_insert, table_new, table_remove};
use dashmap::DashMap;
use crate::error::{error_code_of, quic_rtc_error_text, QuicRtcError};
use crate::clock::unix_time_millis;
use crate::text::{copy_opt_string, copy_strings, same_text};

verus! {

/// Participant information in a room
#[derive(Debug)]
pub struct Participant {
    /// Unique participant ID
    pub id: String,
    /// Display name
    pub name: Option<String>,
    /// Signaling connection of the participant
    pub connection_id: String,
    /// MoQ session capabilities
    pub capabilities: Vec<String>,
    /// QUIC endpoint address for direct connection, as `ip:port`
    pub quic_endpoint: Option<String>,
}

/// The contents of a participant record.
pub struct ParticipantView {
    pub id: String,
    pub name: Option<String>,
    pub connection_id: String,
    pub capabilities: Seq<String>,
    pub quic_endpoint: Option<String>,
}

impl View for Participant {
    type V = ParticipantView;

    open spec fn view(&self) -> ParticipantView {
        ParticipantView {
            id: self.id,
            name: self.name,
            connection_id: self.connection_id,
            capabilities: self.capabilities@,
            quic_endpoint: self.quic_endpoint,
        }
    }
}

impl Participant {
    /// A copy of this participant
    pub fn duplicate(&self) -> (r: Participant)
        ensures
            r@ == self@,
    {
        Participant {
            id: self.id.clone(),
            name: copy_opt_string(&self.name),
            connection_id: self.connection_id.clone(),
            capabilities: copy_strings(&self.capabilities),
            quic_endpoint: copy_opt_string(&self.quic_endpoint),
        }
    }
}

/// Whether no two participants share an ID.
pub open spec fn participant_ids_distinct(ps: Seq<Participant>) -> bool {
    forall|i: int, j: int| 0 <= i < ps.len() && 0 <= j < ps.len() && i != j ==> ps[i].id@ != ps[j].id@
}

/// Whether some participant has the ID.
pub open spec fn has_participant(ps: Seq<Participant>, id: Seq<char>) -> bool {
    exists|i: int| 0 <= i < ps.len() && ps[i].id@ == id
}

/// Room state and participant management
#[derive(Debug)]
pub struct Room {
    /// Unique room ID
    pub id: String,
    /// Room display name
    pub name: Option<String>,
    /// Participants in the room, in joining order
    pub participants: Vec<Participant>,
    /// Room creation time, in milliseconds since the Unix epoch
    pub created_at: u64,
    /// Maximum number of participants allowed
    pub max_participants: usize,
    /// Room metadata
    pub metadata: StringMap,
}

/// The contents of a room.
pub struct RoomView {
    pub id: String,
    pub name: Option<String>,
    pub participants: Seq<ParticipantView>,
    pub created_at: u64,
    pub max_participants: usize,
    pub metadata: Map<Seq<char>, Seq<char>>,
}

impl View for Room {
    type V = RoomView;

    open spec fn view(&self) -> RoomView {
        RoomView {
            id: self.id,
            name: self.name,
            participants: self.participants@.map_values(|p: Participant| p@),
            created_at: self.created_at,
            max_participants: self.max_participants,
            metadata: self.metadata@,
        }
    }
}

impl Room {
    /// Participant IDs are distinct.
    pub open spec fn wf(&self) -> bool {
        participant_ids_distinct(self.participants@)
    }

    /// Whether only the participant list differs between two rooms.
    pub open spec fn same_but_participants(&self, other: &Room) -> bool {
        &&& self.id == other.id
        &&& self.name == other.name
        &&& self.created_at == other.created_at
        &&& self.max_participants == other.max_participants
        &&& self.metadata@ == other.metadata@
    }

    /// Create a new, empty room with a limit of 100 participants, created now
    pub fn new(id: String, name: Option<String>) -> (r: Self)
        ensures
            r.id == id,
            r.name == name,
            r.participants@.len() == 0,
            r.max_participants == 100,
            r.metadata@ == Map::<Seq<char>, Seq<char>>::empty(),
            r.wf(),
    {
        Self {
            id,
            name,
            participants: Vec::new(),
            created_at: unix_time_millis(),
            max_participants: 100,
            metadata: StringMap::new(),
        }
    }

    /// Position of the participant with that ID
    pub fn find_participant(&self, participant_id: &str) -> (r: Option<usize>)
        ensures
            r matches Some(i) ==> i < self.participants@.len() && self.participants@[i as int].id@
                == participant_id@,
            r is None ==> !has_participant(self.participants@, participant_id@),
    {
        let mut i: usize = 0;
        while i < self.participants.len()
            invariant
                i <= self.participants@.len(),
                forall|j: int| 0 <= j < i ==> self.participants@[j].id@ != participant_id@,
            decreases self.participants@.len() - i,
        {
            if same_text(&self.participants[i].id, participant_id) {
                return Some(i);
            }
            i = i + 1;
        }
        None
    }

    /// Add a participant to the room. A full room, and a participant ID already present,
    /// are refused and leave the room as it was.
    pub fn add_participant(&mut self, participant: Participant) -> (r: Result<(), QuicRtcError>)
        requires
            old(self).wf(),
        ensures
            final(self).wf(),
            old(self).participants@.len() >= old(self).max_participants ==> r == Err::<(), QuicRtcError>(
                QuicRtcError::RoomFull { room_id: old(self).id, max_participants: old(self).max_participants }),
            old(self).participants@.len() < old(self).max_participants && has_participant(
                old(self).participants@, participant.id@) ==> r == Err::<(), QuicRtcError>(
                QuicRtcError::ParticipantAlreadyExists { room_id: old(self).id, participant_id: participant.id }),
            r is Err ==> *final(self) == *old(self),
            r is Ok <==> old(self).participants@.len() < old(self).max_participants && !has_participant(
                old(self).participants@, participant.id@),
            r is Ok ==> final(self).participants@ == old(self).participants@.push(participant)
                && final(self).same_but_participants(old(self)),
    {
        if self.participants.len() >= self.max_participants {
            return Err(QuicRtcError::RoomFull {
                room_id: self.id.clone(),
                max_participants: self.max_participants,
            });
        }
        match self.find_participant(participant.id.as_str()) {
            Some(_) => {
                return Err(QuicRtcError::ParticipantAlreadyExists {
                    room_id: self.id.clone(),
                    participant_id: participant.id,
                });
            },
            None => {},
        }
        let ghost old_ps = self.participants@;
        self.participants.push(participant);
        proof {
            assert forall|i: int, j: int| 0 <= i < self.participants@.len() && 0 <= j
                < self.participants@.len() && i != j implies self.participants@[i].id@
                != self.participants@[j].id@ by {
                if i < old_ps.len() && j < old_ps.len() {
                } else if i < old_ps.len() {
                    assert(old_ps[i].id@ == self.participants@[i].id@);
                } else {
                    assert(old_ps[j].id@ == self.participants@[j].id@);
                }
            }
        }
        Ok(())
    }

    /// Remove a participant from the room, returning it if it was there
    pub fn remove_participant(&mut self, participant_id: &str) -> (r: Option<Participant>)
        requires
            old(self).wf(),
        ensures
            final(self).wf(),
            final(self).same_but_participants(old(self)),
            r is None <==> !has_participant(old(self).participants@, participant_id@),
            r is None ==> *final(self) == *old(self),
            r matches Some(p) ==> exists|i: int| 0 <= i < old(self).participants@.len()
                && old(self).participants@[i] == p && p.id@ == participant_id@
                && final(self).participants@ == old(self).participants@.remove(i),
    {
        match self.find_participant(participant_id) {
            Some(i) => {
                let ghost old_ps = self.participants@;
                let p = self.participants.remove(i);
                proof {
                    let ps = self.participants@;
                    assert forall|a: int, b: int| 0 <= a < ps.len() && 0 <= b < ps.len() && a != b
                        implies ps[a].id@ != ps[b].id@ by {
                        let oa = if a < i { a } else { a + 1 };
                        let ob = if b < i { b } else { b + 1 };
                        assert(ps[a] == old_ps[oa]);
                        assert(ps[b] == old_ps[ob]);
                    }
                    assert(old_ps[i as int] == p);
                }
                Some(p)
            },
            None => None,
        }
    }

    /// Get participant by ID
    pub fn get_participant(&self, participant_id: &str) -> (r: Option<&Participant>)
        ensures
            r is None <==> !has_participant(self.participants@, participant_id@),
            r matches Some(p) ==> p.id@ == participant_id@ && self.participants@.contains(*p),
    {
        match self.find_participant(participant_id) {
            Some(i) => Some(&self.participants[i]),
            None => None,
        }
    }

    /// A copy of this room
    pub fn duplicate(&self) -> (r: Room)
        requires
            self.wf(),
        ensures
            r@ == self@,
            r.same_but_participants(self),
            r.wf(),
    {
        let participants = copy_participants(&self.participants);
        proof {
            assert(participants@.len() == participants@.map_values(|p: Participant| p@).len());
            assert forall|a: int, b: int| 0 <= a < participants@.len() && 0 <= b < participants@.len()
                && a != b implies participants@[a].id@ != participants@[b].id@ by {
                assert(participants@.map_values(|p: Participant| p@)[a] == self.participants@.map_values(|p: Participant| p@)[a]);
                assert(participants@.map_values(|p: Participant| p@)[b] == self.participants@.map_values(|p: Participant| p@)[b]);
                assert(self.participants@[a].id@ != self.participants@[b].id@);
            }
        }
        Room {
            id: self.id.clone(),
            name: copy_opt_string(&self.name),
            participants,
            created_at: self.created_at,
            max_participants: self.max_participants,
            metadata: self.metadata.duplicate(),
        }
    }

    /// The participants except the one with the given ID, in joining order
    pub fn other_participants(&self, exclude_id: &str) -> (r: Vec<&Participant>)
        ensures
            r@.len() == others(self.participants@, exclude_id@).len(),
            forall|k: int| 0 <= k < r@.len() ==> *r@[k] == others(self.participants@, exclude_id@)[k],
    {
        let mut r: Vec<&Participant> = Vec::new();
        let mut i: usize = 0;
        while i < self.participants.len()
            invariant
                i <= self.participants@.len(),
                r@.len() == others(self.participants@.subrange(0, i as int), exclude_id@).len(),
                forall|k: int| 0 <= k < r@.len() ==> *r@[k] == others(
                    self.participants@.subrange(0, i as int), exclude_id@)[k],
            decreases self.participants@.len() - i,
        {
            let ghost prefix = self.participants@.subrange(0, i as int);
            let ghost next = self.participants@.subrange(0, i + 1);
            assert(next.drop_last() =~= prefix);
            reveal_with_fuel(Seq::<_>::filter, 1);
            if !same_text(&self.participants[i].id, exclude_id) {
                r.push(&self.participants[i]);
            }
            i = i + 1;
        }
        assert(self.participants@.subrange(0, self.participants@.len() as int) =~= self.participants@);
        r
    }
}

/// Copies of the participants, in order.
pub fn copy_participants(ps: &Vec<Participant>) -> (r: Vec<Participant>)
    ensures
        r@.map_values(|p: Participant| p@) == ps@.map_values(|p: Participant| p@),
{
    let mut r: Vec<Participant> = Vec::new();
    let mut i: usize = 0;
    while i < ps.len()
        invariant
            i <= ps@.len(),
            r@.len() == i,
            forall|j: int| 0 <= j < i ==> (#[trigger] r@[j])@ == ps@[j]@,
        decreases ps@.len() - i,
    {
        r.push(ps[i].duplicate());
        i = i + 1;
    }
    assert(r@.map_values(|p: Participant| p@) =~= ps@.map_values(|p: Participant| p@));
    r
}

/// The participants whose ID differs from `exclude`, in order.
pub open spec fn others(ps: Seq<Participant>, exclude: Seq<char>) -> Seq<Participant> {
    ps.filter(|p: Participant| p.id@ != exclude)
}

/// Leaving out participants none of which has the ID changes nothing.
pub proof fn lemma_others_without(ps: Seq<Participant>, id: Seq<char>)
    requires
        !has_participant(ps, id),
    ensures
        others(ps, id) == ps,
    decreases ps.len(),
{
    reveal_with_fuel(Seq::<_>::filter, 1);
    if ps.len() > 0 {
        assert(!has_participant(ps.drop_last(), id)) by {
            if has_participant(ps.drop_last(), id) {
                let j = choose|j: int| 0 <= j < ps.drop_last().len() && ps.drop_last()[j].id@ == id;
                assert(ps[j].id@ == id);
            }
        }
        lemma_others_without(ps.drop_last(), id);
        assert(ps.last().id@ != id);
        assert(ps.drop_last().push(ps.last()) =~= ps);
    }
}

/// With distinct IDs, removing the participant that has an ID is leaving out that ID.
pub proof fn lemma_remove_is_others(ps: Seq<Participant>, i: int, id: Seq<char>)
    requires
        participant_ids_distinct(ps),
        0 <= i < ps.len(),
        ps[i].id@ == id,
    ensures
        ps.remove(i) == others(ps, id),
    decreases ps.len(),
{
    reveal_with_fuel(Seq::<_>::filter, 1);
    let init = ps.drop_last();
    if i == ps.len() - 1 {
        assert(!has_participant(init, id)) by {
            if has_participant(init, id) {
                let j = choose|j: int| 0 <= j < init.len() && init[j].id@ == id;
                assert(ps[j].id@ == id);
            }
        }
        lemma_others_without(init, id);
        assert(ps.remove(i) =~= init);
    } else {
        assert(participant_ids_distinct(init)) by {
            assert forall|a: int, b: int| 0 <= a < init.len() && 0 <= b < init.len() && a != b
                implies init[a].id@ != init[b].id@ by {
                assert(init[a] == ps[a]);
                assert(init[b] == ps[b]);
            }
        }
        lemma_remove_is_others(init, i, id);
        assert(ps.last().id@ != id) by {
            assert(ps[ps.len() - 1].id@ != ps[i].id@);
        }
        assert(ps.remove(i) =~= init.remove(i).push(ps.last()));
    }
}

} // verus!

verus! {

/// MoQ session offer for establishing peer connections
#[derive(Debug)]
pub struct MoqSessionOffer {
    /// Participant ID making the offer
    pub participant_id: String,
    /// QUIC endpoint of the offering participant, as `ip:port`
    pub quic_endpoint: String,
    /// Supported MoQ version
    pub moq_version: String,
    /// Track namespaces this participant can publish
    pub publish_namespaces: Vec<String>,
    /// Track namespaces this participant wants to subscribe to
    pub subscribe_namespaces: Vec<String>,
    /// Additional capabilities
    pub capabilities: Vec<String>,
    /// Session ID for correlation
    pub session_id: String,
}

/// MoQ session answer responding to an offer
#[derive(Debug)]
pub struct MoqSessionAnswer {
    /// Participant ID responding
    pub participant_id: String,
    /// QUIC endpoint of the answering participant, as `ip:port`
    pub quic_endpoint: String,
    /// Accepted MoQ version
    pub moq_version: String,
    /// Track namespaces accepted for publishing
    pub accepted_publish_namespaces: Vec<String>,
    /// Track namespaces accepted for subscription
    pub accepted_subscribe_namespaces: Vec<String>,
    /// Session ID from the offer
    pub session_id: String,
    /// Whether the session is accepted
    pub accepted: bool,
}

/// Signaling protocol messages for MoQ session negotiation
#[derive(Debug)]
pub enum SignalingMessage {
    /// Join room request
    JoinRoom {
        room_id: String,
        participant_id: String,
        participant_name: Option<String>,
        capabilities: Vec<String>,
        quic_endpoint: Option<String>,
    },
    /// Leave room request
    LeaveRoom { room_id: String, participant_id: String },
    /// Create room request
    CreateRoom { room_id: String, room_name: Option<String>, max_participants: Option<usize> },
    /// MoQ session offer to establish direct peer connection
    MoqSessionOffer { room_id: String, target_participant: String, offer: MoqSessionOffer },
    /// MoQ session answer in response to offer
    MoqSessionAnswer { room_id: String, target_participant: String, answer: MoqSessionAnswer },
    /// List all available rooms
    ListRooms,
    /// Get detailed information about a specific room
    GetRoomInfo { room_id: String },
}

/// Server response messages
#[derive(Debug)]
pub enum SignalingResponse {
    /// Successfully joined room
    JoinedRoom { room_id: String, participant_id: String },
    /// Successfully left room
    LeftRoom { room_id: String, participant_id: String },
    /// Room created successfully
    RoomCreated { room_id: String },
    /// Participant joined notification
    ParticipantJoined { room_id: String, participant: Participant },
    /// Participant left notification
    ParticipantLeft { room_id: String, participant_id: String },
    /// MoQ session offer forwarded from another participant
    MoqSessionOffer { room_id: String, source_participant: String, offer: MoqSessionOffer },
    /// MoQ session answer forwarded from another participant
    MoqSessionAnswer { room_id: String, source_participant: String, answer: MoqSessionAnswer },
    /// List of available rooms: (room_id, room_name, participant_count)
    RoomList { rooms: Vec<(String, Option<String>, usize)> },
    /// Detailed room information
    RoomInfo {
        room_id: String,
        room_name: Option<String>,
        participants: Vec<Participant>,
        created_at: u64,
        max_participants: usize,
    },
    /// Error response
    Error { error: String, error_code: String },
}

/// A response and the connection it is to be sent on
#[derive(Debug)]
pub struct Delivery {
    /// Connection the response goes to
    pub connection_id: String,
    /// The response
    pub response: SignalingResponse,
}

/// Whether no two rooms share an ID, and every room has distinct participants.
pub open spec fn rooms_wf(rooms: Seq<Room>) -> bool {
    &&& forall|i: int, j: int| 0 <= i < rooms.len() && 0 <= j < rooms.len() && i != j ==> rooms[i].id@ != rooms[j].id@
    &&& forall|i: int| 0 <= i < rooms.len() ==> #[trigger] rooms[i].wf()
}

/// Whether some room has the ID.
pub open spec fn has_room(rooms: Seq<Room>, id: Seq<char>) -> bool {
    exists|i: int| 0 <= i < rooms.len() && rooms[i].id@ == id
}

/// Whether `new` is `old` with only the participants of the room at `k` replaced by `ps`.
pub open spec fn rooms_updated_at(old: Seq<Room>, new: Seq<Room>, k: int, ps: Seq<Participant>) -> bool {
    &&& new.len() == old.len()
    &&& forall|j: int| 0 <= j < old.len() && j != k ==> new[j] == old[j]
    &&& new[k].same_but_participants(&old[k])
    &&& new[k].participants@ == ps
}

/// Whether the deliveries tell each participant in `ps`, on its connection, that
/// `participant` joined room `room_id`.
pub open spec fn notifies_joined(ds: Seq<Delivery>, ps: Seq<Participant>, room_id: String, participant: ParticipantView) -> bool {
    &&& ds.len() == ps.len()
    &&& forall|i: int| 0 <= i < ps.len() ==> {
        &&& #[trigger] ds[i].connection_id == ps[i].connection_id
        &&& ds[i].response matches SignalingResponse::ParticipantJoined { room_id: rid, participant: p }
            && rid == room_id && p@ == participant
    }
}

/// What a successful leave sends: the confirmation to the leaving connection, then a notice
/// to each remaining participant, on its connection, in order.
pub open spec fn leave_notices(connection_id: String, room_id: String, participant_id: String,
    remaining: Seq<Participant>) -> Seq<Delivery> {
    seq![Delivery { connection_id, response: SignalingResponse::LeftRoom { room_id, participant_id } }]
        + remaining.map_values(|p: Participant| Delivery {
            connection_id: p.connection_id,
            response: SignalingResponse::ParticipantLeft { room_id, participant_id },
        })
}


/// What joining a room does: the refusals, each with the state unchanged, and on success
/// the joiner added to the room, its connection recorded, a confirmation to the joiner
/// and a notice to every participant already there.
pub open spec fn join_outcome(
    old: SignalingServer,
    new: SignalingServer,
    connection_id: String,
    room_id: String,
    participant_id: String,
    participant_name: Option<String>,
    capabilities: Vec<String>,
    quic_endpoint: Option<String>,
    r: Result<Vec<Delivery>, QuicRtcError>,
) -> bool {
    &&& (r is Err ==> new.spec_rooms() == old.spec_rooms()
                && new.spec_connections() == old.spec_connections())
    &&& (!has_room(old.spec_rooms(), room_id@) ==> r == Err::<Vec<Delivery>, QuicRtcError>(
                QuicRtcError::RoomNotFound { room_id }))
    &&& (forall|k: int| 0 <= k < old.spec_rooms().len() && (#[trigger] old.spec_rooms()[k]).id@ == room_id@ ==> {
                let room = old.spec_rooms()[k];
                let joiner = Participant { id: participant_id, name: participant_name,
                    connection_id, capabilities, quic_endpoint };
                &&& (room.participants@.len() >= room.max_participants ==> r == Err::<Vec<Delivery>, QuicRtcError>(
                    QuicRtcError::RoomFull { room_id: room.id, max_participants: room.max_participants }))
                &&& (room.participants@.len() < room.max_participants && has_participant(room.participants@, participant_id@)
                    ==> r == Err::<Vec<Delivery>, QuicRtcError>(QuicRtcError::ParticipantAlreadyExists {
                        room_id: room.id, participant_id }))
                &&& (r is Ok <==> room.participants@.len() < room.max_participants
                    && !has_participant(room.participants@, participant_id@))
                &&& (r matches Ok(ds) ==> {
                    &&& rooms_updated_at(old.spec_rooms(), new.spec_rooms(), k,
                        room.participants@.push(joiner))
                    &&& new.spec_connections() == old.spec_connections().insert(
                        participant_id@, connection_id@)
                    &&& ds@.len() == 1 + room.participants@.len()
                    &&& ds@[0].connection_id == connection_id
                    &&& ds@[0].response == (SignalingResponse::JoinedRoom { room_id, participant_id })
                    &&& notifies_joined(ds@.skip(1), room.participants@, room_id, joiner@)
                })
            })
}


/// What leaving a room does: when the room holds the participant, it is removed, its
/// connection record dropped, the leaving connection told it left, and every remaining
/// participant told who left; otherwise nothing changes and nothing is sent.
pub open spec fn leave_outcome(
    old: SignalingServer,
    new: SignalingServer,
    connection_id: String,
    room_id: String,
    participant_id: String,
    r: Result<Vec<Delivery>, QuicRtcError>,
) -> bool {
    &&& r is Ok
    &&& (forall|k: int| 0 <= k < old.spec_rooms().len() && (#[trigger] old.spec_rooms()[k]).id@ == room_id@
        && has_participant(old.spec_rooms()[k].participants@, participant_id@) ==> {
        let remaining = others(old.spec_rooms()[k].participants@, participant_id@);
        &&& rooms_updated_at(old.spec_rooms(), new.spec_rooms(), k, remaining)
        &&& new.spec_connections() == old.spec_connections().remove(participant_id@)
        &&& (r matches Ok(ds) && ds@ == leave_notices(connection_id, room_id, participant_id, remaining))
    })
    &&& (!(exists|k: int| 0 <= k < old.spec_rooms().len() && old.spec_rooms()[k].id@ == room_id@
        && has_participant(old.spec_rooms()[k].participants@, participant_id@)) ==> {
        &&& new.spec_rooms() == old.spec_rooms()
        &&& new.spec_connections() == old.spec_connections()
        &&& (r matches Ok(ds) && ds@.len() == 0)
    })
}

/// What creating a room does: an ID in use is refused with the state unchanged; otherwise
/// an empty room is added (limit as given, else 100) and the creator is told.
pub open spec fn create_outcome(
    old: SignalingServer,
    new: SignalingServer,
    connection_id: String,
    room_id: String,
    room_name: Option<String>,
    max_participants: Option<usize>,
    r: Result<Vec<Delivery>, QuicRtcError>,
) -> bool {
    &&& new.spec_connections() == old.spec_connections()
    &&& (has_room(old.spec_rooms(), room_id@) ==> r == Err::<Vec<Delivery>, QuicRtcError>(
        QuicRtcError::RoomAlreadyExists { room_id }) && new.spec_rooms() == old.spec_rooms())
    &&& (!has_room(old.spec_rooms(), room_id@) ==> {
        &&& new.spec_rooms().len() == old.spec_rooms().len() + 1
        &&& new.spec_rooms().drop_last() == old.spec_rooms()
        &&& new.spec_rooms().last().id == room_id
        &&& new.spec_rooms().last().name == room_name
        &&& new.spec_rooms().last().participants@.len() == 0
        &&& new.spec_rooms().last().max_participants == match max_participants { Some(m) => m, None => 100 }
        &&& new.spec_rooms().last().metadata@ == Map::<Seq<char>, Seq<char>>::empty()
        &&& (r matches Ok(ds) && ds@.len() == 1 && ds@[0].connection_id == connection_id
            && ds@[0].response == (SignalingResponse::RoomCreated { room_id }))
    })
}

/// What forwarding a session offer does: the offer goes to the target participant's
/// connection, naming the offering participant as the source; an unknown target is refused.
/// The state never changes.
pub open spec fn offer_outcome(
    old: SignalingServer,
    new: SignalingServer,
    room_id: String,
    target_participant: String,
    offer: MoqSessionOffer,
    r: Result<Vec<Delivery>, QuicRtcError>,
) -> bool {
    &&& new.spec_rooms() == old.spec_rooms()
    &&& new.spec_connections() == old.spec_connections()
    &&& (old.spec_connections().dom().contains(target_participant@) ==> (r matches Ok(ds)
        && ds@.len() == 1 && ds@[0].connection_id@ == old.spec_connections()[target_participant@]
        && ds@[0].response == (SignalingResponse::MoqSessionOffer {
            room_id, source_participant: offer.participant_id, offer })))
    &&& (!old.spec_connections().dom().contains(target_participant@) ==> r == Err::<Vec<Delivery>, QuicRtcError>(
        QuicRtcError::ParticipantNotFound { room_id, participant_id: target_participant }))
}

/// What forwarding a session answer does, as for offers.
pub open spec fn answer_outcome(
    old: SignalingServer,
    new: SignalingServer,
    room_id: String,
    target_participant: String,
    answer: MoqSessionAnswer,
    r: Result<Vec<Delivery>, QuicRtcError>,
) -> bool {
    &&& new.spec_rooms() == old.spec_rooms()
    &&& new.spec_connections() == old.spec_connections()
    &&& (old.spec_connections().dom().contains(target_participant@) ==> (r matches Ok(ds)
        && ds@.len() == 1 && ds@[0].connection_id@ == old.spec_connections()[target_participant@]
        && ds@[0].response == (SignalingResponse::MoqSessionAnswer {
            room_id, source_participant: answer.participant_id, answer })))
    &&& (!old.spec_connections().dom().contains(target_participant@) ==> r == Err::<Vec<Delivery>, QuicRtcError>(
        QuicRtcError::ParticipantNotFound { room_id, participant_id: target_participant }))
}

/// The summary of each room: its ID, name and participant count, in room order.
pub open spec fn room_summaries(rooms: Seq<Room>) -> Seq<(String, Option<String>, usize)> {
    rooms.map_values(|room: Room| (room.id, room.name, room.participants@.len() as usize))
}

/// What listing the rooms does: the requester gets every room's summary; nothing changes.
pub open spec fn list_outcome(
    old: SignalingServer,
    new: SignalingServer,
    connection_id: String,
    r: Result<Vec<Delivery>, QuicRtcError>,
) -> bool {
    &&& new.spec_rooms() == old.spec_rooms()
    &&& new.spec_connections() == old.spec_connections()
    &&& (r matches Ok(ds) && ds@.len() == 1 && ds@[0].connection_id == connection_id
        && (ds@[0].response matches SignalingResponse::RoomList { rooms }
            && rooms@ == room_summaries(old.spec_rooms())))
}

/// What asking for a room's details does: the requester gets the room's fields and
/// participants, or the room is reported missing; nothing changes.
pub open spec fn info_outcome(
    old: SignalingServer,
    new: SignalingServer,
    connection_id: String,
    room_id: String,
    r: Result<Vec<Delivery>, QuicRtcError>,
) -> bool {
    &&& new.spec_rooms() == old.spec_rooms()
    &&& new.spec_connections() == old.spec_connections()
    &&& (!has_room(old.spec_rooms(), room_id@) ==> r == Err::<Vec<Delivery>, QuicRtcError>(
        QuicRtcError::RoomNotFound { room_id }))
    &&& (forall|k: int| 0 <= k < old.spec_rooms().len() && (#[trigger] old.spec_rooms()[k]).id@ == room_id@ ==> {
        let room = old.spec_rooms()[k];
        r matches Ok(ds) && ds@.len() == 1 && ds@[0].connection_id == connection_id
            && (ds@[0].response matches SignalingResponse::RoomInfo {
                room_id: rid, room_name, participants, created_at, max_participants }
            && rid == room.id && room_name == room.name && created_at == room.created_at
            && max_participants == room.max_participants
            && participants@.map_values(|p: Participant| p@) == room.participants@.map_values(|p: Participant| p@))
    })
}

/// Signaling server state: rooms and the signaling connection of each joined participant
#[derive(Debug)]
pub struct SignalingServer {
    bind_addr: String,
    rooms: Vec<Room>,
    participant_to_connection: DashMap<String, String>,
}

impl SignalingServer {
    /// Room IDs are distinct and every room's participants have distinct IDs.
    pub closed spec fn wf(&self) -> bool {
        rooms_wf(self.rooms@)
    }

    /// Address the server binds to, as `ip:port`
    pub closed spec fn spec_bind_addr(&self) -> String {
        self.bind_addr
    }

    /// Address the server binds to, as `ip:port`
    pub fn bind_addr(&self) -> (r: &String)
        ensures
            *r == self.spec_bind_addr(),
    {
        &self.bind_addr
    }

    /// The rooms, in creation order
    pub closed spec fn spec_rooms(&self) -> Seq<Room> {
        self.rooms@
    }

    /// The signaling connection of each participant that joined through this server
    pub closed spec fn spec_connections(&self) -> Map<Seq<char>, Seq<char>> {
        table_contents(self.participant_to_connection)
    }

    /// Create new signaling server with no rooms
    pub fn new(bind_addr: String) -> (r: Self)
        ensures
            r.wf(),
            r.spec_bind_addr() == bind_addr,
            r.spec_rooms().len() == 0,
            r.spec_connections() == Map::<Seq<char>, Seq<char>>::empty(),
    {
        Self { bind_addr, rooms: Vec::new(), participant_to_connection: table_new() }
    }

    /// Position of the room with that ID
    fn find_room(&self, room_id: &str) -> (r: Option<usize>)
        ensures
            r matches Some(i) ==> i < self.rooms@.len() && self.rooms@[i as int].id@ == room_id@,
            r is None ==> !has_room(self.rooms@, room_id@),
    {
        let mut i: usize = 0;
        while i < self.rooms.len()
            invariant
                i <= self.rooms@.len(),
                forall|j: int| 0 <= j < i ==> self.rooms@[j].id@ != room_id@,
            decreases self.rooms@.len() - i,
        {
            if same_text(&self.rooms[i].id, room_id) {
                return Some(i);
            }
            i = i + 1;
        }
        None
    }

    /// Handle a room join request. An unknown room, a full room and a participant ID already
    /// in the room are refused with the state unchanged. On success the joining connection is
    /// told it joined, and every participant already in the room is told who joined.
    pub fn handle_join_room(
        &mut self,
        connection_id: String,
        room_id: String,
        participant_id: String,
        participant_name: Option<String>,
        capabilities: Vec<String>,
        quic_endpoint: Option<String>,
    ) -> (r: Result<Vec<Delivery>, QuicRtcError>)
        requires
            old(self).wf(),
        ensures
            final(self).wf(),
            final(self).spec_bind_addr() == old(self).spec_bind_addr(),
            join_outcome(*old(self), *final(self), connection_id, room_id, participant_id,
                participant_name, capabilities, quic_endpoint, r),
    {
        let k = match self.find_room(room_id.as_str()) {
            Some(k) => k,
            None => { return Err(QuicRtcError::RoomNotFound { room_id }); },
        };
        let participant = Participant {
            id: participant_id.clone(),
            name: participant_name,
            connection_id: connection_id.clone(),
            capabilities,
            quic_endpoint,
        };
        let announced = participant.duplicate();
        let ghost old_rooms = self.rooms@;
        let ghost old_room = self.rooms@[k as int];
        assert(old_rooms[k as int].wf());
        let mut room = self.rooms.remove(k);
        match room.add_participant(participant) {
            Ok(()) => {},
            Err(e) => {
                self.rooms.insert(k, room);
                assert(self.rooms@ =~= old_rooms);
                return Err(e);
            },
        }
        self.rooms.insert(k, room);
        proof {
            assert forall|j: int| 0 <= j < old_rooms.len() && j != k implies self.rooms@[j] == old_rooms[j] by {}
            assert forall|i: int, j: int| 0 <= i < self.rooms@.len() && 0 <= j < self.rooms@.len() && i != j
                implies self.rooms@[i].id@ != self.rooms@[j].id@ by {
                assert(self.rooms@[i].id == old_rooms[i].id);
                assert(self.rooms@[j].id == old_rooms[j].id);
            }
            assert forall|i: int| 0 <= i < self.rooms@.len() implies #[trigger] self.rooms@[i].wf() by {
                if i != k { assert(self.rooms@[i] == old_rooms[i]); }
            }
        }
        table_insert(&mut self.participant_to_connection, participant_id.clone(), connection_id.clone());

        let mut ds: Vec<Delivery> = Vec::new();
        ds.push(Delivery {
            connection_id: connection_id.clone(),
            response: SignalingResponse::JoinedRoom { room_id: room_id.clone(), participant_id: participant_id.clone() },
        });
        let ghost before = old_room.participants@;
        let n = self.rooms[k].participants.len() - 1;
        let mut i: usize = 0;
        while i < n
            invariant
                k < self.rooms@.len(),
                n == before.len(),
                self.rooms@[k as int].participants@ == before.push(self.rooms@[k as int].participants@.last()),
                i <= n,
                ds@.len() == 1 + i,
                ds@[0].connection_id == connection_id,
                ds@[0].response == (SignalingResponse::JoinedRoom { room_id, participant_id }),
                notifies_joined(ds@.skip(1), before.subrange(0, i as int), room_id, announced@),
            decreases n - i,
        {
            let other = &self.rooms[k].participants[i];
            assert(*other == before[i as int]);
            let ghost prev = ds@;
            ds.push(Delivery {
                connection_id: other.connection_id.clone(),
                response: SignalingResponse::ParticipantJoined {
                    room_id: room_id.clone(),
                    participant: announced.duplicate(),
                },
            });
            i = i + 1;
            assert forall|j: int| 0 <= j < i implies {
                &&& #[trigger] ds@.skip(1)[j].connection_id == before.subrange(0, i as int)[j].connection_id
                &&& ds@.skip(1)[j].response matches SignalingResponse::ParticipantJoined { room_id: rid, participant: p }
                    && rid == room_id && p@ == announced@
            } by {
                if j < i - 1 {
                    assert(ds@.skip(1)[j] == prev.skip(1)[j]);
                    assert(before.subrange(0, i as int)[j] == before.subrange(0, i - 1)[j]);
                    assert(prev.skip(1)[j].connection_id == before.subrange(0, i - 1)[j].connection_id);
                } else {
                    assert(ds@.skip(1)[j] == ds@[i as int]);
                    assert(before.subrange(0, i as int)[j] == before[j]);
                }
            }
        }
        assert(before.subrange(0, n as int) =~= before);
        Ok(ds)
    }

    /// Handle a room leave request (see [`leave_outcome`])
    pub fn handle_leave_room(&mut self, connection_id: String, room_id: String, participant_id: String)
        -> (r: Result<Vec<Delivery>, QuicRtcError>)
        requires
            old(self).wf(),
        ensures
            final(self).wf(),
            final(self).spec_bind_addr() == old(self).spec_bind_addr(),
            leave_outcome(*old(self), *final(self), connection_id, room_id, participant_id, r),
    {
        let ghost old_rooms = self.rooms@;
        let k = match self.find_room(room_id.as_str()) {
            Some(k) => k,
            None => {
                return Ok(Vec::new());
            },
        };
        assert(old_rooms[k as int].wf());
        let mut room = self.rooms.remove(k);
        let removed = room.remove_participant(participant_id.as_str());
        self.rooms.insert(k, room);
        proof {
            assert forall|j: int| 0 <= j < old_rooms.len() && j != k implies self.rooms@[j] == old_rooms[j] by {}
            assert forall|a: int, b: int| 0 <= a < self.rooms@.len() && 0 <= b < self.rooms@.len() && a != b
                implies self.rooms@[a].id@ != self.rooms@[b].id@ by {
                assert(self.rooms@[a].id == old_rooms[a].id);
                assert(self.rooms@[b].id == old_rooms[b].id);
            }
            assert forall|a: int| 0 <= a < self.rooms@.len() implies #[trigger] self.rooms@[a].wf() by {
                if a != k { assert(self.rooms@[a] == old_rooms[a]); }
            }
        }
        match removed {
            None => {
                proof {
                    assert(self.rooms@ =~= old_rooms);
                    assert forall|k2: int| 0 <= k2 < old_rooms.len() && old_rooms[k2].id@ == room_id@
                        implies !has_participant(old_rooms[k2].participants@, participant_id@) by {
                        if k2 != k { assert(old_rooms[k2].id@ != old_rooms[k as int].id@); }
                    }
                }
                Ok(Vec::new())
            },
            Some(_p) => {
                let ghost remaining = self.rooms@[k as int].participants@;
                proof {
                    let ps = old_rooms[k as int].participants@;
                    let i0 = choose|i: int| 0 <= i < ps.len() && ps[i] == _p && _p.id@ == participant_id@
                        && remaining == ps.remove(i);
                    lemma_remove_is_others(ps, i0, participant_id@);
                    assert forall|k2: int| 0 <= k2 < old_rooms.len() && old_rooms[k2].id@ == room_id@
                        implies k2 == k by {
                        if k2 != k { assert(old_rooms[k2].id@ != old_rooms[k as int].id@); }
                    }
                }
                table_remove(&mut self.participant_to_connection, &participant_id);
                let mut ds: Vec<Delivery> = Vec::new();
                ds.push(Delivery {
                    connection_id: connection_id.clone(),
                    response: SignalingResponse::LeftRoom {
                        room_id: room_id.clone(),
                        participant_id: participant_id.clone(),
                    },
                });
                let n = self.rooms[k].participants.len();
                let mut i: usize = 0;
                while i < n
                    invariant
                        k < self.rooms@.len(),
                        n == remaining.len(),
                        self.rooms@[k as int].participants@ == remaining,
                        i <= n,
                        ds@ == leave_notices(connection_id, room_id, participant_id, remaining.subrange(0, i as int)),
                    decreases n - i,
                {
                    let other = &self.rooms[k].participants[i];
                    ds.push(Delivery {
                        connection_id: other.connection_id.clone(),
                        response: SignalingResponse::ParticipantLeft {
                            room_id: room_id.clone(),
                            participant_id: participant_id.clone(),
                        },
                    });
                    i = i + 1;
                    assert(ds@ =~= leave_notices(connection_id, room_id, participant_id, remaining.subrange(0, i as int)));
                }
                assert(remaining.subrange(0, n as int) =~= remaining);
                Ok(ds)
            },
        }
    }

    /// Handle a room creation request (see [`create_outcome`])
    pub fn handle_create_room(
        &mut self,
        connection_id: String,
        room_id: String,
        room_name: Option<String>,
        max_participants: Option<usize>,
    ) -> (r: Result<Vec<Delivery>, QuicRtcError>)
        requires
            old(self).wf(),
        ensures
            final(self).wf(),
            final(self).spec_bind_addr() == old(self).spec_bind_addr(),
            create_outcome(*old(self), *final(self), connection_id, room_id, room_name, max_participants, r),
    {
        let mut room = Room::new(room_id.clone(), room_name);
        match max_participants {
            Some(max) => { room.max_participants = max; },
            None => {},
        }
        match self.find_room(room_id.as_str()) {
            Some(_) => { return Err(QuicRtcError::RoomAlreadyExists { room_id }); },
            None => {},
        }
        let ghost old_rooms = self.rooms@;
        self.rooms.push(room);
        proof {
            assert(self.rooms@.drop_last() =~= old_rooms);
            assert forall|a: int, b: int| 0 <= a < self.rooms@.len() && 0 <= b < self.rooms@.len() && a != b
                implies self.rooms@[a].id@ != self.rooms@[b].id@ by {
                if a < old_rooms.len() && b < old_rooms.len() {
                    assert(self.rooms@[a] == old_rooms[a]);
                    assert(self.rooms@[b] == old_rooms[b]);
                } else if a < old_rooms.len() {
                    assert(self.rooms@[a] == old_rooms[a]);
                } else {
                    assert(self.rooms@[b] == old_rooms[b]);
                }
            }
            assert forall|a: int| 0 <= a < self.rooms@.len() implies #[trigger] self.rooms@[a].wf() by {
                if a < old_rooms.len() { assert(self.rooms@[a] == old_rooms[a]); }
            }
        }
        let mut ds: Vec<Delivery> = Vec::new();
        ds.push(Delivery { connection_id, response: SignalingResponse::RoomCreated { room_id } });
        Ok(ds)
    }

    /// Forward a MoQ session offer (see [`offer_outcome`])
    pub fn handle_moq_session_offer(
        &mut self,
        room_id: String,
        target_participant: String,
        offer: MoqSessionOffer,
    ) -> (r: Result<Vec<Delivery>, QuicRtcError>)
        requires
            old(self).wf(),
        ensures
            *final(self) == *old(self),
            offer_outcome(*old(self), *final(self), room_id, target_participant, offer, r),
    {
        match table_get(&self.participant_to_connection, &target_participant) {
            Some(target_connection) => {
                let mut ds: Vec<Delivery> = Vec::new();
                let source = offer.participant_id.clone();
                ds.push(Delivery {
                    connection_id: target_connection.clone(),
                    response: SignalingResponse::MoqSessionOffer { room_id, source_participant: source, offer },
                });
                Ok(ds)
            },
            None => Err(QuicRtcError::ParticipantNotFound { room_id, participant_id: target_participant }),
        }
    }

    /// Forward a MoQ session answer (see [`answer_outcome`])
    pub fn handle_moq_session_answer(
        &mut self,
        room_id: String,
        target_participant: String,
        answer: MoqSessionAnswer,
    ) -> (r: Result<Vec<Delivery>, QuicRtcError>)
        requires
            old(self).wf(),
        ensures
            *final(self) == *old(self),
            answer_outcome(*old(self), *final(self), room_id, target_participant, answer, r),
    {
        match table_get(&self.participant_to_connection, &target_participant) {
            Some(target_connection) => {
                let mut ds: Vec<Delivery> = Vec::new();
                let source = answer.participant_id.clone();
                ds.push(Delivery {
                    connection_id: target_connection.clone(),
                    response: SignalingResponse::MoqSessionAnswer { room_id, source_participant: source, answer },
                });
                Ok(ds)
            },
            None => Err(QuicRtcError::ParticipantNotFound { room_id, participant_id: target_participant }),
        }
    }

    /// Handle a room list request (see [`list_outcome`])
    pub fn handle_list_rooms(&self, connection_id: String) -> (r: Result<Vec<Delivery>, QuicRtcError>)
        ensures
            list_outcome(*self, *self, connection_id, r),
    {
        let mut rooms: Vec<(String, Option<String>, usize)> = Vec::new();
        let mut i: usize = 0;
        while i < self.rooms.len()
            invariant
                i <= self.rooms@.len(),
                rooms@ == room_summaries(self.rooms@.subrange(0, i as int)),
            decreases self.rooms@.len() - i,
        {
            let room = &self.rooms[i];
            rooms.push((room.id.clone(), copy_opt_string(&room.name), room.participants.len()));
            i = i + 1;
            assert(rooms@ =~= room_summaries(self.rooms@.subrange(0, i as int)));
        }
        assert(self.rooms@.subrange(0, self.rooms@.len() as int) =~= self.rooms@);
        let mut ds: Vec<Delivery> = Vec::new();
        ds.push(Delivery { connection_id, response: SignalingResponse::RoomList { rooms } });
        Ok(ds)
    }

    /// Handle a room information request (see [`info_outcome`])
    pub fn handle_get_room_info(&self, connection_id: String, room_id: String)
        -> (r: Result<Vec<Delivery>, QuicRtcError>)
        requires
            self.wf(),
        ensures
            info_outcome(*self, *self, connection_id, room_id, r),
    {
        match self.find_room(room_id.as_str()) {
            Some(k) => {
                let room = &self.rooms[k];
                let participants = copy_participants(&room.participants);
                proof {
                    assert forall|k2: int| 0 <= k2 < self.rooms@.len() && self.rooms@[k2].id@ == room_id@
                        implies k2 == k by {}
                }
                let mut ds: Vec<Delivery> = Vec::new();
                ds.push(Delivery {
                    connection_id,
                    response: SignalingResponse::RoomInfo {
                        room_id: room.id.clone(),
                        room_name: copy_opt_string(&room.name),
                        participants,
                        created_at: room.created_at,
                        max_participants: room.max_participants,
                    },
                });
                Ok(ds)
            },
            None => Err(QuicRtcError::RoomNotFound { room_id }),
        }
    }
}

} // verus!

verus! {

/// What a signaling message does to the server and what it answers, by kind of message.
pub open spec fn message_outcome(
    old: SignalingServer,
    new: SignalingServer,
    connection_id: String,
    message: SignalingMessage,
    r: Result<Vec<Delivery>, QuicRtcError>,
) -> bool {
    match message {
        SignalingMessage::JoinRoom { room_id, participant_id, participant_name, capabilities, quic_endpoint } =>
            join_outcome(old, new, connection_id, room_id, participant_id, participant_name, capabilities,
                quic_endpoint, r),
        SignalingMessage::LeaveRoom { room_id, participant_id } =>
            leave_outcome(old, new, connection_id, room_id, participant_id, r),
        SignalingMessage::CreateRoom { room_id, room_name, max_participants } =>
            create_outcome(old, new, connection_id, room_id, room_name, max_participants, r),
        SignalingMessage::MoqSessionOffer { room_id, target_participant, offer } =>
            offer_outcome(old, new, room_id, target_participant, offer, r),
        SignalingMessage::MoqSessionAnswer { room_id, target_participant, answer } =>
            answer_outcome(old, new, room_id, target_participant, answer, r),
        SignalingMessage::ListRooms => list_outcome(old, new, connection_id, r),
        SignalingMessage::GetRoomInfo { room_id } => info_outcome(old, new, connection_id, room_id, r),
    }
}

/// What goes back for a handled message: its deliveries, or, for a refusal, one error
/// response with the error's text and code to the connection it came from.
pub open spec fn answered(connection_id: String, r: Result<Vec<Delivery>, QuicRtcError>, ds: Seq<Delivery>) -> bool {
    match r {
        Ok(v) => ds == v@,
        Err(e) => {
            &&& ds.len() == 1
            &&& ds[0].connection_id == connection_id
            &&& (ds[0].response matches SignalingResponse::Error { error, error_code }
                && error@ == quic_rtc_error_text(e) && error_code@ == error_code_of(e))
        },
    }
}

/// The deliveries of leaving, one after the other, every room in `rooms` that holds
/// `participant_id`.
pub open spec fn cleanup_notices(rooms: Seq<Room>, connection_id: String, participant_id: String) -> Seq<Delivery>
    decreases rooms.len(),
{
    if rooms.len() == 0 {
        Seq::empty()
    } else {
        let last = rooms.last();
        cleanup_notices(rooms.drop_last(), connection_id, participant_id) + if has_participant(
            last.participants@, participant_id@) {
            leave_notices(connection_id, last.id, participant_id,
                others(last.participants@, participant_id@))
        } else {
            Seq::empty()
        }
    }
}

/// What dropping a participant on a closed connection does: it leaves every room that holds
/// it, in room order, and its connection record is dropped.
pub open spec fn cleanup_outcome(
    old: SignalingServer,
    new: SignalingServer,
    connection_id: String,
    participant_id: String,
    ds: Seq<Delivery>,
) -> bool {
    &&& new.spec_connections() == old.spec_connections().remove(participant_id@)
    &&& new.spec_rooms().len() == old.spec_rooms().len()
    &&& forall|k: int| 0 <= k < old.spec_rooms().len() ==> {
        &&& (#[trigger] new.spec_rooms()[k]).same_but_participants(&old.spec_rooms()[k])
        &&& new.spec_rooms()[k].participants@ == others(old.spec_rooms()[k].participants@, participant_id@)
    }
    &&& ds == cleanup_notices(old.spec_rooms(), connection_id, participant_id)
}

/// The number of participants over all rooms.
pub open spec fn total_count(rooms: Seq<Room>) -> nat
    decreases rooms.len(),
{
    if rooms.len() == 0 {
        0
    } else {
        total_count(rooms.drop_last()) + rooms.last().participants@.len()
    }
}

impl SignalingServer {
    /// Handle a signaling message (see [`message_outcome`])
    pub fn handle_signaling_message(&mut self, connection_id: String, message: SignalingMessage)
        -> (r: Result<Vec<Delivery>, QuicRtcError>)
        requires
            old(self).wf(),
        ensures
            final(self).wf(),
            final(self).spec_bind_addr() == old(self).spec_bind_addr(),
            message_outcome(*old(self), *final(self), connection_id, message, r),
    {
        match message {
            SignalingMessage::JoinRoom { room_id, participant_id, participant_name, capabilities, quic_endpoint } =>
                self.handle_join_room(connection_id, room_id, participant_id, participant_name, capabilities,
                    quic_endpoint),
            SignalingMessage::LeaveRoom { room_id, participant_id } =>
                self.handle_leave_room(connection_id, room_id, participant_id),
            SignalingMessage::CreateRoom { room_id, room_name, max_participants } =>
                self.handle_create_room(connection_id, room_id, room_name, max_participants),
            SignalingMessage::MoqSessionOffer { room_id, target_participant, offer } =>
                self.handle_moq_session_offer(room_id, target_participant, offer),
            SignalingMessage::MoqSessionAnswer { room_id, target_participant, answer } =>
                self.handle_moq_session_answer(room_id, target_participant, answer),
            SignalingMessage::ListRooms => self.handle_list_rooms(connection_id),
            SignalingMessage::GetRoomInfo { room_id } => self.handle_get_room_info(connection_id, room_id),
        }
    }

    /// Handle a message that arrived on a connection and give what goes back: the message's
    /// deliveries, or an error response to that connection when it was refused.
    pub fn answer_message(&mut self, connection_id: String, message: SignalingMessage) -> (r: Vec<Delivery>)
        requires
            old(self).wf(),
        ensures
            final(self).wf(),
            final(self).spec_bind_addr() == old(self).spec_bind_addr(),
            exists|res: Result<Vec<Delivery>, QuicRtcError>|
                message_outcome(*old(self), *final(self), connection_id, message, res)
                && answered(connection_id, res, r@),
    {
        let reply_to = connection_id.clone();
        let res = self.handle_signaling_message(connection_id, message);
        match res {
            Ok(ds) => {
                assert(answered(connection_id, Ok(ds), ds@));
                ds
            },
            Err(e) => {
                let mut ds: Vec<Delivery> = Vec::new();
                let error = e.message();
                let error_code = e.error_code();
                ds.push(Delivery { connection_id: reply_to, response: SignalingResponse::Error { error, error_code } });
                assert(answered(connection_id, Err(e), ds@));
                ds
            },
        }
    }
}


impl SignalingServer {
    /// Drop what a closed connection leaves behind. When some participant joined through the
    /// connection, one such participant leaves every room that holds it and its connection
    /// record is dropped; the deliveries tell the others. Otherwise nothing changes.
    pub fn cleanup_connection(&mut self, connection_id: String) -> (r: Vec<Delivery>)
        requires
            old(self).wf(),
        ensures
            final(self).wf(),
            final(self).spec_bind_addr() == old(self).spec_bind_addr(),
            (forall|p: Seq<char>| old(self).spec_connections().dom().contains(p)
                ==> old(self).spec_connections()[p] != connection_id@) ==> {
                &&& final(self).spec_rooms() == old(self).spec_rooms()
                &&& final(self).spec_connections() == old(self).spec_connections()
                &&& r@.len() == 0
            },
            !(forall|p: Seq<char>| old(self).spec_connections().dom().contains(p)
                ==> old(self).spec_connections()[p] != connection_id@) ==> exists|pid: String|
                old(self).spec_connections().dom().contains(pid@)
                && old(self).spec_connections()[pid@] == connection_id@
                && cleanup_outcome(*old(self), *final(self), connection_id, pid, r@),
    {
        let pid = match owner_of(&self.participant_to_connection, &connection_id) {
            Some(pid) => pid,
            None => { return Vec::new(); },
        };
        let ghost old_self = *self;
        let ghost old_rooms = self.rooms@;
        let ghost old_conns = table_contents(self.participant_to_connection);
        let mut ds: Vec<Delivery> = Vec::new();
        let n = self.rooms.len();
        let mut i: usize = 0;
        while i < n
            invariant
                self.wf(),
                self.spec_bind_addr() == old_self.spec_bind_addr(),
                n == old_rooms.len(),
                self.rooms@.len() == n,
                i <= n,
                rooms_wf(old_rooms),
                forall|k: int| 0 <= k < i ==> {
                    &&& (#[trigger] self.rooms@[k]).same_but_participants(&old_rooms[k])
                    &&& self.rooms@[k].participants@ == others(old_rooms[k].participants@, pid@)
                },
                forall|k: int| i <= k < n ==> #[trigger] self.rooms@[k] == old_rooms[k],
                table_contents(self.participant_to_connection) == old_conns
                    || table_contents(self.participant_to_connection) == old_conns.remove(pid@),
                ds@ == cleanup_notices(old_rooms.subrange(0, i as int), connection_id, pid),
            decreases n - i,
        {
            let room_id = self.rooms[i].id.clone();
            let ghost cur_rooms = self.rooms@;
            let res = self.handle_leave_room(connection_id.clone(), room_id, pid.clone());
            proof {
                assert(cur_rooms[i as int] == old_rooms[i as int]);
                assert forall|k: int| 0 <= k < cur_rooms.len() && cur_rooms[k].id@ == room_id@
                    implies k == i by {
                    if k != i {
                        assert(cur_rooms[k].id@ == old_rooms[k].id@);
                        assert(old_rooms[k].id@ != old_rooms[i as int].id@);
                    }
                }
                assert(old_rooms.subrange(0, i + 1).drop_last() =~= old_rooms.subrange(0, i as int));
                if !has_participant(old_rooms[i as int].participants@, pid@) {
                    lemma_others_without(old_rooms[i as int].participants@, pid@);
                }
            }
            match res {
                Ok(mut v) => { ds.append(&mut v); },
                Err(_) => {},
            }
            i = i + 1;
        }
        assert(old_rooms.subrange(0, n as int) =~= old_rooms);
        table_remove(&mut self.participant_to_connection, &pid);
        proof {
            assert(old_conns.remove(pid@).remove(pid@) =~= old_conns.remove(pid@));
            assert(old_conns.dom().contains(pid@) && old_conns[pid@] == connection_id@);
            assert(cleanup_outcome(old_self, *self, connection_id, pid, ds@));
        }
        ds
    }

    /// Close everything: all rooms and connection records are dropped
    pub fn stop(&mut self) -> (r: Result<(), QuicRtcError>)
        ensures
            r is Ok,
            final(self).wf(),
            final(self).spec_bind_addr() == old(self).spec_bind_addr(),
            final(self).spec_rooms().len() == 0,
            final(self).spec_connections() == Map::<Seq<char>, Seq<char>>::empty(),
    {
        table_clear(&mut self.participant_to_connection);
        self.rooms = Vec::new();
        Ok(())
    }

    /// Copies of the current rooms, in creation order (for monitoring/debugging)
    pub fn get_rooms(&self) -> (r: Vec<Room>)
        requires
            self.wf(),
        ensures
            r@.map_values(|room: Room| room@) == self.spec_rooms().map_values(|room: Room| room@),
    {
        let mut r: Vec<Room> = Vec::new();
        let mut i: usize = 0;
        while i < self.rooms.len()
            invariant
                rooms_wf(self.rooms@),
                i <= self.rooms@.len(),
                r@.len() == i,
                forall|j: int| 0 <= j < i ==> (#[trigger] r@[j])@ == self.rooms@[j]@,
            decreases self.rooms@.len() - i,
        {
            r.push(self.rooms[i].duplicate());
            i = i + 1;
        }
        assert(r@.map_values(|room: Room| room@) =~= self.rooms@.map_values(|room: Room| room@));
        r
    }

    /// Participant count across all rooms; a count past `usize::MAX`, which no
    /// machine can hold, is given as `usize::MAX`
    pub fn total_participants(&self) -> (r: usize)
        ensures
            total_count(self.spec_rooms()) <= usize::MAX ==> r == total_count(self.spec_rooms()),
            total_count(self.spec_rooms()) > usize::MAX ==> r == usize::MAX,
    {
        let mut total: usize = 0;
        let mut i: usize = 0;
        while i < self.rooms.len()
            invariant
                i <= self.rooms@.len(),
                total_count(self.rooms@.subrange(0, i as int)) <= usize::MAX ==> total
                    == total_count(self.rooms@.subrange(0, i as int)),
                total_count(self.rooms@.subrange(0, i as int)) > usize::MAX ==> total == usize::MAX,
            decreases self.rooms@.len() - i,
        {
            proof {
                assert(self.rooms@.subrange(0, i + 1).drop_last() =~= self.rooms@.subrange(0, i as int));
            }
            let n = self.rooms[i].participants.len();
            if total > usize::MAX - n {
                total = usize::MAX;
            } else {
                total = total + n;
            }
            i = i + 1;
        }
        assert(self.rooms@.subrange(0, self.rooms@.len() as int) =~= self.rooms@);
        total
    }
}

/// Whether no room holds more participants than it allows.
pub open spec fn rooms_within_capacity(rooms: Seq<Room>) -> bool {
    forall|k: int| 0 <= k < rooms.len() ==> (#[trigger] rooms[k]).participants@.len() <= rooms[k].max_participants
}

/// Leaving out participants never adds any.
pub proof fn lemma_others_len(ps: Seq<Participant>, id: Seq<char>)
    ensures
        others(ps, id).len() <= ps.len(),
    decreases ps.len(),
{
    reveal_with_fuel(Seq::<_>::filter, 1);
    if ps.len() > 0 {
        lemma_others_len(ps.drop_last(), id);
    }
}

/// A successful join puts the participant in the room.
pub proof fn lemma_join_then_member(
    old: SignalingServer,
    new: SignalingServer,
    connection_id: String,
    room_id: String,
    participant_id: String,
    participant_name: Option<String>,
    capabilities: Vec<String>,
    quic_endpoint: Option<String>,
    r: Result<Vec<Delivery>, QuicRtcError>,
    k: int,
)
    requires
        join_outcome(old, new, connection_id, room_id, participant_id, participant_name, capabilities, quic_endpoint, r),
        r is Ok,
        0 <= k < old.spec_rooms().len(),
        old.spec_rooms()[k].id@ == room_id@,
    ensures
        has_participant(new.spec_rooms()[k].participants@, participant_id@),
        new.spec_connections()[participant_id@] == connection_id@,
{
    let ps = old.spec_rooms()[k].participants@;
    assert(new.spec_rooms()[k].participants@[ps.len() as int].id@ == participant_id@);
}

/// What a successful join did to the room it joined.
proof fn lemma_join_facts(
    s0: SignalingServer,
    s1: SignalingServer,
    connection_id: String,
    room_id: String,
    participant_id: String,
    participant_name: Option<String>,
    capabilities: Vec<String>,
    quic_endpoint: Option<String>,
    r1: Result<Vec<Delivery>, QuicRtcError>,
    k: int,
)
    requires
        join_outcome(s0, s1, connection_id, room_id, participant_id, participant_name, capabilities, quic_endpoint, r1),
        r1 is Ok,
        0 <= k < s0.spec_rooms().len(),
        s0.spec_rooms()[k].id@ == room_id@,
    ensures
        !has_participant(s0.spec_rooms()[k].participants@, participant_id@),
        rooms_updated_at(s0.spec_rooms(), s1.spec_rooms(), k, s0.spec_rooms()[k].participants@.push(
            Participant { id: participant_id, name: participant_name, connection_id, capabilities, quic_endpoint })),
        s1.spec_connections() == s0.spec_connections().insert(participant_id@, connection_id@),
{
    assert(s0.spec_rooms()[k].id@ == room_id@);
}

/// What leaving a room that holds the participant did.
proof fn lemma_leave_facts(
    s1: SignalingServer,
    s2: SignalingServer,
    connection_id: String,
    room_id: String,
    participant_id: String,
    r2: Result<Vec<Delivery>, QuicRtcError>,
    k: int,
)
    requires
        leave_outcome(s1, s2, connection_id, room_id, participant_id, r2),
        0 <= k < s1.spec_rooms().len(),
        s1.spec_rooms()[k].id@ == room_id@,
        has_participant(s1.spec_rooms()[k].participants@, participant_id@),
    ensures
        rooms_updated_at(s1.spec_rooms(), s2.spec_rooms(), k, others(s1.spec_rooms()[k].participants@, participant_id@)),
        s2.spec_connections() == s1.spec_connections().remove(participant_id@),
        r2 matches Ok(ds) && ds@ == leave_notices(connection_id, room_id, participant_id,
            others(s1.spec_rooms()[k].participants@, participant_id@)),
{
    assert(s1.spec_rooms()[k].id@ == room_id@);
}

/// Two updates of the same room compose into one.
proof fn lemma_updates_compose(a: Seq<Room>, b: Seq<Room>, c: Seq<Room>, k: int, ps1: Seq<Participant>, ps2: Seq<Participant>)
    requires
        0 <= k < a.len(),
        rooms_updated_at(a, b, k, ps1),
        rooms_updated_at(b, c, k, ps2),
    ensures
        rooms_updated_at(a, c, k, ps2),
{
    assert forall|j: int| 0 <= j < a.len() && j != k implies c[j] == a[j] by {
        assert(c[j] == b[j]);
    }
}

/// A participant not in a list, added and then left out, gives the list back.
proof fn lemma_push_then_others(ps: Seq<Participant>, joiner: Participant)
    requires
        participant_ids_distinct(ps),
        !has_participant(ps, joiner.id@),
    ensures
        others(ps.push(joiner), joiner.id@) == ps,
        has_participant(ps.push(joiner), joiner.id@),
{
    let ps1 = ps.push(joiner);
    assert(ps1[ps.len() as int].id@ == joiner.id@);
    assert(participant_ids_distinct(ps1)) by {
        assert forall|i: int, j: int| 0 <= i < ps1.len() && 0 <= j < ps1.len() && i != j
            implies ps1[i].id@ != ps1[j].id@ by {
            if i < ps.len() && j < ps.len() {
            } else if i < ps.len() {
                assert(ps1[i] == ps[i]);
            } else {
                assert(ps1[j] == ps[j]);
            }
        }
    }
    lemma_remove_is_others(ps1, ps.len() as int, joiner.id@);
    assert(ps1.remove(ps.len() as int) =~= ps);
}

/// Joining a room and then leaving it gives the room its participants back; the leaving
/// participant's connection record is gone, and the others are told it left.
pub proof fn lemma_join_then_leave(
    s0: SignalingServer,
    s1: SignalingServer,
    s2: SignalingServer,
    connection_id: String,
    room_id: String,
    participant_id: String,
    participant_name: Option<String>,
    capabilities: Vec<String>,
    quic_endpoint: Option<String>,
    r1: Result<Vec<Delivery>, QuicRtcError>,
    r2: Result<Vec<Delivery>, QuicRtcError>,
    k: int,
)
    requires
        rooms_wf(s0.spec_rooms()),
        join_outcome(s0, s1, connection_id, room_id, participant_id, participant_name, capabilities, quic_endpoint, r1),
        r1 is Ok,
        leave_outcome(s1, s2, connection_id, room_id, participant_id, r2),
        0 <= k < s0.spec_rooms().len(),
        s0.spec_rooms()[k].id@ == room_id@,
    ensures
        rooms_updated_at(s0.spec_rooms(), s2.spec_rooms(), k, s0.spec_rooms()[k].participants@),
        s2.spec_connections() == s0.spec_connections().remove(participant_id@),
        r2 matches Ok(ds) && ds@ == leave_notices(connection_id, room_id, participant_id, s0.spec_rooms()[k].participants@),
{
    let ps = s0.spec_rooms()[k].participants@;
    let joiner = Participant { id: participant_id, name: participant_name, connection_id, capabilities, quic_endpoint };
    lemma_join_facts(s0, s1, connection_id, room_id, participant_id, participant_name, capabilities, quic_endpoint, r1, k);
    assert(s0.spec_rooms()[k].wf());
    lemma_push_then_others(ps, joiner);
    lemma_leave_facts(s1, s2, connection_id, room_id, participant_id, r2, k);
    lemma_updates_compose(s0.spec_rooms(), s1.spec_rooms(), s2.spec_rooms(), k, ps.push(joiner), ps);
    assert(s0.spec_connections().insert(participant_id@, connection_id@).remove(participant_id@)
        =~= s0.spec_connections().remove(participant_id@));
}

/// A room that exists refuses to be created again.
pub proof fn lemma_create_twice_refused(
    s0: SignalingServer,
    s1: SignalingServer,
    s2: SignalingServer,
    connection_id: String,
    room_id: String,
    room_name: Option<String>,
    max_participants: Option<usize>,
    r1: Result<Vec<Delivery>, QuicRtcError>,
    other_connection: String,
    other_name: Option<String>,
    other_max: Option<usize>,
    r2: Result<Vec<Delivery>, QuicRtcError>,
)
    requires
        create_outcome(s0, s1, connection_id, room_id, room_name, max_participants, r1),
        create_outcome(s1, s2, other_connection, room_id, other_name, other_max, r2),
    ensures
        r2 == Err::<Vec<Delivery>, QuicRtcError>(QuicRtcError::RoomAlreadyExists { room_id }),
        s2.spec_rooms() == s1.spec_rooms(),
{
    if !has_room(s0.spec_rooms(), room_id@) {
        let last = s1.spec_rooms().len() - 1;
        assert(s1.spec_rooms()[last].id@ == room_id@);
    }
}

/// A room listing names every room as it is: one entry per room, in room order, each
/// carrying the room's ID, its name and its participant count.
pub proof fn lemma_listing_shows_rooms(
    s0: SignalingServer,
    s1: SignalingServer,
    connection_id: String,
    r: Result<Vec<Delivery>, QuicRtcError>,
)
    requires
        list_outcome(s0, s1, connection_id, r),
    ensures
        r matches Ok(ds) && ds@.len() == 1 && (ds@[0].response matches SignalingResponse::RoomList { rooms }
            && rooms@.len() == s0.spec_rooms().len()
            && forall|k: int| 0 <= k < rooms@.len() ==> {
                &&& (#[trigger] rooms@[k]).0 == s0.spec_rooms()[k].id
                &&& rooms@[k].1 == s0.spec_rooms()[k].name
                &&& rooms@[k].2 == s0.spec_rooms()[k].participants@.len()
            }),
{
    if let Ok(ds) = r {
        if let SignalingResponse::RoomList { rooms } = ds@[0].response {
            assert forall|k: int| 0 <= k < rooms@.len() implies {
                &&& (#[trigger] rooms@[k]).0 == s0.spec_rooms()[k].id
                &&& rooms@[k].1 == s0.spec_rooms()[k].name
                &&& rooms@[k].2 == s0.spec_rooms()[k].participants@.len()
            } by {
                assert(rooms@[k] == room_summaries(s0.spec_rooms())[k]);
                assert(s0.spec_rooms()[k].participants@.len() == s0.spec_rooms()[k].participants.len());
            }
        }
    }
}

/// A room created with a name is listed afterwards under that name, with no participants,
/// after the rooms that were there before.
pub proof fn lemma_created_room_listed(
    s0: SignalingServer,
    s1: SignalingServer,
    s2: SignalingServer,
    creator: String,
    room_id: String,
    room_name: Option<String>,
    max_participants: Option<usize>,
    r1: Result<Vec<Delivery>, QuicRtcError>,
    requester: String,
    r2: Result<Vec<Delivery>, QuicRtcError>,
)
    requires
        !has_room(s0.spec_rooms(), room_id@),
        create_outcome(s0, s1, creator, room_id, room_name, max_participants, r1),
        list_outcome(s1, s2, requester, r2),
    ensures
        r2 matches Ok(ds) && ds@.len() == 1 && ds@[0].connection_id == requester
            && (ds@[0].response matches SignalingResponse::RoomList { rooms }
            && rooms@.len() == s0.spec_rooms().len() + 1
            && rooms@.last() == (room_id, room_name, 0usize)),
{
    lemma_listing_shows_rooms(s1, s2, requester, r2);
}

/// No message lets a room hold more participants than it allows.
pub proof fn lemma_capacity_kept(
    old: SignalingServer,
    new: SignalingServer,
    connection_id: String,
    message: SignalingMessage,
    r: Result<Vec<Delivery>, QuicRtcError>,
)
    requires
        rooms_wf(old.spec_rooms()),
        rooms_within_capacity(old.spec_rooms()),
        message_outcome(old, new, connection_id, message, r),
    ensures
        rooms_within_capacity(new.spec_rooms()),
{
    let o = old.spec_rooms();
    let n = new.spec_rooms();
    match message {
        SignalingMessage::JoinRoom { room_id, .. } => {
            if has_room(o, room_id@) && r is Ok {
                let k = choose|k: int| 0 <= k < o.len() && o[k].id@ == room_id@;
                assert(o[k].id@ == room_id@);
                assert forall|j: int| 0 <= j < n.len() implies (#[trigger] n[j]).participants@.len() <= n[j].max_participants by {
                    if j != k { assert(n[j] == o[j]); }
                }
            } else if has_room(o, room_id@) {
                let k = choose|k: int| 0 <= k < o.len() && o[k].id@ == room_id@;
                assert(o[k].id@ == room_id@);
            }
        },
        SignalingMessage::LeaveRoom { room_id, participant_id } => {
            if exists|k: int| 0 <= k < o.len() && o[k].id@ == room_id@ && has_participant(o[k].participants@, participant_id@) {
                let k = choose|k: int| 0 <= k < o.len() && o[k].id@ == room_id@ && has_participant(o[k].participants@, participant_id@);
                assert(o[k].id@ == room_id@);
                lemma_others_len(o[k].participants@, participant_id@);
                assert forall|j: int| 0 <= j < n.len() implies (#[trigger] n[j]).participants@.len() <= n[j].max_participants by {
                    if j != k { assert(n[j] == o[j]); }
                }
            }
        },
        SignalingMessage::CreateRoom { room_id, .. } => {
            if !has_room(o, room_id@) {
                assert forall|j: int| 0 <= j < n.len() implies (#[trigger] n[j]).participants@.len() <= n[j].max_participants by {
                    if j < o.len() { assert(n[j] == n.drop_last()[j]); }
                }
            }
        },
        _ => {},
    }
}

} // verus!
