//! Peer discovery: the peers known in each room, their status, and the events that
//! changes to them give rise to.
//!
//! Every operation returns the events it emits; the application layer broadcasts them.
use vstd::prelude::*;
use crate::clock::unix_time_millis;
use crate::error::QuicRtcError;
use crate::keyed::{has_key, keyed_map, keys_unique, lemma_keyed_index, lemma_keyed_push, lemma_keyed_remove, lemma_keyed_update, Keyed};
use crate::text::{copy_opt_string, copy_strings, same_text};

verus! {

/// Status of a discovered peer
#[derive(Debug, Clone, Copy, PartialEq, Eq, Structural)]
pub enum PeerStatus {
    /// Peer is online and available
    Online,
    /// Peer is temporarily away
    Away,
    /// Peer is offline
    Offline,
}

/// Peer information for discovery
#[derive(Debug)]
pub struct PeerInfo {
    /// Unique peer ID
    pub id: String,
    /// Display name
    pub name: Option<String>,
    /// Room ID where peer is located
    pub room_id: String,
    /// QUIC endpoint for direct connection, as `ip:port`
    pub quic_endpoint: Option<String>,
    /// MoQ capabilities
    pub capabilities: Vec<String>,
    /// Last seen, in milliseconds since the Unix epoch
    pub last_seen: i64,
    /// Peer status
    pub status: PeerStatus,
}

/// The contents of a peer record.
pub struct PeerView {
    pub id: String,
    pub name: Option<String>,
    pub room_id: String,
    pub quic_endpoint: Option<String>,
    pub capabilities: Seq<String>,
    pub last_seen: i64,
    pub status: PeerStatus,
}

impl View for PeerInfo {
    type V = PeerView;

    open spec fn view(&self) -> PeerView {
        PeerView {
            id: self.id,
            name: self.name,
            room_id: self.room_id,
            quic_endpoint: self.quic_endpoint,
            capabilities: self.capabilities@,
            last_seen: self.last_seen,
            status: self.status,
        }
    }
}

impl PeerInfo {
    /// A copy of this peer
    pub fn duplicate(&self) -> (r: PeerInfo)
        ensures
            r@ == self@,
    {
        PeerInfo {
            id: self.id.clone(),
            name: copy_opt_string(&self.name),
            room_id: self.room_id.clone(),
            quic_endpoint: copy_opt_string(&self.quic_endpoint),
            capabilities: copy_strings(&self.capabilities),
            last_seen: self.last_seen,
            status: self.status,
        }
    }
}

/// Events emitted by the peer discovery service
#[derive(Debug)]
pub enum DiscoveryEvent {
    /// A new peer was discovered
    PeerDiscovered {
        /// Room ID where peer was discovered
        room_id: String,
        /// Information about the discovered peer
        peer: PeerInfo,
    },
    /// A peer left or went offline
    PeerLeft {
        /// Room ID where peer left
        room_id: String,
        /// ID of the peer that left
        peer_id: String,
    },
    /// A peer's status changed
    PeerStatusChanged {
        /// Room ID where status changed
        room_id: String,
        /// ID of the peer whose status changed
        peer_id: String,
        /// Previous status
        old_status: PeerStatus,
        /// New status
        new_status: PeerStatus,
    },
    /// Room state has been synchronized
    RoomSynchronized {
        /// Room ID that was synchronized
        room_id: String,
        /// Number of peers after synchronization
        peer_count: usize,
    },
}

/// Configuration for the peer discovery service
#[derive(Debug, Clone, Copy, PartialEq, Eq, Structural)]
pub struct DiscoveryConfig {
    /// How often to clean up offline peers (seconds)
    pub cleanup_interval: u64,
    /// How long before marking a peer as offline (seconds)
    pub offline_timeout: u64,
    /// Maximum number of peers to track per room
    pub max_peers_per_room: usize,
}

impl Default for DiscoveryConfig {
    fn default() -> (r: DiscoveryConfig)
        ensures
            r == (DiscoveryConfig { cleanup_interval: 60, offline_timeout: 300, max_peers_per_room: 100 }),
    {
        DiscoveryConfig { cleanup_interval: 60, offline_timeout: 300, max_peers_per_room: 100 }
    }
}

/// Room statistics
#[derive(Debug)]
pub struct RoomStats {
    /// Room ID
    pub room_id: String,
    /// Total number of peers
    pub total_peers: usize,
    /// Number of online peers
    pub online_peers: usize,
    /// Number of away peers
    pub away_peers: usize,
    /// Number of offline peers
    pub offline_peers: usize,
}

/// The peers of one room, in arrival order
#[derive(Debug)]
pub struct RoomPeers {
    /// Room ID
    pub room_id: String,
    /// Peers, with distinct IDs
    pub peers: Vec<PeerInfo>,
}

impl Keyed for PeerInfo {
    type Key = Seq<char>;

    open spec fn key(self) -> Seq<char> {
        self.id@
    }
}

impl Keyed for RoomPeers {
    type Key = Seq<char>;

    open spec fn key(self) -> Seq<char> {
        self.room_id@
    }
}

/// Whether no two peers share an ID.
pub open spec fn peer_ids_unique(s: Seq<PeerView>) -> bool {
    forall|i: int, j: int| 0 <= i < s.len() && 0 <= j < s.len() && i != j ==> s[i].id@ != s[j].id@
}

/// Whether some peer has the ID.
pub open spec fn has_peer(s: Seq<PeerView>, id: Seq<char>) -> bool {
    exists|i: int| 0 <= i < s.len() && s[i].id@ == id
}

/// The position of the peer with the ID.
pub open spec fn peer_index(s: Seq<PeerView>, id: Seq<char>) -> int {
    choose|i: int| 0 <= i < s.len() && s[i].id@ == id
}

/// The peers with `p` in place of the peer with its ID, or after them all.
pub open spec fn put_peer(s: Seq<PeerView>, p: PeerView) -> Seq<PeerView> {
    if has_peer(s, p.id@) { s.update(peer_index(s, p.id@), p) } else { s.push(p) }
}

/// The peers without the one with the ID.
pub open spec fn drop_peer(s: Seq<PeerView>, id: Seq<char>) -> Seq<PeerView> {
    if has_peer(s, id) { s.remove(peer_index(s, id)) } else { s }
}

/// The peers of a room record.
pub open spec fn peers_of(room: RoomPeers) -> Seq<PeerView> {
    room.peers@.map_values(|p: PeerInfo| p@)
}

/// With unique IDs, the peer found by ID is the one at its position.
pub proof fn lemma_peer_index(s: Seq<PeerView>, i: int)
    requires
        peer_ids_unique(s),
        0 <= i < s.len(),
    ensures
        has_peer(s, s[i].id@),
        peer_index(s, s[i].id@) == i,
{
    assert(has_peer(s, s[i].id@));
}


/// Distinct peer records have distinct IDs in their contents too.
pub proof fn lemma_views_unique(peers: Seq<PeerInfo>)
    requires
        keys_unique(peers),
    ensures
        peer_ids_unique(peers.map_values(|p: PeerInfo| p@)),
{
    let v = peers.map_values(|p: PeerInfo| p@);
    assert forall|i: int, j: int| 0 <= i < v.len() && 0 <= j < v.len() && i != j implies v[i].id@ != v[j].id@ by {
        assert(v[i].id@ == peers[i].key() && v[j].id@ == peers[j].key());
    }
}

/// Once the peer with an ID is dropped from peers with unique IDs, no peer has that ID.
pub proof fn lemma_dropped_peer_gone(s: Seq<PeerView>, id: Seq<char>)
    requires
        peer_ids_unique(s),
    ensures
        !has_peer(drop_peer(s, id), id),
        peer_ids_unique(drop_peer(s, id)),
{
    if has_peer(s, id) {
        let i = peer_index(s, id);
        let t = s.remove(i);
        assert forall|j: int| 0 <= j < t.len() implies t[j].id@ != id by {
            let oj = if j < i { j } else { j + 1 };
            assert(t[j] == s[oj]);
        }
        assert forall|a: int, b: int| 0 <= a < t.len() && 0 <= b < t.len() && a != b implies t[a].id@ != t[b].id@ by {
            let oa = if a < i { a } else { a + 1 };
            let ob = if b < i { b } else { b + 1 };
            assert(t[a] == s[oa] && t[b] == s[ob]);
        }
    }
}

/// The peers offering the capabilities are peers of the room, each once.
pub proof fn lemma_capable_peers_unique(s: Seq<PeerView>, required: Seq<String>)
    requires
        peer_ids_unique(s),
    ensures
        peer_ids_unique(with_capabilities(s, required)),
        forall|j: int| 0 <= j < with_capabilities(s, required).len() ==> exists|i: int| 0 <= i < s.len()
            && #[trigger] with_capabilities(s, required)[j] == s[i],
    decreases s.len(),
{
    if s.len() > 0 {
        let init = s.drop_last();
        assert forall|a: int, b: int| 0 <= a < init.len() && 0 <= b < init.len() && a != b implies init[a].id@ != init[b].id@ by {
            assert(init[a] == s[a] && init[b] == s[b]);
        }
        lemma_capable_peers_unique(init, required);
        let rest = with_capabilities(init, required);
        let w = with_capabilities(s, required);
        assert forall|j: int| 0 <= j < rest.len() implies exists|i: int| 0 <= i < s.len() - 1 && #[trigger] rest[j] == s[i] by {
            let i = choose|i: int| 0 <= i < init.len() && rest[j] == init[i];
            assert(init[i] == s[i]);
        }
        if offers_all(s.last(), required) {
            assert forall|j: int| 0 <= j < w.len() implies exists|i: int| 0 <= i < s.len() && #[trigger] w[j] == s[i] by {
                if j < rest.len() {
                    assert(w[j] == rest[j]);
                    let i = choose|i: int| 0 <= i < s.len() - 1 && rest[j] == s[i];
                } else {
                    assert(w[j] == s[s.len() - 1]);
                }
            }
            assert forall|a: int, b: int| 0 <= a < w.len() && 0 <= b < w.len() && a != b implies w[a].id@ != w[b].id@ by {
                if a < rest.len() && b < rest.len() {
                    assert(w[a] == rest[a] && w[b] == rest[b]);
                } else if a < rest.len() {
                    assert(w[a] == rest[a]);
                    let i = choose|i: int| 0 <= i < s.len() - 1 && rest[a] == s[i];
                    assert(w[b] == s[s.len() - 1]);
                } else {
                    assert(w[b] == rest[b]);
                    let i = choose|i: int| 0 <= i < s.len() - 1 && rest[b] == s[i];
                    assert(w[a] == s[s.len() - 1]);
                }
            }
        }
    }
}

/// Position of the peer with the ID
fn find_peer(peers: &Vec<PeerInfo>, id: &str) -> (r: Option<usize>)
    ensures
        r matches Some(i) ==> i < peers@.len() && peers@[i as int].id@ == id@,
        r is None ==> !has_peer(peers@.map_values(|p: PeerInfo| p@), id@),
{
    let mut i: usize = 0;
    while i < peers.len()
        invariant
            i <= peers@.len(),
            forall|j: int| 0 <= j < i ==> peers@[j].id@ != id@,
        decreases peers@.len() - i,
    {
        if same_text(&peers[i].id, id) {
            return Some(i);
        }
        i = i + 1;
    }
    proof {
        let v = peers@.map_values(|p: PeerInfo| p@);
        if has_peer(v, id@) {
            let j = choose|j: int| 0 <= j < v.len() && v[j].id@ == id@;
            assert(peers@[j].id@ == id@);
        }
    }
    None
}

/// Put a peer in place of the one with its ID, or after them all; true when it is new
fn put_peer_exec(peers: &mut Vec<PeerInfo>, peer: PeerInfo) -> (is_new: bool)
    requires
        keys_unique(old(peers)@),
    ensures
        keys_unique(final(peers)@),
        final(peers)@.map_values(|p: PeerInfo| p@) == put_peer(old(peers)@.map_values(|p: PeerInfo| p@), peer@),
        is_new == !has_peer(old(peers)@.map_values(|p: PeerInfo| p@), peer@.id@),
{
    let ghost before = peers@;
    let ghost v = before.map_values(|p: PeerInfo| p@);
    proof { lemma_views_unique(before); }
    match find_peer(peers, peer.id.as_str()) {
        Some(i) => {
            proof {
                lemma_peer_index(v, i as int);
                lemma_keyed_update(before, i as int, peer);
            }
            peers.remove(i);
            peers.insert(i, peer);
            assert(peers@ =~= before.update(i as int, peer));
            assert(peers@.map_values(|p: PeerInfo| p@) =~= v.update(i as int, peer@));
            false
        },
        None => {
            proof {
                if has_key(before, peer.key()) {
                    let j = choose|j: int| 0 <= j < before.len() && (#[trigger] before[j]).key() == peer.key();
                    assert(v[j].id@ == peer@.id@);
                }
                lemma_keyed_push(before, peer);
            }
            peers.push(peer);
            assert(peers@.map_values(|p: PeerInfo| p@) =~= v.push(peer@));
            true
        },
    }
}

/// Remove the peer with the ID, if there; true when one was removed
fn drop_peer_exec(peers: &mut Vec<PeerInfo>, id: &str) -> (removed: bool)
    requires
        keys_unique(old(peers)@),
    ensures
        keys_unique(final(peers)@),
        final(peers)@.map_values(|p: PeerInfo| p@) == drop_peer(old(peers)@.map_values(|p: PeerInfo| p@), id@),
        removed == has_peer(old(peers)@.map_values(|p: PeerInfo| p@), id@),
        !removed ==> *final(peers) == *old(peers),
{
    let ghost before = peers@;
    let ghost v = before.map_values(|p: PeerInfo| p@);
    proof { lemma_views_unique(before); }
    match find_peer(peers, id) {
        Some(i) => {
            proof {
                lemma_peer_index(v, i as int);
                lemma_keyed_remove(before, i as int);
            }
            peers.remove(i);
            assert(peers@.map_values(|p: PeerInfo| p@) =~= v.remove(i as int));
            true
        },
        None => false,
    }
}

/// The peers of a room, or none for an unknown room.
pub open spec fn room_view(rooms: Map<Seq<char>, Seq<PeerView>>, id: Seq<char>) -> Seq<PeerView> {
    if rooms.dom().contains(id) { rooms[id] } else { Seq::empty() }
}

/// Peer discovery for finding and connecting participants
#[derive(Debug)]
pub struct PeerDiscovery {
    /// Discovered peers, by room, in order of the rooms' first use
    rooms: Vec<RoomPeers>,
    /// Discovery service configuration
    config: DiscoveryConfig,
}

impl PeerDiscovery {
    /// Room IDs are distinct, and so are the peer IDs of each room.
    pub closed spec fn wf(&self) -> bool {
        &&& keys_unique(self.rooms@)
        &&& forall|i: int| 0 <= i < self.rooms@.len() ==> keys_unique(#[trigger] self.rooms@[i].peers@)
    }

    /// The peers of each room, in arrival order
    pub closed spec fn rooms(&self) -> Map<Seq<char>, Seq<PeerView>> {
        keyed_map(self.rooms@).map_values(|r: RoomPeers| peers_of(r))
    }

    /// In a well-formed state no room holds two peers with the same ID.
    pub proof fn lemma_room_peers_unique(&self)
        requires
            self.wf(),
        ensures
            forall|id: Seq<char>| #[trigger] self.rooms().dom().contains(id) ==> peer_ids_unique(self.rooms()[id]),
    {
        assert forall|id: Seq<char>| #[trigger] self.rooms().dom().contains(id) implies peer_ids_unique(self.rooms()[id]) by {
            let i = choose|i: int| 0 <= i < self.rooms@.len() && (#[trigger] self.rooms@[i]).key() == id;
            lemma_keyed_index(self.rooms@, i);
            lemma_views_unique(self.rooms@[i].peers@);
        }
    }

    /// The rooms with their peers, in order of the rooms' first use
    pub closed spec fn room_list(&self) -> Seq<(String, Seq<PeerView>)> {
        self.rooms@.map_values(|r: RoomPeers| (r.room_id, peers_of(r)))
    }

    /// The configuration
    pub closed spec fn spec_config(&self) -> DiscoveryConfig {
        self.config
    }

    /// Create new peer discovery service with the default configuration
    pub fn new() -> (r: Self)
        ensures
            r.wf(),
            r.rooms().is_empty(),
            r.room_list().len() == 0,
            r.spec_config() == (DiscoveryConfig { cleanup_interval: 60, offline_timeout: 300, max_peers_per_room: 100 }),
    {
        Self::new_with_config(DiscoveryConfig::default())
    }

    /// Create new peer discovery service with custom configuration
    pub fn new_with_config(config: DiscoveryConfig) -> (r: Self)
        ensures
            r.wf(),
            r.rooms().is_empty(),
            r.room_list().len() == 0,
            r.spec_config() == config,
    {
        let r = PeerDiscovery { rooms: Vec::new(), config };
        assert(r.rooms() =~= Map::empty());
        r
    }

    /// The configuration
    pub fn config(&self) -> (r: &DiscoveryConfig)
        ensures
            *r == self.spec_config(),
    {
        &self.config
    }

    fn find_room(&self, room_id: &str) -> (r: Option<usize>)
        requires
            self.wf(),
        ensures
            r matches Some(i) ==> i < self.rooms@.len() && self.rooms@[i as int].room_id@ == room_id@
                && self.rooms().dom().contains(room_id@) && self.rooms()[room_id@] == peers_of(self.rooms@[i as int]),
            r is None ==> !self.rooms().dom().contains(room_id@) && !has_key(self.rooms@, room_id@),
    {
        let mut i: usize = 0;
        while i < self.rooms.len()
            invariant
                self.wf(),
                i <= self.rooms@.len(),
                forall|j: int| 0 <= j < i ==> (#[trigger] self.rooms@[j]).room_id@ != room_id@,
            decreases self.rooms@.len() - i,
        {
            if same_text(&self.rooms[i].room_id, room_id) {
                proof { lemma_keyed_index(self.rooms@, i as int); }
                return Some(i);
            }
            i = i + 1;
        }
        None
    }

    /// Position of the room, created empty if it was not known
    fn room_entry(&mut self, room_id: &str) -> (r: usize)
        requires
            old(self).wf(),
        ensures
            final(self).wf(),
            final(self).config == old(self).config,
            r < final(self).rooms@.len(),
            final(self).rooms@[r as int].room_id@ == room_id@,
            final(self).rooms() == old(self).rooms().insert(room_id@, room_view(old(self).rooms(), room_id@)),
            old(self).rooms().dom().contains(room_id@) ==> final(self).rooms@ == old(self).rooms@,
            !old(self).rooms().dom().contains(room_id@) ==> final(self).rooms@ == old(self).rooms@.push(
                final(self).rooms@[r as int]) && final(self).rooms@[r as int].peers@.len() == 0,
            final(self).room_list() == if old(self).rooms().dom().contains(room_id@) { old(self).room_list() }
                else { old(self).room_list().push(final(self).room_list().last()) },
    {
        match self.find_room(room_id) {
            Some(i) => {
                assert(self.rooms() =~= self.rooms().insert(room_id@, room_view(self.rooms(), room_id@)));
                i
            },
            None => {
                let ghost before = self.rooms@;
                let room = RoomPeers { room_id: String::from_str(room_id), peers: Vec::new() };
                proof { lemma_keyed_push(before, room); }
                self.rooms.push(room);
                assert(peers_of(room) =~= Seq::<PeerView>::empty());
                assert(self.rooms() =~= keyed_map(before).map_values(|r: RoomPeers| peers_of(r)).insert(room_id@, Seq::empty()));
                assert(self.room_list() =~= before.map_values(|r: RoomPeers| (r.room_id, peers_of(r))).push(
                    self.room_list().last()));
                self.rooms.len() - 1
            },
        }
    }
}


impl PeerDiscovery {
    /// Put `room` back at position `i`, where a room with the same ID was
    proof fn lemma_room_replaced(old_rooms: Seq<RoomPeers>, i: int, room: RoomPeers, new_rooms: Seq<RoomPeers>)
        requires
            keys_unique(old_rooms),
            forall|j: int| 0 <= j < old_rooms.len() ==> keys_unique(#[trigger] old_rooms[j].peers@),
            0 <= i < old_rooms.len(),
            room.room_id@ == old_rooms[i].room_id@,
            keys_unique(room.peers@),
            new_rooms == old_rooms.update(i, room),
        ensures
            keys_unique(new_rooms),
            forall|j: int| 0 <= j < new_rooms.len() ==> keys_unique(#[trigger] new_rooms[j].peers@),
            keyed_map(new_rooms).map_values(|r: RoomPeers| peers_of(r)) == keyed_map(old_rooms).map_values(
                |r: RoomPeers| peers_of(r)).insert(room.room_id@, peers_of(room)),
    {
        lemma_keyed_update(old_rooms, i, room);
        assert forall|j: int| 0 <= j < new_rooms.len() implies keys_unique(#[trigger] new_rooms[j].peers@) by {
            if j != i { assert(new_rooms[j] == old_rooms[j]); }
        }
        assert(keyed_map(new_rooms).map_values(|r: RoomPeers| peers_of(r)) =~= keyed_map(old_rooms).map_values(
            |r: RoomPeers| peers_of(r)).insert(room.room_id@, peers_of(room)));
    }

    /// Add a peer to its room (creating the room if needed). A full room refuses a peer it
    /// does not hold yet. A new peer is announced as discovered; a known one is replaced.
    pub fn add_peer(&mut self, peer: PeerInfo) -> (r: Result<Vec<DiscoveryEvent>, QuicRtcError>)
        requires
            old(self).wf(),
        ensures
            final(self).wf(),
            final(self).spec_config() == old(self).spec_config(),
            ({
                let rk = peer.room_id@;
                let room = room_view(old(self).rooms(), rk);
                let max = old(self).spec_config().max_peers_per_room;
                if room.len() >= max && !has_peer(room, peer.id@) {
                    &&& final(self).rooms() == old(self).rooms().insert(rk, room)
                    &&& r matches Err(QuicRtcError::RoomFull { room_id, max_participants })
                    &&& room_id == peer.room_id && max_participants == max
                } else {
                    &&& final(self).rooms() == old(self).rooms().insert(rk, put_peer(room, peer@))
                    &&& r matches Ok(events)
                    &&& has_peer(room, peer.id@) ==> events@.len() == 0
                    &&& !has_peer(room, peer.id@) ==> (events@.len() == 1 && (events@[0] matches
                        DiscoveryEvent::PeerDiscovered { room_id, peer: p } && room_id == peer.room_id && p@ == peer@))
                }
            }),
    {
        let ghost old_rooms = self.rooms();
        let room_id = peer.room_id.clone();
        let i = self.room_entry(room_id.as_str());
        let ghost rooms1 = self.rooms@;
        proof {
            lemma_keyed_index(rooms1, i as int);
            assert(peers_of(rooms1[i as int]) == room_view(old_rooms, peer.room_id@));
        }
        let max = self.config.max_peers_per_room;
        proof { lemma_views_unique(rooms1[i as int].peers@); }
        let known = find_peer(&self.rooms[i].peers, peer.id.as_str()).is_some();
        assert(known == has_peer(peers_of(rooms1[i as int]), peer.id@)) by {
            if known {
                let j = choose|j: int| 0 <= j < rooms1[i as int].peers@.len() && rooms1[i as int].peers@[j].id@ == peer.id@;
                assert(peers_of(rooms1[i as int])[j].id@ == peer.id@);
            }
        }
        if self.rooms[i].peers.len() >= max && !known {
            return Err(QuicRtcError::RoomFull { room_id, max_participants: max });
        }
        let announced = peer.duplicate();
        let mut room = self.rooms.remove(i);
        let is_new = put_peer_exec(&mut room.peers, peer);
        self.rooms.insert(i, room);
        proof {
            assert(self.rooms@ =~= rooms1.update(i as int, room));
            Self::lemma_room_replaced(rooms1, i as int, room, self.rooms@);
            assert(self.rooms() =~= old_rooms.insert(peer.room_id@, peers_of(room)));
        }
        let mut events: Vec<DiscoveryEvent> = Vec::new();
        if is_new {
            events.push(DiscoveryEvent::PeerDiscovered { room_id, peer: announced });
        }
        Ok(events)
    }

    /// Remove a peer from its room; a room left empty goes too. A removed peer is announced
    /// as having left; an unknown one changes nothing.
    pub fn remove_peer(&mut self, room_id: &str, peer_id: &str) -> (r: Result<Vec<DiscoveryEvent>, QuicRtcError>)
        requires
            old(self).wf(),
        ensures
            final(self).wf(),
            final(self).spec_config() == old(self).spec_config(),
            ({
                let room = room_view(old(self).rooms(), room_id@);
                if has_peer(room, peer_id@) {
                    let rest = drop_peer(room, peer_id@);
                    &&& final(self).rooms() == if rest.len() == 0 { old(self).rooms().remove(room_id@) }
                        else { old(self).rooms().insert(room_id@, rest) }
                    &&& r matches Ok(events) && events@.len() == 1 && (events@[0] matches DiscoveryEvent::PeerLeft {
                        room_id: rid, peer_id: pid } && rid@ == room_id@ && pid@ == peer_id@)
                } else {
                    &&& final(self).rooms() == old(self).rooms()
                    &&& r matches Ok(events) && events@.len() == 0
                }
            }),
            !has_peer(room_view(final(self).rooms(), room_id@), peer_id@),
    {
        proof { self.lemma_room_peers_unique(); }
        let mut events: Vec<DiscoveryEvent> = Vec::new();
        let i = match self.find_room(room_id) {
            Some(i) => i,
            None => { return Ok(events); },
        };
        let ghost rooms0 = self.rooms@;
        let mut room = self.rooms.remove(i);
        let removed = drop_peer_exec(&mut room.peers, peer_id);
        if !removed {
            self.rooms.insert(i, room);
            assert(self.rooms@ =~= rooms0);
            return Ok(events);
        }
        if room.peers.len() == 0 {
            proof {
                lemma_keyed_remove(rooms0, i as int);
                assert forall|j: int| 0 <= j < self.rooms@.len() implies keys_unique(#[trigger] self.rooms@[j].peers@) by {
                    let oj = if j < i { j } else { j + 1 };
                    assert(self.rooms@[j] == rooms0[oj]);
                }
                assert(peers_of(room) =~= Seq::<PeerView>::empty());
                assert(self.rooms() =~= keyed_map(rooms0).map_values(|r: RoomPeers| peers_of(r)).remove(room_id@));
            }
        } else {
            self.rooms.insert(i, room);
            proof {
                assert(self.rooms@ =~= rooms0.update(i as int, room));
                Self::lemma_room_replaced(rooms0, i as int, room, self.rooms@);
            }
        }
        events.push(DiscoveryEvent::PeerLeft { room_id: String::from_str(room_id), peer_id: String::from_str(peer_id) });
        Ok(events)
    }
}


/// The peers after putting each of `s` in turn: the last record of each ID, in order of
/// first appearance.
pub open spec fn synced(s: Seq<PeerView>) -> Seq<PeerView>
    decreases s.len(),
{
    if s.len() == 0 { Seq::empty() } else { put_peer(synced(s.drop_last()), s.last()) }
}

/// The peers with the status, in order.
pub open spec fn with_status(s: Seq<PeerView>, status: PeerStatus) -> Seq<PeerView>
    decreases s.len(),
{
    if s.len() == 0 {
        Seq::empty()
    } else {
        let rest = with_status(s.drop_last(), status);
        if s.last().status == status { rest.push(s.last()) } else { rest }
    }
}

/// Whether the peer offers the capability.
pub open spec fn offers(p: PeerView, capability: Seq<char>) -> bool {
    exists|i: int| 0 <= i < p.capabilities.len() && p.capabilities[i]@ == capability
}

/// Whether the peer offers every capability.
pub open spec fn offers_all(p: PeerView, required: Seq<String>) -> bool {
    forall|j: int| 0 <= j < required.len() ==> offers(p, #[trigger] required[j]@)
}

/// The peers offering every capability, in order.
pub open spec fn with_capabilities(s: Seq<PeerView>, required: Seq<String>) -> Seq<PeerView>
    decreases s.len(),
{
    if s.len() == 0 {
        Seq::empty()
    } else {
        let rest = with_capabilities(s.drop_last(), required);
        if offers_all(s.last(), required) { rest.push(s.last()) } else { rest }
    }
}

/// Copies of peers, in order
fn copy_peers(peers: &Vec<PeerInfo>) -> (r: Vec<PeerInfo>)
    ensures
        r@.map_values(|p: PeerInfo| p@) == peers@.map_values(|p: PeerInfo| p@),
{
    let mut r: Vec<PeerInfo> = Vec::new();
    let mut i: usize = 0;
    while i < peers.len()
        invariant
            i <= peers@.len(),
            r@.len() == i,
            forall|j: int| 0 <= j < i ==> (#[trigger] r@[j])@ == peers@[j]@,
        decreases peers@.len() - i,
    {
        r.push(peers[i].duplicate());
        i = i + 1;
    }
    assert(r@.map_values(|p: PeerInfo| p@) =~= peers@.map_values(|p: PeerInfo| p@));
    r
}

/// Whether the peer offers the capability
fn offers_exec(peer: &PeerInfo, capability: &String) -> (r: bool)
    ensures
        r == offers(peer@, capability@),
{
    let mut i: usize = 0;
    while i < peer.capabilities.len()
        invariant
            i <= peer.capabilities@.len(),
            forall|j: int| 0 <= j < i ==> peer.capabilities@[j]@ != capability@,
        decreases peer.capabilities@.len() - i,
    {
        if same_text(&peer.capabilities[i], capability.as_str()) {
            assert(peer@.capabilities[i as int]@ == capability@);
            return true;
        }
        i = i + 1;
    }
    false
}

/// Whether the peer offers every capability
fn offers_all_exec(peer: &PeerInfo, required: &[String]) -> (r: bool)
    ensures
        r == offers_all(peer@, required@),
{
    let mut j: usize = 0;
    while j < required.len()
        invariant
            j <= required@.len(),
            forall|m: int| 0 <= m < j ==> offers(peer@, #[trigger] required@[m]@),
        decreases required@.len() - j,
    {
        if !offers_exec(peer, &required[j]) {
            return false;
        }
        j = j + 1;
    }
    true
}

/// What a status update seen at `now` does. An unknown room or peer is refused and nothing
/// changes. Otherwise the peer takes the status and is marked seen at `now`, and a change of
/// status is announced.
pub open spec fn status_update_outcome(
    old_rooms: Map<Seq<char>, Seq<PeerView>>,
    new_rooms: Map<Seq<char>, Seq<PeerView>>,
    room_id: Seq<char>,
    peer_id: Seq<char>,
    new_status: PeerStatus,
    now: i64,
    r: Result<Vec<DiscoveryEvent>, QuicRtcError>,
) -> bool {
    if !old_rooms.dom().contains(room_id) {
        &&& new_rooms == old_rooms
        &&& r matches Err(QuicRtcError::RoomNotFound { room_id: rid }) && rid@ == room_id
    } else if !has_peer(old_rooms[room_id], peer_id) {
        &&& new_rooms == old_rooms
        &&& r matches Err(QuicRtcError::ParticipantNotFound { room_id: rid, participant_id: pid })
            && rid@ == room_id && pid@ == peer_id
    } else {
        let room = old_rooms[room_id];
        let i = peer_index(room, peer_id);
        let p = room[i];
        &&& new_rooms == old_rooms.insert(room_id, room.update(i, PeerView { status: new_status, last_seen: now, ..p }))
        &&& r matches Ok(events)
        &&& p.status == new_status ==> events@.len() == 0
        &&& p.status != new_status ==> (events@.len() == 1 && (events@[0] matches
            DiscoveryEvent::PeerStatusChanged { room_id: rid, peer_id: pid, old_status, new_status: ns }
            && rid@ == room_id && pid@ == peer_id && old_status == p.status && ns == new_status))
    }
}

impl PeerDiscovery {
    /// Change a peer's status and mark it seen at `now` (milliseconds since the Unix
    /// epoch) (see [`status_update_outcome`])
    pub fn update_peer_status_at(&mut self, room_id: &str, peer_id: &str, new_status: PeerStatus, now: i64)
        -> (r: Result<Vec<DiscoveryEvent>, QuicRtcError>)
        requires
            old(self).wf(),
        ensures
            final(self).wf(),
            final(self).spec_config() == old(self).spec_config(),
            status_update_outcome(old(self).rooms(), final(self).rooms(), room_id@, peer_id@, new_status, now, r),
    {
        let ghost old_map = self.rooms();
        let i = match self.find_room(room_id) {
            Some(i) => i,
            None => { return Err(QuicRtcError::RoomNotFound { room_id: String::from_str(room_id) }); },
        };
        let ghost rooms0 = self.rooms@;
        proof { lemma_views_unique(rooms0[i as int].peers@); }
        let j = match find_peer(&self.rooms[i].peers, peer_id) {
            Some(j) => j,
            None => {
                return Err(QuicRtcError::ParticipantNotFound {
                    room_id: String::from_str(room_id),
                    participant_id: String::from_str(peer_id),
                });
            },
        };
        proof { lemma_peer_index(peers_of(rooms0[i as int]), j as int); }
        let mut room = self.rooms.remove(i);
        let ghost peers0 = room.peers@;
        let mut p = room.peers.remove(j);
        let old_status = p.status;
        p.status = new_status;
        p.last_seen = now;
        room.peers.insert(j, p);
        proof {
            assert(room.peers@ =~= peers0.update(j as int, p));
            lemma_keyed_update(peers0, j as int, p);
            assert(peers_of(room) =~= peers_of(rooms0[i as int]).update(j as int, p@));
        }
        self.rooms.insert(i, room);
        proof {
            assert(self.rooms@ =~= rooms0.update(i as int, room));
            Self::lemma_room_replaced(rooms0, i as int, room, self.rooms@);
        }
        let mut events: Vec<DiscoveryEvent> = Vec::new();
        if old_status != new_status {
            events.push(DiscoveryEvent::PeerStatusChanged {
                room_id: String::from_str(room_id),
                peer_id: String::from_str(peer_id),
                old_status,
                new_status,
            });
        }
        Ok(events)
    }

    /// Change a peer's status, seen now ([`Self::update_peer_status_at`] at the current time)
    pub fn update_peer_status(&mut self, room_id: &str, peer_id: &str, new_status: PeerStatus)
        -> (r: Result<Vec<DiscoveryEvent>, QuicRtcError>)
        requires
            old(self).wf(),
        ensures
            final(self).wf(),
            final(self).spec_config() == old(self).spec_config(),
            exists|now: i64| status_update_outcome(old(self).rooms(), final(self).rooms(), room_id@, peer_id@,
                new_status, now, r),
    {
        let now = unix_time_millis();
        let now = if now > i64::MAX as u64 { i64::MAX } else { now as i64 };
        self.update_peer_status_at(room_id, peer_id, new_status, now)
    }

    /// Replace a room's peers by the given ones (the last record of each ID counts), creating
    /// the room if needed; the synchronization is announced with the number of records given.
    pub fn synchronize_room(&mut self, room_id: &str, current_peers: Vec<PeerInfo>)
        -> (r: Result<Vec<DiscoveryEvent>, QuicRtcError>)
        requires
            old(self).wf(),
        ensures
            final(self).wf(),
            final(self).spec_config() == old(self).spec_config(),
            final(self).rooms() == old(self).rooms().insert(room_id@, synced(current_peers@.map_values(|p: PeerInfo| p@))),
            r matches Ok(events) && events@.len() == 1 && (events@[0] matches DiscoveryEvent::RoomSynchronized {
                room_id: rid, peer_count } && rid@ == room_id@ && peer_count == current_peers@.len()),
    {
        let count = current_peers.len();
        let i = self.room_entry(room_id);
        let ghost rooms1 = self.rooms@;
        let mut fresh: Vec<PeerInfo> = Vec::new();
        let ghost all = current_peers@.map_values(|p: PeerInfo| p@);
        let mut rest = current_peers;
        let mut k: usize = 0;
        while rest.len() > 0
            invariant
                k + rest@.len() == count,
                count == all.len(),
                rest@.map_values(|p: PeerInfo| p@) == all.subrange(k as int, count as int),
                keys_unique(fresh@),
                fresh@.map_values(|p: PeerInfo| p@) == synced(all.take(k as int)),
            decreases rest@.len(),
        {
            let ghost rv = rest@;
            let p = rest.remove(0);
            proof {
                assert(rv.map_values(|p: PeerInfo| p@)[0] == all[k as int]);
                assert(all.take(k + 1).drop_last() =~= all.take(k as int));
            }
            put_peer_exec(&mut fresh, p);
            k = k + 1;
            proof {
                assert(rest@ =~= rv.subrange(1, rv.len() as int));
                assert forall|m: int| #![auto] 0 <= m < rest@.len() implies rest@.map_values(|p: PeerInfo| p@)[m]
                    == all.subrange(k as int, count as int)[m] by {
                    assert(rest@[m] == rv[m + 1]);
                    assert(rv.map_values(|p: PeerInfo| p@)[m + 1] == all.subrange(k - 1, count as int)[m + 1]);
                }
            }
            assert(rest@.map_values(|p: PeerInfo| p@) =~= all.subrange(k as int, count as int));
        }
        assert(all.take(count as int) =~= all);
        let mut room = self.rooms.remove(i);
        room.peers = fresh;
        self.rooms.insert(i, room);
        proof {
            assert(self.rooms@ =~= rooms1.update(i as int, room));
            Self::lemma_room_replaced(rooms1, i as int, room, self.rooms@);
        }
        let mut events: Vec<DiscoveryEvent> = Vec::new();
        events.push(DiscoveryEvent::RoomSynchronized { room_id: String::from_str(room_id), peer_count: count });
        Ok(events)
    }

    /// Copies of the peers of a room, in arrival order; none for an unknown room
    pub fn discover_peers(&self, room_id: &str) -> (r: Result<Vec<PeerInfo>, QuicRtcError>)
        requires
            self.wf(),
        ensures
            r matches Ok(v) && v@.map_values(|p: PeerInfo| p@) == room_view(self.rooms(), room_id@),
    {
        match self.find_room(room_id) {
            Some(i) => Ok(copy_peers(&self.rooms[i].peers)),
            None => {
                let v: Vec<PeerInfo> = Vec::new();
                assert(v@.map_values(|p: PeerInfo| p@) =~= Seq::<PeerView>::empty());
                Ok(v)
            },
        }
    }

    /// Copies of the peers of a room with the status, in arrival order
    pub fn get_peers_by_status(&self, room_id: &str, status: PeerStatus) -> (r: Result<Vec<PeerInfo>, QuicRtcError>)
        requires
            self.wf(),
        ensures
            r matches Ok(v) && v@.map_values(|p: PeerInfo| p@) == with_status(room_view(self.rooms(), room_id@), status),
    {
        let mut v: Vec<PeerInfo> = Vec::new();
        let i = match self.find_room(room_id) {
            Some(i) => i,
            None => {
                assert(v@.map_values(|p: PeerInfo| p@) =~= Seq::<PeerView>::empty());
                return Ok(v);
            },
        };
        let peers = &self.rooms[i].peers;
        let ghost all = peers@.map_values(|p: PeerInfo| p@);
        let mut j: usize = 0;
        while j < peers.len()
            invariant
                j <= peers@.len(),
                all == peers@.map_values(|p: PeerInfo| p@),
                v@.map_values(|p: PeerInfo| p@) == with_status(all.take(j as int), status),
            decreases peers@.len() - j,
        {
            assert(all.take(j + 1).drop_last() =~= all.take(j as int));
            if peers[j].status == status {
                v.push(peers[j].duplicate());
            }
            j = j + 1;
            assert(v@.map_values(|p: PeerInfo| p@) =~= with_status(all.take(j as int), status));
        }
        assert(all.take(peers@.len() as int) =~= all);
        Ok(v)
    }

    /// Copies of the peers of a room that offer every given capability, in arrival order
    pub fn find_peers_with_capabilities(&self, room_id: &str, required_capabilities: &[String])
        -> (r: Result<Vec<PeerInfo>, QuicRtcError>)
        requires
            self.wf(),
        ensures
            r matches Ok(v) && v@.map_values(|p: PeerInfo| p@) == with_capabilities(room_view(self.rooms(), room_id@),
                required_capabilities@),
            r matches Ok(v) && peer_ids_unique(v@.map_values(|p: PeerInfo| p@)),
    {
        proof {
            self.lemma_room_peers_unique();
            lemma_capable_peers_unique(room_view(self.rooms(), room_id@), required_capabilities@);
        }
        let mut v: Vec<PeerInfo> = Vec::new();
        let i = match self.find_room(room_id) {
            Some(i) => i,
            None => {
                assert(v@.map_values(|p: PeerInfo| p@) =~= Seq::<PeerView>::empty());
                return Ok(v);
            },
        };
        let peers = &self.rooms[i].peers;
        let ghost all = peers@.map_values(|p: PeerInfo| p@);
        let mut j: usize = 0;
        while j < peers.len()
            invariant
                j <= peers@.len(),
                all == peers@.map_values(|p: PeerInfo| p@),
                v@.map_values(|p: PeerInfo| p@) == with_capabilities(all.take(j as int), required_capabilities@),
            decreases peers@.len() - j,
        {
            assert(all.take(j + 1).drop_last() =~= all.take(j as int));
            if offers_all_exec(&peers[j], required_capabilities) {
                v.push(peers[j].duplicate());
            }
            j = j + 1;
            assert(v@.map_values(|p: PeerInfo| p@) =~= with_capabilities(all.take(j as int), required_capabilities@));
        }
        assert(all.take(peers@.len() as int) =~= all);
        Ok(v)
    }

    /// IDs of all rooms, in order of first use
    pub fn get_active_rooms(&self) -> (r: Vec<String>)
        ensures
            r@ == self.room_list().map_values(|e: (String, Seq<PeerView>)| e.0),
    {
        let mut r: Vec<String> = Vec::new();
        let mut i: usize = 0;
        while i < self.rooms.len()
            invariant
                i <= self.rooms@.len(),
                r@ == self.room_list().map_values(|e: (String, Seq<PeerView>)| e.0).take(i as int),
            decreases self.rooms@.len() - i,
        {
            r.push(self.rooms[i].room_id.clone());
            i = i + 1;
            assert(r@ =~= self.room_list().map_values(|e: (String, Seq<PeerView>)| e.0).take(i as int));
        }
        assert(self.room_list().map_values(|e: (String, Seq<PeerView>)| e.0).take(i as int)
            =~= self.room_list().map_values(|e: (String, Seq<PeerView>)| e.0));
        r
    }
}


/// A peer not seen since before `cutoff` and not offline is marked offline.
pub open spec fn mark_stale(p: PeerView, cutoff: int) -> PeerView {
    if p.last_seen < cutoff && p.status != PeerStatus::Offline { PeerView { status: PeerStatus::Offline, ..p } } else { p }
}

/// The peers after a cleanup: stale ones marked offline, and those not seen since before
/// `gone` removed, in order.
pub open spec fn kept_peers(s: Seq<PeerView>, cutoff: int, gone: int) -> Seq<PeerView>
    decreases s.len(),
{
    if s.len() == 0 {
        Seq::empty()
    } else {
        let rest = kept_peers(s.drop_last(), cutoff, gone);
        if s.last().last_seen < gone { rest } else { rest.push(mark_stale(s.last(), cutoff)) }
    }
}

/// A status change to offline for each peer that a cleanup marks offline, in order, from
/// the peer's previous status.
pub open spec fn stale_events(room_id: String, s: Seq<PeerView>, cutoff: int) -> Seq<DiscoveryEvent>
    decreases s.len(),
{
    if s.len() == 0 {
        Seq::empty()
    } else {
        let rest = stale_events(room_id, s.drop_last(), cutoff);
        let p = s.last();
        if p.last_seen < cutoff && p.status != PeerStatus::Offline {
            rest.push(DiscoveryEvent::PeerStatusChanged {
                room_id,
                peer_id: p.id,
                old_status: p.status,
                new_status: PeerStatus::Offline,
            })
        } else {
            rest
        }
    }
}

/// A departure for each peer that a cleanup removes, in order.
pub open spec fn gone_events(room_id: String, s: Seq<PeerView>, gone: int) -> Seq<DiscoveryEvent>
    decreases s.len(),
{
    if s.len() == 0 {
        Seq::empty()
    } else {
        let rest = gone_events(room_id, s.drop_last(), gone);
        let p = s.last();
        if p.last_seen < gone { rest.push(DiscoveryEvent::PeerLeft { room_id, peer_id: p.id }) } else { rest }
    }
}

/// The rooms after a cleanup, in order; rooms left empty are dropped.
pub open spec fn cleaned_rooms(rooms: Seq<(String, Seq<PeerView>)>, cutoff: int, gone: int) -> Seq<(String, Seq<PeerView>)>
    decreases rooms.len(),
{
    if rooms.len() == 0 {
        Seq::empty()
    } else {
        let rest = cleaned_rooms(rooms.drop_last(), cutoff, gone);
        let (id, s) = rooms.last();
        let kept = kept_peers(s, cutoff, gone);
        if kept.len() == 0 { rest } else { rest.push((id, kept)) }
    }
}

/// Whether `after` and `events` are what a cleanup at `now` with a timeout of `timeout`
/// seconds makes of `before`: peers not seen for the timeout are offline, and those not
/// seen for twice the timeout are gone.
pub open spec fn cleaned_at(
    before: Seq<(String, Seq<PeerView>)>,
    after: Seq<(String, Seq<PeerView>)>,
    events: Seq<DiscoveryEvent>,
    now: i64,
    timeout: u64,
) -> bool {
    let cutoff = now - timeout * 1000;
    let gone = cutoff - timeout * 1000;
    &&& after == cleaned_rooms(before, cutoff, gone)
    &&& events == cleanup_events(before, cutoff, gone)
}

/// The events of a cleanup: for each room in order, its status changes, then its departures.
pub open spec fn cleanup_events(rooms: Seq<(String, Seq<PeerView>)>, cutoff: int, gone: int) -> Seq<DiscoveryEvent>
    decreases rooms.len(),
{
    if rooms.len() == 0 {
        Seq::empty()
    } else {
        let (id, s) = rooms.last();
        cleanup_events(rooms.drop_last(), cutoff, gone) + stale_events(id, s, cutoff) + gone_events(id, s, gone)
    }
}

/// Clean one room: mark stale peers offline and remove those gone, with the events
fn clean_room(room: RoomPeers, cutoff: i128, gone: i128) -> (r: (RoomPeers, Vec<DiscoveryEvent>))
    requires
        keys_unique(room.peers@),
    ensures
        keys_unique(r.0.peers@),
        r.0.room_id == room.room_id,
        peers_of(r.0) == kept_peers(peers_of(room), cutoff as int, gone as int),
        r.1@ == stale_events(room.room_id, peers_of(room), cutoff as int) + gone_events(room.room_id, peers_of(room),
            gone as int),
{
    let ghost all = peers_of(room);
    let ghost src = room.peers@;
    let room_id = room.room_id;
    let mut rest = room.peers;
    let n = rest.len();
    let mut kept: Vec<PeerInfo> = Vec::new();
    let mut stale: Vec<DiscoveryEvent> = Vec::new();
    let mut left: Vec<DiscoveryEvent> = Vec::new();
    let mut k: usize = 0;
    while rest.len() > 0
        invariant
            n == src.len(),
            all == src.map_values(|p: PeerInfo| p@),
            keys_unique(src),
            k + rest@.len() == n,
            rest@ == src.subrange(k as int, n as int),
            keys_unique(kept@),
            forall|m: int| 0 <= m < kept@.len() ==> exists|j: int| 0 <= j < k && (#[trigger] kept@[m]).key() == src[j].key(),
            kept@.map_values(|p: PeerInfo| p@) == kept_peers(all.take(k as int), cutoff as int, gone as int),
            stale@ == stale_events(room_id, all.take(k as int), cutoff as int),
            left@ == gone_events(room_id, all.take(k as int), gone as int),
        decreases rest@.len(),
    {
        let ghost rv = rest@;
        let mut p = rest.remove(0);
        proof {
            assert(p == src[k as int]);
            assert(all.take(k + 1).drop_last() =~= all.take(k as int));
            assert(all.take(k + 1).last() == p@);
        }
        if (p.last_seen as i128) < cutoff && p.status != PeerStatus::Offline {
            let old_status = p.status;
            p.status = PeerStatus::Offline;
            stale.push(DiscoveryEvent::PeerStatusChanged {
                room_id: room_id.clone(),
                peer_id: p.id.clone(),
                old_status,
                new_status: PeerStatus::Offline,
            });
        }
        if (p.last_seen as i128) < gone {
            left.push(DiscoveryEvent::PeerLeft { room_id: room_id.clone(), peer_id: p.id.clone() });
        } else {
            proof {
                if has_key(kept@, p.key()) {
                    let m = choose|m: int| 0 <= m < kept@.len() && (#[trigger] kept@[m]).key() == p.key();
                    let j = choose|j: int| 0 <= j < k && (#[trigger] kept@[m]).key() == src[j].key();
                    assert(src[j].key() != src[k as int].key());
                }
                lemma_keyed_push(kept@, p);
            }
            kept.push(p);
            assert(kept@.map_values(|p: PeerInfo| p@) =~= kept_peers(all.take(k + 1), cutoff as int, gone as int));
        }
        k = k + 1;
        proof {
            assert(rest@ =~= src.subrange(k as int, n as int));
            assert forall|m: int| 0 <= m < kept@.len() implies exists|j: int| 0 <= j < k && (#[trigger] kept@[m]).key() == src[j].key() by {
                if m < kept@.len() - 1 || (p.last_seen as i128) < gone {
                } else {
                    assert(kept@[m].key() == src[k - 1].key());
                }
            }
        }
    }
    assert(all.take(n as int) =~= all);
    let mut events = stale;
    events.append(&mut left);
    (RoomPeers { room_id, peers: kept }, events)
}

impl PeerDiscovery {
    /// Statistics of a room: its peers in all and by status; an unknown room is refused
    pub fn get_room_stats(&self, room_id: &str) -> (r: Result<RoomStats, QuicRtcError>)
        requires
            self.wf(),
        ensures
            !self.rooms().dom().contains(room_id@) ==> (r matches Err(QuicRtcError::RoomNotFound { room_id: rid })
                && rid@ == room_id@),
            self.rooms().dom().contains(room_id@) ==> (r matches Ok(st) && {
                let room = self.rooms()[room_id@];
                &&& st.room_id@ == room_id@
                &&& st.total_peers == room.len()
                &&& st.online_peers == with_status(room, PeerStatus::Online).len()
                &&& st.away_peers == with_status(room, PeerStatus::Away).len()
                &&& st.offline_peers == with_status(room, PeerStatus::Offline).len()
            }),
    {
        let i = match self.find_room(room_id) {
            Some(i) => i,
            None => { return Err(QuicRtcError::RoomNotFound { room_id: String::from_str(room_id) }); },
        };
        let peers = &self.rooms[i].peers;
        let ghost all = peers@.map_values(|p: PeerInfo| p@);
        let mut online: usize = 0;
        let mut away: usize = 0;
        let mut offline: usize = 0;
        let mut j: usize = 0;
        while j < peers.len()
            invariant
                j <= peers@.len(),
                all == peers@.map_values(|p: PeerInfo| p@),
                online == with_status(all.take(j as int), PeerStatus::Online).len(),
                away == with_status(all.take(j as int), PeerStatus::Away).len(),
                offline == with_status(all.take(j as int), PeerStatus::Offline).len(),
                online + away + offline == j,
            decreases peers@.len() - j,
        {
            assert(all.take(j + 1).drop_last() =~= all.take(j as int));
            match peers[j].status {
                PeerStatus::Online => { online = online + 1; },
                PeerStatus::Away => { away = away + 1; },
                PeerStatus::Offline => { offline = offline + 1; },
            }
            j = j + 1;
        }
        assert(all.take(peers@.len() as int) =~= all);
        Ok(RoomStats {
            room_id: String::from_str(room_id),
            total_peers: peers.len(),
            online_peers: online,
            away_peers: away,
            offline_peers: offline,
        })
    }

    /// Clean up at `now` (milliseconds since the Unix epoch) with a timeout in seconds: a
    /// peer not seen within the timeout is marked offline, one not seen within twice the
    /// timeout is removed, and rooms left empty are dropped (see [`cleaned_rooms`] and
    /// [`cleanup_events`])
    pub fn cleanup_offline_peers_at(&mut self, now: i64, offline_timeout: u64) -> (r: Vec<DiscoveryEvent>)
        requires
            old(self).wf(),
            offline_timeout <= i64::MAX / 1000,
        ensures
            final(self).wf(),
            final(self).spec_config() == old(self).spec_config(),
            cleaned_at(old(self).room_list(), final(self).room_list(), r@, now, offline_timeout),
    {
        let timeout_ms = (offline_timeout as i128) * 1000;
        let cutoff = (now as i128) - timeout_ms;
        let gone = cutoff - timeout_ms;
        let ghost src = self.rooms@;
        let ghost list = self.room_list();
        let mut rest: Vec<RoomPeers> = Vec::new();
        std::mem::swap(&mut rest, &mut self.rooms);
        let n = rest.len();
        let mut kept: Vec<RoomPeers> = Vec::new();
        let mut events: Vec<DiscoveryEvent> = Vec::new();
        let mut k: usize = 0;
        while rest.len() > 0
            invariant
                n == src.len(),
                list == src.map_values(|r: RoomPeers| (r.room_id, peers_of(r))),
                keys_unique(src),
                forall|j: int| 0 <= j < src.len() ==> keys_unique(#[trigger] src[j].peers@),
                k + rest@.len() == n,
                rest@ == src.subrange(k as int, n as int),
                keys_unique(kept@),
                forall|j: int| 0 <= j < kept@.len() ==> keys_unique(#[trigger] kept@[j].peers@),
                forall|m: int| 0 <= m < kept@.len() ==> exists|j: int| 0 <= j < k && (#[trigger] kept@[m]).key() == src[j].key(),
                kept@.map_values(|r: RoomPeers| (r.room_id, peers_of(r))) == cleaned_rooms(list.take(k as int), cutoff as int, gone as int),
                events@ == cleanup_events(list.take(k as int), cutoff as int, gone as int),
                self.config == old(self).config,
            decreases rest@.len(),
        {
            let room = rest.remove(0);
            proof {
                assert(room == src[k as int]);
                assert(list.take(k + 1).drop_last() =~= list.take(k as int));
                assert(list.take(k + 1).last() == (room.room_id, peers_of(room)));
            }
            let (cleaned, mut room_events) = clean_room(room, cutoff, gone);
            events.append(&mut room_events);
            if cleaned.peers.len() > 0 {
                proof {
                    if has_key(kept@, cleaned.key()) {
                        let m = choose|m: int| 0 <= m < kept@.len() && (#[trigger] kept@[m]).key() == cleaned.key();
                        let j = choose|j: int| 0 <= j < k && (#[trigger] kept@[m]).key() == src[j].key();
                        assert(src[j].key() != src[k as int].key());
                    }
                    lemma_keyed_push(kept@, cleaned);
                }
                kept.push(cleaned);
                assert(kept@.map_values(|r: RoomPeers| (r.room_id, peers_of(r))) =~= cleaned_rooms(list.take(k + 1),
                    cutoff as int, gone as int));
            }
            k = k + 1;
            proof {
                assert(rest@ =~= src.subrange(k as int, n as int));
                assert forall|m: int| 0 <= m < kept@.len() implies exists|j: int| 0 <= j < k && (#[trigger] kept@[m]).key() == src[j].key() by {
                    if m == kept@.len() - 1 && cleaned.peers@.len() > 0 {
                        assert(kept@[m].key() == src[k - 1].key());
                    }
                }
            }
        }
        assert(list.take(n as int) =~= list);
        self.rooms = kept;
        events
    }

    /// Clean up now with the configured timeout ([`Self::cleanup_offline_peers_at`] at the
    /// current time)
    pub fn cleanup_offline_peers(&mut self) -> (r: Vec<DiscoveryEvent>)
        requires
            old(self).wf(),
            old(self).spec_config().offline_timeout <= i64::MAX / 1000,
        ensures
            final(self).wf(),
            final(self).spec_config() == old(self).spec_config(),
            exists|now: i64| cleaned_at(old(self).room_list(), final(self).room_list(), r@, now,
                old(self).spec_config().offline_timeout),
    {
        let now = unix_time_millis();
        let now = if now > i64::MAX as u64 { i64::MAX } else { now as i64 };
        let timeout = self.config.offline_timeout;
        self.cleanup_offline_peers_at(now, timeout)
    }
}


impl Default for PeerDiscovery {
    fn default() -> (r: Self)
        ensures
            r.wf(),
            r.rooms().is_empty(),
    {
        PeerDiscovery::new()
    }
}

/// Every peer has exactly one status: the counts by status add up to the room's size.
pub proof fn lemma_status_counts_add_up(s: Seq<PeerView>)
    ensures
        with_status(s, PeerStatus::Online).len() + with_status(s, PeerStatus::Away).len() + with_status(
            s,
            PeerStatus::Offline,
        ).len() == s.len(),
    decreases s.len(),
{
    if s.len() > 0 {
        lemma_status_counts_add_up(s.drop_last());
    }
}

/// Adding a peer that a room does not hold, then removing it, gives the room back.
pub proof fn lemma_put_then_drop(s: Seq<PeerView>, p: PeerView)
    requires
        !has_peer(s, p.id@),
    ensures
        drop_peer(put_peer(s, p), p.id@) == s,
{
    let t = s.push(p);
    assert(t[s.len() as int].id@ == p.id@);
    let i = peer_index(t, p.id@);
    if i != s.len() {
        assert(s[i].id@ == p.id@);
    }
    assert(t.remove(s.len() as int) =~= s);
}

/// A room within its capacity stays within it when a peer is added, since a full room
/// refuses new peers.
pub proof fn lemma_put_within_capacity(s: Seq<PeerView>, p: PeerView, max: nat)
    requires
        s.len() <= max,
        s.len() < max || has_peer(s, p.id@),
    ensures
        put_peer(s, p).len() <= max,
{
}

/// Cleaning a room twice with the same limits: the second time changes nothing.
pub proof fn lemma_kept_settled(s: Seq<PeerView>, room_id: String, cutoff: int, gone: int)
    requires
        gone <= cutoff,
    ensures
        kept_peers(kept_peers(s, cutoff, gone), cutoff, gone) == kept_peers(s, cutoff, gone),
        stale_events(room_id, kept_peers(s, cutoff, gone), cutoff).len() == 0,
        gone_events(room_id, kept_peers(s, cutoff, gone), gone).len() == 0,
    decreases s.len(),
{
    if s.len() > 0 {
        let init = s.drop_last();
        lemma_kept_settled(init, room_id, cutoff, gone);
        let k = kept_peers(init, cutoff, gone);
        if !(s.last().last_seen < gone) {
            let m = mark_stale(s.last(), cutoff);
            assert(k.push(m).drop_last() =~= k);
            assert(k.push(m).last() == m);
        }
    }
}

/// Cleaning up twice at the same time: the second cleanup changes nothing and announces
/// nothing.
pub proof fn lemma_cleanup_settled(rooms: Seq<(String, Seq<PeerView>)>, cutoff: int, gone: int)
    requires
        gone <= cutoff,
    ensures
        cleaned_rooms(cleaned_rooms(rooms, cutoff, gone), cutoff, gone) == cleaned_rooms(rooms, cutoff, gone),
        cleanup_events(cleaned_rooms(rooms, cutoff, gone), cutoff, gone).len() == 0,
    decreases rooms.len(),
{
    if rooms.len() > 0 {
        let init = rooms.drop_last();
        lemma_cleanup_settled(init, cutoff, gone);
        let (id, s) = rooms.last();
        lemma_kept_settled(s, id, cutoff, gone);
        let c = cleaned_rooms(init, cutoff, gone);
        let kept = kept_peers(s, cutoff, gone);
        if kept.len() > 0 {
            assert(c.push((id, kept)).drop_last() =~= c);
            assert(c.push((id, kept)).last() == (id, kept));
        }
    }
}

} // verus!
