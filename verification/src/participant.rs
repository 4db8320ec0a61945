//! The local participant and the remote participants of a room: their tracks by ID,
//! metadata, connection and media state.
use vstd::prelude::*;
use std::time::{Duration, Instant};
use crate::assoc::StringMap;
use crate::clock::{elapsed_nanos, instant_elapsed, instant_now};
use crate::session::{entry_ids_unique, has_entry, ConnectionQuality, ParticipantConnectionState, RoomConfig};
use crate::text::same_text;

verus! {

/// The position of the entry with the ID (meaningful when there is one).
pub open spec fn entry_index<T>(s: Seq<(String, T)>, id: Seq<char>) -> int {
    choose|i: int| 0 <= i < s.len() && s[i].0@ == id
}

/// The entries with `x` put under `id`: in place of the entry with that ID if there is one,
/// else added last.
pub open spec fn put_entry<T>(s: Seq<(String, T)>, id: String, x: T) -> Seq<(String, T)> {
    if has_entry(s, id@) {
        let i = entry_index(s, id@);
        s.update(i, (s[i].0, x))
    } else {
        s.push((id, x))
    }
}

/// The entries without the one with the ID, if there is one.
pub open spec fn drop_entry<T>(s: Seq<(String, T)>, id: Seq<char>) -> Seq<(String, T)> {
    if has_entry(s, id) {
        s.remove(entry_index(s, id))
    } else {
        s
    }
}

/// Position of the entry with the ID
fn find_entry<T>(v: &Vec<(String, T)>, id: &str) -> (r: Option<usize>)
    requires
        entry_ids_unique(v@),
    ensures
        r is Some <==> has_entry(v@, id@),
        r matches Some(i) ==> i == entry_index(v@, id@) && i < v@.len() && v@[i as int].0@ == id@,
{
    let mut i: usize = 0;
    while i < v.len()
        invariant
            i <= v@.len(),
            entry_ids_unique(v@),
            forall|j: int| 0 <= j < i ==> v@[j].0@ != id@,
        decreases v@.len() - i,
    {
        if same_text(&v[i].0, id) {
            proof {
                let k = entry_index(v@, id@);
                assert(v@[k].0@ == id@);
                if k != i {
                    assert(v@[k].0@ != v@[i as int].0@);
                }
            }
            return Some(i);
        }
        i = i + 1;
    }
    None
}

/// Put `x` under `id` (see [`put_entry`])
fn put<T>(v: &mut Vec<(String, T)>, id: String, x: T)
    requires
        entry_ids_unique(old(v)@),
    ensures
        entry_ids_unique(final(v)@),
        final(v)@ == put_entry(old(v)@, id, x),
{
    let ghost before = v@;
    match find_entry(v, id.as_str()) {
        Some(i) => {
            let (name, _old) = v.remove(i);
            v.insert(i, (name, x));
            proof {
                assert(v@ =~= before.update(i as int, (before[i as int].0, x)));
                let after = v@;
                assert forall|a: int, b: int| 0 <= a < after.len() && 0 <= b < after.len() && a != b
                    implies after[a].0@ != after[b].0@ by {
                    assert(after[a].0 == before[a].0 && after[b].0 == before[b].0);
                }
            }
        },
        None => {
            v.push((id, x));
            proof {
                let after = v@;
                assert forall|a: int, b: int| 0 <= a < after.len() && 0 <= b < after.len() && a != b
                    implies after[a].0@ != after[b].0@ by {
                    if a < before.len() { assert(after[a] == before[a]); }
                    if b < before.len() { assert(after[b] == before[b]); }
                }
            }
        },
    }
}

/// Take out the entry with the ID, giving its value (see [`drop_entry`])
fn take<T>(v: &mut Vec<(String, T)>, id: &str) -> (r: Option<T>)
    requires
        entry_ids_unique(old(v)@),
    ensures
        entry_ids_unique(final(v)@),
        final(v)@ == drop_entry(old(v)@, id@),
        r is Some <==> has_entry(old(v)@, id@),
        r matches Some(x) ==> x == old(v)@[entry_index(old(v)@, id@)].1,
{
    let ghost before = v@;
    match find_entry(v, id) {
        Some(i) => {
            let (_name, x) = v.remove(i);
            proof {
                let after = v@;
                assert forall|a: int, b: int| 0 <= a < after.len() && 0 <= b < after.len() && a != b
                    implies after[a].0@ != after[b].0@ by {
                    let oa = if a < i { a } else { a + 1 };
                    let ob = if b < i { b } else { b + 1 };
                    assert(after[a] == before[oa]);
                    assert(after[b] == before[ob]);
                }
            }
            Some(x)
        },
        None => None,
    }
}

/// The value under the ID, if any
fn lookup<'a, T>(v: &'a Vec<(String, T)>, id: &str) -> (r: Option<&'a T>)
    requires
        entry_ids_unique(v@),
    ensures
        r is Some <==> has_entry(v@, id@),
        r matches Some(x) ==> *x == v@[entry_index(v@, id@)].1,
{
    match find_entry(v, id) {
        Some(i) => Some(&v[i].1),
        None => None,
    }
}

/// All values, in order
fn values_of<T>(v: &Vec<(String, T)>) -> (r: Vec<&T>)
    ensures
        r@.len() == v@.len(),
        forall|i: int| 0 <= i < r@.len() ==> *r@[i] == v@[i].1,
{
    let mut r: Vec<&T> = Vec::new();
    let mut i: usize = 0;
    while i < v.len()
        invariant
            i <= v@.len(),
            r@.len() == i,
            forall|j: int| 0 <= j < i ==> *r@[j] == v@[j].1,
        decreases v@.len() - i,
    {
        r.push(&v[i].1);
        i = i + 1;
    }
    r
}

/// Local participant representation; its tracks are of type `T`, kept by track ID
#[derive(Debug)]
pub struct LocalParticipant<T> {
    id: String,
    name: Option<String>,
    room_config: RoomConfig,
    local_tracks: Vec<(String, T)>,
    metadata: StringMap,
    created_at: Instant,
    connection_state: ParticipantConnectionState,
    is_speaking: bool,
    is_muted: bool,
    video_disabled: bool,
}

/// The state of a participant that its flags and names describe.
pub struct ParticipantState {
    pub id: Seq<char>,
    pub name: Option<Seq<char>>,
    pub metadata: Map<Seq<char>, Seq<char>>,
    pub connection_state: ParticipantConnectionState,
    pub is_speaking: bool,
    pub is_muted: bool,
    pub video_disabled: bool,
}

/// The name as text.
pub open spec fn name_view(n: Option<String>) -> Option<Seq<char>> {
    match n {
        Some(s) => Some(s@),
        None => None,
    }
}

impl<T> LocalParticipant<T> {
    /// The participant's state apart from its tracks and configuration
    pub closed spec fn state(&self) -> ParticipantState {
        ParticipantState {
            id: self.id@,
            name: name_view(self.name),
            metadata: self.metadata@,
            connection_state: self.connection_state,
            is_speaking: self.is_speaking,
            is_muted: self.is_muted,
            video_disabled: self.video_disabled,
        }
    }

    /// The tracks under their IDs, in the order of their first addition
    pub closed spec fn tracks(&self) -> Seq<(String, T)> {
        self.local_tracks@
    }

    /// The room configuration given at creation
    pub closed spec fn spec_room_config(&self) -> RoomConfig {
        self.room_config
    }

    /// Track IDs are distinct.
    pub closed spec fn wf(&self) -> bool {
        entry_ids_unique(self.local_tracks@)
    }

    /// A connected participant without name, tracks or metadata, neither speaking, muted nor
    /// with video disabled, created now
    pub fn new(id: String, room_config: RoomConfig) -> (r: Self)
        ensures
            r.wf(),
            r.state() == (ParticipantState {
                id: id@,
                name: None,
                metadata: Map::empty(),
                connection_state: ParticipantConnectionState::Connected,
                is_speaking: false,
                is_muted: false,
                video_disabled: false,
            }),
            r.tracks().len() == 0,
            r.spec_room_config() == room_config,
    {
        LocalParticipant {
            id,
            name: None,
            room_config,
            local_tracks: Vec::new(),
            metadata: StringMap::new(),
            created_at: instant_now(),
            connection_state: ParticipantConnectionState::Connected,
            is_speaking: false,
            is_muted: false,
            video_disabled: false,
        }
    }

    /// A new participant (see [`Self::new`]) with a display name
    pub fn new_with_name(id: String, name: String, room_config: RoomConfig) -> (r: Self)
        ensures
            r.wf(),
            r.state() == (ParticipantState {
                id: id@,
                name: Some(name@),
                metadata: Map::empty(),
                connection_state: ParticipantConnectionState::Connected,
                is_speaking: false,
                is_muted: false,
                video_disabled: false,
            }),
            r.tracks().len() == 0,
            r.spec_room_config() == room_config,
    {
        let mut participant = Self::new(id, room_config);
        participant.name = Some(name);
        participant
    }

    /// Participant ID
    pub fn id(&self) -> (r: &str)
        ensures
            r@ == self.state().id,
    {
        self.id.as_str()
    }

    /// Display name
    pub fn name(&self) -> (r: Option<&str>)
        ensures
            self.state().name is None ==> r is None,
            self.state().name matches Some(n) ==> (r matches Some(s) && s@ == n),
    {
        match &self.name {
            Some(n) => Some(n.as_str()),
            None => None,
        }
    }

    /// Set the display name
    pub fn set_name(&mut self, name: Option<String>)
        ensures
            final(self).state() == (ParticipantState { name: name_view(name), ..old(self).state() }),
            final(self).tracks() == old(self).tracks(),
            final(self).spec_room_config() == old(self).spec_room_config(),
            final(self).wf() == old(self).wf(),
    {
        self.name = name;
    }

    /// The room configuration given at creation
    pub fn room_config(&self) -> (r: &RoomConfig)
        ensures
            *r == self.spec_room_config(),
    {
        &self.room_config
    }

    /// Add a track under its ID, in place of a track with the same ID
    pub fn add_local_track(&mut self, track_id: String, track: T)
        requires
            old(self).wf(),
        ensures
            final(self).wf(),
            final(self).tracks() == put_entry(old(self).tracks(), track_id, track),
            final(self).state() == old(self).state(),
            final(self).spec_room_config() == old(self).spec_room_config(),
    {
        put(&mut self.local_tracks, track_id, track);
    }

    /// Remove the track with the ID, giving it back if there was one
    pub fn remove_local_track(&mut self, track_id: &str) -> (r: Option<T>)
        requires
            old(self).wf(),
        ensures
            final(self).wf(),
            final(self).tracks() == drop_entry(old(self).tracks(), track_id@),
            r is Some <==> has_entry(old(self).tracks(), track_id@),
            r matches Some(t) ==> t == old(self).tracks()[entry_index(old(self).tracks(), track_id@)].1,
            final(self).state() == old(self).state(),
            final(self).spec_room_config() == old(self).spec_room_config(),
    {
        take(&mut self.local_tracks, track_id)
    }

    /// The track with the ID, if any
    pub fn get_local_track(&self, track_id: &str) -> (r: Option<&T>)
        requires
            self.wf(),
        ensures
            r is Some <==> has_entry(self.tracks(), track_id@),
            r matches Some(t) ==> *t == self.tracks()[entry_index(self.tracks(), track_id@)].1,
    {
        lookup(&self.local_tracks, track_id)
    }

    /// All tracks, in the order of their first addition
    pub fn local_tracks(&self) -> (r: Vec<&T>)
        ensures
            r@.len() == self.tracks().len(),
            forall|i: int| 0 <= i < r@.len() ==> *r@[i] == self.tracks()[i].1,
    {
        values_of(&self.local_tracks)
    }

    /// The metadata
    pub fn metadata(&self) -> (r: &StringMap)
        ensures
            r@ == self.state().metadata,
    {
        &self.metadata
    }

    /// Set a metadata value
    pub fn set_metadata(&mut self, key: String, value: String)
        ensures
            final(self).state() == (ParticipantState {
                metadata: old(self).state().metadata.insert(key@, value@),
                ..old(self).state()
            }),
            final(self).tracks() == old(self).tracks(),
            final(self).spec_room_config() == old(self).spec_room_config(),
            final(self).wf() == old(self).wf(),
    {
        self.metadata.insert(key, value);
    }

    /// Remove a metadata value, giving it back if there was one
    pub fn remove_metadata(&mut self, key: &str) -> (r: Option<String>)
        ensures
            final(self).state() == (ParticipantState {
                metadata: old(self).state().metadata.remove(key@),
                ..old(self).state()
            }),
            r is Some <==> old(self).state().metadata.dom().contains(key@),
            r matches Some(v) ==> v@ == old(self).state().metadata[key@],
            final(self).tracks() == old(self).tracks(),
            final(self).spec_room_config() == old(self).spec_room_config(),
            final(self).wf() == old(self).wf(),
    {
        self.metadata.remove(&String::from_str(key))
    }

    /// Connection state
    pub fn connection_state(&self) -> (r: ParticipantConnectionState)
        ensures
            r == self.state().connection_state,
    {
        self.connection_state
    }

    /// Set the connection state
    pub fn set_connection_state(&mut self, state: ParticipantConnectionState)
        ensures
            final(self).state() == (ParticipantState { connection_state: state, ..old(self).state() }),
            final(self).tracks() == old(self).tracks(),
            final(self).spec_room_config() == old(self).spec_room_config(),
            final(self).wf() == old(self).wf(),
    {
        if self.connection_state != state {
            self.connection_state = state;
        }
    }

    /// Whether the participant is speaking
    pub fn is_speaking(&self) -> (r: bool)
        ensures
            r == self.state().is_speaking,
    {
        self.is_speaking
    }

    /// Set the speaking state
    pub fn set_speaking(&mut self, speaking: bool)
        ensures
            final(self).state() == (ParticipantState { is_speaking: speaking, ..old(self).state() }),
            final(self).tracks() == old(self).tracks(),
            final(self).spec_room_config() == old(self).spec_room_config(),
            final(self).wf() == old(self).wf(),
    {
        if self.is_speaking != speaking {
            self.is_speaking = speaking;
        }
    }

    /// Whether the participant is muted
    pub fn is_muted(&self) -> (r: bool)
        ensures
            r == self.state().is_muted,
    {
        self.is_muted
    }

    /// Set the muted state
    pub fn set_muted(&mut self, muted: bool)
        ensures
            final(self).state() == (ParticipantState { is_muted: muted, ..old(self).state() }),
            final(self).tracks() == old(self).tracks(),
            final(self).spec_room_config() == old(self).spec_room_config(),
            final(self).wf() == old(self).wf(),
    {
        if self.is_muted != muted {
            self.is_muted = muted;
        }
    }

    /// Whether the participant's video is disabled
    pub fn is_video_disabled(&self) -> (r: bool)
        ensures
            r == self.state().video_disabled,
    {
        self.video_disabled
    }

    /// Set the video disabled state
    pub fn set_video_disabled(&mut self, disabled: bool)
        ensures
            final(self).state() == (ParticipantState { video_disabled: disabled, ..old(self).state() }),
            final(self).tracks() == old(self).tracks(),
            final(self).spec_room_config() == old(self).spec_room_config(),
            final(self).wf() == old(self).wf(),
    {
        if self.video_disabled != disabled {
            self.video_disabled = disabled;
        }
    }

    /// The instant the participant was created, read from the clock at creation
    pub closed spec fn spec_created_at(&self) -> Instant {
        self.created_at
    }

    /// When the participant was created
    pub fn created_at(&self) -> (r: Instant)
        ensures
            r == self.spec_created_at(),
    {
        self.created_at
    }

    /// How long the participant has been in the room
    pub fn duration_in_room(&self) -> Duration {
        instant_elapsed(&self.created_at)
    }
}

/// Remote participant representation; its tracks are of type `T`, kept by track ID
#[derive(Debug)]
pub struct RemoteParticipant<T> {
    id: String,
    name: Option<String>,
    remote_tracks: Vec<(String, T)>,
    metadata: StringMap,
    joined_at: Instant,
    last_seen: Option<Instant>,
    connection_state: ParticipantConnectionState,
    connection_quality: ConnectionQuality,
    is_speaking: bool,
    is_muted: bool,
    video_disabled: bool,
}

impl<T> RemoteParticipant<T> {
    /// The participant's state apart from its tracks and times
    pub closed spec fn state(&self) -> ParticipantState {
        ParticipantState {
            id: self.id@,
            name: name_view(self.name),
            metadata: self.metadata@,
            connection_state: self.connection_state,
            is_speaking: self.is_speaking,
            is_muted: self.is_muted,
            video_disabled: self.video_disabled,
        }
    }

    /// The connection quality
    pub closed spec fn quality(&self) -> ConnectionQuality {
        self.connection_quality
    }

    /// Whether the participant was ever seen
    pub closed spec fn seen(&self) -> bool {
        self.last_seen is Some
    }

    /// The tracks under their IDs, in the order of their first addition
    pub closed spec fn tracks(&self) -> Seq<(String, T)> {
        self.remote_tracks@
    }

    /// Track IDs are distinct.
    pub closed spec fn wf(&self) -> bool {
        entry_ids_unique(self.remote_tracks@)
    }

    /// A connecting participant of unknown connection quality, without name, tracks or
    /// metadata, never seen, neither speaking, muted nor with video disabled, joined now
    pub fn new(id: String) -> (r: Self)
        ensures
            r.wf(),
            r.state() == (ParticipantState {
                id: id@,
                name: None,
                metadata: Map::empty(),
                connection_state: ParticipantConnectionState::Connecting,
                is_speaking: false,
                is_muted: false,
                video_disabled: false,
            }),
            r.quality() == ConnectionQuality::Unknown,
            !r.seen(),
            r.tracks().len() == 0,
    {
        RemoteParticipant {
            id,
            name: None,
            remote_tracks: Vec::new(),
            metadata: StringMap::new(),
            joined_at: instant_now(),
            last_seen: None,
            connection_state: ParticipantConnectionState::Connecting,
            connection_quality: ConnectionQuality::Unknown,
            is_speaking: false,
            is_muted: false,
            video_disabled: false,
        }
    }

    /// A new participant (see [`Self::new`]) with a display name
    pub fn new_with_name(id: String, name: String) -> (r: Self)
        ensures
            r.wf(),
            r.state() == (ParticipantState {
                id: id@,
                name: Some(name@),
                metadata: Map::empty(),
                connection_state: ParticipantConnectionState::Connecting,
                is_speaking: false,
                is_muted: false,
                video_disabled: false,
            }),
            r.quality() == ConnectionQuality::Unknown,
            !r.seen(),
            r.tracks().len() == 0,
    {
        let mut participant = Self::new(id);
        participant.name = Some(name);
        participant
    }

    /// Participant ID
    pub fn id(&self) -> (r: &str)
        ensures
            r@ == self.state().id,
    {
        self.id.as_str()
    }

    /// Display name
    pub fn name(&self) -> (r: Option<&str>)
        ensures
            self.state().name is None ==> r is None,
            self.state().name matches Some(n) ==> (r matches Some(s) && s@ == n),
    {
        match &self.name {
            Some(n) => Some(n.as_str()),
            None => None,
        }
    }

    /// Set the display name
    pub fn set_name(&mut self, name: Option<String>)
        ensures
            final(self).state() == (ParticipantState { name: name_view(name), ..old(self).state() }),
            final(self).tracks() == old(self).tracks(),
            final(self).quality() == old(self).quality(),
            final(self).seen() == old(self).seen(),
            final(self).wf() == old(self).wf(),
    {
        self.name = name;
    }

    /// Add a track under its ID, in place of a track with the same ID
    pub fn add_remote_track(&mut self, track_id: String, track: T)
        requires
            old(self).wf(),
        ensures
            final(self).wf(),
            final(self).tracks() == put_entry(old(self).tracks(), track_id, track),
            final(self).state() == old(self).state(),
            final(self).quality() == old(self).quality(),
            final(self).seen() == old(self).seen(),
    {
        put(&mut self.remote_tracks, track_id, track);
    }

    /// Remove the track with the ID, giving it back if there was one
    pub fn remove_remote_track(&mut self, track_id: &str) -> (r: Option<T>)
        requires
            old(self).wf(),
        ensures
            final(self).wf(),
            final(self).tracks() == drop_entry(old(self).tracks(), track_id@),
            r is Some <==> has_entry(old(self).tracks(), track_id@),
            r matches Some(t) ==> t == old(self).tracks()[entry_index(old(self).tracks(), track_id@)].1,
            final(self).state() == old(self).state(),
            final(self).quality() == old(self).quality(),
            final(self).seen() == old(self).seen(),
    {
        take(&mut self.remote_tracks, track_id)
    }

    /// The track with the ID, if any
    pub fn get_remote_track(&self, track_id: &str) -> (r: Option<&T>)
        requires
            self.wf(),
        ensures
            r is Some <==> has_entry(self.tracks(), track_id@),
            r matches Some(t) ==> *t == self.tracks()[entry_index(self.tracks(), track_id@)].1,
    {
        lookup(&self.remote_tracks, track_id)
    }

    /// All tracks, in the order of their first addition
    pub fn remote_tracks(&self) -> (r: Vec<&T>)
        ensures
            r@.len() == self.tracks().len(),
            forall|i: int| 0 <= i < r@.len() ==> *r@[i] == self.tracks()[i].1,
    {
        values_of(&self.remote_tracks)
    }

    /// The metadata
    pub fn metadata(&self) -> (r: &StringMap)
        ensures
            r@ == self.state().metadata,
    {
        &self.metadata
    }

    /// Set a metadata value
    pub fn set_metadata(&mut self, key: String, value: String)
        ensures
            final(self).state() == (ParticipantState {
                metadata: old(self).state().metadata.insert(key@, value@),
                ..old(self).state()
            }),
            final(self).tracks() == old(self).tracks(),
            final(self).quality() == old(self).quality(),
            final(self).seen() == old(self).seen(),
            final(self).wf() == old(self).wf(),
    {
        self.metadata.insert(key, value);
    }

    /// Remove a metadata value, giving it back if there was one
    pub fn remove_metadata(&mut self, key: &str) -> (r: Option<String>)
        ensures
            final(self).state() == (ParticipantState {
                metadata: old(self).state().metadata.remove(key@),
                ..old(self).state()
            }),
            r is Some <==> old(self).state().metadata.dom().contains(key@),
            r matches Some(v) ==> v@ == old(self).state().metadata[key@],
            final(self).tracks() == old(self).tracks(),
            final(self).quality() == old(self).quality(),
            final(self).seen() == old(self).seen(),
            final(self).wf() == old(self).wf(),
    {
        self.metadata.remove(&String::from_str(key))
    }

    /// The instant the participant joined, read from the clock at creation
    pub closed spec fn spec_joined_at(&self) -> Instant {
        self.joined_at
    }

    /// When the participant joined
    pub fn joined_at(&self) -> (r: Instant)
        ensures
            r == self.spec_joined_at(),
    {
        self.joined_at
    }

    /// When the participant was last seen, if ever
    pub fn last_seen(&self) -> (r: Option<Instant>)
        ensures
            r is Some <==> self.seen(),
    {
        self.last_seen
    }

    /// Mark the participant seen now
    pub fn update_last_seen(&mut self)
        ensures
            final(self).seen(),
            final(self).state() == old(self).state(),
            final(self).tracks() == old(self).tracks(),
            final(self).quality() == old(self).quality(),
            final(self).wf() == old(self).wf(),
    {
        self.last_seen = Some(instant_now());
    }

    /// How long the participant has been in the room
    pub fn duration_in_room(&self) -> Duration {
        instant_elapsed(&self.joined_at)
    }

    /// Connection state
    pub fn connection_state(&self) -> (r: ParticipantConnectionState)
        ensures
            r == self.state().connection_state,
    {
        self.connection_state
    }

    /// Set the connection state
    pub fn set_connection_state(&mut self, state: ParticipantConnectionState)
        ensures
            final(self).state() == (ParticipantState { connection_state: state, ..old(self).state() }),
            final(self).tracks() == old(self).tracks(),
            final(self).quality() == old(self).quality(),
            final(self).seen() == old(self).seen(),
            final(self).wf() == old(self).wf(),
    {
        if self.connection_state != state {
            self.connection_state = state;
        }
    }

    /// Connection quality
    pub fn connection_quality(&self) -> (r: ConnectionQuality)
        ensures
            r == self.quality(),
    {
        self.connection_quality
    }

    /// Set the connection quality
    pub fn set_connection_quality(&mut self, quality: ConnectionQuality)
        ensures
            final(self).quality() == quality,
            final(self).state() == old(self).state(),
            final(self).tracks() == old(self).tracks(),
            final(self).seen() == old(self).seen(),
            final(self).wf() == old(self).wf(),
    {
        if self.connection_quality != quality {
            self.connection_quality = quality;
        }
    }

    /// Whether the participant is speaking
    pub fn is_speaking(&self) -> (r: bool)
        ensures
            r == self.state().is_speaking,
    {
        self.is_speaking
    }

    /// Set the speaking state
    pub fn set_speaking(&mut self, speaking: bool)
        ensures
            final(self).state() == (ParticipantState { is_speaking: speaking, ..old(self).state() }),
            final(self).tracks() == old(self).tracks(),
            final(self).quality() == old(self).quality(),
            final(self).seen() == old(self).seen(),
            final(self).wf() == old(self).wf(),
    {
        if self.is_speaking != speaking {
            self.is_speaking = speaking;
        }
    }

    /// Whether the participant is muted
    pub fn is_muted(&self) -> (r: bool)
        ensures
            r == self.state().is_muted,
    {
        self.is_muted
    }

    /// Set the muted state
    pub fn set_muted(&mut self, muted: bool)
        ensures
            final(self).state() == (ParticipantState { is_muted: muted, ..old(self).state() }),
            final(self).tracks() == old(self).tracks(),
            final(self).quality() == old(self).quality(),
            final(self).seen() == old(self).seen(),
            final(self).wf() == old(self).wf(),
    {
        if self.is_muted != muted {
            self.is_muted = muted;
        }
    }

    /// Whether the participant's video is disabled
    pub fn is_video_disabled(&self) -> (r: bool)
        ensures
            r == self.state().video_disabled,
    {
        self.video_disabled
    }

    /// Set the video disabled state
    pub fn set_video_disabled(&mut self, disabled: bool)
        ensures
            final(self).state() == (ParticipantState { video_disabled: disabled, ..old(self).state() }),
            final(self).tracks() == old(self).tracks(),
            final(self).quality() == old(self).quality(),
            final(self).seen() == old(self).seen(),
            final(self).wf() == old(self).wf(),
    {
        if self.video_disabled != disabled {
            self.video_disabled = disabled;
        }
    }

    /// Whether the participant is connected
    pub fn is_connected(&self) -> (r: bool)
        ensures
            r == (self.state().connection_state == ParticipantConnectionState::Connected),
    {
        self.connection_state == ParticipantConnectionState::Connected
    }

    /// Whether the participant counts as active when `nanos_since_seen` nanoseconds have
    /// passed since it was last seen: it was seen, less than 30 seconds ago
    pub fn active_after(&self, nanos_since_seen: u128) -> (r: bool)
        ensures
            r == (self.seen() && nanos_since_seen < 30_000_000_000),
    {
        self.last_seen.is_some() && nanos_since_seen < 30_000_000_000
    }

    /// Whether the participant was seen within the last 30 seconds (see
    /// [`Self::active_after`], with the time elapsed on the clock); never for one never seen
    pub fn is_active(&self) -> (r: bool)
        ensures
            !self.seen() ==> !r,
    {
        match &self.last_seen {
            Some(t) => self.active_after(elapsed_nanos(t)),
            None => false,
        }
    }
}

/// Adding a track under an ID makes it the track found under that ID, and removing it
/// afterwards takes that track out again.
pub proof fn lemma_put_then_take<T>(s: Seq<(String, T)>, id: String, x: T)
    requires
        entry_ids_unique(s),
    ensures
        has_entry(put_entry(s, id, x), id@),
        put_entry(s, id, x)[entry_index(put_entry(s, id, x), id@)].1 == x,
        !has_entry(s, id@) ==> drop_entry(put_entry(s, id, x), id@) == s,
{
    let t = put_entry(s, id, x);
    if has_entry(s, id@) {
        let i = entry_index(s, id@);
        assert(t[i].0@ == id@);
        let k = entry_index(t, id@);
        if k != i {
            assert(t[k].0 == s[k].0);
            assert(s[k].0@ != s[i].0@);
        }
    } else {
        let n = s.len() as int;
        assert(t[n].0@ == id@);
        let k = entry_index(t, id@);
        if k != n {
            assert(t[k] == s[k]);
        }
        assert(t.remove(n) =~= s);
    }
}

} // verus!
