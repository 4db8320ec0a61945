//! Session-level logic: states and ratings of participants, tracks and rooms, the
//! filtering of room events, the remote participants of a room, and the checks a room
//! configuration must pass.
use vstd::prelude::*;
use crate::codecs::VideoQuality;
use crate::error::QuicRtcError;
use crate::text::{decimal_digits, push_decimal, push_str, same_text};

verus! {

/// Participant connection state
#[derive(Debug, Clone, Copy, PartialEq, Eq, Structural)]
pub enum ParticipantConnectionState {
    /// Participant is connecting
    Connecting,
    /// Participant is connected and active
    Connected,
    /// Participant is reconnecting after connection loss
    Reconnecting,
    /// Participant has disconnected
    Disconnected,
    /// Participant connection failed
    Failed,
}

/// Connection quality rating
#[derive(Debug, Clone, Copy, PartialEq, Eq, Structural)]
pub enum ConnectionQuality {
    /// Quality unknown or not measured yet
    Unknown,
    /// Excellent connection quality
    Excellent,
    /// Good connection quality
    Good,
    /// Fair connection quality
    Fair,
    /// Poor connection quality
    Poor,
    /// Very poor connection quality
    VeryPoor,
}

/// Room connection state
#[derive(Debug, Clone, Copy, PartialEq, Eq, Structural)]
pub enum RoomState {
    /// Room is disconnected
    Disconnected,
    /// Room is connecting
    Connecting,
    /// Room is connected and ready
    Connected,
    /// Room is reconnecting after connection loss
    Reconnecting,
    /// Room is disconnecting
    Disconnecting,
}

/// Track kind enumeration
#[derive(Debug, Clone, Copy, PartialEq, Eq, Structural)]
pub enum TrackKind {
    /// Audio track
    Audio,
    /// Video track
    Video,
}

/// The name of a track kind.
pub open spec fn track_kind_name(k: TrackKind) -> Seq<char> {
    match k {
        TrackKind::Audio => "audio"@,
        TrackKind::Video => "video"@,
    }
}

impl TrackKind {
    /// The kind's name, as displayed
    pub fn as_str(&self) -> (r: &'static str)
        ensures
            r@ == track_kind_name(*self),
    {
        match self {
            TrackKind::Audio => "audio",
            TrackKind::Video => "video",
        }
    }
}

/// Track source enumeration
#[derive(Debug, Clone, Copy, PartialEq, Eq, Structural)]
pub enum TrackSource {
    /// Camera/webcam video
    Camera,
    /// Microphone audio
    Microphone,
    /// Screen sharing video
    Screen,
    /// Application sharing video
    Application,
    /// System audio (like desktop audio)
    SystemAudio,
    /// File playback
    File,
    /// Other/unknown source
    Unknown,
}

/// The name of a track source.
pub open spec fn track_source_name(s: TrackSource) -> Seq<char> {
    match s {
        TrackSource::Camera => "camera"@,
        TrackSource::Microphone => "microphone"@,
        TrackSource::Screen => "screen"@,
        TrackSource::Application => "application"@,
        TrackSource::SystemAudio => "system_audio"@,
        TrackSource::File => "file"@,
        TrackSource::Unknown => "unknown"@,
    }
}

impl TrackSource {
    /// The source's name, as displayed
    pub fn as_str(&self) -> (r: &'static str)
        ensures
            r@ == track_source_name(*self),
    {
        match self {
            TrackSource::Camera => "camera",
            TrackSource::Microphone => "microphone",
            TrackSource::Screen => "screen",
            TrackSource::Application => "application",
            TrackSource::SystemAudio => "system_audio",
            TrackSource::File => "file",
            TrackSource::Unknown => "unknown",
        }
    }
}

/// Track state enumeration
#[derive(Debug, Clone, Copy, PartialEq, Eq, Structural)]
pub enum TrackState {
    /// Track is ready for operation
    Ready,
    /// Track is actively publishing (local tracks)
    Publishing,
    /// Track is actively receiving (remote tracks)
    Receiving,
    /// Track is paused
    Paused,
    /// Track has failed
    Failed,
    /// Track is ending
    Ending,
    /// Track has ended
    Ended,
}

/// Track quality rating
#[derive(Debug, Clone, Copy, PartialEq, Eq, Structural)]
pub enum TrackQuality {
    /// Quality unknown
    Unknown,
    /// Excellent quality
    Excellent,
    /// Good quality
    Good,
    /// Fair quality
    Fair,
    /// Poor quality
    Poor,
    /// Very poor quality
    VeryPoor,
}

/// Quality rating enumeration
#[derive(Debug, Clone, Copy, PartialEq, Eq, Structural)]
pub enum QualityRating {
    /// Connection quality is unknown
    Unknown,
    /// Excellent connection quality
    Excellent,
    /// Good connection quality
    Good,
    /// Fair connection quality
    Fair,
    /// Poor connection quality
    Poor,
    /// Very poor connection quality
    VeryPoor,
}

/// The rating of a quality score: 80 to 100 excellent, 60 to 79 good, 40 to 59 fair,
/// 20 to 39 poor, 0 to 19 very poor; a score above 100 is unknown.
pub open spec fn rating_of_score(score: u8) -> QualityRating {
    if score > 100 {
        QualityRating::Unknown
    } else if score >= 80 {
        QualityRating::Excellent
    } else if score >= 60 {
        QualityRating::Good
    } else if score >= 40 {
        QualityRating::Fair
    } else if score >= 20 {
        QualityRating::Poor
    } else {
        QualityRating::VeryPoor
    }
}

/// The quality rating of an overall score (see [`rating_of_score`])
pub fn quality_rating_of(overall_score: u8) -> (r: QualityRating)
    ensures
        r == rating_of_score(overall_score),
{
    if overall_score > 100 {
        QualityRating::Unknown
    } else if overall_score >= 80 {
        QualityRating::Excellent
    } else if overall_score >= 60 {
        QualityRating::Good
    } else if overall_score >= 40 {
        QualityRating::Fair
    } else if overall_score >= 20 {
        QualityRating::Poor
    } else {
        QualityRating::VeryPoor
    }
}

/// The track quality of a rating.
pub open spec fn track_quality_of_rating(r: QualityRating) -> TrackQuality {
    match r {
        QualityRating::Unknown => TrackQuality::Unknown,
        QualityRating::Excellent => TrackQuality::Excellent,
        QualityRating::Good => TrackQuality::Good,
        QualityRating::Fair => TrackQuality::Fair,
        QualityRating::Poor => TrackQuality::Poor,
        QualityRating::VeryPoor => TrackQuality::VeryPoor,
    }
}

/// A track's quality: from its quality score when there is one (as for
/// [`rating_of_score`]), else good or poor as its statistics are good or not
pub fn track_quality_rating(quality_score: Option<u8>, is_good_quality: bool) -> (r: TrackQuality)
    ensures
        quality_score matches Some(s) ==> r == track_quality_of_rating(rating_of_score(s)),
        quality_score is None ==> r == if is_good_quality { TrackQuality::Good } else { TrackQuality::Poor },
{
    match quality_score {
        Some(score) => match quality_rating_of(score) {
            QualityRating::Unknown => TrackQuality::Unknown,
            QualityRating::Excellent => TrackQuality::Excellent,
            QualityRating::Good => TrackQuality::Good,
            QualityRating::Fair => TrackQuality::Fair,
            QualityRating::Poor => TrackQuality::Poor,
            QualityRating::VeryPoor => TrackQuality::VeryPoor,
        },
        None => if is_good_quality { TrackQuality::Good } else { TrackQuality::Poor },
    }
}

/// Global configuration
#[derive(Debug)]
pub struct GlobalConfig {
    /// Enable debug logging
    pub debug_logging: bool,
    /// Maximum number of concurrent rooms
    pub max_rooms: usize,
    /// Default signaling server URL
    pub default_signaling_url: Option<String>,
}

impl Default for GlobalConfig {
    fn default() -> (r: GlobalConfig)
        ensures
            !r.debug_logging && r.max_rooms == 10 && r.default_signaling_url is None,
    {
        GlobalConfig { debug_logging: false, max_rooms: 10, default_signaling_url: None }
    }
}

/// Room-specific configuration
#[derive(Debug)]
pub struct RoomConfig {
    /// Enable video
    pub video_enabled: bool,
    /// Enable audio
    pub audio_enabled: bool,
    /// Video quality preset
    pub video_quality: VideoQuality,
    /// Signaling server URL
    pub signaling_url: Option<String>,
    /// Enable mobile optimizations
    pub mobile_optimizations: bool,
}

impl Default for RoomConfig {
    fn default() -> (r: RoomConfig)
        ensures
            !r.video_enabled && !r.audio_enabled && r.video_quality == VideoQuality::Standard
                && r.signaling_url is None && !r.mobile_optimizations,
    {
        RoomConfig {
            video_enabled: false,
            audio_enabled: false,
            video_quality: VideoQuality::Standard,
            signaling_url: None,
            mobile_optimizations: false,
        }
    }
}


/// The kind of a room event, which decides how the event is filtered
#[derive(Debug, Clone, Copy, PartialEq, Eq, Structural)]
pub enum EventKind {
    /// A participant joined the room
    ParticipantJoined,
    /// A participant left the room
    ParticipantLeft,
    /// A participant's connection state changed
    ParticipantConnectionChanged,
    /// A participant started speaking
    ParticipantStartedSpeaking,
    /// A participant stopped speaking
    ParticipantStoppedSpeaking,
    /// A track was received from a remote participant
    TrackReceived,
    /// A track was removed by a remote participant
    TrackRemoved,
    /// A local track was published
    LocalTrackPublished,
    /// A local track was unpublished
    LocalTrackUnpublished,
    /// A track's mute state changed
    TrackMuteChanged,
    /// Room connection state changed
    RoomConnectionChanged,
    /// Network quality changed for the room
    NetworkQualityChanged,
    /// An error occurred in the room
    RoomError,
    /// Room was disconnected
    RoomDisconnected,
    /// Room is reconnecting
    RoomReconnecting,
    /// Room successfully reconnected
    RoomReconnected,
}

/// The type name of each kind of event.
pub open spec fn event_type_name(k: EventKind) -> Seq<char> {
    match k {
        EventKind::ParticipantJoined => "participant_joined"@,
        EventKind::ParticipantLeft => "participant_left"@,
        EventKind::ParticipantConnectionChanged => "participant_connection_changed"@,
        EventKind::ParticipantStartedSpeaking => "participant_started_speaking"@,
        EventKind::ParticipantStoppedSpeaking => "participant_stopped_speaking"@,
        EventKind::TrackReceived => "track_received"@,
        EventKind::TrackRemoved => "track_removed"@,
        EventKind::LocalTrackPublished => "local_track_published"@,
        EventKind::LocalTrackUnpublished => "local_track_unpublished"@,
        EventKind::TrackMuteChanged => "track_mute_changed"@,
        EventKind::RoomConnectionChanged => "room_connection_changed"@,
        EventKind::NetworkQualityChanged => "network_quality_changed"@,
        EventKind::RoomError => "room_error"@,
        EventKind::RoomDisconnected => "room_disconnected"@,
        EventKind::RoomReconnecting => "room_reconnecting"@,
        EventKind::RoomReconnected => "room_reconnected"@,
    }
}

/// Participant events: joins, departures, connection changes and speaking.
pub open spec fn is_participant_kind(k: EventKind) -> bool {
    k == EventKind::ParticipantJoined || k == EventKind::ParticipantLeft || k == EventKind::ParticipantConnectionChanged
        || k == EventKind::ParticipantStartedSpeaking || k == EventKind::ParticipantStoppedSpeaking
}

/// Track events: tracks received, removed, published, unpublished and muted.
pub open spec fn is_track_kind(k: EventKind) -> bool {
    k == EventKind::TrackReceived || k == EventKind::TrackRemoved || k == EventKind::LocalTrackPublished
        || k == EventKind::LocalTrackUnpublished || k == EventKind::TrackMuteChanged
}

/// Connection events: the room's connection and network quality.
pub open spec fn is_connection_kind(k: EventKind) -> bool {
    k == EventKind::RoomConnectionChanged || k == EventKind::NetworkQualityChanged || k == EventKind::RoomDisconnected
        || k == EventKind::RoomReconnecting || k == EventKind::RoomReconnected
}

impl EventKind {
    /// The event type as a string
    pub fn event_type(&self) -> (r: &'static str)
        ensures
            r@ == event_type_name(*self),
    {
        match self {
            EventKind::ParticipantJoined => "participant_joined",
            EventKind::ParticipantLeft => "participant_left",
            EventKind::ParticipantConnectionChanged => "participant_connection_changed",
            EventKind::ParticipantStartedSpeaking => "participant_started_speaking",
            EventKind::ParticipantStoppedSpeaking => "participant_stopped_speaking",
            EventKind::TrackReceived => "track_received",
            EventKind::TrackRemoved => "track_removed",
            EventKind::LocalTrackPublished => "local_track_published",
            EventKind::LocalTrackUnpublished => "local_track_unpublished",
            EventKind::TrackMuteChanged => "track_mute_changed",
            EventKind::RoomConnectionChanged => "room_connection_changed",
            EventKind::NetworkQualityChanged => "network_quality_changed",
            EventKind::RoomError => "room_error",
            EventKind::RoomDisconnected => "room_disconnected",
            EventKind::RoomReconnecting => "room_reconnecting",
            EventKind::RoomReconnected => "room_reconnected",
        }
    }

    /// Whether this is a participant-related event
    pub fn is_participant_event(&self) -> (r: bool)
        ensures
            r == is_participant_kind(*self),
    {
        match self {
            EventKind::ParticipantJoined | EventKind::ParticipantLeft | EventKind::ParticipantConnectionChanged
            | EventKind::ParticipantStartedSpeaking | EventKind::ParticipantStoppedSpeaking => true,
            _ => false,
        }
    }

    /// Whether this is a track-related event
    pub fn is_track_event(&self) -> (r: bool)
        ensures
            r == is_track_kind(*self),
    {
        match self {
            EventKind::TrackReceived | EventKind::TrackRemoved | EventKind::LocalTrackPublished
            | EventKind::LocalTrackUnpublished | EventKind::TrackMuteChanged => true,
            _ => false,
        }
    }

    /// Whether this is a connection-related event
    pub fn is_connection_event(&self) -> (r: bool)
        ensures
            r == is_connection_kind(*self),
    {
        match self {
            EventKind::RoomConnectionChanged | EventKind::NetworkQualityChanged | EventKind::RoomDisconnected
            | EventKind::RoomReconnecting | EventKind::RoomReconnected => true,
            _ => false,
        }
    }

    /// Whether this is an error event
    pub fn is_error_event(&self) -> (r: bool)
        ensures
            r == (*self == EventKind::RoomError),
    {
        match self {
            EventKind::RoomError => true,
            _ => false,
        }
    }
}

/// Event filter for selective event processing
#[derive(Debug)]
pub struct EventFilter {
    /// Whether to include participant events
    pub include_participant_events: bool,
    /// Whether to include track events
    pub include_track_events: bool,
    /// Whether to include connection events
    pub include_connection_events: bool,
    /// Whether to include error events
    pub include_error_events: bool,
    /// Specific event types to include (if specified, overrides other filters)
    pub specific_event_types: Option<Vec<String>>,
}

/// Whether a filter lets events of the kind through: by name when specific types are
/// given, else by category.
pub open spec fn filter_includes(f: EventFilter, k: EventKind) -> bool {
    match f.specific_event_types {
        Some(types) => exists|i: int| 0 <= i < types@.len() && types@[i]@ == event_type_name(k),
        None => (f.include_participant_events && is_participant_kind(k)) || (f.include_track_events && is_track_kind(k))
            || (f.include_connection_events && is_connection_kind(k)) || (f.include_error_events && k
            == EventKind::RoomError),
    }
}

impl EventFilter {
    /// A filter that includes all events
    pub fn all() -> (r: Self)
        ensures
            r.include_participant_events && r.include_track_events && r.include_connection_events
                && r.include_error_events && r.specific_event_types is None,
    {
        EventFilter {
            include_participant_events: true,
            include_track_events: true,
            include_connection_events: true,
            include_error_events: true,
            specific_event_types: None,
        }
    }

    /// A filter that includes only participant events
    pub fn participant_only() -> (r: Self)
        ensures
            r.include_participant_events && !r.include_track_events && !r.include_connection_events
                && !r.include_error_events && r.specific_event_types is None,
    {
        EventFilter {
            include_participant_events: true,
            include_track_events: false,
            include_connection_events: false,
            include_error_events: false,
            specific_event_types: None,
        }
    }

    /// A filter that includes only track events
    pub fn track_only() -> (r: Self)
        ensures
            !r.include_participant_events && r.include_track_events && !r.include_connection_events
                && !r.include_error_events && r.specific_event_types is None,
    {
        EventFilter {
            include_participant_events: false,
            include_track_events: true,
            include_connection_events: false,
            include_error_events: false,
            specific_event_types: None,
        }
    }

    /// A filter that includes only connection events
    pub fn connection_only() -> (r: Self)
        ensures
            !r.include_participant_events && !r.include_track_events && r.include_connection_events
                && !r.include_error_events && r.specific_event_types is None,
    {
        EventFilter {
            include_participant_events: false,
            include_track_events: false,
            include_connection_events: true,
            include_error_events: false,
            specific_event_types: None,
        }
    }

    /// A filter for specific event types
    pub fn specific(event_types: Vec<String>) -> (r: Self)
        ensures
            !r.include_participant_events && !r.include_track_events && !r.include_connection_events
                && !r.include_error_events && r.specific_event_types == Some(event_types),
    {
        EventFilter {
            include_participant_events: false,
            include_track_events: false,
            include_connection_events: false,
            include_error_events: false,
            specific_event_types: Some(event_types),
        }
    }

    /// Whether events of the kind pass the filter (see [`filter_includes`])
    pub fn should_include(&self, kind: EventKind) -> (r: bool)
        ensures
            r == filter_includes(*self, kind),
    {
        match &self.specific_event_types {
            Some(types) => {
                let name = kind.event_type();
                let mut i: usize = 0;
                while i < types.len()
                    invariant
                        self.specific_event_types == Some(*types),
                        i <= types@.len(),
                        name@ == event_type_name(kind),
                        forall|j: int| 0 <= j < i ==> types@[j]@ != event_type_name(kind),
                    decreases types@.len() - i,
                {
                    if same_text(&types[i], name) {
                        assert(types@[i as int]@ == event_type_name(kind));
                        assert(exists|j: int| 0 <= j < types@.len() && types@[j]@ == event_type_name(kind));
                        assert(self.specific_event_types matches Some(t) && t@ == types@);
                        assert(filter_includes(*self, kind));
                        return true;
                    }
                    i = i + 1;
                }
                false
            },
            None => (self.include_participant_events && kind.is_participant_event()) || (self.include_track_events
                && kind.is_track_event()) || (self.include_connection_events && kind.is_connection_event()) || (
            self.include_error_events && kind.is_error_event()),
        }
    }
}

impl Default for EventFilter {
    fn default() -> (r: Self)
        ensures
            r.include_participant_events && r.include_track_events && r.include_connection_events
                && r.include_error_events && r.specific_event_types is None,
    {
        EventFilter::all()
    }
}

/// The filter that includes all events lets every event through.
pub proof fn lemma_all_includes_everything(f: EventFilter, k: EventKind)
    requires
        f.include_participant_events && f.include_track_events && f.include_connection_events
            && f.include_error_events && f.specific_event_types is None,
    ensures
        filter_includes(f, k),
{
}

/// Every event kind is of exactly one category: participant, track, connection or error.
pub proof fn lemma_event_categories_partition(k: EventKind)
    ensures
        (is_participant_kind(k) as int) + (is_track_kind(k) as int) + (is_connection_kind(k) as int) + ((k
            == EventKind::RoomError) as int) == 1,
{
}


/// Errors that can occur with participant management
#[derive(Debug)]
pub enum ParticipantError {
    /// Maximum number of participants exceeded
    MaximumParticipantsExceeded {
        /// The maximum number of participants allowed
        max: usize,
    },
    /// Participant already exists
    ParticipantAlreadyExists {
        /// The ID of the participant that already exists
        participant_id: String,
    },
    /// Participant not found
    ParticipantNotFound {
        /// The ID of the participant that was not found
        participant_id: String,
    },
    /// Invalid participant ID
    InvalidParticipantId {
        /// The reason why the participant ID is invalid
        reason: String,
    },
}

/// The display text of each participant error.
pub open spec fn participant_error_text(e: ParticipantError) -> Seq<char> {
    match e {
        ParticipantError::MaximumParticipantsExceeded { max } =>
            "Maximum number of participants ("@ + decimal_digits(max as nat) + ") exceeded"@,
        ParticipantError::ParticipantAlreadyExists { participant_id } =>
            "Participant with ID '"@ + participant_id@ + "' already exists"@,
        ParticipantError::ParticipantNotFound { participant_id } =>
            "Participant with ID '"@ + participant_id@ + "' not found"@,
        ParticipantError::InvalidParticipantId { reason } => "Invalid participant ID: "@ + reason@,
    }
}

fn around(before: &str, middle: &String, after: &str) -> (r: String)
    ensures
        r@ == before@ + middle@ + after@,
{
    let mut s = String::new();
    push_str(&mut s, before);
    push_str(&mut s, middle.as_str());
    push_str(&mut s, after);
    assert(s@ =~= before@ + middle@ + after@);
    s
}

fn max_exceeded_text(max: usize) -> (r: String)
    ensures
        r@ == "Maximum number of participants ("@ + decimal_digits(max as nat) + ") exceeded"@,
{
    let mut s = String::new();
    push_str(&mut s, "Maximum number of participants (");
    let m: u64 = max as u64;
    push_decimal(&mut s, m);
    push_str(&mut s, ") exceeded");
    assert(s@ =~= "Maximum number of participants ("@ + decimal_digits(max as nat) + ") exceeded"@);
    s
}

impl ParticipantError {
    /// The error's display text
    pub fn message(&self) -> (r: String)
        ensures
            r@ == participant_error_text(*self),
    {
        match self {
            ParticipantError::MaximumParticipantsExceeded { max } => max_exceeded_text(*max),
            ParticipantError::ParticipantAlreadyExists { participant_id } =>
                around("Participant with ID '", participant_id, "' already exists"),
            ParticipantError::ParticipantNotFound { participant_id } =>
                around("Participant with ID '", participant_id, "' not found"),
            ParticipantError::InvalidParticipantId { reason } => {
                let mut s = String::new();
                push_str(&mut s, "Invalid participant ID: ");
                push_str(&mut s, reason.as_str());
                assert(s@ =~= "Invalid participant ID: "@ + reason@);
                s
            },
        }
    }
}

/// Whether no two entries share an ID.
pub open spec fn entry_ids_unique<T>(s: Seq<(String, T)>) -> bool {
    forall|i: int, j: int| 0 <= i < s.len() && 0 <= j < s.len() && i != j ==> s[i].0@ != s[j].0@
}

/// Whether some entry has the ID.
pub open spec fn has_entry<T>(s: Seq<(String, T)>, id: Seq<char>) -> bool {
    exists|i: int| 0 <= i < s.len() && s[i].0@ == id
}

/// The remote participants of a room, each under its ID, in joining order, with an
/// optional limit on their number
#[derive(Debug)]
pub struct Participants<T> {
    remote_participants: Vec<(String, T)>,
    max_participants: Option<usize>,
}

impl<T> Participants<T> {
    /// The participants under their IDs, in joining order
    pub closed spec fn entries(&self) -> Seq<(String, T)> {
        self.remote_participants@
    }

    /// The limit on the number of participants, if any
    pub closed spec fn limit(&self) -> Option<usize> {
        self.max_participants
    }

    /// IDs are distinct.
    pub closed spec fn wf(&self) -> bool {
        entry_ids_unique(self.remote_participants@)
    }

    /// An empty collection without limit
    pub fn new() -> (r: Self)
        ensures
            r.wf(),
            r.entries().len() == 0,
            r.limit() is None,
    {
        Participants { remote_participants: Vec::new(), max_participants: None }
    }

    /// An empty collection of at most `max` participants
    pub fn with_max_participants(max: usize) -> (r: Self)
        ensures
            r.wf(),
            r.entries().len() == 0,
            r.limit() == Some(max),
    {
        Participants { remote_participants: Vec::new(), max_participants: Some(max) }
    }

    fn find(&self, participant_id: &str) -> (r: Option<usize>)
        ensures
            r matches Some(i) ==> i < self.entries().len() && self.entries()[i as int].0@ == participant_id@,
            r is None ==> !has_entry(self.entries(), participant_id@),
    {
        let mut i: usize = 0;
        while i < self.remote_participants.len()
            invariant
                i <= self.remote_participants@.len(),
                forall|j: int| 0 <= j < i ==> self.remote_participants@[j].0@ != participant_id@,
            decreases self.remote_participants@.len() - i,
        {
            if same_text(&self.remote_participants[i].0, participant_id) {
                return Some(i);
            }
            i = i + 1;
        }
        None
    }

    /// Add a remote participant under its ID. At the limit, and for an ID already present,
    /// it is refused and nothing changes.
    pub fn add_remote_participant(&mut self, participant_id: String, participant: T) -> (r: Result<(), ParticipantError>)
        requires
            old(self).wf(),
        ensures
            final(self).wf(),
            final(self).limit() == old(self).limit(),
            old(self).limit() matches Some(max) ==> (old(self).entries().len() >= max ==> (r matches Err(
                ParticipantError::MaximumParticipantsExceeded { max: m }) && m == max)),
            !(old(self).limit() matches Some(max) && old(self).entries().len() >= max) && has_entry(old(self).entries(),
                participant_id@) ==> (r matches Err(ParticipantError::ParticipantAlreadyExists { participant_id: p })
                && p == participant_id),
            r is Err ==> final(self).entries() == old(self).entries(),
            r is Ok <==> !(old(self).limit() matches Some(max) && old(self).entries().len() >= max) && !has_entry(
                old(self).entries(), participant_id@),
            r is Ok ==> final(self).entries() == old(self).entries().push((participant_id, participant)),
    {
        match self.max_participants {
            Some(max) => {
                if self.remote_participants.len() >= max {
                    return Err(ParticipantError::MaximumParticipantsExceeded { max });
                }
            },
            None => {},
        }
        match self.find(participant_id.as_str()) {
            Some(_) => {
                return Err(ParticipantError::ParticipantAlreadyExists { participant_id });
            },
            None => {},
        }
        let ghost before = self.remote_participants@;
        self.remote_participants.push((participant_id, participant));
        proof {
            let after = self.remote_participants@;
            assert forall|i: int, j: int| 0 <= i < after.len() && 0 <= j < after.len() && i != j
                implies after[i].0@ != after[j].0@ by {
                if i < before.len() && j < before.len() {
                    assert(after[i] == before[i] && after[j] == before[j]);
                } else if i < before.len() {
                    assert(after[i] == before[i]);
                } else {
                    assert(after[j] == before[j]);
                }
            }
        }
        Ok(())
    }

    /// Remove the remote participant with the ID, giving it back if it was there
    pub fn remove_remote_participant(&mut self, participant_id: &str) -> (r: Option<T>)
        requires
            old(self).wf(),
        ensures
            final(self).wf(),
            final(self).limit() == old(self).limit(),
            r is Some <==> has_entry(old(self).entries(), participant_id@),
            r is None ==> final(self).entries() == old(self).entries(),
            r matches Some(p) ==> exists|i: int| 0 <= i < old(self).entries().len() && old(self).entries()[i].0@
                == participant_id@ && old(self).entries()[i].1 == p && final(self).entries() == old(self).entries().remove(i),
    {
        match self.find(participant_id) {
            Some(i) => {
                let ghost before = self.remote_participants@;
                let (_id, p) = self.remove_entry(i);
                proof {
                    let after = self.remote_participants@;
                    assert forall|a: int, b: int| 0 <= a < after.len() && 0 <= b < after.len() && a != b
                        implies after[a].0@ != after[b].0@ by {
                        let oa = if a < i { a } else { a + 1 };
                        let ob = if b < i { b } else { b + 1 };
                        assert(after[a] == before[oa]);
                        assert(after[b] == before[ob]);
                    }
                }
                Some(p)
            },
            None => None,
        }
    }

    fn remove_entry(&mut self, i: usize) -> (r: (String, T))
        requires
            i < old(self).remote_participants@.len(),
        ensures
            r == old(self).remote_participants@[i as int],
            final(self).remote_participants@ == old(self).remote_participants@.remove(i as int),
            final(self).max_participants == old(self).max_participants,
    {
        self.remote_participants.remove(i)
    }

    /// The remote participant with the ID, if any
    pub fn get_remote_participant(&self, participant_id: &str) -> (r: Option<&T>)
        ensures
            r is Some <==> has_entry(self.entries(), participant_id@),
            r matches Some(p) ==> exists|i: int| 0 <= i < self.entries().len() && self.entries()[i].0@
                == participant_id@ && self.entries()[i].1 == *p,
    {
        match self.find(participant_id) {
            Some(i) => Some(&self.remote_participants[i].1),
            None => None,
        }
    }

    /// The remote participant with the ID, to be changed in place, if any
    pub fn get_remote_participant_mut(&mut self, participant_id: &str) -> (r: Option<&mut T>)
        requires
            old(self).wf(),
        ensures
            final(self).wf(),
            final(self).limit() == old(self).limit(),
            r is Some <==> has_entry(old(self).entries(), participant_id@),
            r is None ==> final(self).entries() == old(self).entries(),
            r matches Some(p) ==> exists|i: int| 0 <= i < old(self).entries().len()
                && old(self).entries()[i].0@ == participant_id@ && old(self).entries()[i].1 == *p
                && final(self).entries() == old(self).entries().update(i, (old(self).entries()[i].0, *final(p))),
    {
        match self.find(participant_id) {
            Some(i) => Some(&mut self.remote_participants[i].1),
            None => None,
        }
    }

    /// All remote participants, in joining order
    pub fn remote_participants(&self) -> (r: Vec<&T>)
        ensures
            r@.len() == self.entries().len(),
            forall|i: int| 0 <= i < r@.len() ==> *r@[i] == self.entries()[i].1,
    {
        let mut r: Vec<&T> = Vec::new();
        let mut i: usize = 0;
        while i < self.remote_participants.len()
            invariant
                i <= self.remote_participants@.len(),
                r@.len() == i,
                forall|j: int| 0 <= j < i ==> *r@[j] == self.remote_participants@[j].1,
            decreases self.remote_participants@.len() - i,
        {
            r.push(&self.remote_participants[i].1);
            i = i + 1;
        }
        r
    }

    /// IDs of the remote participants, in joining order
    pub fn participant_ids(&self) -> (r: Vec<&String>)
        ensures
            r@.len() == self.entries().len(),
            forall|i: int| 0 <= i < r@.len() ==> *r@[i] == self.entries()[i].0,
    {
        let mut r: Vec<&String> = Vec::new();
        let mut i: usize = 0;
        while i < self.remote_participants.len()
            invariant
                i <= self.remote_participants@.len(),
                r@.len() == i,
                forall|j: int| 0 <= j < i ==> *r@[j] == self.remote_participants@[j].0,
            decreases self.remote_participants@.len() - i,
        {
            r.push(&self.remote_participants[i].0);
            i = i + 1;
        }
        r
    }

    /// Number of remote participants
    pub fn count(&self) -> (r: usize)
        ensures
            r == self.entries().len(),
    {
        self.remote_participants.len()
    }

    /// Whether the limit, if any, is reached
    pub fn is_at_capacity(&self) -> (r: bool)
        ensures
            r == (self.limit() matches Some(max) && self.entries().len() >= max),
    {
        match self.max_participants {
            Some(max) => self.remote_participants.len() >= max,
            None => false,
        }
    }

    /// The limit on the number of participants, if any
    pub fn max_participants(&self) -> (r: Option<usize>)
        ensures
            r == self.limit(),
    {
        self.max_participants
    }

    /// Set the limit on the number of participants
    pub fn set_max_participants(&mut self, max: Option<usize>)
        ensures
            final(self).limit() == max,
            final(self).entries() == old(self).entries(),
            final(self).wf() == old(self).wf(),
    {
        self.max_participants = max;
    }

    /// Whether a remote participant has the ID
    pub fn contains_participant(&self, participant_id: &str) -> (r: bool)
        ensures
            r == has_entry(self.entries(), participant_id@),
    {
        self.find(participant_id).is_some()
    }

    /// Remove all remote participants
    pub fn clear(&mut self)
        ensures
            final(self).wf(),
            final(self).entries().len() == 0,
            final(self).limit() == old(self).limit(),
    {
        self.remote_participants = Vec::new();
    }
}

/// Adding a participant and removing it again gives the collection back.
pub proof fn lemma_add_then_remove<T>(s: Seq<(String, T)>, id: String, p: T)
    requires
        !has_entry(s, id@),
    ensures
        forall|i: int| 0 <= i < s.push((id, p)).len() && s.push((id, p))[i].0@ == id@ ==> i == s.len()
            && s.push((id, p)).remove(i) == s,
{
    assert forall|i: int| 0 <= i < s.push((id, p)).len() && s.push((id, p))[i].0@ == id@ implies i == s.len()
        && s.push((id, p)).remove(i) == s by {
        if i < s.len() {
            assert(s.push((id, p))[i] == s[i]);
        }
        assert(s.push((id, p)).remove(s.len() as int) =~= s);
    }
}


/// The length of a text in UTF-8 bytes, as `str::len` gives it.
pub open spec fn byte_len(s: Seq<char>) -> usize {
    vstd::utf8::encode_utf8(s).len() as usize
}

/// Whether the result is the refusal for invalid data with that reason.
pub open spec fn invalid_data(r: Result<(), QuicRtcError>, reason: Seq<char>) -> bool {
    r matches Err(QuicRtcError::InvalidData { reason: t }) && t@ == reason
}

/// Whether the result is the refusal for missing configuration of that field.
pub open spec fn missing_field(r: Result<(), QuicRtcError>, field: Seq<char>) -> bool {
    r matches Err(QuicRtcError::MissingConfiguration { field: t }) && t@ == field
}

/// The first rule a room configuration breaks, checked in order: a participant ID is
/// needed, not empty and of at most 64 bytes; the room ID is not empty and of at most 128
/// bytes; an audio volume, when configured, is within range, and so is a video frame rate
/// (whether each is in range is given); a participant limit is 1 to 1000; a bandwidth limit
/// is at least 64 kbps.
pub open spec fn room_settings_outcome(
    participant_id: Option<String>,
    room_id: Seq<char>,
    audio_volume_in_range: Option<bool>,
    video_framerate_in_range: Option<bool>,
    max_participants: Option<usize>,
    max_bandwidth_kbps: Option<u64>,
    r: Result<(), QuicRtcError>,
) -> bool {
    if participant_id is None {
        missing_field(r, "participant_id"@)
    } else if participant_id->0@.len() == 0 {
        missing_field(r, "participant_id cannot be empty"@)
    } else if byte_len(participant_id->0@) > 64 {
        invalid_data(r, "participant_id cannot exceed 64 characters"@)
    } else if room_id.len() == 0 {
        invalid_data(r, "room_id cannot be empty"@)
    } else if byte_len(room_id) > 128 {
        invalid_data(r, "room_id cannot exceed 128 characters"@)
    } else if audio_volume_in_range == Some(false) {
        invalid_data(r, "audio volume must be between 0.0 and 1.0"@)
    } else if video_framerate_in_range == Some(false) {
        invalid_data(r, "video framerate must be between 0.1 and 120.0"@)
    } else if max_participants == Some(0usize) {
        invalid_data(r, "max_participants must be at least 1"@)
    } else if max_participants matches Some(m) && m > 1000 {
        invalid_data(r, "max_participants cannot exceed 1000"@)
    } else if max_bandwidth_kbps matches Some(b) && b < 64 {
        invalid_data(r, "bandwidth limit cannot be less than 64 kbps"@)
    } else {
        r is Ok
    }
}

/// Check a room configuration (see [`room_settings_outcome`])
pub fn validate_room_settings(
    participant_id: &Option<String>,
    room_id: &String,
    audio_volume_in_range: Option<bool>,
    video_framerate_in_range: Option<bool>,
    max_participants: Option<usize>,
    max_bandwidth_kbps: Option<u64>,
) -> (r: Result<(), QuicRtcError>)
    ensures
        room_settings_outcome(*participant_id, room_id@, audio_volume_in_range, video_framerate_in_range,
            max_participants, max_bandwidth_kbps, r),
{
    let id = match participant_id {
        Some(id) => id,
        None => {
            return Err(QuicRtcError::MissingConfiguration { field: String::from_str("participant_id") });
        },
    };
    if id.as_str().is_empty() {
        return Err(QuicRtcError::MissingConfiguration { field: String::from_str("participant_id cannot be empty") });
    }
    if id.as_str().len() > 64 {
        return Err(QuicRtcError::InvalidData { reason: String::from_str("participant_id cannot exceed 64 characters") });
    }
    if room_id.as_str().is_empty() {
        return Err(QuicRtcError::InvalidData { reason: String::from_str("room_id cannot be empty") });
    }
    if room_id.as_str().len() > 128 {
        return Err(QuicRtcError::InvalidData { reason: String::from_str("room_id cannot exceed 128 characters") });
    }
    if audio_volume_in_range == Some(false) {
        return Err(QuicRtcError::InvalidData { reason: String::from_str("audio volume must be between 0.0 and 1.0") });
    }
    if video_framerate_in_range == Some(false) {
        return Err(QuicRtcError::InvalidData {
            reason: String::from_str("video framerate must be between 0.1 and 120.0"),
        });
    }
    match max_participants {
        Some(m) => {
            if m == 0 {
                return Err(QuicRtcError::InvalidData { reason: String::from_str("max_participants must be at least 1") });
            }
            if m > 1000 {
                return Err(QuicRtcError::InvalidData { reason: String::from_str("max_participants cannot exceed 1000") });
            }
        },
        None => {},
    }
    match max_bandwidth_kbps {
        Some(b) => {
            if b < 64 {
                return Err(QuicRtcError::InvalidData {
                    reason: String::from_str("bandwidth limit cannot be less than 64 kbps"),
                });
            }
        },
        None => {},
    }
    Ok(())
}

} // verus!
