//! MoQ objects and their assembly into media frames.
//!
//! Objects of a track arrive grouped; a group becomes one frame once its end-of-group
//! object has arrived. Groups that wait too long are assembled from what arrived.
use vstd::prelude::*;
use std::time::Instant;
use crate::clock::{instant_now, nanos_since};
use crate::clock::unix_time_millis;
use crate::error::QuicRtcError;
use crate::keyed::{
    has_key, keyed_map, keys_unique, lemma_keyed_index, lemma_keyed_map_values, lemma_keyed_push, lemma_keyed_remove,
    lemma_keyed_update, Keyed,
};
use crate::text::{contains_text, has_infix, same_text};
use crate::tracks::{copy_bytes, VideoFrame};

verus! {

/// Namespace of a MoQ track
#[derive(Debug)]
pub struct TrackNamespace {
    /// Namespace, such as a domain
    pub namespace: String,
    /// Name of the track within the namespace
    pub track_name: String,
}

impl TrackNamespace {
    /// The text of the namespace and of the track name, which identify the track.
    pub open spec fn key(self) -> (Seq<char>, Seq<char>) {
        (self.namespace@, self.track_name@)
    }

    /// Whether two namespaces name the same track
    pub fn same_as(&self, other: &TrackNamespace) -> (r: bool)
        ensures
            r == (self.key() == other.key()),
    {
        same_text(&self.namespace, other.namespace.as_str()) && same_text(&self.track_name, other.track_name.as_str())
    }

    /// A copy of this namespace
    pub fn duplicate(&self) -> (r: TrackNamespace)
        ensures
            r == *self,
    {
        TrackNamespace { namespace: self.namespace.clone(), track_name: self.track_name.clone() }
    }
}

/// Delivery status of a MoQ object
#[derive(Debug, Clone, Copy, PartialEq, Eq, Structural)]
pub enum MoqObjectStatus {
    /// An object carrying data
    Normal,
    /// The last object of its group
    EndOfGroup,
    /// The last object of its track
    EndOfTrack,
}

/// A MoQ object: one piece of a group of a track
#[derive(Debug)]
pub struct MoqObject {
    /// Namespace of the track
    pub track_namespace: TrackNamespace,
    /// Name of the track
    pub track_name: String,
    /// Group the object belongs to
    pub group_id: u64,
    /// Position of the object in its group
    pub object_id: u64,
    /// Publisher priority
    pub publisher_priority: u8,
    /// Object payload
    pub payload: Vec<u8>,
    /// Delivery status
    pub object_status: MoqObjectStatus,
    /// Creation time, in milliseconds since the Unix epoch
    pub created_at: u64,
    /// Payload size in bytes
    pub size: usize,
}

/// Kind of media a track carries, which decides how its groups are assembled
#[derive(Debug, Clone, Copy, PartialEq, Eq, Structural)]
pub enum TrackType {
    /// Audio samples
    Audio,
    /// Video frames
    Video,
    /// Other data
    Data,
}

/// The kind of a track, from words in its name: video, camera or screen make it video;
/// else audio, microphone or mic make it audio; else it is data.
pub open spec fn track_type_of(name: Seq<char>) -> TrackType {
    if has_infix(name, "video"@) || has_infix(name, "camera"@) || has_infix(name, "screen"@) {
        TrackType::Video
    } else if has_infix(name, "audio"@) || has_infix(name, "microphone"@) || has_infix(name, "mic"@) {
        TrackType::Audio
    } else {
        TrackType::Data
    }
}

/// The kind of a track, inferred from its name (see [`track_type_of`])
pub fn infer_track_type(track_name: &str) -> (r: TrackType)
    ensures
        r == track_type_of(track_name@),
{
    if contains_text(track_name, "video") || contains_text(track_name, "camera") || contains_text(
        track_name,
        "screen",
    ) {
        TrackType::Video
    } else if contains_text(track_name, "audio") || contains_text(track_name, "microphone")
        || contains_text(track_name, "mic") {
        TrackType::Audio
    } else {
        TrackType::Data
    }
}


/// Whether the objects are in strictly ascending order of object ID.
pub open spec fn ids_ascending(objects: Seq<MoqObject>) -> bool {
    forall|i: int, j: int| 0 <= i < j < objects.len() ==> objects[i].object_id < objects[j].object_id
}

/// Whether some object has the ID.
pub open spec fn has_object_id(objects: Seq<MoqObject>, id: u64) -> bool {
    exists|i: int| 0 <= i < objects.len() && objects[i].object_id == id
}

/// How many objects have an ID below `id`.
pub open spec fn count_below(objects: Seq<MoqObject>, id: u64) -> nat
    decreases objects.len(),
{
    if objects.len() == 0 {
        0
    } else {
        count_below(objects.drop_last(), id) + if objects.last().object_id < id { 1nat } else { 0nat }
    }
}

/// The objects with `object` put in its place by ID, replacing one with the same ID.
pub open spec fn inserted_objects(objects: Seq<MoqObject>, object: MoqObject) -> Seq<MoqObject> {
    let p = count_below(objects, object.object_id) as int;
    if p < objects.len() && objects[p].object_id == object.object_id {
        objects.update(p, object)
    } else {
        objects.insert(p, object)
    }
}

/// In ascending objects, the count of IDs below `id` is the first position whose ID is not below.
pub proof fn lemma_count_below(objects: Seq<MoqObject>, id: u64, p: int)
    requires
        ids_ascending(objects),
        0 <= p <= objects.len(),
        forall|i: int| 0 <= i < p ==> objects[i].object_id < id,
        p < objects.len() ==> objects[p].object_id >= id,
    ensures
        count_below(objects, id) == p,
    decreases objects.len(),
{
    if objects.len() > 0 {
        let init = objects.drop_last();
        if p == objects.len() {
            lemma_count_below(init, id, p - 1);
        } else {
            if p < objects.len() - 1 {
                assert(objects[p].object_id < objects[objects.len() - 1].object_id);
            }
            lemma_count_below(init, id, p);
        }
    }
}

/// Put an object among objects ordered by ID, in place of one with the same ID.
fn insert_object(objects: &mut Vec<MoqObject>, object: MoqObject)
    requires
        ids_ascending(old(objects)@),
    ensures
        ids_ascending(final(objects)@),
        final(objects)@ == inserted_objects(old(objects)@, object),
{
    let ghost old_objects = objects@;
    let mut p: usize = 0;
    while p < objects.len() && objects[p].object_id < object.object_id
        invariant
            objects@ == old_objects,
            p <= objects@.len(),
            forall|i: int| 0 <= i < p ==> objects@[i].object_id < object.object_id,
        decreases objects@.len() - p,
    {
        p = p + 1;
    }
    proof { lemma_count_below(old_objects, object.object_id, p as int); }
    if p < objects.len() && objects[p].object_id == object.object_id {
        objects.remove(p);
        objects.insert(p, object);
        assert(objects@ =~= old_objects.update(p as int, object));
    } else {
        objects.insert(p, object);
        proof {
            let new = objects@;
            assert forall|i: int| 0 <= i < new.len() implies #[trigger] new[i] == (if i < p { old_objects[i] }
                else if i == p { object } else { old_objects[i - 1] }) by {}
        }
    }
}

/// The payloads of the objects, one after the other.
pub open spec fn payloads_concat(objects: Seq<MoqObject>) -> Seq<u8>
    decreases objects.len(),
{
    if objects.len() == 0 {
        Seq::empty()
    } else {
        payloads_concat(objects.drop_last()) + objects.last().payload@
    }
}

/// Interleaved samples of one audio object: 960 per channel for two channels (20 ms at
/// 48 kHz), the payload bytes repeated in turn; none for an empty payload.
pub open spec fn audio_object_bytes(payload: Seq<u8>) -> Seq<u8> {
    if payload.len() == 0 {
        Seq::empty()
    } else {
        Seq::new(1920, |i: int| payload[i % (payload.len() as int)])
    }
}

/// The sample bytes of all audio objects, one object after the other.
pub open spec fn audio_bytes(objects: Seq<MoqObject>) -> Seq<u8>
    decreases objects.len(),
{
    if objects.len() == 0 {
        Seq::empty()
    } else {
        audio_bytes(objects.drop_last()) + audio_object_bytes(objects.last().payload@)
    }
}

/// Audio comes out object after object: the sample bytes of `objects` followed by one
/// more object `o` are those of `objects` and then 1920 interleaved samples cycling through
/// `o`'s payload (nothing for an empty payload). In particular the first object with a
/// payload gives the first 1920 bytes.
pub proof fn lemma_audio_appends_in_order(objects: Seq<MoqObject>, o: MoqObject)
    ensures
        o.payload@.len() == 0 ==> audio_bytes(objects.push(o)) == audio_bytes(objects),
        o.payload@.len() > 0 ==> {
            let before = audio_bytes(objects);
            let after = audio_bytes(objects.push(o));
            &&& after.len() == before.len() + 1920
            &&& after.subrange(0, before.len() as int) == before
            &&& forall|i: int| 0 <= i < 1920 ==> #[trigger] after[before.len() + i]
                == o.payload@[i % (o.payload@.len() as int)]
        },
{
    assert(objects.push(o).drop_last() =~= objects);
    let before = audio_bytes(objects);
    let after = audio_bytes(objects.push(o));
    if o.payload@.len() == 0 {
        assert(after =~= before);
    } else {
        assert(after.subrange(0, before.len() as int) =~= before);
    }
}

/// Audio of objects that all carry a payload holds 1920 bytes per object, and the bytes
/// of the object at position `k` come at `1920 * k`.
pub proof fn lemma_audio_object_position(objects: Seq<MoqObject>, k: int, i: int)
    requires
        forall|j: int| 0 <= j < objects.len() ==> (#[trigger] objects[j]).payload@.len() > 0,
        0 <= k < objects.len(),
        0 <= i < 1920,
    ensures
        audio_bytes(objects).len() == 1920 * objects.len(),
        audio_bytes(objects)[1920 * k + i] == objects[k].payload@[i % (objects[k].payload@.len() as int)],
    decreases objects.len(),
{
    let prefix = objects.drop_last();
    assert(prefix.push(objects.last()) =~= objects);
    lemma_audio_appends_in_order(prefix, objects.last());
    if k < objects.len() - 1 {
        assert(forall|j: int| 0 <= j < prefix.len() ==> prefix[j] == objects[j]);
        lemma_audio_object_position(prefix, k, i);
        assert(audio_bytes(objects).subrange(0, audio_bytes(prefix).len() as int)[1920 * k + i]
            == audio_bytes(objects)[1920 * k + i]);
    } else if prefix.len() > 0 {
        lemma_audio_object_position(prefix, 0, 0);
    }
}

/// Assembled audio: one byte per sample, each standing for the sample
/// `(byte - 128) / 128 * 0.1` in the range of PCM floats.
#[derive(Debug)]
pub struct AudioSamples {
    /// Interleaved sample bytes
    pub sample_bytes: Vec<u8>,
    /// Sample rate in Hz
    pub sample_rate: u32,
    /// Number of channels
    pub channels: u8,
    /// Timestamp in milliseconds since the Unix epoch
    pub timestamp: u64,
}

/// A frame assembled from a group of objects
#[derive(Debug)]
pub enum AssembledFrame {
    /// Audio samples
    Audio(AudioSamples),
    /// Video frame
    Video(VideoFrame),
}

/// Assembly state for a single group (a video frame or a run of audio samples)
#[derive(Debug)]
pub struct GroupAssembly {
    /// Group ID
    pub group_id: u64,
    /// Track namespace
    pub track_namespace: TrackNamespace,
    /// Objects received, in ascending order of object ID
    pub objects: Vec<MoqObject>,
    /// Expected object count, once known
    pub expected_objects: Option<usize>,
    /// Whether the end-of-group object has arrived
    pub end_of_group_received: bool,
    /// When assembly started, in nanoseconds on the assembler's clock
    pub started_at: u64,
    /// Object IDs found missing
    pub missing_objects: Vec<u64>,
    /// Whether retransmission of the missing objects was requested
    pub retransmission_requested: bool,
}

/// The contents of a group assembly.
pub struct GroupView {
    pub group_id: u64,
    pub track_namespace: TrackNamespace,
    pub objects: Seq<MoqObject>,
    pub expected_objects: Option<usize>,
    pub end_of_group_received: bool,
    pub started_at: u64,
    pub missing_objects: Seq<u64>,
    pub retransmission_requested: bool,
}

impl View for GroupAssembly {
    type V = GroupView;

    open spec fn view(&self) -> GroupView {
        GroupView {
            group_id: self.group_id,
            track_namespace: self.track_namespace,
            objects: self.objects@,
            expected_objects: self.expected_objects,
            end_of_group_received: self.end_of_group_received,
            started_at: self.started_at,
            missing_objects: self.missing_objects@,
            retransmission_requested: self.retransmission_requested,
        }
    }
}

/// Whether `r` is the video frame made of the group's payloads.
pub open spec fn video_outcome(group: GroupView, r: Result<AssembledFrame, QuicRtcError>) -> bool {
    let data = payloads_concat(group.objects);
    &&& (data.len() == 0 ==> (r matches Err(QuicRtcError::InvalidData { reason })
        && reason@ == "Video frame has no data"@))
    &&& (data.len() > 0 ==> (r matches Ok(AssembledFrame::Video(f)) && f.width == 640 && f.height == 480
        && f.data@ == data && f.timestamp == group.group_id && !f.is_keyframe))
}

/// Whether `r` is the audio assembled from the group's payloads.
pub open spec fn audio_outcome(group: GroupView, r: Result<AssembledFrame, QuicRtcError>) -> bool {
    let samples = audio_bytes(group.objects);
    &&& (samples.len() == 0 ==> (r matches Err(QuicRtcError::InvalidData { reason })
        && reason@ == "Audio frame has no samples"@))
    &&& (samples.len() > 0 ==> (r matches Ok(AssembledFrame::Audio(a)) && a.sample_bytes@ == samples
        && a.sample_rate == 48000 && a.channels == 2))
}

/// What assembling a group gives for a track of the kind: an empty group is refused;
/// video and data are assembled as video frames, audio as samples.
pub open spec fn frame_outcome(group: GroupView, kind: TrackType, r: Result<AssembledFrame, QuicRtcError>) -> bool {
    if group.objects.len() == 0 {
        r matches Err(QuicRtcError::InvalidData { reason }) && reason@ == "Cannot assemble frame from empty group"@
    } else {
        match kind {
            TrackType::Audio => audio_outcome(group, r),
            _ => video_outcome(group, r),
        }
    }
}

/// The payloads of the objects, one after the other
fn concat_payloads(objects: &Vec<MoqObject>) -> (r: Vec<u8>)
    ensures
        r@ == payloads_concat(objects@),
{
    let mut r: Vec<u8> = Vec::new();
    let mut i: usize = 0;
    while i < objects.len()
        invariant
            i <= objects@.len(),
            r@ == payloads_concat(objects@.subrange(0, i as int)),
        decreases objects@.len() - i,
    {
        let ghost before = r@;
        let payload = &objects[i].payload;
        let mut j: usize = 0;
        while j < payload.len()
            invariant
                j <= payload@.len(),
                r@ == before + payload@.subrange(0, j as int),
            decreases payload@.len() - j,
        {
            r.push(payload[j]);
            j = j + 1;
            assert(r@ =~= before + payload@.subrange(0, j as int));
        }
        assert(payload@.subrange(0, payload@.len() as int) =~= payload@);
        assert(objects@.subrange(0, i + 1).drop_last() =~= objects@.subrange(0, i as int));
        i = i + 1;
    }
    assert(objects@.subrange(0, objects@.len() as int) =~= objects@);
    r
}

/// The sample bytes of all audio objects (see [`audio_bytes`])
fn audio_sample_bytes(objects: &Vec<MoqObject>) -> (r: Vec<u8>)
    ensures
        r@ == audio_bytes(objects@),
{
    let mut r: Vec<u8> = Vec::new();
    let mut i: usize = 0;
    while i < objects.len()
        invariant
            i <= objects@.len(),
            r@ == audio_bytes(objects@.subrange(0, i as int)),
        decreases objects@.len() - i,
    {
        let ghost before = r@;
        let payload = &objects[i].payload;
        if payload.len() > 0 {
            let mut j: usize = 0;
            while j < 1920
                invariant
                    payload@.len() > 0,
                    j <= 1920,
                    r@ == before + audio_object_bytes(payload@).subrange(0, j as int),
                decreases 1920 - j,
            {
                r.push(payload[j % payload.len()]);
                j = j + 1;
                assert(r@ =~= before + audio_object_bytes(payload@).subrange(0, j as int));
            }
            assert(audio_object_bytes(payload@).subrange(0, 1920) =~= audio_object_bytes(payload@));
        } else {
            assert(r@ =~= before + audio_object_bytes(payload@));
        }
        assert(objects@.subrange(0, i + 1).drop_last() =~= objects@.subrange(0, i as int));
        i = i + 1;
    }
    assert(objects@.subrange(0, objects@.len() as int) =~= objects@);
    r
}

/// Assemble a video frame: the payloads one after the other, at 640x480, stamped with the
/// group ID
fn assemble_video_frame_static(group_assembly: GroupAssembly) -> (r: Result<AssembledFrame, QuicRtcError>)
    ensures
        video_outcome(group_assembly@, r),
{
    let frame_data = concat_payloads(&group_assembly.objects);
    if frame_data.len() == 0 {
        return Err(QuicRtcError::InvalidData { reason: String::from_str("Video frame has no data") });
    }
    Ok(AssembledFrame::Video(VideoFrame {
        width: 640,
        height: 480,
        data: frame_data,
        timestamp: group_assembly.group_id,
        is_keyframe: false,
    }))
}

/// Assemble audio samples from the objects with a payload, at 48 kHz stereo, stamped now
fn assemble_audio_frame_static(group_assembly: GroupAssembly) -> (r: Result<AssembledFrame, QuicRtcError>)
    ensures
        audio_outcome(group_assembly@, r),
{
    let sample_bytes = audio_sample_bytes(&group_assembly.objects);
    if sample_bytes.len() == 0 {
        return Err(QuicRtcError::InvalidData { reason: String::from_str("Audio frame has no samples") });
    }
    Ok(AssembledFrame::Audio(AudioSamples {
        sample_bytes,
        sample_rate: 48000,
        channels: 2,
        timestamp: unix_time_millis(),
    }))
}

/// Assemble a data frame, the same way as a video frame
fn assemble_data_frame_static(group_assembly: GroupAssembly) -> (r: Result<AssembledFrame, QuicRtcError>)
    ensures
        video_outcome(group_assembly@, r),
{
    assemble_video_frame_static(group_assembly)
}

/// Assemble a group for a track of the given kind (see [`frame_outcome`])
fn assemble_frame_of_kind(group_assembly: GroupAssembly, kind: TrackType) -> (r: Result<AssembledFrame, QuicRtcError>)
    ensures
        frame_outcome(group_assembly@, kind, r),
{
    if group_assembly.objects.len() == 0 {
        return Err(QuicRtcError::InvalidData {
            reason: String::from_str("Cannot assemble frame from empty group"),
        });
    }
    match kind {
        TrackType::Video => assemble_video_frame_static(group_assembly),
        TrackType::Audio => assemble_audio_frame_static(group_assembly),
        TrackType::Data => assemble_data_frame_static(group_assembly),
    }
}


/// The IDs from `lo` to `hi` that no object has, in ascending order.
pub open spec fn gap_ids(objects: Seq<MoqObject>, lo: int, hi: int) -> Seq<u64>
    decreases hi - lo + 1,
{
    if hi < lo {
        Seq::empty()
    } else {
        gap_ids(objects, lo, hi - 1) + if has_object_id(objects, hi as u64) {
            Seq::<u64>::empty()
        } else {
            seq![hi as u64]
        }
    }
}

/// The IDs missing between the lowest and the highest ID of at least two objects in
/// ascending order; none for fewer objects.
pub open spec fn missing_ids(objects: Seq<MoqObject>) -> Seq<u64> {
    if objects.len() >= 2 {
        gap_ids(objects, objects[0].object_id as int, objects.last().object_id as int)
    } else {
        Seq::empty()
    }
}

/// Whether some object has the ID
fn contains_object_id(objects: &Vec<MoqObject>, id: u64) -> (r: bool)
    ensures
        r == has_object_id(objects@, id),
{
    let mut i: usize = 0;
    while i < objects.len()
        invariant
            i <= objects@.len(),
            forall|j: int| 0 <= j < i ==> objects@[j].object_id != id,
        decreases objects@.len() - i,
    {
        if objects[i].object_id == id {
            return true;
        }
        i = i + 1;
    }
    false
}

/// The IDs missing among objects in ascending order (see [`missing_ids`])
fn find_missing(objects: &Vec<MoqObject>) -> (r: Vec<u64>)
    requires
        ids_ascending(objects@),
    ensures
        r@ == missing_ids(objects@),
{
    let mut r: Vec<u64> = Vec::new();
    if objects.len() < 2 {
        return r;
    }
    let lo = objects[0].object_id;
    let hi = objects[objects.len() - 1].object_id;
    assert(objects@.last() == objects@[objects@.len() - 1]);
    let mut id = lo;
    while id < hi
        invariant
            lo <= id <= hi,
            r@ == gap_ids(objects@, lo as int, id - 1),
        decreases hi - id,
    {
        if !contains_object_id(objects, id) {
            r.push(id);
        }
        id = id + 1;
        assert(r@ =~= gap_ids(objects@, lo as int, id - 1));
    }
    if !contains_object_id(objects, hi) {
        r.push(hi);
    }
    assert(r@ =~= gap_ids(objects@, lo as int, hi as int));
    r
}


/// Statistics for track processing
#[derive(Debug, Clone, Copy, PartialEq, Eq, Structural)]
pub struct TrackStats {
    /// Total objects received
    pub objects_received: u64,
    /// Total groups completed
    pub groups_completed: u64,
    /// Total missing objects detected
    pub missing_objects: u64,
    /// Total retransmission requests sent
    pub retransmission_requests: u64,
    /// Total frames assembled
    pub frames_assembled: u64,
}

impl TrackStats {
    /// All counters at zero.
    pub open spec fn zero() -> TrackStats {
        TrackStats {
            objects_received: 0,
            groups_completed: 0,
            missing_objects: 0,
            retransmission_requests: 0,
            frames_assembled: 0,
        }
    }
}

impl Default for TrackStats {
    fn default() -> (r: TrackStats)
        ensures
            r == TrackStats::zero(),
    {
        TrackStats {
            objects_received: 0,
            groups_completed: 0,
            missing_objects: 0,
            retransmission_requests: 0,
            frames_assembled: 0,
        }
    }
}

/// Track state information
#[derive(Debug)]
pub struct TrackState {
    /// Track namespace
    pub track_namespace: TrackNamespace,
    /// Last processed group ID
    pub last_group_id: Option<u64>,
    /// Last processed object ID
    pub last_object_id: Option<u64>,
    /// Track type, inferred from the name of the track's first object
    pub track_type: TrackType,
    /// Statistics
    pub stats: TrackStats,
}

/// Frames ready for one track
#[derive(Debug)]
pub struct TrackFrames {
    /// Track namespace
    pub track_namespace: TrackNamespace,
    /// Frames, oldest first
    pub frames: Vec<AssembledFrame>,
}

impl Keyed for TrackState {
    type Key = (Seq<char>, Seq<char>);

    open spec fn key(self) -> (Seq<char>, Seq<char>) {
        self.track_namespace.key()
    }
}

impl Keyed for GroupAssembly {
    type Key = ((Seq<char>, Seq<char>), u64);

    open spec fn key(self) -> ((Seq<char>, Seq<char>), u64) {
        (self.track_namespace.key(), self.group_id)
    }
}

impl Keyed for TrackFrames {
    type Key = (Seq<char>, Seq<char>);

    open spec fn key(self) -> (Seq<char>, Seq<char>) {
        self.track_namespace.key()
    }
}

/// Configuration for the MoQ object assembler
#[derive(Debug, Clone, Copy)]
pub struct AssemblerConfig {
    /// Longest wait for missing objects before a group is assembled from what arrived,
    /// in milliseconds
    pub max_wait_time: u64,
    /// Maximum number of pending groups per track
    pub max_pending_groups: usize,
    /// Maximum frame buffer size per track
    pub max_frame_buffer_size: usize,
    /// Whether to request retransmission of missing objects
    pub enable_retransmission: bool,
}

impl Default for AssemblerConfig {
    fn default() -> (r: AssemblerConfig)
        ensures
            r.max_wait_time == 100,
            r.max_pending_groups == 10,
            r.max_frame_buffer_size == 50,
            r.enable_retransmission,
    {
        AssemblerConfig {
            max_wait_time: 100,
            max_pending_groups: 10,
            max_frame_buffer_size: 50,
            enable_retransmission: true,
        }
    }
}

/// MoQ object assembler: rebuilds media frames from MoQ objects. It gathers the objects of
/// each group, notices missing objects and asks for them again, and gives up waiting on a
/// group after the configured time.
#[derive(Debug)]
pub struct MoqObjectAssembler {
    /// Start of the assembler's clock
    epoch: Instant,
    /// Groups being assembled
    pending_groups: Vec<GroupAssembly>,
    /// Completed frames per track
    frames: Vec<TrackFrames>,
    /// Maximum buffered frames per track
    max_size_per_track: usize,
    /// State of each track seen
    track_state: Vec<TrackState>,
    /// Configuration
    config: AssemblerConfig,
}

impl MoqObjectAssembler {
    /// Keys are unique in each table, and each group's objects ascend by ID.
    pub closed spec fn wf(&self) -> bool {
        &&& keys_unique(self.pending_groups@)
        &&& keys_unique(self.track_state@)
        &&& keys_unique(self.frames@)
        &&& forall|i: int| 0 <= i < self.pending_groups@.len() ==> ids_ascending(
            #[trigger] self.pending_groups@[i].objects@)
    }

    /// The groups being assembled, by track and group ID
    pub closed spec fn groups(&self) -> Map<((Seq<char>, Seq<char>), u64), GroupView> {
        keyed_map(self.pending_groups@).map_values(|g: GroupAssembly| g@)
    }

    /// The groups being assembled, oldest first
    pub closed spec fn pending(&self) -> Seq<GroupView> {
        self.pending_groups@.map_values(|g: GroupAssembly| g@)
    }

    /// The state of each track seen
    pub closed spec fn tracks(&self) -> Map<(Seq<char>, Seq<char>), TrackState> {
        keyed_map(self.track_state@)
    }

    /// The completed frames waiting for each track, oldest first
    pub closed spec fn buffered(&self) -> Map<(Seq<char>, Seq<char>), Seq<AssembledFrame>> {
        keyed_map(self.frames@).map_values(|f: TrackFrames| f.frames@)
    }

    /// The configuration
    pub closed spec fn spec_config(&self) -> AssemblerConfig {
        self.config
    }

    /// Create new MoQ object assembler with default configuration
    pub fn new() -> (r: Self)
        ensures
            r.wf(),
            r.groups().is_empty(),
            r.tracks().is_empty(),
            r.buffered().is_empty(),
            r.spec_config() == (AssemblerConfig {
                max_wait_time: 100,
                max_pending_groups: 10,
                max_frame_buffer_size: 50,
                enable_retransmission: true,
            }),
    {
        Self::with_config(AssemblerConfig::default())
    }

    /// Create new MoQ object assembler with custom configuration
    pub fn with_config(config: AssemblerConfig) -> (r: Self)
        ensures
            r.wf(),
            r.groups().is_empty(),
            r.tracks().is_empty(),
            r.buffered().is_empty(),
            r.spec_config() == config,
    {
        let r = Self {
            epoch: instant_now(),
            pending_groups: Vec::new(),
            frames: Vec::new(),
            max_size_per_track: config.max_frame_buffer_size,
            track_state: Vec::new(),
            config,
        };
        assert(r.groups() =~= Map::empty());
        assert(r.tracks() =~= Map::empty());
        assert(r.buffered() =~= Map::empty());
        r
    }
}


/// The state of a track after one more of its objects arrived: the first object of a
/// track gives its kind; every object counts and becomes the last one seen.
pub open spec fn updated_track(tracks: Map<(Seq<char>, Seq<char>), TrackState>, object: MoqObject) -> TrackState {
    let k = object.track_namespace.key();
    if tracks.dom().contains(k) {
        let t = tracks[k];
        TrackState {
            track_namespace: t.track_namespace,
            last_group_id: Some(object.group_id),
            last_object_id: Some(object.object_id),
            track_type: t.track_type,
            stats: TrackStats { objects_received: bump_by(t.stats.objects_received, 1), ..t.stats },
        }
    } else {
        TrackState {
            track_namespace: object.track_namespace,
            last_group_id: Some(object.group_id),
            last_object_id: Some(object.object_id),
            track_type: track_type_of(object.track_name@),
            stats: TrackStats { objects_received: 1, ..TrackStats::zero() },
        }
    }
}

/// The keys of all groups of a track.
pub open spec fn track_group_keys(k: (Seq<char>, Seq<char>)) -> Set<((Seq<char>, Seq<char>), u64)> {
    Set::new(|g: ((Seq<char>, Seq<char>), u64)| g.0 == k)
}

/// A prefix of a list with unique keys has unique keys, and its keys are the list's.
pub proof fn lemma_prefix_keys<T: Keyed>(s: Seq<T>, i: int)
    requires
        keys_unique(s),
        0 <= i < s.len(),
    ensures
        keys_unique(s.subrange(0, i)),
        !has_key(s.subrange(0, i), s[i].key()),
        s.subrange(0, i + 1) == s.subrange(0, i).push(s[i]),
{
    let p = s.subrange(0, i);
    assert forall|a: int, b: int| 0 <= a < p.len() && 0 <= b < p.len() && a != b
        implies (#[trigger] p[a]).key() != (#[trigger] p[b]).key() by {
        assert(p[a] == s[a] && p[b] == s[b]);
    }
    if has_key(p, s[i].key()) {
        let a = choose|a: int| 0 <= a < p.len() && (#[trigger] p[a]).key() == s[i].key();
        assert(p[a] == s[a]);
    }
    assert(s.subrange(0, i + 1) =~= p.push(s[i]));
}

/// The groups of a list, less those of one track, in the same order.
fn drop_track_groups(groups: Vec<GroupAssembly>, ns: &TrackNamespace) -> (r: Vec<GroupAssembly>)
    requires
        keys_unique(groups@),
        forall|i: int| 0 <= i < groups@.len() ==> ids_ascending(#[trigger] groups@[i].objects@),
    ensures
        keys_unique(r@),
        forall|i: int| 0 <= i < r@.len() ==> ids_ascending(#[trigger] r@[i].objects@),
        keyed_map(r@) == keyed_map(groups@).remove_keys(track_group_keys(ns.key())),
{
    let ghost old_groups = groups@;
    let mut groups = groups;
    let mut r: Vec<GroupAssembly> = Vec::new();
    let n = groups.len();
    let mut i: usize = 0;
    while i < n
        invariant
            n == old_groups.len(),
            i <= n,
            groups@ == old_groups.subrange(i as int, n as int),
            keys_unique(old_groups),
            forall|j: int| 0 <= j < old_groups.len() ==> ids_ascending(#[trigger] old_groups[j].objects@),
            keys_unique(r@),
            forall|j: int| 0 <= j < r@.len() ==> ids_ascending(#[trigger] r@[j].objects@),
            keyed_map(r@) == keyed_map(old_groups.subrange(0, i as int)).remove_keys(track_group_keys(ns.key())),
        decreases n - i,
    {
        let ghost prefix = old_groups.subrange(0, i as int);
        proof {
            lemma_prefix_keys(old_groups, i as int);
            lemma_keyed_push(prefix, old_groups[i as int]);
        }
        let g = groups.remove(0);
        assert(g == old_groups[i as int]);
        if g.track_namespace.same_as(ns) {
            proof {
                assert(keyed_map(old_groups.subrange(0, i + 1)).remove_keys(track_group_keys(ns.key())) =~=
                    keyed_map(prefix).remove_keys(track_group_keys(ns.key())));
            }
        } else {
            proof {
                if has_key(r@, g.key()) {
                    assert(keyed_map(r@).dom().contains(g.key()));
                }
                lemma_keyed_push(r@, g);
            }
            r.push(g);
            proof {
                assert(keyed_map(old_groups.subrange(0, i + 1)).remove_keys(track_group_keys(ns.key())) =~=
                    keyed_map(prefix).remove_keys(track_group_keys(ns.key())).insert(old_groups[i as int].key(),
                    old_groups[i as int]));
            }
        }
        i = i + 1;
        assert(groups@ =~= old_groups.subrange(i as int, n as int));
    }
    assert(old_groups.subrange(0, n as int) =~= old_groups);
    r
}


impl MoqObjectAssembler {
    fn find_track(&self, ns: &TrackNamespace) -> (r: Option<usize>)
        ensures
            r matches Some(i) ==> i < self.track_state@.len() && self.track_state@[i as int].key() == ns.key(),
            r is None ==> !has_key(self.track_state@, ns.key()),
    {
        let mut i: usize = 0;
        while i < self.track_state.len()
            invariant
                i <= self.track_state@.len(),
                forall|j: int| 0 <= j < i ==> (#[trigger] self.track_state@[j]).key() != ns.key(),
            decreases self.track_state@.len() - i,
        {
            if self.track_state[i].track_namespace.same_as(ns) {
                return Some(i);
            }
            i = i + 1;
        }
        None
    }

    fn find_group(&self, ns: &TrackNamespace, group_id: u64) -> (r: Option<usize>)
        ensures
            r matches Some(i) ==> i < self.pending_groups@.len() && self.pending_groups@[i as int].key()
                == (ns.key(), group_id),
            r is None ==> !has_key(self.pending_groups@, (ns.key(), group_id)),
    {
        let mut i: usize = 0;
        while i < self.pending_groups.len()
            invariant
                i <= self.pending_groups@.len(),
                forall|j: int| 0 <= j < i ==> (#[trigger] self.pending_groups@[j]).key() != (ns.key(), group_id),
            decreases self.pending_groups@.len() - i,
        {
            if self.pending_groups[i].group_id == group_id && self.pending_groups[i].track_namespace.same_as(ns) {
                return Some(i);
            }
            i = i + 1;
        }
        None
    }

    fn find_frames(&self, ns: &TrackNamespace) -> (r: Option<usize>)
        ensures
            r matches Some(i) ==> i < self.frames@.len() && self.frames@[i as int].key() == ns.key(),
            r is None ==> !has_key(self.frames@, ns.key()),
    {
        let mut i: usize = 0;
        while i < self.frames.len()
            invariant
                i <= self.frames@.len(),
                forall|j: int| 0 <= j < i ==> (#[trigger] self.frames@[j]).key() != ns.key(),
            decreases self.frames@.len() - i,
        {
            if self.frames[i].track_namespace.same_as(ns) {
                return Some(i);
            }
            i = i + 1;
        }
        None
    }

    /// Count the object for its track, creating the track's state on its first object
    fn update_track_state(&mut self, object: &MoqObject)
        requires
            old(self).wf(),
        ensures
            final(self).wf(),
            final(self).groups() == old(self).groups(),
            final(self).buffered() == old(self).buffered(),
            final(self).spec_config() == old(self).spec_config(),
            final(self).pending_groups@ == old(self).pending_groups@,
            final(self).tracks() == old(self).tracks().insert(object.track_namespace.key(),
                updated_track(old(self).tracks(), *object)),
    {
        let ghost old_tracks = self.track_state@;
        match self.find_track(&object.track_namespace) {
            Some(i) => {
                proof { lemma_keyed_index(old_tracks, i as int); }
                let mut t = self.track_state.remove(i);
                t.stats.objects_received = add_wrapped(t.stats.objects_received, 1);
                t.last_group_id = Some(object.group_id);
                t.last_object_id = Some(object.object_id);
                self.track_state.insert(i, t);
                proof {
                    assert(self.track_state@ =~= old_tracks.update(i as int, t));
                    lemma_keyed_update(old_tracks, i as int, t);
                }
            },
            None => {
                let track_type = infer_track_type(object.track_name.as_str());
                let t = TrackState {
                    track_namespace: object.track_namespace.duplicate(),
                    last_group_id: Some(object.group_id),
                    last_object_id: Some(object.object_id),
                    track_type,
                    stats: TrackStats { objects_received: 1, ..TrackStats::default() },
                };
                proof { lemma_keyed_push(old_tracks, t); }
                self.track_state.push(t);
            },
        }
    }

    /// Drop everything of the object's track: its pending groups, its state and its frames
    fn handle_end_of_track(&mut self, object: MoqObject) -> (r: Result<Option<AssembledFrame>, QuicRtcError>)
        requires
            old(self).wf(),
        ensures
            final(self).wf(),
            r matches Ok(None),
            final(self).groups() == old(self).groups().remove_keys(track_group_keys(object.track_namespace.key())),
            final(self).tracks() == old(self).tracks().remove(object.track_namespace.key()),
            final(self).buffered() == old(self).buffered().remove(object.track_namespace.key()),
            final(self).spec_config() == old(self).spec_config(),
    {
        let ns = &object.track_namespace;
        let ghost old_groups = self.pending_groups@;
        let mut groups: Vec<GroupAssembly> = Vec::new();
        std::mem::swap(&mut groups, &mut self.pending_groups);
        self.pending_groups = drop_track_groups(groups, ns);
        proof {
            assert(self.groups() =~= keyed_map(old_groups).map_values(|g: GroupAssembly| g@).remove_keys(
                track_group_keys(ns.key())));
        }
        let ghost old_tracks = self.track_state@;
        match self.find_track(ns) {
            Some(i) => {
                proof { lemma_keyed_remove(old_tracks, i as int); }
                self.track_state.remove(i);
            },
            None => {
                assert(keyed_map(old_tracks).remove(ns.key()) =~= keyed_map(old_tracks));
            },
        }
        let ghost old_frames = self.frames@;
        match self.find_frames(ns) {
            Some(i) => {
                proof { lemma_keyed_remove(old_frames, i as int); }
                self.frames.remove(i);
                assert(self.buffered() =~= keyed_map(old_frames).map_values(|f: TrackFrames| f.frames@).remove(ns.key()));
            },
            None => {
                assert(keyed_map(old_frames).map_values(|f: TrackFrames| f.frames@).remove(ns.key())
                    =~= keyed_map(old_frames).map_values(|f: TrackFrames| f.frames@));
            },
        }
        Ok(None)
    }
}


/// A group that has just been started for the object's track and group, at `now`.
pub open spec fn new_group(object: MoqObject, now: u64) -> GroupView {
    GroupView {
        group_id: object.group_id,
        track_namespace: object.track_namespace,
        objects: Seq::empty(),
        expected_objects: None,
        end_of_group_received: false,
        started_at: now,
        missing_objects: Seq::empty(),
        retransmission_requested: false,
    }
}

/// The group the object belongs to: the pending one, or a new one.
pub open spec fn group_before(groups: Map<((Seq<char>, Seq<char>), u64), GroupView>, object: MoqObject, now: u64) -> GroupView {
    let gk = (object.track_namespace.key(), object.group_id);
    if groups.dom().contains(gk) { groups[gk] } else { new_group(object, now) }
}

/// The group with the object added; an end-of-group object closes the group at the
/// number of objects it then holds.
pub open spec fn group_with_object(g: GroupView, object: MoqObject) -> GroupView {
    let objects = inserted_objects(g.objects, object);
    if object.object_status == MoqObjectStatus::EndOfGroup {
        GroupView { objects, end_of_group_received: true, expected_objects: Some(objects.len() as usize), ..g }
    } else {
        GroupView { objects, ..g }
    }
}

/// A group is complete once its end has arrived and it holds the objects expected, if known.
pub open spec fn group_complete(g: GroupView) -> bool {
    g.end_of_group_received && match g.expected_objects {
        Some(n) => g.objects.len() >= n,
        None => true,
    }
}

/// The kind of a track, data when the track is unknown.
pub open spec fn kind_of(tracks: Map<(Seq<char>, Seq<char>), TrackState>, k: (Seq<char>, Seq<char>)) -> TrackType {
    if tracks.dom().contains(k) { tracks[k].track_type } else { TrackType::Data }
}

/// Whether the group has newly found gaps: some ID is missing and no retransmission was
/// requested yet.
pub open spec fn new_gaps(g: GroupView) -> bool {
    missing_ids(g.objects).len() > 0 && !g.retransmission_requested
}

/// The group with newly found gaps recorded, and retransmission marked as requested when
/// it is enabled.
pub open spec fn with_missing(g: GroupView, enable_retransmission: bool) -> GroupView {
    if new_gaps(g) {
        GroupView { missing_objects: missing_ids(g.objects), retransmission_requested: enable_retransmission, ..g }
    } else {
        g
    }
}

/// `x + n` wrapped to 64 bits.
pub open spec fn bump_by(x: u64, n: u64) -> u64 {
    if x + n > u64::MAX { (x + n - 0x1_0000_0000_0000_0000) as u64 } else { (x + n) as u64 }
}

/// `x` after `n` wrapping increments.
pub open spec fn bump_times(x: u64, n: nat) -> u64
    decreases n,
{
    if n == 0 { x } else { bump_by(bump_times(x, (n - 1) as nat), 1) }
}

/// `x + n`, wrapped to 64 bits
pub fn add_wrapped(x: u64, n: u64) -> (r: u64)
    ensures
        r == bump_by(x, n),
{
    x.wrapping_add(n)
}

/// The track with `n` more retransmission requests counted.
pub open spec fn with_retransmissions(t: TrackState, n: nat) -> TrackState {
    TrackState {
        stats: TrackStats { retransmission_requests: bump_times(t.stats.retransmission_requests, n), ..t.stats },
        ..t
    }
}

/// The track with `n` more missing objects counted, wrapping.
pub open spec fn with_missing_count(t: TrackState, n: u64) -> TrackState {
    TrackState { stats: TrackStats { missing_objects: bump_by(t.stats.missing_objects, n), ..t.stats }, ..t }
}

/// The track with one more group completed and one more frame assembled.
pub open spec fn with_frame_done(t: TrackState) -> TrackState {
    TrackState {
        stats: TrackStats {
            groups_completed: bump_by(t.stats.groups_completed, 1),
            frames_assembled: bump_by(t.stats.frames_assembled, 1),
            ..t.stats
        },
        ..t
    }
}

/// What adding an object does. Its track counts it. An end-of-track object drops the
/// track's groups, state and frames. Any other object joins its group (started now if
/// new); a complete group leaves and is assembled into the returned frame, counted for its
/// track when assembly succeeds; an incomplete group stays, and newly found gaps are
/// recorded, and requested again when retransmission is enabled.
pub open spec fn add_outcome(
    old: MoqObjectAssembler,
    new: MoqObjectAssembler,
    object: MoqObject,
    now: u64,
    r: Result<Option<AssembledFrame>, QuicRtcError>,
) -> bool {
    let k = object.track_namespace.key();
    let t1 = old.tracks().insert(k, updated_track(old.tracks(), object));
    &&& new.spec_config() == old.spec_config()
    &&& if object.object_status == MoqObjectStatus::EndOfTrack {
        &&& new.groups() == old.groups().remove_keys(track_group_keys(k))
        &&& new.tracks() == t1.remove(k)
        &&& new.buffered() == old.buffered().remove(k)
        &&& r matches Ok(None)
    } else {
        let gk = (k, object.group_id);
        let g1 = group_with_object(group_before(old.groups(), object, now), object);
        &&& new.buffered() == old.buffered()
        &&& if group_complete(g1) {
            &&& new.groups() == old.groups().remove(gk)
            &&& match r {
                Ok(Some(f)) => frame_outcome(g1, t1[k].track_type, Ok(f))
                    && new.tracks() == t1.insert(k, with_frame_done(t1[k])),
                Err(e) => frame_outcome(g1, t1[k].track_type, Err(e)) && new.tracks() == t1,
                Ok(None) => false,
            }
        } else {
            &&& new.groups() == old.groups().insert(gk, with_missing(g1, old.spec_config().enable_retransmission))
            &&& new.tracks() == if old.spec_config().enable_retransmission && new_gaps(g1) {
                t1.insert(k, with_retransmissions(t1[k], missing_ids(g1.objects).len()))
            } else {
                t1
            }
            &&& r matches Ok(None)
        }
    }
}

impl MoqObjectAssembler {
    /// The kind of a track (see [`kind_of`])
    fn track_kind(&self, ns: &TrackNamespace) -> (r: TrackType)
        requires
            keys_unique(self.track_state@),
        ensures
            r == kind_of(self.tracks(), ns.key()),
    {
        match self.find_track(ns) {
            Some(i) => {
                proof { lemma_keyed_index(self.track_state@, i as int); }
                self.track_state[i].track_type
            },
            None => TrackType::Data,
        }
    }

    /// Count one retransmission request for the track, if the track is known
    fn count_retransmission(&mut self, track: &TrackNamespace)
        requires
            old(self).wf(),
        ensures
            final(self).wf(),
            final(self).pending_groups@ == old(self).pending_groups@,
            final(self).frames@ == old(self).frames@,
            final(self).config == old(self).config,
            final(self).tracks() == if old(self).tracks().dom().contains(track.key()) {
                old(self).tracks().insert(track.key(), with_retransmissions(old(self).tracks()[track.key()], 1))
            } else {
                old(self).tracks()
            },
    {
        let ghost old_tracks = self.track_state@;
        match self.find_track(track) {
            Some(i) => {
                proof { lemma_keyed_index(old_tracks, i as int); }
                let mut t = self.track_state.remove(i);
                t.stats.retransmission_requests = add_wrapped(t.stats.retransmission_requests, 1);
                self.track_state.insert(i, t);
                proof {
                    assert(self.track_state@ =~= old_tracks.update(i as int, t));
                    lemma_keyed_update(old_tracks, i as int, t);
                    reveal_with_fuel(bump_times, 2);
                    assert(t == with_retransmissions(old_tracks[i as int], 1));
                }
            },
            None => {
                assert(!keyed_map(old_tracks).dom().contains(track.key()));
            },
        }
    }

    /// Request retransmission of an object: when retransmission is enabled, one more
    /// request is counted for the track, if the track is known
    pub fn request_object_retransmission(&mut self, track: &TrackNamespace, object_id: u64) -> (r: Result<(), QuicRtcError>)
        requires
            old(self).wf(),
        ensures
            final(self).wf(),
            r is Ok,
            final(self).pending() == old(self).pending(),
            final(self).groups() == old(self).groups(),
            final(self).buffered() == old(self).buffered(),
            final(self).spec_config() == old(self).spec_config(),
            final(self).tracks() == if old(self).spec_config().enable_retransmission && old(self).tracks().dom().contains(track.key()) {
                old(self).tracks().insert(track.key(), with_retransmissions(old(self).tracks()[track.key()], 1))
            } else {
                old(self).tracks()
            },
    {
        if !self.config.enable_retransmission {
            return Ok(());
        }
        self.count_retransmission(track);
        Ok(())
    }

    /// Record missing objects of a group: every track counts them
    pub fn handle_missing_objects(&mut self, group_id: u64, missing_objects: Vec<u64>)
        requires
            old(self).wf(),
        ensures
            final(self).wf(),
            final(self).groups() == old(self).groups(),
            final(self).buffered() == old(self).buffered(),
            final(self).spec_config() == old(self).spec_config(),
            final(self).tracks() == old(self).tracks().map_values(
                |t: TrackState| with_missing_count(t, missing_objects@.len() as u64)),
    {
        let count = missing_objects.len() as u64;
        let ghost old_tracks = self.track_state@;
        let n = self.track_state.len();
        let mut i: usize = 0;
        while i < n
            invariant
                n == old_tracks.len(),
                self.track_state@.len() == n,
                i <= n,
                forall|j: int| 0 <= j < i ==> #[trigger] self.track_state@[j] == with_missing_count(old_tracks[j], count),
                forall|j: int| i <= j < n ==> #[trigger] self.track_state@[j] == old_tracks[j],
                self.pending_groups@ == old(self).pending_groups@,
                self.frames@ == old(self).frames@,
                self.config == old(self).config,
                old(self).wf(),
                old_tracks == old(self).track_state@,
            decreases n - i,
        {
            let ghost prev = self.track_state@;
            let mut t = self.track_state.remove(i);
            t.stats.missing_objects = add_wrapped(t.stats.missing_objects, count);
            self.track_state.insert(i, t);
            assert(self.track_state@ =~= prev.update(i as int, t));
            i = i + 1;
        }
        proof {
            let f = |t: TrackState| with_missing_count(t, count);
            assert(self.track_state@ =~= old_tracks.map_values(f));
            lemma_keyed_map_values(old_tracks, f);
        }
    }
}



impl MoqObjectAssembler {
    /// The position of the pending group of the track and group ID, started at `now` if
    /// there was none
    fn get_or_create_group_assembly(&mut self, track_namespace: &TrackNamespace, group_id: u64, now: u64) -> (r: usize)
        requires
            old(self).wf(),
        ensures
            final(self).wf(),
            final(self).track_state@ == old(self).track_state@,
            final(self).frames@ == old(self).frames@,
            final(self).config == old(self).config,
            r < final(self).pending_groups@.len(),
            final(self).pending_groups@[r as int].key() == (track_namespace.key(), group_id),
            has_key(old(self).pending_groups@, (track_namespace.key(), group_id)) ==> final(self).pending_groups@
                == old(self).pending_groups@,
            !has_key(old(self).pending_groups@, (track_namespace.key(), group_id)) ==> {
                &&& r == old(self).pending_groups@.len()
                &&& final(self).pending_groups@ == old(self).pending_groups@.push(final(self).pending_groups@[r as int])
                &&& final(self).pending_groups@[r as int]@ == (GroupView {
                    group_id,
                    track_namespace: *track_namespace,
                    objects: Seq::empty(),
                    expected_objects: None,
                    end_of_group_received: false,
                    started_at: now,
                    missing_objects: Seq::empty(),
                    retransmission_requested: false,
                })
            },
    {
        match self.find_group(track_namespace, group_id) {
            Some(i) => i,
            None => {
                let g = GroupAssembly {
                    group_id,
                    track_namespace: track_namespace.duplicate(),
                    objects: Vec::new(),
                    expected_objects: None,
                    end_of_group_received: false,
                    started_at: now,
                    missing_objects: Vec::new(),
                    retransmission_requested: false,
                };
                proof { lemma_keyed_push(self.pending_groups@, g); }
                self.pending_groups.push(g);
                assert(g@.objects =~= Seq::<MoqObject>::empty());
                assert(g@.missing_objects =~= Seq::<u64>::empty());
                self.pending_groups.len() - 1
            },
        }
    }

    /// Whether the group has its end and the objects expected (see [`group_complete`])
    fn is_group_complete(group_assembly: &GroupAssembly) -> (r: bool)
        ensures
            r == group_complete(group_assembly@),
    {
        if group_assembly.end_of_group_received {
            match group_assembly.expected_objects {
                Some(expected_count) => group_assembly.objects.len() >= expected_count,
                None => true,
            }
        } else {
            false
        }
    }

    /// Count a completed group and an assembled frame for the track
    fn count_frame(&mut self, track_namespace: &TrackNamespace)
        requires
            old(self).wf(),
        ensures
            final(self).wf(),
            final(self).pending_groups@ == old(self).pending_groups@,
            final(self).frames@ == old(self).frames@,
            final(self).config == old(self).config,
            final(self).tracks() == if old(self).tracks().dom().contains(track_namespace.key()) {
                old(self).tracks().insert(track_namespace.key(), with_frame_done(old(self).tracks()[track_namespace.key()]))
            } else {
                old(self).tracks()
            },
    {
        let ghost old_tracks = self.track_state@;
        match self.find_track(track_namespace) {
            Some(i) => {
                proof { lemma_keyed_index(old_tracks, i as int); }
                let mut t = self.track_state.remove(i);
                t.stats.groups_completed = add_wrapped(t.stats.groups_completed, 1);
                t.stats.frames_assembled = add_wrapped(t.stats.frames_assembled, 1);
                self.track_state.insert(i, t);
                proof {
                    assert(self.track_state@ =~= old_tracks.update(i as int, t));
                    lemma_keyed_update(old_tracks, i as int, t);
                }
            },
            None => {
                assert(!keyed_map(old_tracks).dom().contains(track_namespace.key()));
            },
        }
    }

    /// Find the IDs missing in the group; when they are new, ask for each again (if
    /// retransmission is enabled) and record them in the group
    fn detect_and_handle_missing_objects(&mut self, track_namespace: &TrackNamespace, group_assembly: &mut GroupAssembly)
        requires
            old(self).wf(),
            ids_ascending(old(group_assembly).objects@),
            old(self).tracks().dom().contains(track_namespace.key()),
        ensures
            final(self).wf(),
            final(self).pending_groups@ == old(self).pending_groups@,
            final(self).frames@ == old(self).frames@,
            final(self).config == old(self).config,
            final(group_assembly)@ == with_missing(old(group_assembly)@, old(self).config.enable_retransmission),
            final(self).tracks() == if old(self).config.enable_retransmission && new_gaps(old(group_assembly)@) {
                old(self).tracks().insert(track_namespace.key(), with_retransmissions(
                    old(self).tracks()[track_namespace.key()], missing_ids(old(group_assembly).objects@).len()))
            } else {
                old(self).tracks()
            },
    {
        if group_assembly.objects.len() < 2 {
            assert(missing_ids(group_assembly.objects@).len() == 0);
            return;
        }
        let missing = find_missing(&group_assembly.objects);
        if missing.len() > 0 && !group_assembly.retransmission_requested {
            if self.config.enable_retransmission {
                let ghost k = track_namespace.key();
                let ghost t0 = self.tracks();
                let mut j: usize = 0;
                while j < missing.len()
                    invariant
                        self.wf(),
                        self.pending_groups@ == old(self).pending_groups@,
                        self.frames@ == old(self).frames@,
                        self.config == old(self).config,
                        self.config.enable_retransmission,
                        t0 == old(self).tracks(),
                        t0.dom().contains(k),
                        k == track_namespace.key(),
                        j <= missing@.len(),
                        self.tracks() == t0.insert(k, with_retransmissions(t0[k], j as nat)),
                    decreases missing@.len() - j,
                {
                    let ghost before = self.tracks();
                    self.count_retransmission(track_namespace);
                    proof {
                        reveal_with_fuel(bump_times, 2);
                        let tj = with_retransmissions(t0[k], j as nat);
                        assert(with_retransmissions(tj, 1) == with_retransmissions(t0[k], (j + 1) as nat));
                        assert(before =~= t0.insert(k, tj));
                    }
                    j = j + 1;
                    assert(self.tracks() =~= t0.insert(k, with_retransmissions(t0[k], j as nat)));
                }
            }
            group_assembly.missing_objects = missing;
            group_assembly.retransmission_requested = self.config.enable_retransmission;
        }
    }
}


impl MoqObjectAssembler {
    /// Add a MoQ object received at `now` (nanoseconds on the assembler's clock) and give
    /// the frame it completes, if any (see [`add_outcome`])
    pub fn add_object_at(&mut self, object: MoqObject, now: u64) -> (r: Result<Option<AssembledFrame>, QuicRtcError>)
        requires
            old(self).wf(),
        ensures
            final(self).wf(),
            add_outcome(*old(self), *final(self), object, now, r),
    {
        let ghost old_self = *self;
        self.update_track_state(&object);
        if object.object_status == MoqObjectStatus::EndOfTrack {
            let r = self.handle_end_of_track(object);
            proof {
                let k = object.track_namespace.key();
                assert(old_self.tracks().insert(k, updated_track(old_self.tracks(), object)).remove(k)
                    =~= old_self.tracks().remove(k));
            }
            return r;
        }
        let ns = object.track_namespace.duplicate();
        let group_id = object.group_id;
        let status = object.object_status;
        let ghost k = ns.key();
        let ghost gk = (k, group_id);
        let ghost groups0 = self.pending_groups@;
        let ghost t1 = self.tracks();
        let i = self.get_or_create_group_assembly(&ns, group_id, now);
        let ghost groups1 = self.pending_groups@;
        let ghost existed = has_key(groups0, gk);
        proof {
            if existed {
                let j = choose|j: int| 0 <= j < groups0.len() && (#[trigger] groups0[j]).key() == gk;
                lemma_keyed_index(groups0, j);
                lemma_keyed_index(groups0, i as int);
                assert(old_self.groups()[gk] == groups0[i as int]@);
            } else {
                assert(!old_self.groups().dom().contains(gk));
            }
            assert(group_before(old_self.groups(), object, now) == groups1[i as int]@);
            assert(ids_ascending(groups1[i as int].objects@));
        }
        let mut g = self.pending_groups.remove(i);
        let ghost g0 = g@;
        insert_object(&mut g.objects, object);
        if status == MoqObjectStatus::EndOfGroup {
            g.end_of_group_received = true;
            g.expected_objects = Some(g.objects.len());
        }
        let ghost g1 = g@;
        assert(g1 == group_with_object(g0, object));
        let ghost rest = self.pending_groups@;
        proof {
            if existed {
                assert(rest =~= groups0.remove(i as int));
                lemma_keyed_remove(groups0, i as int);
            } else {
                assert(rest =~= groups0);
                assert(keyed_map(groups0).remove(gk) =~= keyed_map(groups0));
            }
            assert forall|j: int| 0 <= j < rest.len() implies ids_ascending(#[trigger] rest[j].objects@) by {
                let oj = if j < i { j } else { j + 1 };
                assert(rest[j] == groups1[oj]);
            }
            assert(keys_unique(rest));
        }
        if Self::is_group_complete(&g) {
            let kind = self.track_kind(&ns);
            proof {
                assert(self.groups() =~= old_self.groups().remove(gk));
            }
            match assemble_frame_of_kind(g, kind) {
                Ok(frame) => {
                    self.count_frame(&ns);
                    return Ok(Some(frame));
                },
                Err(e) => {
                    return Err(e);
                },
            }
        }
        self.detect_and_handle_missing_objects(&ns, &mut g);
        let ghost g2 = g@;
        self.pending_groups.insert(i, g);
        proof {
            let now_groups = self.pending_groups@;
            if existed {
                assert(now_groups =~= groups0.update(i as int, g));
                lemma_keyed_update(groups0, i as int, g);
            } else {
                assert(now_groups =~= groups0.push(g));
                lemma_keyed_push(groups0, g);
            }
            assert forall|j: int| 0 <= j < now_groups.len() implies ids_ascending(#[trigger] now_groups[j].objects@) by {
                if j < i { assert(now_groups[j] == rest[j]); }
                else if j > i { assert(now_groups[j] == rest[j - 1]); }
            }
            assert(self.groups() =~= old_self.groups().insert(gk, g2));
        }
        Ok(None)
    }

    /// Add a MoQ object and give the frame it completes, if any: [`Self::add_object_at`]
    /// at the current time
    pub fn add_object(&mut self, object: MoqObject) -> (r: Result<Option<AssembledFrame>, QuicRtcError>)
        requires
            old(self).wf(),
        ensures
            final(self).wf(),
            exists|now: u64| add_outcome(*old(self), *final(self), object, now, r),
    {
        let now = nanos_since(&self.epoch);
        self.add_object_at(object, now)
    }
}


/// Whether a group started at `started_at` has waited longer than `max_wait_ms`
/// milliseconds at `now` (both in nanoseconds; no time has passed if `now` is earlier).
pub open spec fn is_expired(g: GroupView, now: u64, max_wait_ms: u64) -> bool {
    now > g.started_at && now - g.started_at > max_wait_ms * 1_000_000
}

/// The groups that have not expired, in order.
pub open spec fn fresh_groups(groups: Seq<GroupView>, now: u64, max_wait_ms: u64) -> Seq<GroupView>
    decreases groups.len(),
{
    if groups.len() == 0 {
        Seq::empty()
    } else {
        let rest = fresh_groups(groups.drop_last(), now, max_wait_ms);
        if is_expired(groups.last(), now, max_wait_ms) { rest } else { rest.push(groups.last()) }
    }
}

/// Whether assembling the group for a track of the kind succeeds.
pub open spec fn assembles(g: GroupView, kind: TrackType) -> bool {
    g.objects.len() > 0 && if kind == TrackType::Audio {
        audio_bytes(g.objects).len() > 0
    } else {
        payloads_concat(g.objects).len() > 0
    }
}

/// The expired groups whose assembly succeeds, in order.
pub open spec fn ready_groups(
    groups: Seq<GroupView>,
    now: u64,
    max_wait_ms: u64,
    tracks: Map<(Seq<char>, Seq<char>), TrackState>,
) -> Seq<GroupView>
    decreases groups.len(),
{
    if groups.len() == 0 {
        Seq::empty()
    } else {
        let rest = ready_groups(groups.drop_last(), now, max_wait_ms, tracks);
        let g = groups.last();
        if is_expired(g, now, max_wait_ms) && assembles(g, kind_of(tracks, g.track_namespace.key())) {
            rest.push(g)
        } else {
            rest
        }
    }
}

/// An assembly's result is a frame exactly when the group assembles.
pub proof fn lemma_frame_outcome_ok(g: GroupView, kind: TrackType, r: Result<AssembledFrame, QuicRtcError>)
    requires
        frame_outcome(g, kind, r),
    ensures
        r is Ok <==> assembles(g, kind),
{
}

impl MoqObjectAssembler {
    /// Give up waiting on every group that has waited longer than the configured time at
    /// `now`: it leaves, and the frames that its objects assemble into are returned, in the
    /// order of the groups; a group that assembles into nothing is dropped.
    pub fn cleanup_expired_groups_at(&mut self, now: u64) -> (r: Result<Vec<AssembledFrame>, QuicRtcError>)
        requires
            old(self).wf(),
        ensures
            final(self).wf(),
            final(self).pending() == fresh_groups(old(self).pending(), now, old(self).spec_config().max_wait_time),
            final(self).tracks() == old(self).tracks(),
            final(self).buffered() == old(self).buffered(),
            final(self).spec_config() == old(self).spec_config(),
            r matches Ok(frames) && {
                let ready = ready_groups(old(self).pending(), now, old(self).spec_config().max_wait_time, old(self).tracks());
                &&& frames@.len() == ready.len()
                &&& forall|j: int| 0 <= j < ready.len() ==> frame_outcome(ready[j],
                    kind_of(old(self).tracks(), ready[j].track_namespace.key()), Ok(#[trigger] frames@[j]))
            },
    {
        let ghost old_groups = self.pending_groups@;
        let ghost p = self.pending();
        let max_wait_ms = self.config.max_wait_time;
        let mut groups: Vec<GroupAssembly> = Vec::new();
        std::mem::swap(&mut groups, &mut self.pending_groups);
        let mut kept: Vec<GroupAssembly> = Vec::new();
        let mut frames: Vec<AssembledFrame> = Vec::new();
        let ghost mut idx: Seq<int> = Seq::empty();
        let n = groups.len();
        let mut i: usize = 0;
        while i < n
            invariant
                n == old_groups.len(),
                i <= n,
                groups@ == old_groups.subrange(i as int, n as int),
                p == old_groups.map_values(|g: GroupAssembly| g@),
                keys_unique(old_groups),
                forall|j: int| 0 <= j < old_groups.len() ==> ids_ascending(#[trigger] old_groups[j].objects@),
                self.track_state@ == old(self).track_state@,
                self.frames@ == old(self).frames@,
                self.config == old(self).config,
                max_wait_ms == self.config.max_wait_time,
                old(self).wf(),
                idx.len() == kept@.len(),
                forall|a: int| 0 <= a < idx.len() ==> 0 <= #[trigger] idx[a] < i && kept@[a] == old_groups[idx[a]],
                forall|a: int, b: int| 0 <= a < b < idx.len() ==> idx[a] < idx[b],
                kept@.map_values(|g: GroupAssembly| g@) == fresh_groups(p.take(i as int), now, max_wait_ms),
                frames@.len() == ready_groups(p.take(i as int), now, max_wait_ms, self.tracks()).len(),
                forall|j: int| 0 <= j < frames@.len() ==> {
                    let ready = ready_groups(p.take(i as int), now, max_wait_ms, self.tracks());
                    frame_outcome(ready[j], kind_of(self.tracks(), ready[j].track_namespace.key()),
                        Ok(#[trigger] frames@[j]))
                },
            decreases n - i,
        {
            let g = groups.remove(0);
            proof {
                assert(g == old_groups[i as int]);
                assert(p.take(i + 1).drop_last() =~= p.take(i as int));
                assert(p.take(i + 1).last() == g@);
            }
            let expired = now > g.started_at && ((now - g.started_at) as u128) > (max_wait_ms as u128) * 1_000_000;
            if expired {
                let kind = self.track_kind(&g.track_namespace);
                let ghost gv = g@;
                let res = assemble_frame_of_kind(g, kind);
                proof { lemma_frame_outcome_ok(gv, kind, res); }
                match res {
                    Ok(frame) => {
                        frames.push(frame);
                    },
                    Err(_) => {},
                }
            } else {
                proof {
                    idx = idx.push(i as int);
                }
                kept.push(g);
            }
            i = i + 1;
            assert(groups@ =~= old_groups.subrange(i as int, n as int));
            assert(kept@.map_values(|g: GroupAssembly| g@) =~= fresh_groups(p.take(i as int), now, max_wait_ms));
        }
        proof {
            assert(p.take(n as int) =~= p);
            assert(keys_unique(kept@)) by {
                assert forall|a: int, b: int| 0 <= a < kept@.len() && 0 <= b < kept@.len() && a != b
                    implies (#[trigger] kept@[a]).key() != (#[trigger] kept@[b]).key() by {
                    assert(idx[a] != idx[b]);
                    assert(old_groups[idx[a]].key() != old_groups[idx[b]].key());
                }
            }
            assert forall|a: int| 0 <= a < kept@.len() implies ids_ascending(#[trigger] kept@[a].objects@) by {
                assert(kept@[a] == old_groups[idx[a]]);
            }
        }
        self.pending_groups = kept;
        Ok(frames)
    }

    /// Give up waiting on the groups that waited too long, now
    /// ([`Self::cleanup_expired_groups_at`] at the current time)
    pub fn cleanup_expired_groups(&mut self) -> (r: Result<Vec<AssembledFrame>, QuicRtcError>)
        requires
            old(self).wf(),
        ensures
            final(self).wf(),
            final(self).tracks() == old(self).tracks(),
            final(self).buffered() == old(self).buffered(),
            final(self).spec_config() == old(self).spec_config(),
            exists|now: u64| final(self).pending() == fresh_groups(old(self).pending(), now, old(self).spec_config().max_wait_time)
                && (r matches Ok(frames) && {
                let ready = ready_groups(old(self).pending(), now, old(self).spec_config().max_wait_time, old(self).tracks());
                &&& frames@.len() == ready.len()
                &&& forall|j: int| 0 <= j < ready.len() ==> frame_outcome(ready[j],
                    kind_of(old(self).tracks(), ready[j].track_namespace.key()), Ok(#[trigger] frames@[j]))
            }),
    {
        let now = nanos_since(&self.epoch);
        self.cleanup_expired_groups_at(now)
    }
}


impl MoqObjectAssembler {
    /// Take the oldest completed frame of the track, if any
    pub fn get_next_frame(&mut self, track: &TrackNamespace) -> (r: Option<AssembledFrame>)
        requires
            old(self).wf(),
        ensures
            final(self).wf(),
            final(self).pending() == old(self).pending(),
            final(self).tracks() == old(self).tracks(),
            final(self).spec_config() == old(self).spec_config(),
            old(self).buffered().dom().contains(track.key()) && old(self).buffered()[track.key()].len() > 0 ==> {
                &&& r == Some(old(self).buffered()[track.key()][0])
                &&& final(self).buffered() == old(self).buffered().insert(track.key(),
                    old(self).buffered()[track.key()].drop_first())
            },
            !(old(self).buffered().dom().contains(track.key()) && old(self).buffered()[track.key()].len() > 0) ==> {
                &&& r is None
                &&& final(self).buffered() == old(self).buffered()
            },
    {
        let ghost old_frames = self.frames@;
        match self.find_frames(track) {
            Some(i) => {
                proof { lemma_keyed_index(old_frames, i as int); }
                if self.frames[i].frames.len() == 0 {
                    return None;
                }
                let mut t = self.frames.remove(i);
                let ghost before = t.frames@;
                let f = t.frames.remove(0);
                self.frames.insert(i, t);
                proof {
                    assert(self.frames@ =~= old_frames.update(i as int, t));
                    lemma_keyed_update(old_frames, i as int, t);
                    assert(t.frames@ =~= before.drop_first());
                    assert(self.buffered() =~= keyed_map(old_frames).map_values(|f: TrackFrames| f.frames@).insert(
                        track.key(), before.drop_first()));
                }
                Some(f)
            },
            None => None,
        }
    }

    /// Whether the track has completed frames waiting
    pub fn has_frames(&self, track: &TrackNamespace) -> (r: bool)
        requires
            self.wf(),
        ensures
            r == (self.buffered().dom().contains(track.key()) && self.buffered()[track.key()].len() > 0),
    {
        match self.find_frames(track) {
            Some(i) => {
                proof { lemma_keyed_index(self.frames@, i as int); }
                self.frames[i].frames.len() > 0
            },
            None => false,
        }
    }

    /// Statistics of the track, if it is known
    pub fn get_track_stats(&self, track: &TrackNamespace) -> (r: Option<&TrackStats>)
        requires
            self.wf(),
        ensures
            r is Some <==> self.tracks().dom().contains(track.key()),
            r matches Some(st) ==> *st == self.tracks()[track.key()].stats,
    {
        match self.find_track(track) {
            Some(i) => {
                proof { lemma_keyed_index(self.track_state@, i as int); }
                Some(&self.track_state[i].stats)
            },
            None => None,
        }
    }
}

/// Media processor for converting between MoQ objects and media frames
#[derive(Debug)]
pub struct MediaProcessor {}

impl MediaProcessor {
    /// Create new media processor
    pub fn new() -> (r: Self) {
        MediaProcessor {}
    }

    /// Turn an incoming MoQ object into a media frame: for now an empty 640x480 video
    /// frame at time zero, whatever the object
    pub fn process_incoming_object(&mut self, object: MoqObject) -> (r: Result<AssembledFrame, QuicRtcError>)
        ensures
            r matches Ok(AssembledFrame::Video(f)) && f.width == 640 && f.height == 480 && f.data@.len() == 0
                && f.timestamp == 0 && !f.is_keyframe,
    {
        Ok(AssembledFrame::Video(VideoFrame { width: 640, height: 480, data: Vec::new(), timestamp: 0, is_keyframe: false }))
    }

    /// Turn an outgoing media frame into a MoQ object: for now an empty, normal object 0 of
    /// group 0 of track `video` in namespace `example.com`, with priority 1, whatever the frame
    pub fn prepare_outgoing_object(&mut self, frame: AssembledFrame) -> (r: Result<MoqObject, QuicRtcError>)
        ensures
            r matches Ok(o) && o.track_namespace.namespace@ == "example.com"@
                && o.track_namespace.track_name@ == "video"@ && o.track_name@ == "video"@ && o.group_id == 0
                && o.object_id == 0 && o.publisher_priority == 1 && o.payload@.len() == 0
                && o.object_status == MoqObjectStatus::Normal && o.size == 0,
    {
        Ok(MoqObject {
            track_namespace: TrackNamespace {
                namespace: String::from_str("example.com"),
                track_name: String::from_str("video"),
            },
            track_name: String::from_str("video"),
            group_id: 0,
            object_id: 0,
            publisher_priority: 1,
            payload: Vec::new(),
            object_status: MoqObjectStatus::Normal,
            created_at: unix_time_millis(),
            size: 0,
        })
    }
}

impl Default for MediaProcessor {
    fn default() -> (r: Self) {
        MediaProcessor::new()
    }
}


impl Default for MoqObjectAssembler {
    fn default() -> (r: Self)
        ensures
            r.wf(),
            r.groups().is_empty(),
            r.tracks().is_empty(),
            r.buffered().is_empty(),
    {
        MoqObjectAssembler::new()
    }
}

/// An end-of-group object completes its group: adding it gives a frame or an assembly
/// error, never "more objects needed", and the group is no longer pending.
pub proof fn lemma_end_of_group_completes(
    old: MoqObjectAssembler,
    new: MoqObjectAssembler,
    object: MoqObject,
    now: u64,
    r: Result<Option<AssembledFrame>, QuicRtcError>,
)
    requires
        add_outcome(old, new, object, now, r),
        object.object_status == MoqObjectStatus::EndOfGroup,
    ensures
        !(r matches Ok(None)),
        !new.groups().dom().contains((object.track_namespace.key(), object.group_id)),
{
    let g1 = group_with_object(group_before(old.groups(), object, now), object);
    assert(group_complete(g1));
}

/// An object that is neither an end of group nor an end of track, added to a group that
/// has not seen its end, completes nothing: the group stays pending with the object in it.
pub proof fn lemma_normal_object_waits(
    old: MoqObjectAssembler,
    new: MoqObjectAssembler,
    object: MoqObject,
    now: u64,
    r: Result<Option<AssembledFrame>, QuicRtcError>,
)
    requires
        add_outcome(old, new, object, now, r),
        object.object_status == MoqObjectStatus::Normal,
        !group_before(old.groups(), object, now).end_of_group_received,
    ensures
        r matches Ok(None),
        new.groups().dom().contains((object.track_namespace.key(), object.group_id)),
        new.groups()[(object.track_namespace.key(), object.group_id)].objects.contains(object),
{
    let g0 = group_before(old.groups(), object, now);
    let g1 = group_with_object(g0, object);
    assert(!group_complete(g1));
    let objects = g0.objects;
    lemma_count_below_bound(objects, object.object_id);
    let p = count_below(objects, object.object_id) as int;
    assert(g1.objects[p] == object);
    let gk = (object.track_namespace.key(), object.group_id);
    assert(new.groups()[gk].objects[p] == object);
}

/// At most all objects have an ID below any bound.
pub proof fn lemma_count_below_bound(objects: Seq<MoqObject>, id: u64)
    ensures
        count_below(objects, id) <= objects.len(),
    decreases objects.len(),
{
    if objects.len() > 0 {
        lemma_count_below_bound(objects.drop_last(), id);
    }
}

/// No group that is left after a cleanup has expired at that time.
pub proof fn lemma_fresh_groups_not_expired(groups: Seq<GroupView>, now: u64, max_wait_ms: u64)
    ensures
        forall|j: int| 0 <= j < fresh_groups(groups, now, max_wait_ms).len() ==> !is_expired(
            #[trigger] fresh_groups(groups, now, max_wait_ms)[j], now, max_wait_ms),
    decreases groups.len(),
{
    if groups.len() > 0 {
        lemma_fresh_groups_not_expired(groups.drop_last(), now, max_wait_ms);
        let rest = fresh_groups(groups.drop_last(), now, max_wait_ms);
        if !is_expired(groups.last(), now, max_wait_ms) {
            assert forall|j: int| 0 <= j < rest.len() + 1 implies !is_expired(
                #[trigger] rest.push(groups.last())[j], now, max_wait_ms) by {
                if j < rest.len() {
                    assert(rest.push(groups.last())[j] == rest[j]);
                }
            }
        }
    }
}

/// Cleaning up twice at the same time: the second cleanup finds nothing expired, keeps
/// every group and returns no frame.
pub proof fn lemma_cleanup_idempotent(
    groups: Seq<GroupView>,
    now: u64,
    max_wait_ms: u64,
    tracks: Map<(Seq<char>, Seq<char>), TrackState>,
)
    ensures
        fresh_groups(fresh_groups(groups, now, max_wait_ms), now, max_wait_ms) == fresh_groups(groups, now, max_wait_ms),
        ready_groups(fresh_groups(groups, now, max_wait_ms), now, max_wait_ms, tracks).len() == 0,
    decreases groups.len(),
{
    if groups.len() > 0 {
        let init = groups.drop_last();
        lemma_cleanup_idempotent(init, now, max_wait_ms, tracks);
        let f = fresh_groups(init, now, max_wait_ms);
        if !is_expired(groups.last(), now, max_wait_ms) {
            assert(f.push(groups.last()).drop_last() =~= f);
        }
    }
}

} // verus!
