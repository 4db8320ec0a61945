//! What a room decides around its local media: the device checks made when its
//! media subsystems start, the checks that come before publishing the camera or the
//! microphone, the names a published track is announced under, and the settings the
//! camera is started with. The transport, the devices and the clock stay with the
//! caller, which hands their answers in as plain values.
use vstd::prelude::*;
use crate::codecs::VideoQuality;
use crate::error::QuicRtcError;
use crate::session::{RoomState, TrackKind};
use crate::text::push_str;
use crate::video::{VideoPixelFormat, VideoResolution};

verus! {

/// The name of a room state, as its `Debug` form prints it.
pub open spec fn room_state_name(s: RoomState) -> Seq<char> {
    match s {
        RoomState::Disconnected => "Disconnected"@,
        RoomState::Connecting => "Connecting"@,
        RoomState::Connected => "Connected"@,
        RoomState::Reconnecting => "Reconnecting"@,
        RoomState::Disconnecting => "Disconnecting"@,
    }
}

/// The name of a room state, as its `Debug` form prints it.
pub fn room_state_text(state: RoomState) -> (r: String)
    ensures
        r@ == room_state_name(state),
{
    match state {
        RoomState::Disconnected => String::from_str("Disconnected"),
        RoomState::Connecting => String::from_str("Connecting"),
        RoomState::Connected => String::from_str("Connected"),
        RoomState::Reconnecting => String::from_str("Reconnecting"),
        RoomState::Disconnecting => String::from_str("Disconnecting"),
    }
}

/// Why a publish is refused when its kind of media is switched off in the room's
/// configuration.
pub open spec fn media_disabled_reason(kind: TrackKind) -> Seq<char> {
    match kind {
        TrackKind::Video => "video_enabled must be true to publish camera"@,
        TrackKind::Audio => "audio_enabled must be true to publish microphone"@,
    }
}

/// The device a publish of `kind` needs: the video capture or the audio renderer.
pub open spec fn device_expected(kind: TrackKind) -> Seq<char> {
    match kind {
        TrackKind::Video => "Video capture initialized"@,
        TrackKind::Audio => "Audio renderer initialized"@,
    }
}

/// What is reported when the device a publish of `kind` needs is missing.
pub open spec fn device_missing(kind: TrackKind) -> Seq<char> {
    match kind {
        TrackKind::Video => "Video capture not available"@,
        TrackKind::Audio => "Audio renderer not available"@,
    }
}

fn invalid_state(expected: &str, actual: String) -> (r: QuicRtcError)
    ensures
        r matches QuicRtcError::InvalidState { expected: e, actual: a } && e@ == expected@ && a@
            == actual@,
{
    QuicRtcError::InvalidState { expected: String::from_str(expected), actual }
}

/// Whether `r` is what the checks before a publish of `kind` answer, in the order
/// they are made: the room must be connected, the kind of media must be enabled in its
/// configuration, a MoQ transport must be there, and so must the device (the video
/// capture or the audio renderer). The first check that fails gives the error.
pub open spec fn preflight_answer(
    r: Result<(), QuicRtcError>,
    state: RoomState,
    kind: TrackKind,
    media_enabled: bool,
    transport_ready: bool,
    device_ready: bool,
) -> bool {
    &&& state != RoomState::Connected ==> (r matches Err(
        QuicRtcError::InvalidState { expected, actual },
    ) && expected@ == "Connected"@ && actual@ == room_state_name(state))
    &&& state == RoomState::Connected && !media_enabled ==> (r matches Err(
        QuicRtcError::InvalidData { reason },
    ) && reason@ == media_disabled_reason(kind))
    &&& state == RoomState::Connected && media_enabled && !transport_ready ==> (r matches Err(
        QuicRtcError::InvalidState { expected, actual },
    ) && expected@ == "MoQ transport connected"@ && actual@ == "MoQ transport not available"@)
    &&& state == RoomState::Connected && media_enabled && transport_ready && !device_ready ==> (
    r matches Err(QuicRtcError::InvalidState { expected, actual }) && expected@ == device_expected(
        kind,
    ) && actual@ == device_missing(kind))
    &&& r is Ok <==> (state == RoomState::Connected && media_enabled && transport_ready
        && device_ready)
}

/// The checks made before a track of `kind` is published (the camera for `Video`,
/// the microphone for `Audio`), as `preflight_answer` states them.
pub fn publish_preflight(
    state: RoomState,
    kind: TrackKind,
    media_enabled: bool,
    transport_ready: bool,
    device_ready: bool,
) -> (r: Result<(), QuicRtcError>)
    ensures
        preflight_answer(r, state, kind, media_enabled, transport_ready, device_ready),
{
    if state != RoomState::Connected {
        return Err(invalid_state("Connected", room_state_text(state)));
    }
    if !media_enabled {
        let reason = match kind {
            TrackKind::Video => String::from_str("video_enabled must be true to publish camera"),
            TrackKind::Audio => String::from_str(
                "audio_enabled must be true to publish microphone",
            ),
        };
        return Err(QuicRtcError::InvalidData { reason });
    }
    if !transport_ready {
        return Err(
            invalid_state("MoQ transport connected", String::from_str("MoQ transport not available")),
        );
    }
    if !device_ready {
        return Err(
            match kind {
                TrackKind::Video => invalid_state(
                    "Video capture initialized",
                    String::from_str("Video capture not available"),
                ),
                TrackKind::Audio => invalid_state(
                    "Audio renderer initialized",
                    String::from_str("Audio renderer not available"),
                ),
            },
        );
    }
    Ok(())
}

/// A device listing that found nothing: `Some(Ok(0))`.
pub open spec fn listing_empty(listing: Option<Result<usize, String>>) -> bool {
    listing matches Some(Ok(n)) && n == 0
}

/// Refusal of an audio device listing: only a listing that succeeded and found no
/// device is refused; one that failed, or none made, lets the caller carry on.
pub fn audio_device_check(listing: &Option<Result<usize, String>>) -> (r: Result<(), QuicRtcError>)
    ensures
        listing_empty(*listing) ==> (r matches Err(QuicRtcError::MediaProcessing { reason })
            && reason@ == "No audio input devices available - check permissions"@),
        r is Ok <==> !listing_empty(*listing),
{
    match listing {
        Some(Ok(n)) => {
            if *n == 0 {
                return Err(
                    QuicRtcError::MediaProcessing {
                        reason: String::from_str(
                            "No audio input devices available - check permissions",
                        ),
                    },
                );
            }
            Ok(())
        },
        _ => Ok(()),
    }
}

/// The checks before the microphone is published: the listing of audio input
/// devices that the renderer gave (`None` where there is no renderer or no listing
/// is made) comes first, then those of `publish_preflight` for audio.
pub fn microphone_preflight(
    listing: &Option<Result<usize, String>>,
    state: RoomState,
    audio_enabled: bool,
    transport_ready: bool,
    renderer_ready: bool,
) -> (r: Result<(), QuicRtcError>)
    ensures
        listing_empty(*listing) ==> (r matches Err(QuicRtcError::MediaProcessing { reason })
            && reason@ == "No audio input devices available - check permissions"@),
        !listing_empty(*listing) ==> preflight_answer(
            r,
            state,
            TrackKind::Audio,
            audio_enabled,
            transport_ready,
            renderer_ready,
        ),
{
    match audio_device_check(listing) {
        Err(e) => Err(e),
        Ok(()) => {
            publish_preflight(state, TrackKind::Audio, audio_enabled, transport_ready, renderer_ready)
        },
    }
}


/// Whether a camera listing refuses the start-up: it found no camera, or it failed.
pub open spec fn camera_listing_refused(listing: Option<Result<usize, String>>) -> bool {
    listing_empty(listing) || listing matches Some(Err(_))
}

/// The device checks made when a room starts its media subsystems. `cameras` is
/// what the camera listing gave and `outputs` what the audio device listing gave,
/// `None` where no listing was made. With video enabled, a camera listing that found
/// nothing or failed refuses the start-up; then, with audio enabled, an audio
/// listing that found nothing refuses it, while one that failed does not.
pub fn media_startup_outcome(
    video_enabled: bool,
    cameras: Option<Result<usize, String>>,
    audio_enabled: bool,
    outputs: Option<Result<usize, String>>,
) -> (r: Result<(), QuicRtcError>)
    ensures
        video_enabled && listing_empty(cameras) ==> (r matches Err(
            QuicRtcError::MediaProcessing { reason },
        ) && reason@ == "No camera devices available - check permissions"@),
        video_enabled ==> (cameras matches Some(Err(e)) ==> r matches Err(
            QuicRtcError::MediaProcessing { reason },
        ) && reason@ == "Camera access denied during initialization: "@ + e@),
        !(video_enabled && camera_listing_refused(cameras)) && audio_enabled && listing_empty(
            outputs,
        ) ==> (r matches Err(QuicRtcError::MediaProcessing { reason }) && reason@
            == "No audio input devices available - check permissions"@),
        r is Ok <==> !(video_enabled && camera_listing_refused(cameras)) && !(audio_enabled
            && listing_empty(outputs)),
{
    if video_enabled {
        match cameras {
            Some(Ok(n)) => {
                if n == 0 {
                    return Err(
                        QuicRtcError::MediaProcessing {
                            reason: String::from_str(
                                "No camera devices available - check permissions",
                            ),
                        },
                    );
                }
            },
            Some(Err(e)) => {
                let mut reason = String::from_str("Camera access denied during initialization: ");
                push_str(&mut reason, e.as_str());
                return Err(QuicRtcError::MediaProcessing { reason });
            },
            None => {},
        }
    }
    if audio_enabled {
        audio_device_check(&outputs)
    } else {
        Ok(())
    }
}

/// The short name of a published track of `kind`: `camera` or `microphone`.
pub open spec fn published_label(kind: TrackKind) -> Seq<char> {
    match kind {
        TrackKind::Video => "camera"@,
        TrackKind::Audio => "microphone"@,
    }
}

/// The short name of a published track of `kind`: `camera` or `microphone`.
pub fn published_track_label(kind: TrackKind) -> (r: &'static str)
    ensures
        r@ == published_label(kind),
{
    match kind {
        TrackKind::Video => "camera",
        TrackKind::Audio => "microphone",
    }
}

/// The namespace and the track name a published track of `kind` is announced
/// under: `room.` and the room's id, then the participant's id, `/` and the label.
pub fn published_track_names(room_id: &String, participant_id: &String, kind: TrackKind) -> (r: (
    String,
    String,
))
    ensures
        r.0@ == "room."@ + room_id@,
        r.1@ == participant_id@ + "/"@ + published_label(kind),
{
    let mut namespace = String::from_str("room.");
    push_str(&mut namespace, room_id.as_str());
    let mut track_name = String::new();
    push_str(&mut track_name, participant_id.as_str());
    push_str(&mut track_name, "/");
    push_str(&mut track_name, published_track_label(kind));
    (namespace, track_name)
}

/// The id a published track of `kind` is kept under in the room: the label, `-` and
/// a text the caller makes unique (a fresh UUID).
pub fn published_track_id(kind: TrackKind, unique: &String) -> (r: String)
    ensures
        r@ == published_label(kind) + "-"@ + unique@,
{
    let mut id = String::new();
    push_str(&mut id, published_track_label(kind));
    push_str(&mut id, "-");
    push_str(&mut id, unique.as_str());
    id
}

/// The settings the camera is started with when it is published, but for the
/// frame rate: the room's quality preset gives the resolution.
#[derive(Debug, Clone, Copy, PartialEq, Eq)]
pub struct CameraCaptureSettings {
    /// Capture resolution
    pub resolution: VideoResolution,
    /// Pixel format of the captured frames
    pub pixel_format: VideoPixelFormat,
    /// Whether hardware acceleration is asked for
    pub hardware_acceleration: bool,
    /// Number of frames buffered
    pub buffer_size: usize,
    /// Whether captured frames are processed
    pub enable_processing: bool,
}

/// The camera's settings for a room whose quality preset is `quality`: its
/// capture size, YUV 4:2:0 planar frames, hardware acceleration, three buffered
/// frames and frame processing.
pub fn camera_capture_settings(quality: VideoQuality) -> (r: CameraCaptureSettings)
    ensures
        r.resolution.width == quality.capture_size_of().0,
        r.resolution.height == quality.capture_size_of().1,
        r.pixel_format == VideoPixelFormat::YUV420P,
        r.hardware_acceleration,
        r.buffer_size == 3,
        r.enable_processing,
{
    let (width, height) = quality.capture_size();
    CameraCaptureSettings {
        resolution: VideoResolution::new(width, height),
        pixel_format: VideoPixelFormat::YUV420P,
        hardware_acceleration: true,
        buffer_size: 3,
        enable_processing: true,
    }
}


/// A step of starting a room's devices whose failure the room reports as a media
/// processing error.
#[derive(Debug, Clone, Copy, PartialEq, Eq, Structural)]
pub enum MediaStep {
    /// Creating the video capture manager
    CaptureInit,
    /// Starting the camera's capture
    CaptureStart,
    /// Setting the audio renderer's volume
    VolumeSet,
}

/// The text that comes before the device's own report when `step` fails.
pub open spec fn media_step_prefix(step: MediaStep) -> Seq<char> {
    match step {
        MediaStep::CaptureInit => "Failed to initialize video capture: "@,
        MediaStep::CaptureStart => "Video capture failed: "@,
        MediaStep::VolumeSet => "Failed to set audio volume: "@,
    }
}

/// The error reported when `step` fails with the device's report `detail`.
pub fn media_step_failure(step: MediaStep, detail: &String) -> (r: QuicRtcError)
    ensures
        r matches QuicRtcError::MediaProcessing { reason } && reason@ == media_step_prefix(step)
            + detail@,
{
    let mut reason = match step {
        MediaStep::CaptureInit => String::from_str("Failed to initialize video capture: "),
        MediaStep::CaptureStart => String::from_str("Video capture failed: "),
        MediaStep::VolumeSet => String::from_str("Failed to set audio volume: "),
    };
    push_str(&mut reason, detail.as_str());
    QuicRtcError::MediaProcessing { reason }
}

} // verus!
