//! Error types of the media layer and of the transport/session layer,
//! with their classification and their messages.
use vstd::prelude::*;
use crate::text::{decimal_digits, push_decimal, push_str};
use std::time::Duration;

verus! {

#[verifier::external_type_specification]
#[verifier::external_body]
pub struct ExIoError(std::io::Error);

/// Main error type for media processing operations
#[derive(Debug)]
pub enum MediaError {
    /// I/O operation failed
    Io { source: std::io::Error },
    /// Invalid configuration provided
    InvalidConfiguration { message: String },
    /// Encoding operation failed
    EncodingFailed { codec: String, reason: String },
    /// Decoding operation failed
    DecodingFailed { codec: String, reason: String },
    /// Invalid media type error
    InvalidMediaType { expected: String, actual: String },
    /// Unsupported platform error
    UnsupportedPlatform { platform: String },
    /// Unsupported format error
    UnsupportedFormat { format: String },
    /// Invalid frame data error
    InvalidFrameData { expected: usize, actual: usize },
    /// Device enumeration failed
    DeviceEnumerationFailed { reason: String },
    /// Device not found error
    DeviceNotFound { device_id: String },
    /// Capture not active error
    CaptureNotActive,
    /// Configuration error
    ConfigurationError { message: String },
    /// Buffer overflow error
    BufferOverflow { size: usize },
    /// Timeout error
    Timeout { duration: Duration },
    /// Resource not available
    ResourceNotAvailable { resource: String },
    /// Hardware acceleration not available
    HardwareAccelerationNotAvailable { reason: String },
    /// Permission denied error
    PermissionDenied { operation: String },
    /// Audio specific errors
    Audio { message: String },
    /// Video specific errors
    Video { message: String },
    /// Codec initialization failed
    CodecInitializationFailed { codec: String, reason: String },
    /// Invalid state for operation
    InvalidState { message: String },
    /// FFI error from external libraries
    FfiError { library: String, message: String },
    /// Memory allocation failed
    MemoryAllocationFailed { size: usize },
    /// Sample rate mismatch
    SampleRateMismatch { expected: u32, actual: u32 },
    /// Channel count mismatch
    ChannelCountMismatch { expected: u32, actual: u32 },
    /// Bandwidth estimation error
    BandwidthEstimationError { message: String },
}

/// Error categories for classification
#[derive(Debug, Clone, Copy, PartialEq, Eq, Structural)]
pub enum ErrorCategory {
    /// System-level errors (I/O, permissions, etc.)
    System,
    /// Configuration and parameter errors
    Configuration,
    /// Codec-related errors
    Codec,
    /// Format and data structure errors
    Format,
    /// Platform compatibility errors
    Platform,
    /// Data validation errors
    Data,
    /// Device and hardware errors
    Device,
    /// State management errors
    State,
    /// Memory management errors
    Memory,
    /// Audio-specific errors
    Audio,
    /// Video-specific errors
    Video,
    /// Network-related errors
    Network,
}

/// The category each kind of media error belongs to.
pub open spec fn category_of(e: MediaError) -> ErrorCategory {
    match e {
        MediaError::Io { .. } => ErrorCategory::System,
        MediaError::InvalidConfiguration { .. } => ErrorCategory::Configuration,
        MediaError::EncodingFailed { .. } => ErrorCategory::Codec,
        MediaError::DecodingFailed { .. } => ErrorCategory::Codec,
        MediaError::InvalidMediaType { .. } => ErrorCategory::Format,
        MediaError::UnsupportedPlatform { .. } => ErrorCategory::Platform,
        MediaError::UnsupportedFormat { .. } => ErrorCategory::Format,
        MediaError::InvalidFrameData { .. } => ErrorCategory::Data,
        MediaError::DeviceEnumerationFailed { .. } => ErrorCategory::Device,
        MediaError::DeviceNotFound { .. } => ErrorCategory::Device,
        MediaError::CaptureNotActive => ErrorCategory::State,
        MediaError::ConfigurationError { .. } => ErrorCategory::Configuration,
        MediaError::BufferOverflow { .. } => ErrorCategory::Memory,
        MediaError::Timeout { .. } => ErrorCategory::System,
        MediaError::ResourceNotAvailable { .. } => ErrorCategory::System,
        MediaError::HardwareAccelerationNotAvailable { .. } => ErrorCategory::Platform,
        MediaError::PermissionDenied { .. } => ErrorCategory::System,
        MediaError::Audio { .. } => ErrorCategory::Audio,
        MediaError::Video { .. } => ErrorCategory::Video,
        MediaError::CodecInitializationFailed { .. } => ErrorCategory::Codec,
        MediaError::InvalidState { .. } => ErrorCategory::State,
        MediaError::FfiError { .. } => ErrorCategory::System,
        MediaError::MemoryAllocationFailed { .. } => ErrorCategory::Memory,
        MediaError::SampleRateMismatch { .. } => ErrorCategory::Audio,
        MediaError::ChannelCountMismatch { .. } => ErrorCategory::Audio,
        MediaError::BandwidthEstimationError { .. } => ErrorCategory::Network,
    }
}

/// Whether an error of this kind may go away when the operation is retried.
pub open spec fn recoverable(e: MediaError) -> bool {
    ||| e is Io
    ||| e is Timeout
    ||| e is ResourceNotAvailable
    ||| e is BufferOverflow
    ||| e is HardwareAccelerationNotAvailable
}

/// The text of a media error whose fields are all strings and integers.
/// `Io` and `Timeout` render an outside value and are described by their prefix only.
pub open spec fn media_error_text(e: MediaError) -> Seq<char> {
    match e {
        MediaError::Io { .. } => "I/O error: "@,
        MediaError::InvalidConfiguration { message } => "Invalid configuration: "@ + message@,
        MediaError::EncodingFailed { codec, reason } =>
            "Encoding failed: "@ + codec@ + " - "@ + reason@,
        MediaError::DecodingFailed { codec, reason } =>
            "Decoding failed: "@ + codec@ + " - "@ + reason@,
        MediaError::InvalidMediaType { expected, actual } =>
            "Invalid media type: expected "@ + expected@ + ", got "@ + actual@,
        MediaError::UnsupportedPlatform { platform } => "Unsupported platform: "@ + platform@,
        MediaError::UnsupportedFormat { format } => "Unsupported format: "@ + format@,
        MediaError::InvalidFrameData { expected, actual } =>
            "Invalid frame data: expected "@ + decimal_digits(expected as nat) + " bytes, got "@
                + decimal_digits(actual as nat),
        MediaError::DeviceEnumerationFailed { reason } =>
            "Device enumeration failed: "@ + reason@,
        MediaError::DeviceNotFound { device_id } => "Device not found: "@ + device_id@,
        MediaError::CaptureNotActive => "Capture not active"@,
        MediaError::ConfigurationError { message } => "Configuration error: "@ + message@,
        MediaError::BufferOverflow { size } =>
            "Buffer overflow: "@ + decimal_digits(size as nat) + " bytes"@,
        MediaError::Timeout { .. } => "Operation timed out after "@,
        MediaError::ResourceNotAvailable { resource } =>
            "Resource not available: "@ + resource@,
        MediaError::HardwareAccelerationNotAvailable { reason } =>
            "Hardware acceleration not available: "@ + reason@,
        MediaError::PermissionDenied { operation } => "Permission denied: "@ + operation@,
        MediaError::Audio { message } => "Audio error: "@ + message@,
        MediaError::Video { message } => "Video error: "@ + message@,
        MediaError::CodecInitializationFailed { codec, reason } =>
            "Codec initialization failed: "@ + codec@ + " - "@ + reason@,
        MediaError::InvalidState { message } => "Invalid state: "@ + message@,
        MediaError::FfiError { library, message } =>
            "FFI error: "@ + library@ + " - "@ + message@,
        MediaError::MemoryAllocationFailed { size } =>
            "Memory allocation failed: "@ + decimal_digits(size as nat) + " bytes"@,
        MediaError::SampleRateMismatch { expected, actual } =>
            "Sample rate mismatch: expected "@ + decimal_digits(expected as nat) + ", got "@
                + decimal_digits(actual as nat),
        MediaError::ChannelCountMismatch { expected, actual } =>
            "Channel count mismatch: expected "@ + decimal_digits(expected as nat) + ", got "@
                + decimal_digits(actual as nat),
        MediaError::BandwidthEstimationError { message } =>
            "Bandwidth estimation error: "@ + message@,
    }
}

/// Display text of an I/O error (`<std::io::Error as Display>`).
/// The text depends on the operating system's message for the error and is not stated.
#[verifier::external_body]
fn io_error_display(e: &std::io::Error) -> String {
    e.to_string()
}

/// Debug text of a duration (`<Duration as Debug>`). Nothing is stated of the text.
#[verifier::external_body]
fn duration_debug(d: &Duration) -> String {
    format!("{:?}", d)
}

fn labelled(label: &str, value: &String) -> (r: String)
    ensures
        r@ == label@ + value@,
{
    let mut s = String::new();
    push_str(&mut s, label);
    push_str(&mut s, value.as_str());
    assert(s@ =~= label@ + value@);
    s
}

fn labelled_pair(label: &str, first: &String, sep: &str, second: &String) -> (r: String)
    ensures
        r@ == label@ + first@ + sep@ + second@,
{
    let mut s = String::new();
    push_str(&mut s, label);
    push_str(&mut s, first.as_str());
    push_str(&mut s, sep);
    push_str(&mut s, second.as_str());
    assert(s@ =~= label@ + first@ + sep@ + second@);
    s
}

fn labelled_numbers(label: &str, first: u64, sep: &str, second: u64) -> (r: String)
    ensures
        r@ == label@ + decimal_digits(first as nat) + sep@ + decimal_digits(second as nat),
{
    let mut s = String::new();
    push_str(&mut s, label);
    push_decimal(&mut s, first);
    push_str(&mut s, sep);
    push_decimal(&mut s, second);
    assert(s@ =~= label@ + decimal_digits(first as nat) + sep@ + decimal_digits(second as nat));
    s
}

fn labelled_size(label: &str, size: u64, suffix: &str) -> (r: String)
    ensures
        r@ == label@ + decimal_digits(size as nat) + suffix@,
{
    let mut s = String::new();
    push_str(&mut s, label);
    push_decimal(&mut s, size);
    push_str(&mut s, suffix);
    assert(s@ =~= label@ + decimal_digits(size as nat) + suffix@);
    s
}

impl MediaError {
    /// Check if error is recoverable
    pub fn is_recoverable(&self) -> (r: bool)
        ensures
            r == recoverable(*self),
    {
        match self {
            MediaError::Io { .. } => true,
            MediaError::Timeout { .. } => true,
            MediaError::ResourceNotAvailable { .. } => true,
            MediaError::BufferOverflow { .. } => true,
            MediaError::EncodingFailed { .. } => false,
            MediaError::DecodingFailed { .. } => false,
            MediaError::UnsupportedPlatform { .. } => false,
            MediaError::UnsupportedFormat { .. } => false,
            MediaError::CodecInitializationFailed { .. } => false,
            MediaError::PermissionDenied { .. } => false,
            MediaError::HardwareAccelerationNotAvailable { .. } => true,
            _ => false,
        }
    }

    /// Get error category
    pub fn category(&self) -> (c: ErrorCategory)
        ensures
            c == category_of(*self),
    {
        match self {
            MediaError::Io { .. } => ErrorCategory::System,
            MediaError::InvalidConfiguration { .. } => ErrorCategory::Configuration,
            MediaError::EncodingFailed { .. } => ErrorCategory::Codec,
            MediaError::DecodingFailed { .. } => ErrorCategory::Codec,
            MediaError::InvalidMediaType { .. } => ErrorCategory::Format,
            MediaError::UnsupportedPlatform { .. } => ErrorCategory::Platform,
            MediaError::UnsupportedFormat { .. } => ErrorCategory::Format,
            MediaError::InvalidFrameData { .. } => ErrorCategory::Data,
            MediaError::DeviceEnumerationFailed { .. } => ErrorCategory::Device,
            MediaError::DeviceNotFound { .. } => ErrorCategory::Device,
            MediaError::CaptureNotActive => ErrorCategory::State,
            MediaError::ConfigurationError { .. } => ErrorCategory::Configuration,
            MediaError::BufferOverflow { .. } => ErrorCategory::Memory,
            MediaError::Timeout { .. } => ErrorCategory::System,
            MediaError::ResourceNotAvailable { .. } => ErrorCategory::System,
            MediaError::HardwareAccelerationNotAvailable { .. } => ErrorCategory::Platform,
            MediaError::PermissionDenied { .. } => ErrorCategory::System,
            MediaError::Audio { .. } => ErrorCategory::Audio,
            MediaError::Video { .. } => ErrorCategory::Video,
            MediaError::CodecInitializationFailed { .. } => ErrorCategory::Codec,
            MediaError::InvalidState { .. } => ErrorCategory::State,
            MediaError::FfiError { .. } => ErrorCategory::System,
            MediaError::MemoryAllocationFailed { .. } => ErrorCategory::Memory,
            MediaError::SampleRateMismatch { .. } => ErrorCategory::Audio,
            MediaError::ChannelCountMismatch { .. } => ErrorCategory::Audio,
            MediaError::BandwidthEstimationError { .. } => ErrorCategory::Network,
        }
    }

    /// The error's display text, as `to_string()` would give it.
    pub fn message(&self) -> (r: String)
        ensures
            !(self is Io) && !(self is Timeout) ==> r@ == media_error_text(*self),
            (self is Io) || (self is Timeout) ==> r@.len() >= media_error_text(*self).len()
                && r@.subrange(0, media_error_text(*self).len() as int) == media_error_text(*self),
    {
        match self {
            MediaError::Io { source } => {
                let mut s = String::new();
                push_str(&mut s, "I/O error: ");
                let tail = io_error_display(source);
                let ghost head = s@;
                push_str(&mut s, tail.as_str());
                assert(s@.subrange(0, head.len() as int) =~= head);
                s
            },
            MediaError::InvalidConfiguration { message } => labelled("Invalid configuration: ", message),
            MediaError::EncodingFailed { codec, reason } =>
                labelled_pair("Encoding failed: ", codec, " - ", reason),
            MediaError::DecodingFailed { codec, reason } =>
                labelled_pair("Decoding failed: ", codec, " - ", reason),
            MediaError::InvalidMediaType { expected, actual } =>
                labelled_pair("Invalid media type: expected ", expected, ", got ", actual),
            MediaError::UnsupportedPlatform { platform } => labelled("Unsupported platform: ", platform),
            MediaError::UnsupportedFormat { format } => labelled("Unsupported format: ", format),
            MediaError::InvalidFrameData { expected, actual } =>
                labelled_numbers("Invalid frame data: expected ", *expected as u64, " bytes, got ", *actual as u64),
            MediaError::DeviceEnumerationFailed { reason } =>
                labelled("Device enumeration failed: ", reason),
            MediaError::DeviceNotFound { device_id } => labelled("Device not found: ", device_id),
            MediaError::CaptureNotActive => String::from_str("Capture not active"),
            MediaError::ConfigurationError { message } => labelled("Configuration error: ", message),
            MediaError::BufferOverflow { size } =>
                labelled_size("Buffer overflow: ", *size as u64, " bytes"),
            MediaError::Timeout { duration } => {
                let mut s = String::new();
                push_str(&mut s, "Operation timed out after ");
                let tail = duration_debug(duration);
                let ghost head = s@;
                push_str(&mut s, tail.as_str());
                assert(s@.subrange(0, head.len() as int) =~= head);
                s
            },
            MediaError::ResourceNotAvailable { resource } =>
                labelled("Resource not available: ", resource),
            MediaError::HardwareAccelerationNotAvailable { reason } =>
                labelled("Hardware acceleration not available: ", reason),
            MediaError::PermissionDenied { operation } => labelled("Permission denied: ", operation),
            MediaError::Audio { message } => labelled("Audio error: ", message),
            MediaError::Video { message } => labelled("Video error: ", message),
            MediaError::CodecInitializationFailed { codec, reason } =>
                labelled_pair("Codec initialization failed: ", codec, " - ", reason),
            MediaError::InvalidState { message } => labelled("Invalid state: ", message),
            MediaError::FfiError { library, message } =>
                labelled_pair("FFI error: ", library, " - ", message),
            MediaError::MemoryAllocationFailed { size } =>
                labelled_size("Memory allocation failed: ", *size as u64, " bytes"),
            MediaError::SampleRateMismatch { expected, actual } =>
                labelled_numbers("Sample rate mismatch: expected ", *expected as u64, ", got ", *actual as u64),
            MediaError::ChannelCountMismatch { expected, actual } =>
                labelled_numbers("Channel count mismatch: expected ", *expected as u64, ", got ", *actual as u64),
            MediaError::BandwidthEstimationError { message } =>
                labelled("Bandwidth estimation error: ", message),
        }
    }
}

impl From<std::io::Error> for MediaError {
    fn from(source: std::io::Error) -> (r: MediaError)
        ensures
            r == (MediaError::Io { source }),
    {
        MediaError::Io { source }
    }
}

impl vstd::std_specs::convert::FromSpecImpl<std::io::Error> for MediaError {
    open spec fn obeys_from_spec() -> bool {
        true
    }

    open spec fn from_spec(source: std::io::Error) -> MediaError {
        MediaError::Io { source }
    }
}

/// Helper trait for converting platform-specific errors
pub trait IntoMediaError: Sized {
    /// Wraps this error as an FFI error of an external library, with the context before it.
    fn into_media_error(self, context: &str) -> MediaError;
}

impl IntoMediaError for String {
    fn into_media_error(self, context: &str) -> (r: MediaError)
        ensures
            r matches MediaError::FfiError { library, message }
                && library@ == "external"@ && message@ == context@ + ": "@ + self@,
    {
        let mut message = String::new();
        push_str(&mut message, context);
        push_str(&mut message, ": ");
        push_str(&mut message, self.as_str());
        assert(message@ =~= context@ + ": "@ + self@);
        MediaError::FfiError { library: String::from_str("external"), message }
    }
}

} // verus!

verus! {

/// Errors of the transport, session and signaling layer
#[derive(Debug)]
pub enum QuicRtcError {
    /// Input data or a parameter was invalid
    InvalidData { reason: String },
    /// A frame of the wrong media type was given
    InvalidMediaType { expected: String, actual: String },
    /// Encoding failed
    EncodingFailed { reason: String },
    /// Decoding failed
    DecodingFailed { reason: String },
    /// No codec of that name is known
    UnsupportedCodec { codec: String },
    /// An operation was attempted in the wrong state
    InvalidState { expected: String, actual: String },
    /// The room has no free place left
    RoomFull { room_id: String, max_participants: usize },
    /// A participant with that ID is already in the room
    ParticipantAlreadyExists { room_id: String, participant_id: String },
    /// No participant with that ID is in the room
    ParticipantNotFound { room_id: String, participant_id: String },
    /// No room with that ID exists
    RoomNotFound { room_id: String },
    /// A room with that ID already exists
    RoomAlreadyExists { room_id: String },
    /// A required configuration field is missing
    MissingConfiguration { field: String },
    /// Media processing failed
    MediaProcessing { reason: String },
    /// A subsystem failed to initialize
    Initialization { reason: String },
}

/// The stable code of each kind of transport error, for programmatic handling.
pub open spec fn error_code_of(e: QuicRtcError) -> Seq<char> {
    match e {
        QuicRtcError::InvalidData { .. } => "INVALID_DATA"@,
        QuicRtcError::InvalidMediaType { .. } => "INVALID_MEDIA_TYPE"@,
        QuicRtcError::EncodingFailed { .. } => "ENCODING_FAILED"@,
        QuicRtcError::DecodingFailed { .. } => "DECODING_FAILED"@,
        QuicRtcError::UnsupportedCodec { .. } => "UNSUPPORTED_CODEC"@,
        QuicRtcError::InvalidState { .. } => "INVALID_STATE"@,
        QuicRtcError::RoomFull { .. } => "ROOM_FULL"@,
        QuicRtcError::ParticipantAlreadyExists { .. } => "PARTICIPANT_ALREADY_EXISTS"@,
        QuicRtcError::ParticipantNotFound { .. } => "PARTICIPANT_NOT_FOUND"@,
        QuicRtcError::RoomNotFound { .. } => "ROOM_NOT_FOUND"@,
        QuicRtcError::RoomAlreadyExists { .. } => "ROOM_ALREADY_EXISTS"@,
        QuicRtcError::MissingConfiguration { .. } => "MISSING_CONFIGURATION"@,
        QuicRtcError::MediaProcessing { .. } => "MEDIA_PROCESSING"@,
        QuicRtcError::Initialization { .. } => "INITIALIZATION"@,
    }
}

/// The display text of each kind of transport error.
pub open spec fn quic_rtc_error_text(e: QuicRtcError) -> Seq<char> {
    match e {
        QuicRtcError::InvalidData { reason } => "Invalid data: "@ + reason@,
        QuicRtcError::InvalidMediaType { expected, actual } =>
            "Invalid media type: expected "@ + expected@ + ", got "@ + actual@,
        QuicRtcError::EncodingFailed { reason } => "Encoding failed: "@ + reason@,
        QuicRtcError::DecodingFailed { reason } => "Decoding failed: "@ + reason@,
        QuicRtcError::UnsupportedCodec { codec } => "Unsupported codec: "@ + codec@,
        QuicRtcError::InvalidState { expected, actual } =>
            "Invalid state: expected "@ + expected@ + ", got "@ + actual@,
        QuicRtcError::RoomFull { room_id, max_participants } =>
            "Room full: "@ + room_id@ + " (max "@ + decimal_digits(max_participants as nat) + ")"@,
        QuicRtcError::ParticipantAlreadyExists { room_id, participant_id } =>
            "Participant already exists: "@ + participant_id@ + " in room "@ + room_id@,
        QuicRtcError::ParticipantNotFound { room_id, participant_id } =>
            "Participant not found: "@ + participant_id@ + " in room "@ + room_id@,
        QuicRtcError::RoomNotFound { room_id } => "Room not found: "@ + room_id@,
        QuicRtcError::RoomAlreadyExists { room_id } => "Room already exists: "@ + room_id@,
        QuicRtcError::MissingConfiguration { field } => "Missing configuration: "@ + field@,
        QuicRtcError::MediaProcessing { reason } => "Media processing error: "@ + reason@,
        QuicRtcError::Initialization { reason } => "Initialization failed: "@ + reason@,
    }
}

fn labelled_size_between(label: &str, value: &String, mid: &str, size: u64, suffix: &str) -> (r: String)
    ensures
        r@ == label@ + value@ + mid@ + decimal_digits(size as nat) + suffix@,
{
    let mut s = String::new();
    push_str(&mut s, label);
    push_str(&mut s, value.as_str());
    push_str(&mut s, mid);
    push_decimal(&mut s, size);
    push_str(&mut s, suffix);
    assert(s@ =~= label@ + value@ + mid@ + decimal_digits(size as nat) + suffix@);
    s
}

impl QuicRtcError {
    /// Stable error code for programmatic handling
    pub fn error_code(&self) -> (r: String)
        ensures
            r@ == error_code_of(*self),
    {
        match self {
            QuicRtcError::InvalidData { .. } => String::from_str("INVALID_DATA"),
            QuicRtcError::InvalidMediaType { .. } => String::from_str("INVALID_MEDIA_TYPE"),
            QuicRtcError::EncodingFailed { .. } => String::from_str("ENCODING_FAILED"),
            QuicRtcError::DecodingFailed { .. } => String::from_str("DECODING_FAILED"),
            QuicRtcError::UnsupportedCodec { .. } => String::from_str("UNSUPPORTED_CODEC"),
            QuicRtcError::InvalidState { .. } => String::from_str("INVALID_STATE"),
            QuicRtcError::RoomFull { .. } => String::from_str("ROOM_FULL"),
            QuicRtcError::ParticipantAlreadyExists { .. } => String::from_str("PARTICIPANT_ALREADY_EXISTS"),
            QuicRtcError::ParticipantNotFound { .. } => String::from_str("PARTICIPANT_NOT_FOUND"),
            QuicRtcError::RoomNotFound { .. } => String::from_str("ROOM_NOT_FOUND"),
            QuicRtcError::RoomAlreadyExists { .. } => String::from_str("ROOM_ALREADY_EXISTS"),
            QuicRtcError::MissingConfiguration { .. } => String::from_str("MISSING_CONFIGURATION"),
            QuicRtcError::MediaProcessing { .. } => String::from_str("MEDIA_PROCESSING"),
            QuicRtcError::Initialization { .. } => String::from_str("INITIALIZATION"),
        }
    }

    /// The error's display text
    pub fn message(&self) -> (r: String)
        ensures
            r@ == quic_rtc_error_text(*self),
    {
        match self {
            QuicRtcError::InvalidData { reason } => labelled("Invalid data: ", reason),
            QuicRtcError::InvalidMediaType { expected, actual } =>
                labelled_pair("Invalid media type: expected ", expected, ", got ", actual),
            QuicRtcError::EncodingFailed { reason } => labelled("Encoding failed: ", reason),
            QuicRtcError::DecodingFailed { reason } => labelled("Decoding failed: ", reason),
            QuicRtcError::UnsupportedCodec { codec } => labelled("Unsupported codec: ", codec),
            QuicRtcError::InvalidState { expected, actual } =>
                labelled_pair("Invalid state: expected ", expected, ", got ", actual),
            QuicRtcError::RoomFull { room_id, max_participants } =>
                labelled_size_between("Room full: ", room_id, " (max ", *max_participants as u64, ")"),
            QuicRtcError::ParticipantAlreadyExists { room_id, participant_id } =>
                labelled_pair("Participant already exists: ", participant_id, " in room ", room_id),
            QuicRtcError::ParticipantNotFound { room_id, participant_id } =>
                labelled_pair("Participant not found: ", participant_id, " in room ", room_id),
            QuicRtcError::RoomNotFound { room_id } => labelled("Room not found: ", room_id),
            QuicRtcError::RoomAlreadyExists { room_id } => labelled("Room already exists: ", room_id),
            QuicRtcError::MissingConfiguration { field } => labelled("Missing configuration: ", field),
            QuicRtcError::MediaProcessing { reason } => labelled("Media processing error: ", reason),
            QuicRtcError::Initialization { reason } => labelled("Initialization failed: ", reason),
        }
    }
}

} // verus!
