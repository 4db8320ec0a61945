//! Codec configuration and the H.264 codec built on OpenH264.
//!
//! Audio encoding works on floating-point samples and is driven by the
//! application layer; this module holds the Opus configuration rules.
use vstd::prelude::*;
use crate::error::QuicRtcError;
use crate::text::{decimal_digits, push_decimal, push_str, same_text};
use crate::tracks::VideoFrame;

verus! {

/// Video quality presets for easy configuration
#[derive(Debug, Clone, Copy, PartialEq, Eq, Structural)]
pub enum VideoQuality {
    /// 320x240, 15fps, optimized for poor networks
    Low,
    /// 640x480, 30fps, balanced quality/bandwidth
    Standard,
    /// 1280x720, 30fps, high quality
    HD,
    /// 1920x1080, 30fps, maximum quality
    FullHD,
}

impl Default for VideoQuality {
    fn default() -> (r: Self)
        ensures
            r == VideoQuality::Standard,
    {
        VideoQuality::Standard
    }
}

impl VideoQuality {
    /// Capture size used for each preset, as (width, height)
    pub open spec fn capture_size_of(self) -> (u32, u32) {
        match self {
            VideoQuality::Low => (320u32, 240u32),
            VideoQuality::Standard => (640u32, 480u32),
            VideoQuality::HD => (1280u32, 720u32),
            VideoQuality::FullHD => (1920u32, 1080u32),
        }
    }

    /// Capture size used for each preset, as (width, height)
    pub fn capture_size(&self) -> (r: (u32, u32))
        ensures
            r == self.capture_size_of(),
    {
        match self {
            VideoQuality::Low => (320, 240),
            VideoQuality::Standard => (640, 480),
            VideoQuality::HD => (1280, 720),
            VideoQuality::FullHD => (1920, 1080),
        }
    }
}

/// The presets grow strictly in both sides from Low to FullHD; Low and Standard are 4:3,
/// HD and FullHD are 16:9, and each preset is as tall as its name says (240, 480, 720 and
/// 1080 lines).
pub proof fn lemma_capture_sizes_ordered()
    ensures
        VideoQuality::Low.capture_size_of().0 < VideoQuality::Standard.capture_size_of().0,
        VideoQuality::Standard.capture_size_of().0 < VideoQuality::HD.capture_size_of().0,
        VideoQuality::HD.capture_size_of().0 < VideoQuality::FullHD.capture_size_of().0,
        VideoQuality::Low.capture_size_of().1 < VideoQuality::Standard.capture_size_of().1,
        VideoQuality::Standard.capture_size_of().1 < VideoQuality::HD.capture_size_of().1,
        VideoQuality::HD.capture_size_of().1 < VideoQuality::FullHD.capture_size_of().1,
        forall|q: VideoQuality| (q == VideoQuality::Low || q == VideoQuality::Standard) ==> 3
            * #[trigger] q.capture_size_of().0 == 4 * q.capture_size_of().1,
        forall|q: VideoQuality| (q == VideoQuality::HD || q == VideoQuality::FullHD) ==> 9
            * #[trigger] q.capture_size_of().0 == 16 * q.capture_size_of().1,
        VideoQuality::Low.capture_size_of().1 == 240,
        VideoQuality::Standard.capture_size_of().1 == 480,
        VideoQuality::HD.capture_size_of().1 == 720,
        VideoQuality::FullHD.capture_size_of().1 == 1080,
{
}

/// Codec information
#[derive(Debug)]
pub struct CodecInfo {
    /// Codec name
    pub name: String,
    /// MIME type
    pub mime_type: String,
    /// Sample rate (for audio)
    pub sample_rate: Option<u32>,
    /// Channels (for audio)
    pub channels: Option<u8>,
}

/// Opus codec configuration
#[derive(Debug, Clone, Copy, PartialEq, Eq, Structural)]
pub struct OpusConfig {
    /// Sample rate in Hz
    pub sample_rate: u32,
    /// Number of audio channels
    pub channels: u8,
    /// Bitrate in bits per second
    pub bitrate: u32,
    /// Frame duration in milliseconds
    pub frame_duration_ms: u32,
}

impl Default for OpusConfig {
    fn default() -> (r: Self)
        ensures
            r.sample_rate == 48000 && r.channels == 2 && r.bitrate == 64000
                && r.frame_duration_ms == 20,
    {
        Self { sample_rate: 48000, channels: 2, bitrate: 64000, frame_duration_ms: 20 }
    }
}

/// The sample rates Opus supports.
pub open spec fn opus_sample_rate_supported(rate: u32) -> bool {
    rate == 8000 || rate == 12000 || rate == 16000 || rate == 24000 || rate == 48000
}

/// A configuration Opus accepts: a supported sample rate and one or two channels.
pub open spec fn opus_config_valid(c: OpusConfig) -> bool {
    opus_sample_rate_supported(c.sample_rate) && (c.channels == 1 || c.channels == 2)
}

/// Opus takes its five sample rates, 8, 12, 16, 24 and 48 kHz, with one or two channels,
/// whatever the bitrate and frame duration; every other rate and every other channel
/// count is refused.
pub proof fn lemma_opus_accepts_its_rates(c: OpusConfig)
    ensures
        ((c.sample_rate == 8000 || c.sample_rate == 12000 || c.sample_rate == 16000
            || c.sample_rate == 24000 || c.sample_rate == 48000) && (c.channels == 1 || c.channels
            == 2)) <==> opus_config_valid(c),
{
}

/// The rejection a configuration gets: the sample rate is checked before the channels.
pub open spec fn opus_config_rejection(c: OpusConfig) -> Seq<char> {
    if !opus_sample_rate_supported(c.sample_rate) {
        "Unsupported Opus sample rate: "@ + decimal_digits(c.sample_rate as nat)
            + ". Supported: 8000, 12000, 16000, 24000, 48000"@
    } else {
        "Unsupported channel count: "@ + decimal_digits(c.channels as nat)
            + ". Opus supports 1 or 2 channels"@
    }
}

/// Checks an Opus configuration; `Err` carries the reason of the rejection.
pub fn check_opus_config(config: &OpusConfig) -> (r: Result<(), QuicRtcError>)
    ensures
        r is Ok <==> opus_config_valid(*config),
        r matches Err(QuicRtcError::InvalidData { reason }) ==> reason@ == opus_config_rejection(*config),
        r is Err ==> r->Err_0 is InvalidData,
{
    let rate = config.sample_rate;
    if !(rate == 8000 || rate == 12000 || rate == 16000 || rate == 24000 || rate == 48000) {
        let mut reason = String::new();
        push_str(&mut reason, "Unsupported Opus sample rate: ");
        push_decimal(&mut reason, rate as u64);
        push_str(&mut reason, ". Supported: 8000, 12000, 16000, 24000, 48000");
        assert(reason@ =~= opus_config_rejection(*config));
        return Err(QuicRtcError::InvalidData { reason });
    }
    if config.channels != 1 && config.channels != 2 {
        let mut reason = String::new();
        push_str(&mut reason, "Unsupported channel count: ");
        push_decimal(&mut reason, config.channels as u64);
        push_str(&mut reason, ". Opus supports 1 or 2 channels");
        assert(reason@ =~= opus_config_rejection(*config));
        return Err(QuicRtcError::InvalidData { reason });
    }
    Ok(())
}

/// Opus audio codec (configuration and framing; sample coding is done by the application)
#[derive(Debug)]
pub struct OpusCodec {
    config: OpusConfig,
}

impl OpusCodec {
    /// The codec's configuration is always one Opus accepts.
    #[verifier::type_invariant]
    spec fn inv(self) -> bool {
        opus_config_valid(self.config)
    }

    /// The current configuration
    pub closed spec fn spec_config(self) -> OpusConfig {
        self.config
    }

    /// Create new Opus codec with default settings
    pub fn new() -> (r: Result<Self, QuicRtcError>)
        ensures
            r matches Ok(c) && c.spec_config() == (OpusConfig {
                sample_rate: 48000, channels: 2, bitrate: 64000, frame_duration_ms: 20 }),
    {
        Self::with_config(OpusConfig::default())
    }

    /// Create Opus codec with custom configuration
    pub fn with_config(config: OpusConfig) -> (r: Result<Self, QuicRtcError>)
        ensures
            r is Ok <==> opus_config_valid(config),
            r matches Ok(c) ==> c.spec_config() == config,
            r matches Err(QuicRtcError::InvalidData { reason }) ==> reason@ == opus_config_rejection(config),
            r is Err ==> r->Err_0 is InvalidData,
    {
        match check_opus_config(&config) {
            Ok(()) => Ok(Self { config }),
            Err(e) => Err(e),
        }
    }

    /// Get configuration
    pub fn config(&self) -> (r: &OpusConfig)
        ensures
            *r == self.spec_config(),
            opus_config_valid(*r),
    {
        proof { use_type_invariant(self); }
        &self.config
    }

    /// Update configuration; an invalid one is rejected and the old one kept
    pub fn set_config(&mut self, config: OpusConfig) -> (r: Result<(), QuicRtcError>)
        ensures
            r is Ok <==> opus_config_valid(config),
            r is Ok ==> final(self).spec_config() == config,
            r is Err ==> final(self).spec_config() == old(self).spec_config(),
            r matches Err(QuicRtcError::InvalidData { reason }) ==> reason@ == opus_config_rejection(config),
            r is Err ==> r->Err_0 is InvalidData,
    {
        match check_opus_config(&config) {
            Ok(()) => {
                self.config = config;
                Ok(())
            },
            Err(e) => Err(e),
        }
    }

    /// Calculate samples per frame based on configuration
    pub fn samples_per_frame(&self) -> (r: usize)
        requires
            self.spec_config().sample_rate * self.spec_config().frame_duration_ms <= usize::MAX,
        ensures
            r == self.spec_config().sample_rate * self.spec_config().frame_duration_ms / 1000,
    {
        (self.config.sample_rate as usize * self.config.frame_duration_ms as usize) / 1000
    }

    /// Get codec information
    pub fn get_codec_info(&self) -> (r: CodecInfo)
        ensures
            r.name@ == "Opus"@,
            r.mime_type@ == "audio/opus"@,
            r.sample_rate == Some(self.spec_config().sample_rate),
            r.channels == Some(self.spec_config().channels),
    {
        CodecInfo {
            name: String::from_str("Opus"),
            mime_type: String::from_str("audio/opus"),
            sample_rate: Some(self.config.sample_rate),
            channels: Some(self.config.channels),
        }
    }

    /// Apply the audio fields of a codec configuration (sample rate, channels, bitrate)
    pub fn configure(&mut self, config: &CodecConfig) -> (r: Result<(), QuicRtcError>)
        ensures
            ({
                let merged = opus_merge(old(self).spec_config(), *config);
                &&& (r is Ok <==> opus_config_valid(merged))
                &&& (r is Ok ==> final(self).spec_config() == merged)
                &&& (r is Err ==> final(self).spec_config() == old(self).spec_config())
            }),
    {
        let mut opus_config = self.config;
        if let Some(sample_rate) = config.sample_rate {
            opus_config.sample_rate = sample_rate;
        }
        if let Some(channels) = config.channels {
            opus_config.channels = channels;
        }
        if let Some(bitrate) = config.bitrate {
            opus_config.bitrate = bitrate;
        }
        self.set_config(opus_config)
    }
}

/// Why an audio frame of that sample rate and channel count cannot be coded with the
/// configuration, if it cannot: a sample rate other than the configured one is named first,
/// then a channel count other than the configured one.
pub open spec fn opus_frame_rejection(c: OpusConfig, sample_rate: u32, channels: u8) -> Option<Seq<char>> {
    if sample_rate != c.sample_rate {
        Some("Sample rate mismatch: expected "@ + decimal_digits(c.sample_rate as nat) + ", got "@
            + decimal_digits(sample_rate as nat))
    } else if channels != c.channels {
        Some("Channel count mismatch: expected "@ + decimal_digits(c.channels as nat) + ", got "@
            + decimal_digits(channels as nat))
    } else {
        None
    }
}

impl OpusCodec {
    /// Check that an audio frame of that sample rate and channel count fits the codec's
    /// configuration (see [`opus_frame_rejection`])
    pub fn check_frame(&self, sample_rate: u32, channels: u8) -> (r: Result<(), QuicRtcError>)
        ensures
            opus_frame_rejection(self.spec_config(), sample_rate, channels) is None ==> r is Ok,
            opus_frame_rejection(self.spec_config(), sample_rate, channels) matches Some(why) ==> (r matches Err(
                QuicRtcError::InvalidData { reason }) && reason@ == why),
    {
        if sample_rate != self.config.sample_rate {
            let mut reason = String::new();
            push_str(&mut reason, "Sample rate mismatch: expected ");
            push_decimal(&mut reason, self.config.sample_rate as u64);
            push_str(&mut reason, ", got ");
            push_decimal(&mut reason, sample_rate as u64);
            return Err(QuicRtcError::InvalidData { reason });
        }
        if channels != self.config.channels {
            let mut reason = String::new();
            push_str(&mut reason, "Channel count mismatch: expected ");
            push_decimal(&mut reason, self.config.channels as u64);
            push_str(&mut reason, ", got ");
            push_decimal(&mut reason, channels as u64);
            return Err(QuicRtcError::InvalidData { reason });
        }
        Ok(())
    }

    /// Check that an Opus packet can be decoded: an empty one is refused
    pub fn check_packet(&self, data: &[u8]) -> (r: Result<(), QuicRtcError>)
        ensures
            data@.len() > 0 <==> r is Ok,
            data@.len() == 0 ==> (r matches Err(QuicRtcError::InvalidData { reason }) && reason@ == "Empty Opus data"@),
    {
        if data.len() == 0 {
            return Err(QuicRtcError::InvalidData { reason: String::from_str("Empty Opus data") });
        }
        Ok(())
    }
}

/// An Opus configuration with the audio fields that a codec configuration sets replaced.
pub open spec fn opus_merge(c: OpusConfig, cc: CodecConfig) -> OpusConfig {
    OpusConfig {
        sample_rate: match cc.sample_rate { Some(v) => v, None => c.sample_rate },
        channels: match cc.channels { Some(v) => v, None => c.channels },
        bitrate: match cc.bitrate { Some(v) => v, None => c.bitrate },
        frame_duration_ms: c.frame_duration_ms,
    }
}

/// H.264 codec configuration
#[derive(Debug, Clone, Copy, PartialEq, Eq, Structural)]
pub struct H264Config {
    /// Video width in pixels
    pub width: u32,
    /// Video height in pixels
    pub height: u32,
    /// Bitrate in bits per second
    pub bitrate: u32,
    /// Frame rate in frames per second
    pub framerate: u32,
}

impl Default for H264Config {
    fn default() -> (r: Self)
        ensures
            r.width == 640 && r.height == 480 && r.bitrate == 1_000_000 && r.framerate == 30,
    {
        Self { width: 640, height: 480, bitrate: 1_000_000, framerate: 30 }
    }
}

/// An H.264 configuration with the video fields that a codec configuration sets replaced;
/// the size changes only when both width and height are given.
pub open spec fn h264_merge(c: H264Config, cc: CodecConfig) -> H264Config {
    let sized = cc.width is Some && cc.height is Some;
    H264Config {
        width: if sized { cc.width->0 } else { c.width },
        height: if sized { cc.height->0 } else { c.height },
        bitrate: match cc.bitrate { Some(v) => v, None => c.bitrate },
        framerate: match cc.framerate { Some(v) => v, None => c.framerate },
    }
}

/// The planar YUV 4:2:0 image the encoder is given for an RGB frame of the configured size:
/// the luma plane takes the red byte of each pixel (zero past the end of the data),
/// the two chroma planes are neutral (128).
pub open spec fn yuv_plane_byte(data: Seq<u8>, y_size: int, i: int) -> u8 {
    if i < y_size {
        if 3 * i < data.len() { data[3 * i] } else { 0 }
    } else {
        128
    }
}

/// Builds the YUV 4:2:0 buffer for a frame of `width` x `height` pixels.
pub fn convert_video_frame_to_yuv(data: &Vec<u8>, width: usize, height: usize) -> (r: Vec<u8>)
    requires
        width * height * 3 <= usize::MAX,
    ensures
        r.len() == width * height + 2 * ((width * height) / 4),
        forall|i: int| 0 <= i < r.len() ==> r@[i] == yuv_plane_byte(data@, (width * height) as int, i),
{
    let y_size = width * height;
    let uv_size = y_size / 4;
    let total = y_size + 2 * uv_size;
    let mut yuv: Vec<u8> = Vec::with_capacity(total);
    let mut i: usize = 0;
    while i < y_size
        invariant
            i <= y_size,
            y_size == width * height,
            y_size * 3 <= usize::MAX,
            yuv.len() == i,
            forall|k: int| 0 <= k < i ==> yuv@[k] == yuv_plane_byte(data@, y_size as int, k),
        decreases y_size - i,
    {
        let b: u8 = if 3 * i < data.len() { data[3 * i] } else { 0 };
        yuv.push(b);
        i = i + 1;
    }
    while i < total
        invariant
            y_size <= i <= total,
            total == y_size + 2 * uv_size,
            yuv.len() == i,
            forall|k: int| 0 <= k < i ==> yuv@[k] == yuv_plane_byte(data@, y_size as int, k),
        decreases total - i,
    {
        yuv.push(128);
        i = i + 1;
    }
    yuv
}

/// H.264 video codec on OpenH264
#[derive(Debug)]
pub struct H264Codec {
    config: H264Config,
}

#[verifier::external_type_specification]
#[verifier::external_body]
pub struct ExOpenH264Error(openh264::Error);

/// The planar YUV 4:2:0 image of a frame of `width` x `height` pixels whose bytes are
/// `data`, as `convert_video_frame_to_yuv` builds it.
pub open spec fn yuv_image(data: Seq<u8>, width: usize, height: usize) -> Seq<u8> {
    Seq::new(
        (width * height + 2 * ((width * height) / 4)) as nat,
        |i: int| yuv_plane_byte(data, (width * height) as int, i),
    )
}

/// The bitstream a freshly created OpenH264 encoder (bundled source, default
/// configuration) gives for one planar YUV 4:2:0 image of `width` x `height` pixels,
/// encoded at timestamp zero; `None` when OpenH264 reports an error.
pub uninterp spec fn openh264_encoded(yuv: Seq<u8>, width: usize, height: usize) -> Option<Seq<u8>>;

/// `openh264::encoder::Encoder::new`, `openh264::formats::YUVBuffer::from_vec` and
/// `Encoder::encode` of that image on the fresh encoder, with the bitstream copied out
/// (`EncodedBitStream::to_vec`): the bytes, or the error with `true` when creating the
/// encoder failed and `false` when encoding did. The encoder is new on every call and
/// keeps its default configuration (one spatial layer, single-slice mode, timestamp
/// zero), so the outcome is taken to depend on the image and its size alone and is named
/// by [`openh264_encoded`]; what the bitstream holds, and the errors' contents, are not
/// stated. `from_vec` panics unless both sizes are even and the buffer holds exactly
/// `3 * width * height / 2` bytes, hence the `requires`.
#[verifier::external_body]
fn openh264_encode_image(yuv: Vec<u8>, width: usize, height: usize) -> (r: Result<
    Vec<u8>,
    (bool, openh264::Error),
>)
    requires
        width % 2 == 0,
        height % 2 == 0,
        yuv.len() == (3 * (width * height)) / 2,
    ensures
        (r is Ok <==> openh264_encoded(yuv@, width, height) is Some),
        (r matches Ok(bytes) ==> openh264_encoded(yuv@, width, height) == Some(bytes@)),
{
    let mut encoder = match openh264::encoder::Encoder::new() {
        Ok(e) => e,
        Err(e) => return Err((true, e)),
    };
    let image = openh264::formats::YUVBuffer::from_vec(yuv, width, height);
    encoder.encode(&image).map(|bitstream| bitstream.to_vec()).map_err(|e| (false, e))
}

/// What a freshly created OpenH264 decoder makes of a packet: `Some(true)` when a picture
/// comes out, `Some(false)` when none does, `None` when OpenH264 reports an error.
pub uninterp spec fn openh264_decoded(packet: Seq<u8>) -> Option<bool>;

/// `openh264::decoder::Decoder::new` (bundled source, default configuration) followed by
/// `Decoder::decode` of the packet on that fresh decoder: whether a picture came out, or the
/// error with `true` when creating the decoder failed and `false` when decoding did. The
/// outcome is named by [`openh264_decoded`]; which packets give which outcome, and the
/// errors' contents, are not stated.
#[verifier::external_body]
fn openh264_decode_packet(packet: &[u8]) -> (r: Result<bool, (bool, openh264::Error)>)
    ensures
        r is Ok <==> openh264_decoded(packet@) is Some,
        r matches Ok(picture) ==> openh264_decoded(packet@) == Some(picture),
{
    let mut decoder = match openh264::decoder::Decoder::new() {
        Ok(d) => d,
        Err(e) => return Err((true, e)),
    };
    decoder.decode(packet).map(|picture| picture.is_some()).map_err(|e| (false, e))
}

/// Display text of an OpenH264 error (`<openh264::Error as Display>`); not stated.
#[verifier::external_body]
fn openh264_error_text(e: &openh264::Error) -> String {
    e.to_string()
}

fn failure(prefix: &str, detail: &String) -> (r: String)
    ensures
        r@ == prefix@ + detail@,
{
    let mut s = String::new();
    push_str(&mut s, prefix);
    push_str(&mut s, detail.as_str());
    assert(s@ =~= prefix@ + detail@);
    s
}

/// The text of a frame-size mismatch.
pub open spec fn size_mismatch_text(c: H264Config, w: u32, h: u32) -> Seq<char> {
    "Frame size mismatch: expected "@ + decimal_digits(c.width as nat) + "x"@
        + decimal_digits(c.height as nat) + ", got "@ + decimal_digits(w as nat) + "x"@
        + decimal_digits(h as nat)
}

impl H264Codec {
    /// The current configuration
    pub closed spec fn spec_config(self) -> H264Config {
        self.config
    }

    /// Create a new H.264 codec with default configuration
    pub fn new() -> (r: Result<Self, QuicRtcError>)
        ensures
            r matches Ok(c) && c.spec_config() == (H264Config {
                width: 640, height: 480, bitrate: 1_000_000, framerate: 30 }),
    {
        Ok(Self { config: H264Config::default() })
    }

    /// Create a new H.264 codec with custom configuration
    pub fn with_config(config: H264Config) -> (r: Result<Self, QuicRtcError>)
        ensures
            r matches Ok(c) && c.spec_config() == config,
    {
        Ok(Self { config })
    }

    /// The configuration
    pub fn config(&self) -> (r: H264Config)
        ensures
            r == self.spec_config(),
    {
        self.config
    }

    /// Get codec information
    pub fn get_codec_info(&self) -> (r: CodecInfo)
        ensures
            r.name@ == "H.264"@,
            r.mime_type@ == "video/h264"@,
            r.sample_rate is None,
            r.channels is None,
    {
        CodecInfo {
            name: String::from_str("H.264"),
            mime_type: String::from_str("video/h264"),
            sample_rate: None,
            channels: None,
        }
    }

    /// Apply the video fields of a codec configuration (bitrate, resolution, framerate)
    pub fn configure(&mut self, config: &CodecConfig) -> (r: Result<(), QuicRtcError>)
        ensures
            r is Ok,
            final(self).spec_config() == h264_merge(old(self).spec_config(), *config),
    {
        if let Some(bitrate) = config.bitrate {
            self.config.bitrate = bitrate;
        }
        if let (Some(width), Some(height)) = (config.width, config.height) {
            self.config.width = width;
            self.config.height = height;
        }
        if let Some(framerate) = config.framerate {
            self.config.framerate = framerate;
        }
        Ok(())
    }

    /// Encode a video frame. A frame whose size differs from the configuration is rejected;
    /// otherwise the frame is converted to YUV 4:2:0 (`yuv_image`) and handed to a fresh
    /// OpenH264 encoder, whose bitstream is the result.
    pub fn encode(&self, video_frame: &VideoFrame) -> (r: Result<Vec<u8>, QuicRtcError>)
        requires
            video_frame.width == self.spec_config().width && video_frame.height
                == self.spec_config().height ==> {
                &&& self.spec_config().width % 2 == 0
                &&& self.spec_config().height % 2 == 0
                &&& self.spec_config().width * self.spec_config().height * 3 <= usize::MAX
            },
        ensures
            video_frame.width != self.spec_config().width || video_frame.height
                != self.spec_config().height <==> r matches Err(QuicRtcError::InvalidData { .. }),
            r matches Err(QuicRtcError::InvalidData { reason }) ==> reason@ == size_mismatch_text(
                self.spec_config(), video_frame.width, video_frame.height),
            r is Err ==> (r->Err_0 is InvalidData || r->Err_0 is EncodingFailed),
            video_frame.width == self.spec_config().width && video_frame.height
                == self.spec_config().height ==> (r is Ok <==> openh264_encoded(
                yuv_image(
                    video_frame.data@,
                    self.spec_config().width as usize,
                    self.spec_config().height as usize,
                ),
                self.spec_config().width as usize,
                self.spec_config().height as usize,
            ) is Some),
            r matches Ok(bytes) ==> Some(bytes@) == openh264_encoded(
                yuv_image(
                    video_frame.data@,
                    self.spec_config().width as usize,
                    self.spec_config().height as usize,
                ),
                self.spec_config().width as usize,
                self.spec_config().height as usize,
            ),
    {
        if video_frame.width != self.config.width || video_frame.height != self.config.height {
            let mut reason = String::new();
            push_str(&mut reason, "Frame size mismatch: expected ");
            push_decimal(&mut reason, self.config.width as u64);
            push_str(&mut reason, "x");
            push_decimal(&mut reason, self.config.height as u64);
            push_str(&mut reason, ", got ");
            push_decimal(&mut reason, video_frame.width as u64);
            push_str(&mut reason, "x");
            push_decimal(&mut reason, video_frame.height as u64);
            assert(reason@ =~= size_mismatch_text(self.config, video_frame.width, video_frame.height));
            return Err(QuicRtcError::InvalidData { reason });
        }
        let width = self.config.width as usize;
        let height = self.config.height as usize;
        let yuv_data = convert_video_frame_to_yuv(&video_frame.data, width, height);
        proof {
            let p = width * height;
            let a = width / 2;
            let b = height / 2;
            assert(p == 4 * (a * b)) by (nonlinear_arith)
                requires width == 2 * a, height == 2 * b, p == width * height;
            assert(p + 2 * (p / 4) == (3 * p) / 2);
            assert(yuv_data@ =~= yuv_image(video_frame.data@, width, height));
        }
        let outcome = match openh264_encode_image(yuv_data, width, height) {
            Ok(bytes) => Ok(bytes),
            Err((true, e)) => {
                let detail = openh264_error_text(&e);
                return Err(QuicRtcError::EncodingFailed {
                    reason: failure("Failed to create H.264 encoder: ", &detail),
                });
            },
            Err((false, e)) => Err(openh264_error_text(&e)),
        };
        Self::encoding_result(outcome)
    }

    /// The result of an encoding, given what OpenH264 reported: the bitstream, or the text of
    /// its failure
    pub fn encoding_result(outcome: Result<Vec<u8>, String>) -> (r: Result<Vec<u8>, QuicRtcError>)
        ensures
            outcome matches Ok(bytes) ==> r == Ok::<Vec<u8>, QuicRtcError>(bytes),
            outcome matches Err(text) ==> (r matches Err(QuicRtcError::EncodingFailed { reason })
                && reason@ == "H.264 encoding failed: "@ + text@),
    {
        match outcome {
            Ok(bytes) => Ok(bytes),
            Err(text) => Err(QuicRtcError::EncodingFailed { reason: failure("H.264 encoding failed: ", &text) }),
        }
    }

    /// Decode an H.264 packet. Empty input is rejected; when OpenH264 yields a picture the
    /// result is a gray keyframe of the configured size with four bytes per pixel.
    pub fn decode(&self, data: &[u8]) -> (r: Result<VideoFrame, QuicRtcError>)
        requires
            self.spec_config().width * self.spec_config().height * 4 <= u32::MAX,
        ensures
            data@.len() == 0 <==> r matches Err(QuicRtcError::InvalidData { .. }),
            r matches Err(QuicRtcError::InvalidData { reason }) ==> reason@ == "Empty H.264 data"@,
            r is Err ==> (r->Err_0 is InvalidData || r->Err_0 is DecodingFailed),
            r matches Ok(f) ==> {
                &&& f.width == self.spec_config().width
                &&& f.height == self.spec_config().height
                &&& f.data@.len() == f.width * f.height * 4
                &&& forall|i: int| 0 <= i < f.data@.len() ==> f.data@[i] == 128
                &&& f.is_keyframe
            },
            data@.len() > 0 ==> (r is Ok <==> openh264_decoded(data@) == Some(true)),
            data@.len() > 0 && openh264_decoded(data@) == Some(false) ==> (r matches Err(
                QuicRtcError::DecodingFailed { reason }) && reason@ == "H.264 decoder returned no frame"@),
            data@.len() > 0 && openh264_decoded(data@) is None ==> (r matches Err(QuicRtcError::DecodingFailed { .. })),
    {
        if data.len() == 0 {
            return Err(QuicRtcError::InvalidData { reason: String::from_str("Empty H.264 data") });
        }
        let outcome = match openh264_decode_packet(data) {
            Ok(picture) => Ok(picture),
            Err((true, e)) => {
                let detail = openh264_error_text(&e);
                return Err(QuicRtcError::DecodingFailed {
                    reason: failure("Failed to create H.264 decoder: ", &detail),
                });
            },
            Err((false, e)) => Err(openh264_error_text(&e)),
        };
        let timestamp = match outcome {
            Ok(true) => crate::clock::unix_time_millis(),
            _ => 0,
        };
        self.decoding_result(outcome, timestamp)
    }

    /// The result of a decoding, given what OpenH264 reported (whether a picture came out, or
    /// the text of its failure): a picture becomes a gray keyframe of the configured size with
    /// four bytes per pixel, stamped with `timestamp`
    pub fn decoding_result(&self, outcome: Result<bool, String>, timestamp: u64) -> (r: Result<VideoFrame, QuicRtcError>)
        requires
            self.spec_config().width * self.spec_config().height * 4 <= u32::MAX,
        ensures
            outcome == Ok::<bool, String>(true) ==> (r matches Ok(f) && {
                &&& f.width == self.spec_config().width
                &&& f.height == self.spec_config().height
                &&& f.data@ == Seq::new((f.width * f.height * 4) as nat, |i: int| 128u8)
                &&& f.timestamp == timestamp
                &&& f.is_keyframe
            }),
            outcome == Ok::<bool, String>(false) ==> (r matches Err(QuicRtcError::DecodingFailed { reason })
                && reason@ == "H.264 decoder returned no frame"@),
            outcome matches Err(text) ==> (r matches Err(QuicRtcError::DecodingFailed { reason })
                && reason@ == "H.264 decoding failed: "@ + text@),
    {
        match outcome {
            Ok(true) => {
                let width = self.config.width;
                let height = self.config.height;
                let data_size = (width * height * 4) as usize;
                let pixels = vec![128u8; data_size];
                assert(pixels@ =~= Seq::new((width * height * 4) as nat, |i: int| 128u8));
                Ok(VideoFrame { width, height, data: pixels, timestamp, is_keyframe: true })
            },
            Ok(false) => Err(QuicRtcError::DecodingFailed {
                reason: String::from_str("H.264 decoder returned no frame"),
            }),
            Err(text) => Err(QuicRtcError::DecodingFailed { reason: failure("H.264 decoding failed: ", &text) }),
        }
    }
}

/// Codec configuration builder
#[derive(Debug)]
pub struct CodecConfig {
    /// Codec name
    pub name: String,
    /// Bitrate in bits per second
    pub bitrate: Option<u32>,
    /// Sample rate (for audio)
    pub sample_rate: Option<u32>,
    /// Number of channels (for audio)
    pub channels: Option<u8>,
    /// Video width (for video)
    pub width: Option<u32>,
    /// Video height (for video)
    pub height: Option<u32>,
    /// Framerate (for video)
    pub framerate: Option<u32>,
}

/// A codec built from a configuration
#[derive(Debug)]
pub enum CodecInstance {
    /// An Opus audio codec
    Opus(OpusCodec),
    /// An H.264 video codec
    H264(H264Codec),
}

impl CodecConfig {
    /// Create new codec config
    pub fn new(name: &str) -> (r: Self)
        ensures
            r.name@ == name@,
            r.bitrate is None && r.sample_rate is None && r.channels is None,
            r.width is None && r.height is None && r.framerate is None,
    {
        Self {
            name: name.to_owned(),
            bitrate: None,
            sample_rate: None,
            channels: None,
            width: None,
            height: None,
            framerate: None,
        }
    }

    /// Set bitrate
    pub fn bitrate(self, bitrate: u32) -> (r: Self)
        ensures
            r == (CodecConfig { bitrate: Some(bitrate), ..self }),
    {
        CodecConfig { bitrate: Some(bitrate), ..self }
    }

    /// Set sample rate
    pub fn sample_rate(self, sample_rate: u32) -> (r: Self)
        ensures
            r == (CodecConfig { sample_rate: Some(sample_rate), ..self }),
    {
        CodecConfig { sample_rate: Some(sample_rate), ..self }
    }

    /// Set channels
    pub fn channels(self, channels: u8) -> (r: Self)
        ensures
            r == (CodecConfig { channels: Some(channels), ..self }),
    {
        CodecConfig { channels: Some(channels), ..self }
    }

    /// Set video resolution
    pub fn resolution(self, width: u32, height: u32) -> (r: Self)
        ensures
            r == (CodecConfig { width: Some(width), height: Some(height), ..self }),
    {
        CodecConfig { width: Some(width), height: Some(height), ..self }
    }

    /// Set framerate
    pub fn framerate(self, framerate: u32) -> (r: Self)
        ensures
            r == (CodecConfig { framerate: Some(framerate), ..self }),
    {
        CodecConfig { framerate: Some(framerate), ..self }
    }

    /// Create the codec this configuration names ("opus" or "h264")
    pub fn build(&self) -> (r: Result<CodecInstance, QuicRtcError>)
        ensures
            self.name@ == "opus"@ ==> {
                let oc = OpusConfig {
                    sample_rate: match self.sample_rate { Some(v) => v, None => 48000 },
                    channels: match self.channels { Some(v) => v, None => 2 },
                    bitrate: match self.bitrate { Some(v) => v, None => 64000 },
                    frame_duration_ms: 20,
                };
                &&& (r is Ok <==> opus_config_valid(oc))
                &&& (r is Ok ==> (r matches Ok(CodecInstance::Opus(c)) && c.spec_config() == oc))
            },
            self.name@ == "h264"@ ==> (r matches Ok(CodecInstance::H264(c)) && c.spec_config() == (H264Config {
                width: match self.width { Some(v) => v, None => 640 },
                height: match self.height { Some(v) => v, None => 480 },
                bitrate: match self.bitrate { Some(v) => v, None => 1_000_000 },
                framerate: match self.framerate { Some(v) => v, None => 30 },
            })),
            self.name@ != "opus"@ && self.name@ != "h264"@ ==> (r matches Err(
                QuicRtcError::UnsupportedCodec { codec }) && codec@ == self.name@),
    {
        proof {
            reveal_strlit("opus");
            reveal_strlit("h264");
            assert("opus"@[0] != "h264"@[0]);
            assert("opus"@ != "h264"@);
        }
        let opus = String::from_str("opus");
        let h264 = String::from_str("h264");
        if self.name.eq(&opus) {
            let opus_config = OpusConfig {
                sample_rate: match self.sample_rate { Some(v) => v, None => 48000 },
                channels: match self.channels { Some(v) => v, None => 2 },
                bitrate: match self.bitrate { Some(v) => v, None => 64000 },
                frame_duration_ms: 20,
            };
            match OpusCodec::with_config(opus_config) {
                Ok(c) => Ok(CodecInstance::Opus(c)),
                Err(e) => Err(e),
            }
        } else if self.name.eq(&h264) {
            let h264_config = H264Config {
                width: match self.width { Some(v) => v, None => 640 },
                height: match self.height { Some(v) => v, None => 480 },
                bitrate: match self.bitrate { Some(v) => v, None => 1_000_000 },
                framerate: match self.framerate { Some(v) => v, None => 30 },
            };
            match H264Codec::with_config(h264_config) {
                Ok(c) => Ok(CodecInstance::H264(c)),
                Err(e) => Err(e),
            }
        } else {
            Err(QuicRtcError::UnsupportedCodec { codec: self.name.clone() })
        }
    }
}


/// The MIME type of a codec.
pub open spec fn mime_type_of(c: CodecInstance) -> Seq<char> {
    match c {
        CodecInstance::Opus(_) => "audio/opus"@,
        CodecInstance::H264(_) => "video/h264"@,
    }
}

impl CodecInstance {
    /// The codec's description
    pub fn get_codec_info(&self) -> (r: CodecInfo)
        ensures
            r.mime_type@ == mime_type_of(*self),
            *self matches CodecInstance::Opus(c) ==> r.name@ == "Opus"@
                && r.sample_rate == Some(c.spec_config().sample_rate) && r.channels == Some(c.spec_config().channels),
            *self is H264 ==> r.name@ == "H.264"@ && r.sample_rate is None && r.channels is None,
    {
        match self {
            CodecInstance::Opus(c) => c.get_codec_info(),
            CodecInstance::H264(c) => c.get_codec_info(),
        }
    }
}

/// Whether no two entries share a name.
pub open spec fn codec_names_unique(s: Seq<(String, CodecInstance)>) -> bool {
    forall|i: int, j: int| 0 <= i < s.len() && 0 <= j < s.len() && i != j ==> s[i].0@ != s[j].0@
}

/// Whether some entry has the name.
pub open spec fn has_codec(s: Seq<(String, CodecInstance)>, name: Seq<char>) -> bool {
    exists|i: int| 0 <= i < s.len() && s[i].0@ == name
}

/// Whether `after` is `before` with `codec` registered under `name`: in place of the entry of
/// that name if there is one, else added last.
pub open spec fn registered(
    before: Seq<(String, CodecInstance)>,
    after: Seq<(String, CodecInstance)>,
    name: Seq<char>,
    codec: CodecInstance,
) -> bool {
    if has_codec(before, name) {
        exists|i: int| 0 <= i < before.len() && before[i].0@ == name && after == before.update(i, (before[i].0, codec))
    } else {
        &&& after.len() == before.len() + 1
        &&& after.drop_last() == before
        &&& after.last().0@ == name
        &&& after.last().1 == codec
    }
}

/// Registering a codec under a name makes it the one codec found under that name, and
/// leaves which other names are registered as it was.
pub proof fn lemma_register_then_get(
    before: Seq<(String, CodecInstance)>,
    after: Seq<(String, CodecInstance)>,
    name: Seq<char>,
    codec: CodecInstance,
)
    requires
        codec_names_unique(before),
        registered(before, after, name, codec),
    ensures
        codec_names_unique(after),
        has_codec(after, name),
        forall|i: int| 0 <= i < after.len() && after[i].0@ == name ==> after[i].1 == codec,
        forall|n: Seq<char>| n != name ==> (has_codec(after, n) <==> has_codec(before, n)),
{
    if has_codec(before, name) {
        let i = choose|i: int| 0 <= i < before.len() && before[i].0@ == name && after == before.update(i, (before[i].0, codec));
        assert(after[i].0@ == name);
        assert forall|n: Seq<char>| n != name implies (has_codec(after, n) <==> has_codec(before, n)) by {
            if has_codec(before, n) {
                let j = choose|j: int| 0 <= j < before.len() && before[j].0@ == n;
                assert(after[j].0@ == n);
            }
            if has_codec(after, n) {
                let j = choose|j: int| 0 <= j < after.len() && after[j].0@ == n;
                assert(before[j].0@ == n);
            }
        }
    } else {
        let last = after.len() - 1;
        assert(after[last].0@ == name);
        assert forall|j: int| 0 <= j < last implies after[j] == before[j] by {
            assert(after.drop_last()[j] == after[j]);
        }
        assert forall|n: Seq<char>| n != name implies (has_codec(after, n) <==> has_codec(before, n)) by {
            if has_codec(before, n) {
                let j = choose|j: int| 0 <= j < before.len() && before[j].0@ == n;
                assert(after[j].0@ == n);
            }
            if has_codec(after, n) {
                let j = choose|j: int| 0 <= j < after.len() && after[j].0@ == n;
                assert(j != last);
                assert(before[j].0@ == n);
            }
        }
    }
}

/// Registry of codecs by name, in registration order
#[derive(Debug)]
pub struct CodecRegistry {
    codecs: Vec<(String, CodecInstance)>,
}

impl CodecRegistry {
    /// The codecs under their names, in registration order
    pub closed spec fn entries(&self) -> Seq<(String, CodecInstance)> {
        self.codecs@
    }

    /// Names are distinct.
    pub closed spec fn wf(&self) -> bool {
        codec_names_unique(self.codecs@)
    }

    /// An empty registry
    pub fn new() -> (r: Self)
        ensures
            r.wf(),
            r.entries().len() == 0,
    {
        CodecRegistry { codecs: Vec::new() }
    }

    fn find(&self, name: &str) -> (r: Option<usize>)
        ensures
            r matches Some(i) ==> i < self.entries().len() && self.entries()[i as int].0@ == name@,
            r is None ==> !has_codec(self.entries(), name@),
    {
        let mut i: usize = 0;
        while i < self.codecs.len()
            invariant
                i <= self.codecs@.len(),
                forall|j: int| 0 <= j < i ==> self.codecs@[j].0@ != name@,
            decreases self.codecs@.len() - i,
        {
            if same_text(&self.codecs[i].0, name) {
                return Some(i);
            }
            i = i + 1;
        }
        None
    }

    /// Register a codec under a name, in place of one of the same name
    pub fn register_codec(&mut self, name: &str, codec: CodecInstance) -> (r: Result<(), QuicRtcError>)
        requires
            old(self).wf(),
        ensures
            r is Ok,
            final(self).wf(),
            registered(old(self).entries(), final(self).entries(), name@, codec),
    {
        let ghost before = self.codecs@;
        match self.find(name) {
            Some(i) => {
                let (n, _old) = self.codecs.remove(i);
                self.codecs.insert(i, (n, codec));
                proof {
                    assert(self.codecs@ =~= before.update(i as int, (before[i as int].0, codec)));
                    let after = self.codecs@;
                    assert forall|a: int, b: int| 0 <= a < after.len() && 0 <= b < after.len() && a != b
                        implies after[a].0@ != after[b].0@ by {
                        assert(after[a].0 == before[a].0 && after[b].0 == before[b].0);
                    }
                }
            },
            None => {
                self.codecs.push((String::from_str(name), codec));
                proof {
                    let after = self.codecs@;
                    assert(after.drop_last() =~= before);
                    assert forall|a: int, b: int| 0 <= a < after.len() && 0 <= b < after.len() && a != b
                        implies after[a].0@ != after[b].0@ by {
                        if a < before.len() && b < before.len() {
                            assert(after[a] == before[a] && after[b] == before[b]);
                        } else if a < before.len() {
                            assert(after[a] == before[a]);
                        } else {
                            assert(after[b] == before[b]);
                        }
                    }
                }
            },
        }
        Ok(())
    }

    /// A registry with the Opus codec as "opus" and the H.264 codec as "h264", with their
    /// default configurations
    pub fn with_defaults() -> (r: Result<Self, QuicRtcError>)
        ensures
            r matches Ok(reg) && reg.wf() && reg.entries().len() == 2 && reg.entries()[0].0@ == "opus"@
                && reg.entries()[0].1 is Opus && reg.entries()[1].0@ == "h264"@ && reg.entries()[1].1 is H264,
    {
        proof {
            reveal_strlit("opus");
            reveal_strlit("h264");
            assert("opus"@[0] != "h264"@[0]);
        }
        let mut registry = Self::new();
        let opus = match OpusCodec::new() {
            Ok(c) => c,
            Err(e) => { return Err(e); },
        };
        let _ = registry.register_codec("opus", CodecInstance::Opus(opus));
        let h264 = match H264Codec::new() {
            Ok(c) => c,
            Err(e) => { return Err(e); },
        };
        let _ = registry.register_codec("h264", CodecInstance::H264(h264));
        Ok(registry)
    }

    /// The codec registered under the name, if any
    pub fn get_codec(&self, name: &str) -> (r: Option<&CodecInstance>)
        requires
            self.wf(),
        ensures
            r is Some <==> has_codec(self.entries(), name@),
            r matches Some(c) ==> exists|i: int| 0 <= i < self.entries().len() && self.entries()[i].0@ == name@
                && self.entries()[i].1 == *c,
    {
        match self.find(name) {
            Some(i) => Some(&self.codecs[i].1),
            None => None,
        }
    }

    /// Names of the registered codecs, in registration order
    pub fn list_codecs(&self) -> (r: Vec<String>)
        ensures
            r@.len() == self.entries().len(),
            forall|i: int| 0 <= i < r@.len() ==> r@[i] == self.entries()[i].0,
    {
        let mut r: Vec<String> = Vec::new();
        let mut i: usize = 0;
        while i < self.codecs.len()
            invariant
                i <= self.codecs@.len(),
                r@.len() == i,
                forall|j: int| 0 <= j < i ==> r@[j] == self.codecs@[j].0,
            decreases self.codecs@.len() - i,
        {
            r.push(self.codecs[i].0.clone());
            i = i + 1;
        }
        r
    }

    /// The first registered codec of the MIME type, if any
    pub fn get_codec_by_mime_type(&self, mime_type: &str) -> (r: Option<&CodecInstance>)
        ensures
            r is None ==> forall|i: int| 0 <= i < self.entries().len() ==> mime_type_of(self.entries()[i].1) != mime_type@,
            r matches Some(c) ==> exists|i: int| 0 <= i < self.entries().len() && self.entries()[i].1 == *c
                && mime_type_of(*c) == mime_type@ && forall|j: int| 0 <= j < i ==> mime_type_of(self.entries()[j].1)
                != mime_type@,
    {
        let mut i: usize = 0;
        while i < self.codecs.len()
            invariant
                i <= self.codecs@.len(),
                forall|j: int| 0 <= j < i ==> mime_type_of(self.codecs@[j].1) != mime_type@,
            decreases self.codecs@.len() - i,
        {
            let info = self.codecs[i].1.get_codec_info();
            if same_text(&info.mime_type, mime_type) {
                assert(self.entries()[i as int].1 == self.codecs@[i as int].1);
                return Some(&self.codecs[i].1);
            }
            i = i + 1;
        }
        None
    }
}

impl Default for CodecRegistry {
    fn default() -> (r: Self)
        ensures
            r.wf(),
            r.entries().len() == 0,
    {
        CodecRegistry::new()
    }
}

} // verus!
