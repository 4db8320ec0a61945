//! Platform capture backends, the choice among them, camera frames and the frame
//! processing pipeline's set-up.
use vstd::prelude::*;
use std::time::Instant;
use crate::clock::{duration_millis, instant_elapsed};
use crate::codecs::{H264Codec, H264Config};
use crate::error::MediaError;
use crate::tracks::VideoFrame;
use crate::video::{VideoPixelFormat, VideoResolution};

verus! {

/// Simplified platform-specific capture backend
pub trait PlatformCapture {
    /// Start capturing
    fn start_capture(&mut self) -> Result<(), MediaError>;

    /// Stop capturing
    fn stop_capture(&mut self) -> Result<(), MediaError>;

    /// Names of the capture devices
    fn get_devices(&self) -> Result<Vec<String>, MediaError>;
}

/// Whether the result is a single device of that name.
pub open spec fn single_device(r: Result<Vec<String>, MediaError>, name: Seq<char>) -> bool {
    r matches Ok(v) && v@.len() == 1 && v@[0]@ == name
}

/// V4L2-based video capture (Linux)
#[derive(Debug)]
pub struct V4L2Capture {}

impl V4L2Capture {
    /// Create a V4L2 capture backend
    pub fn new() -> (r: Self) {
        V4L2Capture {}
    }
}

impl PlatformCapture for V4L2Capture {
    fn start_capture(&mut self) -> (r: Result<(), MediaError>)
        ensures
            r is Ok,
    {
        Ok(())
    }

    fn stop_capture(&mut self) -> (r: Result<(), MediaError>)
        ensures
            r is Ok,
    {
        Ok(())
    }

    fn get_devices(&self) -> (r: Result<Vec<String>, MediaError>)
        ensures
            single_device(r, "V4L2 Camera"@),
    {
        let mut v: Vec<String> = Vec::new();
        v.push(String::from_str("V4L2 Camera"));
        Ok(v)
    }
}

/// WebRTC-based video capture (browsers)
#[derive(Debug)]
pub struct WebRTCCapture {}

impl WebRTCCapture {
    /// Create a WebRTC capture backend
    pub fn new() -> (r: Self) {
        WebRTCCapture {}
    }
}

impl PlatformCapture for WebRTCCapture {
    fn start_capture(&mut self) -> (r: Result<(), MediaError>)
        ensures
            r is Ok,
    {
        Ok(())
    }

    fn stop_capture(&mut self) -> (r: Result<(), MediaError>)
        ensures
            r is Ok,
    {
        Ok(())
    }

    fn get_devices(&self) -> (r: Result<Vec<String>, MediaError>)
        ensures
            single_device(r, "WebRTC Camera"@),
    {
        let mut v: Vec<String> = Vec::new();
        v.push(String::from_str("WebRTC Camera"));
        Ok(v)
    }
}

/// Mock capture backend for unsupported platforms
#[derive(Debug)]
pub struct MockCapture {}

impl MockCapture {
    /// Create a mock capture backend
    pub fn new() -> (r: Self) {
        MockCapture {}
    }
}

impl PlatformCapture for MockCapture {
    fn start_capture(&mut self) -> (r: Result<(), MediaError>)
        ensures
            r is Ok,
    {
        Ok(())
    }

    fn stop_capture(&mut self) -> (r: Result<(), MediaError>)
        ensures
            r is Ok,
    {
        Ok(())
    }

    fn get_devices(&self) -> (r: Result<Vec<String>, MediaError>)
        ensures
            single_device(r, "Mock Camera"@),
    {
        let mut v: Vec<String> = Vec::new();
        v.push(String::from_str("Mock Camera"));
        Ok(v)
    }
}

/// Whether the result is the refusal of DirectShow off Windows.
pub open spec fn directshow_refused<T>(r: Result<T, MediaError>) -> bool {
    r matches Err(MediaError::UnsupportedPlatform { platform })
        && platform@ == "DirectShow only supported on Windows"@
}

/// DirectShow-based video capture (Windows)
#[derive(Debug)]
pub struct DirectShowCapture {
    is_capturing: bool,
    on_windows: bool,
}

impl DirectShowCapture {
    /// Create a DirectShow capture backend, not capturing; `on_windows` tells whether the
    /// program runs on Windows, where alone DirectShow works
    pub fn new(on_windows: bool) -> (r: Self)
        ensures
            !r.capturing(),
            r.windows() == on_windows,
    {
        DirectShowCapture { is_capturing: false, on_windows }
    }

    /// Whether capture is on
    pub closed spec fn capturing(&self) -> bool {
        self.is_capturing
    }

    /// Whether the program runs on Windows
    pub closed spec fn windows(&self) -> bool {
        self.on_windows
    }

    /// Whether capture is on
    pub fn is_capturing(&self) -> (r: bool)
        ensures
            r == self.capturing(),
    {
        self.is_capturing
    }

    fn enumerate_windows_devices(&self) -> (r: Result<Vec<String>, MediaError>)
        ensures
            self.windows() ==> single_device(r, "DirectShow Camera"@),
            !self.windows() ==> directshow_refused(r),
    {
        if self.on_windows {
            let mut v: Vec<String> = Vec::new();
            v.push(String::from_str("DirectShow Camera"));
            Ok(v)
        } else {
            Err(MediaError::UnsupportedPlatform { platform: String::from_str("DirectShow only supported on Windows") })
        }
    }
}

impl PlatformCapture for DirectShowCapture {
    fn start_capture(&mut self) -> (r: Result<(), MediaError>)
        ensures
            final(self).windows() == old(self).windows(),
            old(self).windows() ==> r is Ok && final(self).capturing(),
            !old(self).windows() ==> directshow_refused(r) && final(self).capturing() == old(self).capturing(),
    {
        if self.on_windows {
            self.is_capturing = true;
            Ok(())
        } else {
            Err(MediaError::UnsupportedPlatform { platform: String::from_str("DirectShow only supported on Windows") })
        }
    }

    fn stop_capture(&mut self) -> (r: Result<(), MediaError>)
        ensures
            final(self).windows() == old(self).windows(),
            old(self).windows() ==> r is Ok && !final(self).capturing(),
            !old(self).windows() ==> directshow_refused(r) && final(self).capturing() == old(self).capturing(),
    {
        if self.on_windows {
            self.is_capturing = false;
            Ok(())
        } else {
            Err(MediaError::UnsupportedPlatform { platform: String::from_str("DirectShow only supported on Windows") })
        }
    }

    fn get_devices(&self) -> (r: Result<Vec<String>, MediaError>)
        ensures
            self.windows() ==> single_device(r, "DirectShow Camera"@),
            !self.windows() ==> directshow_refused(r),
    {
        self.enumerate_windows_devices()
    }
}

/// The platform a program runs on, as far as capture is concerned
#[derive(Debug, Clone, Copy, PartialEq, Eq, Structural)]
pub enum TargetPlatform {
    /// macOS
    MacOs,
    /// Linux
    Linux,
    /// Windows
    Windows,
    /// WebAssembly in a browser
    Wasm,
    /// Anything else
    Other,
}

/// A capture backend the library provides
#[derive(Debug)]
pub enum CaptureBackend {
    /// V4L2 (Linux)
    V4L2(V4L2Capture),
    /// DirectShow (Windows)
    DirectShow(DirectShowCapture),
    /// WebRTC (browsers)
    WebRTC(WebRTCCapture),
    /// Mock backend
    Mock(MockCapture),
}

/// What starting or stopping a backend does: each backend stays the one it was; the
/// simple ones succeed; DirectShow succeeds and takes the new capture state on Windows only,
/// and is refused elsewhere without change.
pub open spec fn switched(old: CaptureBackend, new: CaptureBackend, on: bool, r: Result<(), MediaError>) -> bool {
    match old {
        CaptureBackend::DirectShow(d0) => new matches CaptureBackend::DirectShow(d1) && d1.windows() == d0.windows()
            && if d0.windows() {
                r is Ok && d1.capturing() == on
            } else {
                directshow_refused(r) && d1.capturing() == d0.capturing()
            },
        CaptureBackend::V4L2(_) => new is V4L2 && r is Ok,
        CaptureBackend::WebRTC(_) => new is WebRTC && r is Ok,
        CaptureBackend::Mock(_) => new is Mock && r is Ok,
    }
}

impl PlatformCapture for CaptureBackend {
    fn start_capture(&mut self) -> (r: Result<(), MediaError>)
        ensures
            switched(*old(self), *final(self), true, r),
    {
        match self {
            CaptureBackend::V4L2(c) => c.start_capture(),
            CaptureBackend::DirectShow(c) => c.start_capture(),
            CaptureBackend::WebRTC(c) => c.start_capture(),
            CaptureBackend::Mock(c) => c.start_capture(),
        }
    }

    fn stop_capture(&mut self) -> (r: Result<(), MediaError>)
        ensures
            switched(*old(self), *final(self), false, r),
    {
        match self {
            CaptureBackend::V4L2(c) => c.stop_capture(),
            CaptureBackend::DirectShow(c) => c.stop_capture(),
            CaptureBackend::WebRTC(c) => c.stop_capture(),
            CaptureBackend::Mock(c) => c.stop_capture(),
        }
    }

    fn get_devices(&self) -> (r: Result<Vec<String>, MediaError>)
        ensures
            *self is V4L2 ==> single_device(r, "V4L2 Camera"@),
            *self is WebRTC ==> single_device(r, "WebRTC Camera"@),
            *self is Mock ==> single_device(r, "Mock Camera"@),
            *self matches CaptureBackend::DirectShow(d) ==> if d.windows() {
                single_device(r, "DirectShow Camera"@)
            } else {
                directshow_refused(r)
            },
    {
        match self {
            CaptureBackend::V4L2(c) => c.get_devices(),
            CaptureBackend::DirectShow(c) => c.get_devices(),
            CaptureBackend::WebRTC(c) => c.get_devices(),
            CaptureBackend::Mock(c) => c.get_devices(),
        }
    }
}

/// The capture backend for a platform: V4L2 on Linux, DirectShow on Windows, WebRTC in
/// browsers and the mock elsewhere. On macOS the backend is AVFoundation, which needs the
/// system's camera API and is provided outside the library: there is none here.
pub fn get_platform_capture(platform: TargetPlatform) -> (r: Option<CaptureBackend>)
    ensures
        platform == TargetPlatform::MacOs <==> r is None,
        platform == TargetPlatform::Linux ==> r matches Some(CaptureBackend::V4L2(_)),
        platform == TargetPlatform::Windows ==> (r matches Some(CaptureBackend::DirectShow(c))
            && c.windows() && !c.capturing()),
        platform == TargetPlatform::Wasm ==> r matches Some(CaptureBackend::WebRTC(_)),
        platform == TargetPlatform::Other ==> r matches Some(CaptureBackend::Mock(_)),
{
    match platform {
        TargetPlatform::MacOs => None,
        TargetPlatform::Linux => Some(CaptureBackend::V4L2(V4L2Capture::new())),
        TargetPlatform::Windows => Some(CaptureBackend::DirectShow(DirectShowCapture::new(true))),
        TargetPlatform::Wasm => Some(CaptureBackend::WebRTC(WebRTCCapture::new())),
        TargetPlatform::Other => Some(CaptureBackend::Mock(MockCapture::new())),
    }
}


/// Camera frame data received from the camera
#[derive(Debug)]
pub struct CameraFrame {
    /// Frame data
    pub data: Vec<u8>,
    /// Width in pixels
    pub width: usize,
    /// Height in pixels
    pub height: usize,
    /// Pixel format
    pub format: VideoPixelFormat,
    /// When the frame was taken
    pub timestamp: Instant,
}

/// A camera frame as a video frame: same data and size, a keyframe, stamped with the
/// milliseconds elapsed since it was taken
pub fn convert_camera_frame_to_video_frame(camera_frame: CameraFrame) -> (r: VideoFrame)
    ensures
        r.data@ == camera_frame.data@,
        r.width == camera_frame.width as u32,
        r.height == camera_frame.height as u32,
        r.is_keyframe,
{
    let elapsed = instant_elapsed(&camera_frame.timestamp);
    let millis = duration_millis(&elapsed);
    VideoFrame {
        data: camera_frame.data,
        width: camera_frame.width as u32,
        height: camera_frame.height as u32,
        timestamp: millis as u64,
        is_keyframe: true,
    }
}

/// Frame processor configuration
#[derive(Debug, Clone, Copy, PartialEq, Eq, Structural)]
pub struct FrameProcessorConfig {
    /// Whether frames are H.264 encoded
    pub enable_h264_encoding: bool,
    /// H.264 configuration
    pub h264_config: H264Config,
    /// Whether frames are buffered
    pub enable_buffering: bool,
    /// Maximum number of buffered frames
    pub max_buffer_size: usize,
    /// Whether frames are converted to another pixel format
    pub enable_format_conversion: bool,
    /// Pixel format to convert to
    pub target_format: Option<VideoPixelFormat>,
}

impl Default for FrameProcessorConfig {
    fn default() -> (r: FrameProcessorConfig)
        ensures
            !r.enable_h264_encoding,
            r.h264_config == (H264Config { width: 640, height: 480, bitrate: 1_000_000, framerate: 30 }),
            r.enable_buffering,
            r.max_buffer_size == 5,
            !r.enable_format_conversion,
            r.target_format is None,
    {
        FrameProcessorConfig {
            enable_h264_encoding: false,
            h264_config: H264Config::default(),
            enable_buffering: true,
            max_buffer_size: 5,
            enable_format_conversion: false,
            target_format: None,
        }
    }
}

/// Frame processing pipeline
#[derive(Debug)]
pub struct FrameProcessor {
    h264_encoder: Option<H264Codec>,
    frame_buffer: Vec<VideoFrame>,
    config: FrameProcessorConfig,
}

impl FrameProcessor {
    /// The configuration
    pub closed spec fn spec_config(&self) -> FrameProcessorConfig {
        self.config
    }

    /// Whether the processor has an H.264 encoder
    pub closed spec fn encodes(&self) -> bool {
        self.h264_encoder is Some
    }

    /// Number of buffered frames
    pub closed spec fn buffered(&self) -> nat {
        self.frame_buffer@.len()
    }

    /// A processor for the configuration, with an H.264 encoder when encoding is enabled
    /// and no frame buffered
    pub fn new(config: FrameProcessorConfig) -> (r: Result<FrameProcessor, MediaError>)
        ensures
            r matches Ok(p) && p.spec_config() == config && p.encodes() == config.enable_h264_encoding
                && p.buffered() == 0,
    {
        let mut processor = FrameProcessor { h264_encoder: None, frame_buffer: Vec::new(), config };
        if config.enable_h264_encoding {
            match H264Codec::new() {
                Ok(codec) => { processor.h264_encoder = Some(codec); },
                Err(e) => {
                    let mut message = String::from_str("Failed to create H264 codec: ");
                    let detail = e.message();
                    message.append(detail.as_str());
                    return Err(MediaError::InvalidConfiguration { message });
                },
            }
        }
        Ok(processor)
    }

    /// The configuration
    pub fn config(&self) -> (r: &FrameProcessorConfig)
        ensures
            *r == self.spec_config(),
    {
        &self.config
    }
}

/// Check capture settings: a zero width or height is refused first, then a frame rate out
/// of range (whether it is in range, above zero and at most 120, is given), then an empty
/// buffer; each with its message.
pub fn validate_capture_settings(resolution: VideoResolution, framerate_in_range: bool, buffer_size: usize)
    -> (r: Result<(), MediaError>)
    ensures
        resolution.width == 0 || resolution.height == 0 ==> (r matches Err(MediaError::InvalidConfiguration { message })
            && message@ == "Invalid resolution"@),
        resolution.width != 0 && resolution.height != 0 && !framerate_in_range ==> (r matches Err(
            MediaError::InvalidConfiguration { message }) && message@ == "Invalid framerate"@),
        resolution.width != 0 && resolution.height != 0 && framerate_in_range && buffer_size == 0 ==> (r matches Err(
            MediaError::InvalidConfiguration { message }) && message@ == "Buffer size must be > 0"@),
        r is Ok <==> resolution.width != 0 && resolution.height != 0 && framerate_in_range && buffer_size != 0,
{
    if resolution.width == 0 || resolution.height == 0 {
        return Err(MediaError::InvalidConfiguration { message: String::from_str("Invalid resolution") });
    }
    if !framerate_in_range {
        return Err(MediaError::InvalidConfiguration { message: String::from_str("Invalid framerate") });
    }
    if buffer_size == 0 {
        return Err(MediaError::InvalidConfiguration { message: String::from_str("Buffer size must be > 0") });
    }
    Ok(())
}


/// One pixel of the moving test pattern: red follows the column, green the row and blue
/// both, each shifted by the frame count, modulo 256.
pub open spec fn pattern_pixel(x: int, y: int, frame_count: int) -> Seq<u8> {
    seq![((x + frame_count) % 256) as u8, ((y + frame_count % 256) % 256) as u8, ((x + y + frame_count) % 256) as u8]
}

/// The first `n` pixels of row `y` of the pattern.
pub open spec fn pattern_row(n: int, y: int, frame_count: int) -> Seq<u8>
    decreases n,
{
    if n <= 0 {
        Seq::empty()
    } else {
        pattern_row(n - 1, y, frame_count) + pattern_pixel(n - 1, y, frame_count)
    }
}

/// The first `rows` rows of the pattern for frames `width` pixels wide, in RGB24.
pub open spec fn pattern_rows(width: int, rows: int, frame_count: int) -> Seq<u8>
    decreases rows,
{
    if rows <= 0 {
        Seq::empty()
    } else {
        pattern_rows(width, rows - 1, frame_count) + pattern_row(width, rows - 1, frame_count)
    }
}

proof fn lemma_pattern_row_len(n: int, y: int, frame_count: int)
    requires
        n >= 0,
    ensures
        pattern_row(n, y, frame_count).len() == 3 * n,
    decreases n,
{
    if n > 0 {
        lemma_pattern_row_len(n - 1, y, frame_count);
    }
}

proof fn lemma_pattern_rows_len(width: int, rows: int, frame_count: int)
    requires
        width >= 0,
        rows >= 0,
    ensures
        pattern_rows(width, rows, frame_count).len() == 3 * width * rows,
    decreases rows,
{
    if rows > 0 {
        lemma_pattern_rows_len(width, rows - 1, frame_count);
        lemma_pattern_row_len(width, rows - 1, frame_count);
        assert(3 * width * rows == 3 * width * (rows - 1) + 3 * width) by (nonlinear_arith);
    } else {
        assert(3 * width * rows == 0) by (nonlinear_arith) requires rows == 0;
    }
}

/// The frame shown when no camera delivers: the moving test pattern (see [`pattern_rows`])
/// at the resolution, in RGB24, as a keyframe stamped with the current time
pub fn create_fallback_frame(resolution: VideoResolution, frame_count: u64) -> (r: VideoFrame)
    requires
        resolution.width * resolution.height * 3 <= usize::MAX,
        resolution.width + resolution.height + frame_count <= usize::MAX,
    ensures
        r.width == resolution.width,
        r.height == resolution.height,
        r.data@ == pattern_rows(resolution.width as int, resolution.height as int, frame_count as int),
        r.data@.len() == resolution.width * resolution.height * 3,
        r.is_keyframe,
{
    let width = resolution.width as usize;
    let height = resolution.height as usize;
    let fc = frame_count as usize;
    let time_offset = (frame_count % 256) as usize;
    let mut data: Vec<u8> = Vec::new();
    let mut y: usize = 0;
    while y < height
        invariant
            y <= height,
            width == resolution.width,
            height == resolution.height,
            fc == frame_count,
            time_offset == frame_count % 256,
            width + height + fc <= usize::MAX,
            data@ == pattern_rows(width as int, y as int, fc as int),
        decreases height - y,
    {
        let ghost before = data@;
        let mut x: usize = 0;
        while x < width
            invariant
                x <= width,
                y < height,
                width == resolution.width,
                height == resolution.height,
                fc == frame_count,
                time_offset == frame_count % 256,
                width + height + fc <= usize::MAX,
                before == pattern_rows(width as int, y as int, fc as int),
                data@ == before + pattern_row(x as int, y as int, fc as int),
            decreases width - x,
        {
            data.push(((x + fc) % 256) as u8);
            data.push(((y + time_offset) % 256) as u8);
            data.push(((x + y + fc) % 256) as u8);
            x = x + 1;
            assert(data@ =~= before + pattern_row(x as int, y as int, fc as int));
        }
        y = y + 1;
    }
    proof {
        lemma_pattern_rows_len(width as int, height as int, fc as int);
        assert(3 * (width as int) * (height as int) == (width as int) * (height as int) * 3) by (nonlinear_arith);
    }
    VideoFrame {
        data,
        width: resolution.width,
        height: resolution.height,
        timestamp: crate::clock::unix_time_millis(),
        is_keyframe: true,
    }
}

} // verus!
