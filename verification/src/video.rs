//! Video pixel formats, resolutions and display sizing utilities.
use vstd::prelude::*;

verus! {

/// Supported video pixel formats
#[derive(Debug, Clone, Copy, PartialEq, Eq, Hash, Structural)]
pub enum VideoPixelFormat {
    YUV420P,
    YUV422,
    RGB24,
    RGBA32,
    MJPEG,
    H264,
    NV12,
    BGR24,
}

/// Bytes per pixel of an uncompressed format; `None` for compressed formats.
pub open spec fn bytes_per_pixel_of(f: VideoPixelFormat) -> Option<usize> {
    match f {
        VideoPixelFormat::RGB24 | VideoPixelFormat::BGR24 => Some(3),
        VideoPixelFormat::RGBA32 => Some(4),
        VideoPixelFormat::YUV420P | VideoPixelFormat::NV12 => Some(1),
        VideoPixelFormat::YUV422 => Some(2),
        VideoPixelFormat::MJPEG | VideoPixelFormat::H264 => None,
    }
}

impl VideoPixelFormat {
    /// Bytes per pixel, for uncompressed formats
    pub fn bytes_per_pixel(&self) -> (r: Option<usize>)
        ensures
            r == bytes_per_pixel_of(*self),
    {
        match self {
            VideoPixelFormat::RGB24 | VideoPixelFormat::BGR24 => Some(3),
            VideoPixelFormat::RGBA32 => Some(4),
            VideoPixelFormat::YUV420P | VideoPixelFormat::NV12 => Some(1),
            VideoPixelFormat::YUV422 => Some(2),
            VideoPixelFormat::MJPEG | VideoPixelFormat::H264 => None,
        }
    }

    /// Whether the format is a compressed bitstream
    pub fn is_compressed(&self) -> (r: bool)
        ensures
            r == (*self == VideoPixelFormat::MJPEG || *self == VideoPixelFormat::H264),
    {
        match self {
            VideoPixelFormat::MJPEG | VideoPixelFormat::H264 => true,
            _ => false,
        }
    }
}

/// Video resolution information
#[derive(Debug, Clone, Copy, PartialEq, Eq, Hash, Structural)]
pub struct VideoResolution {
    pub width: u32,
    pub height: u32,
}

impl VideoResolution {
    /// A resolution of the given size
    pub fn new(width: u32, height: u32) -> (r: Self)
        ensures
            r.width == width,
            r.height == height,
    {
        Self { width, height }
    }

    /// 1280x720
    pub fn hd() -> (r: Self)
        ensures
            r.width == 1280 && r.height == 720,
    {
        Self::new(1280, 720)
    }

    /// 1920x1080
    pub fn full_hd() -> (r: Self)
        ensures
            r.width == 1920 && r.height == 1080,
    {
        Self::new(1920, 1080)
    }

    /// 640x480
    pub fn vga() -> (r: Self)
        ensures
            r.width == 640 && r.height == 480,
    {
        Self::new(640, 480)
    }

    /// Number of pixels
    pub fn pixel_count(&self) -> (r: u32)
        requires
            self.width * self.height <= u32::MAX,
        ensures
            r == self.width * self.height,
    {
        self.width * self.height
    }

    /// Number of pixels (same as `pixel_count`)
    pub fn total_pixels(&self) -> (r: u32)
        requires
            self.width * self.height <= u32::MAX,
        ensures
            r == self.width * self.height,
    {
        self.pixel_count()
    }

    /// The 720p resolution
    pub fn hd720() -> (r: Self)
        ensures
            r.width == 1280 && r.height == 720,
    {
        Self::hd()
    }
}

/// The multiplier applied to the pixel count before any halving.
pub open spec fn frame_memory_multiplier(f: VideoPixelFormat) -> nat {
    match f {
        VideoPixelFormat::RGB24 | VideoPixelFormat::BGR24 => 3,
        VideoPixelFormat::RGBA32 => 4,
        VideoPixelFormat::YUV420P | VideoPixelFormat::NV12 => 3,
        VideoPixelFormat::YUV422 => 2,
        _ => 4,
    }
}

/// Memory, in bytes, needed for a frame: pixels times bytes per pixel,
/// rounded down for the 4:2:0 formats.
pub open spec fn frame_memory(resolution: VideoResolution, format: VideoPixelFormat) -> nat {
    let p = resolution.width * resolution.height;
    match format {
        VideoPixelFormat::YUV420P | VideoPixelFormat::NV12 => (p * 3 / 2) as nat,
        _ => (p * frame_memory_multiplier(format)) as nat,
    }
}

/// Calculate memory requirements for a frame
pub fn calculate_frame_memory(resolution: VideoResolution, format: VideoPixelFormat) -> (r: usize)
    requires
        resolution.width * resolution.height * frame_memory_multiplier(format) <= u32::MAX,
    ensures
        r == frame_memory(resolution, format),
{
    let p: u32 = resolution.total_pixels();
    match format {
        VideoPixelFormat::RGB24 | VideoPixelFormat::BGR24 => (p * 3) as usize,
        VideoPixelFormat::RGBA32 => (p * 4) as usize,
        VideoPixelFormat::YUV420P | VideoPixelFormat::NV12 => ((p * 3) / 2) as usize,
        VideoPixelFormat::YUV422 => (p * 2) as usize,
        _ => (p * 4) as usize,
    }
}

/// The GPU texture format name for a pixel format.
pub open spec fn texture_format_name(format: VideoPixelFormat) -> Seq<char> {
    match format {
        VideoPixelFormat::RGB24 => "RGB8"@,
        VideoPixelFormat::RGBA32 => "RGBA8"@,
        VideoPixelFormat::BGR24 => "BGR8"@,
        VideoPixelFormat::YUV420P => "YUV420P"@,
        VideoPixelFormat::YUV422 => "YUV422"@,
        VideoPixelFormat::NV12 => "NV12"@,
        _ => "RGBA8"@,
    }
}

/// Convert pixel format to GPU texture format
pub fn pixel_format_to_texture_format(format: VideoPixelFormat) -> (r: &'static str)
    ensures
        r@ == texture_format_name(format),
{
    match format {
        VideoPixelFormat::RGB24 => "RGB8",
        VideoPixelFormat::RGBA32 => "RGBA8",
        VideoPixelFormat::BGR24 => "BGR8",
        VideoPixelFormat::YUV420P => "YUV420P",
        VideoPixelFormat::YUV422 => "YUV422",
        VideoPixelFormat::NV12 => "NV12",
        _ => "RGBA8",
    }
}


/// Whether the source is wider than the target: its width-to-height ratio is the larger.
/// A zero height stands for an unbounded ratio, and two zero sides for no ratio at all,
/// which is never the larger.
pub open spec fn wider_than(source: VideoResolution, target: VideoResolution) -> bool {
    source.width * target.height > target.width * source.height
}

/// The scaled size and the offsets that fit the source into the target with its shape
/// kept: a wider source spans the target's width and is centred vertically, any other
/// spans the target's height and is centred horizontally. Scaled sides round down, and a
/// source without a ratio scales to nothing.
pub open spec fn letterbox_of(source: VideoResolution, target: VideoResolution) -> (VideoResolution, int, int) {
    if wider_than(source, target) {
        let h = (target.width * source.height) / (source.width as int);
        (VideoResolution { width: target.width, height: h as u32 }, 0, (target.height - h) / 2)
    } else {
        let w = if source.height == 0 { 0 } else { (target.height * source.width) / (source.height as int) };
        (VideoResolution { width: w as u32, height: target.height }, (target.width - w) / 2, 0)
    }
}

/// Fit a source into a target resolution keeping its aspect ratio: the scaled size and the
/// horizontal and vertical offsets of the picture (see [`letterbox_of`]). Target sides up
/// to `i32::MAX` keep the offsets within `i32`.
pub fn calculate_letterbox(source_resolution: VideoResolution, target_resolution: VideoResolution)
    -> (r: (VideoResolution, i32, i32))
    requires
        target_resolution.width <= i32::MAX,
        target_resolution.height <= i32::MAX,
    ensures
        (r.0, r.1 as int, r.2 as int) == letterbox_of(source_resolution, target_resolution),
{
    let sw = source_resolution.width as u64;
    let sh = source_resolution.height as u64;
    let tw = target_resolution.width as u64;
    let th = target_resolution.height as u64;
    assert(sw * th <= 0xffff_ffff_ffff_ffff) by (nonlinear_arith)
        requires sw <= 0xffff_ffff, th <= 0xffff_ffff;
    assert(tw * sh <= 0xffff_ffff_ffff_ffff) by (nonlinear_arith)
        requires tw <= 0xffff_ffff, sh <= 0xffff_ffff;
    if sw * th > tw * sh {
        let h = tw * sh / sw;
        assert(h < th) by (nonlinear_arith)
            requires sw * th > tw * sh, h == (tw * sh) / (sw as int), sw > 0;
        let offset_y = ((th - h) / 2) as i32;
        assert((th - h) / 2 == (target_resolution.height - h) / 2);
        (VideoResolution::new(target_resolution.width, h as u32), 0, offset_y)
    } else {
        let w = if sh == 0 { 0 } else { th * sw / sh };
        assert(w <= tw) by (nonlinear_arith)
            requires sw * th <= tw * sh, sh == 0 ==> w == 0, sh > 0 ==> w == (th * sw) / (sh as int);
        let offset_x = ((tw - w) / 2) as i32;
        assert((tw - w) / 2 == (target_resolution.width - w) / 2);
        (VideoResolution::new(w as u32, target_resolution.height), offset_x, 0)
    }
}

} // verus!
