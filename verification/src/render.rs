//! Rendering: its errors and options, the ring buffer that times audio playback and the
//! buffer that times video display.
use vstd::prelude::*;
use std::time::Duration;
use crate::moq::bump_by;
use crate::moq::add_wrapped;
use crate::text::push_str;
use crate::tracks::VideoFrame;
use crate::video::VideoResolution;
use crate::clock::{instant_now, nanos_since};
use crate::error::MediaError;

verus! {

/// Errors that can occur during rendering
#[derive(Debug)]
pub enum RenderError {
    /// Device not found or not available
    DeviceNotFound {
        /// Device name that was not found
        device: String,
    },
    /// Permission denied to access device
    PermissionDenied,
    /// Device is already in use
    DeviceBusy {
        /// Device name that is busy
        device: String,
    },
    /// Configuration not supported
    ConfigurationNotSupported {
        /// Reason why configuration is not supported
        reason: String,
    },
    /// Render stream error
    StreamError {
        /// Reason for the stream error
        reason: String,
    },
    /// Hardware error
    HardwareError {
        /// Reason for the hardware error
        reason: String,
    },
    /// Buffer underrun
    BufferUnderrun,
    /// Video format not supported
    UnsupportedVideoFormat {
        /// Unsupported format
        format: String,
    },
}

/// The display text of each rendering error.
pub open spec fn render_error_text(e: RenderError) -> Seq<char> {
    match e {
        RenderError::DeviceNotFound { device } => "Device not found: "@ + device@,
        RenderError::PermissionDenied => "Permission denied to access device"@,
        RenderError::DeviceBusy { device } => "Device is busy: "@ + device@,
        RenderError::ConfigurationNotSupported { reason } => "Configuration not supported: "@ + reason@,
        RenderError::StreamError { reason } => "Render stream error: "@ + reason@,
        RenderError::HardwareError { reason } => "Hardware error: "@ + reason@,
        RenderError::BufferUnderrun => "Buffer underrun"@,
        RenderError::UnsupportedVideoFormat { format } => "Video format not supported: "@ + format@,
    }
}

fn prefixed(prefix: &str, value: &String) -> (r: String)
    ensures
        r@ == prefix@ + value@,
{
    let mut s = String::new();
    push_str(&mut s, prefix);
    push_str(&mut s, value.as_str());
    assert(s@ =~= prefix@ + value@);
    s
}

impl RenderError {
    /// The error's display text
    pub fn message(&self) -> (r: String)
        ensures
            r@ == render_error_text(*self),
    {
        match self {
            RenderError::DeviceNotFound { device } => prefixed("Device not found: ", device),
            RenderError::PermissionDenied => String::from_str("Permission denied to access device"),
            RenderError::DeviceBusy { device } => prefixed("Device is busy: ", device),
            RenderError::ConfigurationNotSupported { reason } => prefixed("Configuration not supported: ", reason),
            RenderError::StreamError { reason } => prefixed("Render stream error: ", reason),
            RenderError::HardwareError { reason } => prefixed("Hardware error: ", reason),
            RenderError::BufferUnderrun => String::from_str("Buffer underrun"),
            RenderError::UnsupportedVideoFormat { format } => prefixed("Video format not supported: ", format),
        }
    }
}

/// Video rendering backends
#[derive(Debug, Clone, Copy, PartialEq, Eq, Structural)]
pub enum VideoRenderBackend {
    /// Software-based CPU rendering using pixel buffer operations
    Software,
    /// OpenGL-based GPU rendering for cross-platform acceleration
    OpenGL,
    /// Metal (macOS) GPU rendering
    Metal,
    /// DirectX (Windows) GPU rendering
    DirectX,
    /// Vulkan GPU rendering
    Vulkan,
    /// Web Canvas (WASM) rendering
    WebCanvas,
    /// Automatic backend selection based on platform capabilities
    Auto,
}

impl Default for VideoRenderBackend {
    fn default() -> (r: Self)
        ensures
            r == VideoRenderBackend::Auto,
    {
        VideoRenderBackend::Auto
    }
}

/// Video display mode for window management
#[derive(Debug, Clone, Copy, PartialEq, Eq, Structural)]
pub enum VideoDisplayMode {
    /// Windowed mode with title bar and controls
    Windowed,
    /// Fullscreen mode taking entire screen with mode switching
    Fullscreen,
    /// Borderless fullscreen covering screen without mode switching
    BorderlessFullscreen,
}

impl Default for VideoDisplayMode {
    fn default() -> (r: Self)
        ensures
            r == VideoDisplayMode::Windowed,
    {
        VideoDisplayMode::Windowed
    }
}

/// Video scaling mode for aspect ratio handling
#[derive(Debug, Clone, Copy, PartialEq, Eq, Structural)]
pub enum VideoScalingMode {
    /// Maintain aspect ratio with letterboxing
    LetterBox,
    /// Stretch to fill entire display area
    Stretch,
    /// Crop to fill display area
    Crop,
    /// No scaling (1:1 pixel mapping)
    Unscaled,
}

impl Default for VideoScalingMode {
    fn default() -> (r: Self)
        ensures
            r == VideoScalingMode::LetterBox,
    {
        VideoScalingMode::LetterBox
    }
}

/// Video rendering events
#[derive(Debug)]
pub enum VideoRenderEvent {
    /// Renderer initialized
    RendererInitialized { backend: VideoRenderBackend, resolution: VideoResolution },
    /// Frame rendered
    FrameRendered { frame_number: u64, render_time: Duration },
    /// Display mode changed
    DisplayModeChanged { old_mode: VideoDisplayMode, new_mode: VideoDisplayMode },
    /// Window resized
    WindowResized { old_size: VideoResolution, new_size: VideoResolution },
    /// Rendering error
    RenderError { error: String },
    /// Renderer closed
    RendererClosed,
}



/// The events a change of configuration shows, from the display mode and window size
/// before (none before the first configuration) to those after: a mode change first, then
/// a resize, each only where the value differs.
pub fn display_change_events(
    old: Option<(VideoDisplayMode, VideoResolution)>,
    new_mode: VideoDisplayMode,
    new_size: VideoResolution,
) -> (r: Vec<VideoRenderEvent>)
    ensures
        old is None ==> r@.len() == 0,
        old matches Some((mode, size)) ==> {
            let moved = mode != new_mode;
            let resized = size != new_size;
            &&& r@.len() == (if moved { 1int } else { 0int }) + (if resized { 1int } else { 0int })
            &&& moved ==> (r@[0] matches VideoRenderEvent::DisplayModeChanged { old_mode, new_mode: m }
                && old_mode == mode && m == new_mode)
            &&& resized ==> (r@[r@.len() - 1] matches VideoRenderEvent::WindowResized {
                old_size,
                new_size: z,
            } && old_size == size && z == new_size)
        },
{
    let mut events: Vec<VideoRenderEvent> = Vec::new();
    if let Some((mode, size)) = old {
        if mode != new_mode {
            events.push(VideoRenderEvent::DisplayModeChanged { old_mode: mode, new_mode });
        }
        if size != new_size {
            events.push(VideoRenderEvent::WindowResized { old_size: size, new_size });
        }
    }
    events
}

/// Software video renderer: it keeps its configuration (of type `C`), whether it is
/// active, how many frames it has rendered and the running average of their render time
#[derive(Debug)]
pub struct SoftwareRenderer<C> {
    config: Option<C>,
    active: bool,
    frames_rendered: u64,
    avg_render_nanos: u64,
}

impl<C> SoftwareRenderer<C> {
    /// The configuration, once one is given
    pub closed spec fn spec_config(self) -> Option<C> {
        self.config
    }

    /// Whether frames are accepted
    pub closed spec fn spec_active(self) -> bool {
        self.active
    }

    /// Frames rendered so far
    pub closed spec fn spec_frames(self) -> u64 {
        self.frames_rendered
    }

    /// Running average of the render time, in nanoseconds
    pub closed spec fn spec_avg_nanos(self) -> u64 {
        self.avg_render_nanos
    }

    /// An inactive renderer with no configuration and no frames
    pub fn new() -> (r: Result<Self, MediaError>)
        ensures
            r matches Ok(s) && s.spec_config() is None && !s.spec_active() && s.spec_frames() == 0
                && s.spec_avg_nanos() == 0,
    {
        Ok(SoftwareRenderer { config: None, active: false, frames_rendered: 0, avg_render_nanos: 0 })
    }

    /// Take a configuration and start accepting frames
    pub fn initialize(&mut self, config: C) -> (r: Result<(), MediaError>)
        ensures
            r is Ok,
            final(self).spec_config() == Some(config),
            final(self).spec_active(),
            final(self).spec_frames() == old(self).spec_frames(),
            final(self).spec_avg_nanos() == old(self).spec_avg_nanos(),
    {
        self.config = Some(config);
        self.active = true;
        Ok(())
    }

    /// Render a frame: refused unless the renderer is active; otherwise counted, with the
    /// time it took measured on the monotonic clock and folded into the average
    pub fn render_frame(&mut self, frame: &VideoFrame) -> (r: Result<(), MediaError>)
        requires
            old(self).spec_active() ==> old(self).spec_frames() < u64::MAX,
        ensures
            !old(self).spec_active() ==> (r matches Err(MediaError::InvalidState { message })
                && message@ == "Renderer not initialized"@ && *final(self) == *old(self)),
            old(self).spec_active() ==> (r is Ok && final(self).spec_frames() == old(self).spec_frames() + 1),
            final(self).spec_config() == old(self).spec_config(),
            final(self).spec_active() == old(self).spec_active(),
    {
        if !self.active {
            return Err(MediaError::InvalidState { message: String::from_str("Renderer not initialized") });
        }
        let start = instant_now();
        let render_nanos = nanos_since(&start);
        self.record_frame(render_nanos)
    }

    /// Count a rendered frame that took `render_nanos`: the average becomes the mean of the
    /// old average and this time, rounded down
    pub fn record_frame(&mut self, render_nanos: u64) -> (r: Result<(), MediaError>)
        requires
            old(self).spec_active(),
            old(self).spec_frames() < u64::MAX,
        ensures
            r is Ok,
            final(self).spec_frames() == old(self).spec_frames() + 1,
            final(self).spec_avg_nanos() == (old(self).spec_avg_nanos() + render_nanos) / 2,
            final(self).spec_config() == old(self).spec_config(),
            final(self).spec_active(),
    {
        self.frames_rendered = self.frames_rendered + 1;
        let sum: u128 = self.avg_render_nanos as u128 + render_nanos as u128;
        self.avg_render_nanos = (sum / 2) as u64;
        Ok(())
    }

    /// Replace the configuration
    pub fn update_config(&mut self, config: C) -> (r: Result<(), MediaError>)
        ensures
            r is Ok,
            final(self).spec_config() == Some(config),
            final(self).spec_active() == old(self).spec_active(),
            final(self).spec_frames() == old(self).spec_frames(),
            final(self).spec_avg_nanos() == old(self).spec_avg_nanos(),
    {
        self.config = Some(config);
        Ok(())
    }

    /// Whether frames are accepted
    pub fn is_active(&self) -> (r: bool)
        ensures
            r == self.spec_active(),
    {
        self.active
    }

    /// The configuration, once one is given
    pub fn current_config(&self) -> (r: Option<&C>)
        ensures
            r matches Some(c) ==> self.spec_config() == Some(*c),
            r is None <==> self.spec_config() is None,
    {
        match &self.config {
            Some(c) => Some(c),
            None => None,
        }
    }

    /// Frames rendered so far
    pub fn frames_rendered(&self) -> (r: u64)
        ensures
            r == self.spec_frames(),
    {
        self.frames_rendered
    }

    /// Running average of the render time, in nanoseconds
    pub fn avg_render_nanos(&self) -> (r: u64)
        ensures
            r == self.spec_avg_nanos(),
    {
        self.avg_render_nanos
    }

    /// Window events: a software renderer has none and never asks to close
    pub fn process_events(&mut self) -> (r: Result<bool, MediaError>)
        ensures
            r == Ok::<bool, MediaError>(true),
            *final(self) == *old(self),
    {
        Ok(true)
    }

    /// Stop accepting frames
    pub fn shutdown(&mut self) -> (r: Result<(), MediaError>)
        ensures
            r is Ok,
            !final(self).spec_active(),
            final(self).spec_config() == old(self).spec_config(),
            final(self).spec_frames() == old(self).spec_frames(),
            final(self).spec_avg_nanos() == old(self).spec_avg_nanos(),
    {
        self.active = false;
        Ok(())
    }
}

/// The position `i` places after `start` in a ring of `capacity` slots (`i < capacity`).
pub open spec fn ring_index(start: int, i: int, capacity: int) -> int {
    if start + i < capacity { start + i } else { start + i - capacity }
}

/// Ring buffer of samples that times playback: samples are written at one end and read at
/// the other; it holds one sample less than its capacity
#[derive(Debug)]
pub struct AudioBuffer<T> {
    samples: Vec<T>,
    read_pos: usize,
    write_pos: usize,
    capacity: usize,
    underruns: u64,
}

impl<T: Copy> AudioBuffer<T> {
    /// The slots are the capacity, and both positions lie within them.
    pub closed spec fn wf(&self) -> bool {
        &&& self.capacity >= 1
        &&& self.samples@.len() == self.capacity
        &&& self.read_pos < self.capacity
        &&& self.write_pos < self.capacity
    }

    /// Number of slots
    pub closed spec fn spec_capacity(&self) -> nat {
        self.capacity as nat
    }

    /// How many reads came short of samples
    pub closed spec fn spec_underruns(&self) -> u64 {
        self.underruns
    }

    /// The samples waiting to be read, oldest first
    pub closed spec fn contents(&self) -> Seq<T> {
        let n = if self.write_pos >= self.read_pos { self.write_pos - self.read_pos } else {
            self.capacity - self.read_pos + self.write_pos
        };
        Seq::new(n as nat, |i: int| self.samples@[ring_index(self.read_pos as int, i, self.capacity as int)])
    }

    /// An empty buffer of `capacity` slots, each filled with `silence`
    pub fn new(capacity: usize, silence: T) -> (r: Self)
        requires
            capacity >= 1,
        ensures
            r.wf(),
            r.spec_capacity() == capacity,
            r.contents().len() == 0,
            r.spec_underruns() == 0,
    {
        let mut samples: Vec<T> = Vec::new();
        let mut i: usize = 0;
        while i < capacity
            invariant
                i <= capacity,
                samples@.len() == i,
            decreases capacity - i,
        {
            samples.push(silence);
            i = i + 1;
        }
        let r = AudioBuffer { samples, read_pos: 0, write_pos: 0, capacity, underruns: 0 };
        assert(r.contents() =~= Seq::<T>::empty());
        r
    }

    /// Number of samples waiting to be read
    pub fn available_read(&self) -> (r: usize)
        requires
            self.wf(),
        ensures
            r == self.contents().len(),
            r < self.spec_capacity(),
    {
        if self.write_pos >= self.read_pos {
            self.write_pos - self.read_pos
        } else {
            self.capacity - self.read_pos + self.write_pos
        }
    }

    /// Number of samples that can be written
    pub fn available_write(&self) -> (r: usize)
        requires
            self.wf(),
        ensures
            r == self.spec_capacity() - 1 - self.contents().len(),
    {
        self.capacity - self.available_read() - 1
    }

    /// Number of slots
    pub fn capacity(&self) -> (r: usize)
        ensures
            r == self.spec_capacity(),
    {
        self.capacity
    }

    /// Write as many of the samples as fit, oldest first; gives how many were written
    pub fn write(&mut self, data: &[T]) -> (r: usize)
        requires
            old(self).wf(),
        ensures
            final(self).wf(),
            final(self).spec_capacity() == old(self).spec_capacity(),
            final(self).spec_underruns() == old(self).spec_underruns(),
            r == if data@.len() < old(self).spec_capacity() - 1 - old(self).contents().len() { data@.len() as int }
                else { old(self).spec_capacity() - 1 - old(self).contents().len() },
            final(self).contents() == old(self).contents() + data@.take(r as int),
    {
        let available = self.available_write();
        let to_write = if data.len() < available { data.len() } else { available };
        let ghost start = self.contents();
        let mut i: usize = 0;
        while i < to_write
            invariant
                self.wf(),
                self.capacity == old(self).capacity,
                self.read_pos == old(self).read_pos,
                self.underruns == old(self).underruns,
                to_write <= data@.len(),
                start.len() + to_write < self.capacity,
                i <= to_write,
                self.contents() == start + data@.take(i as int),
            decreases to_write - i,
        {
            let ghost before = self.contents();
            let ghost old_samples = self.samples@;
            let w = self.write_pos;
            let x = data[i];
            self.samples[w] = x;
            assert(self.samples@ == old_samples.update(w as int, x));
            let next = if w + 1 == self.capacity { 0 } else { w + 1 };
            self.write_pos = next;
            i = i + 1;
            proof {
                let after = self.contents();
                let target = start + data@.take(i as int);
                assert(before =~= start + data@.take(i - 1));
                assert(after.len() == before.len() + 1);
                assert forall|k: int| 0 <= k < after.len() implies after[k] == target[k] by {
                    let pos = ring_index(self.read_pos as int, k, self.capacity as int);
                    assert(after[k] == self.samples@[pos]);
                    if k < before.len() {
                        assert(pos != w);
                        assert(before[k] == old_samples[pos]);
                        assert(target[k] == before[k]);
                    } else {
                        assert(pos == w);
                        assert(target[k] == data@[i - 1]);
                    }
                }
                assert(after =~= target);
            }
        }
        to_write
    }

    /// Read samples into `data`, oldest first, as many as there are; the rest of `data` is
    /// filled with `silence` and the shortfall counted as an underrun. Gives how many were read.
    pub fn read(&mut self, data: &mut [T], silence: T) -> (r: usize)
        requires
            old(self).wf(),
        ensures
            final(self).wf(),
            final(self).spec_capacity() == old(self).spec_capacity(),
            r == if old(data)@.len() < old(self).contents().len() { old(data)@.len() as int }
                else { old(self).contents().len() as int },
            final(data)@.len() == old(data)@.len(),
            forall|k: int| 0 <= k < r ==> final(data)@[k] == old(self).contents()[k],
            forall|k: int| r <= k < old(data)@.len() ==> final(data)@[k] == silence,
            final(self).contents() == old(self).contents().skip(r as int),
            final(self).spec_underruns() == if r < old(data)@.len() { bump_by(old(self).spec_underruns(), 1) }
                else { old(self).spec_underruns() },
    {
        let available = self.available_read();
        let n = data.len();
        let to_read = if n < available { n } else { available };
        if to_read < n {
            self.underruns = add_wrapped(self.underruns, 1);
            let mut j: usize = to_read;
            while j < n
                invariant
                    to_read <= j <= n,
                    n == data@.len(),
                    data@.len() == old(data)@.len(),
                    forall|k: int| to_read <= k < j ==> data@[k] == silence,
                decreases n - j,
            {
                data[j] = silence;
                j = j + 1;
            }
        }
        let ghost start = self.contents();
        let ghost filled = data@;
        let mut i: usize = 0;
        while i < to_read
            invariant
                self.wf(),
                self.capacity == old(self).capacity,
                self.write_pos == old(self).write_pos,
                self.samples@ == old(self).samples@,
                self.underruns == if to_read < n { bump_by(old(self).underruns, 1) } else { old(self).underruns },
                to_read <= start.len(),
                to_read <= n,
                n == data@.len(),
                i <= to_read,
                self.contents() == start.skip(i as int),
                forall|k: int| 0 <= k < i ==> data@[k] == start[k],
                filled.len() == n,
                forall|k: int| to_read <= k < n ==> data@[k] == filled[k],
                forall|k: int| to_read <= k < n ==> filled[k] == silence,
            decreases to_read - i,
        {
            let ghost before = self.contents();
            let ghost old_data = data@;
            let rp = self.read_pos;
            let x = self.samples[rp];
            assert(before.len() > 0);
            assert(ring_index(rp as int, 0, self.capacity as int) == rp as int);
            assert(before[0] == self.samples@[rp as int]);
            assert(before[0] == start[i as int]);
            data[i] = x;
            assert(data@ == old_data.update(i as int, x));
            let next = if rp + 1 == self.capacity { 0 } else { rp + 1 };
            self.read_pos = next;
            i = i + 1;
            proof {
                let after = self.contents();
                assert(after.len() + 1 == before.len());
                assert forall|k: int| 0 <= k < after.len() implies after[k] == before[k + 1] by {
                    let p1 = ring_index(self.read_pos as int, k, self.capacity as int);
                    let p0 = ring_index(rp as int, k + 1, self.capacity as int);
                    assert(p1 == p0);
                }
                assert(after =~= start.skip(i as int));
            }
        }
        assert forall|k: int| to_read <= k < old(data)@.len() implies data@[k] == silence by {
            assert(data@[k] == filled[k]);
        }
        to_read
    }
}

/// Samples come out in the order they went in: once the samples held before a write are
/// read, the next ones read are the written samples from the first, and what is left is
/// the rest of them.
pub proof fn lemma_samples_read_in_written_order<T>(held: Seq<T>, data: Seq<T>, written: int, read: int)
    requires
        0 <= written <= data.len(),
        held.len() <= read <= held.len() + written,
    ensures
        (held + data.take(written)).take(read) == held + data.take(read - held.len()),
        (held + data.take(written)).skip(read) == data.take(written).skip(read - held.len()),
{
    assert((held + data.take(written)).take(read) =~= held + data.take(read - held.len()));
    assert((held + data.take(written)).skip(read) =~= data.take(written).skip(read - held.len()));
}

/// The frames queued after pushing `frame` on `queued` with room for `max`: the oldest
/// leaves first when the queue is full.
pub open spec fn queued_after_push(queued: Seq<VideoFrame>, max: nat, frame: VideoFrame) -> Seq<VideoFrame> {
    if queued.len() >= max && queued.len() > 0 {
        queued.drop_first().push(frame)
    } else {
        queued.push(frame)
    }
}

/// A frame buffer with room for at least one frame never holds more than its room, and a
/// push keeps the newest frames in order.
pub proof fn lemma_push_keeps_room(queued: Seq<VideoFrame>, max: nat, frame: VideoFrame)
    requires
        1 <= max,
        queued.len() <= max,
    ensures
        queued_after_push(queued, max, frame).len() <= max,
        queued_after_push(queued, max, frame).last() == frame,
        queued.len() < max ==> queued_after_push(queued, max, frame).drop_last() == queued,
        queued.len() == max ==> queued_after_push(queued, max, frame).drop_last() == queued.drop_first(),
{
    assert(queued.push(frame).drop_last() =~= queued);
    if queued.len() > 0 {
        assert(queued.drop_first().push(frame).drop_last() =~= queued.drop_first());
    }
}

/// Frame buffer that times video display: the newest frames, the oldest dropped to make room
#[derive(Debug)]
pub struct VideoFrameBuffer {
    frames: Vec<VideoFrame>,
    max_size: usize,
    dropped_frames: u64,
}

impl VideoFrameBuffer {
    /// The frames waiting, oldest first
    pub closed spec fn queued(&self) -> Seq<VideoFrame> {
        self.frames@
    }

    /// The most frames kept
    pub closed spec fn spec_max_size(&self) -> usize {
        self.max_size
    }

    /// How many frames were dropped
    pub closed spec fn dropped(&self) -> u64 {
        self.dropped_frames
    }

    /// An empty buffer keeping at most `max_size` frames
    pub fn new(max_size: usize) -> (r: Self)
        ensures
            r.queued().len() == 0,
            r.spec_max_size() == max_size,
            r.dropped() == 0,
    {
        VideoFrameBuffer { frames: Vec::new(), max_size, dropped_frames: 0 }
    }

    /// Queue a frame; when the buffer is full the oldest frame is dropped first
    pub fn push(&mut self, frame: VideoFrame) -> (r: bool)
        ensures
            r,
            final(self).spec_max_size() == old(self).spec_max_size(),
            final(self).queued() == queued_after_push(old(self).queued(), old(self).spec_max_size() as nat, frame),
            old(self).queued().len() >= old(self).spec_max_size() ==> final(self).dropped() == bump_by(
                old(self).dropped(), 1),
            old(self).queued().len() < old(self).spec_max_size() ==> final(self).dropped() == old(self).dropped(),
    {
        if self.frames.len() >= self.max_size {
            if self.frames.len() > 0 {
                self.frames.remove(0);
            }
            self.dropped_frames = add_wrapped(self.dropped_frames, 1);
        }
        self.frames.push(frame);
        true
    }

    /// Take the oldest frame, if any
    pub fn pop(&mut self) -> (r: Option<VideoFrame>)
        ensures
            final(self).spec_max_size() == old(self).spec_max_size(),
            final(self).dropped() == old(self).dropped(),
            old(self).queued().len() == 0 ==> r is None && final(self).queued() == old(self).queued(),
            old(self).queued().len() > 0 ==> r == Some(old(self).queued()[0])
                && final(self).queued() == old(self).queued().skip(1),
    {
        if self.frames.len() == 0 {
            None
        } else {
            Some(self.frames.remove(0))
        }
    }

    /// Number of frames waiting
    pub fn len(&self) -> (r: usize)
        ensures
            r == self.queued().len(),
    {
        self.frames.len()
    }

    /// The most frames kept
    pub fn max_size(&self) -> (r: usize)
        ensures
            r == self.spec_max_size(),
    {
        self.max_size
    }

    /// Whether no frame is waiting
    pub fn is_empty(&self) -> (r: bool)
        ensures
            r == (self.queued().len() == 0),
    {
        self.frames.len() == 0
    }

    /// How many frames were dropped
    pub fn dropped_frames(&self) -> (r: u64)
        ensures
            r == self.dropped(),
    {
        self.dropped_frames
    }
}


/// The sample rates an output device is offered, in ascending order.
pub open spec fn common_sample_rates() -> Seq<u32> {
    seq![8000u32, 16000, 22050, 44100, 48000, 96000]
}

/// Whether some configuration, given as (lowest rate, highest rate, channels), spans the rate.
pub open spec fn rate_in_some_range(configs: Seq<(u32, u32, u16)>, rate: u32) -> bool {
    exists|i: int| 0 <= i < configs.len() && configs[i].0 <= rate && rate <= configs[i].1
}

/// The rates of `rates` that some configuration spans, in order.
pub open spec fn rates_spanned(rates: Seq<u32>, configs: Seq<(u32, u32, u16)>) -> Seq<u32>
    decreases rates.len(),
{
    if rates.len() == 0 {
        Seq::empty()
    } else {
        let rest = rates_spanned(rates.drop_last(), configs);
        if rate_in_some_range(configs, rates.last()) { rest.push(rates.last()) } else { rest }
    }
}

/// Whether the values are in strictly ascending order.
pub open spec fn strictly_ascending(s: Seq<u8>) -> bool {
    forall|i: int, j: int| 0 <= i < j < s.len() ==> s[i] < s[j]
}

/// Whether some configuration has the channel count, taken modulo 256.
pub open spec fn channel_count_offered(configs: Seq<(u32, u32, u16)>, c: u8) -> bool {
    exists|i: int| 0 <= i < configs.len() && configs[i].2 as u8 == c
}

/// Whether some configuration spans the rate
fn spans(configs: &Vec<(u32, u32, u16)>, rate: u32) -> (r: bool)
    ensures
        r == rate_in_some_range(configs@, rate),
{
    let mut i: usize = 0;
    while i < configs.len()
        invariant
            i <= configs@.len(),
            forall|j: int| 0 <= j < i ==> !(configs@[j].0 <= rate && rate <= configs@[j].1),
        decreases configs@.len() - i,
    {
        if configs[i].0 <= rate && rate <= configs[i].1 {
            return true;
        }
        i = i + 1;
    }
    false
}

/// Put `c` into strictly ascending values, unless it is there already
fn insert_sorted(v: &mut Vec<u8>, c: u8)
    requires
        strictly_ascending(old(v)@),
    ensures
        strictly_ascending(final(v)@),
        forall|x: u8| final(v)@.contains(x) <==> (old(v)@.contains(x) || x == c),
{
    let mut p: usize = 0;
    while p < v.len() && v[p] < c
        invariant
            p <= v@.len(),
            forall|j: int| 0 <= j < p ==> v@[j] < c,
        decreases v@.len() - p,
    {
        p = p + 1;
    }
    if p < v.len() && v[p] == c {
        assert(v@.contains(c) && v@[p as int] == c);
        return;
    }
    let ghost before = v@;
    v.insert(p, c);
    proof {
        let after = v@;
        assert forall|x: u8| after.contains(x) <==> (before.contains(x) || x == c) by {
            if after.contains(x) {
                let k = choose|k: int| 0 <= k < after.len() && after[k] == x;
                if k < p { assert(after[k] == before[k]); } else if k > p { assert(after[k] == before[k - 1]); }
            }
            if before.contains(x) {
                let k = choose|k: int| 0 <= k < before.len() && before[k] == x;
                if k < p { assert(after[k] == x); } else { assert(after[k + 1] == x); }
            }
            if x == c { assert(after[p as int] == c); }
        }
        assert forall|i: int, j: int| 0 <= i < j < after.len() implies after[i] < after[j] by {
            if p < before.len() { assert(before[p as int] > c); }
            if j < p {
                assert(after[i] == before[i] && after[j] == before[j]);
            } else if j == p {
                assert(after[i] == before[i]);
            } else if i < p {
                assert(after[i] == before[i] && after[j] == before[j - 1]);
                assert(before[p as int] <= before[j - 1]);
            } else if i == p {
                assert(after[j] == before[j - 1]);
                assert(before[p as int] <= before[j - 1]);
            } else {
                assert(after[i] == before[i - 1] && after[j] == before[j - 1]);
            }
        }
    }
}

/// What an output device supports, from its configurations given as (lowest rate, highest
/// rate, channels): the common sample rates that some configuration spans, in ascending
/// order, and its channel counts (taken modulo 256), each once, in ascending order
pub fn supported_formats(configs: &Vec<(u32, u32, u16)>) -> (r: (Vec<u32>, Vec<u8>))
    ensures
        r.0@ == rates_spanned(common_sample_rates(), configs@),
        strictly_ascending(r.1@),
        forall|c: u8| r.1@.contains(c) <==> channel_count_offered(configs@, c),
{
    let common: Vec<u32> = vec![8000u32, 16000, 22050, 44100, 48000, 96000];
    assert(common@ =~= common_sample_rates());
    let mut rates: Vec<u32> = Vec::new();
    let mut k: usize = 0;
    while k < common.len()
        invariant
            k <= common@.len(),
            common@ == common_sample_rates(),
            rates@ == rates_spanned(common@.take(k as int), configs@),
        decreases common@.len() - k,
    {
        assert(common@.take(k + 1).drop_last() =~= common@.take(k as int));
        if spans(configs, common[k]) {
            rates.push(common[k]);
        }
        k = k + 1;
    }
    assert(common@.take(common@.len() as int) =~= common@);
    let mut channels: Vec<u8> = Vec::new();
    let mut i: usize = 0;
    while i < configs.len()
        invariant
            i <= configs@.len(),
            strictly_ascending(channels@),
            forall|c: u8| channels@.contains(c) <==> exists|j: int| 0 <= j < i && configs@[j].2 as u8 == c,
        decreases configs@.len() - i,
    {
        let c = configs[i].2 as u8;
        insert_sorted(&mut channels, c);
        proof {
            assert forall|x: u8| channels@.contains(x) <==> exists|j: int| 0 <= j < i + 1 && configs@[j].2 as u8 == x by {
                if x == c { assert(configs@[i as int].2 as u8 == x); }
                if exists|j: int| 0 <= j < i + 1 && configs@[j].2 as u8 == x {
                    let j = choose|j: int| 0 <= j < i + 1 && configs@[j].2 as u8 == x;
                    if j < i { assert(exists|j2: int| 0 <= j2 < i && configs@[j2].2 as u8 == x); }
                }
            }
        }
        i = i + 1;
    }
    (rates, channels)
}

} // verus!
