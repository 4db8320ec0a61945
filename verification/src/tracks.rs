//! Track abstractions and media frame types
use vstd::prelude::*;

verus! {

/// Video frame representation
#[derive(Debug)]
pub struct VideoFrame {
    /// Frame width in pixels
    pub width: u32,
    /// Frame height in pixels
    pub height: u32,
    /// Frame data (encoded or raw)
    pub data: Vec<u8>,
    /// Timestamp in milliseconds
    pub timestamp: u64,
    /// Whether this is a keyframe
    pub is_keyframe: bool,
}

impl VideoFrame {
    /// A copy of this frame with the same fields.
    pub fn duplicate(&self) -> (r: VideoFrame)
        ensures
            r.width == self.width,
            r.height == self.height,
            r.data@ == self.data@,
            r.timestamp == self.timestamp,
            r.is_keyframe == self.is_keyframe,
    {
        VideoFrame {
            width: self.width,
            height: self.height,
            data: copy_bytes(&self.data),
            timestamp: self.timestamp,
            is_keyframe: self.is_keyframe,
        }
    }
}

/// A copy of a byte vector.
pub fn copy_bytes(v: &Vec<u8>) -> (r: Vec<u8>)
    ensures
        r@ == v@,
{
    let mut r: Vec<u8> = Vec::with_capacity(v.len());
    let mut i: usize = 0;
    while i < v.len()
        invariant
            i <= v.len(),
            r@ == v@.subrange(0, i as int),
        decreases v.len() - i,
    {
        r.push(v[i]);
        i = i + 1;
        assert(r@ =~= v@.subrange(0, i as int));
    }
    assert(v@.subrange(0, v.len() as int) =~= v@);
    r
}

/// Video track representation
#[derive(Debug)]
pub struct VideoTrack {
    /// Track ID
    pub id: String,
}

impl VideoTrack {
    /// Create new video track
    pub fn new(id: String) -> (r: Self)
        ensures
            r.id == id,
    {
        Self { id }
    }

    /// Get track ID
    pub fn id(&self) -> (r: &str)
        ensures
            r@ == self.id@,
    {
        self.id.as_str()
    }
}

/// Audio track representation
#[derive(Debug)]
pub struct AudioTrack {
    /// Track ID
    pub id: String,
}

impl AudioTrack {
    /// Create new audio track
    pub fn new(id: String) -> (r: Self)
        ensures
            r.id == id,
    {
        Self { id }
    }

    /// Get track ID
    pub fn id(&self) -> (r: &str)
        ensures
            r@ == self.id@,
    {
        self.id.as_str()
    }
}

} // verus!
