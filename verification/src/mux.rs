//! The muxing interface: track handles, codec identifiers, colour metadata,
//! the error type, and the segment/writer machinery in the submodules.

pub mod ebml;
pub mod engine;
pub mod segment;
pub mod writer;

pub use segment::Segment;
pub use segment::SegmentBuilder;
pub use segment::try_as_i32;
pub use writer::Writer;
pub use engine::ResultCode;

use vstd::prelude::*;

verus! {

/// An opaque number used to identify an added track.
pub type TrackNum = u64;

/// This is a copyable handle equivalent to a track number.
#[derive(Debug, Clone, Copy, PartialEq, Eq, Structural, Hash)]
pub struct VideoTrack(pub(crate) TrackNum);

/// This is a copyable handle equivalent to a track number.
#[derive(Debug, Clone, Copy, PartialEq, Eq, Structural, Hash)]
pub struct AudioTrack(pub(crate) TrackNum);

/// A handle to a declared track. A handle's numeric identity is assigned when
/// the track is declared and never changes afterwards.
pub trait Track: Sized {
    /// The track number this handle stands for.
    spec fn spec_track_num(&self) -> TrackNum;

    /// Whether this handle identifies an audio track.
    spec fn spec_is_audio(&self) -> bool;

    /// Whether this handle identifies a video track.
    spec fn spec_is_video(&self) -> bool;

    #[must_use]
    fn is_audio(&self) -> (r: bool)
        ensures
            r == self.spec_is_audio(),
    ;

    #[must_use]
    fn is_video(&self) -> (r: bool)
        ensures
            r == self.spec_is_video(),
    ;

    #[must_use]
    fn track_number(&self) -> (r: TrackNum)
        ensures
            r == self.spec_track_num(),
    ;
}

impl Track for VideoTrack {
    closed spec fn spec_track_num(&self) -> TrackNum {
        self.0
    }

    open spec fn spec_is_audio(&self) -> bool {
        false
    }

    open spec fn spec_is_video(&self) -> bool {
        true
    }

    fn is_audio(&self) -> bool {
        false
    }

    fn is_video(&self) -> bool {
        true
    }

    #[inline]
    fn track_number(&self) -> TrackNum {
        self.0
    }
}

impl Track for AudioTrack {
    closed spec fn spec_track_num(&self) -> TrackNum {
        self.0
    }

    open spec fn spec_is_audio(&self) -> bool {
        true
    }

    open spec fn spec_is_video(&self) -> bool {
        false
    }

    fn is_audio(&self) -> bool {
        true
    }

    fn is_video(&self) -> bool {
        false
    }

    #[inline]
    fn track_number(&self) -> TrackNum {
        self.0
    }
}

impl vstd::std_specs::convert::FromSpecImpl<VideoTrack> for TrackNum {
    open spec fn obeys_from_spec() -> bool {
        true
    }

    open spec fn from_spec(track: VideoTrack) -> TrackNum {
        track.spec_track_num()
    }
}

impl vstd::std_specs::convert::FromSpecImpl<AudioTrack> for TrackNum {
    open spec fn obeys_from_spec() -> bool {
        true
    }

    open spec fn from_spec(track: AudioTrack) -> TrackNum {
        track.spec_track_num()
    }
}

impl From<VideoTrack> for TrackNum {
    #[inline]
    fn from(track: VideoTrack) -> (r: Self)
        ensures
            r == track.spec_track_num(),
    {
        track.0
    }
}

impl From<AudioTrack> for TrackNum {
    #[inline]
    fn from(track: AudioTrack) -> (r: Self)
        ensures
            r == track.spec_track_num(),
    {
        track.0
    }
}

#[derive(Eq, PartialEq, Structural, Clone, Copy, Debug)]
pub enum AudioCodecId {
    Opus,
    Vorbis,
}

#[derive(Eq, PartialEq, Structural, Clone, Copy, Debug)]
pub enum VideoCodecId {
    VP8,
    VP9,
    AV1,
}

/// The error type for this entire crate. More specific error types will
/// be added in the future, hence the current marking as non-exhaustive.
#[derive(Debug, Clone, Copy)]
#[non_exhaustive]
pub enum Error {
    /// A parameter with an invalid value was passed to a method.
    BadParam,

    /// An unknown error occurred. While this is typically the result of
    /// incorrect parameters to methods, an internal engine failure (such as
    /// a capacity limit being hit) is also possible.
    Unknown,
}

impl Error {
    /// A short human-readable description of the error.
    pub fn message(&self) -> (r: &'static str)
        ensures
            r@ == (match self {
                Error::BadParam => "Bad parameter"@,
                Error::Unknown => "Unknown error"@,
            }),
    {
        match self {
            Error::BadParam => "Bad parameter",
            Error::Unknown => "Unknown error",
        }
    }
}

/// A specification for how pixels in written video frames are subsampled in chroma channels.
///
/// Certain video frame formats (e.g. YUV 4:2:0) have a lower resolution in chroma (Cr/Cb) channels
/// than the luminance channel. This structure informs video players how that subsampling is done,
/// using a number of subsampling factors. A factor of zero means no subsampling, and a factor of
/// one means that particular dimension is half resolution.
///
/// You may use [`ColorSubsampling::default()`] to get a specification of no subsampling in any
/// dimension.
#[derive(Default, Debug, Clone, Copy, PartialEq, Eq, Structural)]
pub struct ColorSubsampling {
    /// The subsampling factor for both chroma channels in the horizontal direction.
    pub chroma_horizontal: u8,

    /// The subsampling factor for both chroma channels in the vertical direction.
    pub chroma_vertical: u8,
}

/// A specification of how the range of colors in the input video frames has been clipped.
///
/// Certain screens struggle with the full range of available colors, and video content is thus
/// sometimes tuned to a restricted range.
#[derive(Debug, Clone, Copy, PartialEq, Eq, Structural, Default)]
pub enum ColorRange {
    /// No claim is made as to how colors have been restricted.
    #[default]
    Unspecified,

    /// Color values are restricted to a "broadcast-safe" range.
    Broadcast,

    /// No color clipping is performed.
    Full,
}

} // verus!
