//! The container engine: the registry of declared tracks and the WebM byte
//! layout (header, track entries, clusters) as specification functions with
//! verified emitters.

use vstd::prelude::*;
use vstd::arithmetic::power2::pow2;

use super::AudioCodecId;
use super::ColorRange;
use super::VideoCodecId;
use super::ebml::VINT_LIMIT;
use super::ebml::be_bytes;
use super::ebml::elem_bytes;
use super::ebml::f64_bits;
use super::ebml::f64_bits_u64;
use super::ebml::push_be_bytes;
use super::ebml::push_bytes;
use super::ebml::push_element;
use super::ebml::push_uint_element;
use super::ebml::push_vint;
use super::ebml::uint_elem;
use super::ebml::vint_bytes;
use super::ebml::vint_width;

verus! {

/// The result of one engine operation.
#[derive(Debug, Clone, Copy, PartialEq, Eq, Structural)]
pub enum ResultCode {
    /// The operation completed without error.
    Success,

    /// An invalid parameter was passed (e.g. an invalid track number).
    BadParam,

    /// The engine failed, and no more specific error info is known.
    UnknownEngineError,
}

/// Colour metadata attached to a video track.
#[derive(Debug, Clone, Copy, PartialEq, Eq, Structural)]
pub struct TrackColor {
    /// Bits per colour channel (zero means unspecified).
    pub bit_depth: u8,
    /// Chroma subsampling factor in the horizontal direction.
    pub chroma_horizontal: u8,
    /// Chroma subsampling factor in the vertical direction.
    pub chroma_vertical: u8,
    /// How the colour range has been clipped.
    pub range: ColorRange,
}

/// The kind-specific parameters of a declared track.
#[derive(Debug, Clone, Copy, PartialEq, Eq, Structural)]
#[allow(inconsistent_fields)]
pub enum TrackDetail {
    /// A video track: frame dimensions in pixels, its codec, and optional
    /// colour metadata.
    Video { width: u32, height: u32, codec: VideoCodecId, color: Option<TrackColor> },
    /// An audio track: sampling rate in Hz, channel count, and its codec.
    Audio { sample_rate: u32, channels: u32, codec: AudioCodecId },
}

/// The abstract record of one declared track.
pub ghost struct TrackRec {
    /// The track's unique, positive number.
    pub num: u64,
    /// The track's kind-specific parameters.
    pub detail: TrackDetail,
    /// The codec initialization blob attached to the track, if any.
    pub private: Option<Seq<u8>>,
}

/// One declared track as the engine stores it.
#[derive(Debug)]
pub(crate) struct TrackEntry {
    pub(crate) num: u64,
    pub(crate) detail: TrackDetail,
    pub(crate) private: Option<Vec<u8>>,
}

impl View for TrackEntry {
    type V = TrackRec;

    closed spec fn view(&self) -> TrackRec {
        TrackRec {
            num: self.num,
            detail: self.detail,
            private: match self.private {
                Some(p) => Some(p@),
                None => None,
            },
        }
    }
}

/// A stored entry's view mirrors its fields.
pub(crate) proof fn lemma_track_views_index(ts: Seq<TrackEntry>, i: int)
    requires
        0 <= i < ts.len(),
    ensures
        track_views(ts)[i].num == ts[i].num,
        track_views(ts)[i].detail == ts[i].detail,
        track_views(ts)[i].private == (match ts[i].private {
            Some(p) => Some(p@),
            None => None::<Seq<u8>>,
        }),
{
}

/// The abstract records of a whole registry.
pub(crate) open spec fn track_views(ts: Seq<TrackEntry>) -> Seq<TrackRec> {
    Seq::new(ts.len(), |i: int| ts[i]@)
}

/// Whether `n` is the number of some track in `ts`.
pub open spec fn track_num_used(ts: Seq<TrackRec>, n: u64) -> bool {
    exists|i: int| 0 <= i < ts.len() && ts[i].num == n
}

/// The largest track number in `ts` (zero when empty).
pub open spec fn max_track_num(ts: Seq<TrackRec>) -> u64
    decreases ts.len(),
{
    if ts.len() == 0 {
        0
    } else if max_track_num(ts.drop_last()) >= ts.last().num {
        max_track_num(ts.drop_last())
    } else {
        ts.last().num
    }
}

/// The number the engine assigns when the caller does not request one:
/// one past the largest number in use.
pub open spec fn auto_track_num(ts: Seq<TrackRec>) -> int {
    max_track_num(ts) + 1
}

/// The engine refuses to hold more tracks than this.
pub const TRACK_LIMIT: usize = 0x7FFF;

/// The engine refuses codec-private blobs and writing-application names
/// longer than this (the engine's 32-bit signed size limit).
pub const MAX_BLOB_LEN: usize = 0x7FFF_FFFF;

/// The registry's internal consistency: every track number is positive and
/// bounded, numbers are unique, blobs are bounded, and the registry itself is
/// bounded.
pub open spec fn tracks_wf(ts: Seq<TrackRec>) -> bool {
    &&& ts.len() <= TRACK_LIMIT
    &&& forall|i: int|
        0 <= i < ts.len() ==> 1 <= (#[trigger] ts[i]).num <= 0x7FFF_FFFF + ts.len()
    &&& forall|i: int, j: int| 0 <= i < j < ts.len() ==> ts[i].num != ts[j].num
    &&& forall|i: int|
        0 <= i < ts.len() ==> match (#[trigger] ts[i]).private {
            Some(p) => p.len() <= MAX_BLOB_LEN,
            None => true,
        }
}

/// The largest of the track numbers is a bound on each of them, and is
/// itself one of them (or zero).
pub(crate) proof fn lemma_max_track_num(ts: Seq<TrackRec>)
    ensures
        forall|i: int| 0 <= i < ts.len() ==> (#[trigger] ts[i]).num <= max_track_num(ts),
        max_track_num(ts) == 0 || exists|i: int|
            0 <= i < ts.len() && (#[trigger] ts[i]).num == max_track_num(ts),
    decreases ts.len(),
{
    if ts.len() > 0 {
        let dl = ts.drop_last();
        lemma_max_track_num(dl);
        assert forall|i: int| 0 <= i < ts.len() implies (#[trigger] ts[i]).num
            <= max_track_num(ts) by {
            if i < ts.len() - 1 {
                assert(dl[i] == ts[i]);
                assert(dl[i].num <= max_track_num(dl));
            } else {
                assert(ts[i] == ts.last());
            }
        }
        if max_track_num(ts) != 0 {
            if max_track_num(dl) >= ts.last().num {
                let i = choose|i: int|
                    0 <= i < dl.len() && (#[trigger] dl[i]).num == max_track_num(dl);
                assert(ts[i].num == max_track_num(ts));
            } else {
                assert(ts[ts.len() - 1].num == max_track_num(ts));
            }
        }
    }
}

/// The auto-assigned number is fresh: it exceeds every number in use.
pub proof fn lemma_auto_num_fresh(ts: Seq<TrackRec>)
    ensures
        !track_num_used(ts, auto_track_num(ts) as u64) || auto_track_num(ts) > u64::MAX,
        forall|i: int|
            0 <= i < ts.len() ==> (#[trigger] ts[i]).num < auto_track_num(ts),
{
    lemma_max_track_num(ts);
}

/// Finds the index of the track numbered `n`.
pub(crate) fn find_track(tracks: &Vec<TrackEntry>, n: u64) -> (r: Option<usize>)
    ensures
        match r {
            Some(i) => i < tracks@.len() && track_views(tracks@)[i as int].num == n,
            None => !track_num_used(track_views(tracks@), n),
        },
{
    let len: usize = tracks.len();
    let mut i: usize = 0;
    while i < len
        invariant
            i <= len == tracks@.len(),
            forall|j: int| 0 <= j < i ==> track_views(tracks@)[j].num != n,
        decreases len - i,
    {
        if tracks[i].num == n {
            return Some(i);
        }
        i = i + 1;
    }
    None
}

/// The largest track number in use, computed.
fn max_num(tracks: &Vec<TrackEntry>) -> (m: u64)
    ensures
        m == max_track_num(track_views(tracks@)),
{
    let len: usize = tracks.len();
    let mut m: u64 = 0;
    let mut i: usize = 0;
    while i < len
        invariant
            i <= len == tracks@.len(),
            m == max_track_num(track_views(tracks@).subrange(0, i as int)),
        decreases len - i,
    {
        proof {
            let vs = track_views(tracks@);
            assert(vs.subrange(0, i + 1).drop_last() =~= vs.subrange(0, i as int));
            assert(vs.subrange(0, i + 1).last() == vs[i as int]);
        }
        if tracks[i].num > m {
            m = tracks[i].num;
        }
        i = i + 1;
    }
    proof {
        assert(track_views(tracks@).subrange(0, len as int) =~= track_views(tracks@));
    }
    m
}

/// Declares a track: checks the requested number for collisions (zero means
/// auto-assign), enforces the registry capacity, and appends the new entry.
/// Returns the assigned number alongside the result code.
pub(crate) fn registry_add(
    tracks: &mut Vec<TrackEntry>,
    requested: u64,
    detail: TrackDetail,
) -> (r: (ResultCode, u64))
    requires
        tracks_wf(track_views(old(tracks)@)),
        requested <= 0x7FFF_FFFF,
    ensures
        tracks_wf(track_views(final(tracks)@)),
        ({
            let ts = track_views(old(tracks)@);
            if requested != 0 && track_num_used(ts, requested) {
                r.0 == ResultCode::UnknownEngineError && final(tracks)@ == old(tracks)@
            } else if ts.len() == TRACK_LIMIT {
                r.0 == ResultCode::UnknownEngineError && final(tracks)@ == old(tracks)@
            } else {
                let n = if requested != 0 {
                    requested as int
                } else {
                    auto_track_num(ts)
                };
                r.0 == ResultCode::Success && r.1 == n && r.1 != 0 && !track_num_used(ts, r.1)
                    && track_views(final(tracks)@) == ts.push(
                    (TrackRec { num: r.1, detail, private: None }),
                )
            }
        }),
{
    let ghost ts = track_views(old(tracks)@);
    if requested != 0 {
        if find_track(tracks, requested).is_some() {
            return (ResultCode::UnknownEngineError, 0);
        }
    }
    if tracks.len() == TRACK_LIMIT {
        return (ResultCode::UnknownEngineError, 0);
    }
    let num: u64 = if requested != 0 {
        requested
    } else {
        proof {
            lemma_max_track_num(ts);
        }
        max_num(tracks) + 1
    };
    proof {
        lemma_max_track_num(ts);
    }
    tracks.push(TrackEntry { num, detail, private: None });
    proof {
        let new = TrackRec { num, detail, private: None };
        assert(track_views(tracks@) =~= ts.push(new));
        let vs2 = ts.push(new);
        assert(forall|i: int| 0 <= i < ts.len() ==> vs2[i] == ts[i]);
        assert(vs2[ts.len() as int] == new);
        assert(!track_num_used(ts, num));
        assert(tracks_wf(vs2)) by {
            assert(forall|i: int|
                0 <= i < vs2.len() ==> 1 <= (#[trigger] vs2[i]).num <= 0x7FFF_FFFF
                    + vs2.len());
            assert forall|i: int, j: int| 0 <= i < j < vs2.len() implies vs2[i].num
                != vs2[j].num by {
                if j == ts.len() {
                    assert(vs2[i] == ts[i]);
                }
            }
        }
    }
    (ResultCode::Success, num)
}

// ---------------------------------------------------------------------------
// Element ids of the WebM (Matroska-subset) layout, with their raw widths.
// ---------------------------------------------------------------------------

pub const ID_EBML: u64 = 0x1A45_DFA3;
pub const ID_EBML_VERSION: u64 = 0x4286;
pub const ID_EBML_READ_VERSION: u64 = 0x42F7;
pub const ID_EBML_MAX_ID_LENGTH: u64 = 0x42F2;
pub const ID_EBML_MAX_SIZE_LENGTH: u64 = 0x42F3;
pub const ID_DOCTYPE: u64 = 0x4282;
pub const ID_DOCTYPE_VERSION: u64 = 0x4287;
pub const ID_DOCTYPE_READ_VERSION: u64 = 0x4285;
pub const ID_SEGMENT: u64 = 0x1853_8067;
pub const ID_INFO: u64 = 0x1549_A966;
pub const ID_TIMECODE_SCALE: u64 = 0x2A_D7B1;
pub const ID_MUXING_APP: u64 = 0x4D80;
pub const ID_WRITING_APP: u64 = 0x5741;
pub const ID_DURATION: u64 = 0x4489;
pub const ID_TRACKS: u64 = 0x1654_AE6B;
pub const ID_TRACK_ENTRY: u64 = 0xAE;
pub const ID_TRACK_NUMBER: u64 = 0xD7;
pub const ID_TRACK_UID: u64 = 0x73C5;
pub const ID_TRACK_TYPE: u64 = 0x83;
pub const ID_CODEC_ID: u64 = 0x86;
pub const ID_CODEC_PRIVATE: u64 = 0x63A2;
pub const ID_VIDEO: u64 = 0xE0;
pub const ID_PIXEL_WIDTH: u64 = 0xB0;
pub const ID_PIXEL_HEIGHT: u64 = 0xBA;
pub const ID_COLOUR: u64 = 0x55B0;
pub const ID_BITS_PER_CHANNEL: u64 = 0x55B2;
pub const ID_CHROMA_SUBSAMP_HORZ: u64 = 0x55B3;
pub const ID_CHROMA_SUBSAMP_VERT: u64 = 0x55B4;
pub const ID_RANGE: u64 = 0x55B9;
pub const ID_AUDIO: u64 = 0xE1;
pub const ID_SAMPLING_FREQUENCY: u64 = 0xB5;
pub const ID_CHANNELS: u64 = 0x9F;
pub const ID_CLUSTER: u64 = 0x1F43_B675;
pub const ID_TIMECODE: u64 = 0xE7;
pub const ID_SIMPLE_BLOCK: u64 = 0xA3;

/// Nanoseconds per timecode tick: the segment's timecode scale.
pub const TIMECODE_SCALE_NS: u64 = 1_000_000;

// ---------------------------------------------------------------------------
// The segment header: EBML header, segment start, info, and track entries.
// ---------------------------------------------------------------------------

/// The Matroska codec identifier string of a video codec.
pub open spec fn video_codec_name(c: VideoCodecId) -> Seq<u8> {
    match c {
        VideoCodecId::VP8 => seq![0x56u8, 0x5Fu8, 0x56u8, 0x50u8, 0x38u8],  // "V_VP8"
        VideoCodecId::VP9 => seq![0x56u8, 0x5Fu8, 0x56u8, 0x50u8, 0x39u8],  // "V_VP9"
        VideoCodecId::AV1 => seq![0x56u8, 0x5Fu8, 0x41u8, 0x56u8, 0x31u8],  // "V_AV1"
    }
}

/// The Matroska codec identifier string of an audio codec.
pub open spec fn audio_codec_name(c: AudioCodecId) -> Seq<u8> {
    match c {
        AudioCodecId::Opus => seq![
            0x41u8,
            0x5Fu8,
            0x4Fu8,
            0x50u8,
            0x55u8,
            0x53u8,
        ],  // "A_OPUS"
        AudioCodecId::Vorbis => seq![
            0x41u8,
            0x5Fu8,
            0x56u8,
            0x4Fu8,
            0x52u8,
            0x42u8,
            0x49u8,
            0x53u8,
        ],  // "A_VORBIS"
    }
}

/// The codec identifier string of a track.
pub open spec fn codec_name_of(d: TrackDetail) -> Seq<u8> {
    match d {
        TrackDetail::Video { codec, .. } => video_codec_name(codec),
        TrackDetail::Audio { codec, .. } => audio_codec_name(codec),
    }
}

/// The Matroska track type of a track: 1 for video, 2 for audio.
pub open spec fn track_type_of(d: TrackDetail) -> u64 {
    match d {
        TrackDetail::Video { .. } => 1,
        TrackDetail::Audio { .. } => 2,
    }
}

/// The numeric value of a colour range.
pub open spec fn color_range_val(r: ColorRange) -> u64 {
    match r {
        ColorRange::Unspecified => 0,
        ColorRange::Broadcast => 1,
        ColorRange::Full => 2,
    }
}

/// The Colour element of a video track.
pub open spec fn color_elem_bytes(c: TrackColor) -> Seq<u8> {
    elem_bytes(
        ID_COLOUR,
        2,
        uint_elem(ID_BITS_PER_CHANNEL, 2, c.bit_depth as u64) + uint_elem(
            ID_CHROMA_SUBSAMP_HORZ,
            2,
            c.chroma_horizontal as u64,
        ) + uint_elem(ID_CHROMA_SUBSAMP_VERT, 2, c.chroma_vertical as u64) + uint_elem(
            ID_RANGE,
            2,
            color_range_val(c.range),
        ),
    )
}

/// The kind-specific settings element of a track: Video (dimensions and
/// optional colour) or Audio (sampling frequency as an 8-byte float, then
/// channels).
pub open spec fn settings_bytes(d: TrackDetail) -> Seq<u8> {
    match d {
        TrackDetail::Video { width, height, codec: _, color } => elem_bytes(
            ID_VIDEO,
            1,
            uint_elem(ID_PIXEL_WIDTH, 1, width as u64) + uint_elem(
                ID_PIXEL_HEIGHT,
                1,
                height as u64,
            ) + match color {
                Some(c) => color_elem_bytes(c),
                None => Seq::empty(),
            },
        ),
        TrackDetail::Audio { sample_rate, channels, codec: _ } => elem_bytes(
            ID_AUDIO,
            1,
            elem_bytes(ID_SAMPLING_FREQUENCY, 1, be_bytes(f64_bits(sample_rate as u64), 8))
                + uint_elem(ID_CHANNELS, 1, channels as u64),
        ),
    }
}

/// The payload of one TrackEntry element. The track UID is deterministic:
/// it equals the track number.
pub open spec fn track_entry_payload(t: TrackRec) -> Seq<u8> {
    uint_elem(ID_TRACK_NUMBER, 1, t.num) + uint_elem(ID_TRACK_UID, 2, t.num) + uint_elem(
        ID_TRACK_TYPE,
        1,
        track_type_of(t.detail),
    ) + elem_bytes(ID_CODEC_ID, 1, codec_name_of(t.detail)) + (match t.private {
        Some(p) => elem_bytes(ID_CODEC_PRIVATE, 2, p),
        None => Seq::empty(),
    }) + settings_bytes(t.detail)
}

/// One TrackEntry element.
pub open spec fn track_entry_bytes(t: TrackRec) -> Seq<u8> {
    elem_bytes(ID_TRACK_ENTRY, 1, track_entry_payload(t))
}

/// The concatenated TrackEntry elements of the registry, in declaration
/// order.
pub open spec fn tracks_payload(ts: Seq<TrackRec>) -> Seq<u8>
    decreases ts.len(),
{
    if ts.len() == 0 {
        Seq::empty()
    } else {
        tracks_payload(ts.drop_last()) + track_entry_bytes(ts.last())
    }
}

/// The Tracks element.
pub open spec fn tracks_elem_bytes(ts: Seq<TrackRec>) -> Seq<u8> {
    elem_bytes(ID_TRACKS, 4, tracks_payload(ts))
}

/// A bound on the length of one TrackEntry element.
pub open spec fn track_entry_len_bound() -> nat {
    0x8000_0400
}

/// A track entry with a bounded codec-private blob has bounded bytes.
pub proof fn lemma_track_entry_len(t: TrackRec)
    requires
        match t.private {
            Some(p) => p.len() <= MAX_BLOB_LEN,
            None => true,
        },
    ensures
        track_entry_payload(t).len() <= track_entry_len_bound() - 16,
        track_entry_bytes(t).len() <= track_entry_len_bound(),
{
    assert(settings_bytes(t.detail).len() <= 64);
    assert(track_entry_payload(t).len() <= track_entry_len_bound() - 16);
}

/// The concatenated track entries are bounded by the registry's capacity.
pub proof fn lemma_tracks_payload_len(ts: Seq<TrackRec>)
    requires
        ts.len() <= TRACK_LIMIT,
        forall|i: int|
            0 <= i < ts.len() ==> match (#[trigger] ts[i]).private {
                Some(p) => p.len() <= MAX_BLOB_LEN,
                None => true,
            },
    ensures
        tracks_payload(ts).len() <= ts.len() * track_entry_len_bound(),
        tracks_payload(ts).len() < VINT_LIMIT,
    decreases ts.len(),
{
    if ts.len() > 0 {
        let dl = ts.drop_last();
        assert(forall|i: int| 0 <= i < dl.len() ==> dl[i] == ts[i]);
        lemma_tracks_payload_len(dl);
        lemma_track_entry_len(ts.last());
    }
    assert(ts.len() * track_entry_len_bound() <= TRACK_LIMIT * track_entry_len_bound()) by {
        vstd::arithmetic::mul::lemma_mul_inequality(
            ts.len() as int,
            TRACK_LIMIT as int,
            track_entry_len_bound() as int,
        );
    }
}

/// The fixed EBML header of a WebM file (doc type "webm").
pub open spec fn ebml_header_bytes() -> Seq<u8> {
    elem_bytes(
        ID_EBML,
        4,
        uint_elem(ID_EBML_VERSION, 2, 1) + uint_elem(ID_EBML_READ_VERSION, 2, 1) + uint_elem(
            ID_EBML_MAX_ID_LENGTH,
            2,
            4,
        ) + uint_elem(ID_EBML_MAX_SIZE_LENGTH, 2, 8) + elem_bytes(
            ID_DOCTYPE,
            2,
            seq![0x77u8, 0x65u8, 0x62u8, 0x6Du8],
        ) + uint_elem(ID_DOCTYPE_VERSION, 2, 2) + uint_elem(ID_DOCTYPE_READ_VERSION, 2, 2),
    )
}

/// The Segment element id followed by the reserved unknown-size marker: the
/// segment's extent is not known while it is being streamed.
pub open spec fn segment_start_bytes() -> Seq<u8> {
    be_bytes(ID_SEGMENT, 4) + seq![
        0x01u8,
        0xFFu8,
        0xFFu8,
        0xFFu8,
        0xFFu8,
        0xFFu8,
        0xFFu8,
        0xFFu8,
    ]
}

/// The name written as the MuxingApp of every segment.
pub open spec fn muxing_app_name() -> Seq<u8> {
    seq![0x77u8, 0x65u8, 0x62u8, 0x6Du8]  // "webm"
}

/// The Info payload up to (not including) the Duration element: timecode
/// scale, muxing application, writing application.
pub open spec fn info_payload_pre(app: Seq<u8>) -> Seq<u8> {
    uint_elem(ID_TIMECODE_SCALE, 3, TIMECODE_SCALE_NS) + elem_bytes(
        ID_MUXING_APP,
        2,
        muxing_app_name(),
    ) + elem_bytes(ID_WRITING_APP, 2, app)
}

/// The Duration element, an 8-byte float with the given bit pattern.
pub open spec fn duration_elem(dbits: u64) -> Seq<u8> {
    elem_bytes(ID_DURATION, 2, be_bytes(dbits, 8))
}

/// The Info element. With positioning support a Duration element is always
/// present (so it can be patched during finalization); without, it is absent.
pub open spec fn info_elem_bytes(app: Seq<u8>, seekable: bool, dbits: u64) -> Seq<u8> {
    if seekable {
        elem_bytes(ID_INFO, 4, info_payload_pre(app) + duration_elem(dbits))
    } else {
        elem_bytes(ID_INFO, 4, info_payload_pre(app))
    }
}

/// The abstract configuration of a segment, frozen when it is built.
pub ghost struct CfgRec {
    /// The declared tracks, in declaration order.
    pub tracks: Seq<TrackRec>,
    /// The writing-application name (UTF-8 bytes).
    pub writing_app: Seq<u8>,
    /// Whether the segment's writer supports repositioning.
    pub seekable: bool,
}

/// The configuration's internal consistency.
pub open spec fn cfg_wf(cfg: CfgRec) -> bool {
    tracks_wf(cfg.tracks) && cfg.writing_app.len() <= MAX_BLOB_LEN
}

/// Everything written when a segment is built, before any frame: the EBML
/// header, the segment start, the Info element (with duration bits `dbits`
/// when seekable), and the Tracks element.
pub open spec fn header_bytes(cfg: CfgRec, dbits: u64) -> Seq<u8> {
    ebml_header_bytes() + segment_start_bytes() + info_elem_bytes(
        cfg.writing_app,
        cfg.seekable,
        dbits,
    ) + tracks_elem_bytes(cfg.tracks)
}

/// Where the Duration element's 8 payload bytes sit inside `header_bytes`
/// (meaningful only when the configuration is seekable).
pub open spec fn duration_offset(cfg: CfgRec) -> int {
    (ebml_header_bytes().len() + segment_start_bytes().len() + 4 + vint_width(
        (info_payload_pre(cfg.writing_app).len() + duration_elem(0).len()) as u64,
    ) + info_payload_pre(cfg.writing_app).len() + 3) as int
}

/// The header with duration bits `b2` is the header with bits `b1`, with the
/// eight bytes at the duration offset replaced; and the same holds with any
/// bytes appended after the header.
pub proof fn lemma_header_patch(cfg: CfgRec, b1: u64, b2: u64, rest: Seq<u8>)
    requires
        cfg.seekable,
    ensures
        ({
            let s1 = header_bytes(cfg, b1) + rest;
            let off = duration_offset(cfg);
            0 <= off && off + 8 <= header_bytes(cfg, b1).len() && s1.take(off) + be_bytes(b2, 8)
                + s1.skip(off + 8) == header_bytes(cfg, b2) + rest
        }),
{
    let s1 = header_bytes(cfg, b1) + rest;
    let off = duration_offset(cfg);
    assert(duration_elem(b1).len() == 11);
    assert(info_elem_bytes(cfg.writing_app, cfg.seekable, b1).len() == info_elem_bytes(
        cfg.writing_app,
        cfg.seekable,
        b2,
    ).len());
    assert(s1.take(off) + be_bytes(b2, 8) + s1.skip(off + 8) =~= header_bytes(cfg, b2) + rest);
}

// ---------------------------------------------------------------------------
// Header emitters.
// ---------------------------------------------------------------------------

/// Appends the codec identifier string of a track.
fn push_codec_name(out: &mut Vec<u8>, d: &TrackDetail)
    ensures
        final(out)@ == old(out)@ + codec_name_of(*d),
{
    match d {
        TrackDetail::Video { codec: VideoCodecId::VP8, .. } => {
            out.push(0x56);
            out.push(0x5F);
            out.push(0x56);
            out.push(0x50);
            out.push(0x38);
        },
        TrackDetail::Video { codec: VideoCodecId::VP9, .. } => {
            out.push(0x56);
            out.push(0x5F);
            out.push(0x56);
            out.push(0x50);
            out.push(0x39);
        },
        TrackDetail::Video { codec: VideoCodecId::AV1, .. } => {
            out.push(0x56);
            out.push(0x5F);
            out.push(0x41);
            out.push(0x56);
            out.push(0x31);
        },
        TrackDetail::Audio { codec: AudioCodecId::Opus, .. } => {
            out.push(0x41);
            out.push(0x5F);
            out.push(0x4F);
            out.push(0x50);
            out.push(0x55);
            out.push(0x53);
        },
        TrackDetail::Audio { codec: AudioCodecId::Vorbis, .. } => {
            out.push(0x41);
            out.push(0x5F);
            out.push(0x56);
            out.push(0x4F);
            out.push(0x52);
            out.push(0x42);
            out.push(0x49);
            out.push(0x53);
        },
    }
    proof {
        assert(out@ =~= old(out)@ + codec_name_of(*d));
    }
}

/// Appends the Colour element of a video track.
fn push_color_elem(out: &mut Vec<u8>, c: &TrackColor)
    ensures
        final(out)@ == old(out)@ + color_elem_bytes(*c),
{
    let mut payload: Vec<u8> = Vec::new();
    push_uint_element(&mut payload, ID_BITS_PER_CHANNEL, 2, c.bit_depth as u64);
    push_uint_element(&mut payload, ID_CHROMA_SUBSAMP_HORZ, 2, c.chroma_horizontal as u64);
    push_uint_element(&mut payload, ID_CHROMA_SUBSAMP_VERT, 2, c.chroma_vertical as u64);
    let range: u64 = match c.range {
        ColorRange::Unspecified => 0,
        ColorRange::Broadcast => 1,
        ColorRange::Full => 2,
    };
    push_uint_element(&mut payload, ID_RANGE, 2, range);
    push_element(out, ID_COLOUR, 2, payload.as_slice());
}

/// Appends the kind-specific settings element of a track.
fn push_settings(out: &mut Vec<u8>, d: &TrackDetail)
    ensures
        final(out)@ == old(out)@ + settings_bytes(*d),
{
    match d {
        TrackDetail::Video { width, height, codec: _, color } => {
            let mut payload: Vec<u8> = Vec::new();
            push_uint_element(&mut payload, ID_PIXEL_WIDTH, 1, *width as u64);
            push_uint_element(&mut payload, ID_PIXEL_HEIGHT, 1, *height as u64);
            match color {
                Some(c) => push_color_elem(&mut payload, c),
                None => (),
            }
            push_element(out, ID_VIDEO, 1, payload.as_slice());
        },
        TrackDetail::Audio { sample_rate, channels, codec: _ } => {
            let mut freq: Vec<u8> = Vec::new();
            let bits: u64 = f64_bits_u64(*sample_rate as u64);
            push_be_bytes(&mut freq, bits, 8);
            let mut payload: Vec<u8> = Vec::new();
            push_element(&mut payload, ID_SAMPLING_FREQUENCY, 1, freq.as_slice());
            push_uint_element(&mut payload, ID_CHANNELS, 1, *channels as u64);
            push_element(out, ID_AUDIO, 1, payload.as_slice());
        },
    }
}

/// Appends one TrackEntry element.
fn push_track_entry(out: &mut Vec<u8>, t: &TrackEntry)
    requires
        match t@.private {
            Some(p) => p.len() <= MAX_BLOB_LEN,
            None => true,
        },
    ensures
        final(out)@ == old(out)@ + track_entry_bytes(t@),
{
    let mut payload: Vec<u8> = Vec::new();
    push_uint_element(&mut payload, ID_TRACK_NUMBER, 1, t.num);
    push_uint_element(&mut payload, ID_TRACK_UID, 2, t.num);
    let tt: u64 = match t.detail {
        TrackDetail::Video { .. } => 1,
        TrackDetail::Audio { .. } => 2,
    };
    push_uint_element(&mut payload, ID_TRACK_TYPE, 1, tt);
    let mut name: Vec<u8> = Vec::new();
    push_codec_name(&mut name, &t.detail);
    push_element(&mut payload, ID_CODEC_ID, 1, name.as_slice());
    match &t.private {
        Some(p) => push_element(&mut payload, ID_CODEC_PRIVATE, 2, p.as_slice()),
        None => (),
    }
    push_settings(&mut payload, &t.detail);
    proof {
        lemma_track_entry_len(t@);
        assert(payload@ =~= track_entry_payload(t@));
    }
    push_element(out, ID_TRACK_ENTRY, 1, payload.as_slice());
}

/// Appends the Tracks element holding every declared track.
fn push_tracks_elem(out: &mut Vec<u8>, tracks: &Vec<TrackEntry>)
    requires
        tracks_wf(track_views(tracks@)),
    ensures
        final(out)@ == old(out)@ + tracks_elem_bytes(track_views(tracks@)),
{
    let ghost vs = track_views(tracks@);
    let mut payload: Vec<u8> = Vec::new();
    let len: usize = tracks.len();
    let mut i: usize = 0;
    while i < len
        invariant
            i <= len == tracks@.len(),
            vs == track_views(tracks@),
            tracks_wf(vs),
            payload@ == tracks_payload(vs.subrange(0, i as int)),
            payload@.len() <= i * track_entry_len_bound(),
        decreases len - i,
    {
        push_track_entry(&mut payload, &tracks[i]);
        proof {
            let pre = vs.subrange(0, i as int);
            let cur = vs.subrange(0, i + 1);
            assert(cur.drop_last() =~= pre);
            assert(cur.last() == vs[i as int]);
            lemma_track_entry_len(vs[i as int]);
        }
        i = i + 1;
    }
    proof {
        assert(vs.subrange(0, len as int) =~= vs);
        lemma_tracks_payload_len(vs);
    }
    push_element(out, ID_TRACKS, 4, payload.as_slice());
}

/// Appends the fixed EBML header.
fn push_ebml_header(out: &mut Vec<u8>)
    ensures
        final(out)@ == old(out)@ + ebml_header_bytes(),
{
    let mut payload: Vec<u8> = Vec::new();
    push_uint_element(&mut payload, ID_EBML_VERSION, 2, 1);
    push_uint_element(&mut payload, ID_EBML_READ_VERSION, 2, 1);
    push_uint_element(&mut payload, ID_EBML_MAX_ID_LENGTH, 2, 4);
    push_uint_element(&mut payload, ID_EBML_MAX_SIZE_LENGTH, 2, 8);
    let mut doctype: Vec<u8> = Vec::new();
    doctype.push(0x77);
    doctype.push(0x65);
    doctype.push(0x62);
    doctype.push(0x6D);
    proof {
        assert(doctype@ =~= seq![0x77u8, 0x65u8, 0x62u8, 0x6Du8]);
    }
    push_element(&mut payload, ID_DOCTYPE, 2, doctype.as_slice());
    push_uint_element(&mut payload, ID_DOCTYPE_VERSION, 2, 2);
    push_uint_element(&mut payload, ID_DOCTYPE_READ_VERSION, 2, 2);
    push_element(out, ID_EBML, 4, payload.as_slice());
}

/// Appends the Segment element id and the unknown-size marker.
fn push_segment_start(out: &mut Vec<u8>)
    ensures
        final(out)@ == old(out)@ + segment_start_bytes(),
{
    push_be_bytes(out, ID_SEGMENT, 4);
    out.push(0x01);
    let mut i: usize = 0;
    while i < 7
        invariant
            i <= 7,
            out@ == old(out)@ + be_bytes(ID_SEGMENT, 4) + seq![0x01u8] + Seq::new(
                i as nat,
                |j: int| 0xFFu8,
            ),
        decreases 7 - i,
    {
        out.push(0xFF);
        proof {
            assert(Seq::new((i + 1) as nat, |j: int| 0xFFu8) =~= Seq::new(
                i as nat,
                |j: int| 0xFFu8,
            ).push(0xFFu8));
        }
        i = i + 1;
    }
    proof {
        assert(out@ =~= old(out)@ + segment_start_bytes());
    }
}

/// Builds everything a segment writes when it is built: the EBML header, the
/// segment start, the Info element with zeroed duration bits, and the Tracks
/// element. Also returns the offset of the Duration element's payload within
/// the built bytes (meaningful when `seekable`).
pub(crate) fn build_header(tracks: &Vec<TrackEntry>, app: &Vec<u8>, seekable: bool) -> (r: (
    Vec<u8>,
    usize,
))
    requires
        tracks_wf(track_views(tracks@)),
        app@.len() <= MAX_BLOB_LEN,
    ensures
        ({
            let cfg = CfgRec { tracks: track_views(tracks@), writing_app: app@, seekable };
            r.0@ == header_bytes(cfg, 0) && (seekable ==> r.1 == duration_offset(cfg))
        }),
{
    let ghost cfg = CfgRec { tracks: track_views(tracks@), writing_app: app@, seekable };
    let mut out: Vec<u8> = Vec::new();
    push_ebml_header(&mut out);
    push_segment_start(&mut out);

    let mut ipre: Vec<u8> = Vec::new();
    push_uint_element(&mut ipre, ID_TIMECODE_SCALE, 3, TIMECODE_SCALE_NS);
    let mut mname: Vec<u8> = Vec::new();
    mname.push(0x77);
    mname.push(0x65);
    mname.push(0x62);
    mname.push(0x6D);
    proof {
        assert(mname@ =~= muxing_app_name());
    }
    push_element(&mut ipre, ID_MUXING_APP, 2, mname.as_slice());
    push_element(&mut ipre, ID_WRITING_APP, 2, app.as_slice());
    proof {
        assert(ipre@ =~= info_payload_pre(app@));
    }
    let ipre_len: usize = ipre.len();

    push_be_bytes(&mut out, ID_INFO, 4);
    let mut dur_off: usize = 0;
    if seekable {
        push_vint(&mut out, ipre_len as u64 + 11);
        push_bytes(&mut out, ipre.as_slice());
        push_be_bytes(&mut out, ID_DURATION, 2);
        push_vint(&mut out, 8);
        dur_off = out.len();
        push_be_bytes(&mut out, 0, 8);
        proof {
            assert(duration_elem(0) =~= be_bytes(ID_DURATION, 2) + vint_bytes(8) + be_bytes(
                0,
                8,
            ));
            assert(out@ =~= ebml_header_bytes() + segment_start_bytes() + info_elem_bytes(
                app@,
                seekable,
                0,
            ));
        }
    } else {
        push_vint(&mut out, ipre_len as u64);
        push_bytes(&mut out, ipre.as_slice());
        proof {
            assert(out@ =~= ebml_header_bytes() + segment_start_bytes() + info_elem_bytes(
                app@,
                seekable,
                0,
            ));
        }
    }
    push_tracks_elem(&mut out, tracks);
    proof {
        assert(out@ =~= header_bytes(cfg, 0));
    }
    (out, dur_off)
}

// ---------------------------------------------------------------------------
// Frames and clusters.
// ---------------------------------------------------------------------------

/// The engine refuses single frames larger than this (its 32-bit signed size
/// limit).
pub const MAX_FRAME_LEN: usize = 0x7FFF_FFFF;

/// A cluster is closed once its blocks hold more than this many bytes.
pub const MAX_CLUSTER_PAYLOAD: u64 = 0x1_0000_0000;

/// A bound on the bytes buffered for the open cluster: the closing threshold
/// plus one maximal block.
pub const OPEN_BLOCKS_BOUND: u64 = 0x1_0000_0000 + 0x7FFF_FFFF + 64;

/// The largest relative timecode a block can carry.
pub const MAX_REL_TIMECODE: u64 = 0x7FFF;

/// The abstract record of one accepted frame.
pub ghost struct FrameRec {
    /// The number of the track the frame belongs to.
    pub track: u64,
    /// The already-encoded frame contents.
    pub data: Seq<u8>,
    /// The frame's timestamp in nanoseconds.
    pub timestamp_ns: u64,
    /// Whether the frame is a keyframe.
    pub keyframe: bool,
}

/// A frame's timestamp in timecode ticks.
pub open spec fn tc_of_ns(ns: u64) -> u64 {
    ns / TIMECODE_SCALE_NS
}

/// The payload of a SimpleBlock: the track number as a vint, the relative
/// timecode as two big-endian bytes, a flags byte (keyframe or nothing), and
/// the frame contents.
pub open spec fn block_payload(track: u64, rel: u64, keyframe: bool, data: Seq<u8>) -> Seq<u8> {
    vint_bytes(track) + be_bytes(rel, 2) + seq![
        if keyframe {
            0x80u8
        } else {
            0x00u8
        },
    ] + data
}

/// One SimpleBlock element.
pub open spec fn simple_block_bytes(track: u64, rel: u64, keyframe: bool, data: Seq<u8>) -> Seq<
    u8,
> {
    elem_bytes(ID_SIMPLE_BLOCK, 1, block_payload(track, rel, keyframe, data))
}

/// The SimpleBlock of a frame within a cluster starting at `base`.
pub open spec fn frame_block(f: FrameRec, base: u64) -> Seq<u8> {
    simple_block_bytes(f.track, (tc_of_ns(f.timestamp_ns) - base) as u64, f.keyframe, f.data)
}

/// The cluster being accumulated: its starting timecode and the SimpleBlocks
/// gathered so far.
pub ghost struct ClusterRec {
    /// The cluster's starting timecode, in timecode ticks.
    pub base_tc: u64,
    /// The concatenated SimpleBlock elements of the cluster.
    pub blocks: Seq<u8>,
}

/// One Cluster element: its timecode, then its blocks.
pub open spec fn cluster_bytes(c: ClusterRec) -> Seq<u8> {
    elem_bytes(ID_CLUSTER, 4, uint_elem(ID_TIMECODE, 1, c.base_tc) + c.blocks)
}

/// Whether accepting `f` closes the open cluster `c` first: the frame's
/// timecode cannot be expressed relative to the cluster's (it lies before it
/// or too far after it), or the cluster is full.
pub open spec fn needs_new_cluster(c: ClusterRec, f: FrameRec) -> bool {
    let tc = tc_of_ns(f.timestamp_ns);
    ||| tc < c.base_tc
    ||| tc - c.base_tc > MAX_REL_TIMECODE
    ||| c.blocks.len() + frame_block(f, c.base_tc).len() > MAX_CLUSTER_PAYLOAD
}

/// How far the body of the segment has progressed: the bytes of the closed
/// clusters, and the still-open cluster if a frame has ever been accepted.
pub ghost struct MuxProgress {
    /// The bytes of every closed cluster, in order.
    pub emitted: Seq<u8>,
    /// The cluster still being accumulated, if any.
    pub open_cluster: Option<ClusterRec>,
}

/// Accepting one frame: start the first cluster, extend the open one, or
/// close it and start the next.
pub open spec fn mux_step(p: MuxProgress, f: FrameRec) -> MuxProgress {
    let tc = tc_of_ns(f.timestamp_ns);
    match p.open_cluster {
        None => MuxProgress {
            emitted: p.emitted,
            open_cluster: Some(ClusterRec { base_tc: tc, blocks: frame_block(f, tc) }),
        },
        Some(c) => if needs_new_cluster(c, f) {
            MuxProgress {
                emitted: p.emitted + cluster_bytes(c),
                open_cluster: Some(ClusterRec { base_tc: tc, blocks: frame_block(f, tc) }),
            }
        } else {
            MuxProgress {
                emitted: p.emitted,
                open_cluster: Some(
                    ClusterRec { base_tc: c.base_tc, blocks: c.blocks + frame_block(f, c.base_tc) },
                ),
            }
        },
    }
}

/// The body progress after accepting the given frames in order.
pub open spec fn mux_progress(frames: Seq<FrameRec>) -> MuxProgress
    decreases frames.len(),
{
    if frames.len() == 0 {
        MuxProgress { emitted: Seq::empty(), open_cluster: None }
    } else {
        mux_step(mux_progress(frames.drop_last()), frames.last())
    }
}

/// The body of the finalized segment: every cluster, the final one closed.
pub open spec fn body_bytes(frames: Seq<FrameRec>) -> Seq<u8> {
    let p = mux_progress(frames);
    match p.open_cluster {
        None => p.emitted,
        Some(c) => p.emitted + cluster_bytes(c),
    }
}

/// The bytes of a whole finalized segment: the header (with the given
/// duration bits in its Duration element, when seekable), then the body.
pub open spec fn file_bytes(cfg: CfgRec, frames: Seq<FrameRec>, dbits: u64) -> Seq<u8> {
    header_bytes(cfg, dbits) + body_bytes(frames)
}

/// The combined size of the frame payloads in `frames`.
pub open spec fn payload_total(frames: Seq<FrameRec>) -> nat
    decreases frames.len(),
{
    if frames.len() == 0 {
        0
    } else {
        payload_total(frames.drop_last()) + frames.last().data.len()
    }
}

/// The body holds at least the payload bytes of every accepted frame.
proof fn lemma_body_growth(frames: Seq<FrameRec>)
    ensures
        ({
            let p = mux_progress(frames);
            p.emitted.len() + (match p.open_cluster {
                None => 0,
                Some(c) => c.blocks.len(),
            }) >= payload_total(frames)
        }),
    decreases frames.len(),
{
    if frames.len() > 0 {
        lemma_body_growth(frames.drop_last());
        let f = frames.last();
        let p0 = mux_progress(frames.drop_last());
        match p0.open_cluster {
            None => {},
            Some(c) => {
                assert(frame_block(f, c.base_tc).len() >= f.data.len());
                assert(cluster_bytes(c).len() >= c.blocks.len());
            },
        }
    }
}

/// Law: a finalized byte stream is never empty, it begins with the EBML
/// magic bytes, and it holds at least the payload of every accepted frame,
/// whatever the configuration, the frames, and the duration bits.
pub proof fn lemma_file_shape(cfg: CfgRec, frames: Seq<FrameRec>, dbits: u64)
    ensures
        file_bytes(cfg, frames, dbits).len() > 0,
        file_bytes(cfg, frames, dbits).subrange(0, 4) == seq![0x1Au8, 0x45u8, 0xDFu8, 0xA3u8],
        file_bytes(cfg, frames, dbits).len() >= payload_total(frames),
{
    vstd::arithmetic::power2::lemma2_to64();
    let fb = file_bytes(cfg, frames, dbits);
    let id = be_bytes(ID_EBML, 4);
    assert(id.len() == 4);
    assert(pow2(24) == 0x100_0000 && pow2(16) == 0x1_0000 && pow2(8) == 0x100 && pow2(0) == 1);
    assert(id[0] == (((ID_EBML as nat) / pow2(24)) % 256) as u8);
    assert(id[1] == (((ID_EBML as nat) / pow2(16)) % 256) as u8);
    assert(id[2] == (((ID_EBML as nat) / pow2(8)) % 256) as u8);
    assert(id[3] == (((ID_EBML as nat) / pow2(0)) % 256) as u8);
    assert(id[0] == 0x1Au8 && id[1] == 0x45u8 && id[2] == 0xDFu8 && id[3] == 0xA3u8);
    assert(fb[0] == id[0] && fb[1] == id[1] && fb[2] == id[2] && fb[3] == id[3]);
    assert(fb.subrange(0, 4) =~= seq![0x1Au8, 0x45u8, 0xDFu8, 0xA3u8]);
    lemma_body_growth(frames);
    let p = mux_progress(frames);
    match p.open_cluster {
        None => {},
        Some(c) => {
            assert(cluster_bytes(c).len() >= c.blocks.len());
        },
    }
}

/// Builds one SimpleBlock element.
pub(crate) fn build_simple_block(track: u64, rel: u64, keyframe: bool, data: &[u8]) -> (r: Vec<
    u8,
>)
    requires
        track < VINT_LIMIT,
        data@.len() <= MAX_FRAME_LEN,
    ensures
        r@ == simple_block_bytes(track, rel, keyframe, data@),
        r@.len() <= data@.len() + 32,
{
    let mut payload: Vec<u8> = Vec::new();
    push_vint(&mut payload, track);
    push_be_bytes(&mut payload, rel, 2);
    let flag: u8 = if keyframe {
        0x80
    } else {
        0x00
    };
    payload.push(flag);
    push_bytes(&mut payload, data);
    proof {
        assert(payload@ =~= block_payload(track, rel, keyframe, data@));
    }
    let mut out: Vec<u8> = Vec::new();
    push_element(&mut out, ID_SIMPLE_BLOCK, 1, payload.as_slice());
    out
}

/// Builds one whole Cluster element from its starting timecode and its
/// buffered blocks.
pub(crate) fn build_cluster(base_tc: u64, blocks: &Vec<u8>) -> (r: Vec<u8>)
    requires
        blocks@.len() <= OPEN_BLOCKS_BOUND,
    ensures
        r@ == cluster_bytes(ClusterRec { base_tc, blocks: blocks@ }),
{
    let mut payload: Vec<u8> = Vec::new();
    push_uint_element(&mut payload, ID_TIMECODE, 1, base_tc);
    push_bytes(&mut payload, blocks.as_slice());
    let mut out: Vec<u8> = Vec::new();
    push_element(&mut out, ID_CLUSTER, 4, payload.as_slice());
    out
}

} // verus!
