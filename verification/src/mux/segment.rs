//! The segment lifecycle: a configuring [`SegmentBuilder`] that declares
//! tracks, and the writing-phase [`Segment`] that accepts frames and is
//! finalized into a complete WebM byte stream.

use vstd::prelude::*;

use super::AudioCodecId;
use super::AudioTrack;
use super::ColorRange;
use super::ColorSubsampling;
use super::Error;
use super::Track;
use super::TrackNum;
use super::VideoCodecId;
use super::VideoTrack;
use super::engine::CfgRec;
use super::engine::FrameRec;
use super::engine::MAX_BLOB_LEN;
use super::engine::MAX_CLUSTER_PAYLOAD;
use super::engine::MAX_FRAME_LEN;
use super::engine::MAX_REL_TIMECODE;
use super::engine::OPEN_BLOCKS_BOUND;
use super::engine::ResultCode;
use super::engine::TIMECODE_SCALE_NS;
use super::engine::TRACK_LIMIT;
use super::engine::TrackColor;
use super::engine::TrackDetail;
use super::engine::TrackEntry;
use super::engine::TrackRec;
use super::engine::auto_track_num;
use super::engine::body_bytes;
use super::engine::build_cluster;
use super::engine::build_header;
use super::engine::build_simple_block;
use super::engine::cfg_wf;
use super::engine::cluster_bytes;
use super::engine::duration_offset;
use super::engine::file_bytes;
use super::engine::find_track;
use super::engine::frame_block;
use super::engine::header_bytes;
use super::engine::lemma_auto_num_fresh;
use super::engine::lemma_header_patch;
use super::engine::lemma_max_track_num;
use super::engine::lemma_track_views_index;
use super::engine::max_track_num;
use super::engine::mux_progress;
use super::engine::mux_step;
use super::engine::muxing_app_name;
use super::engine::needs_new_cluster;
use super::engine::registry_add;
use super::engine::track_num_used;
use super::engine::track_views;
use super::engine::tracks_wf;
use super::ebml::VINT_LIMIT;
use super::ebml::be_bytes;
use super::ebml::f64_bits;
use super::ebml::f64_bits_u64;
use super::ebml::push_bytes;
use super::ebml::push_be_bytes;
use super::ebml::vint_width_u64;
use super::writer::Writer;
use super::writer::WriterView;
use super::writer::lemma_splice_append;
use super::writer::lemma_splice_patch;
use super::writer::splice_at;
use vstd::utf8::encode_utf8;

verus! {

/// Narrows `x` to the engine's 32-bit signed integer width, rejecting values
/// that do not fit.
pub fn try_as_i32(x: u64) -> (r: Result<i32, Error>)
    ensures
        x <= i32::MAX ==> r == Ok::<i32, Error>(x as i32),
        x > i32::MAX ==> (r matches Err(e) && e is BadParam),
{
    if x <= i32::MAX as u64 {
        Ok(x as i32)
    } else {
        Err(Error::BadParam)
    }
}

/// Whether a video track's parameters are acceptable: dimensions must be
/// positive and fit the engine's 32-bit signed width, and an explicitly
/// requested track number must be neither zero (the auto-assign sentinel)
/// nor beyond that width.
pub open spec fn video_params_ok(width: u32, height: u32, desired: Option<TrackNum>) -> bool {
    &&& 1 <= width <= 0x7FFF_FFFF
    &&& 1 <= height <= 0x7FFF_FFFF
    &&& (match desired {
        Some(n) => 1 <= n <= 0x7FFF_FFFF,
        None => true,
    })
}

/// Whether an audio track's parameters are acceptable; the same numeric rules
/// as for video, with sample rate and channel count in place of dimensions.
pub open spec fn audio_params_ok(sample_rate: u32, channels: u32, desired: Option<
    TrackNum,
>) -> bool {
    &&& 1 <= sample_rate <= 0x7FFF_FFFF
    &&& 1 <= channels <= 0x7FFF_FFFF
    &&& (match desired {
        Some(n) => 1 <= n <= 0x7FFF_FFFF,
        None => true,
    })
}

/// Whether an explicitly requested number is already taken by any existing
/// track, of either kind.
pub open spec fn requested_collides(ts: Seq<TrackRec>, desired: Option<TrackNum>) -> bool {
    match desired {
        Some(n) => track_num_used(ts, n),
        None => false,
    }
}

/// The number a new track receives: the requested one, or the auto-assigned
/// one when none was requested.
pub open spec fn assigned_track_num(ts: Seq<TrackRec>, desired: Option<TrackNum>) -> int {
    match desired {
        Some(n) => n as int,
        None => auto_track_num(ts),
    }
}

/// The index of the track numbered `n` (unique when the registry is
/// well-formed).
pub open spec fn track_index(ts: Seq<TrackRec>, n: u64) -> int {
    choose|i: int| 0 <= i < ts.len() && ts[i].num == n
}

/// Whether `n` names a video track of the registry.
pub open spec fn is_video_track_num(ts: Seq<TrackRec>, n: u64) -> bool {
    exists|i: int|
        0 <= i < ts.len() && (#[trigger] ts[i]).num == n && ts[i].detail is Video
}

/// The record `t` with colour metadata `c` attached (video tracks only).
pub open spec fn with_color(t: TrackRec, c: TrackColor) -> TrackRec {
    match t.detail {
        TrackDetail::Video { width, height, codec, color: _ } => TrackRec {
            detail: TrackDetail::Video { width, height, codec, color: Some(c) },
            ..t
        },
        TrackDetail::Audio { .. } => t,
    }
}

/// The abstract state of a [`SegmentBuilder`]: its writer, the declared
/// tracks, and the writing-application name.
pub ghost struct BuilderView {
    /// The abstract state of the owned writer.
    pub writer: WriterView,
    /// The declared tracks, in declaration order.
    pub tracks: Seq<TrackRec>,
    /// The writing-application name (UTF-8 bytes).
    pub writing_app: Seq<u8>,
}

/// A builder for [`Segment`].
///
/// Once you have a [`Writer`], you can use this to specify the tracks and
/// track parameters you want, then build a [`Segment`], allowing you to write
/// frames. Track configuration is possible only here: building the segment
/// freezes it, so no configuration can change once frames are written.
#[derive(Debug)]
pub struct SegmentBuilder {
    writer: Writer,
    tracks: Vec<TrackEntry>,
    writing_app: Vec<u8>,
}

impl View for SegmentBuilder {
    type V = BuilderView;

    closed spec fn view(&self) -> BuilderView {
        BuilderView {
            writer: self.writer@,
            tracks: track_views(self.tracks@),
            writing_app: self.writing_app@,
        }
    }
}

impl SegmentBuilder {
    /// The builder's internal consistency.
    pub closed spec fn wf(&self) -> bool {
        &&& self.writer.wf()
        &&& tracks_wf(track_views(self.tracks@))
        &&& self.writing_app@.len() <= MAX_BLOB_LEN
    }

    /// Creates a new [`SegmentBuilder`] with default configuration, that
    /// writes to the specified [`Writer`].
    pub fn new(writer: Writer) -> (r: Result<SegmentBuilder, Error>)
        requires
            writer.wf(),
        ensures
            r matches Ok(b) && b.wf() && b@ == (BuilderView {
                writer: writer@,
                tracks: Seq::empty(),
                writing_app: muxing_app_name(),
            }),
    {
        let mut app: Vec<u8> = Vec::new();
        app.push(0x77);
        app.push(0x65);
        app.push(0x62);
        app.push(0x6D);
        proof {
            assert(app@ =~= muxing_app_name());
        }
        let b = SegmentBuilder { writer, tracks: Vec::new(), writing_app: app };
        proof {
            assert(track_views(b.tracks@) =~= Seq::<TrackRec>::empty());
        }
        Ok(b)
    }

    /// Sets the name of the writing application. This will show up under the
    /// `WritingApp` Matroska element. Names holding a zero byte are rejected;
    /// names beyond the engine's size limit fail as an engine error.
    pub fn set_writing_app(self, app_name: &str) -> (r: Result<Self, Error>)
        requires
            self.wf(),
        ensures
            ({
                let bytes = encode_utf8(app_name@);
                &&& (r is Ok <==> (!bytes.contains(0u8) && bytes.len() <= MAX_BLOB_LEN))
                &&& (bytes.contains(0u8) ==> (r matches Err(e) && e is BadParam))
                &&& (!bytes.contains(0u8) && bytes.len() > MAX_BLOB_LEN ==> (r matches Err(e)
                    && e is Unknown))
                &&& (r matches Ok(b) ==> b.wf() && b@ == (BuilderView {
                    writing_app: bytes,
                    ..self@
                }))
            }),
    {
        let bytes: &[u8] = app_name.as_bytes();
        let n: usize = bytes.len();
        let mut i: usize = 0;
        while i < n
            invariant
                i <= n == encode_utf8(app_name@).len(),
                bytes@ == encode_utf8(app_name@),
                forall|j: int| 0 <= j < i ==> bytes@[j] != 0u8,
            decreases n - i,
        {
            if bytes[i] == 0 {
                return Err(Error::BadParam);
            }
            i = i + 1;
        }
        if n > MAX_BLOB_LEN {
            return Err(Error::Unknown);
        }
        let app: Vec<u8> = vstd::slice::slice_to_vec(bytes);
        Ok(SegmentBuilder { writer: self.writer, tracks: self.tracks, writing_app: app })
    }

    /// Adds a new video track to this segment, returning its track number.
    ///
    /// You may request a specific track number using the `desired_track_num`
    /// parameter. If one is specified, and this method succeeds, the returned
    /// track number is guaranteed to match the requested one. If a track with
    /// that number already exists, however, this method will fail. Leave as
    /// `None` to allow an available number to be chosen for you.
    pub fn add_video_track(
        self,
        width: u32,
        height: u32,
        codec: VideoCodecId,
        desired_track_num: Option<TrackNum>,
    ) -> (r: Result<(Self, VideoTrack), Error>)
        requires
            self.wf(),
        ensures
            r is Ok <==> (video_params_ok(width, height, desired_track_num)
                && !requested_collides(self@.tracks, desired_track_num) && self@.tracks.len()
                < TRACK_LIMIT),
            !video_params_ok(width, height, desired_track_num) ==> (r matches Err(e)
                && e is BadParam),
            video_params_ok(width, height, desired_track_num) && (requested_collides(
                self@.tracks,
                desired_track_num,
            ) || self@.tracks.len() == TRACK_LIMIT) ==> (r matches Err(e) && e is Unknown),
            r matches Ok(p) ==> ({
                &&& p.0.wf()
                &&& p.1.spec_track_num() == assigned_track_num(self@.tracks, desired_track_num)
                &&& p.1.spec_track_num() != 0
                &&& !track_num_used(self@.tracks, p.1.spec_track_num())
                &&& p.0@ == (BuilderView {
                    tracks: self@.tracks.push(
                        (TrackRec {
                            num: p.1.spec_track_num(),
                            detail: TrackDetail::Video { width, height, codec, color: None },
                            private: None,
                        }),
                    ),
                    ..self@
                })
            }),
    {
        // Zero is not a valid track number, and to the engine means "choose
        // one for me". If this is the user's intent, they should instead pass
        // `None`.
        if let Some(0) = desired_track_num {
            return Err(Error::BadParam);
        }
        // The engine requires its 32-bit signed width for these.
        let width_i: i32 = match try_as_i32(width as u64) {
            Ok(v) => v,
            Err(e) => { return Err(e) },
        };
        let height_i: i32 = match try_as_i32(height as u64) {
            Ok(v) => v,
            Err(e) => { return Err(e) },
        };
        if width_i == 0 || height_i == 0 {
            return Err(Error::BadParam);
        }
        let requested: u64 = match desired_track_num {
            Some(n) => n,
            None => 0,
        };
        let requested_i: i32 = match try_as_i32(requested) {
            Ok(v) => v,
            Err(e) => { return Err(e) },
        };
        let _ = requested_i;
        let SegmentBuilder { writer, mut tracks, writing_app } = self;
        let detail = TrackDetail::Video { width, height, codec, color: None };
        let (code, num) = registry_add(&mut tracks, requested, detail);
        match code {
            ResultCode::Success => Ok(
                (SegmentBuilder { writer, tracks, writing_app }, VideoTrack(num)),
            ),
            ResultCode::BadParam => Err(Error::BadParam),
            _ => Err(Error::Unknown),
        }
    }

    /// Adds a new audio track to this segment, returning its track number.
    ///
    /// You may request a specific track number using the `desired_track_num`
    /// parameter. If one is specified, and this method succeeds, the returned
    /// track number is guaranteed to match the requested one. If a track with
    /// that number already exists, however, this method will fail. Leave as
    /// `None` to allow an available number to be chosen for you.
    pub fn add_audio_track(
        self,
        sample_rate: u32,
        channels: u32,
        codec: AudioCodecId,
        desired_track_num: Option<TrackNum>,
    ) -> (r: Result<(Self, AudioTrack), Error>)
        requires
            self.wf(),
        ensures
            r is Ok <==> (audio_params_ok(sample_rate, channels, desired_track_num)
                && !requested_collides(self@.tracks, desired_track_num) && self@.tracks.len()
                < TRACK_LIMIT),
            !audio_params_ok(sample_rate, channels, desired_track_num) ==> (r matches Err(e)
                && e is BadParam),
            audio_params_ok(sample_rate, channels, desired_track_num) && (requested_collides(
                self@.tracks,
                desired_track_num,
            ) || self@.tracks.len() == TRACK_LIMIT) ==> (r matches Err(e) && e is Unknown),
            r matches Ok(p) ==> ({
                &&& p.0.wf()
                &&& p.1.spec_track_num() == assigned_track_num(self@.tracks, desired_track_num)
                &&& p.1.spec_track_num() != 0
                &&& !track_num_used(self@.tracks, p.1.spec_track_num())
                &&& p.0@ == (BuilderView {
                    tracks: self@.tracks.push(
                        (TrackRec {
                            num: p.1.spec_track_num(),
                            detail: TrackDetail::Audio { sample_rate, channels, codec },
                            private: None,
                        }),
                    ),
                    ..self@
                })
            }),
    {
        if let Some(0) = desired_track_num {
            return Err(Error::BadParam);
        }
        let rate_i: i32 = match try_as_i32(sample_rate as u64) {
            Ok(v) => v,
            Err(e) => { return Err(e) },
        };
        let channels_i: i32 = match try_as_i32(channels as u64) {
            Ok(v) => v,
            Err(e) => { return Err(e) },
        };
        if rate_i == 0 || channels_i == 0 {
            return Err(Error::BadParam);
        }
        let requested: u64 = match desired_track_num {
            Some(n) => n,
            None => 0,
        };
        let requested_i: i32 = match try_as_i32(requested) {
            Ok(v) => v,
            Err(e) => { return Err(e) },
        };
        let _ = requested_i;
        let SegmentBuilder { writer, mut tracks, writing_app } = self;
        let detail = TrackDetail::Audio { sample_rate, channels, codec };
        let (code, num) = registry_add(&mut tracks, requested, detail);
        match code {
            ResultCode::Success => Ok(
                (SegmentBuilder { writer, tracks, writing_app }, AudioTrack(num)),
            ),
            ResultCode::BadParam => Err(Error::BadParam),
            _ => Err(Error::Unknown),
        }
    }

    /// Sets the `CodecPrivate` data for the specified track. If you have a
    /// [`VideoTrack`] or [`AudioTrack`], you can call `track_number()` to get
    /// the underlying [`TrackNum`].
    pub fn set_codec_private(self, track: TrackNum, data: &[u8]) -> (r: Result<Self, Error>)
        requires
            self.wf(),
        ensures
            r is Ok <==> (track_num_used(self@.tracks, track) && data@.len() <= MAX_BLOB_LEN),
            r is Err ==> (r matches Err(e) && e is BadParam),
            r matches Ok(b) ==> ({
                let i = track_index(self@.tracks, track);
                &&& b.wf()
                &&& 0 <= i < self@.tracks.len()
                &&& self@.tracks[i].num == track
                &&& b@ == (BuilderView {
                    tracks: self@.tracks.update(
                        i,
                        (TrackRec { private: Some(data@), ..self@.tracks[i] }),
                    ),
                    ..self@
                })
            }),
    {
        if data.len() > MAX_BLOB_LEN {
            return Err(Error::BadParam);
        }
        let SegmentBuilder { writer, mut tracks, writing_app } = self;
        let found = find_track(&tracks, track);
        match found {
            None => Err(Error::BadParam),
            Some(i) => {
                let ghost old_entries = tracks@;
                let ghost ts = track_views(tracks@);
                let num: u64 = tracks[i].num;
                let detail: TrackDetail = tracks[i].detail;
                let blob: Vec<u8> = vstd::slice::slice_to_vec(data);
                tracks[i] = TrackEntry { num, detail, private: Some(blob) };
                proof {
                    assert(track_index(ts, track) == i as int) by {
                        let j = track_index(ts, track);
                        assert(0 <= j < ts.len() && ts[j].num == track);
                    }
                    let target = ts.update(
                        i as int,
                        (TrackRec { private: Some(data@), ..ts[i as int] }),
                    );
                    assert forall|j: int| 0 <= j < ts.len() implies track_views(tracks@)[j]
                        == target[j] by {
                        if j == i as int {
                            lemma_track_views_index(old_entries, j);
                            lemma_track_views_index(tracks@, j);
                        } else {
                            assert(tracks@[j] == old_entries[j]);
                        }
                    }
                    assert(track_views(tracks@) =~= target);
                }
                Ok(SegmentBuilder { writer, tracks, writing_app })
            },
        }
    }

    /// Sets color information for the specified video track. Fails when the
    /// handle does not name a video track of this segment.
    pub fn set_color(
        self,
        track: VideoTrack,
        bit_depth: u8,
        subsampling: ColorSubsampling,
        color_range: ColorRange,
    ) -> (r: Result<Self, Error>)
        requires
            self.wf(),
        ensures
            r is Ok <==> is_video_track_num(self@.tracks, track.spec_track_num()),
            r is Err ==> (r matches Err(e) && e is BadParam),
            r matches Ok(b) ==> ({
                let i = track_index(self@.tracks, track.spec_track_num());
                let c = TrackColor {
                    bit_depth,
                    chroma_horizontal: subsampling.chroma_horizontal,
                    chroma_vertical: subsampling.chroma_vertical,
                    range: color_range,
                };
                &&& b.wf()
                &&& 0 <= i < self@.tracks.len()
                &&& self@.tracks[i].num == track.spec_track_num()
                &&& self@.tracks[i].detail is Video
                &&& b@ == (BuilderView {
                    tracks: self@.tracks.update(i, with_color(self@.tracks[i], c)),
                    ..self@
                })
            }),
    {
        let SegmentBuilder { writer, mut tracks, writing_app } = self;
        let n: u64 = track.track_number();
        let found = find_track(&tracks, n);
        match found {
            None => Err(Error::BadParam),
            Some(i) => {
                let ghost old_entries = tracks@;
                let ghost ts = track_views(tracks@);
                proof {
                    lemma_track_views_index(old_entries, i as int);
                }
                let c = TrackColor {
                    bit_depth,
                    chroma_horizontal: subsampling.chroma_horizontal,
                    chroma_vertical: subsampling.chroma_vertical,
                    range: color_range,
                };
                match tracks[i].detail {
                    TrackDetail::Audio { .. } => {
                        proof {
                            assert forall|j: int|
                                0 <= j < ts.len() && (#[trigger] ts[j]).num == n implies !(
                            ts[j].detail is Video) by {
                                if j != i as int {
                                    assert(ts[j].num != ts[i as int].num);
                                }
                            }
                        }
                        Err(Error::BadParam)
                    },
                    TrackDetail::Video { width, height, codec, color: _ } => {
                        let entry = tracks.remove(i);
                        let detail = TrackDetail::Video { width, height, codec, color: Some(c) };
                        tracks.insert(
                            i,
                            TrackEntry { num: entry.num, detail, private: entry.private },
                        );
                        proof {
                            assert(track_index(ts, n) == i as int) by {
                                let j = track_index(ts, n);
                                assert(0 <= j < ts.len() && ts[j].num == n);
                            }
                            let target = ts.update(i as int, with_color(ts[i as int], c));
                            assert forall|j: int| 0 <= j < ts.len() implies track_views(
                                tracks@,
                            )[j] == target[j] by {
                                if j == i as int {
                                    lemma_track_views_index(old_entries, j);
                                    lemma_track_views_index(tracks@, j);
                                } else {
                                    assert(tracks@[j] == old_entries[j]);
                                }
                            }
                            assert(track_views(tracks@) =~= target);
                        }
                        Ok(SegmentBuilder { writer, tracks, writing_app })
                    },
                }
            },
        }
    }

    /// Finalizes track information and makes the segment ready to accept
    /// video/audio frames. This writes the segment's header (EBML header,
    /// segment start, info, and track entries) through the writer; the track
    /// configuration is frozen from here on.
    #[must_use]
    pub fn build(self) -> (seg: Segment)
        requires
            self.wf(),
        ensures
            seg.wf(),
            seg@ == (SegmentView {
                base: self@.writer.dest,
                start: self@.writer.pos,
                cfg: (CfgRec {
                    tracks: self@.tracks,
                    writing_app: self@.writing_app,
                    seekable: self@.writer.seekable,
                }),
                frames: Seq::empty(),
            }),
    {
        let SegmentBuilder { mut writer, tracks, writing_app } = self;
        let ghost base = writer@.dest;
        let ghost start = writer@.pos;
        proof {
            writer.lemma_wf_cursor();
        }
        let seekable: bool = writer.is_seekable();
        let (hdr, hoff) = build_header(&tracks, &writing_app, seekable);
        let ghost cfg = CfgRec { tracks: track_views(tracks@), writing_app: writing_app@, seekable };
        let pos0: u64 = writer.get_position();
        let _ = writer.write(hdr.as_slice());
        let mut dur_off: u64 = 0;
        if seekable {
            let endp: u64 = writer.get_position();
            proof {
                lemma_header_patch(cfg, 0, 0, Seq::empty());
                assert(pos0 + hoff as int <= endp);
            }
            dur_off = pos0 + hoff as u64;
        }
        let seg = Segment {
            writer,
            tracks,
            cluster_open: false,
            cluster_base: 0,
            cluster_buf: Vec::new(),
            dur_off,
            base: Ghost(base),
            start: Ghost(start),
            cfg: Ghost(cfg),
            frames: Ghost(Seq::empty()),
        };
        proof {
            assert(stream_bytes(cfg, Seq::empty()) =~= header_bytes(cfg, 0));
        }
        seg
    }
}

/// Law: auto-assignment is fresh. When no explicit number is requested, a
/// declared track receives a positive number that no existing track (video
/// or audio) holds, and a second auto-assigned declaration receives a
/// different number again.
pub proof fn lemma_auto_assignment_fresh(ts: Seq<TrackRec>, t: TrackRec)
    requires
        tracks_wf(ts),
        t.num == assigned_track_num(ts, None),
    ensures
        assigned_track_num(ts, None) >= 1,
        !track_num_used(ts, assigned_track_num(ts, None) as u64),
        assigned_track_num(ts.push(t), None) > assigned_track_num(ts, None),
{
    lemma_max_track_num(ts);
    lemma_auto_num_fresh(ts);
    if max_track_num(ts) != 0 {
        let i = choose|i: int|
            0 <= i < ts.len() && (#[trigger] ts[i]).num == max_track_num(ts);
        assert(ts[i].num <= 0x7FFF_FFFF + ts.len());
    }
    assert(ts.push(t).drop_last() =~= ts);
    assert(ts.push(t).last() == t);
}

/// The bytes a segment has pushed through its writer so far: the header
/// (its duration bits still zeroed), followed by every closed cluster.
pub open spec fn stream_bytes(cfg: CfgRec, frames: Seq<FrameRec>) -> Seq<u8> {
    header_bytes(cfg, 0) + mux_progress(frames).emitted
}

/// The bit pattern the segment's Duration element holds after finalization:
/// the requested duration as an 8-byte float when one was supplied and the
/// writer supports repositioning, else the zeroed placeholder.
pub open spec fn final_duration_bits(cfg: CfgRec, duration: Option<u64>) -> u64 {
    if cfg.seekable {
        match duration {
            Some(d) => f64_bits(d),
            None => 0,
        }
    } else {
        0
    }
}

/// The abstract state of a [`Segment`]: the writer's buffer and cursor as
/// they were when the segment was built, the frozen configuration, and the
/// frames accepted so far.
pub ghost struct SegmentView {
    /// The writer's buffer when the segment was built.
    pub base: Seq<u8>,
    /// The writer's cursor when the segment was built.
    pub start: int,
    /// The frozen configuration.
    pub cfg: CfgRec,
    /// The frames accepted so far, in order.
    pub frames: Seq<FrameRec>,
}

/// A fully-built Matroska segment. This is where actual video/audio frames
/// are written.
///
/// This is created via [`SegmentBuilder`]. Once built in this way, the list
/// of tracks and their parameters become immutable.
///
/// ## Finalization
/// Once you are done writing frames to this segment, you must call
/// [`Segment::finalize`] on it. This performs a few final writes, and the
/// resulting WebM may not be playable without it. Notably, just dropping a
/// [`Segment`] will not finalize it!
pub struct Segment {
    writer: Writer,
    tracks: Vec<TrackEntry>,
    cluster_open: bool,
    cluster_base: u64,
    cluster_buf: Vec<u8>,
    dur_off: u64,
    base: Ghost<Seq<u8>>,
    start: Ghost<int>,
    cfg: Ghost<CfgRec>,
    frames: Ghost<Seq<FrameRec>>,
}

impl View for Segment {
    type V = SegmentView;

    closed spec fn view(&self) -> SegmentView {
        SegmentView { base: self.base@, start: self.start@, cfg: self.cfg@, frames: self.frames@ }
    }
}

impl Segment {
    /// The segment's internal consistency: the writer's buffer holds exactly
    /// the stream written so far, spliced over the buffer the segment
    /// started from, and the buffered open cluster matches the accepted
    /// frames.
    pub closed spec fn wf(&self) -> bool {
        &&& self.writer.wf()
        &&& cfg_wf(self.cfg@)
        &&& self.cfg@.tracks == track_views(self.tracks@)
        &&& self.cfg@.seekable == self.writer@.seekable
        &&& 0 <= self.start@ <= self.base@.len()
        &&& self.writer@.dest == splice_at(
            self.base@,
            self.start@,
            stream_bytes(self.cfg@, self.frames@),
        )
        &&& self.writer@.pos == self.start@ + stream_bytes(self.cfg@, self.frames@).len()
        &&& match mux_progress(self.frames@).open_cluster {
            None => !self.cluster_open && self.frames@.len() == 0,
            Some(c) => self.cluster_open && self.cluster_base == c.base_tc && self.cluster_buf@
                == c.blocks,
        }
        &&& self.cluster_buf@.len() <= OPEN_BLOCKS_BOUND
        &&& (self.cfg@.seekable ==> self.dur_off == self.start@ + duration_offset(self.cfg@))
    }

    /// Adds a frame to the track with the specified track number. If you
    /// have a [`VideoTrack`] or [`AudioTrack`], you can call
    /// `track_number()` to get the underlying [`TrackNum`].
    ///
    /// The timestamp must be in nanosecond units, and should be
    /// monotonically increasing with respect to all other timestamps written
    /// so far, including those of other tracks! This ordering is a caller
    /// contract and is not checked: frames with out-of-order timestamps are
    /// still written (each opening a fresh cluster), but players may handle
    /// the result poorly.
    #[verifier::rlimit(50)]
    pub fn add_frame(
        &mut self,
        track: TrackNum,
        data: &[u8],
        timestamp_ns: u64,
        keyframe: bool,
    ) -> (r: Result<(), Error>)
        requires
            old(self).wf(),
        ensures
            final(self).wf(),
            final(self)@.cfg == old(self)@.cfg,
            final(self)@.base == old(self)@.base,
            final(self)@.start == old(self)@.start,
            r is Ok <==> (track_num_used(old(self)@.cfg.tracks, track) && data@.len()
                <= MAX_FRAME_LEN),
            !track_num_used(old(self)@.cfg.tracks, track) ==> ((r matches Err(e)
                && e is BadParam) && final(self)@ == old(self)@),
            track_num_used(old(self)@.cfg.tracks, track) && data@.len() > MAX_FRAME_LEN ==> ((
            r matches Err(e) && e is Unknown) && final(self)@ == old(self)@),
            r is Ok ==> final(self)@.frames == old(self)@.frames.push(
                (FrameRec { track, data: data@, timestamp_ns, keyframe }),
            ),
    {
        if find_track(&self.tracks, track).is_none() {
            return Err(Error::BadParam);
        }
        if data.len() > MAX_FRAME_LEN {
            return Err(Error::Unknown);
        }
        let ghost f = FrameRec { track, data: data@, timestamp_ns, keyframe };
        let ghost frames0 = self.frames@;
        let ghost p0 = mux_progress(frames0);
        proof {
            assert(frames0.push(f).drop_last() =~= frames0);
            assert(frames0.push(f).last() == f);
            assert(track < VINT_LIMIT) by {
                let ts = self.cfg@.tracks;
                let i = choose|i: int| 0 <= i < ts.len() && ts[i].num == track;
                assert(ts[i].num <= 0x7FFF_FFFF + ts.len());
            }
        }
        let tc: u64 = timestamp_ns / TIMECODE_SCALE_NS;
        if !self.cluster_open {
            let block = build_simple_block(track, 0, keyframe, data);
            self.cluster_base = tc;
            self.cluster_buf = block;
            self.cluster_open = true;
            self.frames = Ghost(frames0.push(f));
            proof {
                assert(mux_progress(self.frames@) == mux_step(p0, f));
                assert(mux_step(p0, f).emitted == p0.emitted);
            }
            return Ok(());
        }
        // A cluster is open: decide whether this frame still fits it.
        let bp_len: u64 = vint_width_u64(track) as u64 + 3 + data.len() as u64;
        let blen: u64 = 1 + vint_width_u64(bp_len) as u64 + bp_len;
        let ghost c = mux_progress(frames0).open_cluster->0;
        proof {
            assert(blen == frame_block(f, c.base_tc).len());
            assert(blen == frame_block(f, tc).len());
        }
        let needs: bool = tc < self.cluster_base || tc - self.cluster_base > MAX_REL_TIMECODE
            || self.cluster_buf.len() as u64 + blen > MAX_CLUSTER_PAYLOAD;
        proof {
            assert(needs == needs_new_cluster(c, f));
        }
        if needs {
            let cl = build_cluster(self.cluster_base, &self.cluster_buf);
            let _ = self.writer.write(cl.as_slice());
            let block = build_simple_block(track, 0, keyframe, data);
            self.cluster_base = tc;
            self.cluster_buf = block;
            self.frames = Ghost(frames0.push(f));
            proof {
                lemma_splice_append(
                    self.base@,
                    self.start@,
                    stream_bytes(self.cfg@, frames0),
                    cluster_bytes(c),
                );
                assert(mux_progress(self.frames@) == mux_step(p0, f));
                assert(stream_bytes(self.cfg@, frames0) + cluster_bytes(c) =~= stream_bytes(
                    self.cfg@,
                    self.frames@,
                ));
            }
        } else {
            let rel: u64 = tc - self.cluster_base;
            let block = build_simple_block(track, rel, keyframe, data);
            push_bytes(&mut self.cluster_buf, block.as_slice());
            self.frames = Ghost(frames0.push(f));
            proof {
                assert(mux_progress(self.frames@) == mux_step(p0, f));
                assert(self.cluster_buf@ == c.blocks + frame_block(f, c.base_tc));
            }
        }
        Ok(())
    }

    /// Finalizes the segment and consumes it, returning the underlying
    /// writer. The finalizing process itself triggers writes (the last
    /// cluster is closed here).
    ///
    /// The resulting WebM may not be playable if you drop the [`Segment`]
    /// without calling this first!
    ///
    /// You may specify an explicit `duration` (in timecode ticks) to be
    /// written to the segment's `Duration` element. However, this requires
    /// seeking and thus will be ignored if the writer was not created with
    /// positioning support.
    ///
    /// Finalization fails if no frames have been written; the writer comes
    /// back in the failure variant, intact.
    pub fn finalize(self, duration: Option<u64>) -> (r: Result<Writer, Writer>)
        requires
            self.wf(),
        ensures
            r is Ok <==> self@.frames.len() > 0,
            r matches Ok(w) ==> ({
                &&& w.wf()
                &&& w@.seekable == self@.cfg.seekable
                &&& w@.dest == splice_at(
                    self@.base,
                    self@.start,
                    file_bytes(
                        self@.cfg,
                        self@.frames,
                        final_duration_bits(self@.cfg, duration),
                    ),
                )
                &&& w@.pos == self@.start + file_bytes(
                    self@.cfg,
                    self@.frames,
                    final_duration_bits(self@.cfg, duration),
                ).len()
            }),
            r matches Err(w) ==> ({
                &&& w.wf()
                &&& w@.seekable == self@.cfg.seekable
                &&& w@.dest == splice_at(self@.base, self@.start, header_bytes(self@.cfg, 0))
                &&& w@.pos == self@.start + header_bytes(self@.cfg, 0).len()
                &&& self@.frames.len() == 0
            }),
    {
        let Segment {
            mut writer,
            tracks,
            cluster_open,
            cluster_base,
            cluster_buf,
            dur_off,
            base,
            start,
            cfg,
            frames,
        } = self;
        let _ = tracks;
        if !cluster_open {
            proof {
                assert(stream_bytes(cfg@, frames@) =~= header_bytes(cfg@, 0));
            }
            return Err(writer);
        }
        let ghost c = mux_progress(frames@).open_cluster->0;
        let ghost body = body_bytes(frames@);
        let cl = build_cluster(cluster_base, &cluster_buf);
        let _ = writer.write(cl.as_slice());
        proof {
            lemma_splice_append(base@, start@, stream_bytes(cfg@, frames@), cluster_bytes(c));
            assert(stream_bytes(cfg@, frames@) + cluster_bytes(c) =~= header_bytes(cfg@, 0)
                + body);
        }
        match duration {
            None => {},
            Some(d) => {
                let end_pos: u64 = writer.get_position();
                proof {
                    if cfg@.seekable {
                        lemma_header_patch(cfg@, 0, 0, Seq::empty());
                    }
                }
                let moved = writer.set_position(dur_off);
                if moved {
                    let bits: u64 = f64_bits_u64(d);
                    let mut patch: Vec<u8> = Vec::new();
                    push_be_bytes(&mut patch, bits, 8);
                    let ghost s = header_bytes(cfg@, 0) + body;
                    let _ = writer.write(patch.as_slice());
                    let moved2 = writer.set_position(end_pos);
                    proof {
                        lemma_splice_patch(
                            base@,
                            start@,
                            s,
                            duration_offset(cfg@),
                            be_bytes(bits, 8),
                        );
                        lemma_header_patch(cfg@, 0, bits, body);
                        assert(moved2);
                    }
                }
            },
        }
        Ok(writer)
    }
}

} // verus!

