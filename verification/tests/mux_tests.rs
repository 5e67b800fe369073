use webm::mux::AudioCodecId;
use webm::mux::Error;
use webm::mux::Segment;
use webm::mux::SegmentBuilder;
use webm::mux::Track;
use webm::mux::TrackNum;
use webm::mux::VideoCodecId;
use webm::mux::Writer;

fn make_segment_builder() -> SegmentBuilder {
    let output = Vec::new();
    let writer = Writer::new(output);
    SegmentBuilder::new(writer).expect("Segment builder should create OK")
}

fn is_send<T: Send>(_: &T) {}

#[test]
fn smoke_test() {
    let writer = Writer::new(Vec::new());
    let builder = SegmentBuilder::new(writer);
    assert!(builder.is_ok());
}

#[test]
fn overlapping_track_number_same_type() {
    let builder = make_segment_builder();

    let Ok((builder, _)) = builder.add_video_track(420, 420, VideoCodecId::VP8, Some(123)) else {
        panic!("First video track unexpectedly failed")
    };

    let video_track2 = builder.add_video_track(420, 420, VideoCodecId::VP8, Some(123));
    assert!(video_track2.is_err());
}

#[test]
fn overlapping_track_number_different_type() {
    let builder = make_segment_builder();

    let Ok((builder, _)) = builder.add_video_track(420, 420, VideoCodecId::VP8, Some(123)) else {
        panic!("First video track unexpectedly failed")
    };

    let audio_track = builder.add_audio_track(420, 420, AudioCodecId::Opus, Some(123));
    assert!(audio_track.is_err());
}

#[test]
fn sendable() {
    let w = Writer::new(vec![1, 2, 3]);
    is_send(&w);
    assert_eq!(vec![1, 2, 3], w.into_inner());

    let w = Writer::new_non_seek(vec![3, 4, 5]);
    is_send(&w);
    assert_eq!(vec![3, 4, 5], w.into_inner());
}

#[test]
fn segment_is_sendable() {
    let builder = make_segment_builder();
    let (builder, _) = builder
        .add_video_track(640, 480, VideoCodecId::VP8, None)
        .expect("video track should be accepted");
    is_send(&builder);
    let segment = builder.build();
    is_send(&segment);
    let _ = segment.finalize(None);
}

#[test]
fn auto_track_numbers_are_fresh() {
    let builder = make_segment_builder();
    let (builder, t1) = builder
        .add_video_track(640, 480, VideoCodecId::VP8, None)
        .expect("first auto-numbered track should be accepted");
    let (builder, t2) = builder
        .add_video_track(320, 240, VideoCodecId::VP9, None)
        .expect("second auto-numbered track should be accepted");
    let (_, t3) = builder
        .add_audio_track(48000, 2, AudioCodecId::Opus, None)
        .expect("auto-numbered audio track should be accepted");
    assert_ne!(t1.track_number(), 0);
    assert_ne!(t2.track_number(), 0);
    assert_ne!(t3.track_number(), 0);
    assert_ne!(t1.track_number(), t2.track_number());
    assert_ne!(t1.track_number(), t3.track_number());
    assert_ne!(t2.track_number(), t3.track_number());
}

#[test]
fn zero_track_number_is_bad_param() {
    let builder = make_segment_builder();
    let r = builder.add_video_track(640, 480, VideoCodecId::VP8, Some(0));
    assert!(matches!(r, Err(Error::BadParam)));

    let builder = make_segment_builder();
    let r = builder.add_audio_track(48000, 2, AudioCodecId::Vorbis, Some(0));
    assert!(matches!(r, Err(Error::BadParam)));
}

#[test]
fn zero_dimensions_are_bad_param() {
    let builder = make_segment_builder();
    let r = builder.add_video_track(0, 480, VideoCodecId::VP8, None);
    assert!(matches!(r, Err(Error::BadParam)));

    let builder = make_segment_builder();
    let r = builder.add_audio_track(48000, 0, AudioCodecId::Opus, None);
    assert!(matches!(r, Err(Error::BadParam)));
}

#[test]
fn oversized_dimension_is_bad_param() {
    let builder = make_segment_builder();
    let r = builder.add_video_track(0x8000_0000, 480, VideoCodecId::VP8, None);
    assert!(matches!(r, Err(Error::BadParam)));
}

#[test]
fn requested_number_is_returned() {
    let builder = make_segment_builder();
    let (builder, video) = builder
        .add_video_track(640, 480, VideoCodecId::AV1, Some(7))
        .expect("requested video number should be accepted");
    assert_eq!(video.track_number(), 7);
    assert!(video.is_video());
    assert!(!video.is_audio());
    assert_eq!(TrackNum::from(video), 7);

    let (_, audio) = builder
        .add_audio_track(44100, 2, AudioCodecId::Vorbis, Some(9))
        .expect("requested audio number should be accepted");
    assert_eq!(audio.track_number(), 9);
    assert!(audio.is_audio());
    assert!(!audio.is_video());
    assert_eq!(TrackNum::from(audio), 9);
}

#[test]
fn finalize_without_frames_fails_and_returns_sink() {
    let builder = make_segment_builder();
    let (builder, _) = builder
        .add_video_track(640, 480, VideoCodecId::VP8, None)
        .expect("video track should be accepted");
    let segment = builder.build();
    let r = segment.finalize(None);
    let writer = match r {
        Ok(_) => panic!("finalize with zero frames should fail"),
        Err(w) => w,
    };
    // The sink comes back intact: it still holds the well-formed header
    // that was written when the segment was built.
    let bytes = writer.into_inner();
    assert!(!bytes.is_empty());
    assert_eq!(&bytes[0..4], &[0x1A, 0x45, 0xDF, 0xA3]);
}

#[test]
fn finalize_without_seek_support_succeeds() {
    let run = |duration: Option<u64>| -> Vec<u8> {
        let writer = Writer::new_non_seek(Vec::new());
        let builder = SegmentBuilder::new(writer).expect("builder should create OK");
        let (builder, video) = builder
            .add_video_track(640, 480, VideoCodecId::VP8, None)
            .expect("video track should be accepted");
        let mut segment = builder.build();
        segment
            .add_frame(video.track_number(), &[1, 2, 3], 0, true)
            .expect("frame should be accepted");
        let writer = segment.finalize(duration).expect("finalize should succeed");
        writer.into_inner()
    };
    // A supplied duration needs seek support; without it, it has no
    // observable effect on the output bytes.
    let with_duration = run(Some(1_000));
    let without_duration = run(None);
    assert!(!with_duration.is_empty());
    assert_eq!(with_duration, without_duration);
}

#[test]
fn empty_segment_scenario() {
    // Sink over an empty in-memory buffer -> open a segment -> one video
    // track (640x480, VP8, auto-numbered) -> one empty keyframe at
    // timestamp zero -> finalize without duration.
    let writer = Writer::new(Vec::new());
    let builder = SegmentBuilder::new(writer).expect("builder should create OK");
    let (builder, video) = builder
        .add_video_track(640, 480, VideoCodecId::VP8, None)
        .expect("video track should be accepted");
    let mut segment = builder.build();
    segment
        .add_frame(video.track_number(), &[], 0, true)
        .expect("empty keyframe should be accepted");
    let writer = segment.finalize(None).expect("finalize should succeed");
    let bytes = writer.into_inner();
    assert!(!bytes.is_empty());
    assert_eq!(&bytes[0..4], &[0x1A, 0x45, 0xDF, 0xA3]);

    // The whole stream is deterministic: EBML header, segment start, info
    // (with a zeroed duration placeholder), one track entry, one cluster
    // holding one empty keyframe.
    let expected: Vec<u8> = vec![
        0x1A, 0x45, 0xDF, 0xA3, 0x9F, 0x42, 0x86, 0x81, 0x01, 0x42, 0xF7, 0x81, 0x01, 0x42,
        0xF2, 0x81, 0x04, 0x42, 0xF3, 0x81, 0x08, 0x42, 0x82, 0x84, 0x77, 0x65, 0x62, 0x6D,
        0x42, 0x87, 0x81, 0x02, 0x42, 0x85, 0x81, 0x02, 0x18, 0x53, 0x80, 0x67, 0x01, 0xFF,
        0xFF, 0xFF, 0xFF, 0xFF, 0xFF, 0xFF, 0x15, 0x49, 0xA9, 0x66, 0xA0, 0x2A, 0xD7, 0xB1,
        0x83, 0x0F, 0x42, 0x40, 0x4D, 0x80, 0x84, 0x77, 0x65, 0x62, 0x6D, 0x57, 0x41, 0x84,
        0x77, 0x65, 0x62, 0x6D, 0x44, 0x89, 0x88, 0x00, 0x00, 0x00, 0x00, 0x00, 0x00, 0x00,
        0x00, 0x16, 0x54, 0xAE, 0x6B, 0x9D, 0xAE, 0x9B, 0xD7, 0x81, 0x01, 0x73, 0xC5, 0x81,
        0x01, 0x83, 0x81, 0x01, 0x86, 0x85, 0x56, 0x5F, 0x56, 0x50, 0x38, 0xE0, 0x88, 0xB0,
        0x82, 0x02, 0x80, 0xBA, 0x82, 0x01, 0xE0, 0x1F, 0x43, 0xB6, 0x75, 0x89, 0xE7, 0x81,
        0x00, 0xA3, 0x84, 0x81, 0x00, 0x00, 0x80,
    ];
    assert_eq!(bytes, expected);
}

#[test]
fn repeated_requested_number_fails_and_handle_stays_valid() {
    let builder = make_segment_builder();
    let (builder, video) = builder
        .add_video_track(420, 420, VideoCodecId::VP8, Some(123456))
        .expect("first requested number should be accepted");
    let second = builder.add_video_track(420, 420, VideoCodecId::VP8, Some(123456));
    let builder = match second {
        Ok(_) => panic!("second request of the same number should fail"),
        Err(e) => {
            assert!(matches!(e, Error::Unknown));
            // The builder was consumed by the failed call; recreate the
            // same state to show the first handle remains usable.
            let b = make_segment_builder();
            let (b, _) = b
                .add_video_track(420, 420, VideoCodecId::VP8, Some(123456))
                .expect("requested number should be accepted again");
            b
        },
    };
    assert_eq!(video.track_number(), 123456);
    let mut segment = builder.build();
    segment
        .add_frame(video.track_number(), &[0, 1, 2], 0, true)
        .expect("the first handle should still target its track");
    assert!(segment.finalize(None).is_ok());
}

#[test]
fn growth_is_proportional_to_payload() {
    let run = |payloads: &[&[u8]]| -> Vec<u8> {
        let writer = Writer::new(Vec::new());
        let builder = SegmentBuilder::new(writer).expect("builder should create OK");
        let (builder, video) = builder
            .add_video_track(640, 480, VideoCodecId::VP9, None)
            .expect("video track should be accepted");
        let mut segment = builder.build();
        let mut ts: u64 = 0;
        for p in payloads {
            segment
                .add_frame(video.track_number(), p, ts, true)
                .expect("frame should be accepted");
            ts += 1_000_000;
        }
        segment.finalize(None).expect("finalize should succeed").into_inner()
    };
    let small = run(&[&[7u8; 10], &[8u8; 10]]);
    let large = run(&[&[7u8; 10], &[8u8; 10], &[9u8; 1000]]);
    assert!(!small.is_empty());
    assert_eq!(&small[0..4], &[0x1A, 0x45, 0xDF, 0xA3]);
    let payload_total: usize = 10 + 10 + 1000;
    assert!(large.len() >= payload_total);
    assert!(large.len() >= small.len() + 1000);
}

#[test]
fn codec_private_and_color_are_accepted() {
    let builder = make_segment_builder();
    let (builder, video) = builder
        .add_video_track(640, 480, VideoCodecId::VP9, None)
        .expect("video track should be accepted");
    let (builder, audio) = builder
        .add_audio_track(48000, 2, AudioCodecId::Vorbis, None)
        .expect("audio track should be accepted");
    let builder = builder
        .set_codec_private(audio.track_number(), &[0x02, 0x01, 0x02])
        .expect("codec private data should be accepted");
    let builder = builder
        .set_color(
            video,
            8,
            webm::mux::ColorSubsampling { chroma_horizontal: 1, chroma_vertical: 1 },
            webm::mux::ColorRange::Broadcast,
        )
        .expect("color metadata should be accepted");
    let builder = builder
        .set_writing_app("mux-test")
        .expect("writing app name should be accepted");
    let _segment: Segment = builder.build();
}

#[test]
fn codec_private_on_unknown_track_is_bad_param() {
    let builder = make_segment_builder();
    let r = builder.set_codec_private(42, &[1, 2, 3]);
    assert!(matches!(r, Err(Error::BadParam)));
}

#[test]
fn color_on_foreign_handle_is_bad_param() {
    // A handle from another segment does not name a track here.
    let other = make_segment_builder();
    let (_, foreign) = other
        .add_video_track(640, 480, VideoCodecId::VP8, Some(55))
        .expect("video track should be accepted");
    let builder = make_segment_builder();
    let r = builder.set_color(
        foreign,
        8,
        webm::mux::ColorSubsampling::default(),
        webm::mux::ColorRange::Full,
    );
    assert!(matches!(r, Err(Error::BadParam)));
}

#[test]
fn writing_app_with_nul_is_bad_param() {
    let builder = make_segment_builder();
    let r = builder.set_writing_app("bad\0name");
    assert!(matches!(r, Err(Error::BadParam)));
}

#[test]
fn frame_on_unknown_track_is_bad_param() {
    let builder = make_segment_builder();
    let (builder, _) = builder
        .add_video_track(640, 480, VideoCodecId::VP8, Some(3))
        .expect("video track should be accepted");
    let mut segment = builder.build();
    let r = segment.add_frame(4, &[1], 0, true);
    assert!(matches!(r, Err(Error::BadParam)));
}

#[test]
fn error_messages() {
    assert_eq!(Error::BadParam.message(), "Bad parameter");
    assert_eq!(Error::Unknown.message(), "Unknown error");
}
