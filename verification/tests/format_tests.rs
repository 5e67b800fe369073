use webm::mux::SegmentBuilder;
use webm::mux::Track;
use webm::mux::VideoCodecId;
use webm::mux::Writer;
use webm::mux::ebml::f64_bits_u64;
use webm::mux::ebml::pow2_u64;
use webm::mux::ebml::push_be_bytes;
use webm::mux::ebml::push_uint_element;
use webm::mux::ebml::push_vint;

#[test]
fn powers_of_two() {
    assert_eq!(pow2_u64(0), 1);
    assert_eq!(pow2_u64(1), 2);
    assert_eq!(pow2_u64(24), 0x100_0000);
    assert_eq!(pow2_u64(63), 0x8000_0000_0000_0000);
}

#[test]
fn big_endian_bytes() {
    let mut out = Vec::new();
    push_be_bytes(&mut out, 0x1A45_DFA3, 4);
    assert_eq!(out, vec![0x1A, 0x45, 0xDF, 0xA3]);

    let mut out = Vec::new();
    push_be_bytes(&mut out, 1, 2);
    assert_eq!(out, vec![0x00, 0x01]);
}

#[test]
fn vint_encodings() {
    // One-byte vints carry values below 0x7F.
    let mut out = Vec::new();
    push_vint(&mut out, 8);
    assert_eq!(out, vec![0x88]);

    let mut out = Vec::new();
    push_vint(&mut out, 0);
    assert_eq!(out, vec![0x80]);

    // 0x7F itself needs two bytes (the all-ones pattern is reserved).
    let mut out = Vec::new();
    push_vint(&mut out, 0x7F);
    assert_eq!(out, vec![0x40, 0x7F]);

    let mut out = Vec::new();
    push_vint(&mut out, 0x3FFF);
    assert_eq!(out, vec![0x20, 0x3F, 0xFF]);
}

#[test]
fn uint_elements() {
    // TimecodeScale: 3-byte id, one-byte size, minimal-width value.
    let mut out = Vec::new();
    push_uint_element(&mut out, 0x2A_D7B1, 3, 1_000_000);
    assert_eq!(out, vec![0x2A, 0xD7, 0xB1, 0x83, 0x0F, 0x42, 0x40]);

    // A zero value still takes one payload byte.
    let mut out = Vec::new();
    push_uint_element(&mut out, 0xE7, 1, 0);
    assert_eq!(out, vec![0xE7, 0x81, 0x00]);
}

#[test]
fn double_bits_match_ieee() {
    for n in [
        0u64,
        1,
        2,
        3,
        48000,
        44100,
        0xFFFF_FFFF,
        (1u64 << 53) - 1,
        1u64 << 53,
        (1u64 << 53) + 1,
        (1u64 << 53) + 2,
        (1u64 << 53) + 3,
        0x7FFF_FFFF_FFFF_FFFF,
        u64::MAX,
        u64::MAX - 1,
    ] {
        assert_eq!(f64_bits_u64(n), (n as f64).to_bits(), "bits for {n}");
    }
}

#[test]
fn header_layout_is_exact() {
    // The fixed EBML header and the segment start are byte-for-byte
    // deterministic.
    let writer = Writer::new(Vec::new());
    let builder = SegmentBuilder::new(writer).expect("builder should create OK");
    let (builder, video) = builder
        .add_video_track(640, 480, VideoCodecId::VP8, None)
        .expect("video track should be accepted");
    let mut segment = builder.build();
    segment
        .add_frame(video.track_number(), &[1, 2, 3, 4], 0, true)
        .expect("frame should be accepted");
    let bytes = segment.finalize(None).expect("finalize should succeed").into_inner();

    let ebml_header = [
        0x1A, 0x45, 0xDF, 0xA3, 0x9F, // EBML, payload size 31
        0x42, 0x86, 0x81, 0x01, // EBMLVersion 1
        0x42, 0xF7, 0x81, 0x01, // EBMLReadVersion 1
        0x42, 0xF2, 0x81, 0x04, // EBMLMaxIDLength 4
        0x42, 0xF3, 0x81, 0x08, // EBMLMaxSizeLength 8
        0x42, 0x82, 0x84, 0x77, 0x65, 0x62, 0x6D, // DocType "webm"
        0x42, 0x87, 0x81, 0x02, // DocTypeVersion 2
        0x42, 0x85, 0x81, 0x02, // DocTypeReadVersion 2
    ];
    assert_eq!(&bytes[0..36], &ebml_header);

    let segment_start = [0x18, 0x53, 0x80, 0x67, 0x01, 0xFF, 0xFF, 0xFF, 0xFF, 0xFF, 0xFF, 0xFF];
    assert_eq!(&bytes[36..48], &segment_start);

    // The frame payload is carried verbatim inside the last cluster.
    assert!(bytes.windows(4).any(|w| w == [1, 2, 3, 4]));
}

#[test]
fn distant_timestamps_open_new_clusters() {
    let run = |timestamps: &[u64]| -> Vec<u8> {
        let writer = Writer::new(Vec::new());
        let builder = SegmentBuilder::new(writer).expect("builder should create OK");
        let (builder, video) = builder
            .add_video_track(640, 480, VideoCodecId::VP8, None)
            .expect("video track should be accepted");
        let mut segment = builder.build();
        for &ts in timestamps {
            segment
                .add_frame(video.track_number(), &[0x42], ts, true)
                .expect("frame should be accepted");
        }
        segment.finalize(None).expect("finalize should succeed").into_inner()
    };
    let cluster_id = [0x1F, 0x43, 0xB6, 0x75];
    let count = |bytes: &[u8]| bytes.windows(4).filter(|w| *w == cluster_id).count();

    // Close timestamps share one cluster.
    let one = run(&[0, 1_000_000, 2_000_000]);
    assert_eq!(count(&one), 1);

    // A timestamp more than 32767 ticks (about 32 s) past the cluster's
    // start opens a new cluster.
    let two = run(&[0, 40_000_000_000]);
    assert_eq!(count(&two), 2);

    // A timestamp before the cluster's start opens a new cluster too.
    let backwards = run(&[40_000_000_000, 0]);
    assert_eq!(count(&backwards), 2);
}

#[test]
fn codec_names_appear_in_output() {
    let writer = Writer::new(Vec::new());
    let builder = SegmentBuilder::new(writer).expect("builder should create OK");
    let (builder, video) = builder
        .add_video_track(640, 480, VideoCodecId::AV1, None)
        .expect("video track should be accepted");
    let (builder, audio) = builder
        .add_audio_track(48000, 2, webm::mux::AudioCodecId::Opus, None)
        .expect("audio track should be accepted");
    let builder = builder
        .set_codec_private(audio.track_number(), &[0x4F, 0x70, 0x75, 0x73, 0x48, 0x65, 0x61, 0x64])
        .expect("codec private data should be accepted");
    let mut segment = builder.build();
    segment
        .add_frame(video.track_number(), &[9, 9, 9], 0, true)
        .expect("frame should be accepted");
    let bytes = segment.finalize(None).expect("finalize should succeed").into_inner();

    let contains = |needle: &[u8]| bytes.windows(needle.len()).any(|w| w == needle);
    assert!(contains(b"V_AV1"));
    assert!(contains(b"A_OPUS"));
    // The codec private blob is carried verbatim.
    assert!(contains(&[0x4F, 0x70, 0x75, 0x73, 0x48, 0x65, 0x61, 0x64]));
    // The audio sampling frequency is an 8-byte float.
    assert!(contains(&(48000f64).to_bits().to_be_bytes()));
}

#[test]
fn non_seek_output_has_no_duration_element() {
    let run = |seekable: bool| -> Vec<u8> {
        let writer = if seekable {
            Writer::new(Vec::new())
        } else {
            Writer::new_non_seek(Vec::new())
        };
        let builder = SegmentBuilder::new(writer).expect("builder should create OK");
        let (builder, video) = builder
            .add_video_track(640, 480, VideoCodecId::VP8, None)
            .expect("video track should be accepted");
        let mut segment = builder.build();
        segment
            .add_frame(video.track_number(), &[5, 6], 0, true)
            .expect("frame should be accepted");
        segment.finalize(None).expect("finalize should succeed").into_inner()
    };
    let with_seek = run(true);
    let without_seek = run(false);
    // The seekable stream reserves a Duration element (11 bytes) for
    // patching during finalization; the non-seekable one does not.
    assert_eq!(with_seek.len(), without_seek.len() + 11);
    assert!(with_seek.windows(3).any(|w| w == [0x44, 0x89, 0x88]));
    assert!(!without_seek.windows(3).any(|w| w == [0x44, 0x89, 0x88]));
}

#[test]
fn duration_is_patched_when_seekable() {
    let run = |duration: Option<u64>| -> Vec<u8> {
        let writer = Writer::new(Vec::new());
        let builder = SegmentBuilder::new(writer).expect("builder should create OK");
        let (builder, video) = builder
            .add_video_track(640, 480, VideoCodecId::VP8, None)
            .expect("video track should be accepted");
        let mut segment = builder.build();
        segment
            .add_frame(video.track_number(), &[5, 6], 0, true)
            .expect("frame should be accepted");
        segment.finalize(duration).expect("finalize should succeed").into_inner()
    };
    let unpatched = run(None);
    let patched = run(Some(2000));
    assert_eq!(unpatched.len(), patched.len());
    assert_ne!(unpatched, patched);
    // The patched stream holds the duration as an 8-byte float.
    let expected = (2000f64).to_bits().to_be_bytes();
    assert!(patched.windows(8).any(|w| w == expected));
    assert!(!unpatched.windows(8).any(|w| w == expected));
}
