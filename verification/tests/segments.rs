use access_unit::aac::create_adts_header;
use fmp4_mux::fmp4::{audio_track_id, box_fmp4, build_audio_track, build_video_track, flac_init_streaminfo, AudioTrack, Fmp4BuildError};
use fmp4_mux::sample::AccessUnit;
use mse_fmp4::avc::AvcDecoderConfigurationRecord;

fn contains(hay: &[u8], needle: &[u8]) -> bool {
    hay.windows(needle.len()).any(|w| w == needle)
}

fn video_unit(dts: u64, pts: u64, key: bool, data: Vec<u8>) -> AccessUnit {
    AccessUnit { dts, pts, key, is_video: true, data }
}

fn audio_unit(ts: u64, data: Vec<u8>) -> AccessUnit {
    AccessUnit { dts: ts, pts: ts, key: false, is_video: false, data }
}

fn avcc_record() -> AvcDecoderConfigurationRecord {
    AvcDecoderConfigurationRecord {
        profile_idc: 66,
        constraint_set_flag: 0,
        level_idc: 30,
        sequence_parameter_set: vec![0x67, 0x42, 0x00, 0x1e],
        picture_parameter_set: vec![0x68, 0xce],
    }
}

fn adts_frame(payload_len: usize, fill: u8) -> Vec<u8> {
    let mut frame = create_adts_header(0x66, 2, 48_000, payload_len, false);
    frame.extend_from_slice(&vec![fill; payload_len]);
    frame
}

fn flac_frame() -> Vec<u8> {
    // Fixed-size frame: block-size code 9 (512), rate code 9 (44100),
    // two independent channels, 16 bits per sample, frame number 0.
    let mut frame = vec![0xff, 0xf8, 0x99, 0x18, 0x00, 0x00];
    frame.extend_from_slice(&[0xaa; 10]);
    frame
}

#[test]
fn single_video_key_unit_yields_one_sample_of_next_dts_duration() {
    let units = vec![video_unit(0, 0, true, vec![1, 2, 3, 4])];
    let t = build_video_track(&units, 3000);
    assert_eq!(t.samples.len(), 1);
    assert_eq!(t.samples[0].duration, Some(3000));
    assert_eq!(t.samples[0].size, Some(4));
    assert_eq!(t.samples[0].composition_time_offset, Some(0));
    let flags = t.samples[0].flags.expect("video samples carry flags");
    assert!(!flags.sample_is_non_sync_sample);
    assert_eq!(flags.sample_depends_on, 0);
    assert!(t.key);
    assert_eq!(t.total_ticks, 3000);
    assert_eq!(t.base_media_decode_time, 0);

    let avcc = avcc_record();
    let seg = box_fmp4(1, Some(&avcc), &units, &Vec::new(), 3000).expect("build");
    assert!(seg.key);
    assert_eq!(seg.duration_ms, 33);
    let init = seg.init.expect("first build carries the init segment");
    assert!(contains(&init, b"moov"));
    assert!(contains(&init, b"avc1"));
    assert!(contains(&init, b"trex"));
    assert!(contains(&seg.data, b"moof"));
    assert!(contains(&seg.data, b"mdat"));
    assert!(contains(&seg.data, &[1, 2, 3, 4]));
}

#[test]
fn video_durations_are_the_deltas_and_sum_to_the_span() {
    let units = vec![
        video_unit(0, 100, true, vec![0x11; 8]),
        video_unit(1000, 1000, false, vec![0x22; 6]),
        video_unit(2500, 2600, false, vec![0x33; 2]),
    ];
    let t = build_video_track(&units, 4000);
    assert_eq!(t.samples.len(), 3);
    assert_eq!(t.samples[0].duration, Some(1000));
    assert_eq!(t.samples[1].duration, Some(1500));
    assert_eq!(t.samples[2].duration, Some(1500));
    let sum: u64 = t.samples.iter().map(|s| s.duration.unwrap() as u64).sum();
    assert_eq!(sum, 4000);
    assert_eq!(t.samples[0].composition_time_offset, Some(100));
    assert_eq!(t.samples[1].composition_time_offset, Some(0));
    assert_eq!(t.samples[2].composition_time_offset, Some(100));
    assert_eq!(t.data, {
        let mut all = vec![0x11; 8];
        all.extend_from_slice(&[0x22; 6]);
        all.extend_from_slice(&[0x33; 2]);
        all
    });
    let non_sync = t.samples[1].flags.unwrap();
    assert!(non_sync.sample_is_non_sync_sample);
    assert_eq!(non_sync.sample_depends_on, 1);
}

#[test]
fn key_flag_follows_video_sync_samples_and_audio_only_is_always_key() {
    let avcc = avcc_record();
    let no_sync = vec![video_unit(0, 0, false, vec![1])];
    let seg = box_fmp4(1, Some(&avcc), &no_sync, &Vec::new(), 100).expect("build");
    assert!(!seg.key);

    let with_sync = vec![video_unit(0, 0, false, vec![1]), video_unit(10, 10, true, vec![2])];
    let seg = box_fmp4(2, Some(&avcc), &with_sync, &Vec::new(), 100).expect("build");
    assert!(seg.key);

    let audio = vec![audio_unit(0, adts_frame(50, 0x55))];
    let seg = box_fmp4(3, None, &Vec::new(), &audio, 0).expect("build");
    assert!(seg.key);
    assert_eq!(seg.duration_ms, 0);
}

#[test]
fn ten_aac_frames_make_ten_samples_of_21_ms_and_an_aac_init_segment() {
    let units: Vec<AccessUnit> = (0..10).map(|i| audio_unit(i, adts_frame(200, 0xab))).collect();
    match build_audio_track(&units) {
        AudioTrack::Aac { samples, data, base_media_decode_time, header, skipped } => {
            assert_eq!(samples.len(), 10);
            for s in &samples {
                assert_eq!(s.duration, Some(21));
                assert_eq!(s.size, Some(200));
                assert_eq!(s.flags, None);
                assert_eq!(s.composition_time_offset, None);
            }
            assert_eq!(data.len(), 2000);
            assert!(data.iter().all(|&b| b == 0xab));
            assert_eq!(base_media_decode_time, 0);
            assert_eq!(header.sample_rate, 48_000);
            assert_eq!(header.freq_index, 3);
            assert_eq!(header.channel_config, 2);
            assert_eq!(header.profile, 1);
            assert_eq!(skipped, 0);
        }
        other => panic!("expected an AAC track, got {:?}", variant_name(&other)),
    }

    let seg = box_fmp4(1, None, &Vec::new(), &units, 0).expect("build");
    assert!(seg.key);
    let init = seg.init.expect("AAC configuration known");
    assert!(contains(&init, b"moov"));
    assert!(contains(&init, b"mp4a"));
    assert!(contains(&init, b"esds"));
    assert!(!contains(&init, b"avc1"));
    assert!(contains(&seg.data, &vec![0xab; 2000][..]));
}

fn variant_name(t: &AudioTrack) -> &'static str {
    match t {
        AudioTrack::Absent => "Absent",
        AudioTrack::Aac { .. } => "Aac",
        AudioTrack::Flac { .. } => "Flac",
    }
}

#[test]
fn malformed_aac_units_are_skipped_and_counted() {
    let units = vec![
        audio_unit(0, adts_frame(30, 0x01)),
        audio_unit(1, vec![0xff, 0xf1, 0x00]), // truncated header
        audio_unit(2, adts_frame(40, 0x02)),
    ];
    match build_audio_track(&units) {
        AudioTrack::Aac { samples, data, skipped, .. } => {
            assert_eq!(samples.len(), 2);
            assert_eq!(samples[0].size, Some(30));
            assert_eq!(samples[1].size, Some(40));
            assert_eq!(data.len(), 70);
            assert_eq!(skipped, 1);
        }
        other => panic!("expected an AAC track, got {:?}", variant_name(&other)),
    }
}

#[test]
fn flac_units_become_block_size_samples_with_verbatim_payload() {
    let frame = flac_frame();
    let units: Vec<AccessUnit> = (0..3).map(|_| audio_unit(1000, frame.clone())).collect();
    match build_audio_track(&units) {
        AudioTrack::Flac { samples, data, base_media_decode_time, frame: fi } => {
            assert_eq!(samples.len(), 3);
            for s in &samples {
                assert_eq!(s.duration, Some(512));
                assert_eq!(s.size, Some(frame.len() as u32));
                assert_eq!(s.flags, None);
            }
            assert_eq!(data.len(), 3 * frame.len());
            assert_eq!(&data[..frame.len()], &frame[..]);
            assert_eq!(base_media_decode_time, 1000);
            assert_eq!(fi.block_size, 512);
            assert_eq!(fi.sample_rate, 44_100);
            assert_eq!(fi.channels, 2);
            assert_eq!(fi.bits_per_sample, 16);
        }
        other => panic!("expected a FLAC track, got {:?}", variant_name(&other)),
    }

    // The box library in use has no FLAC sample-description entry, so a
    // FLAC-only fragment carries no initialization segment.
    let seg = box_fmp4(1, None, &Vec::new(), &units, 0).expect("build");
    assert!(seg.key);
    assert!(seg.init.is_none());
    assert!(contains(&seg.data, &frame[..]));
}

#[test]
fn flac_streaminfo_synthesis_packs_the_frame_fields() {
    let block = flac_init_streaminfo(&flac_frame()).expect("decodable frame header");
    assert_eq!(block.len(), 34);
    // block size 512 as both bounds
    assert_eq!(&block[..4], &[0x02, 0x00, 0x02, 0x00]);
    // zero frame-size bounds
    assert_eq!(&block[4..10], &[0u8; 6]);
    // 44100 Hz, 2 channels, 16 bits per sample, sample count 0
    assert_eq!(&block[10..14], &[0x0a, 0xc4, 0x42, 0xf0]);
    assert_eq!(&block[14..18], &[0u8; 4]);
    assert_eq!(&block[18..], &[0u8; 16]);

    assert_eq!(flac_init_streaminfo(&[0u8; 16]), None);
}

#[test]
fn unrecognized_audio_contributes_nothing() {
    let units = vec![audio_unit(0, vec![0u8; 12])];
    assert!(matches!(build_audio_track(&units), AudioTrack::Absent));

    // Unrecognized audio beside video: only the video track is written.
    let avcc = avcc_record();
    let video = vec![video_unit(0, 0, true, vec![7, 7, 7])];
    let seg = box_fmp4(1, Some(&avcc), &video, &units, 90).expect("build");
    assert!(seg.key);
    assert!(contains(&seg.data, &[7, 7, 7]));
    assert!(!contains(&seg.data, &[0u8; 12]));
}

#[test]
fn empty_fragment_is_a_serialization_error_not_a_panic() {
    let r = box_fmp4(1, None, &Vec::new(), &Vec::new(), 0);
    assert_eq!(r.unwrap_err(), Fmp4BuildError::Serialization);
}

#[test]
fn aac_configurations_the_box_model_refuses_are_rejected_up_front() {
    // 96000 Hz: the sample-rate field of the sample entry is 16-bit.
    let high_rate: Vec<AccessUnit> = (0..2u64)
        .map(|i| {
            let mut f = create_adts_header(0x66, 2, 96_000, 50, false);
            f.extend_from_slice(&[0x11; 50]);
            audio_unit(i, f)
        })
        .collect();
    assert_eq!(
        box_fmp4(1, None, &Vec::new(), &high_rate, 0).unwrap_err(),
        Fmp4BuildError::UnsupportedConfiguration
    );

    // 64000 Hz (index 2) still fits the 16-bit rate field and is accepted.
    let ok_rate: Vec<AccessUnit> = (0..2u64)
        .map(|i| {
            let mut f = create_adts_header(0x66, 2, 64_000, 50, false);
            f.extend_from_slice(&[0x33; 50]);
            audio_unit(i, f)
        })
        .collect();
    let seg = box_fmp4(1, None, &Vec::new(), &ok_rate, 0).expect("64 kHz serializes");
    assert!(seg.init.is_some());

    // 3 channels: the sample entry accepts only 1 or 2.
    let three_channels: Vec<AccessUnit> = (0..2u64)
        .map(|i| {
            let mut f = create_adts_header(0x66, 3, 48_000, 50, false);
            f.extend_from_slice(&[0x22; 50]);
            audio_unit(i, f)
        })
        .collect();
    assert_eq!(
        box_fmp4(1, None, &Vec::new(), &three_channels, 0).unwrap_err(),
        Fmp4BuildError::UnsupportedConfiguration
    );
}

#[test]
fn avc_profiles_the_record_serializer_refuses_are_rejected_up_front() {
    let mut avcc = avcc_record();
    avcc.profile_idc = 100;
    let units = vec![video_unit(0, 0, true, vec![1])];
    assert_eq!(
        box_fmp4(1, Some(&avcc), &units, &Vec::new(), 3000).unwrap_err(),
        Fmp4BuildError::UnsupportedConfiguration
    );
}

#[test]
fn flac_blocksize_overflow_pattern_is_sidestepped_not_decoded() {
    // Block-size code 7 with an all-ones 16-bit field: the outside decoder's
    // plus-one would overflow, so the frame is treated as undecodable.
    let crafted = vec![0xff, 0xf8, 0x70, 0x00, 0x00, 0xff, 0xff];
    let units = vec![audio_unit(0, crafted.clone())];
    assert!(matches!(build_audio_track(&units), AudioTrack::Absent));
    assert_eq!(flac_init_streaminfo(&crafted), None);
}

#[test]
fn audio_track_id_depends_on_video_presence() {
    assert_eq!(audio_track_id(true), 2);
    assert_eq!(audio_track_id(false), 1);
}
